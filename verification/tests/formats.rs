use riscv_assembler::{
    BType, BTypeInstruction, IType, ITypeInstruction, Instruction, JType, JTypeInstruction, RType,
    RTypeInstruction, SType, STypeInstruction, UType, UTypeInstruction,
};

fn rtype(instruction: RTypeInstruction, rd: u8, rs1: u8, rs2: u8) -> u32 {
    Instruction::RType(RType { instruction, rd, rs1, rs2 }).encode()
}

fn itype(instruction: ITypeInstruction, rd: u8, rs1: u8, imm: i16) -> u32 {
    Instruction::IType(IType { instruction, rd, rs1, imm }).encode()
}

fn stype(instruction: STypeInstruction, rs1: u8, rs2: u8, imm: i16) -> u32 {
    Instruction::SType(SType { instruction, rs1, rs2, imm }).encode()
}

fn btype(instruction: BTypeInstruction, rs1: u8, rs2: u8, imm: i16) -> u32 {
    Instruction::BType(BType { instruction, rs1, rs2, imm }).encode()
}

fn utype(instruction: UTypeInstruction, rd: u8, imm: i32) -> u32 {
    Instruction::UType(UType { instruction, rd, imm }).encode()
}

fn jtype(rd: u8, imm: i32) -> u32 {
    Instruction::JType(JType { _instruction: JTypeInstruction::Jal, rd, imm }).encode()
}

#[test]
fn every_rtype_mnemonic_has_its_funct_fields() {
    assert_eq!(rtype(RTypeInstruction::Add, 5, 6, 7), 0x007302B3);
    assert_eq!(rtype(RTypeInstruction::Sub, 5, 6, 7), 0x407302B3);
    assert_eq!(rtype(RTypeInstruction::Sll, 5, 6, 7), 0x007312B3);
    assert_eq!(rtype(RTypeInstruction::Slt, 5, 6, 7), 0x007322B3);
    assert_eq!(rtype(RTypeInstruction::Sltu, 5, 6, 7), 0x007332B3);
    assert_eq!(rtype(RTypeInstruction::Xor, 5, 6, 7), 0x007342B3);
    assert_eq!(rtype(RTypeInstruction::Srl, 5, 6, 7), 0x007352B3);
    assert_eq!(rtype(RTypeInstruction::Sra, 5, 6, 7), 0x407352B3);
    assert_eq!(rtype(RTypeInstruction::Or, 5, 6, 7), 0x007362B3);
    assert_eq!(rtype(RTypeInstruction::And, 5, 6, 7), 0x007372B3);
}

#[test]
fn every_itype_mnemonic_has_its_opcode_and_funct3() {
    assert_eq!(itype(ITypeInstruction::Addi, 8, 9, -5), 0xFFB48413);
    assert_eq!(itype(ITypeInstruction::Slti, 8, 9, -5), 0xFFB4A413);
    assert_eq!(itype(ITypeInstruction::Sltiu, 8, 9, -5), 0xFFB4B413);
    assert_eq!(itype(ITypeInstruction::Xori, 8, 9, -5), 0xFFB4C413);
    assert_eq!(itype(ITypeInstruction::Ori, 8, 9, -5), 0xFFB4E413);
    assert_eq!(itype(ITypeInstruction::Andi, 8, 9, -5), 0xFFB4F413);
    assert_eq!(itype(ITypeInstruction::Lb, 8, 9, -5), 0xFFB48403);
    assert_eq!(itype(ITypeInstruction::Lh, 8, 9, -5), 0xFFB49403);
    assert_eq!(itype(ITypeInstruction::Lw, 8, 9, -5), 0xFFB4A403);
    assert_eq!(itype(ITypeInstruction::Lbu, 8, 9, -5), 0xFFB4C403);
    assert_eq!(itype(ITypeInstruction::Lhu, 8, 9, -5), 0xFFB4D403);
    assert_eq!(itype(ITypeInstruction::Jalr, 8, 9, -5), 0xFFB48467);
}

#[test]
fn jalr_encoding() {
    assert_eq!(itype(ITypeInstruction::Jalr, 1, 5, 8), 0x008280E7);
}

#[test]
fn every_stype_mnemonic_splits_the_immediate() {
    assert_eq!(stype(STypeInstruction::Sb, 6, 5, -1), 0xFE530FA3);
    assert_eq!(stype(STypeInstruction::Sh, 30, 31, 2047), 0x7FFF1FA3);
    assert_eq!(stype(STypeInstruction::Sw, 2, 10, 8), 0x00A12423);
}

#[test]
fn every_btype_mnemonic_scatters_the_offset() {
    assert_eq!(btype(BTypeInstruction::Beq, 1, 2, 16), 0x00208863);
    assert_eq!(btype(BTypeInstruction::Bne, 3, 4, -8), 0xFE419CE3);
    assert_eq!(btype(BTypeInstruction::Blt, 5, 6, 4094), 0x7E62CFE3);
    assert_eq!(btype(BTypeInstruction::Bge, 7, 8, -4096), 0x8083D063);
    assert_eq!(btype(BTypeInstruction::Bltu, 9, 10, 2048), 0x00A4E0E3);
    assert_eq!(btype(BTypeInstruction::Bgeu, 11, 12, -2), 0xFEC5FFE3);
}

#[test]
fn branch_offset_twelve_gives_the_word_with_field_six() {
    assert_eq!(btype(BTypeInstruction::Beq, 1, 2, 12), 0x00208663);
}

#[test]
fn branch_ignores_the_lowest_bit_of_the_offset() {
    assert_eq!(btype(BTypeInstruction::Beq, 1, 2, 17), btype(BTypeInstruction::Beq, 1, 2, 16));
}

#[test]
fn upper_immediate_is_taken_in_place() {
    assert_eq!(utype(UTypeInstruction::Lui, 5, 0x12345000), 0x123452B7);
    assert_eq!(utype(UTypeInstruction::Lui, 11, 0x12345000), 0x123455B7);
    assert_eq!(utype(UTypeInstruction::Auipc, 31, -4096), 0xFFFFFF97);
}

#[test]
fn upper_immediate_drops_its_low_twelve_bits() {
    assert_eq!(utype(UTypeInstruction::Lui, 5, 0x12345), 0x000122B7);
    assert_eq!(utype(UTypeInstruction::Lui, 7, 4095), 0x000003B7);
}

#[test]
fn upper_immediate_edges() {
    assert_eq!(utype(UTypeInstruction::Lui, 0, 0), 0x00000037);
    assert_eq!(utype(UTypeInstruction::Lui, 1, 0xFFFFF000u32 as i32), 0xFFFFF0B7);
    assert_eq!(utype(UTypeInstruction::Auipc, 0, 0), 0x00000017);
}

#[test]
fn jump_offset_is_scattered() {
    assert_eq!(jtype(1, 0x20000), 0x000200EF);
    assert_eq!(jtype(1, 512), 0x200000EF);
    assert_eq!(jtype(0, -4), 0xFFDFF06F);
    assert_eq!(jtype(1, 2048), 0x001000EF);
}

#[test]
fn jump_offset_edges() {
    assert_eq!(jtype(5, 1048574), 0x7FFFF2EF);
    assert_eq!(jtype(5, -1048576), 0x800002EF);
    assert_eq!(jtype(5, 1048576 * 2), jtype(5, 0));
}

#[test]
fn itype_immediate_at_the_edge_of_its_field() {
    assert_eq!(itype(ITypeInstruction::Addi, 1, 1, 2047), 0x7FF08093);
    assert_eq!(itype(ITypeInstruction::Addi, 1, 1, -2048), 0x80008093);
    assert_eq!(itype(ITypeInstruction::Addi, 1, 1, -1), 0xFFF08093);
}

#[test]
fn itype_immediate_beyond_its_field_is_truncated() {
    assert_eq!(itype(ITypeInstruction::Addi, 1, 1, 2048), 0x80008093);
    assert_eq!(itype(ITypeInstruction::Addi, 1, 1, 4096), 0x00008093);
    assert_eq!(itype(ITypeInstruction::Addi, 1, 1, i16::MIN), 0x00008093);
    assert_eq!(itype(ITypeInstruction::Addi, 1, 1, i16::MAX), 0xFFF08093);
}

#[test]
fn stype_immediate_at_and_beyond_the_edge_of_its_field() {
    assert_eq!(stype(STypeInstruction::Sw, 2, 1, -2048), 0x80112023);
    assert_eq!(stype(STypeInstruction::Sw, 8, 7, 2048), 0x80742023);
}

#[test]
fn registers_at_the_edge() {
    assert_eq!(rtype(RTypeInstruction::Add, 31, 31, 31), 0x01FF8FB3);
    assert_eq!(rtype(RTypeInstruction::Add, 0, 0, 0), 0x00000033);
}

#[test]
fn register_above_31_is_packed_as_it_is() {
    assert_eq!(rtype(RTypeInstruction::Add, 32, 0, 0), 0x00001033);
    assert_eq!(rtype(RTypeInstruction::Add, 255, 255, 255), 0x0FFFFFB3);
    assert_eq!(rtype(RTypeInstruction::Sub, 0, 255, 0), 0x407F8033);
    assert_eq!(itype(ITypeInstruction::Addi, 255, 0, 0), 0x00007F93);
    assert_eq!(stype(STypeInstruction::Sw, 255, 255, 0), 0x0FFFA023);
}

#[test]
fn encoding_twice_gives_the_same_word() {
    let instruction = Instruction::BType(BType {
        instruction: BTypeInstruction::Bne,
        rs1: 3,
        rs2: 4,
        imm: -8,
    });
    let copy = instruction;
    assert_eq!(instruction.encode(), instruction.encode());
    assert_eq!(instruction.encode(), copy.encode());
}

#[test]
fn fields_can_be_read_back_from_every_rtype_word() {
    for rd in 0..32u8 {
        for rs1 in [0u8, 1, 17, 31] {
            for rs2 in [0u8, 2, 30, 31] {
                let word = rtype(RTypeInstruction::Sra, rd, rs1, rs2);
                assert_eq!(word & 0x7F, 0x33);
                assert_eq!((word >> 7) & 0x1F, rd as u32);
                assert_eq!((word >> 12) & 0x7, 5);
                assert_eq!((word >> 15) & 0x1F, rs1 as u32);
                assert_eq!((word >> 20) & 0x1F, rs2 as u32);
                assert_eq!(word >> 25, 0x20);
            }
        }
    }
}

#[test]
fn immediate_fields_hold_the_immediate_modulo_their_width() {
    for imm in [i16::MIN, -4097, -4096, -2049, -2048, -1, 0, 1, 2047, 2048, 4095, 4096, i16::MAX] {
        let word = itype(ITypeInstruction::Lw, 1, 2, imm);
        assert_eq!((word >> 20) as i64, (imm as i64).rem_euclid(4096));
        let word = stype(STypeInstruction::Sw, 1, 2, imm);
        let stored = 32 * (word >> 25) + ((word >> 7) & 0x1F);
        assert_eq!(stored as i64, (imm as i64).rem_euclid(4096));
        let word = btype(BTypeInstruction::Beq, 1, 2, imm);
        let stored = 4096 * (word >> 31) + 2048 * ((word >> 7) & 1) + 32 * ((word >> 25) & 0x3F)
            + 2 * ((word >> 8) & 0xF);
        assert_eq!(stored as i64, (imm as i64).rem_euclid(8192) - (imm as i64).rem_euclid(2));
    }
    for imm in [i32::MIN, -1048577, -1048576, -2, -1, 0, 1, 2, 1048574, 1048575, 1048576, i32::MAX] {
        let word = jtype(1, imm);
        let stored = 0x100000 * (word >> 31) + 0x1000 * ((word >> 12) & 0xFF)
            + 0x800 * ((word >> 20) & 1) + 2 * ((word >> 21) & 0x3FF);
        assert_eq!(stored as i64, (imm as i64).rem_euclid(0x200000) - (imm as i64).rem_euclid(2));
        let word = utype(UTypeInstruction::Lui, 1, imm);
        assert_eq!((word >> 12) as i64, (imm as i64).rem_euclid(1 << 32) / 4096);
    }
}
