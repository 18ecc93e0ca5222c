use riscv_assembler::{
    IType, ITypeInstruction, Instruction, RType, RTypeInstruction, SType, STypeInstruction,
};

#[test]
fn test_add_encoding() {
    let add = Instruction::RType(RType {
        instruction: RTypeInstruction::Add,
        rd: 1,
        rs1: 2,
        rs2: 3,
    });
    assert_eq!(add.encode(), 0x003100B3);
}

#[test]
fn test_sub_encoding() {
    let sub = Instruction::RType(RType {
        instruction: RTypeInstruction::Sub,
        rd: 1,
        rs1: 2,
        rs2: 3,
    });
    assert_eq!(sub.encode(), 0x403100B3);
}

#[test]
fn test_addi_encoding() {
    let addi = Instruction::IType(IType {
        instruction: ITypeInstruction::Addi,
        rd: 2,
        rs1: 2,
        imm: 4,
    });
    assert_eq!(addi.encode(), 0x00410113);
}

#[test]
fn test_slti_encoding() {
    let slti = Instruction::IType(IType {
        instruction: ITypeInstruction::Slti,
        rd: 2,
        rs1: 2,
        imm: 4,
    });
    assert_eq!(slti.encode(), 0x00412113);
}

#[test]
fn test_sltiu_encoding() {
    let sltiu = Instruction::IType(IType {
        instruction: ITypeInstruction::Sltiu,
        rd: 2,
        rs1: 2,
        imm: 4,
    });
    assert_eq!(sltiu.encode(), 0x00413113);
}

#[test]
fn test_xori_encoding() {
    let xori = Instruction::IType(IType {
        instruction: ITypeInstruction::Xori,
        rd: 2,
        rs1: 2,
        imm: 4,
    });
    assert_eq!(xori.encode(), 0x00414113);
}

#[test]
fn test_ori_encoding() {
    let ori = Instruction::IType(IType {
        instruction: ITypeInstruction::Ori,
        rd: 2,
        rs1: 2,
        imm: 4,
    });
    assert_eq!(ori.encode(), 0x00416113);
}

#[test]
fn test_andi_encoding() {
    let andi = Instruction::IType(IType {
        instruction: ITypeInstruction::Andi,
        rd: 2,
        rs1: 2,
        imm: 4,
    });
    assert_eq!(andi.encode(), 0x00417113);
}

#[test]
fn test_lb_encoding() {
    let lb = Instruction::IType(IType {
        instruction: ITypeInstruction::Lb,
        rd: 2,
        rs1: 2,
        imm: 4,
    });
    assert_eq!(lb.encode(), 0x00410103);
}

#[test]
fn test_lh_encoding() {
    let lh = Instruction::IType(IType {
        instruction: ITypeInstruction::Lh,
        rd: 2,
        rs1: 2,
        imm: 4,
    });
    assert_eq!(lh.encode(), 0x00411103);
}

#[test]
fn test_lw_encoding() {
    let lw = Instruction::IType(IType {
        instruction: ITypeInstruction::Lw,
        rd: 3,
        rs1: 4,
        imm: 8,
    });
    assert_eq!(lw.encode(), 0x00822183);
}

#[test]
fn test_lbu_encoding() {
    let lbu = Instruction::IType(IType {
        instruction: ITypeInstruction::Lbu,
        rd: 2,
        rs1: 2,
        imm: 4,
    });
    assert_eq!(lbu.encode(), 0x00414103);
}

#[test]
fn test_lhu_encoding() {
    let lhu = Instruction::IType(IType {
        instruction: ITypeInstruction::Lhu,
        rd: 2,
        rs1: 2,
        imm: 4,
    });
    assert_eq!(lhu.encode(), 0x00415103);
}


#[test]
fn test_sh_encoding() {
    let sh = Instruction::SType(SType {
        instruction: STypeInstruction::Sh,
        rs1: 2,
        rs2: 10,
        imm: 0,
    });
    assert_eq!(sh.encode(), 0x00A11023);
}

#[test]
fn test_sw_encoding() {
    let sw = Instruction::SType(SType {
        instruction: STypeInstruction::Sw,
        rs1: 2,
        rs2: 10,
        imm: 0,
    });
    assert_eq!(sw.encode(), 0x00A12023);
}
