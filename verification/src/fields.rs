//! What the fields of a machine word hold.
//!
//! The field groups of each format are disjoint, so combining them with
//! bitwise OR loses nothing: with the registers in range, every field can be
//! read back from the word at its position. The immediate that a word carries
//! is the instruction's immediate truncated to the width of its field in two's
//! complement, so an immediate at or beyond the edge of its field wraps
//! rather than fails.
use vstd::prelude::*;
use crate::instruction::{BType, IType, Instruction, JType, RType, SType, UType};

verus! {

/// The `width` bits of `word` that start at bit `low`.
pub open spec fn field(word: u32, low: u32, width: u32) -> u32 {
    (word >> low) & (((1u32 << width) - 1) as u32)
}

proof fn lemma_unpack_six(opcode: u32, a: u32, funct3: u32, b: u32, c: u32, funct7: u32)
    by (bit_vector)
    requires
        opcode < 128,
        a < 32,
        funct3 < 8,
        b < 32,
        c < 32,
        funct7 < 128,
    ensures
        ({
            let word = opcode | (a << 7) | (funct3 << 12) | (b << 15) | (c << 20) | (funct7 << 25);
            &&& field(word, 0, 7) == opcode
            &&& field(word, 7, 5) == a
            &&& field(word, 12, 3) == funct3
            &&& field(word, 15, 5) == b
            &&& field(word, 20, 5) == c
            &&& field(word, 25, 7) == funct7
        }),
{
}

/// Every field of an R-type word can be read back when the registers are in
/// range.
pub proof fn lemma_rtype_fields(i: RType)
    requires
        i.rd < 32,
        i.rs1 < 32,
        i.rs2 < 32,
    ensures
        field(i.word(), 0, 7) == 0b0110011,
        field(i.word(), 7, 5) == i.rd,
        field(i.word(), 12, 3) == i.instruction.funct3(),
        field(i.word(), 15, 5) == i.rs1,
        field(i.word(), 20, 5) == i.rs2,
        field(i.word(), 25, 7) == i.instruction.funct7(),
{
    lemma_unpack_six(
        i.instruction.opcode(),
        i.rd as u32,
        i.instruction.funct3(),
        i.rs1 as u32,
        i.rs2 as u32,
        i.instruction.funct7(),
    );
}

proof fn lemma_unpack_five(opcode: u32, a: u32, funct3: u32, b: u32, imm: u32)
    by (bit_vector)
    requires
        opcode < 128,
        a < 32,
        funct3 < 8,
        b < 32,
        imm < 4096,
    ensures
        ({
            let word = opcode | (a << 7) | (funct3 << 12) | (b << 15) | (imm << 20);
            &&& field(word, 0, 7) == opcode
            &&& field(word, 7, 5) == a
            &&& field(word, 12, 3) == funct3
            &&& field(word, 15, 5) == b
            &&& field(word, 20, 12) == imm
        }),
{
}

/// Every field of an I-type word can be read back when the registers are in
/// range; the immediate field holds the immediate modulo 2^12.
pub proof fn lemma_itype_fields(i: IType)
    requires
        i.rd < 32,
        i.rs1 < 32,
    ensures
        field(i.word(), 0, 7) == i.instruction.opcode(),
        field(i.word(), 7, 5) == i.rd,
        field(i.word(), 12, 3) == i.instruction.funct3(),
        field(i.word(), 15, 5) == i.rs1,
        field(i.word(), 20, 12) == i.imm as int % 4096,
{
    let imm = i.imm;
    assert((imm as u32) & 0xFFF == (imm as int) % 4096) by (bit_vector);
    lemma_unpack_five(
        i.instruction.opcode(),
        i.rd as u32,
        i.instruction.funct3(),
        i.rs1 as u32,
        i.imm11_0(),
    );
}

/// Every field of an S-type word can be read back when the registers are in
/// range; the two immediate fields together hold the immediate modulo 2^12.
pub proof fn lemma_stype_fields(i: SType)
    requires
        i.rs1 < 32,
        i.rs2 < 32,
    ensures
        field(i.word(), 0, 7) == 0b0100011,
        field(i.word(), 12, 3) == i.instruction.funct3(),
        field(i.word(), 15, 5) == i.rs1,
        field(i.word(), 20, 5) == i.rs2,
        32 * field(i.word(), 25, 7) + field(i.word(), 7, 5) == i.imm as int % 4096,
{
    let imm = i.imm;
    assert({
        &&& ((imm as u32) >> 5) & 0x7F < 128
        &&& (imm as u32) & 0x1F < 32
        &&& 32 * (((imm as u32) >> 5) & 0x7F) + ((imm as u32) & 0x1F) == (imm as int) % 4096
    }) by (bit_vector);
    lemma_unpack_six(
        i.instruction.opcode(),
        i.imm4_0(),
        i.instruction.funct3(),
        i.rs1 as u32,
        i.rs2 as u32,
        i.imm11_5(),
    );
}

proof fn lemma_unpack_branch(
    imm11: u32,
    imm4_1: u32,
    funct3: u32,
    a: u32,
    b: u32,
    imm10_5: u32,
    imm12: u32,
)
    by (bit_vector)
    requires
        imm11 < 2,
        imm4_1 < 16,
        funct3 < 8,
        a < 32,
        b < 32,
        imm10_5 < 64,
        imm12 < 2,
    ensures
        ({
            let word = 0b1100011u32 | (imm11 << 7) | (imm4_1 << 8) | (funct3 << 12) | (a << 15) | (b
                << 20) | (imm10_5 << 25) | (imm12 << 31);
            &&& field(word, 0, 7) == 0b1100011
            &&& field(word, 7, 1) == imm11
            &&& field(word, 8, 4) == imm4_1
            &&& field(word, 12, 3) == funct3
            &&& field(word, 15, 5) == a
            &&& field(word, 20, 5) == b
            &&& field(word, 25, 6) == imm10_5
            &&& field(word, 31, 1) == imm12
        }),
{
}

/// Every field of a B-type word can be read back when the registers are in
/// range; the four immediate fields together hold the offset modulo 2^13
/// without its lowest bit.
pub proof fn lemma_btype_fields(i: BType)
    requires
        i.rs1 < 32,
        i.rs2 < 32,
    ensures
        field(i.word(), 0, 7) == 0b1100011,
        field(i.word(), 12, 3) == i.instruction.funct3(),
        field(i.word(), 15, 5) == i.rs1,
        field(i.word(), 20, 5) == i.rs2,
        4096 * field(i.word(), 31, 1) + 2048 * field(i.word(), 7, 1) + 32 * field(i.word(), 25, 6)
            + 2 * field(i.word(), 8, 4) == i.imm as int % 8192 - i.imm as int % 2,
{
    let imm = i.imm;
    assert({
        &&& ((imm as u32) >> 12) & 0x1 < 2
        &&& ((imm as u32) >> 11) & 0x1 < 2
        &&& ((imm as u32) >> 5) & 0x3F < 64
        &&& ((imm as u32) >> 1) & 0xF < 16
        &&& 4096 * (((imm as u32) >> 12) & 0x1) + 2048 * (((imm as u32) >> 11) & 0x1) + 32 * (((
        imm as u32) >> 5) & 0x3F) + 2 * (((imm as u32) >> 1) & 0xF) == (imm as int) % 8192 - (
        imm as int) % 2
    }) by (bit_vector);
    lemma_unpack_branch(
        i.imm11(),
        i.imm4_1(),
        i.instruction.funct3(),
        i.rs1 as u32,
        i.rs2 as u32,
        i.imm10_5(),
        i.imm12(),
    );
}

/// The opcode, the register and the upper immediate of a U-type word can be
/// read back when the register is in range; the immediate field holds bits 31
/// to 12 of the immediate.
pub proof fn lemma_utype_fields(i: UType)
    requires
        i.rd < 32,
    ensures
        field(i.word(), 0, 7) == i.instruction.opcode(),
        field(i.word(), 7, 5) == i.rd,
        field(i.word(), 12, 20) == (i.imm as int % 0x1_0000_0000) / 4096,
{
    let imm = i.imm;
    let opcode = i.instruction.opcode();
    let rd = i.rd as u32;
    assert(opcode < 128 && rd < 32 ==> {
        let word = opcode | (rd << 7) | ((imm as u32) & 0xFFFFF000);
        &&& field(word, 0, 7) == opcode
        &&& field(word, 7, 5) == rd
        &&& field(word, 12, 20) == ((imm as int) % 0x1_0000_0000) / 4096
    }) by (bit_vector);
}

proof fn lemma_unpack_jump(a: u32, imm19_12: u32, imm11: u32, imm10_1: u32, imm20: u32)
    by (bit_vector)
    requires
        a < 32,
        imm19_12 < 256,
        imm11 < 2,
        imm10_1 < 1024,
        imm20 < 2,
    ensures
        ({
            let word = 0b1101111u32 | (a << 7) | (imm19_12 << 12) | (imm11 << 20) | (imm10_1 << 21)
                | (imm20 << 31);
            &&& field(word, 0, 7) == 0b1101111
            &&& field(word, 7, 5) == a
            &&& field(word, 12, 8) == imm19_12
            &&& field(word, 20, 1) == imm11
            &&& field(word, 21, 10) == imm10_1
            &&& field(word, 31, 1) == imm20
        }),
{
}

/// The opcode and the register of a J-type word can be read back when the
/// register is in range; the four immediate fields together hold the offset
/// modulo 2^21 without its lowest bit.
pub proof fn lemma_jtype_fields(i: JType)
    requires
        i.rd < 32,
    ensures
        field(i.word(), 0, 7) == 0b1101111,
        field(i.word(), 7, 5) == i.rd,
        0x100000 * field(i.word(), 31, 1) + 0x1000 * field(i.word(), 12, 8) + 0x800 * field(
            i.word(),
            20,
            1,
        ) + 2 * field(i.word(), 21, 10) == i.imm as int % 0x200000 - i.imm as int % 2,
{
    let imm = i.imm;
    assert({
        &&& ((imm as u32) >> 20) & 0x1 < 2
        &&& ((imm as u32) >> 12) & 0xFF < 256
        &&& ((imm as u32) >> 11) & 0x1 < 2
        &&& ((imm as u32) >> 1) & 0x3FF < 1024
        &&& 0x100000 * (((imm as u32) >> 20) & 0x1) + 0x1000 * (((imm as u32) >> 12) & 0xFF) + 0x800
            * (((imm as u32) >> 11) & 0x1) + 2 * (((imm as u32) >> 1) & 0x3FF) == (imm as int)
            % 0x200000 - (imm as int) % 2
    }) by (bit_vector);
    lemma_unpack_jump(i.rd as u32, i.imm19_12(), i.imm11(), i.imm10_1(), i.imm20());
}

/// The low seven bits of a word are the opcode of its instruction when the
/// registers are in range.
pub proof fn lemma_opcode_field(i: Instruction)
    requires
        i.registers_in_range(),
    ensures
        field(i.word(), 0, 7) == match i {
            Instruction::RType(rtype) => rtype.instruction.opcode(),
            Instruction::IType(itype) => itype.instruction.opcode(),
            Instruction::SType(stype) => stype.instruction.opcode(),
            Instruction::BType(btype) => btype.instruction.opcode(),
            Instruction::UType(utype) => utype.instruction.opcode(),
            Instruction::JType(jtype) => jtype._instruction.opcode(),
        },
{
    match i {
        Instruction::RType(rtype) => lemma_rtype_fields(rtype),
        Instruction::IType(itype) => lemma_itype_fields(itype),
        Instruction::SType(stype) => lemma_stype_fields(stype),
        Instruction::BType(btype) => lemma_btype_fields(btype),
        Instruction::UType(utype) => lemma_utype_fields(utype),
        Instruction::JType(jtype) => lemma_jtype_fields(jtype),
    }
}

/// Encoding is a function of the instruction alone: the same instruction
/// always has the same word.
pub proof fn lemma_encode_deterministic(a: Instruction, b: Instruction)
    requires
        a == b,
    ensures
        a.word() == b.word(),
{
}

} // verus!
