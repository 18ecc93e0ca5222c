//! The typed instruction model of the RV32I base subset and its encoder.
//!
//! An [`Instruction`] is one of the six base formats with its operands. Its
//! machine word is given by [`Instruction::word`], a specification function
//! written field by field from the RISC-V base ISA; [`Instruction::encode`]
//! computes that word.
//!
//! Registers and immediates are not range-checked. A register above 31 or an
//! immediate wider than its field is packed as the formula says, which for an
//! immediate means two's-complement truncation. The laws at the end of this
//! file say what can be read back from the word when the registers are in
//! range.
use vstd::prelude::*;

verus! {

/// Register-register operations.
#[derive(Clone, Copy, Debug, PartialEq, Eq, Structural)]
pub enum RTypeInstruction {
    Add,
    Sub,
    Sll,
    Slt,
    Sltu,
    Srl,
    Sra,
    Xor,
    Or,
    And,
}

/// Register-immediate operations, loads and `jalr`.
#[derive(Clone, Copy, Debug, PartialEq, Eq, Structural)]
pub enum ITypeInstruction {
    Addi,
    Slti,
    Sltiu,
    Xori,
    Ori,
    Andi,
    Lb,
    Lh,
    Lw,
    Lbu,
    Lhu,
    Jalr,
}

/// Stores.
#[derive(Clone, Copy, Debug, PartialEq, Eq, Structural)]
pub enum STypeInstruction {
    Sb,
    Sh,
    Sw,
}

/// Conditional branches.
#[derive(Clone, Copy, Debug, PartialEq, Eq, Structural)]
pub enum BTypeInstruction {
    Beq,
    Bne,
    Blt,
    Bge,
    Bltu,
    Bgeu,
}

/// Upper-immediate operations.
#[derive(Clone, Copy, Debug, PartialEq, Eq, Structural)]
pub enum UTypeInstruction {
    Lui,
    Auipc,
}

/// Jumps.
#[derive(Clone, Copy, Debug, PartialEq, Eq, Structural)]
pub enum JTypeInstruction {
    Jal,
}

#[derive(Clone, Copy, Debug, PartialEq, Eq, Structural)]
pub struct RType {
    pub instruction: RTypeInstruction,
    pub rd: u8,
    pub rs1: u8,
    pub rs2: u8,
}

#[derive(Clone, Copy, Debug, PartialEq, Eq, Structural)]
pub struct IType {
    pub instruction: ITypeInstruction,
    pub rd: u8,
    pub rs1: u8,
    pub imm: i16,
}

#[derive(Clone, Copy, Debug, PartialEq, Eq, Structural)]
pub struct SType {
    pub instruction: STypeInstruction,
    pub rs1: u8,
    pub rs2: u8,
    pub imm: i16,
}

/// `imm` is the branch offset in bytes; its lowest bit is not encoded.
#[derive(Clone, Copy, Debug, PartialEq, Eq, Structural)]
pub struct BType {
    pub instruction: BTypeInstruction,
    pub rs1: u8,
    pub rs2: u8,
    pub imm: i16,
}

/// `imm` holds the upper immediate already in place: bits 31 to 12 of `imm`
/// become bits 31 to 12 of the word, and its low twelve bits are dropped.
#[derive(Clone, Copy, Debug, PartialEq, Eq, Structural)]
pub struct UType {
    pub instruction: UTypeInstruction,
    pub rd: u8,
    pub imm: i32,
}

/// `imm` is the jump offset in bytes; its lowest bit is not encoded.
#[derive(Clone, Copy, Debug, PartialEq, Eq, Structural)]
pub struct JType {
    pub _instruction: JTypeInstruction,
    pub rd: u8,
    pub imm: i32,
}

#[derive(Clone, Copy, Debug, PartialEq, Eq, Structural)]
pub enum Instruction {
    RType(RType),
    IType(IType),
    SType(SType),
    BType(BType),
    UType(UType),
    JType(JType),
}

impl RTypeInstruction {
    pub open spec fn opcode(self) -> u32 {
        0b0110011
    }

    pub open spec fn funct3(self) -> u32 {
        match self {
            RTypeInstruction::Add | RTypeInstruction::Sub => 0b000,
            RTypeInstruction::Sll => 0b001,
            RTypeInstruction::Slt => 0b010,
            RTypeInstruction::Sltu => 0b011,
            RTypeInstruction::Xor => 0b100,
            RTypeInstruction::Srl | RTypeInstruction::Sra => 0b101,
            RTypeInstruction::Or => 0b110,
            RTypeInstruction::And => 0b111,
        }
    }

    pub open spec fn funct7(self) -> u32 {
        match self {
            RTypeInstruction::Sub | RTypeInstruction::Sra => 0b0100000,
            _ => 0b0000000,
        }
    }
}

impl ITypeInstruction {
    pub open spec fn is_load(self) -> bool {
        self is Lb || self is Lh || self is Lw || self is Lbu || self is Lhu
    }

    pub open spec fn opcode(self) -> u32 {
        if self is Jalr {
            0b1100111
        } else if self.is_load() {
            0b0000011
        } else {
            0b0010011
        }
    }

    pub open spec fn funct3(self) -> u32 {
        match self {
            ITypeInstruction::Addi | ITypeInstruction::Lb | ITypeInstruction::Jalr => 0b000,
            ITypeInstruction::Lh => 0b001,
            ITypeInstruction::Slti | ITypeInstruction::Lw => 0b010,
            ITypeInstruction::Sltiu => 0b011,
            ITypeInstruction::Xori | ITypeInstruction::Lbu => 0b100,
            ITypeInstruction::Lhu => 0b101,
            ITypeInstruction::Ori => 0b110,
            ITypeInstruction::Andi => 0b111,
        }
    }
}

impl STypeInstruction {
    pub open spec fn opcode(self) -> u32 {
        0b0100011
    }

    pub open spec fn funct3(self) -> u32 {
        match self {
            STypeInstruction::Sb => 0b000,
            STypeInstruction::Sh => 0b001,
            STypeInstruction::Sw => 0b010,
        }
    }
}

impl BTypeInstruction {
    pub open spec fn opcode(self) -> u32 {
        0b1100011
    }

    pub open spec fn funct3(self) -> u32 {
        match self {
            BTypeInstruction::Beq => 0b000,
            BTypeInstruction::Bne => 0b001,
            BTypeInstruction::Blt => 0b100,
            BTypeInstruction::Bge => 0b101,
            BTypeInstruction::Bltu => 0b110,
            BTypeInstruction::Bgeu => 0b111,
        }
    }
}

impl UTypeInstruction {
    pub open spec fn opcode(self) -> u32 {
        match self {
            UTypeInstruction::Lui => 0b0110111,
            UTypeInstruction::Auipc => 0b0010111,
        }
    }
}

impl JTypeInstruction {
    pub open spec fn opcode(self) -> u32 {
        0b1101111
    }
}

impl RType {
    /// `funct7 | rs2 | rs1 | funct3 | rd | opcode`, from bit 31 down.
    pub open spec fn word(self) -> u32 {
        self.instruction.opcode() | ((self.rd as u32) << 7) | (self.instruction.funct3() << 12) | ((
        self.rs1 as u32) << 15) | ((self.rs2 as u32) << 20) | (self.instruction.funct7() << 25)
    }
}

impl IType {
    /// The low twelve bits of the immediate in two's complement.
    pub open spec fn imm11_0(self) -> u32 {
        (self.imm as u32) & 0xFFF
    }

    /// `imm[11:0] | rs1 | funct3 | rd | opcode`, from bit 31 down.
    pub open spec fn word(self) -> u32 {
        self.instruction.opcode() | ((self.rd as u32) << 7) | (self.instruction.funct3() << 12) | ((
        self.rs1 as u32) << 15) | (self.imm11_0() << 20)
    }
}

impl SType {
    pub open spec fn imm11_5(self) -> u32 {
        ((self.imm as u32) >> 5) & 0x7F
    }

    pub open spec fn imm4_0(self) -> u32 {
        (self.imm as u32) & 0x1F
    }

    /// `imm[11:5] | rs2 | rs1 | funct3 | imm[4:0] | opcode`, from bit 31 down.
    pub open spec fn word(self) -> u32 {
        self.instruction.opcode() | (self.imm4_0() << 7) | (self.instruction.funct3() << 12) | ((
        self.rs1 as u32) << 15) | ((self.rs2 as u32) << 20) | (self.imm11_5() << 25)
    }
}

impl BType {
    pub open spec fn imm12(self) -> u32 {
        ((self.imm as u32) >> 12) & 0x1
    }

    pub open spec fn imm11(self) -> u32 {
        ((self.imm as u32) >> 11) & 0x1
    }

    pub open spec fn imm10_5(self) -> u32 {
        ((self.imm as u32) >> 5) & 0x3F
    }

    pub open spec fn imm4_1(self) -> u32 {
        ((self.imm as u32) >> 1) & 0xF
    }

    /// `imm[12] | imm[10:5] | rs2 | rs1 | funct3 | imm[4:1] | imm[11] | opcode`,
    /// from bit 31 down.
    pub open spec fn word(self) -> u32 {
        self.instruction.opcode() | (self.imm11() << 7) | (self.imm4_1() << 8) | (
        self.instruction.funct3() << 12) | ((self.rs1 as u32) << 15) | ((self.rs2 as u32) << 20) | (
        self.imm10_5() << 25) | (self.imm12() << 31)
    }
}

impl UType {
    /// Bits 31 to 12 of the immediate, left where they are.
    pub open spec fn imm31_12(self) -> u32 {
        (self.imm as u32) & 0xFFFFF000
    }

    /// `imm[31:12] | rd | opcode`, from bit 31 down.
    pub open spec fn word(self) -> u32 {
        self.instruction.opcode() | ((self.rd as u32) << 7) | self.imm31_12()
    }
}

impl JType {
    pub open spec fn imm20(self) -> u32 {
        ((self.imm as u32) >> 20) & 0x1
    }

    pub open spec fn imm19_12(self) -> u32 {
        ((self.imm as u32) >> 12) & 0xFF
    }

    pub open spec fn imm11(self) -> u32 {
        ((self.imm as u32) >> 11) & 0x1
    }

    pub open spec fn imm10_1(self) -> u32 {
        ((self.imm as u32) >> 1) & 0x3FF
    }

    /// `imm[20] | imm[10:1] | imm[11] | imm[19:12] | rd | opcode`, from bit 31
    /// down.
    pub open spec fn word(self) -> u32 {
        self._instruction.opcode() | ((self.rd as u32) << 7) | (self.imm19_12() << 12) | (
        self.imm11() << 20) | (self.imm10_1() << 21) | (self.imm20() << 31)
    }
}

impl Instruction {
    /// The 32-bit machine word of the instruction.
    pub open spec fn word(self) -> u32 {
        match self {
            Instruction::RType(rtype) => rtype.word(),
            Instruction::IType(itype) => itype.word(),
            Instruction::SType(stype) => stype.word(),
            Instruction::BType(btype) => btype.word(),
            Instruction::UType(utype) => utype.word(),
            Instruction::JType(jtype) => jtype.word(),
        }
    }

    /// Whether every register operand names one of the 32 registers.
    pub open spec fn registers_in_range(self) -> bool {
        match self {
            Instruction::RType(rtype) => rtype.rd < 32 && rtype.rs1 < 32 && rtype.rs2 < 32,
            Instruction::IType(itype) => itype.rd < 32 && itype.rs1 < 32,
            Instruction::SType(stype) => stype.rs1 < 32 && stype.rs2 < 32,
            Instruction::BType(btype) => btype.rs1 < 32 && btype.rs2 < 32,
            Instruction::UType(utype) => utype.rd < 32,
            Instruction::JType(jtype) => jtype.rd < 32,
        }
    }

    /// Encodes the instruction as its machine word. Never fails: operands
    /// that do not fit their field are packed as they are.
    pub fn encode(&self) -> (word: u32)
        ensures
            word == self.word(),
    {
        match self {
            Instruction::RType(rtype) => {
                let funct3: u32 = match rtype.instruction {
                    RTypeInstruction::Add | RTypeInstruction::Sub => 0b000,
                    RTypeInstruction::Sll => 0b001,
                    RTypeInstruction::Slt => 0b010,
                    RTypeInstruction::Sltu => 0b011,
                    RTypeInstruction::Xor => 0b100,
                    RTypeInstruction::Srl => 0b101,
                    RTypeInstruction::Sra => 0b101,
                    RTypeInstruction::Or => 0b110,
                    RTypeInstruction::And => 0b111,
                };
                let funct7: u32 = match rtype.instruction {
                    RTypeInstruction::Sub | RTypeInstruction::Sra => 0b0100000,
                    _ => 0b0000000,
                };
                0b0110011 | ((rtype.rd as u32) << 7) | (funct3 << 12) | ((rtype.rs1 as u32) << 15)
                    | ((rtype.rs2 as u32) << 20) | (funct7 << 25)
            },
            Instruction::IType(itype) => {
                let funct3: u32 = match itype.instruction {
                    ITypeInstruction::Addi => 0b000,
                    ITypeInstruction::Slti => 0b010,
                    ITypeInstruction::Sltiu => 0b011,
                    ITypeInstruction::Xori => 0b100,
                    ITypeInstruction::Ori => 0b110,
                    ITypeInstruction::Andi => 0b111,
                    ITypeInstruction::Lb => 0b000,
                    ITypeInstruction::Lh => 0b001,
                    ITypeInstruction::Lw => 0b010,
                    ITypeInstruction::Lbu => 0b100,
                    ITypeInstruction::Lhu => 0b101,
                    ITypeInstruction::Jalr => 0b000,
                };
                let opcode: u32 = match itype.instruction {
                    ITypeInstruction::Addi
                    | ITypeInstruction::Slti
                    | ITypeInstruction::Sltiu
                    | ITypeInstruction::Xori
                    | ITypeInstruction::Ori
                    | ITypeInstruction::Andi => 0b0010011,
                    ITypeInstruction::Lb
                    | ITypeInstruction::Lh
                    | ITypeInstruction::Lw
                    | ITypeInstruction::Lbu
                    | ITypeInstruction::Lhu => 0b0000011,
                    ITypeInstruction::Jalr => 0b1100111,
                };
                let imm: u32 = (itype.imm as u32) & 0xFFF;
                opcode | ((itype.rd as u32) << 7) | (funct3 << 12) | ((itype.rs1 as u32) << 15) | (imm
                    << 20)
            },
            Instruction::SType(stype) => {
                let funct3: u32 = match stype.instruction {
                    STypeInstruction::Sb => 0b000,
                    STypeInstruction::Sh => 0b001,
                    STypeInstruction::Sw => 0b010,
                };
                let bits: u32 = stype.imm as u32;
                let imm11_5: u32 = (bits & 0xFE0) >> 5;
                let imm4_0: u32 = bits & 0x1F;
                assert((bits & 0xFE0) >> 5 == (bits >> 5) & 0x7F) by (bit_vector);
                0b0100011 | (imm4_0 << 7) | (funct3 << 12) | ((stype.rs1 as u32) << 15) | ((
                stype.rs2 as u32) << 20) | (imm11_5 << 25)
            },
            Instruction::BType(btype) => {
                let funct3: u32 = match btype.instruction {
                    BTypeInstruction::Beq => 0b000,
                    BTypeInstruction::Bne => 0b001,
                    BTypeInstruction::Blt => 0b100,
                    BTypeInstruction::Bge => 0b101,
                    BTypeInstruction::Bltu => 0b110,
                    BTypeInstruction::Bgeu => 0b111,
                };
                let bits: u32 = btype.imm as u32;
                let imm12: u32 = (bits & 0x1000) >> 12;
                let imm11: u32 = (bits & 0x800) >> 11;
                let imm10_5: u32 = (bits & 0x7E0) >> 5;
                let imm4_1: u32 = (bits & 0x1E) >> 1;
                assert({
                    &&& (bits & 0x1000) >> 12 == (bits >> 12) & 0x1
                    &&& (bits & 0x800) >> 11 == (bits >> 11) & 0x1
                    &&& (bits & 0x7E0) >> 5 == (bits >> 5) & 0x3F
                    &&& (bits & 0x1E) >> 1 == (bits >> 1) & 0xF
                }) by (bit_vector);
                0b1100011 | (imm11 << 7) | (imm4_1 << 8) | (funct3 << 12) | ((btype.rs1 as u32) << 15)
                    | ((btype.rs2 as u32) << 20) | (imm10_5 << 25) | (imm12 << 31)
            },
            Instruction::UType(utype) => {
                let opcode: u32 = match utype.instruction {
                    UTypeInstruction::Lui => 0b0110111,
                    UTypeInstruction::Auipc => 0b0010111,
                };
                let imm31_12: u32 = (utype.imm as u32) & 0xFFFFF000;
                opcode | ((utype.rd as u32) << 7) | imm31_12
            },
            Instruction::JType(jtype) => {
                let bits: u32 = jtype.imm as u32;
                let imm20: u32 = (bits & 0x100000) >> 20;
                let imm19_12: u32 = (bits & 0xFF000) >> 12;
                let imm11: u32 = (bits & 0x800) >> 11;
                let imm10_1: u32 = (bits & 0x7FE) >> 1;
                assert({
                    &&& (bits & 0x100000) >> 20 == (bits >> 20) & 0x1
                    &&& (bits & 0xFF000) >> 12 == (bits >> 12) & 0xFF
                    &&& (bits & 0x800) >> 11 == (bits >> 11) & 0x1
                    &&& (bits & 0x7FE) >> 1 == (bits >> 1) & 0x3FF
                }) by (bit_vector);
                0b1101111 | ((jtype.rd as u32) << 7) | (imm19_12 << 12) | (imm11 << 20) | (imm10_1
                    << 21) | (imm20 << 31)
            },
        }
    }
}

} // verus!
