//! From the tokens of one line to a typed instruction.
//!
//! The first token is the mnemonic; it selects the format, and the format
//! says how many tokens the line has and what each of them is. A line with
//! another number of tokens, a register that does not resolve or an immediate
//! that is no numeral of its type is no instruction.
//!
//! Stores write their operands as `rs2 imm(rs1)`, and both registers in the
//! numeric form: an ABI name is not accepted there.
use vstd::prelude::*;
use vstd::hash_map::StringHashMap;
use vstd::slice::slice_subrange;
use crate::instruction::{
    BType, BTypeInstruction, IType, ITypeInstruction, Instruction, JType, JTypeInstruction, RType,
    RTypeInstruction, SType, STypeInstruction, UType, UTypeInstruction,
};
use crate::number::{i16_of, i32_of, parse_i16, parse_i32};
use crate::operation::{lemma_operation_named, lookup_operation, operation_named, Operation};
use crate::register::{
    abi_registers, create_register_map, parse_register, parse_numeric_register, register_index,
    numeric_register,
};
use crate::text::{field_ranges, fields, pieces, to_chars, Separator};

verus! {

/// `mnemonic rd rs1 rs2`.
pub open spec fn rtype_of(
    tokens: Seq<Seq<char>>,
    instruction: RTypeInstruction,
    registers: Map<Seq<char>, u8>,
) -> Option<Instruction> {
    if tokens.len() != 4 {
        None
    } else {
        match (
            register_index(tokens[1], registers),
            register_index(tokens[2], registers),
            register_index(tokens[3], registers),
        ) {
            (Some(rd), Some(rs1), Some(rs2)) => Some(
                Instruction::RType(RType { instruction, rd, rs1, rs2 }),
            ),
            _ => None,
        }
    }
}

/// `mnemonic rd rs1 imm`, for loads and `jalr` too.
pub open spec fn itype_of(
    tokens: Seq<Seq<char>>,
    instruction: ITypeInstruction,
    registers: Map<Seq<char>, u8>,
) -> Option<Instruction> {
    if tokens.len() != 4 {
        None
    } else {
        match (
            register_index(tokens[1], registers),
            register_index(tokens[2], registers),
            i16_of(tokens[3]),
        ) {
            (Some(rd), Some(rs1), Some(imm)) => Some(
                Instruction::IType(IType { instruction, rd, rs1, imm }),
            ),
            _ => None,
        }
    }
}

/// `mnemonic rs2 imm(rs1)`. The last token is cut at its parentheses and must
/// leave two pieces, the immediate and the base register.
pub open spec fn stype_of(tokens: Seq<Seq<char>>, instruction: STypeInstruction) -> Option<
    Instruction,
> {
    if tokens.len() != 3 {
        None
    } else {
        let operand = fields(tokens[2], Separator::Parenthesis);
        if operand.len() != 2 {
            None
        } else {
            match (numeric_register(tokens[1]), i16_of(operand[0]), numeric_register(operand[1])) {
                (Some(rs2), Some(imm), Some(rs1)) => Some(
                    Instruction::SType(SType { instruction, rs1, rs2, imm }),
                ),
                _ => None,
            }
        }
    }
}

/// `mnemonic rs1 rs2 imm`.
pub open spec fn btype_of(
    tokens: Seq<Seq<char>>,
    instruction: BTypeInstruction,
    registers: Map<Seq<char>, u8>,
) -> Option<Instruction> {
    if tokens.len() != 4 {
        None
    } else {
        match (
            register_index(tokens[1], registers),
            register_index(tokens[2], registers),
            i16_of(tokens[3]),
        ) {
            (Some(rs1), Some(rs2), Some(imm)) => Some(
                Instruction::BType(BType { instruction, rs1, rs2, imm }),
            ),
            _ => None,
        }
    }
}

/// `mnemonic rd imm`.
pub open spec fn utype_of(
    tokens: Seq<Seq<char>>,
    instruction: UTypeInstruction,
    registers: Map<Seq<char>, u8>,
) -> Option<Instruction> {
    if tokens.len() != 3 {
        None
    } else {
        match (register_index(tokens[1], registers), i32_of(tokens[2])) {
            (Some(rd), Some(imm)) => Some(Instruction::UType(UType { instruction, rd, imm })),
            _ => None,
        }
    }
}

/// `jal rd imm`.
pub open spec fn jtype_of(tokens: Seq<Seq<char>>, registers: Map<Seq<char>, u8>) -> Option<
    Instruction,
> {
    if tokens.len() != 3 {
        None
    } else {
        match (register_index(tokens[1], registers), i32_of(tokens[2])) {
            (Some(rd), Some(imm)) => Some(
                Instruction::JType(JType { _instruction: JTypeInstruction::Jal, rd, imm }),
            ),
            _ => None,
        }
    }
}

/// The instruction that the tokens of a line write, if they write one.
pub open spec fn instruction_of(tokens: Seq<Seq<char>>, registers: Map<Seq<char>, u8>) -> Option<
    Instruction,
> {
    if tokens.len() == 0 {
        None
    } else {
        match operation_named(tokens[0]) {
            Some(Operation::R(instruction)) => rtype_of(tokens, instruction, registers),
            Some(Operation::I(instruction)) => itype_of(tokens, instruction, registers),
            Some(Operation::S(instruction)) => stype_of(tokens, instruction),
            Some(Operation::B(instruction)) => btype_of(tokens, instruction, registers),
            Some(Operation::U(instruction)) => utype_of(tokens, instruction, registers),
            Some(Operation::J(_)) => jtype_of(tokens, registers),
            None => None,
        }
    }
}

/// Reads an R-type line, `mnemonic rd rs1 rs2`, for the operation given.
pub fn parse_rtype(
    tokens: &[String],
    instruction: RTypeInstruction,
    reg_map: &StringHashMap<u8>,
) -> (parsed: Option<Instruction>)
    ensures
        parsed == rtype_of(tokens.deep_view(), instruction, reg_map@),
{
    if tokens.len() != 4 {
        return None;
    }
    let rd = parse_register(tokens[1].as_str(), reg_map);
    let rs1 = parse_register(tokens[2].as_str(), reg_map);
    let rs2 = parse_register(tokens[3].as_str(), reg_map);
    match (rd, rs1, rs2) {
        (Some(rd), Some(rs1), Some(rs2)) => Some(
            Instruction::RType(RType { instruction, rd, rs1, rs2 }),
        ),
        _ => None,
    }
}

/// Reads a token as a signed 16-bit immediate.
fn parse_imm16(token: &str) -> (imm: Option<i16>)
    ensures
        imm == i16_of(token@),
{
    let chars = to_chars(token);
    parse_i16(chars.as_slice())
}

/// Reads a token as a signed 32-bit immediate.
fn parse_imm32(token: &str) -> (imm: Option<i32>)
    ensures
        imm == i32_of(token@),
{
    let chars = to_chars(token);
    parse_i32(chars.as_slice())
}

/// Reads an I-type line, `mnemonic rd rs1 imm`, for the operation given.
pub fn parse_itype(
    tokens: &[String],
    instruction: ITypeInstruction,
    reg_map: &StringHashMap<u8>,
) -> (parsed: Option<Instruction>)
    ensures
        parsed == itype_of(tokens.deep_view(), instruction, reg_map@),
{
    if tokens.len() != 4 {
        return None;
    }
    let rd = parse_register(tokens[1].as_str(), reg_map);
    let rs1 = parse_register(tokens[2].as_str(), reg_map);
    let imm = parse_imm16(tokens[3].as_str());
    match (rd, rs1, imm) {
        (Some(rd), Some(rs1), Some(imm)) => Some(
            Instruction::IType(IType { instruction, rd, rs1, imm }),
        ),
        _ => None,
    }
}

/// Reads an S-type line, `mnemonic rs2 imm(rs1)`, for the operation given.
pub fn parse_stype(tokens: &[String], instruction: STypeInstruction) -> (parsed: Option<
    Instruction,
>)
    ensures
        parsed == stype_of(tokens.deep_view(), instruction),
{
    if tokens.len() != 3 {
        return None;
    }
    let source = to_chars(tokens[1].as_str());
    let rs2 = parse_numeric_register(source.as_slice());
    let operand = to_chars(tokens[2].as_str());
    let parts = field_ranges(operand.as_slice(), Separator::Parenthesis);
    if parts.len() != 2 {
        return None;
    }
    let (imm_from, imm_to) = parts[0];
    let (base_from, base_to) = parts[1];
    assert(pieces(operand@, parts@)[0] == operand@.subrange(imm_from as int, imm_to as int));
    assert(pieces(operand@, parts@)[1] == operand@.subrange(base_from as int, base_to as int));
    let imm = parse_i16(slice_subrange(operand.as_slice(), imm_from, imm_to));
    let rs1 = parse_numeric_register(slice_subrange(operand.as_slice(), base_from, base_to));
    match (rs2, imm, rs1) {
        (Some(rs2), Some(imm), Some(rs1)) => Some(
            Instruction::SType(SType { instruction, rs1, rs2, imm }),
        ),
        _ => None,
    }
}

/// Reads a B-type line, `mnemonic rs1 rs2 imm`, for the operation given.
pub fn parse_btype(
    tokens: &[String],
    instruction: BTypeInstruction,
    reg_map: &StringHashMap<u8>,
) -> (parsed: Option<Instruction>)
    ensures
        parsed == btype_of(tokens.deep_view(), instruction, reg_map@),
{
    if tokens.len() != 4 {
        return None;
    }
    let rs1 = parse_register(tokens[1].as_str(), reg_map);
    let rs2 = parse_register(tokens[2].as_str(), reg_map);
    let imm = parse_imm16(tokens[3].as_str());
    match (rs1, rs2, imm) {
        (Some(rs1), Some(rs2), Some(imm)) => Some(
            Instruction::BType(BType { instruction, rs1, rs2, imm }),
        ),
        _ => None,
    }
}

/// Reads a U-type line, `mnemonic rd imm`, for the operation given.
pub fn parse_utype(
    tokens: &[String],
    instruction: UTypeInstruction,
    reg_map: &StringHashMap<u8>,
) -> (parsed: Option<Instruction>)
    ensures
        parsed == utype_of(tokens.deep_view(), instruction, reg_map@),
{
    if tokens.len() != 3 {
        return None;
    }
    let rd = parse_register(tokens[1].as_str(), reg_map);
    let imm = parse_imm32(tokens[2].as_str());
    match (rd, imm) {
        (Some(rd), Some(imm)) => Some(Instruction::UType(UType { instruction, rd, imm })),
        _ => None,
    }
}

/// Reads a J-type line, `jal rd imm`.
pub fn parse_jtype(tokens: &[String], reg_map: &StringHashMap<u8>) -> (parsed: Option<
    Instruction,
>)
    ensures
        parsed == jtype_of(tokens.deep_view(), reg_map@),
{
    if tokens.len() != 3 {
        return None;
    }
    let rd = parse_register(tokens[1].as_str(), reg_map);
    let imm = parse_imm32(tokens[2].as_str());
    match (rd, imm) {
        (Some(rd), Some(imm)) => Some(
            Instruction::JType(JType { _instruction: JTypeInstruction::Jal, rd, imm }),
        ),
        _ => None,
    }
}

/// Reads the tokens of one line with the register names of `reg_map`.
pub fn parse_tokens(tokens: &[String], reg_map: &StringHashMap<u8>) -> (parsed: Option<
    Instruction,
>)
    ensures
        parsed == instruction_of(tokens.deep_view(), reg_map@),
{
    if tokens.len() == 0 {
        return None;
    }
    match lookup_operation(tokens[0].as_str()) {
        Some(Operation::R(instruction)) => parse_rtype(tokens, instruction, reg_map),
        Some(Operation::I(instruction)) => parse_itype(tokens, instruction, reg_map),
        Some(Operation::S(instruction)) => parse_stype(tokens, instruction),
        Some(Operation::B(instruction)) => parse_btype(tokens, instruction, reg_map),
        Some(Operation::U(instruction)) => parse_utype(tokens, instruction, reg_map),
        Some(Operation::J(_)) => parse_jtype(tokens, reg_map),
        None => None,
    }
}

/// Reads the tokens of one line with the ABI register names.
pub fn parse_instruction(tokens: Vec<String>) -> (parsed: Option<Instruction>)
    ensures
        parsed == instruction_of(tokens.deep_view(), abi_registers()),
{
    let reg_map = create_register_map();
    let line = tokens.as_slice();
    assert(line.deep_view() == tokens.deep_view());
    parse_tokens(line, &reg_map)
}

/// The mnemonic of an operation, as the first token of a line, selects the
/// format of that operation and passes the operation on.
pub proof fn lemma_dispatch(op: Operation, tokens: Seq<Seq<char>>, registers: Map<Seq<char>, u8>)
    requires
        tokens.len() > 0,
        tokens[0] == op.name(),
    ensures
        instruction_of(tokens, registers) == match op {
            Operation::R(instruction) => rtype_of(tokens, instruction, registers),
            Operation::I(instruction) => itype_of(tokens, instruction, registers),
            Operation::S(instruction) => stype_of(tokens, instruction),
            Operation::B(instruction) => btype_of(tokens, instruction, registers),
            Operation::U(instruction) => utype_of(tokens, instruction, registers),
            Operation::J(_) => jtype_of(tokens, registers),
        },
{
    lemma_operation_named(op);
}

/// A first token that is no mnemonic makes no instruction, whatever follows.
pub proof fn lemma_unknown_mnemonic(tokens: Seq<Seq<char>>, registers: Map<Seq<char>, u8>)
    requires
        tokens.len() > 0,
        forall|op: Operation| op.name() != tokens[0],
    ensures
        instruction_of(tokens, registers) is None,
{
}

} // verus!
