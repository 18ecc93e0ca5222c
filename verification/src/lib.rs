//! A one-pass assembler for the RV32I base subset: one line of text in, one
//! 32-bit machine word out.
pub mod assembler;
pub mod fields;
pub mod instruction;
pub mod listing;
pub mod number;
pub mod operation;
pub mod parser;
pub mod register;
pub mod text;

pub use assembler::{assemble, split_string_by_whitespace, split_string_into_lines};
pub use instruction::{
    BType, BTypeInstruction, IType, ITypeInstruction, Instruction, JType, JTypeInstruction, RType,
    RTypeInstruction, SType, STypeInstruction, UType, UTypeInstruction,
};
pub use operation::{lookup_operation, Operation};
pub use parser::{
    parse_btype, parse_instruction, parse_itype, parse_jtype, parse_rtype, parse_stype,
    parse_tokens, parse_utype,
};
pub use register::{create_register_map, parse_register};
