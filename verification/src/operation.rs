//! The operations and their mnemonics.
use vstd::prelude::*;
use crate::instruction::{
    BTypeInstruction, ITypeInstruction, JTypeInstruction, RTypeInstruction, STypeInstruction,
    UTypeInstruction,
};
use crate::text::{spells, to_chars};

verus! {

/// An operation of one of the six formats.
#[derive(Clone, Copy, Debug, PartialEq, Eq, Structural)]
pub enum Operation {
    R(RTypeInstruction),
    I(ITypeInstruction),
    S(STypeInstruction),
    B(BTypeInstruction),
    U(UTypeInstruction),
    J(JTypeInstruction),
}

impl RTypeInstruction {
    pub open spec fn name(self) -> Seq<char> {
        match self {
            RTypeInstruction::Add => "add"@,
            RTypeInstruction::Sub => "sub"@,
            RTypeInstruction::Sll => "sll"@,
            RTypeInstruction::Slt => "slt"@,
            RTypeInstruction::Sltu => "sltu"@,
            RTypeInstruction::Xor => "xor"@,
            RTypeInstruction::Srl => "srl"@,
            RTypeInstruction::Sra => "sra"@,
            RTypeInstruction::Or => "or"@,
            RTypeInstruction::And => "and"@,
        }
    }
}

impl ITypeInstruction {
    pub open spec fn name(self) -> Seq<char> {
        match self {
            ITypeInstruction::Addi => "addi"@,
            ITypeInstruction::Slti => "slti"@,
            ITypeInstruction::Sltiu => "sltiu"@,
            ITypeInstruction::Xori => "xori"@,
            ITypeInstruction::Ori => "ori"@,
            ITypeInstruction::Andi => "andi"@,
            ITypeInstruction::Lb => "lb"@,
            ITypeInstruction::Lh => "lh"@,
            ITypeInstruction::Lw => "lw"@,
            ITypeInstruction::Lbu => "lbu"@,
            ITypeInstruction::Lhu => "lhu"@,
            ITypeInstruction::Jalr => "jalr"@,
        }
    }
}

impl STypeInstruction {
    pub open spec fn name(self) -> Seq<char> {
        match self {
            STypeInstruction::Sb => "sb"@,
            STypeInstruction::Sh => "sh"@,
            STypeInstruction::Sw => "sw"@,
        }
    }
}

impl BTypeInstruction {
    pub open spec fn name(self) -> Seq<char> {
        match self {
            BTypeInstruction::Beq => "beq"@,
            BTypeInstruction::Bne => "bne"@,
            BTypeInstruction::Blt => "blt"@,
            BTypeInstruction::Bge => "bge"@,
            BTypeInstruction::Bltu => "bltu"@,
            BTypeInstruction::Bgeu => "bgeu"@,
        }
    }
}

impl UTypeInstruction {
    pub open spec fn name(self) -> Seq<char> {
        match self {
            UTypeInstruction::Lui => "lui"@,
            UTypeInstruction::Auipc => "auipc"@,
        }
    }
}

impl JTypeInstruction {
    pub open spec fn name(self) -> Seq<char> {
        "jal"@
    }
}

impl Operation {
    /// The mnemonic of the operation, in lower case.
    pub open spec fn name(self) -> Seq<char> {
        match self {
            Operation::R(instruction) => instruction.name(),
            Operation::I(instruction) => instruction.name(),
            Operation::S(instruction) => instruction.name(),
            Operation::B(instruction) => instruction.name(),
            Operation::U(instruction) => instruction.name(),
            Operation::J(instruction) => instruction.name(),
        }
    }
}

/// The operation with the mnemonic `name`, if there is one.
pub open spec fn operation_named(name: Seq<char>) -> Option<Operation> {
    if exists|op: Operation| op.name() == name {
        Some(choose|op: Operation| op.name() == name)
    } else {
        None
    }
}

/// The length of a mnemonic and its first four characters, which tell the
/// mnemonics apart.
spec fn spelling(name: Seq<char>) -> (nat, char, char, char, char) {
    (name.len(), name[0], name[1], name[2], name[3])
}

/// The spelling of each mnemonic is that of no other.
proof fn lemma_spellings_distinct()
    ensures
        forall|a: Operation, b: Operation|
            spelling(#[trigger] a.name()) == spelling(#[trigger] b.name()) ==> a == b,
{
    reveal_strlit("add");
    reveal_strlit("sub");
    reveal_strlit("sll");
    reveal_strlit("slt");
    reveal_strlit("sltu");
    reveal_strlit("xor");
    reveal_strlit("srl");
    reveal_strlit("sra");
    reveal_strlit("or");
    reveal_strlit("and");
    reveal_strlit("addi");
    reveal_strlit("slti");
    reveal_strlit("sltiu");
    reveal_strlit("xori");
    reveal_strlit("ori");
    reveal_strlit("andi");
    reveal_strlit("lb");
    reveal_strlit("lh");
    reveal_strlit("lw");
    reveal_strlit("lbu");
    reveal_strlit("lhu");
    reveal_strlit("jalr");
    reveal_strlit("sb");
    reveal_strlit("sh");
    reveal_strlit("sw");
    reveal_strlit("beq");
    reveal_strlit("bne");
    reveal_strlit("blt");
    reveal_strlit("bge");
    reveal_strlit("bltu");
    reveal_strlit("bgeu");
    reveal_strlit("lui");
    reveal_strlit("auipc");
    reveal_strlit("jal");
}

/// No two operations share a mnemonic.
pub proof fn lemma_names_distinct(a: Operation, b: Operation)
    requires
        a.name() == b.name(),
    ensures
        a == b,
{
    lemma_spellings_distinct();
}

/// Every operation is the one that its mnemonic names.
pub proof fn lemma_operation_named(op: Operation)
    ensures
        operation_named(op.name()) == Some(op),
{
    let found = choose|other: Operation| other.name() == op.name();
    lemma_names_distinct(found, op);
}

/// Every mnemonic is made of two to five lower-case letters.
pub proof fn lemma_names_lower_case(op: Operation)
    ensures
        2 <= op.name().len() <= 5,
        forall|k: int| 0 <= k < op.name().len() ==> 'a' <= #[trigger] op.name()[k] <= 'z',
{
    reveal_strlit("add");
    reveal_strlit("sub");
    reveal_strlit("sll");
    reveal_strlit("slt");
    reveal_strlit("sltu");
    reveal_strlit("xor");
    reveal_strlit("srl");
    reveal_strlit("sra");
    reveal_strlit("or");
    reveal_strlit("and");
    reveal_strlit("addi");
    reveal_strlit("slti");
    reveal_strlit("sltiu");
    reveal_strlit("xori");
    reveal_strlit("ori");
    reveal_strlit("andi");
    reveal_strlit("lb");
    reveal_strlit("lh");
    reveal_strlit("lw");
    reveal_strlit("lbu");
    reveal_strlit("lhu");
    reveal_strlit("jalr");
    reveal_strlit("sb");
    reveal_strlit("sh");
    reveal_strlit("sw");
    reveal_strlit("beq");
    reveal_strlit("bne");
    reveal_strlit("blt");
    reveal_strlit("bge");
    reveal_strlit("bltu");
    reveal_strlit("bgeu");
    reveal_strlit("lui");
    reveal_strlit("auipc");
    reveal_strlit("jal");
    let name = op.name();
    assert forall|k: int| 0 <= k < name.len() implies 'a' <= #[trigger] name[k] <= 'z' by {
        assert(k == 0 || k == 1 || k == 2 || k == 3 || k == 4);
        assert('a' <= name[0] <= 'z');
        assert('a' <= name[1] <= 'z');
        assert(name.len() > 2 ==> 'a' <= name[2] <= 'z');
        assert(name.len() > 3 ==> 'a' <= name[3] <= 'z');
        assert(name.len() > 4 ==> 'a' <= name[4] <= 'z');
    }
}

/// Finds the operation with the mnemonic `name`. Mnemonics are in lower case
/// and are matched exactly.
pub fn lookup_operation(name: &str) -> (found: Option<Operation>)
    ensures
        found == operation_named(name@),
{
    let chars = to_chars(name);
    let op = if spells(chars.as_slice(), "add") {
        Operation::R(RTypeInstruction::Add)
    } else if spells(chars.as_slice(), "sub") {
        Operation::R(RTypeInstruction::Sub)
    } else if spells(chars.as_slice(), "sll") {
        Operation::R(RTypeInstruction::Sll)
    } else if spells(chars.as_slice(), "slt") {
        Operation::R(RTypeInstruction::Slt)
    } else if spells(chars.as_slice(), "sltu") {
        Operation::R(RTypeInstruction::Sltu)
    } else if spells(chars.as_slice(), "xor") {
        Operation::R(RTypeInstruction::Xor)
    } else if spells(chars.as_slice(), "srl") {
        Operation::R(RTypeInstruction::Srl)
    } else if spells(chars.as_slice(), "sra") {
        Operation::R(RTypeInstruction::Sra)
    } else if spells(chars.as_slice(), "or") {
        Operation::R(RTypeInstruction::Or)
    } else if spells(chars.as_slice(), "and") {
        Operation::R(RTypeInstruction::And)
    } else if spells(chars.as_slice(), "addi") {
        Operation::I(ITypeInstruction::Addi)
    } else if spells(chars.as_slice(), "slti") {
        Operation::I(ITypeInstruction::Slti)
    } else if spells(chars.as_slice(), "sltiu") {
        Operation::I(ITypeInstruction::Sltiu)
    } else if spells(chars.as_slice(), "xori") {
        Operation::I(ITypeInstruction::Xori)
    } else if spells(chars.as_slice(), "ori") {
        Operation::I(ITypeInstruction::Ori)
    } else if spells(chars.as_slice(), "andi") {
        Operation::I(ITypeInstruction::Andi)
    } else if spells(chars.as_slice(), "lb") {
        Operation::I(ITypeInstruction::Lb)
    } else if spells(chars.as_slice(), "lh") {
        Operation::I(ITypeInstruction::Lh)
    } else if spells(chars.as_slice(), "lw") {
        Operation::I(ITypeInstruction::Lw)
    } else if spells(chars.as_slice(), "lbu") {
        Operation::I(ITypeInstruction::Lbu)
    } else if spells(chars.as_slice(), "lhu") {
        Operation::I(ITypeInstruction::Lhu)
    } else if spells(chars.as_slice(), "jalr") {
        Operation::I(ITypeInstruction::Jalr)
    } else if spells(chars.as_slice(), "sb") {
        Operation::S(STypeInstruction::Sb)
    } else if spells(chars.as_slice(), "sh") {
        Operation::S(STypeInstruction::Sh)
    } else if spells(chars.as_slice(), "sw") {
        Operation::S(STypeInstruction::Sw)
    } else if spells(chars.as_slice(), "beq") {
        Operation::B(BTypeInstruction::Beq)
    } else if spells(chars.as_slice(), "bne") {
        Operation::B(BTypeInstruction::Bne)
    } else if spells(chars.as_slice(), "blt") {
        Operation::B(BTypeInstruction::Blt)
    } else if spells(chars.as_slice(), "bge") {
        Operation::B(BTypeInstruction::Bge)
    } else if spells(chars.as_slice(), "bltu") {
        Operation::B(BTypeInstruction::Bltu)
    } else if spells(chars.as_slice(), "bgeu") {
        Operation::B(BTypeInstruction::Bgeu)
    } else if spells(chars.as_slice(), "lui") {
        Operation::U(UTypeInstruction::Lui)
    } else if spells(chars.as_slice(), "auipc") {
        Operation::U(UTypeInstruction::Auipc)
    } else if spells(chars.as_slice(), "jal") {
        Operation::J(JTypeInstruction::Jal)
    } else {
        assert forall|op: Operation| op.name() != name@ by {}
        return None;
    };
    proof {
        lemma_operation_named(op);
    }
    Some(op)
}

} // verus!
