//! The text of an instruction, and the law that reading it gives the
//! instruction back.
//!
//! An instruction is written as its mnemonic and its operands with one space
//! between them, registers in the numeric form and immediates in decimal. The
//! laws of this file say that the parser reads every instruction back from its
//! text, and so that assembling the listing of a program gives the words of
//! its instructions, one for one.
use vstd::prelude::*;
use crate::assembler::{lemma_machine_words_concat, line_word, line_words, machine_words};
use crate::instruction::{BType, IType, Instruction, JType, JTypeInstruction, RType, SType, UType};
use crate::number::{
    decimal, i16_of, i32_of, is_digit, lemma_decimal_writes, lemma_numeral_writes, numeral,
};
use crate::operation::{lemma_names_lower_case, Operation};
use crate::parser::{
    btype_of, instruction_of, itype_of, jtype_of, lemma_dispatch, rtype_of, stype_of, utype_of,
};
use crate::register::{abi_registers, lemma_numeric_register, numeric_register, register_index};
use crate::text::{
    fields, is_whitespace, lemma_first_field, lemma_leading_separator, trim_end, trim_start,
    trimmed_lines, trimmed_nonempty, Separator,
};

verus! {

/// A register in the numeric form: `x` and the decimal digits of its index.
pub open spec fn register_text(index: u8) -> Seq<char> {
    seq!['x'] + decimal(index as nat)
}

/// The operand of a store: the immediate, and the base register in
/// parentheses.
pub open spec fn store_operand(imm: i16, base: u8) -> Seq<char> {
    numeral(imm as int) + seq!['('] + register_text(base) + seq![')']
}

/// Tokens with one space between each two.
pub open spec fn spaced(tokens: Seq<Seq<char>>) -> Seq<char>
    decreases tokens.len(),
{
    if tokens.len() == 0 {
        Seq::empty()
    } else if tokens.len() == 1 {
        tokens[0]
    } else {
        tokens[0] + seq![' '] + spaced(tokens.drop_first())
    }
}

impl Instruction {
    /// The operation of the instruction.
    pub open spec fn operation(self) -> Operation {
        match self {
            Instruction::RType(rtype) => Operation::R(rtype.instruction),
            Instruction::IType(itype) => Operation::I(itype.instruction),
            Instruction::SType(stype) => Operation::S(stype.instruction),
            Instruction::BType(btype) => Operation::B(btype.instruction),
            Instruction::UType(utype) => Operation::U(utype.instruction),
            Instruction::JType(jtype) => Operation::J(jtype._instruction),
        }
    }

    /// The tokens that write the instruction.
    pub open spec fn tokens(self) -> Seq<Seq<char>> {
        let name = self.operation().name();
        match self {
            Instruction::RType(rtype) => seq![
                name,
                register_text(rtype.rd),
                register_text(rtype.rs1),
                register_text(rtype.rs2),
            ],
            Instruction::IType(itype) => seq![
                name,
                register_text(itype.rd),
                register_text(itype.rs1),
                numeral(itype.imm as int),
            ],
            Instruction::SType(stype) => seq![
                name,
                register_text(stype.rs2),
                store_operand(stype.imm, stype.rs1),
            ],
            Instruction::BType(btype) => seq![
                name,
                register_text(btype.rs1),
                register_text(btype.rs2),
                numeral(btype.imm as int),
            ],
            Instruction::UType(utype) => seq![
                name,
                register_text(utype.rd),
                numeral(utype.imm as int),
            ],
            Instruction::JType(jtype) => seq![
                name,
                register_text(jtype.rd),
                numeral(jtype.imm as int),
            ],
        }
    }

    /// The line that writes the instruction.
    pub open spec fn text(self) -> Seq<char> {
        spaced(self.tokens())
    }
}

/// The lines of a program, each after a line feed.
pub open spec fn listing(program: Seq<Instruction>) -> Seq<char>
    decreases program.len(),
{
    if program.len() == 0 {
        Seq::empty()
    } else {
        listing(program.drop_last()) + seq!['\n'] + program.last().text()
    }
}

/// Whether `token` is not empty and holds none of the characters that end a
/// token, a line or a part of a store operand, but for parentheses where
/// `parentheses` allows them.
pub open spec fn solid(token: Seq<char>, parentheses: bool) -> bool {
    &&& token.len() > 0
    &&& forall|k: int|
        0 <= k < token.len() ==> {
            &&& !is_whitespace(#[trigger] token[k])
            &&& token[k] != '\n'
            &&& parentheses || (token[k] != '(' && token[k] != ')')
        }
}

/// A register in the numeric form is solid, and reads as its index.
pub proof fn lemma_register_text(index: u8, registers: Map<Seq<char>, u8>)
    ensures
        solid(register_text(index), false),
        numeric_register(register_text(index)) == Some(index),
        register_index(register_text(index), registers) == Some(index),
{
    let text = register_text(index);
    let digits = decimal(index as nat);
    lemma_decimal_writes(index as nat);
    lemma_numeric_register(index as nat, registers);
    assert forall|k: int| 0 <= k < text.len() implies {
        &&& !is_whitespace(#[trigger] text[k])
        &&& text[k] != '\n'
        &&& text[k] != '('
        &&& text[k] != ')'
    } by {
        if k > 0 {
            assert(text[k] == digits[k - 1]);
            assert(is_digit(digits[k - 1]));
        }
    }
}

/// A numeral is solid.
pub proof fn lemma_numeral_solid(v: int)
    ensures
        solid(numeral(v), false),
{
    lemma_numeral_writes(v);
}

/// A mnemonic is solid.
pub proof fn lemma_name_solid(op: Operation)
    ensures
        solid(op.name(), false),
{
    lemma_names_lower_case(op);
}

/// A store operand is solid but for its parentheses, and falls into the
/// immediate and the base register when cut at them.
pub proof fn lemma_store_operand(imm: i16, base: u8)
    ensures
        solid(store_operand(imm, base), true),
        fields(store_operand(imm, base), Separator::Parenthesis) == seq![
            numeral(imm as int),
            register_text(base),
        ],
{
    let sep = Separator::Parenthesis;
    let number = numeral(imm as int);
    let register = register_text(base);
    let text = store_operand(imm, base);
    lemma_numeral_solid(imm as int);
    lemma_register_text(base, Map::empty());
    assert forall|k: int| 0 <= k < text.len() implies !is_whitespace(#[trigger] text[k])
        && text[k] != '\n' by {
        if k < number.len() {
            assert(text[k] == number[k]);
        } else if k == number.len() {
        } else if k < number.len() + 1 + register.len() {
            assert(text[k] == register[k - number.len() - 1]);
        } else {
        }
    }
    let close = seq![')'];
    let tail = seq!['('] + (register + close);
    assert(text == number + tail);
    lemma_first_field(number, tail, sep);
    lemma_leading_separator('(', register + close, sep);
    lemma_first_field(register, close, sep);
    assert(close == seq![')'] + Seq::<char>::empty());
    lemma_leading_separator(')', Seq::<char>::empty(), sep);
    assert(fields(Seq::<char>::empty(), sep) == Seq::<Seq<char>>::empty());
    assert(seq![number] + (seq![register] + Seq::<Seq<char>>::empty()) == seq![
        number,
        register,
    ]);
}

/// Every token of an instruction is solid but for the parentheses of a store
/// operand.
pub proof fn lemma_tokens_solid(i: Instruction)
    ensures
        3 <= i.tokens().len() <= 4,
        forall|k: int| 0 <= k < i.tokens().len() ==> solid(#[trigger] i.tokens()[k], true),
        i.tokens()[0] == i.operation().name(),
{
    lemma_name_solid(i.operation());
    match i {
        Instruction::RType(rtype) => {
            lemma_register_text(rtype.rd, Map::empty());
            lemma_register_text(rtype.rs1, Map::empty());
            lemma_register_text(rtype.rs2, Map::empty());
        },
        Instruction::IType(itype) => {
            lemma_register_text(itype.rd, Map::empty());
            lemma_register_text(itype.rs1, Map::empty());
            lemma_numeral_solid(itype.imm as int);
        },
        Instruction::SType(stype) => {
            lemma_register_text(stype.rs2, Map::empty());
            lemma_store_operand(stype.imm, stype.rs1);
        },
        Instruction::BType(btype) => {
            lemma_register_text(btype.rs1, Map::empty());
            lemma_register_text(btype.rs2, Map::empty());
            lemma_numeral_solid(btype.imm as int);
        },
        Instruction::UType(utype) => {
            lemma_register_text(utype.rd, Map::empty());
            lemma_numeral_solid(utype.imm as int);
        },
        Instruction::JType(jtype) => {
            lemma_register_text(jtype.rd, Map::empty());
            lemma_numeral_solid(jtype.imm as int);
        },
    }
}

proof fn lemma_rtype_read_back(rtype: RType, registers: Map<Seq<char>, u8>)
    ensures
        instruction_of(Instruction::RType(rtype).tokens(), registers) == Some(
            Instruction::RType(rtype),
        ),
{
    let i = Instruction::RType(rtype);
    let tokens = i.tokens();
    lemma_dispatch(i.operation(), tokens, registers);
    lemma_register_text(rtype.rd, registers);
    lemma_register_text(rtype.rs1, registers);
    lemma_register_text(rtype.rs2, registers);
    assert(tokens.len() == 4);
    assert(tokens[1] == register_text(rtype.rd));
    assert(tokens[2] == register_text(rtype.rs1));
    assert(tokens[3] == register_text(rtype.rs2));
    assert(rtype_of(tokens, rtype.instruction, registers) == Some(i));
}

proof fn lemma_itype_read_back(itype: IType, registers: Map<Seq<char>, u8>)
    ensures
        instruction_of(Instruction::IType(itype).tokens(), registers) == Some(
            Instruction::IType(itype),
        ),
{
    let i = Instruction::IType(itype);
    let tokens = i.tokens();
    lemma_dispatch(i.operation(), tokens, registers);
    lemma_register_text(itype.rd, registers);
    lemma_register_text(itype.rs1, registers);
    lemma_numeral_writes(itype.imm as int);
    assert(tokens.len() == 4);
    assert(tokens[1] == register_text(itype.rd));
    assert(tokens[2] == register_text(itype.rs1));
    assert(tokens[3] == numeral(itype.imm as int));
    assert(i16_of(tokens[3]) == Some(itype.imm));
    assert(itype_of(tokens, itype.instruction, registers) == Some(i));
}

proof fn lemma_stype_read_back(stype: SType, registers: Map<Seq<char>, u8>)
    ensures
        instruction_of(Instruction::SType(stype).tokens(), registers) == Some(
            Instruction::SType(stype),
        ),
{
    let i = Instruction::SType(stype);
    let tokens = i.tokens();
    lemma_dispatch(i.operation(), tokens, registers);
    lemma_register_text(stype.rs2, registers);
    lemma_register_text(stype.rs1, registers);
    lemma_store_operand(stype.imm, stype.rs1);
    lemma_numeral_writes(stype.imm as int);
    assert(tokens.len() == 3);
    assert(tokens[1] == register_text(stype.rs2));
    assert(tokens[2] == store_operand(stype.imm, stype.rs1));
    let operand = fields(tokens[2], Separator::Parenthesis);
    assert(operand.len() == 2);
    assert(operand[0] == numeral(stype.imm as int));
    assert(operand[1] == register_text(stype.rs1));
    assert(i16_of(operand[0]) == Some(stype.imm));
    assert(stype_of(tokens, stype.instruction) == Some(i));
}

proof fn lemma_btype_read_back(btype: BType, registers: Map<Seq<char>, u8>)
    ensures
        instruction_of(Instruction::BType(btype).tokens(), registers) == Some(
            Instruction::BType(btype),
        ),
{
    let i = Instruction::BType(btype);
    let tokens = i.tokens();
    lemma_dispatch(i.operation(), tokens, registers);
    lemma_register_text(btype.rs1, registers);
    lemma_register_text(btype.rs2, registers);
    lemma_numeral_writes(btype.imm as int);
    assert(tokens.len() == 4);
    assert(tokens[1] == register_text(btype.rs1));
    assert(tokens[2] == register_text(btype.rs2));
    assert(tokens[3] == numeral(btype.imm as int));
    assert(i16_of(tokens[3]) == Some(btype.imm));
    assert(btype_of(tokens, btype.instruction, registers) == Some(i));
}

proof fn lemma_utype_read_back(utype: UType, registers: Map<Seq<char>, u8>)
    ensures
        instruction_of(Instruction::UType(utype).tokens(), registers) == Some(
            Instruction::UType(utype),
        ),
{
    let i = Instruction::UType(utype);
    let tokens = i.tokens();
    lemma_dispatch(i.operation(), tokens, registers);
    lemma_register_text(utype.rd, registers);
    lemma_numeral_writes(utype.imm as int);
    assert(tokens.len() == 3);
    assert(tokens[1] == register_text(utype.rd));
    assert(tokens[2] == numeral(utype.imm as int));
    assert(i32_of(tokens[2]) == Some(utype.imm));
    assert(utype_of(tokens, utype.instruction, registers) == Some(i));
}

proof fn lemma_jtype_read_back(jtype: JType, registers: Map<Seq<char>, u8>)
    ensures
        instruction_of(Instruction::JType(jtype).tokens(), registers) == Some(
            Instruction::JType(jtype),
        ),
{
    let i = Instruction::JType(jtype);
    let tokens = i.tokens();
    lemma_dispatch(i.operation(), tokens, registers);
    lemma_register_text(jtype.rd, registers);
    lemma_numeral_writes(jtype.imm as int);
    assert(jtype._instruction == JTypeInstruction::Jal);
    assert(tokens.len() == 3);
    assert(tokens[1] == register_text(jtype.rd));
    assert(tokens[2] == numeral(jtype.imm as int));
    assert(i32_of(tokens[2]) == Some(jtype.imm));
    assert(jtype_of(tokens, registers) == Some(i));
}

/// The parser reads every instruction back from its tokens, whatever names
/// the register table holds.
pub proof fn lemma_tokens_read_back(i: Instruction, registers: Map<Seq<char>, u8>)
    ensures
        instruction_of(i.tokens(), registers) == Some(i),
{
    match i {
        Instruction::RType(rtype) => lemma_rtype_read_back(rtype, registers),
        Instruction::IType(itype) => lemma_itype_read_back(itype, registers),
        Instruction::SType(stype) => lemma_stype_read_back(stype, registers),
        Instruction::BType(btype) => lemma_btype_read_back(btype, registers),
        Instruction::UType(utype) => lemma_utype_read_back(utype, registers),
        Instruction::JType(jtype) => lemma_jtype_read_back(jtype, registers),
    }
}

/// Tokens with spaces between them make a text that is not empty, holds no
/// line feed, and neither starts nor ends with white space.
pub proof fn lemma_spaced_solid(tokens: Seq<Seq<char>>)
    requires
        tokens.len() > 0,
        forall|k: int| 0 <= k < tokens.len() ==> solid(#[trigger] tokens[k], true),
    ensures
        spaced(tokens).len() > 0,
        forall|k: int| 0 <= k < spaced(tokens).len() ==> #[trigger] spaced(tokens)[k] != '\n',
        !is_whitespace(spaced(tokens)[0]),
        !is_whitespace(spaced(tokens).last()),
    decreases tokens.len(),
{
    let text = spaced(tokens);
    let first = tokens[0];
    assert(solid(first, true));
    if tokens.len() > 1 {
        let rest = tokens.drop_first();
        assert forall|k: int| 0 <= k < rest.len() implies solid(#[trigger] rest[k], true) by {
            assert(rest[k] == tokens[k + 1]);
        }
        lemma_spaced_solid(rest);
        let tail = spaced(rest);
        assert(text == first + seq![' '] + tail);
        assert(text[0] == first[0]);
        assert(text.last() == tail.last());
        assert forall|k: int| 0 <= k < text.len() implies #[trigger] text[k] != '\n' by {
            if k < first.len() {
                assert(text[k] == first[k]);
            } else if k > first.len() {
                assert(text[k] == tail[k - first.len() - 1]);
            }
        }
    }
}

/// Cutting spaced tokens at white space gives the tokens back.
pub proof fn lemma_fields_of_spaced(tokens: Seq<Seq<char>>)
    requires
        forall|k: int| 0 <= k < tokens.len() ==> solid(#[trigger] tokens[k], true),
    ensures
        fields(spaced(tokens), Separator::Whitespace) == tokens,
    decreases tokens.len(),
{
    let sep = Separator::Whitespace;
    if tokens.len() == 0 {
        assert(tokens == Seq::<Seq<char>>::empty());
    } else {
        let first = tokens[0];
        assert(solid(first, true));
        if tokens.len() == 1 {
            assert(first + Seq::<char>::empty() == first);
            lemma_first_field(first, Seq::<char>::empty(), sep);
            assert(seq![first] + Seq::<Seq<char>>::empty() == tokens);
        } else {
            let rest = tokens.drop_first();
            assert forall|k: int| 0 <= k < rest.len() implies solid(#[trigger] rest[k], true) by {
                assert(rest[k] == tokens[k + 1]);
            }
            lemma_fields_of_spaced(rest);
            let tail = seq![' '] + spaced(rest);
            assert(spaced(tokens) == first + tail);
            lemma_first_field(first, tail, sep);
            lemma_leading_separator(' ', spaced(rest), sep);
            assert(seq![first] + rest == tokens);
        }
    }
}

/// The parser reads every instruction back from its text: the line of an
/// instruction is one line, and its word is the word of the instruction.
pub proof fn lemma_text_reads_back(i: Instruction, registers: Map<Seq<char>, u8>)
    ensures
        instruction_of(fields(i.text(), Separator::Whitespace), registers) == Some(i),
        line_word(i.text()) == Some(i.word()),
        trimmed_lines(i.text()) == seq![i.text()],
        machine_words(i.text()) == seq![i.word()],
{
    let text = i.text();
    lemma_tokens_solid(i);
    lemma_fields_of_spaced(i.tokens());
    lemma_tokens_read_back(i, registers);
    lemma_tokens_read_back(i, abi_registers());
    lemma_spaced_solid(i.tokens());
    assert(text + Seq::<char>::empty() == text);
    lemma_first_field(text, Seq::<char>::empty(), Separator::LineFeed);
    let lines = fields(text, Separator::LineFeed);
    assert(lines == seq![text]);
    assert(trim_start(text) == text);
    assert(trim_end(text) == text);
    assert(lines.drop_last() == Seq::<Seq<char>>::empty());
    assert(trimmed_nonempty(lines.drop_last()) == Seq::<Seq<char>>::empty());
    assert(trimmed_nonempty(lines) == seq![text]);
    let one = seq![text];
    assert(one.drop_last() == Seq::<Seq<char>>::empty());
    assert(line_words(one.drop_last()) == Seq::<u32>::empty());
    assert(line_words(one) == seq![i.word()]);
}

/// Assembling the listing of a program gives the words of its instructions,
/// one for one and in order.
pub proof fn lemma_listing_assembles(program: Seq<Instruction>)
    ensures
        machine_words(listing(program)) == Seq::new(program.len(), |k: int| program[k].word()),
    decreases program.len(),
{
    let words = Seq::new(program.len(), |k: int| program[k].word());
    if program.len() == 0 {
        let none = Seq::<char>::empty();
        assert(fields(none, Separator::LineFeed) == Seq::<Seq<char>>::empty());
        assert(trimmed_lines(none) == Seq::<Seq<char>>::empty());
        assert(machine_words(none) == words);
    } else {
        let before = program.drop_last();
        let last = program.last();
        lemma_listing_assembles(before);
        lemma_text_reads_back(last, abi_registers());
        lemma_machine_words_concat(listing(before), last.text());
        assert(Seq::new(before.len(), |k: int| before[k].word()) + seq![last.word()] == words);
    }
}

} // verus!
