//! From source text to machine words.
//!
//! The text is cut into lines, each line into tokens, and each line that
//! writes an instruction gives one word. A line that writes none gives
//! nothing and does not disturb the lines around it, so the words of a text
//! are the words of its lines, in order.
use vstd::prelude::*;
use vstd::string::{StrSliceExecFns, StringExecFns};
use crate::parser::{instruction_of, parse_tokens};
use crate::register::{abi_registers, create_register_map};
use crate::text::{
    field_ranges, fields, lemma_trimmed_lines_concat, line_ranges, pieces, ranges_within,
    substring, to_chars, trimmed_lines, Separator,
};

verus! {

/// The word of a line, if the line writes an instruction.
pub open spec fn line_word(line: Seq<char>) -> Option<u32> {
    match instruction_of(fields(line, Separator::Whitespace), abi_registers()) {
        Some(instruction) => Some(instruction.word()),
        None => None,
    }
}

/// The words of the lines that write an instruction, in the order of the
/// lines.
pub open spec fn line_words(lines: Seq<Seq<char>>) -> Seq<u32>
    decreases lines.len(),
{
    if lines.len() == 0 {
        Seq::empty()
    } else {
        match line_word(lines.last()) {
            Some(word) => line_words(lines.drop_last()).push(word),
            None => line_words(lines.drop_last()),
        }
    }
}

/// The machine words that a source text stands for.
pub open spec fn machine_words(source: Seq<char>) -> Seq<u32> {
    line_words(trimmed_lines(source))
}

/// Copies the pieces of `text` that `ranges` name.
fn cut(text: &str, ranges: &Vec<(usize, usize)>) -> (parts: Vec<String>)
    requires
        ranges_within(ranges@, text@.len()),
    ensures
        parts.deep_view() == pieces(text@, ranges@),
{
    let ascii = text.is_ascii();
    let mut parts: Vec<String> = Vec::new();
    let mut k: usize = 0;
    while k < ranges.len()
        invariant
            k <= ranges.len(),
            ascii ==> text.is_ascii(),
            ranges_within(ranges@, text@.len()),
            parts.len() == k,
            forall|j: int|
                0 <= j < k ==> (#[trigger] parts@[j])@ == text@.subrange(
                    ranges@[j].0 as int,
                    ranges@[j].1 as int,
                ),
        decreases ranges.len() - k,
    {
        let (from, to) = ranges[k];
        assert(ranges@[k as int].0 <= ranges@[k as int].1 <= text@.len());
        let part = String::from_str(substring(text, ascii, from, to));
        parts.push(part);
        k += 1;
    }
    assert(parts.deep_view() =~= pieces(text@, ranges@));
    parts
}

/// Splits a text into its lines, each trimmed. Lines that hold nothing but
/// white space are left out.
pub fn split_string_into_lines(input: String) -> (lines: Vec<String>)
    ensures
        lines.deep_view() == trimmed_lines(input@),
{
    let chars = to_chars(input.as_str());
    let ranges = line_ranges(chars.as_slice());
    cut(input.as_str(), &ranges)
}

/// Splits a text, usually one line, into the tokens between its white space.
pub fn split_string_by_whitespace(input: String) -> (tokens: Vec<String>)
    ensures
        tokens.deep_view() == fields(input@, Separator::Whitespace),
{
    let chars = to_chars(input.as_str());
    let ranges = field_ranges(chars.as_slice(), Separator::Whitespace);
    cut(input.as_str(), &ranges)
}

/// Assembles a source text, one instruction to the line, into machine words.
/// Never fails: a line that writes no instruction is passed over.
pub fn assemble(input: String) -> (machine_codes: Vec<u32>)
    ensures
        machine_codes@ == machine_words(input@),
{
    let lines = split_string_into_lines(input);
    let reg_map = create_register_map();
    let mut machine_codes: Vec<u32> = Vec::new();
    let mut k: usize = 0;
    assert(lines.deep_view().take(0) == Seq::<Seq<char>>::empty());
    while k < lines.len()
        invariant
            k <= lines.len(),
            reg_map@ == abi_registers(),
            machine_codes@ == line_words(lines.deep_view().take(k as int)),
        decreases lines.len() - k,
    {
        let tokens = split_string_by_whitespace(lines[k].clone());
        let line = tokens.as_slice();
        let parsed = parse_tokens(line, &reg_map);
        proof {
            let all = lines.deep_view();
            assert(all.take(k + 1).drop_last() == all.take(k as int));
            assert(all.take(k + 1).last() == lines@[k as int]@);
            assert(line.deep_view() == tokens.deep_view());
        }
        if let Some(instruction) = parsed {
            machine_codes.push(instruction.encode());
        }
        k += 1;
    }
    assert(lines.deep_view().take(k as int) == lines.deep_view());
    machine_codes
}

/// The words of two runs of lines, one after the other, are the words of
/// the first followed by the words of the second.
pub proof fn lemma_line_words_concat(first: Seq<Seq<char>>, second: Seq<Seq<char>>)
    ensures
        line_words(first + second) == line_words(first) + line_words(second),
    decreases second.len(),
{
    if second.len() == 0 {
        assert(first + second == first);
        assert(line_words(first) + Seq::<u32>::empty() == line_words(first));
    } else {
        let all = first + second;
        assert(all.drop_last() == first + second.drop_last());
        assert(all.last() == second.last());
        lemma_line_words_concat(first, second.drop_last());
        match line_word(second.last()) {
            Some(word) => {
                assert((line_words(first) + line_words(second.drop_last())).push(word)
                    == line_words(first) + line_words(second.drop_last()).push(word));
            },
            None => {},
        }
    }
}

/// A line that writes no instruction gives no word, and the lines before and
/// after it give the words they give without it.
pub proof fn lemma_malformed_line_skipped(
    before: Seq<Seq<char>>,
    line: Seq<char>,
    after: Seq<Seq<char>>,
)
    requires
        line_word(line) is None,
    ensures
        line_words(before + seq![line] + after) == line_words(before) + line_words(after),
{
    let one = seq![line];
    assert(one.drop_last() == Seq::<Seq<char>>::empty());
    assert(one.last() == line);
    assert(line_words(one.drop_last()) == Seq::<u32>::empty());
    assert(line_words(one) == Seq::<u32>::empty());
    lemma_line_words_concat(before, one);
    lemma_line_words_concat(before + one, after);
    assert(line_words(before) + Seq::<u32>::empty() == line_words(before));
}

/// A line that writes an instruction gives exactly its word, after the
/// words of the lines before it.
pub proof fn lemma_line_gives_word(before: Seq<Seq<char>>, line: Seq<char>, word: u32)
    requires
        line_word(line) == Some(word),
    ensures
        line_words(before.push(line)) == line_words(before).push(word),
{
    assert(before.push(line).drop_last() == before);
    assert(before.push(line).last() == line);
}

/// No text gives more words than it has lines.
pub proof fn lemma_line_words_len(lines: Seq<Seq<char>>)
    ensures
        line_words(lines).len() <= lines.len(),
    decreases lines.len(),
{
    if lines.len() > 0 {
        lemma_line_words_len(lines.drop_last());
    }
}

/// The words of two texts with a line feed between them are the words of
/// the first followed by the words of the second: no line reaches into the
/// next.
pub proof fn lemma_machine_words_concat(first: Seq<char>, second: Seq<char>)
    ensures
        machine_words(first + seq!['\n'] + second) == machine_words(first) + machine_words(
            second,
        ),
{
    lemma_trimmed_lines_concat(first, second);
    lemma_line_words_concat(trimmed_lines(first), trimmed_lines(second));
}

} // verus!
