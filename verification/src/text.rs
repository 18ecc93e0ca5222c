//! Splitting text into lines and fields.
//!
//! Text is modelled as a sequence of characters. A piece of a text is named by
//! a range of character positions, so that splitting allocates nothing; the
//! ranges are turned into strings or slices by whoever needs them.
use vstd::prelude::*;
use vstd::string::StrSliceExecFns;

verus! {

/// The characters with the Unicode property `White_Space`.
pub open spec fn is_whitespace(c: char) -> bool {
    let code = c as u32;
    ||| 0x09 <= code <= 0x0D
    ||| code == 0x20
    ||| code == 0x85
    ||| code == 0xA0
    ||| code == 0x1680
    ||| 0x2000 <= code <= 0x200A
    ||| code == 0x2028
    ||| code == 0x2029
    ||| code == 0x202F
    ||| code == 0x205F
    ||| code == 0x3000
}

/// A set of characters that separates the pieces of a text.
#[derive(Clone, Copy, Debug, PartialEq, Eq, Structural)]
pub enum Separator {
    /// Any white space character.
    Whitespace,
    /// The line feed, `\n`.
    LineFeed,
    /// An opening or a closing parenthesis.
    Parenthesis,
}

impl Separator {
    /// Whether `c` belongs to the set.
    pub open spec fn contains(self, c: char) -> bool {
        match self {
            Separator::Whitespace => is_whitespace(c),
            Separator::LineFeed => c == '\n',
            Separator::Parenthesis => c == '(' || c == ')',
        }
    }

    /// Tells whether `c` belongs to the set.
    pub fn separates(&self, c: char) -> (found: bool)
        ensures
            found == self.contains(c),
    {
        match self {
            Separator::Whitespace => {
                let code: u32 = c as u32;
                (0x09 <= code && code <= 0x0D) || code == 0x20 || code == 0x85 || code == 0xA0
                    || code == 0x1680 || (0x2000 <= code && code <= 0x200A) || code == 0x2028
                    || code == 0x2029 || code == 0x202F || code == 0x205F || code == 0x3000
            },
            Separator::LineFeed => c == '\n',
            Separator::Parenthesis => c == '(' || c == ')',
        }
    }
}

/// The number of characters at the start of `s` before its first separator,
/// or the length of `s` if it holds none.
pub open spec fn run_len(s: Seq<char>, sep: Separator) -> nat
    decreases s.len(),
{
    if s.len() == 0 || sep.contains(s[0]) {
        0
    } else {
        1 + run_len(s.drop_first(), sep)
    }
}

/// The fields of `s`: its longest stretches without a separator, in order.
/// None of them is empty.
pub open spec fn fields(s: Seq<char>, sep: Separator) -> Seq<Seq<char>>
    decreases s.len(),
{
    if s.len() == 0 {
        Seq::empty()
    } else if sep.contains(s[0]) {
        fields(s.drop_first(), sep)
    } else {
        let n = run_len(s, sep) as int;
        proof {
            lemma_run_len_bound(s, sep);
        }
        seq![s.take(n)] + fields(s.skip(n), sep)
    }
}

/// `s` without the white space at its start.
pub open spec fn trim_start(s: Seq<char>) -> Seq<char>
    decreases s.len(),
{
    if s.len() > 0 && is_whitespace(s[0]) {
        trim_start(s.drop_first())
    } else {
        s
    }
}

/// `s` without the white space at its end.
pub open spec fn trim_end(s: Seq<char>) -> Seq<char>
    decreases s.len(),
{
    if s.len() > 0 && is_whitespace(s.last()) {
        trim_end(s.drop_last())
    } else {
        s
    }
}

/// `s` without the white space at its start and at its end.
pub open spec fn trim(s: Seq<char>) -> Seq<char> {
    trim_end(trim_start(s))
}

/// Each of `lines` trimmed, without those that are empty then.
pub open spec fn trimmed_nonempty(lines: Seq<Seq<char>>) -> Seq<Seq<char>>
    decreases lines.len(),
{
    if lines.len() == 0 {
        Seq::empty()
    } else {
        let line = trim(lines.last());
        if line.len() > 0 {
            trimmed_nonempty(lines.drop_last()).push(line)
        } else {
            trimmed_nonempty(lines.drop_last())
        }
    }
}

/// The lines of `s`, each trimmed, without the lines that hold nothing but
/// white space. A line ends at a line feed or at the end of the text.
pub open spec fn trimmed_lines(s: Seq<char>) -> Seq<Seq<char>> {
    trimmed_nonempty(fields(s, Separator::LineFeed))
}

/// The pieces of `text` that `ranges` name, each range holding the position
/// of a piece's first character and the position after its last.
pub open spec fn pieces(text: Seq<char>, ranges: Seq<(usize, usize)>) -> Seq<Seq<char>> {
    Seq::new(ranges.len(), |k: int| text.subrange(ranges[k].0 as int, ranges[k].1 as int))
}

/// Whether every range of `ranges` lies within a text of `len` characters.
pub open spec fn ranges_within(ranges: Seq<(usize, usize)>, len: nat) -> bool {
    forall|k: int| 0 <= k < ranges.len() ==> (#[trigger] ranges[k]).0 <= ranges[k].1 <= len
}

/// The run at the start of `s` is never longer than `s`.
pub proof fn lemma_run_len_bound(s: Seq<char>, sep: Separator)
    ensures
        run_len(s, sep) <= s.len(),
        s.len() > 0 && !sep.contains(s[0]) ==> run_len(s, sep) > 0,
    decreases s.len(),
{
    if s.len() > 0 && !sep.contains(s[0]) {
        lemma_run_len_bound(s.drop_first(), sep);
    }
}

/// The run at the start of `s` ends at the first separator, or at the end of
/// `s` if there is none.
pub proof fn lemma_run_len_is(s: Seq<char>, sep: Separator, n: int)
    requires
        0 <= n <= s.len(),
        forall|k: int| 0 <= k < n ==> !sep.contains(#[trigger] s[k]),
        n == s.len() || sep.contains(s[n]),
    ensures
        run_len(s, sep) == n,
    decreases s.len(),
{
    if n > 0 {
        let rest = s.drop_first();
        assert forall|k: int| 0 <= k < n - 1 implies !sep.contains(#[trigger] rest[k]) by {
            assert(rest[k] == s[k + 1]);
        }
        lemma_run_len_is(rest, sep, n - 1);
    }
}

/// The run at the start of `s` holds no separator and is followed by one,
/// unless it reaches the end of `s`.
pub proof fn lemma_run_len_ends(s: Seq<char>, sep: Separator)
    ensures
        run_len(s, sep) <= s.len(),
        forall|k: int| 0 <= k < run_len(s, sep) ==> !sep.contains(#[trigger] s[k]),
        run_len(s, sep) == s.len() || sep.contains(s[run_len(s, sep) as int]),
    decreases s.len(),
{
    if s.len() > 0 && !sep.contains(s[0]) {
        let rest = s.drop_first();
        lemma_run_len_ends(rest, sep);
        assert forall|k: int| 0 <= k < run_len(s, sep) implies !sep.contains(#[trigger] s[k]) by {
            if k > 0 {
                assert(s[k] == rest[k - 1]);
            }
        }
        if run_len(s, sep) < s.len() {
            assert(s[run_len(s, sep) as int] == rest[run_len(rest, sep) as int]);
        }
    }
}

/// A text that starts with a stretch without separators, followed by a
/// separator or by nothing, has that stretch as its first field.
pub proof fn lemma_first_field(token: Seq<char>, rest: Seq<char>, sep: Separator)
    requires
        token.len() > 0,
        forall|k: int| 0 <= k < token.len() ==> !sep.contains(#[trigger] token[k]),
        rest.len() == 0 || sep.contains(rest[0]),
    ensures
        fields(token + rest, sep) == seq![token] + fields(rest, sep),
{
    let s = token + rest;
    let n = token.len() as int;
    assert forall|k: int| 0 <= k < n implies !sep.contains(#[trigger] s[k]) by {
        assert(s[k] == token[k]);
    }
    if rest.len() > 0 {
        assert(s[n] == rest[0]);
    }
    lemma_run_len_is(s, sep, n);
    assert(s.take(n) == token);
    assert(s.skip(n) == rest);
}

/// A separator at the start of a text changes nothing of its fields.
pub proof fn lemma_leading_separator(c: char, rest: Seq<char>, sep: Separator)
    requires
        sep.contains(c),
    ensures
        fields(seq![c] + rest, sep) == fields(rest, sep),
{
    assert((seq![c] + rest).drop_first() == rest);
}

/// The fields of two texts with a separator between them are the fields of
/// the first followed by the fields of the second.
pub proof fn lemma_fields_split(first: Seq<char>, c: char, second: Seq<char>, sep: Separator)
    requires
        sep.contains(c),
    ensures
        fields(first + seq![c] + second, sep) == fields(first, sep) + fields(second, sep),
    decreases first.len(),
{
    let tail = seq![c] + second;
    let all = first + seq![c] + second;
    assert(all == first + tail);
    if first.len() == 0 {
        assert(all == tail);
        lemma_leading_separator(c, second, sep);
        assert(Seq::<Seq<char>>::empty() + fields(second, sep) == fields(second, sep));
    } else if sep.contains(first[0]) {
        assert(all[0] == first[0]);
        assert(all.drop_first() == first.drop_first() + seq![c] + second);
        lemma_fields_split(first.drop_first(), c, second, sep);
    } else {
        lemma_run_len_ends(first, sep);
        let n = run_len(first, sep) as int;
        let token = first.take(n);
        let rest = first.skip(n);
        assert(first == token + rest);
        assert(all == token + (rest + tail));
        assert((rest + tail)[0] == if rest.len() > 0 {
            rest[0]
        } else {
            c
        });
        lemma_first_field(token, rest + tail, sep);
        lemma_first_field(token, rest, sep);
        assert(rest + tail == rest + seq![c] + second);
        lemma_fields_split(rest, c, second, sep);
        assert(seq![token] + (fields(rest, sep) + fields(second, sep)) == seq![token] + fields(
            rest,
            sep,
        ) + fields(second, sep));
    }
}

/// Trimming lines and leaving out the empty ones goes line by line.
pub proof fn lemma_trimmed_nonempty_concat(first: Seq<Seq<char>>, second: Seq<Seq<char>>)
    ensures
        trimmed_nonempty(first + second) == trimmed_nonempty(first) + trimmed_nonempty(second),
    decreases second.len(),
{
    if second.len() == 0 {
        assert(first + second == first);
        assert(trimmed_nonempty(first) + Seq::<Seq<char>>::empty() == trimmed_nonempty(first));
    } else {
        let all = first + second;
        assert(all.drop_last() == first + second.drop_last());
        assert(all.last() == second.last());
        lemma_trimmed_nonempty_concat(first, second.drop_last());
        let line = trim(second.last());
        if line.len() > 0 {
            assert((trimmed_nonempty(first) + trimmed_nonempty(second.drop_last())).push(line)
                == trimmed_nonempty(first) + trimmed_nonempty(second.drop_last()).push(line));
        }
    }
}

/// The lines of two texts with a line feed between them are the lines of
/// the first followed by the lines of the second.
pub proof fn lemma_trimmed_lines_concat(first: Seq<char>, second: Seq<char>)
    ensures
        trimmed_lines(first + seq!['\n'] + second) == trimmed_lines(first) + trimmed_lines(
            second,
        ),
{
    lemma_fields_split(first, '\n', second, Separator::LineFeed);
    lemma_trimmed_nonempty_concat(
        fields(first, Separator::LineFeed),
        fields(second, Separator::LineFeed),
    );
}

/// The characters of `s`, one by one.
pub fn to_chars(s: &str) -> (chars: Vec<char>)
    ensures
        chars@ == s@,
{
    let mut chars: Vec<char> = Vec::new();
    for c in it: s.chars()
        invariant
            chars@ == it.seq().take(it.index()),
            it.seq() == s@,
    {
        chars.push(c);
    }
    chars
}

/// Whether `chars` spells `word`.
pub fn spells(chars: &[char], word: &str) -> (same: bool)
    ensures
        same == (chars@ == word@),
{
    let mut i: usize = 0;
    for c in it: word.chars()
        invariant
            i == it.index(),
            it.seq() == word@,
            i <= chars.len(),
            chars@.take(i as int) == word@.take(i as int),
    {
        if i >= chars.len() {
            return false;
        }
        if chars[i] != c {
            assert(chars@[i as int] != word@[i as int]);
            return false;
        }
        assert(chars@.take(i + 1) == chars@.take(i as int).push(chars@[i as int]));
        assert(word@.take(i + 1) == word@.take(i as int).push(word@[i as int]));
        i += 1;
    }
    assert(word@.take(i as int) == word@);
    if i == chars.len() {
        assert(chars@.take(i as int) == chars@);
        true
    } else {
        false
    }
}

/// The part of `s` from character `from` up to character `to`. Where `s` is
/// known to be ASCII the part is found at once; otherwise `s` is read up to
/// `to`.
pub fn substring<'a>(s: &'a str, ascii: bool, from: usize, to: usize) -> (part: &'a str)
    requires
        ascii ==> s.is_ascii(),
        from <= to <= s@.len(),
    ensures
        part@ == s@.subrange(from as int, to as int),
{
    if ascii {
        s.substring_ascii(from, to)
    } else {
        s.substring_char(from, to)
    }
}

/// Finds the fields of `text`.
pub fn field_ranges(text: &[char], sep: Separator) -> (ranges: Vec<(usize, usize)>)
    ensures
        ranges_within(ranges@, text@.len()),
        pieces(text@, ranges@) == fields(text@, sep),
{
    let n = text.len();
    let mut ranges: Vec<(usize, usize)> = Vec::new();
    let mut i: usize = 0;
    assert(text@.skip(0) == text@);
    assert(pieces(text@, ranges@) + fields(text@, sep) == fields(text@, sep));
    while i < n
        invariant
            n == text@.len(),
            i <= n,
            ranges_within(ranges@, text@.len()),
            pieces(text@, ranges@) + fields(text@.skip(i as int), sep) == fields(text@, sep),
        decreases n - i,
    {
        let ghost rest = text@.skip(i as int);
        if sep.separates(text[i]) {
            assert(rest.drop_first() == text@.skip(i + 1));
            i += 1;
        } else {
            let start = i;
            while i < n && !sep.separates(text[i])
                invariant
                    n == text@.len(),
                    start <= i <= n,
                    forall|k: int| start <= k < i ==> !sep.contains(#[trigger] text@[k]),
                decreases n - i,
            {
                i += 1;
            }
            proof {
                let len = i - start;
                assert forall|k: int| 0 <= k < len implies !sep.contains(#[trigger] rest[k]) by {
                    assert(rest[k] == text@[start + k]);
                }
                lemma_run_len_is(rest, sep, len);
                assert(rest.take(len) == text@.subrange(start as int, i as int));
                assert(rest.skip(len) == text@.skip(i as int));
                assert(pieces(text@, ranges@.push((start, i))) == pieces(text@, ranges@)
                    + seq![text@.subrange(start as int, i as int)]);
                assert(fields(rest, sep) == seq![rest.take(len)] + fields(rest.skip(len), sep));
                assert(pieces(text@, ranges@) + (seq![rest.take(len)] + fields(
                    rest.skip(len),
                    sep,
                )) == pieces(text@, ranges@) + seq![rest.take(len)] + fields(rest.skip(len), sep));
            }
            ranges.push((start, i));
        }
    }
    assert(fields(text@.skip(i as int), sep) == Seq::<Seq<char>>::empty());
    assert(pieces(text@, ranges@) + Seq::<Seq<char>>::empty() == pieces(text@, ranges@));
    ranges
}

/// Finds the part of `text[from..to]` that is left when the white space at
/// its start and at its end is taken away.
pub fn trim_range(text: &[char], from: usize, to: usize) -> (trimmed: (usize, usize))
    requires
        from <= to <= text@.len(),
    ensures
        from <= trimmed.0 <= trimmed.1 <= to,
        text@.subrange(trimmed.0 as int, trimmed.1 as int) == trim(
            text@.subrange(from as int, to as int),
        ),
{
    let mut a = from;
    while a < to && Separator::Whitespace.separates(text[a])
        invariant
            from <= a <= to <= text@.len(),
            trim_start(text@.subrange(a as int, to as int)) == trim_start(
                text@.subrange(from as int, to as int),
            ),
        decreases to - a,
    {
        assert(text@.subrange(a as int, to as int).drop_first() == text@.subrange(
            a + 1,
            to as int,
        ));
        a += 1;
    }
    let mut b = to;
    while a < b && Separator::Whitespace.separates(text[b - 1])
        invariant
            a <= b <= to <= text@.len(),
            trim_end(text@.subrange(a as int, b as int)) == trim_end(
                text@.subrange(a as int, to as int),
            ),
        decreases b - a,
    {
        assert(text@.subrange(a as int, b as int).drop_last() == text@.subrange(
            a as int,
            b - 1,
        ));
        b -= 1;
    }
    (a, b)
}

/// Finds the lines of `text` that hold more than white space, each trimmed.
pub fn line_ranges(text: &[char]) -> (ranges: Vec<(usize, usize)>)
    ensures
        ranges_within(ranges@, text@.len()),
        pieces(text@, ranges@) == trimmed_lines(text@),
{
    let lines = field_ranges(text, Separator::LineFeed);
    let mut ranges: Vec<(usize, usize)> = Vec::new();
    let mut k: usize = 0;
    assert(pieces(text@, lines@).take(0) == Seq::<Seq<char>>::empty());
    assert(pieces(text@, ranges@) == Seq::<Seq<char>>::empty());
    while k < lines.len()
        invariant
            k <= lines.len(),
            ranges_within(lines@, text@.len()),
            ranges_within(ranges@, text@.len()),
            pieces(text@, ranges@) == trimmed_nonempty(pieces(text@, lines@).take(k as int)),
        decreases lines.len() - k,
    {
        let (from, to) = lines[k];
        let (a, b) = trim_range(text, from, to);
        proof {
            let all = pieces(text@, lines@);
            assert(all.take(k + 1).drop_last() == all.take(k as int));
            assert(all.take(k + 1).last() == text@.subrange(from as int, to as int));
            assert(pieces(text@, ranges@.push((a, b))) == pieces(text@, ranges@).push(
                text@.subrange(a as int, b as int),
            ));
        }
        if a < b {
            ranges.push((a, b));
        }
        k += 1;
    }
    assert(pieces(text@, lines@).take(k as int) == pieces(text@, lines@));
    ranges
}

} // verus!
