//! Decimal integers in text.
//!
//! A numeral is an optional sign followed by one or more of the digits `0` to
//! `9`. Leading zeros are allowed and change nothing. `+` is accepted as a
//! sign everywhere, `-` only where the target type is signed. A numeral whose
//! value does not fit the target type has no value of that type.
use vstd::prelude::*;
use vstd::slice::slice_subrange;

verus! {

/// Whether `c` is one of the digits `0` to `9`.
pub open spec fn is_digit(c: char) -> bool {
    '0' <= c <= '9'
}

/// The value of the digit `c`.
pub open spec fn digit_value(c: char) -> nat {
    (c as u32 - '0' as u32) as nat
}

/// The digit with the value `d`, for `d` below ten.
pub open spec fn digit_char(d: nat) -> char {
    (d + '0' as u32) as char
}

/// Whether `s` holds nothing but digits.
pub open spec fn all_digits(s: Seq<char>) -> bool {
    forall|k: int| 0 <= k < s.len() ==> is_digit(#[trigger] s[k])
}

/// The number that the digits `s` write in base ten.
pub open spec fn decimal_value(s: Seq<char>) -> nat
    decreases s.len(),
{
    if s.len() == 0 {
        0
    } else {
        10 * decimal_value(s.drop_last()) + digit_value(s.last())
    }
}

/// The integer that the numeral `s` writes, if `s` is a numeral: an optional
/// sign and one or more digits. A leading `+` is always a sign, a leading `-`
/// only where `signed` holds.
pub open spec fn integer_of(s: Seq<char>, signed: bool) -> Option<int> {
    let negative = signed && s.len() > 0 && s[0] == '-';
    let digits = if s.len() > 0 && (s[0] == '+' || negative) {
        s.drop_first()
    } else {
        s
    };
    if digits.len() > 0 && all_digits(digits) {
        Some(
            if negative {
                -(decimal_value(digits) as int)
            } else {
                decimal_value(digits) as int
            },
        )
    } else {
        None
    }
}

/// The value of `s` as an unsigned 8-bit integer.
pub open spec fn u8_of(s: Seq<char>) -> Option<u8> {
    match integer_of(s, false) {
        Some(v) if v <= u8::MAX => Some(v as u8),
        _ => None,
    }
}

/// The value of `s` as a signed 16-bit integer.
pub open spec fn i16_of(s: Seq<char>) -> Option<i16> {
    match integer_of(s, true) {
        Some(v) if i16::MIN <= v <= i16::MAX => Some(v as i16),
        _ => None,
    }
}

/// The value of `s` as a signed 32-bit integer.
pub open spec fn i32_of(s: Seq<char>) -> Option<i32> {
    match integer_of(s, true) {
        Some(v) if i32::MIN <= v <= i32::MAX => Some(v as i32),
        _ => None,
    }
}

/// The shortest digits that write `n` in base ten.
pub open spec fn decimal(n: nat) -> Seq<char>
    decreases n,
{
    if n < 10 {
        seq![digit_char(n)]
    } else {
        decimal(n / 10).push(digit_char(n % 10))
    }
}

/// Digits never write less than their first few do.
pub proof fn lemma_decimal_value_grows(s: Seq<char>, n: int)
    requires
        0 <= n <= s.len(),
    ensures
        decimal_value(s.take(n)) <= decimal_value(s),
    decreases s.len() - n,
{
    if n < s.len() {
        lemma_decimal_value_grows(s, n + 1);
        assert(s.take(n + 1).drop_last() == s.take(n));
    } else {
        assert(s.take(n) == s);
    }
}

/// `decimal(n)` is a numeral and writes `n`.
pub proof fn lemma_decimal_writes(n: nat)
    ensures
        decimal(n).len() > 0,
        all_digits(decimal(n)),
        decimal_value(decimal(n)) == n,
        decimal(n)[0] != '+',
        decimal(n)[0] != '-',
    decreases n,
{
    if n < 10 {
        let s = decimal(n);
        assert(s.drop_last() == Seq::<char>::empty());
        assert(decimal_value(s) == 10 * decimal_value(s.drop_last()) + digit_value(s.last()));
    } else {
        lemma_decimal_writes(n / 10);
        let s = decimal(n);
        assert(s.drop_last() == decimal(n / 10));
        assert(s.last() == digit_char(n % 10));
        assert(s[0] == decimal(n / 10)[0]);
    }
}

/// The numeral of an integer: the digits of its magnitude, after a `-`
/// where it is negative.
pub open spec fn numeral(v: int) -> Seq<char> {
    if v < 0 {
        seq!['-'] + decimal((-v) as nat)
    } else {
        decimal(v as nat)
    }
}

/// `numeral(v)` writes `v`, and holds nothing but digits and at most a `-`.
pub proof fn lemma_numeral_writes(v: int)
    ensures
        numeral(v).len() > 0,
        integer_of(numeral(v), true) == Some(v),
        v >= 0 ==> integer_of(numeral(v), false) == Some(v),
        forall|k: int|
            0 <= k < numeral(v).len() ==> is_digit(#[trigger] numeral(v)[k]) || numeral(v)[k]
                == '-',
        is_digit(numeral(v).last()),
{
    if v < 0 {
        let digits = decimal((-v) as nat);
        lemma_decimal_writes((-v) as nat);
        assert(numeral(v).drop_first() == digits);
        assert forall|k: int| 0 <= k < numeral(v).len() implies is_digit(
            #[trigger] numeral(v)[k],
        ) || numeral(v)[k] == '-' by {
            if k > 0 {
                assert(numeral(v)[k] == digits[k - 1]);
            }
        }
        assert(numeral(v).last() == digits.last());
    } else {
        lemma_decimal_writes(v as nat);
    }
}

/// Reads digits as a number no greater than `limit`.
fn parse_digits(digits: &[char], limit: u64) -> (value: Option<u64>)
    requires
        limit <= 0x8000_0000,
    ensures
        value == if digits@.len() > 0 && all_digits(digits@) && decimal_value(digits@) <= limit {
            Some(decimal_value(digits@) as u64)
        } else {
            None
        },
{
    let n = digits.len();
    if n == 0 {
        return None;
    }
    let mut value: u64 = 0;
    let mut i: usize = 0;
    assert(digits@.take(0) == Seq::<char>::empty());
    while i < n
        invariant
            n == digits@.len(),
            i <= n,
            limit <= 0x8000_0000,
            all_digits(digits@.take(i as int)),
            value == decimal_value(digits@.take(i as int)),
            value <= limit,
        decreases n - i,
    {
        let c = digits[i];
        if !('0' <= c && c <= '9') {
            return None;
        }
        let d: u64 = (c as u32 - '0' as u32) as u64;
        value = 10 * value + d;
        proof {
            assert(digits@.take(i + 1).drop_last() == digits@.take(i as int));
            assert(digits@.take(i + 1).last() == c);
            assert(all_digits(digits@.take(i + 1))) by {
                assert forall|k: int| 0 <= k < i + 1 implies is_digit(
                    #[trigger] digits@.take(i + 1)[k],
                ) by {
                    if k < i {
                        assert(digits@.take(i + 1)[k] == digits@.take(i as int)[k]);
                    }
                }
            }
        }
        if value > limit {
            proof {
                lemma_decimal_value_grows(digits@, i + 1);
            }
            return None;
        }
        i += 1;
    }
    assert(digits@.take(i as int) == digits@);
    Some(value)
}

/// Reads `s` as an unsigned 8-bit integer.
pub fn parse_u8(s: &[char]) -> (value: Option<u8>)
    ensures
        value == u8_of(s@),
{
    let digits = if s.len() > 0 && s[0] == '+' {
        slice_subrange(s, 1, s.len())
    } else {
        s
    };
    assert(s@.len() > 0 ==> s@.drop_first() == s@.subrange(1, s@.len() as int));
    match parse_digits(digits, 0xFF) {
        Some(v) => Some(v as u8),
        None => None,
    }
}

/// Splits a signed numeral into its sign and its digits.
fn sign_and_digits(s: &[char]) -> (parts: (bool, &[char]))
    ensures
        parts.0 == (s@.len() > 0 && s@[0] == '-'),
        parts.1@ == if s@.len() > 0 && (s@[0] == '+' || s@[0] == '-') {
            s@.drop_first()
        } else {
            s@
        },
{
    assert(s@.len() > 0 ==> s@.drop_first() == s@.subrange(1, s@.len() as int));
    if s.len() > 0 && s[0] == '-' {
        (true, slice_subrange(s, 1, s.len()))
    } else if s.len() > 0 && s[0] == '+' {
        (false, slice_subrange(s, 1, s.len()))
    } else {
        (false, s)
    }
}

/// Reads `s` as a signed 16-bit integer.
pub fn parse_i16(s: &[char]) -> (value: Option<i16>)
    ensures
        value == i16_of(s@),
{
    let (negative, digits) = sign_and_digits(s);
    if negative {
        match parse_digits(digits, 0x8000) {
            Some(v) => Some((-(v as i32)) as i16),
            None => None,
        }
    } else {
        match parse_digits(digits, 0x7FFF) {
            Some(v) => Some(v as i16),
            None => None,
        }
    }
}

/// Reads `s` as a signed 32-bit integer.
pub fn parse_i32(s: &[char]) -> (value: Option<i32>)
    ensures
        value == i32_of(s@),
{
    let (negative, digits) = sign_and_digits(s);
    if negative {
        match parse_digits(digits, 0x8000_0000) {
            Some(v) => Some((-(v as i64)) as i32),
            None => None,
        }
    } else {
        match parse_digits(digits, 0x7FFF_FFFF) {
            Some(v) => Some(v as i32),
            None => None,
        }
    }
}

} // verus!
