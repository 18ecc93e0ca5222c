use riscv_assembler::number::{parse_i16, parse_i32, parse_u8};

fn chars(s: &str) -> Vec<char> {
    s.chars().collect()
}

const SAMPLES: [&str; 60] = [
    "", "0", "1", "9", "10", "31", "32", "99", "127", "128", "255", "256", "257", "999", "0255",
    "00000000000000000000255", "00000000000000000000256", "+", "-", "+0", "-0", "+5", "-5", "++5",
    "--5", "+-5", "-+5", "5+", "5-", " 5", "5 ", "5 5", "1_0", "0x10", "1e3", "1.0", "a", "x1",
    "32767", "32768", "-32768", "-32769", "+32767", "+32768", "65535", "65536", "2147483647",
    "2147483648", "-2147483648", "-2147483649", "+2147483647", "4294967295", "4294967296",
    "99999999999999999999", "-99999999999999999999", "٣", "１２", "1\u{0}", "-0000000000032768",
    "+00000000002147483647",
];

#[test]
fn parse_u8_agrees_with_the_standard_parser() {
    for s in SAMPLES {
        assert_eq!(parse_u8(&chars(s)), s.parse::<u8>().ok(), "{:?}", s);
    }
}

#[test]
fn parse_i16_agrees_with_the_standard_parser() {
    for s in SAMPLES {
        assert_eq!(parse_i16(&chars(s)), s.parse::<i16>().ok(), "{:?}", s);
    }
}

#[test]
fn parse_i32_agrees_with_the_standard_parser() {
    for s in SAMPLES {
        assert_eq!(parse_i32(&chars(s)), s.parse::<i32>().ok(), "{:?}", s);
    }
}

#[test]
fn parse_u8_reads_every_value_back() {
    for n in 0..=u8::MAX {
        assert_eq!(parse_u8(&chars(&format!("{}", n))), Some(n));
    }
    for n in 256..2000u32 {
        assert_eq!(parse_u8(&chars(&format!("{}", n))), None);
    }
}

#[test]
fn parse_i16_reads_every_value_back() {
    for n in i16::MIN..=i16::MAX {
        assert_eq!(parse_i16(&chars(&format!("{}", n))), Some(n));
    }
    assert_eq!(parse_i16(&chars("32768")), None);
    assert_eq!(parse_i16(&chars("-32769")), None);
}

#[test]
fn parse_i32_reads_values_at_the_edges_back() {
    for n in [i32::MIN, i32::MIN + 1, -65536, -1, 0, 1, 65536, i32::MAX - 1, i32::MAX] {
        assert_eq!(parse_i32(&chars(&format!("{}", n))), Some(n));
    }
    assert_eq!(parse_i32(&chars("2147483648")), None);
    assert_eq!(parse_i32(&chars("-2147483649")), None);
}

#[test]
fn unsigned_numeral_takes_a_plus_sign_but_no_minus_sign() {
    assert_eq!(parse_u8(&chars("+7")), Some(7));
    assert_eq!(parse_u8(&chars("-7")), None);
    assert_eq!(parse_u8(&chars("-0")), None);
}

#[test]
fn signed_numeral_takes_either_sign() {
    assert_eq!(parse_i16(&chars("+7")), Some(7));
    assert_eq!(parse_i16(&chars("-7")), Some(-7));
    assert_eq!(parse_i32(&chars("-0")), Some(0));
}

#[test]
fn numeral_needs_a_digit() {
    assert_eq!(parse_u8(&chars("")), None);
    assert_eq!(parse_i16(&chars("")), None);
    assert_eq!(parse_i16(&chars("-")), None);
    assert_eq!(parse_i32(&chars("+")), None);
}

#[test]
fn hexadecimal_is_no_numeral() {
    assert_eq!(parse_i32(&chars("0x12345")), None);
    assert_eq!(parse_i16(&chars("0x10")), None);
}
