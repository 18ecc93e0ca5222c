use riscv_assembler::register::parse_numeric_register;
use riscv_assembler::{create_register_map, parse_register};

const ABI_NAMES: [&str; 32] = [
    "zero", "ra", "sp", "gp", "tp", "t0", "t1", "t2", "s0", "s1", "a0", "a1", "a2", "a3", "a4",
    "a5", "a6", "a7", "s2", "s3", "s4", "s5", "s6", "s7", "s8", "s9", "s10", "s11", "t3", "t4",
    "t5", "t6",
];

#[test]
fn numeric_register_resolves_to_its_number() {
    let registers = create_register_map();
    for n in 0..32u8 {
        assert_eq!(parse_register(&format!("x{}", n), &registers), Some(n));
    }
}

#[test]
fn numeric_register_above_31_is_taken_up_to_255() {
    let registers = create_register_map();
    assert_eq!(parse_register("x32", &registers), Some(32));
    assert_eq!(parse_register("x100", &registers), Some(100));
    assert_eq!(parse_register("x255", &registers), Some(255));
    assert_eq!(parse_register("x256", &registers), None);
    assert_eq!(parse_register("x99999999999999999999", &registers), None);
}

#[test]
fn numeric_register_with_leading_zeros_or_a_plus_sign() {
    let registers = create_register_map();
    assert_eq!(parse_register("x007", &registers), Some(7));
    assert_eq!(parse_register("x+7", &registers), Some(7));
    assert_eq!(parse_register("x-7", &registers), None);
}

#[test]
fn abi_name_resolves_to_its_index() {
    let registers = create_register_map();
    for (index, name) in ABI_NAMES.iter().enumerate() {
        assert_eq!(parse_register(name, &registers), Some(index as u8), "{}", name);
    }
}

#[test]
fn fp_is_a_second_name_of_register_8() {
    let registers = create_register_map();
    assert_eq!(parse_register("fp", &registers), Some(8));
    assert_eq!(parse_register("s0", &registers), Some(8));
}

#[test]
fn register_table_has_33_names() {
    let registers = create_register_map();
    assert_eq!(registers.len(), 33);
}

#[test]
fn unknown_register_fails() {
    let registers = create_register_map();
    for token in ["", "x", "xx", "x1x", "x 1", "X1", "y1", "r1", "SP", "Zero", "s12", "t7", "a8", "sp ", "1", "$1", "xé"] {
        assert_eq!(parse_register(token, &registers), None, "{:?}", token);
    }
}

#[test]
fn token_that_starts_with_x_is_never_looked_up_by_name() {
    let mut registers = create_register_map();
    registers.insert("xyz".to_string(), 9);
    registers.insert("x5".to_string(), 9);
    registers.insert("q".to_string(), 77);
    assert_eq!(parse_register("xyz", &registers), None);
    assert_eq!(parse_register("x5", &registers), Some(5));
    assert_eq!(parse_register("q", &registers), Some(77));
}

#[test]
fn numeric_register_needs_its_x() {
    assert_eq!(parse_numeric_register(&['x', '1', '0']), Some(10));
    assert_eq!(parse_numeric_register(&['x', '0']), Some(0));
    assert_eq!(parse_numeric_register(&['x', '2', '5', '5']), Some(255));
    assert_eq!(parse_numeric_register(&['x', '2', '5', '6']), None);
    assert_eq!(parse_numeric_register(&['r', '1', '0']), None);
    assert_eq!(parse_numeric_register(&['a', '0']), None);
    assert_eq!(parse_numeric_register(&['1', '0']), None);
    assert_eq!(parse_numeric_register(&['x']), None);
    assert_eq!(parse_numeric_register(&[]), None);
    assert_eq!(parse_numeric_register(&['s', 'p']), None);
}
