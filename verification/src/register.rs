//! Register names.
//!
//! A register is written `x` and its number, or by its ABI name. The numeric
//! form is not held to the 32 registers of the machine: any number that fits
//! eight bits is taken as it is.
use vstd::prelude::*;
use vstd::hash_map::StringHashMap;
use vstd::slice::slice_subrange;
use vstd::string::{StrSliceExecFns, StringExecFns};
use crate::number::{decimal, lemma_decimal_writes, parse_u8, u8_of};
use crate::text::to_chars;

verus! {

/// The ABI names of the registers, each at the place of its index.
pub open spec fn abi_names() -> Seq<Seq<char>> {
    seq![
        "zero"@,
        "ra"@,
        "sp"@,
        "gp"@,
        "tp"@,
        "t0"@,
        "t1"@,
        "t2"@,
        "s0"@,
        "s1"@,
        "a0"@,
        "a1"@,
        "a2"@,
        "a3"@,
        "a4"@,
        "a5"@,
        "a6"@,
        "a7"@,
        "s2"@,
        "s3"@,
        "s4"@,
        "s5"@,
        "s6"@,
        "s7"@,
        "s8"@,
        "s9"@,
        "s10"@,
        "s11"@,
        "t3"@,
        "t4"@,
        "t5"@,
        "t6"@,
    ]
}

/// The table of ABI names: each of the 32 names with its index, and `fp` as a
/// second name of register 8.
pub open spec fn abi_registers() -> Map<Seq<char>, u8> {
    Map::new(
        |name: Seq<char>| abi_names().contains(name) || name == "fp"@,
        |name: Seq<char>|
            if name == "fp"@ {
                8u8
            } else {
                abi_names().index_of(name) as u8
            },
    )
}

/// The number of a register that is written in the numeric form, `x` and a
/// numeral. A token of any other form has none.
pub open spec fn numeric_register(token: Seq<char>) -> Option<u8> {
    if token.len() > 0 && token[0] == 'x' {
        u8_of(token.drop_first())
    } else {
        None
    }
}

/// The index of the register that `token` names: the number after an `x`, or
/// what `registers` holds for the token. A token that starts with `x` is
/// never looked up by name, and the empty token names no register.
pub open spec fn register_index(token: Seq<char>, registers: Map<Seq<char>, u8>) -> Option<u8> {
    if token.len() > 0 && token[0] == 'x' {
        numeric_register(token)
    } else if token.len() > 0 && registers.contains_key(token) {
        Some(registers[token])
    } else {
        None
    }
}

/// The length of a name and its first three characters, which tell the ABI
/// names apart.
spec fn spelling(name: Seq<char>) -> (nat, char, char, char) {
    (name.len(), name[0], name[1], name[2])
}

/// No two registers share an ABI name, and `fp` is not among the 32 names.
pub proof fn lemma_abi_names_distinct()
    ensures
        abi_names().len() == 32,
        abi_names().no_duplicates(),
        !abi_names().contains("fp"@),
{
    reveal_strlit("zero");
    reveal_strlit("ra");
    reveal_strlit("sp");
    reveal_strlit("gp");
    reveal_strlit("tp");
    reveal_strlit("t0");
    reveal_strlit("t1");
    reveal_strlit("t2");
    reveal_strlit("s0");
    reveal_strlit("s1");
    reveal_strlit("a0");
    reveal_strlit("a1");
    reveal_strlit("a2");
    reveal_strlit("a3");
    reveal_strlit("a4");
    reveal_strlit("a5");
    reveal_strlit("a6");
    reveal_strlit("a7");
    reveal_strlit("s2");
    reveal_strlit("s3");
    reveal_strlit("s4");
    reveal_strlit("s5");
    reveal_strlit("s6");
    reveal_strlit("s7");
    reveal_strlit("s8");
    reveal_strlit("s9");
    reveal_strlit("s10");
    reveal_strlit("s11");
    reveal_strlit("t3");
    reveal_strlit("t4");
    reveal_strlit("t5");
    reveal_strlit("t6");
    reveal_strlit("fp");
    let names = abi_names();
    assert forall|i: int, j: int| 0 <= i < j < 32 implies names[i] != names[j] by {
        assert(spelling(names[i]) != spelling(names[j]));
    }
    assert forall|i: int| 0 <= i < 32 implies names[i] != "fp"@ by {
        assert(spelling(names[i]) != spelling("fp"@));
    }
}

/// No ABI name is empty or starts with `x`.
proof fn lemma_abi_names_plain()
    ensures
        forall|k: int| 0 <= k < 32 ==> (#[trigger] abi_names()[k]).len() > 0 && abi_names()[k][0] != 'x',
{
    reveal_strlit("zero");
    reveal_strlit("ra");
    reveal_strlit("sp");
    reveal_strlit("gp");
    reveal_strlit("tp");
    reveal_strlit("t0");
    reveal_strlit("t1");
    reveal_strlit("t2");
    reveal_strlit("s0");
    reveal_strlit("s1");
    reveal_strlit("a0");
    reveal_strlit("a1");
    reveal_strlit("a2");
    reveal_strlit("a3");
    reveal_strlit("a4");
    reveal_strlit("a5");
    reveal_strlit("a6");
    reveal_strlit("a7");
    reveal_strlit("s2");
    reveal_strlit("s3");
    reveal_strlit("s4");
    reveal_strlit("s5");
    reveal_strlit("s6");
    reveal_strlit("s7");
    reveal_strlit("s8");
    reveal_strlit("s9");
    reveal_strlit("s10");
    reveal_strlit("s11");
    reveal_strlit("t3");
    reveal_strlit("t4");
    reveal_strlit("t5");
    reveal_strlit("t6");
}

/// Builds the table of ABI names.
pub fn create_register_map() -> (map: StringHashMap<u8>)
    ensures
        map@ == abi_registers(),
{
    let reg_names: [&str; 32] = [
        "zero",
        "ra",
        "sp",
        "gp",
        "tp",
        "t0",
        "t1",
        "t2",
        "s0",
        "s1",
        "a0",
        "a1",
        "a2",
        "a3",
        "a4",
        "a5",
        "a6",
        "a7",
        "s2",
        "s3",
        "s4",
        "s5",
        "s6",
        "s7",
        "s8",
        "s9",
        "s10",
        "s11",
        "t3",
        "t4",
        "t5",
        "t6",
    ];
    let ghost names = abi_names();
    assert(reg_names@.len() == 32);
    assert(forall|k: int| 0 <= k < 32 ==> (#[trigger] reg_names@[k])@ == names[k]);
    let mut map = StringHashMap::<u8>::new();
    let mut index: u8 = 0;
    while index < 32
        invariant
            index <= 32,
            names == abi_names(),
            reg_names@.len() == 32,
            forall|k: int| 0 <= k < 32 ==> (#[trigger] reg_names@[k])@ == names[k],
            forall|name: Seq<char>|
                map@.contains_key(name) <==> exists|k: int|
                    0 <= k < index && #[trigger] names[k] == name,
            forall|k: int| 0 <= k < index ==> map@[#[trigger] names[k]] == k,
        decreases 32 - index,
    {
        proof {
            lemma_abi_names_distinct();
        }
        map.insert(String::from_str(reg_names[index as usize]), index);
        index += 1;
    }
    map.insert(String::from_str("fp"), 8);
    proof {
        lemma_abi_names_distinct();
        assert forall|name: Seq<char>| #[trigger]
            map@.contains_key(name) == abi_registers().contains_key(name) by {
            if abi_names().contains(name) {
                let k = choose|k: int| 0 <= k < 32 && names[k] == name;
                assert(names[k] == name);
            }
        }
        assert forall|name: Seq<char>| #[trigger] map@.contains_key(name) implies map@[name]
            == abi_registers()[name] by {
            if name != "fp"@ {
                let j = names.index_of(name);
                assert(names[j] == name);
            }
        }
        assert(map@ =~= abi_registers());
    }
    map
}

/// Reads a register in the numeric form, `x` and a numeral.
pub fn parse_numeric_register(token: &[char]) -> (number: Option<u8>)
    ensures
        number == numeric_register(token@),
{
    if token.len() == 0 || token[0] != 'x' {
        return None;
    }
    assert(token@.drop_first() == token@.subrange(1, token@.len() as int));
    parse_u8(slice_subrange(token, 1, token.len()))
}

/// Resolves a register token to the register's index. The empty token names
/// no register.
pub fn parse_register(reg: &str, reg_map: &StringHashMap<u8>) -> (index: Option<u8>)
    ensures
        index == register_index(reg@, reg_map@),
{
    if reg.is_empty() {
        return None;
    }
    if reg.get_char(0) == 'x' {
        let chars = to_chars(reg);
        return parse_numeric_register(chars.as_slice());
    }
    match reg_map.get(reg) {
        Some(index) => Some(*index),
        None => None,
    }
}

/// `x` followed by the decimal digits of a number up to 255 names the
/// register with that number, whatever the table holds; a greater number
/// names none.
pub proof fn lemma_numeric_register(n: nat, registers: Map<Seq<char>, u8>)
    ensures
        n <= 255 ==> register_index(seq!['x'] + decimal(n), registers) == Some(n as u8),
        n > 255 ==> register_index(seq!['x'] + decimal(n), registers) is None,
{
    let token = seq!['x'] + decimal(n);
    lemma_decimal_writes(n);
    assert(token.drop_first() == decimal(n));
}

/// Each ABI name resolves to its place in the list of names, and `fp` to 8.
/// No name of the table resolves to an index above 31.
pub proof fn lemma_abi_register(k: int)
    requires
        0 <= k < 32,
    ensures
        register_index(abi_names()[k], abi_registers()) == Some(k as u8),
        register_index("fp"@, abi_registers()) == Some(8u8),
        forall|name: Seq<char>| #[trigger]
            abi_registers().contains_key(name) ==> abi_registers()[name] < 32,
{
    let names = abi_names();
    lemma_abi_names_distinct();
    lemma_abi_names_plain();
    reveal_strlit("fp");
    assert("fp"@[0] == 'f');
    assert(names.contains(names[k]));
    let j = names.index_of(names[k]);
    assert(names[j] == names[k]);
    assert forall|name: Seq<char>| #[trigger]
        abi_registers().contains_key(name) implies abi_registers()[name] < 32 by {
        if name != "fp"@ {
            let i = names.index_of(name);
            assert(names[i] == name);
        }
    }
}

} // verus!
