//! Number parsing and the conversions between the two forms of a register set.
use vstd::prelude::*;
use crate::text::to_chars;
use crate::registers::{
    bank_mapping, dump_order, mapping_bank, Register, RegisterBank, RegisterDict, REGISTER_COUNT,
};

verus! {

/// The value of a character as a digit, up to base sixteen.
pub open spec fn digit_value(c: char) -> Option<nat> {
    if c == '0' {
        Some(0nat)
    } else if c == '1' {
        Some(1nat)
    } else if c == '2' {
        Some(2nat)
    } else if c == '3' {
        Some(3nat)
    } else if c == '4' {
        Some(4nat)
    } else if c == '5' {
        Some(5nat)
    } else if c == '6' {
        Some(6nat)
    } else if c == '7' {
        Some(7nat)
    } else if c == '8' {
        Some(8nat)
    } else if c == '9' {
        Some(9nat)
    } else if c == 'a' {
        Some(10nat)
    } else if c == 'b' {
        Some(11nat)
    } else if c == 'c' {
        Some(12nat)
    } else if c == 'd' {
        Some(13nat)
    } else if c == 'e' {
        Some(14nat)
    } else if c == 'f' {
        Some(15nat)
    } else if c == 'A' {
        Some(10nat)
    } else if c == 'B' {
        Some(11nat)
    } else if c == 'C' {
        Some(12nat)
    } else if c == 'D' {
        Some(13nat)
    } else if c == 'E' {
        Some(14nat)
    } else if c == 'F' {
        Some(15nat)
    } else {
        None
    }
}

/// The value of a character as a digit of a base, where it is one.
pub open spec fn digit_in(c: char, radix: nat) -> Option<nat> {
    match digit_value(c) {
        Some(d) => if d < radix {
            Some(d)
        } else {
            None
        },
        None => None,
    }
}

/// The number that a run of digits writes in a base; `None` where a
/// character is no digit of the base. The empty run writes zero.
pub open spec fn digits_value(s: Seq<char>, radix: nat) -> Option<nat>
    decreases s.len(),
{
    if s.len() == 0 {
        Some(0nat)
    } else {
        match (digits_value(s.drop_last(), radix), digit_in(s.last(), radix)) {
            (Some(v), Some(d)) => Some(v * radix + d),
            _ => None,
        }
    }
}

/// A run of one digit or more whose value an address can hold.
pub open spec fn parse_digits(digits: Seq<char>, radix: nat) -> Option<usize> {
    if digits.len() == 0 {
        None
    } else {
        match digits_value(digits, radix) {
            Some(v) => if v <= usize::MAX {
                Some(v as usize)
            } else {
                None
            },
            None => None,
        }
    }
}

/// A number in a base: an optional `+`, then one digit or more, with a value
/// that an address can hold.
pub open spec fn parse_number(s: Seq<char>, radix: nat) -> Option<usize> {
    if s.len() > 0 && s[0] == '+' {
        parse_digits(s.drop_first(), radix)
    } else {
        parse_digits(s, radix)
    }
}

/// A number as a user types it: hexadecimal after `0x`, decimal otherwise.
pub open spec fn parse_int(s: Seq<char>) -> Option<usize> {
    if s.len() >= 2 && s[0] == '0' && s[1] == 'x' {
        parse_number(s.skip(2), 16)
    } else {
        parse_number(s, 10)
    }
}

fn digit_of(c: char, radix: u8) -> (r: Option<u8>)
    ensures
        r is Some <==> digit_in(c, radix as nat) is Some,
        r is Some ==> r->0 == digit_in(c, radix as nat)->0,
{
    let d: u8 =
    if c == '0' {
        0
    } else if c == '1' {
        1
    } else if c == '2' {
        2
    } else if c == '3' {
        3
    } else if c == '4' {
        4
    } else if c == '5' {
        5
    } else if c == '6' {
        6
    } else if c == '7' {
        7
    } else if c == '8' {
        8
    } else if c == '9' {
        9
    } else if c == 'a' {
        10
    } else if c == 'b' {
        11
    } else if c == 'c' {
        12
    } else if c == 'd' {
        13
    } else if c == 'e' {
        14
    } else if c == 'f' {
        15
    } else if c == 'A' {
        10
    } else if c == 'B' {
        11
    } else if c == 'C' {
        12
    } else if c == 'D' {
        13
    } else if c == 'E' {
        14
    } else if c == 'F' {
        15
    } else {
        return None;
    };
    if d < radix {
        Some(d)
    } else {
        None
    }
}

/// The value of a run of digits is no less than that of any run it starts with.
proof fn lemma_value_grows(s: Seq<char>, radix: nat, i: int)
    requires
        0 <= i <= s.len(),
        digits_value(s, radix) is Some,
    ensures
        digits_value(s.take(i), radix) is Some,
        digits_value(s.take(i), radix)->0 <= digits_value(s, radix)->0,
    decreases s.len(),
{
    if i == s.len() {
        assert(s.take(i) == s);
    } else {
        let front = s.drop_last();
        lemma_value_grows(front, radix, i);
        assert(front.take(i) == s.take(i));
        let v = digits_value(front, radix)->0;
        let d = digit_in(s.last(), radix)->0;
        assert(v <= v * radix + d) by (nonlinear_arith)
            requires
                radix > d,
                d >= 0,
                v >= 0,
        ;
    }
}

/// Reads the characters of `s` from `begin` up to `len` as a number in a base.
pub fn number_in(s: &Vec<char>, begin: usize, len: usize, radix: u8) -> (r: Option<usize>)
    requires
        begin <= len <= s@.len(),
        1 <= radix <= 16,
    ensures
        r == parse_number(s@.subrange(begin as int, len as int), radix as nat),
{
    let ghost text = s@.subrange(begin as int, len as int);
    let mut start: usize = begin;
    if start < len && s[start] == '+' {
        start = start + 1;
    }
    let ghost digits = s@.subrange(start as int, len as int);
    proof {
        if start > begin {
            assert(text[0] == '+');
            assert(text.drop_first() == digits);
        }
        assert(parse_number(text, radix as nat) == parse_digits(digits, radix as nat));
    }
    if start == len {
        return None;
    }
    let mut acc: usize = 0;
    let mut i: usize = start;
    while i < len
        invariant
            start <= i <= len,
            len <= s@.len(),
            digits == s@.subrange(start as int, len as int),
            digits.len() > 0,
            parse_number(s@.subrange(begin as int, len as int), radix as nat) == parse_digits(
                digits,
                radix as nat,
            ),
            1 <= radix <= 16,
            digits_value(digits.take(i - start), radix as nat) == Some(acc as nat),
        decreases len - i,
    {
        let ghost seen = digits.take(i - start + 1);
        proof {
            assert(seen.drop_last() == digits.take(i - start));
            assert(seen.last() == s@[i as int]);
        }
        match digit_of(s[i], radix) {
            None => {
                proof {
                    if digits_value(digits, radix as nat) is Some {
                        lemma_value_grows(digits, radix as nat, i - start + 1);
                    }
                }
                return None;
            },
            Some(d) => {
                assert(acc * radix <= usize::MAX * 16) by (nonlinear_arith)
                    requires
                        acc <= usize::MAX,
                        radix <= 16,
                ;
                let next: u128 = (acc as u128) * (radix as u128) + (d as u128);
                if next > usize::MAX as u128 {
                    proof {
                        if digits_value(digits, radix as nat) is Some {
                            lemma_value_grows(digits, radix as nat, i - start + 1);
                        }
                    }
                    return None;
                }
                acc = next as usize;
            },
        }
        i = i + 1;
    }
    proof {
        assert(digits.take(len - start) == digits);
    }
    Some(acc)
}

/// Reads a number in either notation: hexadecimal after `0x`, else decimal.
pub fn str_to_int(string: &str) -> (r: Option<usize>)
    ensures
        r == parse_int(string@),
{
    let text = to_chars(string);
    text_to_int(&text)
}

/// Reads a number in either notation from a text.
pub fn text_to_int(string: &Vec<char>) -> (r: Option<usize>)
    ensures
        r == parse_int(string@),
{
    let len: usize = string.len();
    if len >= 2 && string[0] == '0' && string[1] == 'x' {
        proof {
            assert(string@.subrange(2, len as int) == string@.skip(2));
        }
        number_in(string, 2, len, 16)
    } else {
        proof {
            assert(string@.subrange(0, len as int) == string@);
        }
        number_in(string, 0, len, 10)
    }
}

/// Turns a bank into the mapping from names to values.
pub fn regs_to_dict(registers: RegisterBank) -> (dict: RegisterDict)
    ensures
        dict@ == bank_mapping(registers),
        dict.spec_complete(),
{
    let mut dict = RegisterDict::New();
    let mut i: usize = 0;
    while i < REGISTER_COUNT
        invariant
            i <= REGISTER_COUNT,
            forall|r: Register| dict@.contains_key(r) <==> r.spec_index() < i,
            forall|r: Register| dict@.contains_key(r) ==> dict@[r] == registers.spec_get(r),
        decreases REGISTER_COUNT - i,
    {
        let reg = Register::from_index(i);
        dict.insert(reg, registers.get(reg));
        proof {
            assert forall|r: Register| dict@.contains_key(r) <==> r.spec_index() < i + 1 by {
                crate::registers::lemma_index_round_trip(r);
            }
        }
        i = i + 1;
    }
    proof {
        assert forall|r: Register| dict@.contains_key(r) by {
            crate::registers::lemma_index_round_trip(r);
        }
        assert(dict@ =~= bank_mapping(registers));
    }
    dict
}

/// Turns a mapping that holds every register into a bank.
pub fn dict_to_regs(dict: &RegisterDict) -> (registers: RegisterBank)
    requires
        dict.spec_complete(),
    ensures
        registers == mapping_bank(dict@),
        forall|r: Register| registers.spec_get(r) == dict@[r],
{
    let mut registers = RegisterBank::zeroed();
    let mut i: usize = 0;
    while i < REGISTER_COUNT
        invariant
            i <= REGISTER_COUNT,
            dict.spec_complete(),
            forall|r: Register| r.spec_index() < i ==> registers.spec_get(r) == dict@[r],
        decreases REGISTER_COUNT - i,
    {
        let reg = Register::from_index(i);
        let val = dict.get(reg);
        let ghost before = registers;
        assert(dict@.contains_key(reg));
        match val {
            Some(v) => {
                registers.set(reg, v);
            },
            None => {},
        }
        proof {
            assert forall|r: Register| r.spec_index() < i + 1 implies registers.spec_get(r)
                == dict@[r] by {
                crate::registers::lemma_index_round_trip(r);
                crate::registers::lemma_get_after_set(before, reg, dict@[reg], r);
            }
        }
        i = i + 1;
    }
    proof {
        assert forall|r: Register| registers.spec_get(r) == dict@[r] by {
            crate::registers::lemma_index_round_trip(r);
        }
        crate::registers::lemma_bank_extensional(registers, mapping_bank(dict@));
    }
    registers
}

/// The rows of a register dump: every register with its value, in the order
/// in which the dump lists them.
pub fn dump_regs(dict: &RegisterDict) -> (rows: Vec<(Register, u64)>)
    requires
        dict.spec_complete(),
    ensures
        rows@ == dump_order().map_values(|r: Register| (r, dict@[r])),
{
    let order: [Register; 27] = [
        Register::Rax,
        Register::Rbx,
        Register::Rcx,
        Register::Rdx,
        Register::Rdi,
        Register::Rsi,
        Register::Rbp,
        Register::Rsp,
        Register::Rip,
        Register::R8,
        Register::R9,
        Register::R10,
        Register::R11,
        Register::R12,
        Register::R13,
        Register::R14,
        Register::R15,
        Register::Eflags,
        Register::Cs,
        Register::Ds,
        Register::Es,
        Register::Fs,
        Register::Gs,
        Register::Ss,
        Register::GsBase,
        Register::FsBase,
        Register::OrigRax,
    ];
    assert(order@ =~= dump_order());
    let mut rows: Vec<(Register, u64)> = Vec::new();
    let mut i: usize = 0;
    while i < REGISTER_COUNT
        invariant
            i <= REGISTER_COUNT,
            order@ == dump_order(),
            dict.spec_complete(),
            rows@ == dump_order().take(i as int).map_values(|r: Register| (r, dict@[r])),
        decreases REGISTER_COUNT - i,
    {
        let reg = order[i];
        let val = dict.get(reg);
        assert(dict@.contains_key(reg));
        match val {
            Some(v) => {
                rows.push((reg, v));
            },
            None => {},
        }
        proof {
            assert(rows@ =~= dump_order().take(i + 1).map_values(|r: Register| (r, dict@[r])));
        }
        i = i + 1;
    }
    assert(dump_order().take(REGISTER_COUNT as int) == dump_order());
    rows
}

} // verus!
