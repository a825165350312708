//! Operands: register names and immediate numbers.

use crate::error::SyntaxError;
use crate::parser::Parser;
use crate::text::{chars_of, same_text};
use vstd::prelude::*;

verus! {

/// The number of the register that `name` names, if it names one.
///
/// Each of the thirty-two registers has its numeric name, `x0` to `x31`,
/// and its name in the calling convention; `x8` has two of them, `s0` and
/// `fp`. Names are matched exactly, letter case included.
pub open spec fn register_number(name: Seq<char>) -> Option<u32> {
    if name == "x0"@ || name == "zero"@ {
        Some(0)
    } else if name == "x1"@ || name == "ra"@ {
        Some(1)
    } else if name == "x2"@ || name == "sp"@ {
        Some(2)
    } else if name == "x3"@ || name == "gp"@ {
        Some(3)
    } else if name == "x4"@ || name == "tp"@ {
        Some(4)
    } else if name == "x5"@ || name == "t0"@ {
        Some(5)
    } else if name == "x6"@ || name == "t1"@ {
        Some(6)
    } else if name == "x7"@ || name == "t2"@ {
        Some(7)
    } else if name == "x8"@ || name == "s0"@ || name == "fp"@ {
        Some(8)
    } else if name == "x9"@ || name == "s1"@ {
        Some(9)
    } else if name == "x10"@ || name == "a0"@ {
        Some(10)
    } else if name == "x11"@ || name == "a1"@ {
        Some(11)
    } else if name == "x12"@ || name == "a2"@ {
        Some(12)
    } else if name == "x13"@ || name == "a3"@ {
        Some(13)
    } else if name == "x14"@ || name == "a4"@ {
        Some(14)
    } else if name == "x15"@ || name == "a5"@ {
        Some(15)
    } else if name == "x16"@ || name == "a6"@ {
        Some(16)
    } else if name == "x17"@ || name == "a7"@ {
        Some(17)
    } else if name == "x18"@ || name == "s2"@ {
        Some(18)
    } else if name == "x19"@ || name == "s3"@ {
        Some(19)
    } else if name == "x20"@ || name == "s4"@ {
        Some(20)
    } else if name == "x21"@ || name == "s5"@ {
        Some(21)
    } else if name == "x22"@ || name == "s6"@ {
        Some(22)
    } else if name == "x23"@ || name == "s7"@ {
        Some(23)
    } else if name == "x24"@ || name == "s8"@ {
        Some(24)
    } else if name == "x25"@ || name == "s9"@ {
        Some(25)
    } else if name == "x26"@ || name == "s10"@ {
        Some(26)
    } else if name == "x27"@ || name == "s11"@ {
        Some(27)
    } else if name == "x28"@ || name == "t3"@ {
        Some(28)
    } else if name == "x29"@ || name == "t4"@ {
        Some(29)
    } else if name == "x30"@ || name == "t5"@ {
        Some(30)
    } else if name == "x31"@ || name == "t6"@ {
        Some(31)
    } else {
        None
    }
}

/// The value of the character `c` as a digit in the given radix: `0` to `9`
/// stand for zero to nine and the letters, in either case, for ten and up.
pub open spec fn digit_of(c: char, radix: int) -> Option<int> {
    let value = if '0' <= c <= '9' {
        c as int - '0' as int
    } else if 'a' <= c <= 'z' {
        c as int - 'a' as int + 10
    } else if 'A' <= c <= 'Z' {
        c as int - 'A' as int + 10
    } else {
        radix
    };
    if value < radix {
        Some(value)
    } else {
        None
    }
}

/// Whether `s` is a numeral in the given radix: one digit or more, and
/// nothing else.
pub open spec fn is_numeral(s: Seq<char>, radix: int) -> bool {
    s.len() > 0 && forall|i: int| 0 <= i < s.len() ==> (#[trigger] digit_of(s[i], radix)) is Some
}

/// The number that the digits of `s` write in the given radix, the first
/// digit weighing most.
pub open spec fn numeral_value(s: Seq<char>, radix: int) -> int
    decreases s.len(),
{
    if s.len() == 0 {
        0
    } else {
        numeral_value(s.drop_last(), radix) * radix + digit_of(s.last(), radix)->0
    }
}

/// Whether a token is written as a hexadecimal immediate: whether it starts
/// with `0x`.
pub open spec fn has_hex_prefix(token: Seq<char>) -> bool {
    token.len() >= 2 && token[0] == '0' && token[1] == 'x'
}

/// The value of the hexadecimal digits `body`: they give a pattern of 32
/// bits, which is read in two's complement. There is no sign.
pub open spec fn hex_immediate(body: Seq<char>) -> Option<int> {
    if is_numeral(body, 16) && numeral_value(body, 16) <= 0xffff_ffff {
        if numeral_value(body, 16) >= 0x8000_0000 {
            Some(numeral_value(body, 16) - 0x1_0000_0000)
        } else {
            Some(numeral_value(body, 16))
        }
    } else {
        None
    }
}

/// The value of a decimal token: an optional sign, `+` or `-`, and decimal
/// digits that write a number of 32 bits with sign.
pub open spec fn decimal_immediate(token: Seq<char>) -> Option<int> {
    let signed = token.len() > 0 && (token[0] == '-' || token[0] == '+');
    let body = if signed {
        token.skip(1)
    } else {
        token
    };
    let value = if signed && token[0] == '-' {
        -numeral_value(body, 10)
    } else {
        numeral_value(body, 10)
    };
    if is_numeral(body, 10) && -0x8000_0000 <= value <= 0x7fff_ffff {
        Some(value)
    } else {
        None
    }
}

/// The value of an immediate operand, if the token is well formed: a token
/// that starts with `0x` is hexadecimal, any other is decimal.
pub open spec fn immediate(token: Seq<char>) -> Option<int> {
    if has_hex_prefix(token) {
        hex_immediate(token.skip(2))
    } else {
        decimal_immediate(token)
    }
}

proof fn lemma_numeral_step(s: Seq<char>, radix: int, k: int)
    requires
        0 <= k < s.len(),
    ensures
        numeral_value(s.take(k + 1), radix) == numeral_value(s.take(k), radix) * radix + digit_of(
            s[k],
            radix,
        )->0,
{
    assert(s.take(k + 1).drop_last() == s.take(k));
}

proof fn lemma_numeral_grows(s: Seq<char>, radix: int, k: int)
    requires
        0 <= k <= s.len(),
        radix >= 1,
        forall|i: int| 0 <= i < s.len() ==> (#[trigger] digit_of(s[i], radix)) is Some,
    ensures
        0 <= numeral_value(s.take(k), radix) <= numeral_value(s, radix),
    decreases s.len(),
{
    if s.len() == 0 {
        assert(s.take(k) == s);
    } else if k == s.len() {
        assert(s.take(k) == s);
        lemma_numeral_grows(s.drop_last(), radix, k - 1);
        let v = numeral_value(s.drop_last(), radix);
        assert(v * radix >= 0) by (nonlinear_arith)
            requires
                v >= 0,
                radix >= 1,
        ;
        assert(digit_of(s.last(), radix) is Some);
    } else {
        lemma_numeral_grows(s.drop_last(), radix, k);
        assert(s.drop_last().take(k) == s.take(k));
        let v = numeral_value(s.drop_last(), radix);
        assert(v * radix >= v) by (nonlinear_arith)
            requires
                v >= 0,
                radix >= 1,
        ;
        assert(digit_of(s.last(), radix) is Some);
    }
}

/// The value of one character as a digit.
fn digit(c: char, radix: u32) -> (value: Option<u32>)
    requires
        radix <= 36,
    ensures
        value == match digit_of(c, radix as int) {
            Some(v) => Some(v as u32),
            None => None,
        },
{
    let value: u32 = if '0' <= c && c <= '9' {
        c as u32 - '0' as u32
    } else if 'a' <= c && c <= 'z' {
        c as u32 - 'a' as u32 + 10
    } else if 'A' <= c && c <= 'Z' {
        c as u32 - 'A' as u32 + 10
    } else {
        radix
    };
    if value < radix {
        Some(value)
    } else {
        None
    }
}

/// Reads the characters from `start` on as a numeral that does not exceed
/// `limit`.
fn numeral(chars: &Vec<char>, start: usize, radix: u32, limit: u64) -> (value: Option<u64>)
    requires
        start <= chars.len(),
        1 <= radix <= 36,
        limit <= 0xffff_ffff,
    ensures
        match value {
            Some(v) => is_numeral(chars@.skip(start as int), radix as int) && v == numeral_value(
                chars@.skip(start as int),
                radix as int,
            ) && v <= limit,
            None => !is_numeral(chars@.skip(start as int), radix as int) || numeral_value(
                chars@.skip(start as int),
                radix as int,
            ) > limit,
        },
{
    let ghost body = chars@.skip(start as int);
    if start == chars.len() {
        return None;
    }
    let mut value: u64 = 0;
    let mut i: usize = start;
    while i < chars.len()
        invariant
            start <= i <= chars.len(),
            1 <= radix <= 36,
            limit <= 0xffff_ffff,
            body == chars@.skip(start as int),
            forall|j: int| 0 <= j < i - start ==> (#[trigger] digit_of(body[j], radix as int)) is Some,
            value == numeral_value(body.take(i - start), radix as int),
            value <= limit,
        decreases chars.len() - i,
    {
        let d = match digit(chars[i], radix) {
            Some(d) => d,
            None => {
                assert(digit_of(body[i - start], radix as int) is None);
                return None;
            },
        };
        proof {
            lemma_numeral_step(body, radix as int, i - start);
            assert(value * radix <= 0xffff_ffff * 36) by (nonlinear_arith)
                requires
                    value <= 0xffff_ffff,
                    radix <= 36,
            ;
        }
        value = value * (radix as u64) + d as u64;
        if value > limit {
            proof {
                if is_numeral(body, radix as int) {
                    lemma_numeral_grows(body, radix as int, i - start + 1);
                }
            }
            return None;
        }
        i = i + 1;
    }
    assert(body.take(i - start) == body);
    Some(value)
}

impl Parser {
    /// Reads an immediate operand: hexadecimal after the prefix `0x`,
    /// decimal otherwise. Any other token is a fatal failure.
    pub fn parse_imm(token: &str) -> (value: Result<i32, SyntaxError>)
        ensures
            match value {
                Ok(v) => immediate(token@) == Some(v as int),
                Err(e) => immediate(token@) is None && e == SyntaxError::IllegalImmediate,
            },
    {
        let chars = chars_of(token);
        let n = chars.len();
        if n >= 2 && chars[0] == '0' && chars[1] == 'x' {
            match numeral(&chars, 2, 16, 0xffff_ffff) {
                Some(v) => {
                    let pattern = v as u32;
                    assert(pattern >= 0x8000_0000u32 ==> pattern as i32 == pattern - 0x1_0000_0000)
                        by (bit_vector);
                    assert(pattern < 0x8000_0000u32 ==> pattern as i32 == pattern) by (bit_vector);
                    Ok(
                        #[verifier::truncate]
                        (pattern as i32),
                    )
                },
                None => Err(SyntaxError::IllegalImmediate),
            }
        } else if n >= 1 && chars[0] == '-' {
            match numeral(&chars, 1, 10, 0x8000_0000) {
                Some(v) => Ok((-(v as i64)) as i32),
                None => Err(SyntaxError::IllegalImmediate),
            }
        } else {
            let start: usize = if n >= 1 && chars[0] == '+' {
                1
            } else {
                0
            };
            assert(chars@.skip(0) == chars@);
            match numeral(&chars, start, 10, 0x7fff_ffff) {
                Some(v) => Ok(v as i32),
                None => Err(SyntaxError::IllegalImmediate),
            }
        }
    }

    /// The number of the register that `token` names, or `None` if it names
    /// none.
    pub fn parse_rg_allow_none(token: &str) -> (number: Option<u32>)
        ensures
            number == register_number(token@),
    {
        if same_text(token, "x0") || same_text(token, "zero") {
            Some(0)
        } else if same_text(token, "x1") || same_text(token, "ra") {
            Some(1)
        } else if same_text(token, "x2") || same_text(token, "sp") {
            Some(2)
        } else if same_text(token, "x3") || same_text(token, "gp") {
            Some(3)
        } else if same_text(token, "x4") || same_text(token, "tp") {
            Some(4)
        } else if same_text(token, "x5") || same_text(token, "t0") {
            Some(5)
        } else if same_text(token, "x6") || same_text(token, "t1") {
            Some(6)
        } else if same_text(token, "x7") || same_text(token, "t2") {
            Some(7)
        } else if same_text(token, "x8") || same_text(token, "s0") || same_text(token, "fp") {
            Some(8)
        } else if same_text(token, "x9") || same_text(token, "s1") {
            Some(9)
        } else if same_text(token, "x10") || same_text(token, "a0") {
            Some(10)
        } else if same_text(token, "x11") || same_text(token, "a1") {
            Some(11)
        } else if same_text(token, "x12") || same_text(token, "a2") {
            Some(12)
        } else if same_text(token, "x13") || same_text(token, "a3") {
            Some(13)
        } else if same_text(token, "x14") || same_text(token, "a4") {
            Some(14)
        } else if same_text(token, "x15") || same_text(token, "a5") {
            Some(15)
        } else if same_text(token, "x16") || same_text(token, "a6") {
            Some(16)
        } else if same_text(token, "x17") || same_text(token, "a7") {
            Some(17)
        } else if same_text(token, "x18") || same_text(token, "s2") {
            Some(18)
        } else if same_text(token, "x19") || same_text(token, "s3") {
            Some(19)
        } else if same_text(token, "x20") || same_text(token, "s4") {
            Some(20)
        } else if same_text(token, "x21") || same_text(token, "s5") {
            Some(21)
        } else if same_text(token, "x22") || same_text(token, "s6") {
            Some(22)
        } else if same_text(token, "x23") || same_text(token, "s7") {
            Some(23)
        } else if same_text(token, "x24") || same_text(token, "s8") {
            Some(24)
        } else if same_text(token, "x25") || same_text(token, "s9") {
            Some(25)
        } else if same_text(token, "x26") || same_text(token, "s10") {
            Some(26)
        } else if same_text(token, "x27") || same_text(token, "s11") {
            Some(27)
        } else if same_text(token, "x28") || same_text(token, "t3") {
            Some(28)
        } else if same_text(token, "x29") || same_text(token, "t4") {
            Some(29)
        } else if same_text(token, "x30") || same_text(token, "t5") {
            Some(30)
        } else if same_text(token, "x31") || same_text(token, "t6") {
            Some(31)
        } else {
            None
        }
    }

    /// The number of the register that `token` names. A token that names no
    /// register is a fatal failure.
    pub fn parse_rg(token: &str) -> (number: Result<u32, SyntaxError>)
        ensures
            number == match register_number(token@) {
                Some(n) => Ok::<u32, SyntaxError>(n),
                None => Err(SyntaxError::IllegalRegister),
            },
    {
        match Self::parse_rg_allow_none(token) {
            Some(n) => Ok(n),
            None => Err(SyntaxError::IllegalRegister),
        }
    }
}

/// Every register number is below thirty-two.
pub proof fn lemma_register_numbers_are_small(name: Seq<char>)
    ensures
        register_number(name) matches Some(n) ==> n < 32,
{
}

} // verus!
