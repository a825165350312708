use riscv_asm::error::SyntaxError;
use riscv_asm::parser::Parser;

#[test]
fn numeric_register_names() {
    for n in 0..32u32 {
        let name = format!("x{}", n);
        assert_eq!(Parser::parse_rg(&name), Ok(n));
        assert_eq!(Parser::parse_rg_allow_none(&name), Some(n));
    }
}

#[test]
fn calling_convention_register_names() {
    let names = [
        ("zero", 0), ("ra", 1), ("sp", 2), ("gp", 3), ("tp", 4), ("t0", 5), ("t1", 6), ("t2", 7),
        ("s0", 8), ("fp", 8), ("s1", 9), ("a0", 10), ("a1", 11), ("a2", 12), ("a3", 13),
        ("a4", 14), ("a5", 15), ("a6", 16), ("a7", 17), ("s2", 18), ("s3", 19), ("s4", 20),
        ("s5", 21), ("s6", 22), ("s7", 23), ("s8", 24), ("s9", 25), ("s10", 26), ("s11", 27),
        ("t3", 28), ("t4", 29), ("t5", 30), ("t6", 31),
    ];
    for (name, number) in names {
        assert_eq!(Parser::parse_rg(name), Ok(number));
        assert_eq!(Parser::parse_rg_allow_none(name), Some(number));
    }
}

#[test]
fn unknown_register_names() {
    for name in ["x32", "x99", "X1", "x01", "", "x", "s12", "a8", "t7", "pc", "loop"] {
        assert_eq!(Parser::parse_rg(name), Err(SyntaxError::IllegalRegister));
        assert_eq!(Parser::parse_rg_allow_none(name), None);
    }
}

#[test]
fn decimal_immediates() {
    assert_eq!(Parser::parse_imm("0"), Ok(0));
    assert_eq!(Parser::parse_imm("5"), Ok(5));
    assert_eq!(Parser::parse_imm("-1"), Ok(-1));
    assert_eq!(Parser::parse_imm("+17"), Ok(17));
    assert_eq!(Parser::parse_imm("007"), Ok(7));
    assert_eq!(Parser::parse_imm("-0"), Ok(0));
    assert_eq!(Parser::parse_imm("2147483647"), Ok(i32::MAX));
    assert_eq!(Parser::parse_imm("-2147483648"), Ok(i32::MIN));
    assert_eq!(Parser::parse_imm("00000000000000000000000000012"), Ok(12));
}

#[test]
fn hexadecimal_immediates() {
    assert_eq!(Parser::parse_imm("0x0"), Ok(0));
    assert_eq!(Parser::parse_imm("0x10"), Ok(16));
    assert_eq!(Parser::parse_imm("0xff"), Ok(255));
    assert_eq!(Parser::parse_imm("0xFf"), Ok(255));
    assert_eq!(Parser::parse_imm("0x7fffffff"), Ok(i32::MAX));
    assert_eq!(Parser::parse_imm("0x000000000000012"), Ok(0x12));
}

#[test]
fn hexadecimal_immediates_are_read_in_twos_complement() {
    assert_eq!(Parser::parse_imm("0x80000000"), Ok(i32::MIN));
    assert_eq!(Parser::parse_imm("0xffffffff"), Ok(-1));
    assert_eq!(Parser::parse_imm("0xfffff000"), Ok(-4096));
}

#[test]
fn malformed_immediates() {
    for token in [
        "", "-", "+", "0x", "abc", "12a", "1 2", "--1", "+-1", "0xg", "0x-1", "0x+1", "0X10",
        "0x0x10", "2147483648", "-2147483649", "0x100000000", "99999999999999999999999", "1_000",
        "x1", "(",
    ] {
        assert_eq!(Parser::parse_imm(token), Err(SyntaxError::IllegalImmediate), "{:?}", token);
    }
}

#[test]
fn failure_messages() {
    assert_eq!(SyntaxError::IllegalRegister.message(), "illegal register name");
    assert_eq!(SyntaxError::IllegalImmediate.message(), "illegal immediate");
    assert_eq!(SyntaxError::UndefinedLabel.message(), "undefined label");
    assert_eq!(SyntaxError::IllegalLabel.message(), "illegal label");
    assert_eq!(SyntaxError::TokensAfterLabel.message(), "syntax error");
}
