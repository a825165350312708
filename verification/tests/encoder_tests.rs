use riscv_asm::error::SyntaxError;
use riscv_asm::parser::{Parser, PreParsedLine};
use riscv_asm::tokenizer::tokenize_line;

fn operands(text: &str) -> Vec<String> {
    tokenize_line(text)
}

fn b_offset(word: u32) -> i32 {
    let imm = (word >> 31 & 1) << 12 | (word >> 7 & 1) << 11 | (word >> 25 & 0x3f) << 5
        | (word >> 8 & 0xf) << 1;
    ((imm << 19) as i32) >> 19
}

fn j_offset(word: u32) -> i32 {
    let imm = (word >> 31 & 1) << 20 | (word >> 12 & 0xff) << 12 | (word >> 20 & 1) << 11
        | (word >> 21 & 0x3ff) << 1;
    ((imm << 11) as i32) >> 11
}

fn with_labels(labels: &[(&str, usize)]) -> Parser {
    // Each label is entered when as many instruction lines as its index
    // have been classified.
    let mut parser = Parser::new(String::from("labels.s"));
    let mut sorted: Vec<(&str, usize)> = labels.to_vec();
    sorted.sort_by_key(|l| l.1);
    let nop = operands("addi x0, x0, 0");
    for (name, index) in sorted {
        while parser.next_index() < index {
            parser.pre_parse_line(&nop).unwrap();
        }
        parser.pre_parse_line(&operands(&format!("{}:", name))).unwrap();
    }
    parser
}

#[test]
fn add_packs_its_fields() {
    let word = Parser::parse_r(0b0000000, 0b000, &operands("x1, x2, x3")).unwrap().unwrap();
    assert_eq!(word, 0x003100b3);
    assert_eq!(word & 0x7f, 0b0110011);
    assert_eq!(word >> 7 & 0x1f, 1);
    assert_eq!(word >> 12 & 0x7, 0);
    assert_eq!(word >> 15 & 0x1f, 2);
    assert_eq!(word >> 20 & 0x1f, 3);
    assert_eq!(word >> 25 & 0x7f, 0);
}

#[test]
fn sub_and_sra_set_funct7() {
    assert_eq!(Parser::parse_r(0b0100000, 0b000, &operands("a0, a1, a2")), Ok(Some(0x40c58533)));
    assert_eq!(Parser::parse_r(0b0100000, 0b101, &operands("t0, t1, t2")), Ok(Some(0x407352b3)));
}

#[test]
fn addi_places_its_immediate() {
    assert_eq!(Parser::parse_i(0b000, 0b0010011, &operands("x1, x0, 5")), Ok(Some(0x00500093)));
    assert_eq!(Parser::parse_i(0b000, 0b0010011, &operands("x1, x1, -1")), Ok(Some(0xfff08093)));
    assert_eq!(Parser::parse_i(0b111, 0b0010011, &operands("a0, a0, 0xff")), Ok(Some(0x0ff57513)));
}

#[test]
fn immediate_bits_above_the_field_are_shifted_out() {
    assert_eq!(Parser::parse_i(0b000, 0b0010011, &operands("x1, x0, 0x1005")), Ok(Some(0x00500093)));
    assert_eq!(Parser::parse_u(0b0110111, &operands("x1, 0x100001")), Ok(Some(0x000010b7)));
}

#[test]
fn load_takes_offset_and_base_in_brackets() {
    assert_eq!(
        Parser::parse_i_with_bracket(0b010, 0b0000011, &operands("x6, 8(x2)")),
        Ok(Some(0x00812303))
    );
    assert_eq!(
        Parser::parse_i_with_bracket(0b000, 0b1100111, &operands("x0, 0(ra)")),
        Ok(Some(0x00008067))
    );
    assert_eq!(
        Parser::parse_i_with_bracket(0b010, 0b0000011, &operands("x6, -4(sp)")),
        Ok(Some(0xffc12303))
    );
}

#[test]
fn store_splits_its_immediate() {
    let word = Parser::parse_s(0b010, 0b0100011, &operands("x5, 0x10(x2)")).unwrap().unwrap();
    assert_eq!(word, 0x00512823);
    assert_eq!(word & 0x7f, 0b0100011);
    assert_eq!(word >> 12 & 0x7, 0b010);
    assert_eq!(word >> 15 & 0x1f, 2);
    assert_eq!(word >> 20 & 0x1f, 5);
    assert_eq!(word >> 7 & 0x1f, 0x10);
    assert_eq!(word >> 25 & 0x7f, 0);
    assert_eq!((word >> 25 & 0x7f) << 5 | (word >> 7 & 0x1f), 0x10);
}

#[test]
fn store_with_negative_and_large_offsets() {
    assert_eq!(Parser::parse_s(0b010, 0b0100011, &operands("x5, -4(x2)")), Ok(Some(0xfe512e23)));
    assert_eq!(Parser::parse_s(0b000, 0b0100011, &operands("a0, 0x7ff(a1)")), Ok(Some(0x7ea58fa3)));
}

#[test]
fn upper_immediate() {
    assert_eq!(Parser::parse_u(0b0110111, &operands("x5, 0x12345")), Ok(Some(0x123452b7)));
    assert_eq!(Parser::parse_u(0b0010111, &operands("x5, 1")), Ok(Some(0x00001297)));
}

#[test]
fn branch_backwards() {
    let parser = with_labels(&[("loop", 1)]);
    let word = parser.parse_b(0b001, 0b1100011, 2, &operands("x1, x0, loop")).unwrap().unwrap();
    assert_eq!(word, 0xfe009ee3);
    assert_eq!(b_offset(word), -4);
}

#[test]
fn branch_forwards() {
    let parser = with_labels(&[("done", 7)]);
    let word = parser.parse_b(0b000, 0b1100011, 2, &operands("a0, a1, done")).unwrap().unwrap();
    assert_eq!(word, 0x00b50a63);
    assert_eq!(b_offset(word), 20);
}

#[test]
fn branch_offsets_are_read_back_exactly() {
    let parser = with_labels(&[("near", 600), ("mid", 1000), ("far", 1623)]);
    for (label, target) in [("near", 600i32), ("mid", 1000), ("far", 1623)] {
        for current in [0usize, 1, 599, 600, 601, 999, 1000, 1023, 1024, 1600, 1623] {
            let offset = (target - current as i32) * 4;
            if -4096 <= offset && offset < 4096 {
                let ops = operands(&format!("t0, t1, {}", label));
                let word = parser.parse_b(0b100, 0b1100011, current, &ops).unwrap().unwrap();
                assert_eq!(b_offset(word), offset);
                assert_eq!(word & 0x7f, 0b1100011);
                assert_eq!(word >> 12 & 0x7, 0b100);
                assert_eq!(word >> 15 & 0x1f, 5);
                assert_eq!(word >> 20 & 0x1f, 6);
            }
        }
    }
}

#[test]
fn branch_offset_of_exactly_1024_instructions_does_not_fit() {
    let parser = with_labels(&[("far", 1024)]);
    let word = parser.parse_b(0b000, 0b1100011, 0, &operands("x0, x0, far")).unwrap().unwrap();
    assert_eq!(word, 0x80000063);
    assert_eq!(b_offset(word), -4096);
}

#[test]
fn jump_to_label_links_through_x1() {
    let parser = with_labels(&[("start", 0)]);
    let word = parser.parse_j(0b1101111, 3, &operands("start")).unwrap().unwrap();
    assert_eq!(word, 0xff5ff0ef);
    assert_eq!(word >> 7 & 0x1f, 1);
    assert_eq!(j_offset(word), -12);
}

#[test]
fn jump_offsets_are_read_back_exactly() {
    let parser = with_labels(&[("a", 0), ("b", 513), ("c", 3000)]);
    for (label, target) in [("a", 0i32), ("b", 513), ("c", 3000)] {
        for current in [0usize, 1, 512, 513, 514, 2047, 2048, 3000, 100000, 262143] {
            let offset = (target - current as i32) * 4;
            if -(1 << 20) <= offset && offset < (1 << 20) {
                let word = parser.parse_j(0b1101111, current, &operands(label)).unwrap().unwrap();
                assert_eq!(j_offset(word), offset);
                assert_eq!(word & 0x7f, 0b1101111);
                assert_eq!(word >> 7 & 0x1f, 1);
            }
        }
    }
}

#[test]
fn jump_with_register_and_immediate() {
    let parser = Parser::new(String::from("j.s"));
    assert_eq!(parser.parse_j(0b1101111, 0, &operands("x0, 8")), Ok(Some(0x0080006f)));
    assert_eq!(parser.parse_j(0b1101111, 5, &operands("ra, -12")), Ok(Some(0xff5ff0ef)));
    assert_eq!(parser.parse_j(0b1101111, 0, &operands("x5, 0x800")), Ok(Some(0x001002ef)));
}

#[test]
fn jump_prefers_a_register_over_a_label_of_the_same_name() {
    let parser = with_labels(&[("ra", 4)]);
    assert_eq!(parser.parse_j(0b1101111, 0, &operands("ra")), Ok(None));
    assert_eq!(parser.parse_j(0b1101111, 0, &operands("ra, 16")), Ok(Some(0x010000ef)));
}

#[test]
fn missing_operands_give_no_output() {
    let parser = Parser::new(String::from("m.s"));
    assert_eq!(Parser::parse_r(0, 0, &operands("")), Ok(None));
    assert_eq!(Parser::parse_r(0, 0, &operands("x1")), Ok(None));
    assert_eq!(Parser::parse_r(0, 0, &operands("x1, x2")), Ok(None));
    assert_eq!(Parser::parse_i(0, 0b0010011, &operands("x1, x2")), Ok(None));
    assert_eq!(Parser::parse_u(0b0110111, &operands("x1")), Ok(None));
    assert_eq!(Parser::parse_s(0b010, 0b0100011, &operands("x5, 0")), Ok(None));
    assert_eq!(Parser::parse_s(0b010, 0b0100011, &operands("x5, 0(")), Ok(None));
    assert_eq!(Parser::parse_s(0b010, 0b0100011, &operands("x5, 0(x2")), Ok(None));
    assert_eq!(Parser::parse_i_with_bracket(0b010, 0b0000011, &operands("x5, 0(x2")), Ok(None));
    assert_eq!(parser.parse_b(0, 0b1100011, 0, &operands("x1, x2")), Ok(None));
    assert_eq!(parser.parse_j(0b1101111, 0, &operands("")), Ok(None));
    assert_eq!(parser.parse_j(0b1101111, 0, &operands("x1")), Ok(None));
}

#[test]
fn leftover_tokens_give_no_output() {
    let parser = with_labels(&[("l", 0)]);
    assert_eq!(Parser::parse_r(0, 0, &operands("x1, x2, x3, x4")), Ok(None));
    assert_eq!(Parser::parse_r(0, 0, &operands("x1, x2, x3, x99")), Ok(None));
    assert_eq!(Parser::parse_i(0, 0b0010011, &operands("x1, x2, 3, 4")), Ok(None));
    assert_eq!(Parser::parse_u(0b0110111, &operands("x1, 2, 3")), Ok(None));
    assert_eq!(Parser::parse_s(0b010, 0b0100011, &operands("x5, 0(x2) x3")), Ok(None));
    assert_eq!(Parser::parse_i_with_bracket(0, 0b0000011, &operands("x5, 0(x2))")), Ok(None));
    assert_eq!(parser.parse_b(0, 0b1100011, 0, &operands("x1, x2, l, l")), Ok(None));
    assert_eq!(parser.parse_j(0b1101111, 0, &operands("l l")), Ok(None));
    assert_eq!(parser.parse_j(0b1101111, 0, &operands("x1, 4, 4")), Ok(None));
}

#[test]
fn wrong_bracket_tokens_give_no_output() {
    assert_eq!(Parser::parse_s(0b010, 0b0100011, &operands("x5, 0 x2 x3 x4")), Ok(None));
    assert_eq!(Parser::parse_s(0b010, 0b0100011, &operands("x5, 0 ) x2 (")), Ok(None));
    assert_eq!(Parser::parse_s(0b010, 0b0100011, &operands("x5, 0 ( x2 (")), Ok(None));
    assert_eq!(Parser::parse_i_with_bracket(0, 0b0000011, &operands("x5, 0 : x2 )")), Ok(None));
}

#[test]
fn unknown_register_is_fatal() {
    let parser = with_labels(&[("l", 0)]);
    let fatal = Err(SyntaxError::IllegalRegister);
    assert_eq!(Parser::parse_r(0, 0, &operands("x99")), fatal);
    assert_eq!(Parser::parse_r(0, 0, &operands("x1, x2, 3")), fatal);
    assert_eq!(Parser::parse_i(0, 0b0010011, &operands("x1, y2, 3, 4")), fatal);
    assert_eq!(Parser::parse_u(0b0110111, &operands("1, 2")), fatal);
    assert_eq!(Parser::parse_s(0b010, 0b0100011, &operands("x5, 0(x99)")), fatal);
    assert_eq!(Parser::parse_i_with_bracket(0, 0b0000011, &operands("x5, 0(x99)")), fatal);
    assert_eq!(parser.parse_b(0, 0b1100011, 0, &operands("x1, 2, l")), fatal);
}

#[test]
fn malformed_immediate_is_fatal() {
    let parser = Parser::new(String::from("i.s"));
    let fatal = Err(SyntaxError::IllegalImmediate);
    assert_eq!(Parser::parse_i(0, 0b0010011, &operands("x1, x2, x3")), fatal);
    assert_eq!(Parser::parse_u(0b0110111, &operands("x1, 0x")), fatal);
    assert_eq!(Parser::parse_s(0b010, 0b0100011, &operands("x5, (x2)")), fatal);
    assert_eq!(Parser::parse_i_with_bracket(0, 0b0000011, &operands("x5, x2")), fatal);
    assert_eq!(parser.parse_j(0b1101111, 0, &operands("x1, start")), fatal);
}

#[test]
fn undefined_label_is_fatal() {
    let parser = with_labels(&[("here", 0)]);
    let fatal = Err(SyntaxError::UndefinedLabel);
    assert_eq!(parser.parse_b(0, 0b1100011, 0, &operands("x1, x2, there")), fatal);
    assert_eq!(parser.parse_b(0, 0b1100011, 0, &operands("x1, x2, Here")), fatal);
    assert_eq!(parser.parse_j(0b1101111, 0, &operands("there")), fatal);
    assert_eq!(parser.parse_j(0b1101111, 0, &operands("there extra")), fatal);
}

#[test]
fn parse_line_follows_the_classification() {
    let parser = with_labels(&[("l", 2)]);
    let ops = operands("x1, x2, x3");
    assert_eq!(parser.parse_line(&PreParsedLine::new_r(0, 0), &ops), Ok(Some(0x003100b3)));
    assert_eq!(parser.parse_line(&PreParsedLine::Empty, &ops), Ok(None));
    assert_eq!(parser.parse_line(&PreParsedLine::Empty, &[]), Ok(None));
    assert_eq!(
        parser.parse_line(&PreParsedLine::new_i(0, 0b0010011), &operands("x1, x0, 5")),
        Ok(Some(0x00500093))
    );
    assert_eq!(
        parser.parse_line(&PreParsedLine::new_i_with_brackets(0b010, 0b0000011), &operands("x6, 8(x2)")),
        Ok(Some(0x00812303))
    );
    assert_eq!(
        parser.parse_line(&PreParsedLine::new_s(0b010, 0b0100011), &operands("x5, 0x10(x2)")),
        Ok(Some(0x00512823))
    );
    assert_eq!(
        parser.parse_line(&PreParsedLine::new_u(0b0110111), &operands("x5, 0x12345")),
        Ok(Some(0x123452b7))
    );
    assert_eq!(
        parser.parse_line(&PreParsedLine::new_b(0b001, 0b1100011, 3), &operands("x1, x0, l")),
        Ok(Some(0xfe009ee3))
    );
    assert_eq!(
        parser.parse_line(&PreParsedLine::new_j(0b1101111, 5), &operands("l")),
        Ok(Some(0xff5ff0ef))
    );
}
