//! The format encoders: from the operands of one line to its machine word.
//!
//! An encoder reads the operands from left to right. The first operand that
//! is missing, and any token left over at the end, makes the line give no
//! output. The first operand that is there but wrong (a name that is no
//! register, a number that is malformed, a label that is not defined) is a
//! fatal failure.

use crate::error::SyntaxError;
use crate::layout::{
    b_offset_of, b_word, funct3_of, i_word, j_offset_of, j_word, label_offset, lemma_b_word_fields,
    lemma_j_word_fields, offset_pattern, opcode_of, pattern_of, r_word, rd_of, rs1_of, rs2_of,
    s_word, twos_complement, u_word, OPCODE_R, RETURN_ADDRESS,
};
use crate::operand::{immediate, lemma_register_numbers_are_small, register_number};
use crate::parser::{Parser, PreParsedLine};
use crate::text::same_text;
use vstd::prelude::*;

verus! {

/// What the register-register line `rd, rs1, rs2` encodes to.
pub open spec fn r_line(funct7: u32, funct3: u32, operands: Seq<Seq<char>>) -> Result<
    Option<u32>,
    SyntaxError,
> {
    if operands.len() < 1 {
        Ok(None)
    } else if register_number(operands[0]) is None {
        Err(SyntaxError::IllegalRegister)
    } else if operands.len() < 2 {
        Ok(None)
    } else if register_number(operands[1]) is None {
        Err(SyntaxError::IllegalRegister)
    } else if operands.len() < 3 {
        Ok(None)
    } else if register_number(operands[2]) is None {
        Err(SyntaxError::IllegalRegister)
    } else if operands.len() > 3 {
        Ok(None)
    } else {
        Ok(
            Some(
                r_word(
                    funct7,
                    funct3,
                    register_number(operands[0])->0,
                    register_number(operands[1])->0,
                    register_number(operands[2])->0,
                ),
            ),
        )
    }
}

/// What the register-immediate line `rd, rs1, imm` encodes to.
pub open spec fn i_line(funct3: u32, opcode: u32, operands: Seq<Seq<char>>) -> Result<
    Option<u32>,
    SyntaxError,
> {
    if operands.len() < 1 {
        Ok(None)
    } else if register_number(operands[0]) is None {
        Err(SyntaxError::IllegalRegister)
    } else if operands.len() < 2 {
        Ok(None)
    } else if register_number(operands[1]) is None {
        Err(SyntaxError::IllegalRegister)
    } else if operands.len() < 3 {
        Ok(None)
    } else if immediate(operands[2]) is None {
        Err(SyntaxError::IllegalImmediate)
    } else if operands.len() > 3 {
        Ok(None)
    } else {
        Ok(
            Some(
                i_word(
                    opcode,
                    funct3,
                    register_number(operands[0])->0,
                    register_number(operands[1])->0,
                    twos_complement(immediate(operands[2])->0),
                ),
            ),
        )
    }
}

/// What the load or indirect jump line `rd, offset(rs1)` encodes to.
pub open spec fn i_with_bracket_line(
    funct3: u32,
    opcode: u32,
    operands: Seq<Seq<char>>,
) -> Result<Option<u32>, SyntaxError> {
    if operands.len() < 1 {
        Ok(None)
    } else if register_number(operands[0]) is None {
        Err(SyntaxError::IllegalRegister)
    } else if operands.len() < 2 {
        Ok(None)
    } else if immediate(operands[1]) is None {
        Err(SyntaxError::IllegalImmediate)
    } else if operands.len() < 3 || operands[2] != "("@ {
        Ok(None)
    } else if operands.len() < 4 {
        Ok(None)
    } else if register_number(operands[3]) is None {
        Err(SyntaxError::IllegalRegister)
    } else if operands.len() != 5 || operands[4] != ")"@ {
        Ok(None)
    } else {
        Ok(
            Some(
                i_word(
                    opcode,
                    funct3,
                    register_number(operands[0])->0,
                    register_number(operands[3])->0,
                    twos_complement(immediate(operands[1])->0),
                ),
            ),
        )
    }
}

/// What the store line `rs2, offset(rs1)` encodes to.
pub open spec fn s_line(funct3: u32, opcode: u32, operands: Seq<Seq<char>>) -> Result<
    Option<u32>,
    SyntaxError,
> {
    if operands.len() < 1 {
        Ok(None)
    } else if register_number(operands[0]) is None {
        Err(SyntaxError::IllegalRegister)
    } else if operands.len() < 2 {
        Ok(None)
    } else if immediate(operands[1]) is None {
        Err(SyntaxError::IllegalImmediate)
    } else if operands.len() < 3 || operands[2] != "("@ {
        Ok(None)
    } else if operands.len() < 4 {
        Ok(None)
    } else if register_number(operands[3]) is None {
        Err(SyntaxError::IllegalRegister)
    } else if operands.len() != 5 || operands[4] != ")"@ {
        Ok(None)
    } else {
        Ok(
            Some(
                s_word(
                    opcode,
                    funct3,
                    register_number(operands[3])->0,
                    register_number(operands[0])->0,
                    twos_complement(immediate(operands[1])->0),
                ),
            ),
        )
    }
}

/// What the branch line `rs1, rs2, label` encodes to, for a branch at index
/// `current_line`: the offset is the distance from the branch to the
/// instruction that the label stands for.
pub open spec fn b_line(
    labels: Map<Seq<char>, usize>,
    funct3: u32,
    opcode: u32,
    current_line: usize,
    operands: Seq<Seq<char>>,
) -> Result<Option<u32>, SyntaxError> {
    if operands.len() < 1 {
        Ok(None)
    } else if register_number(operands[0]) is None {
        Err(SyntaxError::IllegalRegister)
    } else if operands.len() < 2 {
        Ok(None)
    } else if register_number(operands[1]) is None {
        Err(SyntaxError::IllegalRegister)
    } else if operands.len() < 3 {
        Ok(None)
    } else if !labels.contains_key(operands[2]) {
        Err(SyntaxError::UndefinedLabel)
    } else if operands.len() > 3 {
        Ok(None)
    } else {
        Ok(
            Some(
                b_word(
                    opcode,
                    funct3,
                    register_number(operands[0])->0,
                    register_number(operands[1])->0,
                    twos_complement(
                        label_offset(labels[operands[2]] as int, current_line as int),
                    ),
                ),
            ),
        )
    }
}

/// What the upper-immediate line `rd, imm` encodes to.
pub open spec fn u_line(opcode: u32, operands: Seq<Seq<char>>) -> Result<
    Option<u32>,
    SyntaxError,
> {
    if operands.len() < 1 {
        Ok(None)
    } else if register_number(operands[0]) is None {
        Err(SyntaxError::IllegalRegister)
    } else if operands.len() < 2 {
        Ok(None)
    } else if immediate(operands[1]) is None {
        Err(SyntaxError::IllegalImmediate)
    } else if operands.len() > 2 {
        Ok(None)
    } else {
        Ok(
            Some(
                u_word(
                    opcode,
                    register_number(operands[0])->0,
                    twos_complement(immediate(operands[1])->0),
                ),
            ),
        )
    }
}

/// What a jump line encodes to, for a jump at index `current_line`.
///
/// The line is either `rd, imm`, or a label alone. A first operand that
/// names a register is taken as `rd`; any other is taken as a label, and
/// the jump then links through the return address register.
pub open spec fn j_line(
    labels: Map<Seq<char>, usize>,
    opcode: u32,
    current_line: usize,
    operands: Seq<Seq<char>>,
) -> Result<Option<u32>, SyntaxError> {
    if operands.len() < 1 {
        Ok(None)
    } else if register_number(operands[0]) is Some {
        if operands.len() < 2 {
            Ok(None)
        } else if immediate(operands[1]) is None {
            Err(SyntaxError::IllegalImmediate)
        } else if operands.len() > 2 {
            Ok(None)
        } else {
            Ok(
                Some(
                    j_word(
                        opcode,
                        register_number(operands[0])->0,
                        twos_complement(immediate(operands[1])->0),
                    ),
                ),
            )
        }
    } else if !labels.contains_key(operands[0]) {
        Err(SyntaxError::UndefinedLabel)
    } else if operands.len() > 1 {
        Ok(None)
    } else {
        Ok(
            Some(
                j_word(
                    opcode,
                    RETURN_ADDRESS,
                    twos_complement(label_offset(labels[operands[0]] as int, current_line as int)),
                ),
            ),
        )
    }
}

/// What a classified line encodes to, given the label table and the
/// operands: the tokens that follow the first.
pub open spec fn line_outcome(
    labels: Map<Seq<char>, usize>,
    line: PreParsedLine,
    operands: Seq<Seq<char>>,
) -> Result<Option<u32>, SyntaxError> {
    match line {
        PreParsedLine::R { funct7, funct3 } => r_line(funct7, funct3, operands),
        PreParsedLine::I { funct3, opcode } => i_line(funct3, opcode, operands),
        PreParsedLine::IWithBrackets { funct3, opcode } => i_with_bracket_line(
            funct3,
            opcode,
            operands,
        ),
        PreParsedLine::S { funct3, opcode } => s_line(funct3, opcode, operands),
        PreParsedLine::B { funct3, opcode, current_line } => b_line(
            labels,
            funct3,
            opcode,
            current_line,
            operands,
        ),
        PreParsedLine::U { opcode } => u_line(opcode, operands),
        PreParsedLine::J { opcode, current_line } => j_line(
            labels,
            opcode,
            current_line,
            operands,
        ),
        PreParsedLine::Empty => Ok(None),
    }
}

/// A branch holds the exact distance to its label: wherever a branch line
/// encodes to a word and the distance from the branch to the instruction
/// that its label stands for fits the 13 bits of the format, reading the
/// offset back out of the word gives that distance, four bytes for each
/// instruction between the two, and reading the other fields gives the
/// opcode, `funct3` and the two registers.
pub proof fn lemma_branch_offset_is_read_back(
    labels: Map<Seq<char>, usize>,
    funct3: u32,
    opcode: u32,
    current_line: usize,
    operands: Seq<Seq<char>>,
    word: u32,
)
    requires
        opcode < 128,
        funct3 < 8,
        b_line(labels, funct3, opcode, current_line, operands) == Ok::<Option<u32>, SyntaxError>(
            Some(word),
        ),
        -4096 <= (labels[operands[2]] - current_line) * 4 < 4096,
    ensures
        labels.contains_key(operands[2]),
        b_offset_of(word) == (labels[operands[2]] - current_line) * 4,
        opcode_of(word) == opcode,
        funct3_of(word) == funct3,
        Some(rs1_of(word)) == register_number(operands[0]),
        Some(rs2_of(word)) == register_number(operands[1]),
{
    lemma_register_numbers_are_small(operands[0]);
    lemma_register_numbers_are_small(operands[1]);
    lemma_b_word_fields(
        opcode,
        funct3,
        register_number(operands[0])->0,
        register_number(operands[1])->0,
        label_offset(labels[operands[2]] as int, current_line as int),
    );
}

/// A jump holds the exact distance to its label: wherever a jump line that
/// names a label encodes to a word and the distance from the jump to the
/// instruction that the label stands for fits the 21 bits of the format,
/// reading the offset back out of the word gives that distance, and the
/// jump links through the return address register.
pub proof fn lemma_jump_offset_is_read_back(
    labels: Map<Seq<char>, usize>,
    opcode: u32,
    current_line: usize,
    operands: Seq<Seq<char>>,
    word: u32,
)
    requires
        opcode < 128,
        j_line(labels, opcode, current_line, operands) == Ok::<Option<u32>, SyntaxError>(
            Some(word),
        ),
        register_number(operands[0]) is None,
        -0x10_0000 <= (labels[operands[0]] - current_line) * 4 < 0x10_0000,
    ensures
        labels.contains_key(operands[0]),
        j_offset_of(word) == (labels[operands[0]] - current_line) * 4,
        opcode_of(word) == opcode,
        rd_of(word) == RETURN_ADDRESS,
{
    lemma_j_word_fields(
        opcode,
        RETURN_ADDRESS,
        label_offset(labels[operands[0]] as int, current_line as int),
    );
}

/// The register operand at position `i`, or the reason why the line stops
/// there.
fn register_operand(operands: &[String], i: usize) -> (found: Result<Option<u32>, SyntaxError>)
    ensures
        found == if i >= operands.deep_view().len() {
            Ok::<Option<u32>, SyntaxError>(None)
        } else if register_number(operands.deep_view()[i as int]) is None {
            Err(SyntaxError::IllegalRegister)
        } else {
            Ok(register_number(operands.deep_view()[i as int]))
        },
{
    if i >= operands.len() {
        return Ok(None);
    }
    match Parser::parse_rg(operands[i].as_str()) {
        Ok(number) => Ok(Some(number)),
        Err(e) => Err(e),
    }
}

/// The pattern of the immediate operand at position `i`, or the reason why
/// the line stops there.
fn immediate_operand(operands: &[String], i: usize) -> (found: Result<Option<u32>, SyntaxError>)
    ensures
        found == if i >= operands.deep_view().len() {
            Ok::<Option<u32>, SyntaxError>(None)
        } else if immediate(operands.deep_view()[i as int]) is None {
            Err(SyntaxError::IllegalImmediate)
        } else {
            Ok(Some(twos_complement(immediate(operands.deep_view()[i as int])->0)))
        },
{
    if i >= operands.len() {
        return Ok(None);
    }
    match Parser::parse_imm(operands[i].as_str()) {
        Ok(value) => Ok(Some(pattern_of(value))),
        Err(e) => Err(e),
    }
}

/// Whether the token at position `i` is there and reads `expected`.
fn token_is(operands: &[String], i: usize, expected: &str) -> (found: bool)
    ensures
        found == (i < operands.deep_view().len() && operands.deep_view()[i as int] == expected@),
{
    i < operands.len() && same_text(operands[i].as_str(), expected)
}

impl Parser {
    /// Encodes a register-register instruction from its operands `rd, rs1,
    /// rs2`.
    pub fn parse_r(funct7: u32, funct3: u32, operands: &[String]) -> (word: Result<
        Option<u32>,
        SyntaxError,
    >)
        ensures
            word == r_line(funct7, funct3, operands.deep_view()),
    {
        let rd = match register_operand(operands, 0) {
            Ok(Some(number)) => number,
            stop => return stop,
        };
        let rs1 = match register_operand(operands, 1) {
            Ok(Some(number)) => number,
            stop => return stop,
        };
        let rs2 = match register_operand(operands, 2) {
            Ok(Some(number)) => number,
            stop => return stop,
        };
        if operands.len() > 3 {
            return Ok(None);
        }
        Ok(Some(OPCODE_R | rd << 7 | funct3 << 12 | rs1 << 15 | rs2 << 20 | funct7 << 25))
    }

    /// Encodes a register-immediate instruction from its operands `rd, rs1,
    /// imm`.
    pub fn parse_i(funct3: u32, opcode: u32, operands: &[String]) -> (word: Result<
        Option<u32>,
        SyntaxError,
    >)
        ensures
            word == i_line(funct3, opcode, operands.deep_view()),
    {
        let rd = match register_operand(operands, 0) {
            Ok(Some(number)) => number,
            stop => return stop,
        };
        let rs1 = match register_operand(operands, 1) {
            Ok(Some(number)) => number,
            stop => return stop,
        };
        let imm = match immediate_operand(operands, 2) {
            Ok(Some(pattern)) => pattern,
            stop => return stop,
        };
        if operands.len() > 3 {
            return Ok(None);
        }
        Ok(Some(opcode | rd << 7 | funct3 << 12 | rs1 << 15 | imm << 20))
    }

    /// Encodes a load or an indirect jump from its operands `rd, offset(rs1)`.
    pub fn parse_i_with_bracket(funct3: u32, opcode: u32, operands: &[String]) -> (word: Result<
        Option<u32>,
        SyntaxError,
    >)
        ensures
            word == i_with_bracket_line(funct3, opcode, operands.deep_view()),
    {
        let rd = match register_operand(operands, 0) {
            Ok(Some(number)) => number,
            stop => return stop,
        };
        let offset = match immediate_operand(operands, 1) {
            Ok(Some(pattern)) => pattern,
            stop => return stop,
        };
        if !token_is(operands, 2, "(") {
            return Ok(None);
        }
        let rs1 = match register_operand(operands, 3) {
            Ok(Some(number)) => number,
            stop => return stop,
        };
        if !token_is(operands, 4, ")") {
            return Ok(None);
        }
        if operands.len() > 5 {
            return Ok(None);
        }
        Ok(Some(opcode | rd << 7 | funct3 << 12 | rs1 << 15 | offset << 20))
    }

    /// Encodes a store from its operands `rs2, offset(rs1)`.
    pub fn parse_s(funct3: u32, opcode: u32, operands: &[String]) -> (word: Result<
        Option<u32>,
        SyntaxError,
    >)
        ensures
            word == s_line(funct3, opcode, operands.deep_view()),
    {
        let rs2 = match register_operand(operands, 0) {
            Ok(Some(number)) => number,
            stop => return stop,
        };
        let offset = match immediate_operand(operands, 1) {
            Ok(Some(pattern)) => pattern,
            stop => return stop,
        };
        if !token_is(operands, 2, "(") {
            return Ok(None);
        }
        let rs1 = match register_operand(operands, 3) {
            Ok(Some(number)) => number,
            stop => return stop,
        };
        if !token_is(operands, 4, ")") {
            return Ok(None);
        }
        if operands.len() > 5 {
            return Ok(None);
        }
        let imm_low_5 = offset & 0x1f;
        let imm_high_7 = offset >> 5 & 0x7f;
        Ok(
            Some(
                opcode | imm_low_5 << 7 | funct3 << 12 | rs1 << 15 | rs2 << 20 | imm_high_7 << 25,
            ),
        )
    }

    /// Encodes a branch from its operands `rs1, rs2, label`.
    pub fn parse_b(&self, funct3: u32, opcode: u32, current_line: usize, operands: &[String]) -> (word:
        Result<Option<u32>, SyntaxError>)
        ensures
            word == b_line(self@.labels, funct3, opcode, current_line, operands.deep_view()),
    {
        let rs1 = match register_operand(operands, 0) {
            Ok(Some(number)) => number,
            stop => return stop,
        };
        let rs2 = match register_operand(operands, 1) {
            Ok(Some(number)) => number,
            stop => return stop,
        };
        if operands.len() < 3 {
            return Ok(None);
        }
        let target_line = match self.label_index(operands[2].as_str()) {
            Some(index) => index,
            None => return Err(SyntaxError::UndefinedLabel),
        };
        if operands.len() > 3 {
            return Ok(None);
        }
        let offset = offset_pattern(target_line, current_line);
        let imm_12 = offset >> 12 & 0x1;
        let imm_11 = offset >> 11 & 0x1;
        let imm_10_5 = offset >> 5 & 0x3f;
        let imm_4_1 = offset >> 1 & 0xf;
        Ok(
            Some(
                opcode | imm_11 << 7 | imm_4_1 << 8 | funct3 << 12 | rs1 << 15 | rs2 << 20
                    | imm_10_5 << 25 | imm_12 << 31,
            ),
        )
    }

    /// Encodes an upper-immediate instruction from its operands `rd, imm`.
    pub fn parse_u(opcode: u32, operands: &[String]) -> (word: Result<Option<u32>, SyntaxError>)
        ensures
            word == u_line(opcode, operands.deep_view()),
    {
        let rd = match register_operand(operands, 0) {
            Ok(Some(number)) => number,
            stop => return stop,
        };
        let imm = match immediate_operand(operands, 1) {
            Ok(Some(pattern)) => pattern,
            stop => return stop,
        };
        if operands.len() > 2 {
            return Ok(None);
        }
        Ok(Some(opcode | rd << 7 | imm << 12))
    }

    /// Encodes a jump from its operands: `rd, imm`, or a label alone.
    pub fn parse_j(&self, opcode: u32, current_line: usize, operands: &[String]) -> (word: Result<
        Option<u32>,
        SyntaxError,
    >)
        ensures
            word == j_line(self@.labels, opcode, current_line, operands.deep_view()),
    {
        if operands.len() < 1 {
            return Ok(None);
        }
        let second_token = operands[0].as_str();
        let rd: u32;
        let offset: u32;
        match Self::parse_rg_allow_none(second_token) {
            Some(number) => {
                rd = number;
                offset = match immediate_operand(operands, 1) {
                    Ok(Some(pattern)) => pattern,
                    stop => return stop,
                };
                if operands.len() > 2 {
                    return Ok(None);
                }
            },
            None => {
                let target_line = match self.label_index(second_token) {
                    Some(index) => index,
                    None => return Err(SyntaxError::UndefinedLabel),
                };
                if operands.len() > 1 {
                    return Ok(None);
                }
                rd = RETURN_ADDRESS;
                offset = offset_pattern(target_line, current_line);
            },
        }
        let imm_20 = offset >> 20 & 0x1;
        let imm_19_12 = offset >> 12 & 0xff;
        let imm_11 = offset >> 11 & 0x1;
        let imm_10_1 = offset >> 1 & 0x3ff;
        Ok(Some(opcode | rd << 7 | imm_19_12 << 12 | imm_11 << 20 | imm_10_1 << 21 | imm_20 << 31))
    }

    /// Encodes one classified line from its operands, the tokens that follow
    /// the first. A line that holds no instruction gives no word.
    pub fn parse_line(&self, pre_parsed_line: &PreParsedLine, operands: &[String]) -> (word: Result<
        Option<u32>,
        SyntaxError,
    >)
        ensures
            word == line_outcome(self@.labels, *pre_parsed_line, operands.deep_view()),
    {
        match pre_parsed_line {
            PreParsedLine::R { funct7, funct3 } => Self::parse_r(*funct7, *funct3, operands),
            PreParsedLine::I { funct3, opcode } => Self::parse_i(*funct3, *opcode, operands),
            PreParsedLine::S { funct3, opcode } => Self::parse_s(*funct3, *opcode, operands),
            PreParsedLine::U { opcode } => Self::parse_u(*opcode, operands),
            PreParsedLine::IWithBrackets { funct3, opcode } => Self::parse_i_with_bracket(
                *funct3,
                *opcode,
                operands,
            ),
            PreParsedLine::J { opcode, current_line } => self.parse_j(
                *opcode,
                *current_line,
                operands,
            ),
            PreParsedLine::B { funct3, opcode, current_line } => self.parse_b(
                *funct3,
                *opcode,
                *current_line,
                operands,
            ),
            PreParsedLine::Empty => Ok(None),
        }
    }
}

} // verus!
