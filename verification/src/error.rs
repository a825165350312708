//! The failures that stop an assembly run.

use vstd::prelude::*;

verus! {

/// A fatal syntax failure. Once one is met, no later line can be trusted to
/// be encoded as written, so the run ends with it.
#[derive(Clone, Copy, Debug, PartialEq, Eq, Structural)]
pub enum SyntaxError {
    /// A register operand names none of the thirty-two registers.
    IllegalRegister,
    /// An immediate operand is no hexadecimal or decimal number of 32 bits.
    IllegalImmediate,
    /// A branch or jump refers to a label that the source never defines.
    UndefinedLabel,
    /// A line starts with a word that is no mnemonic and no `:` follows it.
    IllegalLabel,
    /// Tokens follow the `:` of a label definition.
    TokensAfterLabel,
}

impl SyntaxError {
    /// The text of the message for this failure.
    pub open spec fn message_text(self) -> Seq<char> {
        match self {
            SyntaxError::IllegalRegister => "illegal register name"@,
            SyntaxError::IllegalImmediate => "illegal immediate"@,
            SyntaxError::UndefinedLabel => "undefined label"@,
            SyntaxError::IllegalLabel => "illegal label"@,
            SyntaxError::TokensAfterLabel => "syntax error"@,
        }
    }

    /// A short message that names the failure.
    pub fn message(&self) -> (text: &'static str)
        ensures
            text@ == self.message_text(),
    {
        match self {
            SyntaxError::IllegalRegister => "illegal register name",
            SyntaxError::IllegalImmediate => "illegal immediate",
            SyntaxError::UndefinedLabel => "undefined label",
            SyntaxError::IllegalLabel => "illegal label",
            SyntaxError::TokensAfterLabel => "syntax error",
        }
    }
}

/// A fatal failure together with the line on which it was met.
#[derive(Clone, Copy, Debug, PartialEq, Eq, Structural)]
pub struct ParseError {
    /// Position of the offending line among the lines given to the
    /// assembler, counted from zero.
    pub line: usize,
    /// What was wrong with it.
    pub kind: SyntaxError,
}

} // verus!
