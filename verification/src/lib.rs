//! A two-pass assembler for the RV32I base integer instruction subset.
//!
//! Source text is split into tokens line by line, each line is classified by
//! its mnemonic while label positions are collected, and every instruction is
//! then encoded into one 32-bit machine word.

pub mod blank_lines;
pub mod encoder;
pub mod error;
pub mod layout;
pub mod operand;
pub mod output;
pub mod parser;
pub mod text;
pub mod tokenizer;
