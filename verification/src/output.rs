//! The output of an assembly run: the text of the hex file and its name.

use crate::parser::Parser;
use crate::text::chars_of;
use vstd::prelude::*;
use vstd::string::{StrSliceExecFns, StringExecFns};

verus! {

/// The lower-case hexadecimal digit for a value below sixteen.
pub open spec fn hex_digit_of(nibble: u32) -> char {
    seq!['0', '1', '2', '3', '4', '5', '6', '7', '8', '9', 'a', 'b', 'c', 'd', 'e', 'f'][nibble as int]
}

/// The four bits of `word` that start at bit `shift`.
pub open spec fn nibble_of(word: u32, shift: u32) -> u32 {
    word >> shift & 0xf
}

/// The line that a machine word gives in the hex file: its eight
/// hexadecimal digits in lower case, the highest first, and a line feed.
pub open spec fn hex_line_of(word: u32) -> Seq<char> {
    seq![
        hex_digit_of(nibble_of(word, 28)),
        hex_digit_of(nibble_of(word, 24)),
        hex_digit_of(nibble_of(word, 20)),
        hex_digit_of(nibble_of(word, 16)),
        hex_digit_of(nibble_of(word, 12)),
        hex_digit_of(nibble_of(word, 8)),
        hex_digit_of(nibble_of(word, 4)),
        hex_digit_of(nibble_of(word, 0)),
        '\n',
    ]
}

/// The text of the hex file for the outcomes of the second pass: one line
/// for each machine word, in source order, and nothing for a line without
/// output.
pub open spec fn hex_text_of(code: Seq<Option<u32>>) -> Seq<char>
    decreases code.len(),
{
    if code.len() == 0 {
        Seq::empty()
    } else {
        hex_text_of(code.drop_last()) + match code.last() {
            Some(word) => hex_line_of(word),
            None => Seq::empty(),
        }
    }
}

/// Whether a file name ends in the source extension `.s`.
pub open spec fn has_source_extension(name: Seq<char>) -> bool {
    name.len() >= 2 && name[name.len() - 2] == '.' && name[name.len() - 1] == 's'
}

/// A file name without the source extensions at its end, however many.
pub open spec fn stem_of(name: Seq<char>) -> Seq<char>
    decreases name.len(),
{
    if has_source_extension(name) {
        stem_of(name.take(name.len() - 2))
    } else {
        name
    }
}

/// The name of the hex file for a source file: the extension `.hex` in
/// place of the source extension.
pub open spec fn hex_name_of(name: Seq<char>) -> Seq<char> {
    stem_of(name) + seq!['.', 'h', 'e', 'x']
}

/// Appends the hexadecimal digit for four bits of `word` to `text`.
fn push_hex_digit(text: &mut String, word: u32, shift: u32)
    requires
        shift < 32,
    ensures
        final(text)@ == old(text)@.push(hex_digit_of(nibble_of(word, shift))),
{
    let nibble = (word >> shift & 0xf) as usize;
    assert(word >> shift & 0xf < 16) by (bit_vector);
    proof {
        reveal_strlit("0123456789abcdef");
    }
    let digit = "0123456789abcdef".substring_char(nibble, nibble + 1);
    text.append(digit);
    assert(text@ =~= old(text)@.push(hex_digit_of(nibble_of(word, shift))));
}

/// Appends the line of one machine word to `text`.
fn push_hex_line(text: &mut String, word: u32)
    ensures
        final(text)@ == old(text)@ + hex_line_of(word),
{
    push_hex_digit(text, word, 28);
    push_hex_digit(text, word, 24);
    push_hex_digit(text, word, 20);
    push_hex_digit(text, word, 16);
    push_hex_digit(text, word, 12);
    push_hex_digit(text, word, 8);
    push_hex_digit(text, word, 4);
    push_hex_digit(text, word, 0);
    proof {
        reveal_strlit("\n");
    }
    text.append("\n");
    assert(text@ =~= old(text)@ + hex_line_of(word));
}

impl Parser {
    /// The text of the hex file: one line for each encoded instruction, in
    /// source order.
    pub fn hex_text(&self) -> (text: String)
        ensures
            text@ == hex_text_of(self@.machine_code),
    {
        let code = self.machine_code();
        let mut text = String::new();
        let mut i: usize = 0;
        assert(code@.take(0) =~= Seq::<Option<u32>>::empty());
        while i < code.len()
            invariant
                i <= code.len(),
                text@ == hex_text_of(code@.take(i as int)),
            decreases code.len() - i,
        {
            assert(code@.take(i + 1).drop_last() =~= code@.take(i as int));
            match code[i] {
                Some(word) => push_hex_line(&mut text, word),
                None => {
                    assert(text@ + Seq::<char>::empty() =~= text@);
                },
            }
            i = i + 1;
        }
        assert(code@.take(i as int) =~= code@);
        text
    }

    /// The name of the hex file: the name of the source file with `.hex` in
    /// place of its source extension.
    pub fn hex_file_name(&self) -> (name: String)
        ensures
            name@ == hex_name_of(self@.file_name),
    {
        let source = chars_of(self.file_name());
        let mut end: usize = source.len();
        assert(source@.take(end as int) =~= source@);
        while end >= 2 && source[end - 2] == '.' && source[end - 1] == 's'
            invariant
                end <= source.len(),
                stem_of(source@) == stem_of(source@.take(end as int)),
            decreases end,
        {
            assert(source@.take(end as int).take(end - 2) =~= source@.take(end - 2));
            end = end - 2;
        }
        let mut name = self.file_name().substring_char(0, end).to_owned();
        proof {
            reveal_strlit(".hex");
        }
        name.append(".hex");
        assert(name@ =~= hex_name_of(self@.file_name));
        name
    }
}

} // verus!
