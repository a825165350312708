//! The two passes of the assembler and the state they share.

use crate::encoder::line_outcome;
use crate::error::{ParseError, SyntaxError};
use crate::output::{hex_name_of, hex_text_of};
use crate::text::same_text;
use crate::tokenizer::{tokenize_line, tokens_of};
use vstd::hash_map::StringHashMap;
use vstd::prelude::*;
use vstd::slice::slice_subrange;

verus! {

/// A source line after the first pass: the format of its instruction with
/// the fields that its mnemonic fixes, or `Empty` for a line that holds no
/// instruction. Branches and jumps also carry their own line index, from
/// which the distance to a label is measured.
#[derive(Clone, Copy, Debug, PartialEq, Eq, Structural)]
pub enum PreParsedLine {
    R { funct7: u32, funct3: u32 },
    I { funct3: u32, opcode: u32 },
    IWithBrackets { funct3: u32, opcode: u32 },
    S { funct3: u32, opcode: u32 },
    B { funct3: u32, opcode: u32, current_line: usize },
    U { opcode: u32 },
    J { opcode: u32, current_line: usize },
    Empty,
}

impl PreParsedLine {
    /// A register-register line.
    pub fn new_r(funct7: u32, funct3: u32) -> (line: PreParsedLine)
        ensures
            line == (PreParsedLine::R { funct7, funct3 }),
    {
        PreParsedLine::R { funct7, funct3 }
    }

    /// A register-immediate line.
    pub fn new_i(funct3: u32, opcode: u32) -> (line: PreParsedLine)
        ensures
            line == (PreParsedLine::I { funct3, opcode }),
    {
        PreParsedLine::I { funct3, opcode }
    }

    /// A line whose base register stands in brackets: a load or an
    /// indirect jump.
    pub fn new_i_with_brackets(funct3: u32, opcode: u32) -> (line: PreParsedLine)
        ensures
            line == (PreParsedLine::IWithBrackets { funct3, opcode }),
    {
        PreParsedLine::IWithBrackets { funct3, opcode }
    }

    /// A store line.
    pub fn new_s(funct3: u32, opcode: u32) -> (line: PreParsedLine)
        ensures
            line == (PreParsedLine::S { funct3, opcode }),
    {
        PreParsedLine::S { funct3, opcode }
    }

    /// A branch line at index `current_line`.
    pub fn new_b(funct3: u32, opcode: u32, current_line: usize) -> (line: PreParsedLine)
        ensures
            line == (PreParsedLine::B { funct3, opcode, current_line }),
    {
        PreParsedLine::B { funct3, opcode, current_line }
    }

    /// An upper-immediate line.
    pub fn new_u(opcode: u32) -> (line: PreParsedLine)
        ensures
            line == (PreParsedLine::U { opcode }),
    {
        PreParsedLine::U { opcode }
    }

    /// A jump line at index `current_line`.
    pub fn new_j(opcode: u32, current_line: usize) -> (line: PreParsedLine)
        ensures
            line == (PreParsedLine::J { opcode, current_line }),
    {
        PreParsedLine::J { opcode, current_line }
    }
}

/// The classification of an instruction line by its mnemonic, for a line
/// at index `current_line`; `None` for a word that is no mnemonic.
/// Mnemonics are matched exactly, letter case included.
pub open spec fn mnemonic_class(mnemonic: Seq<char>, current_line: usize) -> Option<PreParsedLine> {
    if mnemonic == "add"@ {
        Some(PreParsedLine::R { funct7: 0b0000000, funct3: 0b000 })
    } else if mnemonic == "sub"@ {
        Some(PreParsedLine::R { funct7: 0b0100000, funct3: 0b000 })
    } else if mnemonic == "and"@ {
        Some(PreParsedLine::R { funct7: 0b0000000, funct3: 0b111 })
    } else if mnemonic == "or"@ {
        Some(PreParsedLine::R { funct7: 0b0000000, funct3: 0b110 })
    } else if mnemonic == "xor"@ {
        Some(PreParsedLine::R { funct7: 0b0000000, funct3: 0b100 })
    } else if mnemonic == "sll"@ {
        Some(PreParsedLine::R { funct7: 0b0000000, funct3: 0b001 })
    } else if mnemonic == "srl"@ {
        Some(PreParsedLine::R { funct7: 0b0000000, funct3: 0b101 })
    } else if mnemonic == "sra"@ {
        Some(PreParsedLine::R { funct7: 0b0100000, funct3: 0b101 })
    } else if mnemonic == "slt"@ {
        Some(PreParsedLine::R { funct7: 0b0000000, funct3: 0b010 })
    } else if mnemonic == "sltu"@ {
        Some(PreParsedLine::R { funct7: 0b0000000, funct3: 0b011 })
    } else if mnemonic == "addi"@ {
        Some(PreParsedLine::I { funct3: 0b000, opcode: 0b0010011 })
    } else if mnemonic == "andi"@ {
        Some(PreParsedLine::I { funct3: 0b111, opcode: 0b0010011 })
    } else if mnemonic == "ori"@ {
        Some(PreParsedLine::I { funct3: 0b110, opcode: 0b0010011 })
    } else if mnemonic == "xori"@ {
        Some(PreParsedLine::I { funct3: 0b100, opcode: 0b0010011 })
    } else if mnemonic == "slli"@ {
        Some(PreParsedLine::I { funct3: 0b001, opcode: 0b0010011 })
    } else if mnemonic == "srli"@ {
        Some(PreParsedLine::I { funct3: 0b101, opcode: 0b0010011 })
    } else if mnemonic == "srai"@ {
        Some(PreParsedLine::I { funct3: 0b101, opcode: 0b0010011 })
    } else if mnemonic == "slti"@ {
        Some(PreParsedLine::I { funct3: 0b010, opcode: 0b0010011 })
    } else if mnemonic == "sltiu"@ {
        Some(PreParsedLine::I { funct3: 0b011, opcode: 0b0010011 })
    } else if mnemonic == "lb"@ {
        Some(PreParsedLine::IWithBrackets { funct3: 0b000, opcode: 0b0000011 })
    } else if mnemonic == "lbu"@ {
        Some(PreParsedLine::IWithBrackets { funct3: 0b100, opcode: 0b0000011 })
    } else if mnemonic == "lh"@ {
        Some(PreParsedLine::IWithBrackets { funct3: 0b001, opcode: 0b0000011 })
    } else if mnemonic == "lhu"@ {
        Some(PreParsedLine::IWithBrackets { funct3: 0b101, opcode: 0b0000011 })
    } else if mnemonic == "lw"@ {
        Some(PreParsedLine::IWithBrackets { funct3: 0b010, opcode: 0b0000011 })
    } else if mnemonic == "jalr"@ {
        Some(PreParsedLine::IWithBrackets { funct3: 0b000, opcode: 0b1100111 })
    } else if mnemonic == "sb"@ {
        Some(PreParsedLine::S { funct3: 0b000, opcode: 0b0100011 })
    } else if mnemonic == "sh"@ {
        Some(PreParsedLine::S { funct3: 0b001, opcode: 0b0100011 })
    } else if mnemonic == "sw"@ {
        Some(PreParsedLine::S { funct3: 0b010, opcode: 0b0100011 })
    } else if mnemonic == "beq"@ {
        Some(PreParsedLine::B { funct3: 0b000, opcode: 0b1100011, current_line })
    } else if mnemonic == "bne"@ {
        Some(PreParsedLine::B { funct3: 0b001, opcode: 0b1100011, current_line })
    } else if mnemonic == "blt"@ {
        Some(PreParsedLine::B { funct3: 0b100, opcode: 0b1100011, current_line })
    } else if mnemonic == "bltu"@ {
        Some(PreParsedLine::B { funct3: 0b110, opcode: 0b1100011, current_line })
    } else if mnemonic == "bge"@ {
        Some(PreParsedLine::B { funct3: 0b101, opcode: 0b1100011, current_line })
    } else if mnemonic == "bgeu"@ {
        Some(PreParsedLine::B { funct3: 0b111, opcode: 0b1100011, current_line })
    } else if mnemonic == "lui"@ {
        Some(PreParsedLine::U { opcode: 0b0110111 })
    } else if mnemonic == "auipc"@ {
        Some(PreParsedLine::U { opcode: 0b0010111 })
    } else if mnemonic == "jal"@ {
        Some(PreParsedLine::J { opcode: 0b1101111, current_line })
    } else {
        None
    }
}

/// Looks the mnemonic up in the instruction table.
fn classify(mnemonic: &str, current_line: usize) -> (class: Option<PreParsedLine>)
    ensures
        class == mnemonic_class(mnemonic@, current_line),
{
    if same_text(mnemonic, "add") {
        Some(PreParsedLine::new_r(0b0000000, 0b000))
    } else if same_text(mnemonic, "sub") {
        Some(PreParsedLine::new_r(0b0100000, 0b000))
    } else if same_text(mnemonic, "and") {
        Some(PreParsedLine::new_r(0b0000000, 0b111))
    } else if same_text(mnemonic, "or") {
        Some(PreParsedLine::new_r(0b0000000, 0b110))
    } else if same_text(mnemonic, "xor") {
        Some(PreParsedLine::new_r(0b0000000, 0b100))
    } else if same_text(mnemonic, "sll") {
        Some(PreParsedLine::new_r(0b0000000, 0b001))
    } else if same_text(mnemonic, "srl") {
        Some(PreParsedLine::new_r(0b0000000, 0b101))
    } else if same_text(mnemonic, "sra") {
        Some(PreParsedLine::new_r(0b0100000, 0b101))
    } else if same_text(mnemonic, "slt") {
        Some(PreParsedLine::new_r(0b0000000, 0b010))
    } else if same_text(mnemonic, "sltu") {
        Some(PreParsedLine::new_r(0b0000000, 0b011))
    } else if same_text(mnemonic, "addi") {
        Some(PreParsedLine::new_i(0b000, 0b0010011))
    } else if same_text(mnemonic, "andi") {
        Some(PreParsedLine::new_i(0b111, 0b0010011))
    } else if same_text(mnemonic, "ori") {
        Some(PreParsedLine::new_i(0b110, 0b0010011))
    } else if same_text(mnemonic, "xori") {
        Some(PreParsedLine::new_i(0b100, 0b0010011))
    } else if same_text(mnemonic, "slli") {
        Some(PreParsedLine::new_i(0b001, 0b0010011))
    } else if same_text(mnemonic, "srli") {
        Some(PreParsedLine::new_i(0b101, 0b0010011))
    } else if same_text(mnemonic, "srai") {
        Some(PreParsedLine::new_i(0b101, 0b0010011))
    } else if same_text(mnemonic, "slti") {
        Some(PreParsedLine::new_i(0b010, 0b0010011))
    } else if same_text(mnemonic, "sltiu") {
        Some(PreParsedLine::new_i(0b011, 0b0010011))
    } else if same_text(mnemonic, "lb") {
        Some(PreParsedLine::new_i_with_brackets(0b000, 0b0000011))
    } else if same_text(mnemonic, "lbu") {
        Some(PreParsedLine::new_i_with_brackets(0b100, 0b0000011))
    } else if same_text(mnemonic, "lh") {
        Some(PreParsedLine::new_i_with_brackets(0b001, 0b0000011))
    } else if same_text(mnemonic, "lhu") {
        Some(PreParsedLine::new_i_with_brackets(0b101, 0b0000011))
    } else if same_text(mnemonic, "lw") {
        Some(PreParsedLine::new_i_with_brackets(0b010, 0b0000011))
    } else if same_text(mnemonic, "jalr") {
        Some(PreParsedLine::new_i_with_brackets(0b000, 0b1100111))
    } else if same_text(mnemonic, "sb") {
        Some(PreParsedLine::new_s(0b000, 0b0100011))
    } else if same_text(mnemonic, "sh") {
        Some(PreParsedLine::new_s(0b001, 0b0100011))
    } else if same_text(mnemonic, "sw") {
        Some(PreParsedLine::new_s(0b010, 0b0100011))
    } else if same_text(mnemonic, "beq") {
        Some(PreParsedLine::new_b(0b000, 0b1100011, current_line))
    } else if same_text(mnemonic, "bne") {
        Some(PreParsedLine::new_b(0b001, 0b1100011, current_line))
    } else if same_text(mnemonic, "blt") {
        Some(PreParsedLine::new_b(0b100, 0b1100011, current_line))
    } else if same_text(mnemonic, "bltu") {
        Some(PreParsedLine::new_b(0b110, 0b1100011, current_line))
    } else if same_text(mnemonic, "bge") {
        Some(PreParsedLine::new_b(0b101, 0b1100011, current_line))
    } else if same_text(mnemonic, "bgeu") {
        Some(PreParsedLine::new_b(0b111, 0b1100011, current_line))
    } else if same_text(mnemonic, "lui") {
        Some(PreParsedLine::new_u(0b0110111))
    } else if same_text(mnemonic, "auipc") {
        Some(PreParsedLine::new_u(0b0010111))
    } else if same_text(mnemonic, "jal") {
        Some(PreParsedLine::new_j(0b1101111, current_line))
    } else {
        None
    }
}

/// What is wrong with the tokens that follow the name in a label
/// definition, if anything: a single `:` has to follow, and nothing else.
pub open spec fn label_fault(rest: Seq<Seq<char>>) -> Option<SyntaxError> {
    if rest.len() < 1 || rest[0] != ":"@ {
        Some(SyntaxError::IllegalLabel)
    } else if rest.len() > 1 {
        Some(SyntaxError::TokensAfterLabel)
    } else {
        None
    }
}

/// The operands of a line: the tokens that follow the first.
pub open spec fn operands_of(line: Seq<Seq<char>>) -> Seq<Seq<char>> {
    if line.len() == 0 {
        line
    } else {
        line.skip(1)
    }
}

/// How far a pass came: the state it reached, and the failure that stopped
/// it, if one did.
#[verifier::ext_equal]
pub struct Run {
    pub state: ParserView,
    pub failure: Option<ParseError>,
}

/// The assembler for one source file.
///
/// The first pass gives every instruction line its index, counted from zero,
/// and enters every label into the label table under the index of the next
/// instruction. The second pass encodes the lines against the finished
/// table, so that a label may be used before the line that defines it.
pub struct Parser {
    labels: StringHashMap<usize>,
    pre_parsed_lines: Vec<PreParsedLine>,
    next_index: usize,
    file_name: String,
    tokenized_lines: Vec<Vec<String>>,
    machine_code: Vec<Option<u32>>,
}

/// What a `Parser` holds, as mathematical values.
#[verifier::ext_equal]
pub struct ParserView {
    /// The label table: each label's name and the index of the instruction
    /// that it stands for.
    pub labels: Map<Seq<char>, usize>,
    /// The classified lines, in source order.
    pub pre_parsed_lines: Seq<PreParsedLine>,
    /// The index that the next instruction line will get: the number of
    /// instruction lines classified so far.
    pub next_index: usize,
    /// The name of the source file.
    pub file_name: Seq<char>,
    /// The tokens of the lines kept for the second pass, in source order.
    pub tokenized_lines: Seq<Seq<Seq<char>>>,
    /// The outcome of the second pass for each line: its machine word, or
    /// `None` for a line that gives no output.
    pub machine_code: Seq<Option<u32>>,
}

impl ParserView {
    /// The state before anything was read.
    pub open spec fn fresh(file_name: Seq<char>) -> ParserView {
        ParserView {
            labels: Map::empty(),
            pre_parsed_lines: Seq::empty(),
            next_index: 0,
            file_name,
            tokenized_lines: Seq::empty(),
            machine_code: Seq::empty(),
        }
    }

    /// What holds of every state that the passes reach: no more
    /// instructions are counted than lines are classified.
    pub open spec fn well_formed(self) -> bool {
        self.next_index <= self.pre_parsed_lines.len()
    }

    /// The state after the label `name` was defined: it stands for the
    /// next instruction. A later definition of a name replaces an earlier.
    pub open spec fn with_label(self, name: Seq<char>) -> ParserView {
        ParserView { labels: self.labels.insert(name, self.next_index), ..self }
    }

    /// The state after one more line was classified as `line`. A line that
    /// holds an instruction takes the next index; an empty one takes none.
    pub open spec fn with_line(self, line: PreParsedLine) -> ParserView {
        ParserView {
            pre_parsed_lines: self.pre_parsed_lines.push(line),
            next_index: if line is Empty {
                self.next_index
            } else {
                (self.next_index + 1) as usize
            },
            ..self
        }
    }

    /// The first pass on one tokenized line.
    ///
    /// A line without tokens is empty. A line that starts with a mnemonic
    /// is an instruction of that mnemonic's class. Any other line has to be
    /// a label definition, which is entered into the label table and then
    /// counts as empty.
    pub open spec fn pre_parsed(self, line: Seq<Seq<char>>) -> Result<ParserView, SyntaxError> {
        if line.len() == 0 {
            Ok(self.with_line(PreParsedLine::Empty))
        } else if let Some(class) = mnemonic_class(line[0], self.next_index) {
            Ok(self.with_line(class))
        } else if let Some(fault) = label_fault(line.skip(1)) {
            Err(fault)
        } else {
            Ok(self.with_label(line[0]).with_line(PreParsedLine::Empty))
        }
    }

    /// The state after the tokens of one more line were kept for the second
    /// pass.
    pub open spec fn with_tokens(self, line: Seq<Seq<char>>) -> ParserView {
        ParserView { tokenized_lines: self.tokenized_lines.push(line), ..self }
    }

    /// The state after the second pass gave `word` for one more line.
    pub open spec fn with_word(self, word: Option<u32>) -> ParserView {
        ParserView { machine_code: self.machine_code.push(word), ..self }
    }

    /// The number of lines that are both classified and kept.
    pub open spec fn paired_lines(self) -> nat {
        if self.pre_parsed_lines.len() <= self.tokenized_lines.len() {
            self.pre_parsed_lines.len()
        } else {
            self.tokenized_lines.len()
        }
    }

    /// The first pass over the source lines, in order: each line is split
    /// into tokens, classified and kept. The pass stops at the first line
    /// that fails, which is then neither classified nor kept.
    pub open spec fn first_pass(self, lines: Seq<Seq<char>>) -> Run
        decreases lines.len(),
    {
        if lines.len() == 0 {
            Run { state: self, failure: None }
        } else {
            let before = self.first_pass(lines.drop_last());
            if before.failure is Some {
                before
            } else {
                match before.state.pre_parsed(tokens_of(lines.last())) {
                    Ok(next) => Run {
                        state: next.with_tokens(tokens_of(lines.last())),
                        failure: None,
                    },
                    Err(kind) => Run {
                        state: before.state,
                        failure: Some(
                            ParseError {
                                line: before.state.tokenized_lines.len() as usize,
                                kind,
                            },
                        ),
                    },
                }
            }
        }
    }

    /// The second pass over the first `n` lines, in order: each is encoded
    /// against the label table of `self`, and its outcome is added to the
    /// machine code. The pass stops at the first line that fails.
    pub open spec fn second_pass(self, n: nat) -> Run
        decreases n,
    {
        if n == 0 {
            Run { state: self, failure: None }
        } else {
            let before = self.second_pass((n - 1) as nat);
            if before.failure is Some {
                before
            } else {
                match line_outcome(
                    self.labels,
                    self.pre_parsed_lines[n - 1],
                    operands_of(self.tokenized_lines[n - 1]),
                ) {
                    Ok(word) => Run { state: before.state.with_word(word), failure: None },
                    Err(kind) => Run {
                        state: before.state,
                        failure: Some(ParseError { line: (n - 1) as usize, kind }),
                    },
                }
            }
        }
    }

    /// Both passes: the first over the given source lines, and, if it did
    /// not fail, the second over all lines that are classified and kept.
    pub open spec fn parsed(self, lines: Seq<Seq<char>>) -> Run {
        let first = self.first_pass(lines);
        if first.failure is Some {
            first
        } else {
            first.state.second_pass(first.state.paired_lines())
        }
    }
}

/// Whether the tokens of a line define a label: whether the first is no
/// mnemonic and a single `:` follows it.
pub open spec fn is_label_definition(line: Seq<Seq<char>>) -> bool {
    line.len() > 0 && mnemonic_class(line[0], 0) is None && label_fault(line.skip(1)) is None
}

/// Whether a class holds fields that fit their places in a word: an opcode
/// of seven bits, a `funct3` of three and a `funct7` of seven.
pub open spec fn fields_fit(class: PreParsedLine) -> bool {
    match class {
        PreParsedLine::R { funct7, funct3 } => funct7 < 128 && funct3 < 8,
        PreParsedLine::I { funct3, opcode } => funct3 < 8 && opcode < 128,
        PreParsedLine::IWithBrackets { funct3, opcode } => funct3 < 8 && opcode < 128,
        PreParsedLine::S { funct3, opcode } => funct3 < 8 && opcode < 128,
        PreParsedLine::B { funct3, opcode, .. } => funct3 < 8 && opcode < 128,
        PreParsedLine::U { opcode } => opcode < 128,
        PreParsedLine::J { opcode, .. } => opcode < 128,
        PreParsedLine::Empty => true,
    }
}

/// Every mnemonic is classified with fields that fit their places, a
/// branch or a jump carries the index it was classified at, and whether a
/// word is a mnemonic does not depend on that index.
pub proof fn lemma_mnemonic_classes(mnemonic: Seq<char>, current_line: usize, other_line: usize)
    ensures
        mnemonic_class(mnemonic, current_line) is None <==> mnemonic_class(mnemonic, other_line)
            is None,
        mnemonic_class(mnemonic, current_line) matches Some(class) ==> {
            &&& fields_fit(class)
            &&& class !is Empty
            &&& class matches PreParsedLine::B { current_line: line, .. } ==> line == current_line
            &&& class matches PreParsedLine::J { current_line: line, .. } ==> line == current_line
        },
{
}

/// Once the first pass has failed on some of the lines, it gives the same
/// on any more of them.
pub proof fn lemma_first_pass_stops(start: ParserView, lines: Seq<Seq<char>>, k: int)
    requires
        0 <= k <= lines.len(),
        start.first_pass(lines.take(k)).failure is Some,
    ensures
        start.first_pass(lines) == start.first_pass(lines.take(k)),
    decreases lines.len(),
{
    if k == lines.len() {
        assert(lines.take(k) == lines);
    } else {
        assert(lines.drop_last().take(k) == lines.take(k));
        lemma_first_pass_stops(start, lines.drop_last(), k);
    }
}

/// Once the second pass has failed on some of the lines, it gives the same
/// on any more of them.
pub proof fn lemma_second_pass_stops(start: ParserView, k: nat, n: nat)
    requires
        k <= n,
        start.second_pass(k).failure is Some,
    ensures
        start.second_pass(n) == start.second_pass(k),
    decreases n,
{
    if k < n {
        lemma_second_pass_stops(start, k, (n - 1) as nat);
    }
}

/// The second pass only adds machine code: the label table, the indices
/// and the lines stay as the first pass left them.
pub proof fn lemma_second_pass_keeps(start: ParserView, n: nat)
    ensures
        start.second_pass(n).state.labels == start.labels,
        start.second_pass(n).state.next_index == start.next_index,
        start.second_pass(n).state.pre_parsed_lines == start.pre_parsed_lines,
        start.second_pass(n).state.tokenized_lines == start.tokenized_lines,
        start.second_pass(n).state.file_name == start.file_name,
    decreases n,
{
    if n > 0 {
        lemma_second_pass_keeps(start, (n - 1) as nat);
    }
}

/// Whether the tokens of a line hold an instruction: whether the first is
/// a mnemonic.
pub open spec fn holds_instruction(line: Seq<Seq<char>>) -> bool {
    line.len() > 0 && mnemonic_class(line[0], 0) is Some
}

/// The number of source lines that hold an instruction.
pub open spec fn instruction_count(lines: Seq<Seq<char>>) -> nat
    decreases lines.len(),
{
    if lines.len() == 0 {
        0
    } else {
        instruction_count(lines.drop_last()) + if holds_instruction(tokens_of(lines.last())) {
            1nat
        } else {
            0nat
        }
    }
}

/// The index counts the instructions: when the first pass has not failed,
/// the next index has grown by the number of lines that hold an
/// instruction, and by nothing else, as far as the machine can count.
pub proof fn lemma_index_counts_instructions(start: ParserView, lines: Seq<Seq<char>>)
    requires
        start.first_pass(lines).failure is None,
        start.next_index + instruction_count(lines) <= usize::MAX,
    ensures
        start.first_pass(lines).state.next_index == start.next_index + instruction_count(lines),
    decreases lines.len(),
{
    if lines.len() > 0 {
        lemma_index_counts_instructions(start, lines.drop_last());
        let before = start.first_pass(lines.drop_last()).state;
        let line = tokens_of(lines.last());
        if line.len() > 0 {
            lemma_mnemonic_classes(line[0], 0, before.next_index);
        }
    }
}

/// The first pass line by line: where it has not failed on the first
/// `k + 1` lines, it has not failed on the first `k` either, and line `k`
/// took it from the one state to the other.
pub proof fn lemma_first_pass_step(start: ParserView, lines: Seq<Seq<char>>, k: int)
    requires
        0 <= k < lines.len(),
        start.first_pass(lines.take(k + 1)).failure is None,
    ensures
        start.first_pass(lines.take(k)).failure is None,
        start.first_pass(lines.take(k)).state.pre_parsed(tokens_of(lines[k])) is Ok,
        start.first_pass(lines.take(k + 1)).state == start.first_pass(
            lines.take(k),
        ).state.pre_parsed(tokens_of(lines[k]))->Ok_0.with_tokens(tokens_of(lines[k])),
{
    assert(lines.take(k + 1).drop_last() == lines.take(k));
    assert(lines.take(k + 1).last() == lines[k]);
}

/// When the first pass has not failed, the name that line `j` defines is
/// still bound to the index it got there after the first `n` lines, if
/// none of the lines between defines it again.
proof fn lemma_label_is_kept(start: ParserView, lines: Seq<Seq<char>>, j: int, n: int)
    requires
        start.first_pass(lines).failure is None,
        0 <= j < n <= lines.len(),
        is_label_definition(tokens_of(lines[j])),
        forall|k: int|
            j < k < lines.len() ==> !(is_label_definition(#[trigger] tokens_of(lines[k]))
                && tokens_of(lines[k])[0] == tokens_of(lines[j])[0]),
    ensures
        start.first_pass(lines.take(n)).failure is None,
        start.first_pass(lines.take(n)).state.labels.contains_key(tokens_of(lines[j])[0]),
        start.first_pass(lines.take(n)).state.labels[tokens_of(lines[j])[0]] == start.first_pass(
            lines.take(j),
        ).state.next_index,
    decreases n,
{
    if start.first_pass(lines.take(n)).failure is Some {
        lemma_first_pass_stops(start, lines, n);
    }
    lemma_first_pass_step(start, lines, n - 1);
    let before = start.first_pass(lines.take(n - 1)).state;
    let line = tokens_of(lines[n - 1]);
    if line.len() > 0 {
        lemma_mnemonic_classes(line[0], 0, before.next_index);
    }
    if n > j + 1 {
        lemma_label_is_kept(start, lines, j, n - 1);
    }
}

/// A label stands for the next instruction, wherever it is defined: when
/// the first pass has not failed, the label table holds, for the name that
/// line `j` defines, the index that the pass had reached before line `j`,
/// which is the index of the first instruction after it, unless a later
/// line defines the same name again. The second pass encodes every line
/// against this table, the lines before line `j` too.
pub proof fn lemma_label_stands_for_next_instruction(
    start: ParserView,
    lines: Seq<Seq<char>>,
    j: int,
)
    requires
        start.first_pass(lines).failure is None,
        0 <= j < lines.len(),
        is_label_definition(tokens_of(lines[j])),
        forall|k: int|
            j < k < lines.len() ==> !(is_label_definition(#[trigger] tokens_of(lines[k]))
                && tokens_of(lines[k])[0] == tokens_of(lines[j])[0]),
    ensures
        start.first_pass(lines).state.labels.contains_key(tokens_of(lines[j])[0]),
        start.first_pass(lines).state.labels[tokens_of(lines[j])[0]] == start.first_pass(
            lines.take(j),
        ).state.next_index,
{
    assert(lines.take(lines.len() as int) == lines);
    lemma_label_is_kept(start, lines, j, lines.len() as int);
}

/// Assembling is repeatable: what a run gives depends on nothing but the
/// name of the source file and its lines. If two runs on the same lines,
/// each from a fresh state, end as `parse` says, then both fail or neither
/// does, with the same failure on the same line, and they give the same
/// hex text under the same file name.
pub proof fn lemma_parse_is_repeatable(
    file_name: Seq<char>,
    lines: Seq<Seq<char>>,
    first_end: ParserView,
    first_failure: Option<ParseError>,
    second_end: ParserView,
    second_failure: Option<ParseError>,
)
    requires
        ParserView::fresh(file_name).parsed(lines) == (Run {
            state: first_end,
            failure: first_failure,
        }),
        ParserView::fresh(file_name).parsed(lines) == (Run {
            state: second_end,
            failure: second_failure,
        }),
    ensures
        first_failure == second_failure,
        first_end.machine_code == second_end.machine_code,
        hex_text_of(first_end.machine_code) == hex_text_of(second_end.machine_code),
        hex_name_of(first_end.file_name) == hex_name_of(second_end.file_name),
{
}

impl View for Parser {
    type V = ParserView;

    closed spec fn view(&self) -> ParserView {
        ParserView {
            labels: self.labels@,
            pre_parsed_lines: self.pre_parsed_lines@,
            next_index: self.next_index,
            file_name: self.file_name@,
            tokenized_lines: self.tokenized_lines.deep_view(),
            machine_code: self.machine_code@,
        }
    }
}

impl Parser {
    /// An assembler for the source file of the given name, with nothing read
    /// yet.
    pub fn new(file_name: String) -> (parser: Parser)
        ensures
            parser@ == ParserView::fresh(file_name@),
            parser@.well_formed(),
    {
        let parser = Parser {
            labels: StringHashMap::new(),
            pre_parsed_lines: Vec::new(),
            next_index: 0,
            file_name,
            tokenized_lines: Vec::new(),
            machine_code: Vec::new(),
        };
        assert(parser@ =~~= ParserView::fresh(file_name@));
        parser
    }

    /// Enters the label `token` into the label table, under the index of
    /// the next instruction. `rest` holds the tokens that follow the name:
    /// unless they are a single `:`, nothing is entered and the failure is
    /// returned.
    pub fn parse_label(&mut self, token: &str, rest: &[String]) -> (done: Result<(), SyntaxError>)
        ensures
            match label_fault(rest.deep_view()) {
                Some(fault) => done == Err::<(), SyntaxError>(fault) && final(self)@ == old(self)@,
                None => done is Ok && final(self)@ == old(self)@.with_label(token@),
            },
    {
        if rest.len() < 1 || !same_text(rest[0].as_str(), ":") {
            return Err(SyntaxError::IllegalLabel);
        }
        if rest.len() > 1 {
            return Err(SyntaxError::TokensAfterLabel);
        }
        self.labels.insert(token.to_owned(), self.next_index);
        assert(self@ =~~= old(self)@.with_label(token@));
        Ok(())
    }

    /// The first pass on one tokenized line: classifies it, gives it the
    /// next index if it holds an instruction, and enters it into the label
    /// table if it defines a label. On a failure nothing changes.
    pub fn pre_parse_line(&mut self, tokenized_line: &[String]) -> (done: Result<(), SyntaxError>)
        requires
            old(self)@.well_formed(),
        ensures
            final(self)@.well_formed(),
            match old(self)@.pre_parsed(tokenized_line.deep_view()) {
                Ok(next) => done is Ok && final(self)@ == next,
                Err(fault) => done == Err::<(), SyntaxError>(fault) && final(self)@ == old(self)@,
            },
    {
        if tokenized_line.len() == 0 {
            self.pre_parsed_lines.push(PreParsedLine::Empty);
            assert(self@ =~~= old(self)@.with_line(PreParsedLine::Empty));
            return Ok(());
        }
        let first_token = tokenized_line[0].as_str();
        match classify(first_token, self.next_index) {
            Some(class) => {
                self.pre_parsed_lines.push(class);
                assert(self.pre_parsed_lines.len() == old(self)@.pre_parsed_lines.len() + 1);
                self.next_index = self.next_index + 1;
                assert(self@ =~~= old(self)@.with_line(class));
            },
            None => {
                let rest = slice_subrange(tokenized_line, 1, tokenized_line.len());
                assert(rest.deep_view() =~= tokenized_line.deep_view().skip(1));
                match self.parse_label(first_token, rest) {
                    Ok(()) => {},
                    Err(fault) => return Err(fault),
                }
                let ghost labelled = self@;
                self.pre_parsed_lines.push(PreParsedLine::Empty);
                assert(self@ =~~= labelled.with_line(PreParsedLine::Empty));
            },
        }
        Ok(())
    }

    /// Assembles the given source lines.
    ///
    /// The first pass splits each line into tokens, classifies it and keeps
    /// it. The second pass then encodes every line, in the same order,
    /// against the label table that the first pass has finished, and adds
    /// its outcome to the machine code. The first fatal failure ends the
    /// run and is returned with its line.
    pub fn parse(&mut self, lines: &[String]) -> (done: Result<(), ParseError>)
        requires
            old(self)@.well_formed(),
        ensures
            final(self)@.well_formed(),
            old(self)@.parsed(lines.deep_view()) == (Run {
                state: final(self)@,
                failure: match done {
                    Ok(()) => None,
                    Err(failure) => Some(failure),
                },
            }),
    {
        let ghost start = self@;
        let ghost source = lines.deep_view();
        let mut i: usize = 0;
        assert(source.take(0) =~= Seq::<Seq<char>>::empty());
        while i < lines.len()
            invariant
                i <= lines.len(),
                source == lines.deep_view(),
                start == old(self)@,
                self@.well_formed(),
                start.first_pass(source.take(i as int)) == (Run { state: self@, failure: None }),
            decreases lines.len() - i,
        {
            let tokenized_line = tokenize_line(lines[i].as_str());
            let ghost before = self@;
            assert(source.take(i + 1).drop_last() =~= source.take(i as int));
            assert(source.take(i + 1).last() == lines[i as int]@);
            match self.pre_parse_line(tokenized_line.as_slice()) {
                Ok(()) => {},
                Err(kind) => {
                    let line = self.tokenized_lines.len();
                    proof {
                        assert(line == before.tokenized_lines.len());
                        let failed = Run {
                            state: before,
                            failure: Some(ParseError { line, kind }),
                        };
                        assert(start.first_pass(source.take(i + 1)) == failed);
                        lemma_first_pass_stops(start, source, i + 1);
                    }
                    return Err(ParseError { line, kind });
                },
            }
            let ghost classified = self@;
            self.tokenized_lines.push(tokenized_line);
            assert(self@ =~~= classified.with_tokens(tokenized_line.deep_view()));
            i = i + 1;
        }
        assert(source.take(i as int) =~= source);
        let ghost first = self@;
        let n = if self.pre_parsed_lines.len() <= self.tokenized_lines.len() {
            self.pre_parsed_lines.len()
        } else {
            self.tokenized_lines.len()
        };
        let mut k: usize = 0;
        while k < n
            invariant
                k <= n,
                n == first.paired_lines(),
                self@.labels == first.labels,
                self@.pre_parsed_lines == first.pre_parsed_lines,
                self@.tokenized_lines == first.tokenized_lines,
                self@.well_formed(),
                source == lines.deep_view(),
                start == old(self)@,
                start.first_pass(source) == (Run { state: first, failure: None }),
                first.second_pass(k as nat) == (Run { state: self@, failure: None }),
            decreases n - k,
        {
            let tokens = self.tokenized_lines[k].as_slice();
            let operands = if tokens.len() == 0 {
                tokens
            } else {
                slice_subrange(tokens, 1, tokens.len())
            };
            assert(operands.deep_view() =~= operands_of(first.tokenized_lines[k as int]));
            let word = match self.parse_line(&self.pre_parsed_lines[k], operands) {
                Ok(word) => word,
                Err(kind) => {
                    proof {
                        let failed = Run {
                            state: self@,
                            failure: Some(ParseError { line: k, kind }),
                        };
                        assert(first.second_pass((k + 1) as nat) == failed);
                        lemma_second_pass_stops(first, (k + 1) as nat, n as nat);
                    }
                    return Err(ParseError { line: k, kind });
                },
            };
            let ghost encoded = self@;
            self.machine_code.push(word);
            assert(self@ =~~= encoded.with_word(word));
            k = k + 1;
        }
        Ok(())
    }

    /// The name of the source file.
    pub fn file_name(&self) -> (name: &str)
        ensures
            name@ == self@.file_name,
    {
        self.file_name.as_str()
    }

    /// The index that the next instruction line will get: the number of
    /// instruction lines classified so far.
    pub fn next_index(&self) -> (index: usize)
        ensures
            index == self@.next_index,
    {
        self.next_index
    }

    /// The classified lines, in source order.
    pub fn pre_parsed_lines(&self) -> (lines: &Vec<PreParsedLine>)
        ensures
            lines@ == self@.pre_parsed_lines,
    {
        &self.pre_parsed_lines
    }

    /// The tokens of the lines kept for the second pass, in source order.
    pub fn tokenized_lines(&self) -> (lines: &Vec<Vec<String>>)
        ensures
            lines.deep_view() == self@.tokenized_lines,
    {
        &self.tokenized_lines
    }

    /// The outcome of the second pass for each line, in source order: its
    /// machine word, or `None` for a line that gives no output.
    pub fn machine_code(&self) -> (code: &Vec<Option<u32>>)
        ensures
            code@ == self@.machine_code,
    {
        &self.machine_code
    }

    /// The index that the label table holds for `name`, if it holds one.
    pub fn label_index(&self, name: &str) -> (index: Option<usize>)
        ensures
            index == if self@.labels.contains_key(name@) {
                Some(self@.labels[name@])
            } else {
                None
            },
    {
        match self.labels.get(name) {
            Some(index) => Some(*index),
            None => None,
        }
    }
}

} // verus!
