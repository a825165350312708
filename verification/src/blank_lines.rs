//! Blank lines and the two passes: a blank line, wherever it is put into a
//! source, takes no index, moves no label and adds nothing to the hex text.

use crate::encoder::line_outcome;
use crate::output::{hex_line_of, hex_text_of};
use crate::error::SyntaxError;
use crate::parser::{lemma_second_pass_keeps, operands_of, ParserView, PreParsedLine, Run};
use crate::tokenizer::{is_blank, lemma_blank_lines_have_no_tokens, tokens_of};
use vstd::prelude::*;

verus! {

/// A blank line in each step of a run: a line that holds nothing but
/// separators before its end or its comment is classified as empty, takes
/// no index and defines no label, whatever the state; it encodes to no
/// word, whatever the label table; and a line without a word adds nothing
/// to the hex text.
pub proof fn lemma_blank_line_is_passed_over(
    state: ParserView,
    line: Seq<char>,
    code: Seq<Option<u32>>,
)
    requires
        is_blank(line),
    ensures
        state.pre_parsed(tokens_of(line)) == Ok::<ParserView, SyntaxError>(
            state.with_line(PreParsedLine::Empty),
        ),
        state.with_line(PreParsedLine::Empty).next_index == state.next_index,
        state.with_line(PreParsedLine::Empty).labels == state.labels,
        line_outcome(state.labels, PreParsedLine::Empty, operands_of(tokens_of(line))) == Ok::<
            Option<u32>,
            SyntaxError,
        >(None),
        hex_text_of(code.push(None)) == hex_text_of(code),
{
    lemma_blank_lines_have_no_tokens(line);
    assert(code.push(None).drop_last() == code);
}

/// The state with one more line, classified as empty and kept without
/// tokens, at position `at` among the lines.
pub open spec fn with_blank_at(state: ParserView, at: int) -> ParserView {
    ParserView {
        pre_parsed_lines: state.pre_parsed_lines.insert(at, PreParsedLine::Empty),
        tokenized_lines: state.tokenized_lines.insert(at, Seq::empty()),
        ..state
    }
}

/// Whether two runs agree on whether they failed and on the kind of the
/// failure.
pub open spec fn fail_alike(a: Run, b: Run) -> bool {
    &&& a.failure is None <==> b.failure is None
    &&& a.failure is Some ==> a.failure->0.kind == b.failure->0.kind
}

/// Whether two runs end alike in all that an assembly gives: they fail
/// alike, and if they did not fail they hold the same label table, the
/// same next index and machine code with the same hex text.
pub open spec fn end_alike(a: Run, b: Run) -> bool {
    &&& fail_alike(a, b)
    &&& a.failure is None ==> {
        &&& a.state.labels == b.state.labels
        &&& a.state.next_index == b.state.next_index
        &&& hex_text_of(a.state.machine_code) == hex_text_of(b.state.machine_code)
    }
}

proof fn lemma_first_pass_grows(start: ParserView, lines: Seq<Seq<char>>)
    requires
        start.first_pass(lines).failure is None,
    ensures
        start.first_pass(lines).state.pre_parsed_lines.len() == start.pre_parsed_lines.len()
            + lines.len(),
        start.first_pass(lines).state.tokenized_lines.len() == start.tokenized_lines.len()
            + lines.len(),
        start.first_pass(lines).state.machine_code == start.machine_code,
    decreases lines.len(),
{
    if lines.len() > 0 {
        lemma_first_pass_grows(start, lines.drop_last());
    }
}

proof fn lemma_first_pass_with_blank(
    start: ParserView,
    lines: Seq<Seq<char>>,
    at: int,
    blank: Seq<char>,
    n: int,
)
    requires
        is_blank(blank),
        0 <= at < n <= lines.len() + 1,
        start.pre_parsed_lines.len() == start.tokenized_lines.len(),
    ensures
        fail_alike(
            start.first_pass(lines.take(n - 1)),
            start.first_pass(lines.insert(at, blank).take(n)),
        ),
        start.first_pass(lines.take(n - 1)).failure is None ==> start.first_pass(
            lines.insert(at, blank).take(n),
        ).state == with_blank_at(
            start.first_pass(lines.take(n - 1)).state,
            start.tokenized_lines.len() + at,
        ),
    decreases n,
{
    let longer = lines.insert(at, blank);
    let place = start.tokenized_lines.len() + at;
    assert(longer.take(n).drop_last() == longer.take(n - 1));
    if n == at + 1 {
        let before = start.first_pass(lines.take(at));
        assert(longer.take(at) == lines.take(at));
        assert(longer.take(n).last() == blank);
        lemma_blank_lines_have_no_tokens(blank);
        assert(tokens_of(blank) == Seq::<Seq<char>>::empty());
        if before.failure is None {
            lemma_first_pass_grows(start, lines.take(at));
            let after = before.state.with_line(PreParsedLine::Empty).with_tokens(Seq::empty());
            assert(after =~~= with_blank_at(before.state, place));
        }
    } else {
        lemma_first_pass_with_blank(start, lines, at, blank, n - 1);
        let before = start.first_pass(lines.take(n - 2));
        assert(lines.take(n - 1).drop_last() == lines.take(n - 2));
        assert(lines.take(n - 1).last() == lines[n - 2]);
        assert(longer.take(n).last() == lines[n - 2]);
        if before.failure is None {
            lemma_first_pass_grows(start, lines.take(n - 2));
            let tokens = tokens_of(lines[n - 2]);
            let padded = with_blank_at(before.state, place);
            match before.state.pre_parsed(tokens) {
                Ok(next) => {
                    assert(padded.pre_parsed(tokens) is Ok);
                    assert(padded.pre_parsed(tokens)->Ok_0.with_tokens(tokens) =~~= with_blank_at(
                        next.with_tokens(tokens),
                        place,
                    ));
                },
                Err(kind) => {
                    assert(padded.pre_parsed(tokens) == Err::<ParserView, _>(kind));
                },
            }
        }
    }
}

proof fn lemma_hex_text_push(code: Seq<Option<u32>>, word: Option<u32>)
    ensures
        hex_text_of(code.push(word)) == hex_text_of(code) + match word {
            Some(w) => hex_line_of(w),
            None => Seq::empty(),
        },
{
    assert(code.push(word).drop_last() == code);
}

proof fn lemma_second_pass_with_blank(state: ParserView, at: int, n: nat)
    requires
        0 <= at <= state.pre_parsed_lines.len(),
        state.pre_parsed_lines.len() == state.tokenized_lines.len(),
        n <= state.pre_parsed_lines.len() + 1,
    ensures
        end_alike(
            state.second_pass(
                if n <= at {
                    n
                } else {
                    (n - 1) as nat
                },
            ),
            with_blank_at(state, at).second_pass(n),
        ),
    decreases n,
{
    let padded = with_blank_at(state, at);
    if n > 0 {
        let m = (n - 1) as nat;
        lemma_second_pass_with_blank(state, at, m);
        lemma_second_pass_keeps(state, m);
        lemma_second_pass_keeps(padded, m);
        let mine = padded.second_pass(m);
        if mine.failure is None {
            if n <= at {
                let theirs = state.second_pass(m);
                assert(padded.pre_parsed_lines[n - 1] == state.pre_parsed_lines[n - 1]);
                assert(padded.tokenized_lines[n - 1] == state.tokenized_lines[n - 1]);
                let outcome = line_outcome(
                    state.labels,
                    state.pre_parsed_lines[n - 1],
                    operands_of(state.tokenized_lines[n - 1]),
                );
                if let Ok(word) = outcome {
                    lemma_hex_text_push(mine.state.machine_code, word);
                    lemma_hex_text_push(theirs.state.machine_code, word);
                }
            } else if n == at + 1 {
                assert(padded.pre_parsed_lines[at] == PreParsedLine::Empty);
                lemma_hex_text_push(mine.state.machine_code, None);
                assert(hex_text_of(mine.state.machine_code) + Seq::<char>::empty() =~= hex_text_of(
                    mine.state.machine_code,
                ));
            } else {
                let theirs = state.second_pass((m - 1) as nat);
                lemma_second_pass_keeps(state, (m - 1) as nat);
                assert(padded.pre_parsed_lines[n - 1] == state.pre_parsed_lines[n - 2]);
                assert(padded.tokenized_lines[n - 1] == state.tokenized_lines[n - 2]);
                let outcome = line_outcome(
                    state.labels,
                    state.pre_parsed_lines[n - 2],
                    operands_of(state.tokenized_lines[n - 2]),
                );
                if let Ok(word) = outcome {
                    lemma_hex_text_push(mine.state.machine_code, word);
                    lemma_hex_text_push(theirs.state.machine_code, word);
                }
            }
        }
    }
}

/// A blank line, wherever it is put into a source, leaves no trace.
///
/// Take any source and put a line that holds nothing but separators before
/// its end or its comment at any place in it. Assembled from a state in
/// which every classified line is kept, the two sources fail alike, with
/// the same kind of failure; and if they do not fail, they give the same
/// label table, count the same number of instructions and give the same
/// hex text.
pub proof fn lemma_blank_line_changes_nothing(
    start: ParserView,
    lines: Seq<Seq<char>>,
    at: int,
    blank: Seq<char>,
)
    requires
        is_blank(blank),
        0 <= at <= lines.len(),
        start.pre_parsed_lines.len() == start.tokenized_lines.len(),
    ensures
        end_alike(start.parsed(lines), start.parsed(lines.insert(at, blank))),
{
    let longer = lines.insert(at, blank);
    let place = start.tokenized_lines.len() + at;
    assert(lines.take(lines.len() as int) == lines);
    assert(longer.take(longer.len() as int) == longer);
    lemma_first_pass_with_blank(start, lines, at, blank, lines.len() as int + 1);
    let first = start.first_pass(lines);
    if first.failure is None {
        lemma_first_pass_grows(start, lines);
        let padded = with_blank_at(first.state, place);
        assert(padded.paired_lines() == first.state.paired_lines() + 1);
        lemma_second_pass_with_blank(first.state, place, padded.paired_lines());
    }
}

} // verus!
