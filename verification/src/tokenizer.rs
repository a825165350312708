//! The line tokenizer: one line of source text becomes its sequence of tokens.

use vstd::prelude::*;
use vstd::std_specs::iter::IteratorSpec;
use vstd::string::StrSliceExecFns;

verus! {

/// Characters that end a token and are themselves dropped.
pub open spec fn is_separator(c: char) -> bool {
    c == ' ' || c == '\t' || c == ',' || c == '\n'
}

/// Characters that end a token and are tokens of their own.
pub open spec fn is_punctuation(c: char) -> bool {
    c == ':' || c == '(' || c == ')'
}

/// The character that starts a comment.
pub open spec fn is_comment_start(c: char) -> bool {
    c == '#'
}

/// Characters that make up words: everything else.
pub open spec fn is_word_char(c: char) -> bool {
    !is_separator(c) && !is_punctuation(c) && !is_comment_start(c)
}

/// Whether every character of `s` is a word character.
pub open spec fn is_word(s: Seq<char>) -> bool {
    forall|i: int| 0 <= i < s.len() ==> is_word_char(#[trigger] s[i])
}

/// The token that a pending word gives when it ends: none if it is empty.
pub open spec fn flushed(word: Seq<char>) -> Seq<Seq<char>> {
    if word.len() == 0 {
        Seq::empty()
    } else {
        seq![word]
    }
}

/// The tokens of `rest` when the word characters `word` have just been read
/// and no token has ended since.
pub open spec fn scan(rest: Seq<char>, word: Seq<char>) -> Seq<Seq<char>>
    decreases rest.len(),
{
    if rest.len() == 0 || is_comment_start(rest[0]) {
        flushed(word)
    } else if is_separator(rest[0]) {
        flushed(word) + scan(rest.skip(1), Seq::empty())
    } else if is_punctuation(rest[0]) {
        flushed(word) + seq![seq![rest[0]]] + scan(rest.skip(1), Seq::empty())
    } else {
        scan(rest.skip(1), word.push(rest[0]))
    }
}

/// The tokens of one line of source text.
///
/// A comment runs from the first `#` to the end of the line and gives no
/// token. Before it, separators split the text into words, and each of `:`,
/// `(` and `)` is a token by itself.
pub open spec fn tokens_of(line: Seq<char>) -> Seq<Seq<char>> {
    scan(line, Seq::empty())
}

/// A line that holds nothing but separators before its end or its comment.
pub open spec fn is_blank(line: Seq<char>) -> bool
    decreases line.len(),
{
    line.len() == 0 || is_comment_start(line[0]) || (is_separator(line[0]) && is_blank(
        line.skip(1),
    ))
}

/// What every token is: one punctuation character, or a word that is not
/// empty.
pub open spec fn is_token(t: Seq<char>) -> bool {
    t.len() > 0 && (is_word(t) || (t.len() == 1 && is_punctuation(t[0])))
}

proof fn lemma_scan_gives_tokens(rest: Seq<char>, word: Seq<char>)
    requires
        is_word(word),
    ensures
        forall|i: int| 0 <= i < scan(rest, word).len() ==> is_token(#[trigger] scan(rest, word)[i]),
        word.len() > 0 ==> scan(rest, word).len() > 0,
    decreases rest.len(),
{
    let out = scan(rest, word);
    let head = flushed(word);
    if rest.len() == 0 || is_comment_start(rest[0]) {
    } else if is_separator(rest[0]) {
        let tail = scan(rest.skip(1), Seq::empty());
        lemma_scan_gives_tokens(rest.skip(1), Seq::empty());
        assert forall|i: int| 0 <= i < out.len() implies is_token(#[trigger] out[i]) by {
            if i >= head.len() {
                assert(out[i] == tail[i - head.len()]);
            }
        }
    } else if is_punctuation(rest[0]) {
        let tail = scan(rest.skip(1), Seq::empty());
        lemma_scan_gives_tokens(rest.skip(1), Seq::empty());
        assert forall|i: int| 0 <= i < out.len() implies is_token(#[trigger] out[i]) by {
            if i < head.len() {
            } else if i == head.len() {
                assert(out[i] == seq![rest[0]]);
            } else {
                assert(out[i] == tail[i - head.len() - 1]);
            }
        }
    } else {
        lemma_scan_gives_tokens(rest.skip(1), word.push(rest[0]));
    }
}

/// No token is empty, and none holds a separator or the start of a comment:
/// each is one punctuation character or a run of word characters.
pub proof fn lemma_tokens_are_well_formed(line: Seq<char>)
    ensures
        forall|i: int| 0 <= i < tokens_of(line).len() ==> is_token(#[trigger] tokens_of(line)[i]),
{
    lemma_scan_gives_tokens(line, Seq::empty());
}

/// A line gives no token exactly when it is blank: when nothing but
/// separators stands before its end or before its comment.
pub proof fn lemma_blank_lines_have_no_tokens(line: Seq<char>)
    ensures
        is_blank(line) <==> tokens_of(line).len() == 0,
    decreases line.len(),
{
    if line.len() == 0 || is_comment_start(line[0]) {
    } else if is_separator(line[0]) {
        lemma_blank_lines_have_no_tokens(line.skip(1));
    } else if is_punctuation(line[0]) {
    } else {
        lemma_scan_gives_tokens(line.skip(1), Seq::<char>::empty().push(line[0]));
    }
}

proof fn lemma_scan_word(rest: Seq<char>, word: Seq<char>)
    requires
        is_word(rest),
    ensures
        scan(rest, word) == flushed(word + rest),
    decreases rest.len(),
{
    if rest.len() == 0 {
        assert(word + rest == word);
    } else {
        assert(is_word_char(rest[0]));
        assert(is_word(rest.skip(1))) by {
            assert forall|i: int| 0 <= i < rest.skip(1).len() implies is_word_char(
                #[trigger] rest.skip(1)[i],
            ) by {
                assert(rest.skip(1)[i] == rest[i + 1]);
            }
        }
        lemma_scan_word(rest.skip(1), word.push(rest[0]));
        assert(word.push(rest[0]) + rest.skip(1) == word + rest);
    }
}

/// A word that is not empty is one token: itself.
pub proof fn lemma_word_is_one_token(word: Seq<char>)
    requires
        is_word(word),
        word.len() > 0,
    ensures
        tokens_of(word) == seq![word],
{
    lemma_scan_word(word, Seq::empty());
    assert(Seq::<char>::empty() + word == word);
}

proof fn lemma_scan_split(left: Seq<char>, separator: char, right: Seq<char>, word: Seq<char>)
    requires
        is_separator(separator),
        forall|i: int| 0 <= i < left.len() ==> !is_comment_start(#[trigger] left[i]),
    ensures
        scan(left + seq![separator] + right, word) == scan(left, word) + tokens_of(right),
    decreases left.len(),
{
    let line = left + seq![separator] + right;
    if left.len() == 0 {
        assert(line[0] == separator);
        assert(line.skip(1) == right);
    } else {
        assert(line[0] == left[0]);
        assert(line.skip(1) == left.skip(1) + seq![separator] + right);
        assert forall|i: int| 0 <= i < left.skip(1).len() implies !is_comment_start(
            #[trigger] left.skip(1)[i],
        ) by {
            assert(left.skip(1)[i] == left[i + 1]);
        }
        if is_separator(left[0]) {
            lemma_scan_split(left.skip(1), separator, right, Seq::empty());
            assert(flushed(word) + (scan(left.skip(1), Seq::empty()) + tokens_of(right)) == flushed(
                word,
            ) + scan(left.skip(1), Seq::empty()) + tokens_of(right));
        } else if is_punctuation(left[0]) {
            lemma_scan_split(left.skip(1), separator, right, Seq::empty());
            assert(flushed(word) + seq![seq![left[0]]] + (scan(left.skip(1), Seq::empty())
                + tokens_of(right)) == flushed(word) + seq![seq![left[0]]] + scan(
                left.skip(1),
                Seq::empty(),
            ) + tokens_of(right));
        } else {
            lemma_scan_split(left.skip(1), separator, right, word.push(left[0]));
        }
    }
}

/// A separator splits a line into two parts that are tokenized apart: if
/// no comment starts in the left part, the tokens of the line are those of
/// the left part followed by those of the right part.
pub proof fn lemma_separator_splits_line(left: Seq<char>, separator: char, right: Seq<char>)
    requires
        is_separator(separator),
        forall|i: int| 0 <= i < left.len() ==> !is_comment_start(#[trigger] left[i]),
    ensures
        tokens_of(left + seq![separator] + right) == tokens_of(left) + tokens_of(right),
{
    lemma_scan_split(left, separator, right, Seq::empty());
}

proof fn lemma_scan_comment(code: Seq<char>, comment: Seq<char>, word: Seq<char>)
    requires
        forall|i: int| 0 <= i < code.len() ==> !is_comment_start(#[trigger] code[i]),
    ensures
        scan(code + seq!['#'] + comment, word) == scan(code, word),
    decreases code.len(),
{
    let line = code + seq!['#'] + comment;
    if code.len() == 0 {
        assert(line[0] == '#');
    } else {
        assert(line[0] == code[0]);
        assert(line.skip(1) == code.skip(1) + seq!['#'] + comment);
        assert forall|i: int| 0 <= i < code.skip(1).len() implies !is_comment_start(
            #[trigger] code.skip(1)[i],
        ) by {
            assert(code.skip(1)[i] == code[i + 1]);
        }
        if is_separator(code[0]) || is_punctuation(code[0]) {
            lemma_scan_comment(code.skip(1), comment, Seq::empty());
        } else {
            lemma_scan_comment(code.skip(1), comment, word.push(code[0]));
        }
    }
}

/// Nothing after the start of a comment gives a token: the tokens of a
/// line are those of the text before its first `#`.
pub proof fn lemma_comment_is_dropped(code: Seq<char>, comment: Seq<char>)
    requires
        forall|i: int| 0 <= i < code.len() ==> !is_comment_start(#[trigger] code[i]),
    ensures
        tokens_of(code + seq!['#'] + comment) == tokens_of(code),
{
    lemma_scan_comment(code, comment, Seq::empty());
}

/// Moves the word that stands between the positions `start` and `end` of
/// the line, if it is not empty, to the end of `tokens`.
fn flush(tokens: &mut Vec<String>, line: &str, start: usize, end: usize)
    requires
        start <= end <= line@.len(),
    ensures
        final(tokens).deep_view() == old(tokens).deep_view() + flushed(
            line@.subrange(start as int, end as int),
        ),
{
    if start < end {
        tokens.push(line.substring_char(start, end).to_owned());
    }
    assert(tokens.deep_view() =~= old(tokens).deep_view() + flushed(
        line@.subrange(start as int, end as int),
    ));
}

/// Splits one line of source text into its tokens.
pub fn tokenize_line(line: &str) -> (tokens: Vec<String>)
    ensures
        tokens.deep_view() == tokens_of(line@),
{
    let mut tokens: Vec<String> = Vec::new();
    let length = line.unicode_len();
    let mut chars = line.chars();
    // The pending word runs from `start` up to the position `i` of the
    // next character.
    let mut start: usize = 0;
    let mut i: usize = 0;
    assert(tokens.deep_view() =~= Seq::<Seq<char>>::empty());
    assert(line@.skip(0) =~= line@);
    assert(line@.subrange(0, 0) =~= Seq::<char>::empty());
    loop
        invariant
            start <= i <= length == line@.len(),
            chars.remaining() == line@.skip(i as int),
            tokens_of(line@) == tokens.deep_view() + scan(
                line@.skip(i as int),
                line@.subrange(start as int, i as int),
            ),
        decreases length - i,
    {
        let ghost rest = line@.skip(i as int);
        let ghost word = line@.subrange(start as int, i as int);
        let ghost done = tokens.deep_view();
        let ghost tail = scan(rest.skip(1), Seq::empty());
        match chars.next() {
            None => {
                flush(&mut tokens, line, start, i);
                return tokens;
            },
            Some(c) => {
                assert(rest.skip(1) =~= line@.skip(i + 1));
                assert(line@.subrange(i + 1, i + 1) =~= Seq::<char>::empty());
                if c == '#' {
                    flush(&mut tokens, line, start, i);
                    return tokens;
                } else if c == ' ' || c == '\t' || c == ',' || c == '\n' {
                    flush(&mut tokens, line, start, i);
                    start = i + 1;
                    assert(tokens.deep_view() + tail =~= done + (flushed(word) + tail));
                } else if c == ':' || c == '(' || c == ')' {
                    flush(&mut tokens, line, start, i);
                    let ghost before = tokens.deep_view();
                    tokens.push(line.substring_char(i, i + 1).to_owned());
                    start = i + 1;
                    assert(line@.subrange(i as int, i + 1) =~= seq![c]);
                    assert(tokens.deep_view() =~= before + seq![seq![c]]);
                    assert(tokens.deep_view() + tail =~= done + (flushed(word) + seq![seq![c]]
                        + tail));
                } else {
                    assert(line@.subrange(start as int, i + 1) =~= word.push(c));
                }
                i = i + 1;
            },
        }
    }
}

} // verus!
