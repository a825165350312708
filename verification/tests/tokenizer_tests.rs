use riscv_asm::tokenizer::tokenize_line;

fn strings(tokens: &[&str]) -> Vec<String> {
    tokens.iter().map(|t| t.to_string()).collect()
}

#[test]
fn splits_on_spaces_and_commas() {
    assert_eq!(tokenize_line("add x1, x2, x3"), strings(&["add", "x1", "x2", "x3"]));
}

#[test]
fn splits_on_tabs_and_line_feeds() {
    assert_eq!(tokenize_line("\taddi\tx1,x0,5\n"), strings(&["addi", "x1", "x0", "5"]));
}

#[test]
fn brackets_are_tokens_of_their_own() {
    assert_eq!(tokenize_line("sw x5, 0x10(x2)"), strings(&["sw", "x5", "0x10", "(", "x2", ")"]));
}

#[test]
fn colon_is_a_token_of_its_own() {
    assert_eq!(tokenize_line("loop:"), strings(&["loop", ":"]));
    assert_eq!(tokenize_line("loop : addi"), strings(&["loop", ":", "addi"]));
}

#[test]
fn comment_is_dropped() {
    assert_eq!(tokenize_line("add x1, x2, x3 # sum"), strings(&["add", "x1", "x2", "x3"]));
    assert_eq!(tokenize_line("add x1#, x2"), strings(&["add", "x1"]));
}

#[test]
fn blank_and_comment_only_lines_have_no_tokens() {
    assert!(tokenize_line("").is_empty());
    assert!(tokenize_line("   \t , ").is_empty());
    assert!(tokenize_line("# only a comment").is_empty());
    assert!(tokenize_line("   # indented comment (with: marks)").is_empty());
}

#[test]
fn adjacent_punctuation_gives_no_empty_token() {
    assert_eq!(tokenize_line("()::"), strings(&["(", ")", ":", ":"]));
    for token in tokenize_line("lw  x1 ,, 4 ( sp ) ") {
        assert!(!token.is_empty());
    }
}

#[test]
fn other_characters_stay_in_words() {
    assert_eq!(tokenize_line("j\u{e9}sus -12 a.b"), strings(&["j\u{e9}sus", "-12", "a.b"]));
}
