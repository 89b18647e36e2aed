use cone::tokenize::{split_line, TokenizeError};

fn toks(line: &str) -> Vec<String> {
    split_line(line).expect("line should tokenize")
}

#[test]
fn plain_words_split_on_whitespace() {
    assert_eq!(toks("load -f a.csv"), vec!["load", "-f", "a.csv"]);
    assert_eq!(toks("  preview   -n  3 "), vec!["preview", "-n", "3"]);
    assert_eq!(toks(""), Vec::<String>::new());
    assert_eq!(toks("   \t "), Vec::<String>::new());
}

#[test]
fn double_quotes_group_one_token_preserving_the_space() {
    // The quoted segment is two characters longer than the token it yields.
    let tokens = toks("load -f \"my file.csv\"");
    assert_eq!(tokens, vec!["load", "-f", "my file.csv"]);
    assert_eq!(tokens[2].chars().count(), "\"my file.csv\"".chars().count() - 2);
}

#[test]
fn unmatched_double_quote_is_rejected_not_truncated() {
    assert_eq!(split_line("load -f \"my file.csv"), Err(TokenizeError::UnmatchedQuote));
}

#[test]
fn unmatched_single_quote_is_rejected() {
    assert_eq!(split_line("load 'oops"), Err(TokenizeError::UnmatchedQuote));
}

#[test]
fn single_quotes_are_literal() {
    assert_eq!(toks(r#"echo 'a \"b\" c'"#), vec!["echo", r#"a \"b\" c"#]);
}

#[test]
fn backslash_escapes_outside_quotes() {
    assert_eq!(toks(r"load my\ file.csv"), vec!["load", "my file.csv"]);
    assert_eq!(split_line("load x\\"), Err(TokenizeError::DanglingEscape));
}

#[test]
fn backslash_escapes_quote_and_backslash_inside_double_quotes() {
    assert_eq!(toks(r#"say "a \" b""#), vec!["say", "a \" b"]);
    assert_eq!(toks(r#"say "a \\ b""#), vec!["say", "a \\ b"]);
    assert_eq!(toks(r#"say "a \x b""#), vec!["say", "a \\x b"]);
}

#[test]
fn quoted_empty_string_is_a_token() {
    assert_eq!(toks("save \"\""), vec!["save", ""]);
}

#[test]
fn adjacent_quoting_concatenates_into_one_token() {
    assert_eq!(toks(r#"load ab"c d"e"#), vec!["load", "abc de"]);
}

#[test]
fn tokenize_error_messages_are_specific() {
    assert_eq!(TokenizeError::UnmatchedQuote.message(), "unmatched quote in input");
    assert_eq!(TokenizeError::DanglingEscape.message(), "trailing escape in input");
}
