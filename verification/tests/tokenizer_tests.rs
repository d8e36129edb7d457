use minishell::tokenizer::{parse_command, ParseError};

#[test]
fn parse_cd_single_token() {
    let tokens = parse_command("cd").unwrap();
    assert_eq!(tokens, vec!["cd".to_string()]);
}

#[test]
fn parse_cd_with_path() {
    let tokens = parse_command("cd /tmp").unwrap();
    assert_eq!(tokens, vec!["cd".to_string(), "/tmp".to_string()]);
}

#[test]
fn parse_cd_two_args_gives_three_tokens() {
    let tokens = parse_command("cd a b").unwrap();
    assert_eq!(tokens.len(), 3);
    assert_eq!(
        tokens,
        vec!["cd".to_string(), "a".to_string(), "b".to_string()]
    );
}

#[test]
fn parse_quoted_whitespace_is_one_token() {
    let tokens = parse_command("echo 'hello world'").unwrap();
    assert_eq!(tokens, vec!["echo".to_string(), "hello world".to_string()]);
}

#[test]
fn parse_adjacent_quotes_concatenate() {
    let tokens = parse_command("echo \"a\"'b'").unwrap();
    assert_eq!(tokens, vec!["echo".to_string(), "ab".to_string()]);
}

#[test]
fn parse_unterminated_quote_fails() {
    let r = parse_command("echo \"unterminated");
    assert_eq!(r, Err(ParseError::QuoteMismatch));
}

#[test]
fn parse_unterminated_single_quote_fails() {
    let r = parse_command("echo 'open");
    assert_eq!(r, Err(ParseError::QuoteMismatch));
}

#[test]
fn parse_empty_quotes_give_empty_token() {
    let tokens = parse_command("echo ''").unwrap();
    assert_eq!(tokens, vec!["echo".to_string(), "".to_string()]);
}

#[test]
fn parse_collapses_separator_runs() {
    let tokens = parse_command("a   b \t c").unwrap();
    assert_eq!(
        tokens,
        vec!["a".to_string(), "b".to_string(), "c".to_string()]
    );
}

#[test]
fn parse_rejoins_to_collapsed_line() {
    let tokens = parse_command("a   b  c").unwrap();
    assert_eq!(tokens.join(" "), "a b c");
}

#[test]
fn parse_empty_line_gives_one_empty_token() {
    let tokens = parse_command("").unwrap();
    assert_eq!(tokens, vec!["".to_string()]);
}

#[test]
fn parse_trailing_separator_emits_empty_token() {
    let tokens = parse_command("a ").unwrap();
    assert_eq!(tokens, vec!["a".to_string(), "".to_string()]);
}

#[test]
fn parse_quote_of_other_kind_is_ordinary() {
    let tokens = parse_command("echo \"it's\"").unwrap();
    assert_eq!(tokens, vec!["echo".to_string(), "it's".to_string()]);
}

#[test]
fn parse_quotes_join_surrounding_text() {
    let tokens = parse_command("pre'mid'post").unwrap();
    assert_eq!(tokens, vec!["premidpost".to_string()]);
}
