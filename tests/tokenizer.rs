use minishell::token::{CommandLineToken, CommandLineTokenType};
use minishell::tokenizer::{tokenize, Tokenizer};

fn shape(tokens: &[CommandLineToken]) -> Vec<(CommandLineTokenType, String)> {
    tokens.iter().map(|t| (t.class, t.lexeme.clone())).collect()
}

fn arg(s: &str) -> (CommandLineTokenType, String) {
    (CommandLineTokenType::Argument, s.to_string())
}

fn op(class: CommandLineTokenType, s: &str) -> (CommandLineTokenType, String) {
    (class, s.to_string())
}

#[test]
fn tokenize_and_operator() {
    let t = tokenize("echo hi && echo bye\n");
    assert_eq!(
        shape(&t),
        vec![
            arg("echo"),
            arg("hi"),
            op(CommandLineTokenType::AndOp, "&&"),
            arg("echo"),
            arg("bye"),
            op(CommandLineTokenType::EOL, "\n"),
        ]
    );
}

#[test]
fn tokenize_single_ampersand() {
    let t = tokenize("a & b\n");
    assert_eq!(
        shape(&t),
        vec![
            arg("a"),
            op(CommandLineTokenType::Ampersand, "&"),
            arg("b"),
            op(CommandLineTokenType::EOL, "\n"),
        ]
    );
}

#[test]
fn operator_at_end_of_line_continues() {
    let mut tz = Tokenizer::new();
    assert!(!tz.feed("a &&\n"));
    assert!(!tz.is_complete());
    assert!(tz.feed(" b\n"));
    let t = tz.finish();
    assert_eq!(
        shape(&t),
        vec![
            arg("a"),
            op(CommandLineTokenType::AndOp, "&&"),
            arg("b"),
            op(CommandLineTokenType::EOL, "\n"),
        ]
    );
    let eols = t.iter().filter(|x| x.class == CommandLineTokenType::EOL).count();
    assert_eq!(eols, 1);
}

#[test]
fn operator_spanning_lines_in_one_text() {
    let t = tokenize("a &&\n b\n");
    assert_eq!(
        shape(&t),
        vec![
            arg("a"),
            op(CommandLineTokenType::AndOp, "&&"),
            arg("b"),
            op(CommandLineTokenType::EOL, "\n"),
        ]
    );
}

#[test]
fn pipe_at_end_of_line_continues() {
    let mut tz = Tokenizer::new();
    assert!(!tz.feed("a |\n"));
    assert!(tz.feed("b\n"));
    let t = tz.finish();
    assert_eq!(
        shape(&t),
        vec![arg("a"), op(CommandLineTokenType::Pipe, "|"), arg("b"), op(CommandLineTokenType::EOL, "\n")]
    );
}

#[test]
fn or_operator_and_pipe() {
    let t = tokenize("a||b|c\n");
    assert_eq!(
        shape(&t),
        vec![
            arg("a"),
            op(CommandLineTokenType::OrOp, "||"),
            arg("b"),
            op(CommandLineTokenType::Pipe, "|"),
            arg("c"),
            op(CommandLineTokenType::EOL, "\n"),
        ]
    );
}

#[test]
fn separators_and_parentheses() {
    let t = tokenize("(a;b)\n");
    assert_eq!(
        shape(&t),
        vec![
            op(CommandLineTokenType::OpenParen, "("),
            arg("a"),
            op(CommandLineTokenType::Semicolon, ";"),
            arg("b"),
            op(CommandLineTokenType::CloseParen, ")"),
            op(CommandLineTokenType::EOL, "\n"),
        ]
    );
}

#[test]
fn empty_input_is_end_of_input() {
    assert!(tokenize("").is_empty());
}

#[test]
fn empty_line_is_an_empty_statement() {
    let t = tokenize("\n");
    assert_eq!(shape(&t), vec![op(CommandLineTokenType::EOL, "\n")]);
}

#[test]
fn backslash_escapes_a_character() {
    let t = tokenize("a\\ b\\&c\n");
    assert_eq!(shape(&t), vec![arg("a b&c"), op(CommandLineTokenType::EOL, "\n")]);
}

#[test]
fn backslash_newline_joins_lines() {
    let mut tz = Tokenizer::new();
    assert!(!tz.feed("ab\\\n"));
    assert!(tz.feed("cd\n"));
    let t = tz.finish();
    assert_eq!(shape(&t), vec![arg("abcd"), op(CommandLineTokenType::EOL, "\n")]);
}

#[test]
fn input_after_statement_is_ignored() {
    let t = tokenize("a\nb\n");
    assert_eq!(shape(&t), vec![arg("a"), op(CommandLineTokenType::EOL, "\n")]);
}

#[test]
fn end_of_input_closes_statement() {
    let t = tokenize("echo hi");
    assert_eq!(shape(&t), vec![arg("echo"), arg("hi"), op(CommandLineTokenType::EOL, "\n")]);
    let t = tokenize("a &");
    assert_eq!(
        shape(&t),
        vec![arg("a"), op(CommandLineTokenType::Ampersand, "&"), op(CommandLineTokenType::EOL, "\n")]
    );
}

#[test]
fn tabs_and_unicode_spaces_separate() {
    let t = tokenize("a\tb\u{3000}c\n");
    assert_eq!(shape(&t), vec![arg("a"), arg("b"), arg("c"), op(CommandLineTokenType::EOL, "\n")]);
}

#[test]
fn token_constructors() {
    assert_eq!(CommandLineToken::eol().lexeme, "\n");
    assert_eq!(CommandLineToken::semicolon().lexeme, ";");
    assert_eq!(CommandLineToken::and_op().lexeme, "&&");
    assert_eq!(CommandLineToken::or_op().lexeme, "||");
    assert_eq!(CommandLineToken::ampersand().lexeme, "&");
    assert_eq!(CommandLineToken::pipe().lexeme, "|");
    assert_eq!(CommandLineToken::open_paren().lexeme, "(");
    assert_eq!(CommandLineToken::close_paren().lexeme, ")");
    let a = CommandLineToken::argument("x".to_string());
    assert_eq!(a.class, CommandLineTokenType::Argument);
    assert_eq!(a.lexeme, "x");
}

#[test]
fn should_continue_only_after_binary_operators() {
    assert!(CommandLineToken::and_op().should_continue());
    assert!(CommandLineToken::or_op().should_continue());
    assert!(CommandLineToken::pipe().should_continue());
    assert!(!CommandLineToken::ampersand().should_continue());
    assert!(!CommandLineToken::semicolon().should_continue());
    assert!(!CommandLineToken::argument("a".to_string()).should_continue());
}
