use rulox::diag::Diagnostic;
use rulox::num::Num;
use rulox::scanner::Scanner;
use rulox::token::{get_token_type, Literal, Token, TokenType};

fn scan(src: &str) -> (Vec<Token>, Vec<Diagnostic>) {
    let mut scanner = Scanner::new(String::from(src));
    let tokens = scanner.scan_tokens();
    (tokens, scanner.diagnostics)
}

fn num(units: u64) -> Num {
    Num::Finite { neg: false, units }
}

#[test]
fn scan_one_plus_two() {
    let (tokens, diags) = scan("1+2");
    assert!(diags.is_empty());
    let kinds: Vec<TokenType> = tokens.into_iter().map(|t| t.token_type).collect();
    assert_eq!(
        kinds,
        vec![
            TokenType::Literal(Literal::Number(num(1_000_000))),
            TokenType::Plus,
            TokenType::Literal(Literal::Number(num(2_000_000))),
            TokenType::Eof,
        ]
    );
}

#[test]
fn scan_unexpected_character_reports_once_and_finishes() {
    let (tokens, diags) = scan("@");
    assert_eq!(diags.len(), 1);
    assert_eq!(
        diags[0],
        Diagnostic::Lex { line: 1, message: String::from("Unexpected character.") }
    );
    assert_eq!(tokens.len(), 1);
    assert_eq!(tokens[0].token_type, TokenType::Eof);
}

#[test]
fn scan_lone_dot_is_unexpected() {
    let (tokens, diags) = scan(".");
    assert_eq!(diags.len(), 1);
    assert!(matches!(&diags[0], Diagnostic::Lex { line: 1, .. }));
    assert_eq!(tokens.len(), 1);
}

#[test]
fn scan_two_character_operators_maximal_munch() {
    let (tokens, diags) = scan("<= < == = != ! >= >");
    assert!(diags.is_empty());
    let kinds: Vec<TokenType> = tokens.into_iter().map(|t| t.token_type).collect();
    assert_eq!(
        kinds,
        vec![
            TokenType::LessEqual,
            TokenType::Less,
            TokenType::EqualEqual,
            TokenType::Equal,
            TokenType::BangEqual,
            TokenType::Bang,
            TokenType::GreaterEqual,
            TokenType::Greater,
            TokenType::Eof,
        ]
    );
}

#[test]
fn scan_punctuation() {
    let (tokens, diags) = scan("(){},-+;*/");
    assert!(diags.is_empty());
    let kinds: Vec<TokenType> = tokens.into_iter().map(|t| t.token_type).collect();
    assert_eq!(
        kinds,
        vec![
            TokenType::LeftParen,
            TokenType::RightParen,
            TokenType::LeftBrace,
            TokenType::RightBrace,
            TokenType::Comma,
            TokenType::Minus,
            TokenType::Plus,
            TokenType::Semicolon,
            TokenType::Star,
            TokenType::Slash,
            TokenType::Eof,
        ]
    );
}

#[test]
fn scan_comment_runs_to_end_of_line() {
    let (tokens, diags) = scan("// a comment\n1;");
    assert!(diags.is_empty());
    assert_eq!(tokens.len(), 3);
    assert_eq!(
        tokens[0].token_type,
        TokenType::Literal(Literal::Number(num(1_000_000)))
    );
    assert_eq!(tokens[0].line, 2);
    assert_eq!(tokens[1].token_type, TokenType::Semicolon);
    assert_eq!(tokens[2].token_type, TokenType::Eof);
}

#[test]
fn scan_string_literal_keeps_content() {
    let (tokens, diags) = scan("\"hello world\"");
    assert!(diags.is_empty());
    assert_eq!(tokens.len(), 2);
    // The payload is the text between the delimiters; the lexeme is the
    // exact source substring, quotes included.
    assert_eq!(
        tokens[0].token_type,
        TokenType::Literal(Literal::Str(String::from("hello world")))
    );
    assert_eq!(tokens[0].lexeme, "\"hello world\"");
}

#[test]
fn scan_multiline_string_counts_lines() {
    let (tokens, diags) = scan("\"a\nb\"");
    assert!(diags.is_empty());
    assert_eq!(
        tokens[0].token_type,
        TokenType::Literal(Literal::Str(String::from("a\nb")))
    );
    assert_eq!(tokens[0].line, 2);
}

#[test]
fn scan_unterminated_string_is_an_error() {
    let (tokens, diags) = scan("\"abc");
    assert_eq!(diags.len(), 1);
    assert_eq!(
        diags[0],
        Diagnostic::Lex { line: 1, message: String::from("Unterminated string") }
    );
    assert_eq!(tokens.len(), 1);
    assert_eq!(tokens[0].token_type, TokenType::Eof);
}

#[test]
fn scan_number_with_fraction() {
    let (tokens, diags) = scan("12.25");
    assert!(diags.is_empty());
    assert_eq!(
        tokens[0].token_type,
        TokenType::Literal(Literal::Number(num(12_250_000)))
    );
    assert_eq!(tokens[0].lexeme, "12.25");
}

#[test]
fn scan_number_dot_without_digit_is_not_a_fraction() {
    // "7." scans the number 7 and then reports the dot.
    let (tokens, diags) = scan("7.");
    assert_eq!(diags.len(), 1);
    assert_eq!(tokens.len(), 2);
    assert_eq!(
        tokens[0].token_type,
        TokenType::Literal(Literal::Number(num(7_000_000)))
    );
    assert_eq!(tokens[0].lexeme, "7");
}

#[test]
fn scan_number_second_fraction_is_separate() {
    let (tokens, diags) = scan("1.5.3");
    assert_eq!(diags.len(), 1);
    assert_eq!(tokens.len(), 3);
    assert_eq!(
        tokens[0].token_type,
        TokenType::Literal(Literal::Number(num(1_500_000)))
    );
    assert_eq!(
        tokens[1].token_type,
        TokenType::Literal(Literal::Number(num(3_000_000)))
    );
}

#[test]
fn scan_keywords_and_identifiers() {
    let (tokens, diags) = scan("var print nil true false foo_1");
    assert!(diags.is_empty());
    let kinds: Vec<TokenType> = tokens.into_iter().map(|t| t.token_type).collect();
    assert_eq!(
        kinds,
        vec![
            TokenType::Var,
            TokenType::Print,
            TokenType::Nil,
            TokenType::True,
            TokenType::False,
            TokenType::Literal(Literal::Identifier(String::from("foo_1"))),
            TokenType::Eof,
        ]
    );
}

#[test]
fn scan_newlines_advance_the_line_counter() {
    let (tokens, diags) = scan("a\nb\n\nc");
    assert!(diags.is_empty());
    assert_eq!(tokens[0].line, 1);
    assert_eq!(tokens[1].line, 2);
    assert_eq!(tokens[2].line, 4);
    assert_eq!(tokens[3].line, 4);
}

#[test]
fn keyword_table_lookup() {
    assert_eq!(get_token_type(String::from("and")), TokenType::And);
    assert_eq!(get_token_type(String::from("while")), TokenType::While);
    assert_eq!(get_token_type(String::from("class")), TokenType::Class);
    assert_eq!(
        get_token_type(String::from("andrew")),
        TokenType::Literal(Literal::Identifier(String::from("andrew")))
    );
}
