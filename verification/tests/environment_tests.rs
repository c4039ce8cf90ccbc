use rulox::diag::{error, error_token, runtime_error, Diagnostic};
use rulox::environment::Environment;
use rulox::num::Num;
use rulox::token::{Literal, Token, TokenType};
use rulox::value::Value;

fn name_token(name: &str) -> Token {
    Token {
        token_type: TokenType::Literal(Literal::Identifier(String::from(name))),
        lexeme: String::from(name),
        line: 1,
    }
}

fn num(units: u64) -> Value {
    Value::Num(Num::Finite { neg: false, units })
}

#[test]
fn get_before_define_fails() {
    let mut env = Environment::new();
    let err = env.get_var(&name_token("x")).unwrap_err();
    assert_eq!(err.message, "Undefined variable 'x'.");
    assert_eq!(err.name.lexeme, "x");
}

#[test]
fn define_then_get() {
    let mut env = Environment::new();
    env.define_var(String::from("x"), num(1_000_000));
    assert_eq!(env.get_var(&name_token("x")).unwrap(), num(1_000_000));
}

#[test]
fn define_overwrites() {
    let mut env = Environment::new();
    env.define_var(String::from("x"), num(1_000_000));
    env.define_var(String::from("x"), Value::Bool(true));
    assert_eq!(env.get_var(&name_token("x")).unwrap(), Value::Bool(true));
}

#[test]
fn assign_needs_a_binding() {
    let mut env = Environment::new();
    let err = env.assign(name_token("y"), Value::Nil).unwrap_err();
    assert_eq!(err.message, "Undefined variable 'y'.");
    env.define_var(String::from("y"), Value::Nil);
    assert!(env.assign(name_token("y"), num(2_000_000)).is_ok());
    assert_eq!(env.get_var(&name_token("y")).unwrap(), num(2_000_000));
}

#[test]
fn bindings_are_independent() {
    let mut env = Environment::new();
    env.define_var(String::from("a"), num(1));
    env.define_var(String::from("b"), num(2));
    env.assign(name_token("a"), num(3)).unwrap();
    assert_eq!(env.get_var(&name_token("a")).unwrap(), num(3));
    assert_eq!(env.get_var(&name_token("b")).unwrap(), num(2));
}

#[test]
fn lex_error_renders() {
    let d = error(3, String::from("Unexpected character."));
    assert_eq!(d.render(), "[line 3] Error: Unexpected character.");
}

#[test]
fn parse_error_renders_with_lexeme() {
    let tok = Token { token_type: TokenType::Plus, lexeme: String::from("+"), line: 12 };
    let d = error_token(&tok, String::from("Expect expression."));
    assert_eq!(d.render(), "[line 12] Error at '+': Expect expression.");
}

#[test]
fn parse_error_at_end_renders() {
    let tok = Token { token_type: TokenType::Eof, lexeme: String::new(), line: 2 };
    let d = error_token(&tok, String::from("Expected ';' after value."));
    assert_eq!(d.render(), "[line 2] Error at end: Expected ';' after value.");
}

#[test]
fn runtime_error_renders() {
    let tok = name_token("x");
    let d = runtime_error(&tok, String::from("Undefined variable 'x'."));
    assert_eq!(d.render(), "[line 1]: Undefined variable 'x'.");
    assert!(matches!(d, Diagnostic::Runtime { .. }));
}

#[test]
fn display_forms_of_values() {
    assert_eq!(Value::Str(String::from("hi")).to_display_string(), "hi");
    assert_eq!(Value::Bool(true).to_display_string(), "true");
    assert_eq!(Value::Bool(false).to_display_string(), "false");
    assert_eq!(Value::Nil.to_display_string(), "nil");
    assert_eq!(num(1_000_000).to_display_string(), "1");
}
