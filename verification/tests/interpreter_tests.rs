use rulox::ast::{Binary, Expr, Expression, Literal as LiteralExpr, Stmt, Unary};
use rulox::diag::{exit_code, Diagnostic};
use rulox::environment::Environment;
use rulox::interpreter::{Interpreter, RunEvent};
use rulox::num::Num;
use rulox::scan_and_parse;
use rulox::token::{Literal, Token, TokenType};

fn run(src: &str) -> (Vec<RunEvent>, Vec<Diagnostic>) {
    let (stmts, diags) = scan_and_parse(src);
    let mut interp = Interpreter::new(Environment::new());
    let events = interp.interpret(&stmts);
    (events, diags)
}

/// Runs a program and returns (printed lines, all diagnostics: static
/// first, then runtime ones in order).
fn run_collect(src: &str) -> (Vec<String>, Vec<Diagnostic>) {
    let (events, mut diags) = run(src);
    let mut out = Vec::new();
    for ev in events {
        match ev {
            RunEvent::Output(s) => out.push(s),
            RunEvent::Error(d) => diags.push(d),
        }
    }
    (out, diags)
}

fn outputs(src: &str) -> Vec<String> {
    let (out, diags) = run_collect(src);
    assert!(diags.is_empty(), "unexpected diagnostics: {:?}", diags);
    out
}

#[test]
fn print_strips_trailing_point_zero() {
    assert_eq!(outputs("print 1.0;"), vec!["1"]);
    assert_eq!(outputs("print 1.5;"), vec!["1.5"]);
}

#[test]
fn print_number_forms() {
    assert_eq!(outputs("print 0;"), vec!["0"]);
    assert_eq!(outputs("print 0.25;"), vec!["0.25"]);
    assert_eq!(outputs("print 12.100;"), vec!["12.1"]);
    assert_eq!(outputs("print 0.000001;"), vec!["0.000001"]);
    assert_eq!(outputs("print -3.5;"), vec!["-3.5"]);
}

#[test]
fn string_concatenation() {
    assert_eq!(outputs("print \"a\" + \"b\";"), vec!["ab"]);
}

#[test]
fn adding_number_and_string_is_a_runtime_error() {
    let (events, diags) = run("print 1 + \"a\";");
    assert!(diags.is_empty());
    assert_eq!(events.len(), 1);
    match &events[0] {
        RunEvent::Error(d) => {
            assert_eq!(d.render(), "[line 1]: Invalid operation");
        },
        other => panic!("expected a runtime error, got {:?}", other),
    }
}

#[test]
fn undefined_variable_reports_and_exit_code_is_seventy() {
    let (out, diags) = run_collect("print x;");
    assert!(out.is_empty());
    assert_eq!(diags.len(), 1);
    match &diags[0] {
        Diagnostic::Runtime { message, .. } => {
            assert_eq!(message, "Undefined variable 'x'.");
        },
        other => panic!("expected a runtime diagnostic, got {:?}", other),
    }
    assert_eq!(exit_code(&diags), 70);
}

#[test]
fn redeclaration_overwrites() {
    assert_eq!(outputs("var x = 1; var x = 2; print x;"), vec!["2"]);
}

#[test]
fn chained_assignment_assigns_both() {
    assert_eq!(
        outputs("var a; var b; print a = b = 3; print a; print b;"),
        vec!["3", "3", "3"]
    );
}

#[test]
fn assignment_to_undeclared_name_fails() {
    let (out, diags) = run_collect("x = 1;");
    assert!(out.is_empty());
    assert_eq!(diags.len(), 1);
    match &diags[0] {
        Diagnostic::Runtime { message, .. } => {
            assert_eq!(message, "Undefined variable 'x'.");
        },
        other => panic!("expected a runtime diagnostic, got {:?}", other),
    }
}

#[test]
fn three_statements_middle_fails_others_run() {
    let (events, diags) = run("print 1; print x; print 2;");
    assert!(diags.is_empty());
    assert_eq!(events.len(), 3);
    assert_eq!(events[0], RunEvent::Output(String::from("1")));
    assert!(matches!(events[1], RunEvent::Error(_)));
    assert_eq!(events[2], RunEvent::Output(String::from("2")));
    let errors = events
        .iter()
        .filter(|e| matches!(e, RunEvent::Error(_)))
        .count();
    assert_eq!(errors, 1);
}

#[test]
fn number_equality_has_a_millionth_tolerance() {
    assert_eq!(outputs("print 0.000001 == 0.000002;"), vec!["true"]);
    assert_eq!(outputs("print 1 == 1.000001;"), vec!["true"]);
    assert_eq!(outputs("print 1 == 1.000002;"), vec!["false"]);
    assert_eq!(outputs("print 0.1 + 0.2 == 0.3;"), vec!["true"]);
    assert_eq!(outputs("print 1 != 1.5;"), vec!["true"]);
}

#[test]
fn equality_across_kinds() {
    assert_eq!(outputs("print nil == nil;"), vec!["true"]);
    assert_eq!(outputs("print nil == false;"), vec!["false"]);
    assert_eq!(outputs("print 1 == \"1\";"), vec!["false"]);
    assert_eq!(outputs("print \"a\" == \"a\";"), vec!["true"]);
    assert_eq!(outputs("print true == true;"), vec!["true"]);
    assert_eq!(outputs("print true == false;"), vec!["false"]);
}

#[test]
fn arithmetic_and_precedence() {
    assert_eq!(outputs("print 1 + 2 * 3;"), vec!["7"]);
    assert_eq!(outputs("print (1 + 2) * 3;"), vec!["9"]);
    assert_eq!(outputs("print 10 - 2 - 3;"), vec!["5"]);
    assert_eq!(outputs("print 7 / 2;"), vec!["3.5"]);
    assert_eq!(outputs("print 1 / 3;"), vec!["0.333333"]);
}

#[test]
fn division_by_zero_follows_number_conventions() {
    assert_eq!(outputs("print 1 / 0;"), vec!["inf"]);
    assert_eq!(outputs("print -1 / 0;"), vec!["-inf"]);
    assert_eq!(outputs("print 0 / 0;"), vec!["NaN"]);
}

#[test]
fn comparisons() {
    assert_eq!(outputs("print 1 < 2;"), vec!["true"]);
    assert_eq!(outputs("print 2 <= 2;"), vec!["true"]);
    assert_eq!(outputs("print 1 > 2;"), vec!["false"]);
    assert_eq!(outputs("print 2 >= 3;"), vec!["false"]);
    assert_eq!(outputs("print -1 < 1;"), vec!["true"]);
}

#[test]
fn comparing_non_numbers_is_a_runtime_error() {
    let (_, diags) = run_collect("print \"a\" < \"b\";");
    assert_eq!(diags.len(), 1);
    match &diags[0] {
        Diagnostic::Runtime { message, .. } => {
            assert_eq!(message, "Operator not supported on type Strings");
        },
        other => panic!("expected a runtime diagnostic, got {:?}", other),
    }
}

#[test]
fn unary_operators() {
    assert_eq!(outputs("print -3;"), vec!["-3"]);
    assert_eq!(outputs("print --3;"), vec!["3"]);
    assert_eq!(outputs("print !true;"), vec!["false"]);
    assert_eq!(outputs("print !nil;"), vec!["true"]);
    assert_eq!(outputs("print !0;"), vec!["false"]);
    assert_eq!(outputs("print !\"\";"), vec!["false"]);
}

#[test]
fn unary_minus_needs_a_number() {
    let (_, diags) = run_collect("print -\"a\";");
    assert_eq!(diags.len(), 1);
    match &diags[0] {
        Diagnostic::Runtime { message, .. } => {
            assert_eq!(message, "operand must be a number");
        },
        other => panic!("expected a runtime diagnostic, got {:?}", other),
    }
}

#[test]
fn var_without_initializer_is_nil() {
    assert_eq!(outputs("var x; print x;"), vec!["nil"]);
}

#[test]
fn bindings_persist_across_interpret_calls() {
    let (stmts1, d1) = scan_and_parse("var x = 41;");
    let (stmts2, d2) = scan_and_parse("print x + 1;");
    assert!(d1.is_empty() && d2.is_empty());
    let mut interp = Interpreter::new(Environment::new());
    let ev1 = interp.interpret(&stmts1);
    assert!(ev1.is_empty());
    let ev2 = interp.interpret(&stmts2);
    assert_eq!(ev2, vec![RunEvent::Output(String::from("42"))]);
}

#[test]
fn expression_statement_value_is_discarded() {
    let (events, diags) = run("var x = 1; x = 2; print x;");
    assert!(diags.is_empty());
    assert_eq!(events, vec![RunEvent::Output(String::from("2"))]);
}

#[test]
fn assignment_is_an_expression() {
    assert_eq!(outputs("var a; print (a = 4) + 1;"), vec!["5"]);
}

#[test]
fn lexical_error_suppresses_execution() {
    let (events, diags) = run("print 1; @");
    assert_eq!(diags.len(), 1);
    assert!(events.is_empty());
    assert_eq!(exit_code(&diags), 65);
}

#[test]
fn exit_codes() {
    let none: Vec<Diagnostic> = Vec::new();
    assert_eq!(exit_code(&none), 0);
    let (_, run_diags) = run_collect("print x;");
    assert_eq!(exit_code(&run_diags), 70);
    let (_, static_diags) = scan_and_parse("print 1");
    assert_eq!(exit_code(&static_diags), 65);
    let mut both = static_diags;
    both.extend(run_diags);
    assert_eq!(exit_code(&both), 65);
}

#[test]
fn hand_built_tree_bad_operator_on_numbers() {
    let one = Token {
        token_type: TokenType::Literal(Literal::Number(Num::Finite { neg: false, units: 1_000_000 })),
        lexeme: String::from("1"),
        line: 1,
    };
    let comma = Token { token_type: TokenType::Comma, lexeme: String::from(","), line: 1 };
    let stmt = Stmt::Expression(Expression {
        expression: Box::new(Expr::Binary(Binary {
            left: Box::new(Expr::Literal(LiteralExpr { value: one.clone() })),
            operator: comma,
            right: Box::new(Expr::Literal(LiteralExpr { value: one })),
        })),
    });
    let mut interp = Interpreter::new(Environment::new());
    let events = interp.interpret(&vec![stmt]);
    assert_eq!(events.len(), 1);
    match &events[0] {
        RunEvent::Error(d) => {
            assert_eq!(d.render(), "[line 1]: Operator not supported on type Numbers");
        },
        other => panic!("expected a runtime error, got {:?}", other),
    }
}

#[test]
fn hand_built_tree_bad_unary_operator() {
    let one = Token {
        token_type: TokenType::Literal(Literal::Number(Num::Finite { neg: false, units: 1_000_000 })),
        lexeme: String::from("1"),
        line: 2,
    };
    let star = Token { token_type: TokenType::Star, lexeme: String::from("*"), line: 2 };
    let stmt = Stmt::Expression(Expression {
        expression: Box::new(Expr::Unary(Unary {
            operator: star,
            right: Box::new(Expr::Literal(LiteralExpr { value: one })),
        })),
    });
    let mut interp = Interpreter::new(Environment::new());
    let events = interp.interpret(&vec![stmt]);
    assert_eq!(events.len(), 1);
    match &events[0] {
        RunEvent::Error(d) => {
            assert_eq!(d.render(), "[line 2]: Unary Operator must be MINUS/BANG.");
        },
        other => panic!("expected a runtime error, got {:?}", other),
    }
}

#[test]
fn runtime_diagnostics_carry_the_right_line() {
    let (_, diags) = run_collect("var x;\nprint y;");
    assert_eq!(diags.len(), 1);
    assert_eq!(diags[0].render(), "[line 2]: Undefined variable 'y'.");
}
