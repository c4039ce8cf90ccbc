use rulox::ast::{Expr, Stmt};
use rulox::ast_printer::AstPrinter;
use rulox::diag::Diagnostic;
use rulox::scan_and_parse;

fn print_first_expression(stmts: &[Stmt]) -> String {
    let printer = AstPrinter {};
    match &stmts[0] {
        Stmt::Expression(e) => printer.print(&e.expression),
        Stmt::Print(p) => printer.print(&p.expression),
        Stmt::Var(_) => panic!("expected an expression statement"),
    }
}

#[test]
fn parse_is_deterministic() {
    let src = "var x = 1 + 2 * 3; print x; \"s\" + \"t\";";
    let (a_stmts, a_diags) = scan_and_parse(src);
    let (b_stmts, b_diags) = scan_and_parse(src);
    assert_eq!(a_stmts, b_stmts);
    assert_eq!(a_diags, b_diags);
}

#[test]
fn parse_is_deterministic_with_errors() {
    let src = "var 1 = 2; print (3; print 4;";
    let (a_stmts, a_diags) = scan_and_parse(src);
    let (b_stmts, b_diags) = scan_and_parse(src);
    assert_eq!(a_stmts, b_stmts);
    assert_eq!(a_diags, b_diags);
}

#[test]
fn binary_operators_fold_left() {
    let (stmts, diags) = scan_and_parse("1 - 2 - 3;");
    assert!(diags.is_empty());
    assert_eq!(print_first_expression(&stmts), "(- (- 1 2) 3)");
}

#[test]
fn assignment_is_right_associative() {
    let (stmts, diags) = scan_and_parse("a = b = 3;");
    assert!(diags.is_empty());
    assert_eq!(print_first_expression(&stmts), "(= a (= b 3))");
}

#[test]
fn precedence_shapes_the_tree() {
    let (stmts, diags) = scan_and_parse("1 + 2 * 3 == 7;");
    assert!(diags.is_empty());
    assert_eq!(print_first_expression(&stmts), "(== (+ 1 (* 2 3)) 7)");
}

#[test]
fn unary_binds_tighter_than_binary() {
    let (stmts, diags) = scan_and_parse("-1 * !x;");
    assert!(diags.is_empty());
    assert_eq!(print_first_expression(&stmts), "(* (- 1) (! x))");
}

#[test]
fn parentheses_group() {
    let (stmts, diags) = scan_and_parse("print (1 + 2) * 3;");
    assert!(diags.is_empty());
    assert_eq!(print_first_expression(&stmts), "(* (+ 1 2) 3)");
}

#[test]
fn ast_printer_renders_a_sum() {
    let (stmts, diags) = scan_and_parse("1+2;");
    assert!(diags.is_empty());
    match &stmts[0] {
        Stmt::Expression(e) => {
            assert!(matches!(*e.expression, Expr::Binary(_)));
            let printer = AstPrinter {};
            assert_eq!(printer.print(&e.expression), "(+ 1 2)");
        },
        other => panic!("expected an expression statement, got {:?}", other),
    }
}

#[test]
fn failed_statement_is_dropped_later_ones_kept() {
    let (stmts, diags) = scan_and_parse("var 1 = 2; print 3;");
    assert_eq!(diags.len(), 1);
    assert_eq!(stmts.len(), 1);
    assert!(matches!(stmts[0], Stmt::Print(_)));
    match &diags[0] {
        Diagnostic::Parse { message, .. } => {
            assert_eq!(message, "Expect variable name.");
        },
        other => panic!("expected a parse diagnostic, got {:?}", other),
    }
}

#[test]
fn each_bad_statement_reports_separately() {
    let (stmts, diags) = scan_and_parse("print (1; var 2; print 3;");
    assert_eq!(stmts.len(), 1);
    assert_eq!(diags.len(), 2);
}

#[test]
fn missing_semicolon_reports_at_end() {
    let (stmts, diags) = scan_and_parse("print 1");
    assert!(stmts.is_empty());
    assert_eq!(diags.len(), 1);
    assert_eq!(diags[0].render(), "[line 1] Error at end: Expected ';' after value.");
}

#[test]
fn missing_semicolon_after_expression() {
    let (stmts, diags) = scan_and_parse("1 + 2 print 3;");
    assert_eq!(diags.len(), 1);
    assert_eq!(
        diags[0].render(),
        "[line 1] Error at 'print': Expected ';' after expression."
    );
    // Recovery consumes the `print` while looking for a boundary, so the
    // would-be second statement is lost with it.
    assert_eq!(stmts.len(), 0);
}

#[test]
fn invalid_assignment_target() {
    let (stmts, diags) = scan_and_parse("1 = 2;");
    assert!(stmts.is_empty());
    assert_eq!(diags.len(), 1);
    assert_eq!(diags[0].render(), "[line 1] Error at '=': Invalid assignment type.");
}

#[test]
fn unmatched_paren_reports() {
    let (stmts, diags) = scan_and_parse("print (1 + 2;");
    assert!(stmts.is_empty());
    assert_eq!(diags.len(), 1);
    assert_eq!(diags[0].render(), "[line 1] Error at ';': Expect ')' after expression.");
}

#[test]
fn expect_expression_error() {
    let (stmts, diags) = scan_and_parse(";");
    assert!(stmts.is_empty());
    assert_eq!(diags.len(), 1);
    assert_eq!(diags[0].render(), "[line 1] Error at ';': Expect expression.");
}

#[test]
fn var_declaration_shapes() {
    let (stmts, diags) = scan_and_parse("var a; var b = 2;");
    assert!(diags.is_empty());
    assert_eq!(stmts.len(), 2);
    match &stmts[0] {
        Stmt::Var(v) => {
            assert_eq!(v.name.lexeme, "a");
            assert!(v.initializer.is_none());
        },
        other => panic!("expected a var statement, got {:?}", other),
    }
    match &stmts[1] {
        Stmt::Var(v) => {
            assert_eq!(v.name.lexeme, "b");
            assert!(v.initializer.is_some());
        },
        other => panic!("expected a var statement, got {:?}", other),
    }
}

#[test]
fn empty_source_parses_to_nothing() {
    let (stmts, diags) = scan_and_parse("");
    assert!(stmts.is_empty());
    assert!(diags.is_empty());
}

#[test]
fn missing_semicolon_after_var_declaration() {
    let (stmts, diags) = scan_and_parse("var a = 1");
    assert!(stmts.is_empty());
    assert_eq!(diags.len(), 1);
    assert_eq!(
        diags[0].render(),
        "[line 1] Error at end: Expected ';' after variable declaration."
    );
}

#[test]
fn grouping_expression_is_its_inner_expression() {
    // The parser unwraps parentheses rather than building a grouping node.
    let (stmts, diags) = scan_and_parse("(1);");
    assert!(diags.is_empty());
    match &stmts[0] {
        Stmt::Expression(e) => assert!(matches!(*e.expression, Expr::Literal(_))),
        other => panic!("expected an expression statement, got {:?}", other),
    }
}

#[test]
fn diagnostics_at_string_tokens_show_the_quoted_lexeme() {
    let (stmts, diags) = scan_and_parse("print 1 \"x\";");
    assert!(stmts.is_empty());
    assert_eq!(diags.len(), 1);
    assert_eq!(
        diags[0].render(),
        "[line 1] Error at '\"x\"': Expected ';' after value."
    );
}

#[test]
fn ast_printer_shows_string_literals_as_written() {
    let (stmts, diags) = scan_and_parse("\"a\" + \"b\";");
    assert!(diags.is_empty());
    assert_eq!(print_first_expression(&stmts), "(+ \"a\" \"b\")");
}
