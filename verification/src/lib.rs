//! A small dynamically-typed scripting language, front to back: scanning,
//! recursive-descent parsing, and tree-walking evaluation, each stage
//! specified by a reference function and proved to match it.
//!
//! `scan_and_parse` turns source text into statements plus diagnostics;
//! `interpreter::Interpreter::interpret` runs the statements and returns
//! the printed lines and runtime diagnostics as events, in order. The
//! caller does all I/O.

pub mod ast;
pub mod ast_printer;
pub mod diag;
pub mod environment;
pub mod interpreter;
pub mod num;
pub mod parser;
pub mod scanner;
pub mod text;
pub mod token;
pub mod value;

use vstd::prelude::*;
use crate::ast::{Stmt, StmtV};
use crate::diag::{Diagnostic, DiagnosticV};
use crate::parser::{Parser, spec_parse};
use crate::scanner::{Scanner, spec_scan, lemma_scan_from_wf};

verus! {

/// What scanning then parsing a source text yields. A source with lexical
/// errors yields those diagnostics and no statements (nothing is parsed);
/// otherwise the parse's statements and its diagnostics.
pub open spec fn spec_scan_and_parse(src: Seq<char>) -> (Seq<StmtV>, Seq<DiagnosticV>) {
    let scanned = spec_scan(src);
    if scanned.1.len() > 0 {
        (Seq::<StmtV>::empty(), scanned.1)
    } else {
        spec_parse(scanned.0, 0)
    }
}

/// Turns source text into a statement sequence and the diagnostics the
/// two front-end stages reported, in order.
pub fn scan_and_parse(source: &str) -> (r: (Vec<Stmt>, Vec<Diagnostic>))
    ensures
        r.0.deep_view() == spec_scan_and_parse(source@).0,
        r.1.deep_view() == spec_scan_and_parse(source@).1,
{
    let mut scanner = Scanner::new(String::from_str(source));
    let tokens = scanner.scan_tokens();
    let diagnostics = scanner.diagnostics;
    if diagnostics.len() > 0 {
        let empty: Vec<Stmt> = Vec::new();
        proof {
            assert(empty.deep_view() =~= Seq::<StmtV>::empty());
        }
        return (empty, diagnostics);
    }
    proof {
        lemma_scan_from_wf(source@, 0, 1);
    }
    let mut parser = Parser::new(tokens);
    match parser.parse() {
        Some(statements) => (statements, parser.diagnostics),
        None => {
            proof {
                assert(false);
            }
            (Vec::new(), Vec::new())
        },
    }
}

/// Law: the front end is deterministic. Scanning and parsing the same
/// source twice yields structurally identical statement sequences and
/// diagnostics, because both runs yield `spec_scan_and_parse` of it.
pub proof fn lemma_scan_parse_deterministic(
    src: Seq<char>,
    a: (Seq<StmtV>, Seq<DiagnosticV>),
    b: (Seq<StmtV>, Seq<DiagnosticV>),
)
    requires
        a == spec_scan_and_parse(src),
        b == spec_scan_and_parse(src),
    ensures
        a == b,
{
}

} // verus!
