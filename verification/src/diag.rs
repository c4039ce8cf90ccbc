//! Structured diagnostics.
//!
//! The scanner, parser and interpreter report problems as values of
//! `Diagnostic`, in the order they arise; the caller renders and prints
//! them. `error`, `error_token` and `runtime_error` build the three kinds,
//! and `render` produces the exact report text.

use vstd::prelude::*;
use crate::text::{spec_dec, dec_u64};
use crate::token::{Token, TokenV, TokenTypeV};

verus! {

/// One reported problem: a lexical error at a line, a parse error at a
/// token, or a runtime error at a token.
#[derive(Debug, PartialEq)]
pub enum Diagnostic {
    Lex { line: u32, message: String },
    Parse { token: Token, message: String },
    Runtime { token: Token, message: String },
}

/// Spec-level image of `Diagnostic`.
pub enum DiagnosticV {
    Lex { line: u32, message: Seq<char> },
    Parse { token: TokenV, message: Seq<char> },
    Runtime { token: TokenV, message: Seq<char> },
}

impl View for Diagnostic {
    type V = DiagnosticV;

    open spec fn view(&self) -> DiagnosticV {
        match self {
            Diagnostic::Lex { line, message } => (DiagnosticV::Lex {
                line: *line,
                message: message@,
            }),
            Diagnostic::Parse { token, message } => (DiagnosticV::Parse {
                token: token@,
                message: message@,
            }),
            Diagnostic::Runtime { token, message } => (DiagnosticV::Runtime {
                token: token@,
                message: message@,
            }),
        }
    }
}

impl DeepView for Diagnostic {
    type V = DiagnosticV;

    open spec fn deep_view(&self) -> DiagnosticV {
        self@
    }
}

/// A static (lexical or syntactic) problem, found before evaluation.
pub open spec fn spec_is_static(d: DiagnosticV) -> bool {
    d is Lex || d is Parse
}

/// The report line a diagnostic prints as. Lexical and parse errors show
/// `[line N] Error...`, with parse errors naming the offending token (or
/// `at end` for the end-of-input sentinel); runtime errors show
/// `[line N]: message`.
pub open spec fn spec_render(d: DiagnosticV) -> Seq<char> {
    match d {
        DiagnosticV::Lex { line, message } => "[line "@ + spec_dec(line as nat) + "] Error: "@
            + message,
        DiagnosticV::Parse { token, message } => {
            if token.token_type is Eof {
                "[line "@ + spec_dec(token.line as nat) + "] Error at end: "@ + message
            } else {
                "[line "@ + spec_dec(token.line as nat) + "] Error at '"@ + token.lexeme + "': "@
                    + message
            }
        },
        DiagnosticV::Runtime { token, message } => "[line "@ + spec_dec(token.line as nat) + "]: "@
            + message,
    }
}

/// Reports a lexical error at a line.
pub fn error(line: u32, message: String) -> (d: Diagnostic)
    ensures
        d@ == (DiagnosticV::Lex { line, message: message@ }),
{
    Diagnostic::Lex { line, message }
}

/// Reports a parse error at the offending token.
pub fn error_token(token: &Token, message: String) -> (d: Diagnostic)
    ensures
        d@ == (DiagnosticV::Parse { token: token@, message: message@ }),
{
    Diagnostic::Parse { token: token.clone(), message }
}

/// Reports a runtime error at the token it arose from.
pub fn runtime_error(token: &Token, message: String) -> (d: Diagnostic)
    ensures
        d@ == (DiagnosticV::Runtime { token: token@, message: message@ }),
{
    Diagnostic::Runtime { token: token.clone(), message }
}

impl Diagnostic {
    /// The text this diagnostic prints as on the error stream.
    pub fn render(&self) -> (r: String)
        ensures
            r@ == spec_render(self@),
    {
        proof {
            reveal_strlit("[line ");
            reveal_strlit("] Error: ");
            reveal_strlit("] Error at end: ");
            reveal_strlit("] Error at '");
            reveal_strlit("': ");
            reveal_strlit("]: ");
        }
        let mut s = String::from_str("[line ");
        match self {
            Diagnostic::Lex { line, message } => {
                let n = dec_u64(*line as u64);
                s.append(n.as_str());
                s.append("] Error: ");
                s.append(message.as_str());
            },
            Diagnostic::Parse { token, message } => {
                let n = dec_u64(token.line as u64);
                s.append(n.as_str());
                if matches!(token.token_type, crate::token::TokenType::Eof) {
                    s.append("] Error at end: ");
                } else {
                    s.append("] Error at '");
                    s.append(token.lexeme.as_str());
                    s.append("': ");
                }
                s.append(message.as_str());
            },
            Diagnostic::Runtime { token, message } => {
                let n = dec_u64(token.line as u64);
                s.append(n.as_str());
                s.append("]: ");
                s.append(message.as_str());
            },
        }
        proof {
            assert(s@ =~= spec_render(self@));
        }
        s
    }
}

/// The process exit code the diagnostics of one run call for: 65 for any
/// static error, otherwise 70 for any runtime error, otherwise 0.
pub open spec fn spec_exit_code(ds: Seq<DiagnosticV>) -> i32 {
    if exists|i: int| 0 <= i < ds.len() && spec_is_static(ds[i]) {
        65
    } else if exists|i: int| 0 <= i < ds.len() && ds[i] is Runtime {
        70
    } else {
        0
    }
}

/// Chooses the exit code for a finished run.
pub fn exit_code(diags: &Vec<Diagnostic>) -> (c: i32)
    ensures
        c == spec_exit_code(diags.deep_view()),
{
    let ghost ds = diags.deep_view();
    proof {
        assert(ds.len() == diags@.len());
    }
    let mut any_static = false;
    let mut any_runtime = false;
    let mut i: usize = 0;
    while i < diags.len()
        invariant
            0 <= i <= diags@.len(),
            ds == diags.deep_view(),
            ds.len() == diags@.len(),
            forall|j: int| 0 <= j < ds.len() ==> ds[j] == diags@[j]@,
            any_static == exists|j: int| 0 <= j < i && spec_is_static(ds[j]),
            any_runtime == exists|j: int| 0 <= j < i && ds[j] is Runtime,
        decreases diags@.len() - i,
    {
        proof {
            assert(ds[i as int] == diags@[i as int]@);
        }
        match &diags[i] {
            Diagnostic::Lex { .. } => {
                proof {
                    assert(spec_is_static(ds[i as int]));
                }
                any_static = true;
            },
            Diagnostic::Parse { .. } => {
                proof {
                    assert(spec_is_static(ds[i as int]));
                }
                any_static = true;
            },
            Diagnostic::Runtime { .. } => {
                proof {
                    assert(ds[i as int] is Runtime);
                }
                any_runtime = true;
            },
        }
        i += 1;
    }
    if any_static {
        65
    } else if any_runtime {
        70
    } else {
        0
    }
}

} // verus!
