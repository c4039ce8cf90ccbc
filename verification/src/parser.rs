//! The parser: tokens to statement trees, by recursive descent with
//! precedence climbing.
//!
//! The `spec_*` functions are the reference description of the grammar,
//! one per precedence level, each returning what was parsed, where parsing
//! left off, and the diagnostics emitted. `Parser::parse` is proved to
//! produce exactly `spec_parse`'s statements and diagnostics.
//!
//! Error recovery: a failed declaration reports one diagnostic, is dropped
//! from the result, and parsing resumes at the next statement boundary
//! (`spec_synchronize`), so one malformed statement neither hides later
//! errors nor appears in the program.

use vstd::prelude::*;
use crate::ast::{Expr, ExprV, Stmt, StmtV, Assign, Binary, Literal as LiteralExpr, Unary,
    Variable, Expression, Print, Var};
use crate::diag::{Diagnostic, DiagnosticV, error_token};
use crate::token::{Token, TokenV, TokenType, TokenTypeV, Literal, LiteralV};

verus! {

/// What parsing one expression yields: the tree or a failure, the next
/// position, and the diagnostics emitted along the way.
pub struct ExprRes {
    pub result: Result<ExprV, ()>,
    pub next: int,
    pub diags: Seq<DiagnosticV>,
}

/// What parsing one statement yields.
pub struct StmtRes {
    pub result: Result<StmtV, ()>,
    pub next: int,
    pub diags: Seq<DiagnosticV>,
}

/// The token at a position, total: out of range it stands in for the
/// end-of-input sentinel (never reached on well-formed token sequences).
pub open spec fn tok_at(toks: Seq<TokenV>, pos: int) -> TokenV {
    if 0 <= pos < toks.len() {
        toks[pos]
    } else {
        TokenV { token_type: TokenTypeV::Eof, lexeme: Seq::<char>::empty(), line: 0 }
    }
}

/// Clamps a sub-parse's next position into `(pos, len]` so the recursion
/// visibly descends; every sub-parse provably lands there anyway, so this
/// changes nothing on real runs.
pub open spec fn spec_after(raw: int, pos: int, len: int) -> int {
    if raw <= pos {
        pos + 1
    } else if raw >= len {
        len
    } else {
        raw
    }
}

/// The parse-error diagnostic for the token at `pos`.
pub open spec fn spec_error_at(toks: Seq<TokenV>, pos: int, message: Seq<char>) -> DiagnosticV {
    DiagnosticV::Parse { token: tok_at(toks, pos), message }
}

/// primary := NUMBER | STRING | IDENTIFIER | "true" | "false" | "nil"
///          | "(" expression ")"
pub open spec fn spec_primary(toks: Seq<TokenV>, pos: int) -> ExprRes
    decreases toks.len() - pos, 0int,
{
    let len = toks.len() as int;
    if !(0 <= pos < len) {
        ExprRes { result: Err(()), next: len, diags: seq![] }
    } else {
        let t = toks[pos].token_type;
        match t {
            TokenTypeV::False => (ExprRes {
                result: Ok(ExprV::Literal { value: toks[pos] }),
                next: pos + 1,
                diags: seq![],
            }),
            TokenTypeV::True => (ExprRes {
                result: Ok(ExprV::Literal { value: toks[pos] }),
                next: pos + 1,
                diags: seq![],
            }),
            TokenTypeV::Nil => (ExprRes {
                result: Ok(ExprV::Literal { value: toks[pos] }),
                next: pos + 1,
                diags: seq![],
            }),
            TokenTypeV::Literal(l) => match l {
                LiteralV::Identifier(_) => (ExprRes {
                    result: Ok(ExprV::Variable { name: toks[pos] }),
                    next: pos + 1,
                    diags: seq![],
                }),
                _ => (ExprRes {
                    result: Ok(ExprV::Literal { value: toks[pos] }),
                    next: pos + 1,
                    diags: seq![],
                }),
            },
            TokenTypeV::LeftParen => {
                let r = spec_expression(toks, pos + 1);
                match r.result {
                    Ok(e) => {
                        let p1 = spec_after(r.next, pos, len);
                        if tok_at(toks, p1).token_type is RightParen {
                            ExprRes { result: Ok(e), next: p1 + 1, diags: r.diags }
                        } else {
                            ExprRes {
                                result: Err(()),
                                next: p1,
                                diags: r.diags + seq![
                                    spec_error_at(toks, p1, "Expect ')' after expression."@),
                                ],
                            }
                        }
                    },
                    Err(_) => (ExprRes { result: Err(()), next: r.next, diags: r.diags }),
                }
            },
            _ => (ExprRes {
                result: Err(()),
                next: pos,
                diags: seq![spec_error_at(toks, pos, "Expect expression."@)],
            }),
        }
    }
}

/// unary := ("!" | "-") unary | primary
pub open spec fn spec_unary(toks: Seq<TokenV>, pos: int) -> ExprRes
    decreases toks.len() - pos, 1int,
{
    let len = toks.len() as int;
    if !(0 <= pos < len) {
        ExprRes { result: Err(()), next: len, diags: seq![] }
    } else {
        let t = toks[pos].token_type;
        if t is Bang || t is Minus {
            let r = spec_unary(toks, pos + 1);
            match r.result {
                Ok(e) => (ExprRes {
                    result: Ok(ExprV::Unary { operator: toks[pos], right: Box::new(e) }),
                    next: r.next,
                    diags: r.diags,
                }),
                Err(_) => r,
            }
        } else {
            spec_primary(toks, pos)
        }
    }
}

/// The binary levels, numbered with the tightest binding lowest: factor
/// (1), term (2), comparison (3), equality (4). Out-of-range numbers read
/// as the nearest level, which keeps the recursion visibly well-founded.
pub open spec fn lv_clamp(level: int) -> int {
    if level < 1 {
        1
    } else if level > 4 {
        4
    } else {
        level
    }
}

/// The operators of each binary level.
pub open spec fn spec_level_hit(t: TokenTypeV, level: int) -> bool {
    let lv = lv_clamp(level);
    if lv == 1 {
        t is Slash || t is Star
    } else if lv == 2 {
        t is Minus || t is Plus
    } else if lv == 3 {
        t is Greater || t is GreaterEqual || t is Less || t is LessEqual
    } else {
        t is BangEqual || t is EqualEqual
    }
}

/// The left-associative fold shared by the four binary levels: `acc` is
/// the tree built so far; while the next token is one of the level's
/// operators, parse the next operand one level down and fold.
pub open spec fn spec_binary_tail(
    toks: Seq<TokenV>,
    acc: ExprV,
    pos: int,
    level: int,
) -> ExprRes
    recommends
        1 <= level <= 4,
    decreases toks.len() - pos, 2int + lv_clamp(level),
{
    let len = toks.len() as int;
    let lv = lv_clamp(level);
    let t = tok_at(toks, pos).token_type;
    let hit = spec_level_hit(t, lv);
    if 0 <= pos < len && hit {
        let r = if lv == 1 {
            spec_unary(toks, pos + 1)
        } else {
            spec_binary_level(toks, pos + 1, lv - 1)
        };
        match r.result {
            Ok(e) => {
                let folded = ExprV::Binary {
                    left: Box::new(acc),
                    operator: toks[pos],
                    right: Box::new(e),
                };
                let t2 = spec_binary_tail(toks, folded, spec_after(r.next, pos, len), lv);
                ExprRes { result: t2.result, next: t2.next, diags: r.diags + t2.diags }
            },
            Err(_) => (ExprRes { result: Err(()), next: r.next, diags: r.diags }),
        }
    } else {
        ExprRes { result: Ok(acc), next: pos, diags: seq![] }
    }
}

/// The four binary precedence levels, lowest `level` binding tightest:
/// factor (1), term (2), comparison (3), equality (4). Each parses one
/// operand one level down, then folds left-associatively.
pub open spec fn spec_binary_level(toks: Seq<TokenV>, pos: int, level: int) -> ExprRes
    recommends
        1 <= level <= 4,
    decreases toks.len() - pos, 7int + lv_clamp(level),
{
    let len = toks.len() as int;
    let lv = lv_clamp(level);
    if !(0 <= pos < len) {
        ExprRes { result: Err(()), next: len, diags: seq![] }
    } else {
        let r = if lv == 1 {
            spec_unary(toks, pos)
        } else {
            spec_binary_level(toks, pos, lv - 1)
        };
        match r.result {
            Ok(e) => {
                let t = spec_binary_tail(toks, e, spec_after(r.next, pos, len), lv);
                ExprRes { result: t.result, next: t.next, diags: r.diags + t.diags }
            },
            Err(_) => r,
        }
    }
}

/// equality, the entry to the binary levels.
pub open spec fn spec_equality(toks: Seq<TokenV>, pos: int) -> ExprRes {
    spec_binary_level(toks, pos, 4)
}

/// assignment := IDENTIFIER "=" assignment | equality
///
/// The left side is parsed as an ordinary equality-level expression; only
/// if an `=` follows and that left side is a bare variable reference is it
/// reinterpreted as an assignment target, the right side parsed by
/// recursing (right-associativity). An `=` after anything else is the
/// "Invalid assignment type." error, raised after the right side has been
/// parsed.
pub open spec fn spec_assignment(toks: Seq<TokenV>, pos: int) -> ExprRes
    decreases toks.len() - pos, 12int,
{
    let len = toks.len() as int;
    let r = spec_binary_level(toks, pos, 4);
    match r.result {
        Ok(e) => {
            let p1 = spec_after(r.next, pos, len);
            if p1 < len && tok_at(toks, p1).token_type is Equal {
                let rv = spec_assignment(toks, p1 + 1);
                match rv.result {
                    Ok(v) => match e {
                        ExprV::Variable { name } => (ExprRes {
                            result: Ok(ExprV::Assign { name, value: Box::new(v) }),
                            next: rv.next,
                            diags: r.diags + rv.diags,
                        }),
                        _ => (ExprRes {
                            result: Err(()),
                            next: rv.next,
                            diags: r.diags + rv.diags + seq![
                                spec_error_at(toks, p1, "Invalid assignment type."@),
                            ],
                        }),
                    },
                    Err(_) => (ExprRes {
                        result: Err(()),
                        next: rv.next,
                        diags: r.diags + rv.diags,
                    }),
                }
            } else {
                r
            }
        },
        Err(_) => r,
    }
}

/// expression := assignment
pub open spec fn spec_expression(toks: Seq<TokenV>, pos: int) -> ExprRes
    decreases toks.len() - pos, 13int,
{
    spec_assignment(toks, pos)
}

/// exprStmt := expression ";"
pub open spec fn spec_expression_statement(toks: Seq<TokenV>, pos: int) -> StmtRes
    decreases toks.len() - pos, 14int,
{
    let len = toks.len() as int;
    let r = spec_expression(toks, pos);
    match r.result {
        Ok(e) => {
            let p1 = spec_after(r.next, pos, len);
            if tok_at(toks, p1).token_type is Semicolon {
                StmtRes { result: Ok(StmtV::Expression { expression: e }), next: p1 + 1, diags: r.diags }
            } else {
                StmtRes {
                    result: Err(()),
                    next: p1,
                    diags: r.diags + seq![
                        spec_error_at(toks, p1, "Expected ';' after expression."@),
                    ],
                }
            }
        },
        Err(_) => (StmtRes { result: Err(()), next: r.next, diags: r.diags }),
    }
}

/// printStmt := "print" expression ";" — entered just after the `print`.
pub open spec fn spec_print_statement(toks: Seq<TokenV>, pos: int) -> StmtRes
    decreases toks.len() - pos, 14int,
{
    let len = toks.len() as int;
    let r = spec_expression(toks, pos);
    match r.result {
        Ok(e) => {
            let p1 = spec_after(r.next, pos, len);
            if tok_at(toks, p1).token_type is Semicolon {
                StmtRes { result: Ok(StmtV::Print { expression: e }), next: p1 + 1, diags: r.diags }
            } else {
                StmtRes {
                    result: Err(()),
                    next: p1,
                    diags: r.diags + seq![
                        spec_error_at(toks, p1, "Expected ';' after value."@),
                    ],
                }
            }
        },
        Err(_) => (StmtRes { result: Err(()), next: r.next, diags: r.diags }),
    }
}

/// statement := printStmt | exprStmt
pub open spec fn spec_statement(toks: Seq<TokenV>, pos: int) -> StmtRes
    decreases toks.len() - pos, 15int,
{
    if 0 <= pos < toks.len() && toks[pos].token_type is Print {
        spec_print_statement(toks, pos + 1)
    } else {
        spec_expression_statement(toks, pos)
    }
}

/// varDecl := "var" IDENTIFIER ( "=" expression )? ";" — entered just
/// after the `var`.
pub open spec fn spec_var_declaration(toks: Seq<TokenV>, pos: int) -> StmtRes
    decreases toks.len() - pos, 15int,
{
    let len = toks.len() as int;
    let named = tok_at(toks, pos).token_type matches TokenTypeV::Literal(LiteralV::Identifier(_));
    if 0 <= pos < len && named {
        let name = toks[pos];
        let p1 = pos + 1;
        if p1 < len && tok_at(toks, p1).token_type is Equal {
            let r = spec_expression(toks, p1 + 1);
            match r.result {
                Ok(e) => {
                    let p2 = spec_after(r.next, p1 + 1, len);
                    if tok_at(toks, p2).token_type is Semicolon {
                        StmtRes {
                            result: Ok(StmtV::Var { name, initializer: Some(e) }),
                            next: p2 + 1,
                            diags: r.diags,
                        }
                    } else {
                        StmtRes {
                            result: Err(()),
                            next: p2,
                            diags: r.diags + seq![
                                spec_error_at(
                                    toks,
                                    p2,
                                    "Expected ';' after variable declaration."@,
                                ),
                            ],
                        }
                    }
                },
                Err(_) => (StmtRes { result: Err(()), next: r.next, diags: r.diags }),
            }
        } else {
            if tok_at(toks, p1).token_type is Semicolon {
                StmtRes {
                    result: Ok(StmtV::Var { name, initializer: None }),
                    next: p1 + 1,
                    diags: seq![],
                }
            } else {
                StmtRes {
                    result: Err(()),
                    next: p1,
                    diags: seq![
                        spec_error_at(toks, p1, "Expected ';' after variable declaration."@),
                    ],
                }
            }
        }
    } else {
        StmtRes {
            result: Err(()),
            next: pos,
            diags: seq![spec_error_at(toks, pos, "Expect variable name."@)],
        }
    }
}

/// A token that begins a new statement, where recovery can resume.
pub open spec fn spec_starts_statement(t: TokenTypeV) -> bool {
    ||| t is Class
    ||| t is Fun
    ||| t is Var
    ||| t is For
    ||| t is If
    ||| t is While
    ||| t is Print
    ||| t is Return
}

/// The recovery loop: from a position just past the point of error,
/// discard tokens until just after a `;`, or in front of a token that
/// begins a statement, or at the end of the input.
pub open spec fn spec_sync_loop(toks: Seq<TokenV>, pos: int) -> int
    decreases toks.len() - pos,
{
    let len = toks.len() as int;
    if !(1 <= pos < len) {
        pos
    } else if toks[pos].token_type is Eof {
        pos
    } else if toks[pos - 1].token_type is Semicolon {
        pos
    } else if spec_starts_statement(toks[pos].token_type) {
        pos
    } else {
        spec_sync_loop(toks, pos + 1)
    }
}

/// Recovery after a parse error: consume the offending token (unless at
/// the end of the input already), then run the recovery loop.
pub open spec fn spec_synchronize(toks: Seq<TokenV>, pos: int) -> int {
    let len = toks.len() as int;
    if 0 <= pos < len && !(toks[pos].token_type is Eof) {
        spec_sync_loop(toks, pos + 1)
    } else {
        pos
    }
}

/// declaration := varDecl | statement — with recovery: a declaration that
/// fails to parse reports its diagnostic, synchronizes, and yields no
/// statement.
pub open spec fn spec_declaration(toks: Seq<TokenV>, pos: int) -> StmtRes
    decreases toks.len() - pos, 16int,
{
    let len = toks.len() as int;
    let r = if 0 <= pos < len && toks[pos].token_type is Var {
        spec_var_declaration(toks, pos + 1)
    } else {
        spec_statement(toks, pos)
    };
    match r.result {
        Ok(_) => r,
        Err(_) => (StmtRes {
            result: Err(()),
            next: spec_synchronize(toks, r.next),
            diags: r.diags,
        }),
    }
}

/// The whole parse from `pos`: declarations until the end-of-input token,
/// each failed declaration dropped after recovery, its diagnostics kept.
pub open spec fn spec_parse(toks: Seq<TokenV>, pos: int) -> (Seq<StmtV>, Seq<DiagnosticV>)
    decreases toks.len() - pos, 17int,
{
    let len = toks.len() as int;
    if !(0 <= pos < len) || toks[pos].token_type is Eof {
        (seq![], seq![])
    } else {
        let d = spec_declaration(toks, pos);
        let rest = spec_parse(toks, spec_after(d.next, pos, len));
        match d.result {
            Ok(s) => (seq![s] + rest.0, d.diags + rest.1),
            Err(_) => (rest.0, d.diags + rest.1),
        }
    }
}

/// A token sequence the scanner produces: nonempty, the end-of-input
/// sentinel last and nowhere else.
pub open spec fn wf_tokens(toks: Seq<TokenV>) -> bool {
    &&& toks.len() >= 1
    &&& toks[toks.len() - 1].token_type is Eof
    &&& forall|i: int| 0 <= i < toks.len() - 1 ==> !(toks[i].token_type is Eof)
}

/// A parse failure; its diagnostic has already been recorded.
struct ParseError {}

/// The parser's working state: the tokens, the position of the next token
/// to consider, and the diagnostics reported so far.
pub struct Parser {
    pub tokens: Vec<Token>,
    pub current: usize,
    pub diagnostics: Vec<Diagnostic>,
}

/// `post` is `pre` after an expression parse whose reference outcome is
/// `sr`: position and diagnostics as `sr` says, the tree (on success)
/// `sr`'s tree, and the position still on a token.
pub open spec fn expr_post(pre: Parser, post: Parser, ok: Option<ExprV>, sr: ExprRes) -> bool {
    &&& post.tokens == pre.tokens
    &&& post.current as int == sr.next
    &&& post.diagnostics.deep_view() == pre.diagnostics.deep_view() + sr.diags
    &&& (match ok {
        Some(e) => sr.result == Ok::<ExprV, ()>(e),
        None => sr.result is Err,
    })
    &&& post.current < post.tokens.deep_view().len()
    &&& (ok is Some ==> pre.current < post.current)
    &&& (ok is None ==> pre.current <= post.current)
}

/// The statement-level counterpart of `expr_post`.
pub open spec fn stmt_post(pre: Parser, post: Parser, ok: Option<StmtV>, sr: StmtRes) -> bool {
    &&& post.tokens == pre.tokens
    &&& post.current as int == sr.next
    &&& post.diagnostics.deep_view() == pre.diagnostics.deep_view() + sr.diags
    &&& (match ok {
        Some(s) => sr.result == Ok::<StmtV, ()>(s),
        None => sr.result is Err,
    })
    &&& post.current < post.tokens.deep_view().len()
    &&& (ok is Some ==> pre.current < post.current)
    &&& (ok is None ==> pre.current <= post.current)
}

impl Parser {
    /// The tokens, as the spec-level parser sees them.
    pub open spec fn toks(&self) -> Seq<TokenV> {
        self.tokens.deep_view()
    }

    /// Well-formed parser state: scanner-shaped tokens, position on one
    /// of them.
    pub open spec fn wf(&self) -> bool {
        &&& wf_tokens(self.toks())
        &&& self.current < self.toks().len()
    }

    /// A parser at the first of the given tokens.
    pub fn new(tokens: Vec<Token>) -> (p: Parser)
        ensures
            p.tokens == tokens,
            p.current == 0,
            p.diagnostics@.len() == 0,
    {
        Parser { tokens, current: 0, diagnostics: Vec::new() }
    }

    fn peek(&self) -> (t: &Token)
        requires
            self.wf(),
        ensures
            t@ == self.toks()[self.current as int],
    {
        proof {
            assert(self.toks()[self.current as int] == self.tokens@[self.current as int]@);
        }
        &self.tokens[self.current]
    }

    fn previous(&self) -> (t: &Token)
        requires
            self.wf(),
            self.current >= 1,
        ensures
            t@ == self.toks()[self.current - 1],
    {
        proof {
            assert(self.toks()[self.current - 1] == self.tokens@[self.current - 1]@);
        }
        &self.tokens[self.current - 1]
    }

    fn is_at_end(&self) -> (r: bool)
        requires
            self.wf(),
        ensures
            r == (self.toks()[self.current as int].token_type is Eof),
            r == (self.current as int == self.toks().len() - 1),
    {
        matches!(self.peek().token_type, TokenType::Eof)
    }

    /// Moves past the current token, unless it is the end-of-input
    /// sentinel.
    fn advance(&mut self)
        requires
            old(self).wf(),
        ensures
            final(self).wf(),
            final(self).tokens == old(self).tokens,
            final(self).diagnostics == old(self).diagnostics,
            final(self).current == if old(self).toks()[old(self).current as int].token_type
                is Eof {
                old(self).current as int
            } else {
                old(self).current + 1
            },
    {
        let n = self.tokens.len();
        proof {
            assert(self.toks().len() == n as nat);
        }
        if !self.is_at_end() {
            self.current += 1;
        }
    }

    /// Whether the current token has exactly this kind (never true at the
    /// end of the input).
    fn check(&self, token_type: &TokenType) -> (r: bool)
        requires
            self.wf(),
        ensures
            r == (!(self.toks()[self.current as int].token_type is Eof) && self.toks()[self.current as int].token_type
                == token_type@),
    {
        if self.is_at_end() {
            return false;
        }
        self.peek().token_type == *token_type
    }

    /// Records a parse-error diagnostic at the given token.
    fn report(&mut self, token: Token, message: &str) -> (r: ParseError)
        ensures
            final(self).tokens == old(self).tokens,
            final(self).current == old(self).current,
            final(self).diagnostics.deep_view() == old(self).diagnostics.deep_view() + seq![
                DiagnosticV::Parse { token: token@, message: message@ },
            ],
    {
        let d = error_token(&token, String::from_str(message));
        let ghost dv = d@;
        self.diagnostics.push(d);
        proof {
            assert(self.diagnostics.deep_view() =~= old(self).diagnostics.deep_view()
                + seq![dv]);
        }
        ParseError {}
    }

    /// Consumes the expected token or reports `message` at the token
    /// found instead.
    fn consume(&mut self, token_type: &TokenType, message: &str) -> (r: Result<(), ParseError>)
        requires
            old(self).wf(),
        ensures
            final(self).wf(),
            final(self).tokens == old(self).tokens,
            ({
                let pos = old(self).current as int;
                let t = old(self).toks()[pos].token_type;
                if !(t is Eof) && t == token_type@ {
                    &&& r is Ok
                    &&& final(self).current == old(self).current + 1
                    &&& final(self).diagnostics == old(self).diagnostics
                } else {
                    &&& r is Err
                    &&& final(self).current == old(self).current
                    &&& final(self).diagnostics.deep_view() == old(
                        self,
                    ).diagnostics.deep_view() + seq![
                        spec_error_at(old(self).toks(), pos, message@),
                    ]
                }
            }),
    {
        if self.check(token_type) {
            self.advance();
            Ok(())
        } else {
            let t = self.peek().clone();
            Err(self.report(t, message))
        }
    }

    /// Parses the whole token sequence: the statements of every
    /// declaration that parses, in order, each failed one dropped after
    /// recovery; the diagnostics collect in `diagnostics`.
    #[verifier::rlimit(60)]
    pub fn parse(&mut self) -> (r: Option<Vec<Stmt>>)
        requires
            old(self).wf(),
            old(self).current == 0,
            old(self).diagnostics@.len() == 0,
        ensures
            final(self).wf(),
            final(self).tokens == old(self).tokens,
            ({
                let sp = spec_parse(old(self).toks(), 0);
                match r {
                    Some(v) => v.deep_view() == sp.0 && final(self).diagnostics.deep_view()
                        == sp.1,
                    None => false,
                }
            }),
    {
        let ghost toks = self.toks();
        let ghost len = toks.len() as int;
        let mut statements: Vec<Stmt> = Vec::new();
        proof {
            assert(self.toks().len() == self.tokens@.len());
            assert(statements.deep_view() =~= Seq::<StmtV>::empty());
            assert(self.diagnostics.deep_view() =~= Seq::<DiagnosticV>::empty());
            assert(statements.deep_view() + spec_parse(toks, 0).0 =~= spec_parse(toks, 0).0);
            assert(self.diagnostics.deep_view() + spec_parse(toks, 0).1 =~= spec_parse(
                toks,
                0,
            ).1);
        }
        let end = self.tokens.len() - 1;
        while self.current < end
            invariant
                self.wf(),
                toks == self.toks(),
                len == toks.len(),
                end == len - 1,
                self.tokens == old(self).tokens,
                spec_parse(toks, 0).0 == statements.deep_view() + spec_parse(
                    toks,
                    self.current as int,
                ).0,
                spec_parse(toks, 0).1 == self.diagnostics.deep_view() + spec_parse(
                    toks,
                    self.current as int,
                ).1,
            decreases len - self.current,
        {
            let ghost pre_cur = self.current as int;
            let ghost d = spec_declaration(toks, pre_cur);
            let ghost sts = statements.deep_view();
            let ghost dgs = self.diagnostics.deep_view();
            match self.declaration() {
                Ok(decl) => {
                    let ghost sv = decl@;
                    statements.push(decl);
                    proof {
                        assert(statements.deep_view() =~= sts + seq![sv]);
                        assert(spec_after(d.next, pre_cur, len) == self.current as int);
                        assert(spec_parse(toks, pre_cur).0 == seq![sv] + spec_parse(
                            toks,
                            self.current as int,
                        ).0);
                        assert(sts + (seq![sv] + spec_parse(toks, self.current as int).0)
                            =~= (sts + seq![sv]) + spec_parse(toks, self.current as int).0);
                        assert(dgs + (d.diags + spec_parse(toks, self.current as int).1) =~= (
                        dgs + d.diags) + spec_parse(toks, self.current as int).1);
                    }
                },
                Err(_) => {
                    proof {
                        assert(spec_after(d.next, pre_cur, len) == self.current as int);
                        assert(spec_parse(toks, pre_cur).0 == spec_parse(
                            toks,
                            self.current as int,
                        ).0);
                        assert(dgs + (d.diags + spec_parse(toks, self.current as int).1) =~= (
                        dgs + d.diags) + spec_parse(toks, self.current as int).1);
                    }
                },
            }
        }
        proof {
            assert(self.current as int == len - 1);
            assert(toks[self.current as int].token_type is Eof);
            assert(spec_parse(toks, self.current as int).0 =~= Seq::<StmtV>::empty());
            assert(spec_parse(toks, self.current as int).1 =~= Seq::<DiagnosticV>::empty());
            assert(statements.deep_view() =~= spec_parse(toks, 0).0);
            assert(self.diagnostics.deep_view() =~= spec_parse(toks, 0).1);
        }
        Some(statements)
    }

    /// One declaration, with recovery on failure.
    fn declaration(&mut self) -> (r: Result<Stmt, ParseError>)
        requires
            old(self).wf(),
        ensures
            final(self).wf(),
            ({
                let sd = spec_declaration(old(self).toks(), old(self).current as int);
                match r {
                    Ok(st) => stmt_post(*old(self), *final(self), Some(st@), sd),
                    Err(_) => stmt_post(*old(self), *final(self), None::<StmtV>, sd),
                }
            }),
            !(old(self).toks()[old(self).current as int].token_type is Eof) ==> old(
                self,
            ).current < final(self).current,
        decreases self.tokens@.len() - self.current, 16int,
    {
        let picked = if self.check(&TokenType::Var) {
            self.advance();
            self.var_declaration()
        } else {
            self.statement()
        };
        match picked {
            Ok(s) => Ok(s),
            Err(e) => {
                self.synchronize();
                Err(e)
            },
        }
    }

    /// varDecl, entered with the `var` consumed.
    fn var_declaration(&mut self) -> (r: Result<Stmt, ParseError>)
        requires
            old(self).wf(),
        ensures
            final(self).wf(),
            ({
                let sd = spec_var_declaration(old(self).toks(), old(self).current as int);
                match r {
                    Ok(st) => stmt_post(*old(self), *final(self), Some(st@), sd),
                    Err(_) => stmt_post(*old(self), *final(self), None::<StmtV>, sd),
                }
            }),
        decreases self.tokens@.len() - self.current, 15int,
    {
        let ghost toks = self.toks();
        let ghost pos = self.current as int;
        let ghost len = toks.len() as int;
        let ghost sd = spec_var_declaration(toks, pos);
        let is_ident = matches!(
            &self.peek().token_type,
            TokenType::Literal(Literal::Identifier(_)),
        );
        if !is_ident {
            let t = self.peek().clone();
            let e = self.report(t, "Expect variable name.");
            proof {
                assert(self.diagnostics.deep_view() =~= old(self).diagnostics.deep_view()
                    + sd.diags);
            }
            return Err(e);
        }
        let name = self.peek().clone();
        self.advance();
        let mut initializer: Option<Box<Expr>> = None;
        if self.check(&TokenType::Equal) {
            self.advance();
            let ghost rsub = spec_expression(toks, pos + 2);
            let e = match self.expression() {
                Ok(e) => e,
                Err(e) => {
                    return Err(e);
                },
            };
            proof {
                assert(spec_after(rsub.next, pos + 2, len) == self.current as int);
            }
            initializer = Some(e);
        }
        match self.consume(&TokenType::Semicolon, "Expected ';' after variable declaration.") {
            Ok(()) => {
                proof {
                    assert(self.diagnostics.deep_view() =~= old(self).diagnostics.deep_view()
                        + sd.diags);
                }
                Ok(Stmt::Var(Var { name, initializer }))
            },
            Err(e) => {
                proof {
                    assert(self.diagnostics.deep_view() =~= old(self).diagnostics.deep_view()
                        + sd.diags);
                }
                Err(e)
            },
        }
    }

    fn statement(&mut self) -> (r: Result<Stmt, ParseError>)
        requires
            old(self).wf(),
        ensures
            final(self).wf(),
            ({
                let sd = spec_statement(old(self).toks(), old(self).current as int);
                match r {
                    Ok(st) => stmt_post(*old(self), *final(self), Some(st@), sd),
                    Err(_) => stmt_post(*old(self), *final(self), None::<StmtV>, sd),
                }
            }),
        decreases self.tokens@.len() - self.current, 15int,
    {
        if self.check(&TokenType::Print) {
            self.advance();
            self.print_statement()
        } else {
            self.expression_statement()
        }
    }

    /// printStmt, entered with the `print` consumed.
    fn print_statement(&mut self) -> (r: Result<Stmt, ParseError>)
        requires
            old(self).wf(),
        ensures
            final(self).wf(),
            ({
                let sd = spec_print_statement(old(self).toks(), old(self).current as int);
                match r {
                    Ok(st) => stmt_post(*old(self), *final(self), Some(st@), sd),
                    Err(_) => stmt_post(*old(self), *final(self), None::<StmtV>, sd),
                }
            }),
        decreases self.tokens@.len() - self.current, 14int,
    {
        let ghost toks = self.toks();
        let ghost pos = self.current as int;
        let ghost len = toks.len() as int;
        let ghost sd = spec_print_statement(toks, pos);
        let ghost rsub = spec_expression(toks, pos);
        let expression = match self.expression() {
            Ok(e) => e,
            Err(e) => {
                return Err(e);
            },
        };
        proof {
            assert(spec_after(rsub.next, pos, len) == self.current as int);
        }
        match self.consume(&TokenType::Semicolon, "Expected ';' after value.") {
            Ok(()) => {
                proof {
                    assert(self.diagnostics.deep_view() =~= old(self).diagnostics.deep_view()
                        + sd.diags);
                }
                Ok(Stmt::Print(Print { expression }))
            },
            Err(e) => {
                proof {
                    assert(self.diagnostics.deep_view() =~= old(self).diagnostics.deep_view()
                        + sd.diags);
                }
                Err(e)
            },
        }
    }

    fn expression_statement(&mut self) -> (r: Result<Stmt, ParseError>)
        requires
            old(self).wf(),
        ensures
            final(self).wf(),
            ({
                let sd = spec_expression_statement(old(self).toks(), old(self).current as int);
                match r {
                    Ok(st) => stmt_post(*old(self), *final(self), Some(st@), sd),
                    Err(_) => stmt_post(*old(self), *final(self), None::<StmtV>, sd),
                }
            }),
        decreases self.tokens@.len() - self.current, 14int,
    {
        let ghost toks = self.toks();
        let ghost pos = self.current as int;
        let ghost len = toks.len() as int;
        let ghost sd = spec_expression_statement(toks, pos);
        let ghost rsub = spec_expression(toks, pos);
        let expression = match self.expression() {
            Ok(e) => e,
            Err(e) => {
                return Err(e);
            },
        };
        proof {
            assert(spec_after(rsub.next, pos, len) == self.current as int);
        }
        match self.consume(&TokenType::Semicolon, "Expected ';' after expression.") {
            Ok(()) => {
                proof {
                    assert(self.diagnostics.deep_view() =~= old(self).diagnostics.deep_view()
                        + sd.diags);
                }
                Ok(Stmt::Expression(Expression { expression }))
            },
            Err(e) => {
                proof {
                    assert(self.diagnostics.deep_view() =~= old(self).diagnostics.deep_view()
                        + sd.diags);
                }
                Err(e)
            },
        }
    }

    /// Discards tokens to the next statement boundary after an error.
    fn synchronize(&mut self)
        requires
            old(self).wf(),
        ensures
            final(self).wf(),
            final(self).tokens == old(self).tokens,
            final(self).diagnostics == old(self).diagnostics,
            final(self).current as int == spec_synchronize(
                old(self).toks(),
                old(self).current as int,
            ),
            old(self).current <= final(self).current,
            !(old(self).toks()[old(self).current as int].token_type is Eof) ==> old(
                self,
            ).current < final(self).current,
    {
        let ghost toks = self.toks();
        let ghost pos = self.current as int;
        let ghost len = toks.len() as int;
        self.advance();
        let ghost p0 = self.current as int;
        proof {
            assert(self.toks().len() == self.tokens@.len());
        }
        let end = self.tokens.len() - 1;
        while self.current < end
            invariant
                self.wf(),
                toks == self.toks(),
                len == toks.len(),
                end == len - 1,
                self.tokens == old(self).tokens,
                self.diagnostics == old(self).diagnostics,
                0 <= pos < len,
                pos <= p0 <= self.current < len,
                (p0 == pos + 1 && !(toks[pos].token_type is Eof)) || (p0 == pos && toks[
                    pos
                ].token_type is Eof),
                spec_sync_loop(toks, p0) == spec_sync_loop(toks, self.current as int),
            ensures
                self.wf(),
                toks == self.toks(),
                self.tokens == old(self).tokens,
                self.diagnostics == old(self).diagnostics,
                p0 <= self.current < len,
                self.current as int == spec_sync_loop(toks, p0),
            decreases len - self.current,
        {
            proof {
                if p0 == pos {
                    assert(toks[pos].token_type is Eof);
                    assert(pos == len - 1);
                    assert(false);
                }
                assert(self.current >= 1);
                assert(!(toks[self.current as int].token_type is Eof));
            }
            let prev_semi = matches!(self.previous().token_type, TokenType::Semicolon);
            if prev_semi {
                proof {
                    assert(spec_sync_loop(toks, self.current as int) == self.current as int);
                }
                break ;
            }
            let starter = matches!(
                self.peek().token_type,
                TokenType::Class
                | TokenType::Fun
                | TokenType::Var
                | TokenType::For
                | TokenType::If
                | TokenType::While
                | TokenType::Print
                | TokenType::Return,
            );
            if starter {
                proof {
                    assert(spec_starts_statement(toks[self.current as int].token_type));
                    assert(spec_sync_loop(toks, self.current as int) == self.current as int);
                }
                break ;
            }
            proof {
                assert(spec_sync_loop(toks, self.current as int) == spec_sync_loop(
                    toks,
                    self.current as int + 1,
                ));
            }
            self.advance();
        }
    }

    fn expression(&mut self) -> (r: Result<Box<Expr>, ParseError>)
        requires
            old(self).wf(),
        ensures
            final(self).wf(),
            ({
                let sr = spec_expression(old(self).toks(), old(self).current as int);
                match r {
                    Ok(e) => expr_post(*old(self), *final(self), Some(e@), sr),
                    Err(_) => expr_post(*old(self), *final(self), None::<ExprV>, sr),
                }
            }),
        decreases self.tokens@.len() - self.current, 13int,
    {
        self.assignment()
    }

    fn assignment(&mut self) -> (r: Result<Box<Expr>, ParseError>)
        requires
            old(self).wf(),
        ensures
            final(self).wf(),
            ({
                let sr = spec_assignment(old(self).toks(), old(self).current as int);
                match r {
                    Ok(e) => expr_post(*old(self), *final(self), Some(e@), sr),
                    Err(_) => expr_post(*old(self), *final(self), None::<ExprV>, sr),
                }
            }),
        decreases self.tokens@.len() - self.current, 12int,
    {
        let ghost toks = self.toks();
        let ghost pos = self.current as int;
        let expr = match self.binary_level(4) {
            Ok(e) => e,
            Err(e) => {
                return Err(e);
            },
        };
        if self.check(&TokenType::Equal) {
            let equals = self.peek().clone();
            self.advance();
            let value = match self.assignment() {
                Ok(v) => v,
                Err(e) => {
                    proof {
                        let sr = spec_assignment(toks, pos);
                        assert(self.diagnostics.deep_view() =~= old(
                            self,
                        ).diagnostics.deep_view() + sr.diags);
                    }
                    return Err(e);
                },
            };
            match *expr {
                Expr::Variable(v) => {
                    let r = Box::new(Expr::Assign(Assign { name: v.name, value }));
                    proof {
                        let sr = spec_assignment(toks, pos);
                        assert(self.diagnostics.deep_view() =~= old(
                            self,
                        ).diagnostics.deep_view() + sr.diags);
                    }
                    Ok(r)
                },
                _ => {
                    let e = self.report(equals, "Invalid assignment type.");
                    proof {
                        let sr = spec_assignment(toks, pos);
                        assert(self.diagnostics.deep_view() =~= old(
                            self,
                        ).diagnostics.deep_view() + sr.diags);
                    }
                    Err(e)
                },
            }
        } else {
            Ok(expr)
        }
    }

    /// One of the four binary precedence levels; `level` as in
    /// `spec_binary_level`.
    fn binary_level(&mut self, level: u8) -> (r: Result<Box<Expr>, ParseError>)
        requires
            old(self).wf(),
            1 <= level <= 4,
        ensures
            final(self).wf(),
            ({
                let sr = spec_binary_level(old(self).toks(), old(self).current as int, level as int);
                match r {
                    Ok(e) => expr_post(*old(self), *final(self), Some(e@), sr),
                    Err(_) => expr_post(*old(self), *final(self), None::<ExprV>, sr),
                }
            }),
        decreases self.tokens@.len() - self.current, 7int + level as int,
    {
        let ghost toks = self.toks();
        let ghost pos = self.current as int;
        let ghost len = toks.len() as int;
        let ghost lv = level as int;
        let ghost sr = spec_binary_level(toks, pos, lv);
        let first = if level == 1 {
            self.unary()
        } else {
            self.binary_level(level - 1)
        };
        let mut expr = match first {
            Ok(e) => e,
            Err(e) => {
                return Err(e);
            },
        };
        proof {
            assert(spec_after(self.current as int, pos, len) == self.current as int);
            let rop0 = if lv == 1 {
                spec_unary(toks, pos)
            } else {
                spec_binary_level(toks, pos, lv - 1)
            };
            let tail0 = spec_binary_tail(toks, expr@, self.current as int, lv);
            assert(old(self).diagnostics.deep_view() + (rop0.diags + tail0.diags) =~= (old(
                self,
            ).diagnostics.deep_view() + rop0.diags) + tail0.diags);
        }
        while self.current < self.tokens.len()
            invariant
                self.wf(),
                1 <= level <= 4,
                lv == level as int,
                toks == self.toks(),
                len == toks.len(),
                pos == old(self).current as int,
                pos < self.current < len,
                self.tokens == old(self).tokens,
                sr == spec_binary_level(toks, pos, lv),
                sr.result == spec_binary_tail(toks, expr@, self.current as int, lv).result,
                sr.next == spec_binary_tail(toks, expr@, self.current as int, lv).next,
                old(self).diagnostics.deep_view() + sr.diags == self.diagnostics.deep_view()
                    + spec_binary_tail(toks, expr@, self.current as int, lv).diags,
            ensures
                self.wf(),
                toks == self.toks(),
                pos == old(self).current as int,
                pos < self.current < len,
                self.tokens == old(self).tokens,
                sr.result == spec_binary_tail(toks, expr@, self.current as int, lv).result,
                sr.next == spec_binary_tail(toks, expr@, self.current as int, lv).next,
                old(self).diagnostics.deep_view() + sr.diags == self.diagnostics.deep_view()
                    + spec_binary_tail(toks, expr@, self.current as int, lv).diags,
                !spec_level_hit(toks[self.current as int].token_type, lv),
            decreases toks.len() - self.current,
        {
            if !self.level_hit(level) {
                break ;
            }
            let ghost it_pos = self.current as int;
            let ghost acc0 = expr@;
            let ghost diags_it = self.diagnostics.deep_view();
            let operator = self.peek().clone();
            self.advance();
            let next_operand = if level == 1 {
                self.unary()
            } else {
                self.binary_level(level - 1)
            };
            let ghost rop = if lv == 1 {
                spec_unary(toks, it_pos + 1)
            } else {
                spec_binary_level(toks, it_pos + 1, lv - 1)
            };
            let right = match next_operand {
                Ok(e) => e,
                Err(e) => {
                    proof {
                        assert(spec_binary_tail(toks, acc0, it_pos, lv) == (ExprRes {
                            result: Err::<ExprV, ()>(()),
                            next: rop.next,
                            diags: rop.diags,
                        }));
                        assert(self.diagnostics.deep_view() =~= old(
                            self,
                        ).diagnostics.deep_view() + sr.diags);
                    }
                    return Err(e);
                },
            };
            expr = Box::new(Expr::Binary(Binary { left: expr, operator, right }));
            proof {
                let folded = expr@;
                assert(spec_after(rop.next, it_pos, len) == self.current as int);
                assert(spec_binary_tail(toks, acc0, it_pos, lv).result == spec_binary_tail(
                    toks,
                    folded,
                    self.current as int,
                    lv,
                ).result);
                assert(spec_binary_tail(toks, acc0, it_pos, lv).diags == rop.diags
                    + spec_binary_tail(toks, folded, self.current as int, lv).diags);
                assert(diags_it + (rop.diags + spec_binary_tail(
                    toks,
                    folded,
                    self.current as int,
                    lv,
                ).diags) =~= (diags_it + rop.diags) + spec_binary_tail(
                    toks,
                    folded,
                    self.current as int,
                    lv,
                ).diags);
            }
        }
        proof {
            assert(spec_binary_tail(toks, expr@, self.current as int, lv) == (ExprRes {
                result: Ok::<ExprV, ()>(expr@),
                next: self.current as int,
                diags: Seq::<DiagnosticV>::empty(),
            }));
            assert(self.diagnostics.deep_view() + Seq::<DiagnosticV>::empty()
                =~= self.diagnostics.deep_view());
            assert(self.diagnostics.deep_view() =~= old(self).diagnostics.deep_view()
                + sr.diags);
        }
        Ok(expr)
    }

    /// Whether the current token is one of this level's operators.
    fn level_hit(&self, level: u8) -> (h: bool)
        requires
            self.wf(),
            1 <= level <= 4,
        ensures
            h == spec_level_hit(self.toks()[self.current as int].token_type, level as int),
            h ==> !(self.toks()[self.current as int].token_type is Eof),
    {
        if level == 1 {
            self.check(&TokenType::Slash) || self.check(&TokenType::Star)
        } else if level == 2 {
            self.check(&TokenType::Minus) || self.check(&TokenType::Plus)
        } else if level == 3 {
            self.check(&TokenType::Greater) || self.check(&TokenType::GreaterEqual) || self.check(
                &TokenType::Less,
            ) || self.check(&TokenType::LessEqual)
        } else {
            self.check(&TokenType::BangEqual) || self.check(&TokenType::EqualEqual)
        }
    }

    fn unary(&mut self) -> (r: Result<Box<Expr>, ParseError>)
        requires
            old(self).wf(),
        ensures
            final(self).wf(),
            ({
                let sr = spec_unary(old(self).toks(), old(self).current as int);
                match r {
                    Ok(e) => expr_post(*old(self), *final(self), Some(e@), sr),
                    Err(_) => expr_post(*old(self), *final(self), None::<ExprV>, sr),
                }
            }),
        decreases self.tokens@.len() - self.current, 1int,
    {
        if self.check(&TokenType::Bang) || self.check(&TokenType::Minus) {
            let operator = self.peek().clone();
            self.advance();
            match self.unary() {
                Ok(right) => Ok(Box::new(Expr::Unary(Unary { operator, right }))),
                Err(e) => Err(e),
            }
        } else {
            self.primary()
        }
    }

    fn primary(&mut self) -> (r: Result<Box<Expr>, ParseError>)
        requires
            old(self).wf(),
        ensures
            final(self).wf(),
            ({
                let sr = spec_primary(old(self).toks(), old(self).current as int);
                match r {
                    Ok(e) => expr_post(*old(self), *final(self), Some(e@), sr),
                    Err(_) => expr_post(*old(self), *final(self), None::<ExprV>, sr),
                }
            }),
        decreases self.tokens@.len() - self.current, 0int,
    {
        let ghost toks = self.toks();
        let ghost pos = self.current as int;
        let ghost len = toks.len() as int;
        if self.check(&TokenType::False) || self.check(&TokenType::True) || self.check(
            &TokenType::Nil,
        ) {
            let value = self.peek().clone();
            self.advance();
            proof {
                assert(self.diagnostics.deep_view() =~= old(self).diagnostics.deep_view()
                    + spec_primary(toks, pos).diags);
            }
            return Ok(Box::new(Expr::Literal(LiteralExpr { value })));
        }
        let is_name;
        let is_payload;
        match &self.peek().token_type {
            TokenType::Literal(Literal::Identifier(_)) => {
                is_name = true;
                is_payload = false;
            },
            TokenType::Literal(_) => {
                is_name = false;
                is_payload = true;
            },
            _ => {
                is_name = false;
                is_payload = false;
            },
        }
        if is_name {
            let name = self.peek().clone();
            self.advance();
            proof {
                assert(self.diagnostics.deep_view() =~= old(self).diagnostics.deep_view()
                    + spec_primary(toks, pos).diags);
            }
            Ok(Box::new(Expr::Variable(Variable { name })))
        } else if is_payload {
            let value = self.peek().clone();
            self.advance();
            proof {
                assert(self.diagnostics.deep_view() =~= old(self).diagnostics.deep_view()
                    + spec_primary(toks, pos).diags);
            }
            Ok(Box::new(Expr::Literal(LiteralExpr { value })))
        } else if self.check(&TokenType::LeftParen) {
            self.advance();
            let ghost rsub = spec_expression(toks, pos + 1);
            let expr = match self.expression() {
                Ok(e) => e,
                Err(e) => {
                    return Err(e);
                },
            };
            proof {
                assert(spec_after(rsub.next, pos, len) == self.current as int);
            }
            match self.consume(&TokenType::RightParen, "Expect ')' after expression.") {
                Ok(()) => Ok(expr),
                Err(e) => {
                    proof {
                        assert(self.diagnostics.deep_view() =~= old(
                            self,
                        ).diagnostics.deep_view() + spec_primary(toks, pos).diags);
                    }
                    Err(e)
                },
            }
        } else {
            let t = self.peek().clone();
            let e = self.report(t, "Expect expression.");
            proof {
                assert(self.diagnostics.deep_view() =~= old(self).diagnostics.deep_view()
                    + spec_primary(toks, pos).diags);
            }
            Err(e)
        }
    }
}

} // verus!
