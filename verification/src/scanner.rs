//! The scanner: source text to tokens, in one left-to-right pass.
//!
//! `spec_scan` is the reference description: what one step consumes and
//! emits (`spec_scan_one`), iterated to the end of the input, with the
//! end-of-input sentinel appended last. `Scanner::scan_tokens` is proved
//! to produce exactly that token sequence and those diagnostics.

use vstd::prelude::*;
use core::mem;
use crate::diag::{Diagnostic, DiagnosticV, error};
use crate::num::{spec_number_value, parse_number_lexeme};
use crate::text::{
    spec_is_digit, spec_is_alpha, spec_is_alpha_numeric, spec_run_end, digit_pred, alnum_pred,
    is_digit_char, is_alpha_char, is_alpha_numeric_char, lemma_run_end_props, lemma_run_end_is,
};
use crate::token::{Token, TokenV, TokenType, TokenTypeV, Literal, LiteralV, get_token_type,
    spec_keyword_type};

verus! {

/// Characters other than a closing quote, for string scanning.
pub open spec fn nonquote_pred() -> spec_fn(char) -> bool {
    |c: char| c != '"'
}

/// Characters other than a newline, for comment scanning.
pub open spec fn nonnewline_pred() -> spec_fn(char) -> bool {
    |c: char| c != '\n'
}

/// The next line number; the counter saturates rather than wrapping.
pub open spec fn spec_line_inc(line: u32) -> u32 {
    if line < u32::MAX {
        (line + 1) as u32
    } else {
        line
    }
}

/// A line number advanced by `count` newlines, saturating.
pub open spec fn spec_line_add(line: u32, count: nat) -> u32 {
    if line + count <= u32::MAX {
        (line + count) as u32
    } else {
        u32::MAX
    }
}

/// How many newlines `s` holds in positions `from..to`.
pub open spec fn spec_newlines(s: Seq<char>, from: int, to: int) -> nat
    decreases to - from,
{
    if from >= to {
        0
    } else {
        spec_newlines(s, from, to - 1) + (if s[to - 1] == '\n' {
            1nat
        } else {
            0nat
        })
    }
}

/// What one scanning step does: the tokens and diagnostics it emits, the
/// position it leaves off at, and the line counter it leaves behind.
pub struct ScanStep {
    pub tokens: Seq<TokenV>,
    pub diags: Seq<DiagnosticV>,
    pub next: int,
    pub line: u32,
}

/// A step that emits one token whose lexeme is `src[start..end]`.
pub open spec fn spec_one_token(
    src: Seq<char>,
    start: int,
    end: int,
    t: TokenTypeV,
    line: u32,
) -> ScanStep {
    ScanStep {
        tokens: seq![
            TokenV { token_type: t, lexeme: src.subrange(start, end), line },
        ],
        diags: seq![],
        next: end,
        line,
    }
}

/// A step that emits nothing and moves on.
pub open spec fn spec_skip(next: int, line: u32) -> ScanStep {
    ScanStep { tokens: seq![], diags: seq![], next, line }
}

/// One scanning step at position `i` (which must be in range): maximal
/// munch on the two-character operators, comments and whitespace dropped,
/// strings spanning lines, numbers with an optional fraction, identifiers
/// against the keyword table, and a lexical error for anything else.
pub open spec fn spec_scan_one(src: Seq<char>, i: int, line: u32) -> ScanStep
    recommends
        0 <= i < src.len(),
{
    let c = src[i];
    let len = src.len() as int;
    if c == '(' {
        spec_one_token(src, i, i + 1, TokenTypeV::LeftParen, line)
    } else if c == ')' {
        spec_one_token(src, i, i + 1, TokenTypeV::RightParen, line)
    } else if c == '{' {
        spec_one_token(src, i, i + 1, TokenTypeV::LeftBrace, line)
    } else if c == '}' {
        spec_one_token(src, i, i + 1, TokenTypeV::RightBrace, line)
    } else if c == ',' {
        spec_one_token(src, i, i + 1, TokenTypeV::Comma, line)
    } else if c == '-' {
        spec_one_token(src, i, i + 1, TokenTypeV::Minus, line)
    } else if c == '+' {
        spec_one_token(src, i, i + 1, TokenTypeV::Plus, line)
    } else if c == ';' {
        spec_one_token(src, i, i + 1, TokenTypeV::Semicolon, line)
    } else if c == '*' {
        spec_one_token(src, i, i + 1, TokenTypeV::Star, line)
    } else if c == '!' {
        if i + 1 < len && src[i + 1] == '=' {
            spec_one_token(src, i, i + 2, TokenTypeV::BangEqual, line)
        } else {
            spec_one_token(src, i, i + 1, TokenTypeV::Bang, line)
        }
    } else if c == '=' {
        if i + 1 < len && src[i + 1] == '=' {
            spec_one_token(src, i, i + 2, TokenTypeV::EqualEqual, line)
        } else {
            spec_one_token(src, i, i + 1, TokenTypeV::Equal, line)
        }
    } else if c == '<' {
        if i + 1 < len && src[i + 1] == '=' {
            spec_one_token(src, i, i + 2, TokenTypeV::LessEqual, line)
        } else {
            spec_one_token(src, i, i + 1, TokenTypeV::Less, line)
        }
    } else if c == '>' {
        if i + 1 < len && src[i + 1] == '=' {
            spec_one_token(src, i, i + 2, TokenTypeV::GreaterEqual, line)
        } else {
            spec_one_token(src, i, i + 1, TokenTypeV::Greater, line)
        }
    } else if c == '/' {
        if i + 1 < len && src[i + 1] == '/' {
            // A line comment runs to the end of the line, which is not
            // itself consumed.
            spec_skip(spec_run_end(src, i + 2, nonnewline_pred()), line)
        } else {
            spec_one_token(src, i, i + 1, TokenTypeV::Slash, line)
        }
    } else if c == ' ' || c == '\r' || c == '\t' {
        spec_skip(i + 1, line)
    } else if c == '\n' {
        spec_skip(i + 1, spec_line_inc(line))
    } else if c == '"' {
        let e = spec_run_end(src, i + 1, nonquote_pred());
        let l2 = spec_line_add(line, spec_newlines(src, i + 1, e));
        if e == len {
            ScanStep {
                tokens: seq![],
                diags: seq![
                    DiagnosticV::Lex { line: l2, message: "Unterminated string"@ },
                ],
                next: len,
                line: l2,
            }
        } else {
            let content = src.subrange(i + 1, e);
            ScanStep {
                tokens: seq![
                    TokenV {
                        token_type: TokenTypeV::Literal(LiteralV::Str(content)),
                        // The lexeme is the exact source substring, the
                        // delimiting quotes included; only the payload is
                        // the unquoted content.
                        lexeme: src.subrange(i, e + 1),
                        line: l2,
                    },
                ],
                diags: seq![],
                next: e + 1,
                line: l2,
            }
        }
    } else if spec_is_digit(c) {
        let e1 = spec_run_end(src, i, digit_pred());
        let has_frac = e1 + 1 < len && src[e1] == '.' && spec_is_digit(src[e1 + 1]);
        let e2 = if has_frac {
            spec_run_end(src, e1 + 1, digit_pred())
        } else {
            e1
        };
        let lexeme = src.subrange(i, e2);
        spec_one_token(
            src,
            i,
            e2,
            TokenTypeV::Literal(LiteralV::Number(spec_number_value(lexeme))),
            line,
        )
    } else if spec_is_alpha(c) {
        let e = spec_run_end(src, i, alnum_pred());
        spec_one_token(src, i, e, spec_keyword_type(src.subrange(i, e)), line)
    } else {
        ScanStep {
            tokens: seq![],
            diags: seq![
                DiagnosticV::Lex { line, message: "Unexpected character."@ },
            ],
            next: i + 1,
            line,
        }
    }
}

/// A scanning step always consumes at least one character and never runs
/// past the end of the input.
pub proof fn lemma_scan_one_advances(src: Seq<char>, i: int, line: u32)
    requires
        0 <= i < src.len(),
    ensures
        i < spec_scan_one(src, i, line).next <= src.len(),
{
    let c = src[i];
    let len = src.len() as int;
    if c == '/' && i + 1 < len && src[i + 1] == '/' {
        lemma_run_end_props(src, i + 2, nonnewline_pred());
    } else if c == '"' {
        lemma_run_end_props(src, i + 1, nonquote_pred());
    } else if c == '(' || c == ')' || c == '{' || c == '}' || c == ',' || c == '-' || c == '+'
        || c == ';' || c == '*' || c == '!' || c == '=' || c == '<' || c == '>' || c == '/'
        || c == ' ' || c == '\r' || c == '\t' || c == '\n' {
    } else if spec_is_digit(c) {
        let e1 = spec_run_end(src, i, digit_pred());
        lemma_run_end_props(src, i, digit_pred());
        if e1 + 1 < len && src[e1] == '.' && spec_is_digit(src[e1 + 1]) {
            lemma_run_end_props(src, e1 + 1, digit_pred());
        }
    } else if spec_is_alpha(c) {
        lemma_run_end_props(src, i, alnum_pred());
        assert(spec_is_alpha_numeric(src[i]));
    } else {
    }
}

/// The tokens and diagnostics scanning emits from position `i` to the end
/// of the input, ending with the end-of-input sentinel.
pub open spec fn spec_scan_from(src: Seq<char>, i: int, line: u32) -> (Seq<TokenV>, Seq<
    DiagnosticV,
>)
    decreases src.len() - i,
{
    if i < 0 || i >= src.len() {
        (
            seq![
                TokenV { token_type: TokenTypeV::Eof, lexeme: Seq::<char>::empty(), line },
            ],
            seq![],
        )
    } else {
        let st = spec_scan_one(src, i, line);
        // The step provably advances (`lemma_scan_one_advances`); the
        // guard just makes that plain to the termination check.
        let nx = if st.next <= i {
            i + 1
        } else if st.next > src.len() {
            src.len() as int
        } else {
            st.next
        };
        let rest = spec_scan_from(src, nx, st.line);
        (st.tokens + rest.0, st.diags + rest.1)
    }
}

/// The whole scan of a source text: every token it holds, in order, then
/// the end-of-input sentinel; and every lexical error, in order.
pub open spec fn spec_scan(src: Seq<char>) -> (Seq<TokenV>, Seq<DiagnosticV>) {
    spec_scan_from(src, 0, 1)
}

/// No scanning step emits the end-of-input sentinel.
proof fn lemma_scan_one_no_eof(src: Seq<char>, i: int, line: u32)
    requires
        0 <= i < src.len(),
    ensures
        forall|j: int|
            0 <= j < spec_scan_one(src, i, line).tokens.len() ==> !(spec_scan_one(
                src,
                i,
                line,
            ).tokens[j].token_type is Eof),
{
}

/// A scan's token sequence is what the parser expects: nonempty, the
/// sentinel last and nowhere else.
pub proof fn lemma_scan_from_wf(src: Seq<char>, i: int, line: u32)
    ensures
        crate::parser::wf_tokens(spec_scan_from(src, i, line).0),
    decreases src.len() - i,
{
    if i < 0 || i >= src.len() {
    } else {
        let st = spec_scan_one(src, i, line);
        lemma_scan_one_advances(src, i, line);
        lemma_scan_one_no_eof(src, i, line);
        lemma_scan_from_wf(src, st.next, st.line);
        let rest = spec_scan_from(src, st.next, st.line);
        let whole = spec_scan_from(src, i, line).0;
        assert(whole == st.tokens + rest.0);
        assert(whole[whole.len() - 1] == rest.0[rest.0.len() - 1]);
        assert(forall|j: int|
            0 <= j < whole.len() - 1 ==> !(#[trigger] whole[j].token_type is Eof)) by {
            assert forall|j: int|
                0 <= j < whole.len() - 1 implies !(#[trigger] whole[j].token_type is Eof) by {
                if j < st.tokens.len() {
                    assert(whole[j] == st.tokens[j]);
                } else {
                    assert(whole[j] == rest.0[j - st.tokens.len()]);
                }
            }
        }
    }
}

/// The scanner's working state: the input, what it has emitted so far,
/// and where it stands. `start` marks the first character of the lexeme
/// being scanned, `current` the next character to look at.
pub struct Scanner {
    pub source: String,
    pub tokens: Vec<Token>,
    pub start: usize,
    pub current: usize,
    pub line: u32,
    pub diagnostics: Vec<Diagnostic>,
}

/// `post` is `pre` after performing scan step `st`: the step's tokens and
/// diagnostics appended, the position and line counter moved.
pub open spec fn step_done(pre: Scanner, post: Scanner, st: ScanStep) -> bool {
    &&& post.source@ == pre.source@
    &&& post.tokens.deep_view() == pre.tokens.deep_view() + st.tokens
    &&& post.diagnostics.deep_view() == pre.diagnostics.deep_view() + st.diags
    &&& post.current as int == st.next
    &&& post.line == st.line
}

impl Scanner {
    /// A scanner at the start of the given source, on line one.
    pub fn new(source: String) -> (s: Scanner)
        ensures
            s.source@ == source@,
            s.tokens@.len() == 0,
            s.start == 0,
            s.current == 0,
            s.line == 1,
            s.diagnostics@.len() == 0,
    {
        Scanner {
            source,
            tokens: Vec::new(),
            start: 0,
            current: 0,
            line: 1,
            diagnostics: Vec::new(),
        }
    }

    fn is_at_end(&self) -> (r: bool)
        ensures
            r == (self.current >= self.source@.len()),
    {
        self.current >= self.source.as_str().unicode_len()
    }

    /// Consumes and returns the character at `current`.
    fn advance(&mut self) -> (c: char)
        requires
            old(self).current < old(self).source@.len(),
        ensures
            c == old(self).source@[old(self).current as int],
            final(self).current == old(self).current + 1,
            final(self).source == old(self).source,
            final(self).tokens == old(self).tokens,
            final(self).start == old(self).start,
            final(self).line == old(self).line,
            final(self).diagnostics == old(self).diagnostics,
    {
        let len = self.source.as_str().unicode_len();
        proof {
            assert(self.current < len);
        }
        let c = self.source.as_str().get_char(self.current);
        self.current += 1;
        c
    }

    /// Consumes the character at `current` only if it is `expected`.
    fn match_char(&mut self, expected: char) -> (r: bool)
        ensures
            final(self).source == old(self).source,
            final(self).tokens == old(self).tokens,
            final(self).start == old(self).start,
            final(self).line == old(self).line,
            final(self).diagnostics == old(self).diagnostics,
            r == (old(self).current < old(self).source@.len() && old(self).source@[old(
                self,
            ).current as int] == expected),
            final(self).current == if r {
                old(self).current + 1
            } else {
                old(self).current as int
            },
    {
        let len = self.source.as_str().unicode_len();
        if self.current >= len {
            return false;
        }
        let c = self.source.as_str().get_char(self.current);
        if c != expected {
            return false;
        }
        self.current += 1;
        true
    }

    /// Emits a token of kind `t` whose lexeme is the source text from
    /// `start` to `current`.
    fn add_token(&mut self, t: TokenType)
        requires
            old(self).start <= old(self).current <= old(self).source@.len(),
        ensures
            final(self).tokens.deep_view() == old(self).tokens.deep_view() + seq![
                TokenV {
                    token_type: t@,
                    lexeme: old(self).source@.subrange(
                        old(self).start as int,
                        old(self).current as int,
                    ),
                    line: old(self).line,
                },
            ],
            final(self).source == old(self).source,
            final(self).start == old(self).start,
            final(self).current == old(self).current,
            final(self).line == old(self).line,
            final(self).diagnostics == old(self).diagnostics,
    {
        let text = self.source.as_str().substring_char(self.start, self.current).to_owned();
        let token = Token { token_type: t, lexeme: text, line: self.line };
        let ghost tv = token@;
        self.tokens.push(token);
        proof {
            assert(self.tokens.deep_view() =~= old(self).tokens.deep_view() + seq![tv]);
        }
    }

    /// Emits a lexical error diagnostic.
    fn add_lex_error(&mut self, message: String)
        ensures
            final(self).diagnostics.deep_view() == old(self).diagnostics.deep_view() + seq![
                DiagnosticV::Lex { line: old(self).line, message: message@ },
            ],
            final(self).source == old(self).source,
            final(self).start == old(self).start,
            final(self).current == old(self).current,
            final(self).line == old(self).line,
            final(self).tokens == old(self).tokens,
    {
        let d = error(self.line, message);
        let ghost dv = d@;
        self.diagnostics.push(d);
        proof {
            assert(self.diagnostics.deep_view() =~= old(self).diagnostics.deep_view()
                + seq![dv]);
        }
    }

    /// Bumps the line counter, saturating.
    fn bump_line(&mut self)
        ensures
            final(self).line == spec_line_inc(old(self).line),
            final(self).source == old(self).source,
            final(self).start == old(self).start,
            final(self).current == old(self).current,
            final(self).tokens == old(self).tokens,
            final(self).diagnostics == old(self).diagnostics,
    {
        if self.line < u32::MAX {
            self.line = self.line + 1;
        }
    }

    /// Scans one token (or skips whitespace or a comment, or reports one
    /// lexical error) starting at `current`.
    fn scan_token(&mut self)
        requires
            old(self).start == old(self).current,
            old(self).current < old(self).source@.len(),
        ensures
            step_done(
                *old(self),
                *final(self),
                spec_scan_one(old(self).source@, old(self).current as int, old(self).line),
            ),
            old(self).current < final(self).current <= old(self).source@.len(),
    {
        let ghost src = self.source@;
        let ghost i = self.current as int;
        let ghost l0 = self.line;
        let ghost st = spec_scan_one(src, i, l0);
        proof {
            lemma_scan_one_advances(src, i, l0);
        }
        let c = self.advance();
        match c {
            '(' => self.add_token(TokenType::LeftParen),
            ')' => self.add_token(TokenType::RightParen),
            '{' => self.add_token(TokenType::LeftBrace),
            '}' => self.add_token(TokenType::RightBrace),
            ',' => self.add_token(TokenType::Comma),
            '-' => self.add_token(TokenType::Minus),
            '+' => self.add_token(TokenType::Plus),
            ';' => self.add_token(TokenType::Semicolon),
            '*' => self.add_token(TokenType::Star),
            '!' => {
                if self.match_char('=') {
                    self.add_token(TokenType::BangEqual);
                } else {
                    self.add_token(TokenType::Bang);
                }
            },
            '=' => {
                if self.match_char('=') {
                    self.add_token(TokenType::EqualEqual);
                } else {
                    self.add_token(TokenType::Equal);
                }
            },
            '<' => {
                if self.match_char('=') {
                    self.add_token(TokenType::LessEqual);
                } else {
                    self.add_token(TokenType::Less);
                }
            },
            '>' => {
                if self.match_char('=') {
                    self.add_token(TokenType::GreaterEqual);
                } else {
                    self.add_token(TokenType::Greater);
                }
            },
            '/' => {
                if self.match_char('/') {
                    // A comment runs to the end of the line.
                    let len = self.source.as_str().unicode_len();
                    while self.current < len
                        invariant
                            i + 2 <= self.current <= len,
                            len == src.len(),
                            self.source@ == src,
                            self.start as int == i,
                            self.line == l0,
                            self.tokens == old(self).tokens,
                            self.diagnostics == old(self).diagnostics,
                            forall|j: int| i + 2 <= j < self.current ==> src[j] != '\n',
                        ensures
                            i + 2 <= self.current <= len,
                            forall|j: int| i + 2 <= j < self.current ==> src[j] != '\n',
                            self.current == len || src[self.current as int] == '\n',
                            self.source@ == src,
                            self.start as int == i,
                            self.line == l0,
                            self.tokens == old(self).tokens,
                            self.diagnostics == old(self).diagnostics,
                        decreases len - self.current,
                    {
                        let ch = self.source.as_str().get_char(self.current);
                        if ch == '\n' {
                            break ;
                        }
                        self.current += 1;
                    }
                    proof {
                        lemma_run_end_is(src, i + 2, self.current as int, nonnewline_pred());
                    }
                } else {
                    self.add_token(TokenType::Slash);
                }
            },
            ' ' => {},
            '\r' => {},
            '\t' => {},
            '\n' => self.bump_line(),
            '"' => self.string(),
            _ => {
                if is_digit_char(c) {
                    self.number();
                } else if is_alpha_char(c) {
                    self.reserved_words();
                } else {
                    self.add_lex_error(String::from_str("Unexpected character."));
                }
            },
        }
        proof {
            assert(self.tokens.deep_view() =~= old(self).tokens.deep_view() + st.tokens);
            assert(self.diagnostics.deep_view() =~= old(self).diagnostics.deep_view() + st.diags);
        }
    }

    /// Scans the whole source: every token in order, ending with the
    /// end-of-input sentinel; lexical errors collect in `diagnostics`.
    pub fn scan_tokens(&mut self) -> (tokens: Vec<Token>)
        requires
            old(self).current == 0,
            old(self).line == 1,
            old(self).tokens@.len() == 0,
            old(self).diagnostics@.len() == 0,
        ensures
            tokens.deep_view() == spec_scan(old(self).source@).0,
            final(self).diagnostics.deep_view() == spec_scan(old(self).source@).1,
            final(self).source@ == old(self).source@,
    {
        let ghost src = self.source@;
        let len = self.source.as_str().unicode_len();
        proof {
            assert(self.tokens.deep_view() =~= Seq::<TokenV>::empty());
            assert(self.diagnostics.deep_view() =~= Seq::<DiagnosticV>::empty());
            assert(self.tokens.deep_view() + spec_scan_from(src, 0, 1).0 =~= spec_scan(src).0);
            assert(self.diagnostics.deep_view() + spec_scan_from(src, 0, 1).1 =~= spec_scan(
                src,
            ).1);
        }
        while self.current < len
            invariant
                len == src.len(),
                self.source@ == src,
                self.current <= len,
                spec_scan(src).0 == self.tokens.deep_view() + spec_scan_from(
                    src,
                    self.current as int,
                    self.line,
                ).0,
                spec_scan(src).1 == self.diagnostics.deep_view() + spec_scan_from(
                    src,
                    self.current as int,
                    self.line,
                ).1,
            decreases len - self.current,
        {
            self.start = self.current;
            let ghost pre = *self;
            self.scan_token();
            proof {
                let st = spec_scan_one(src, pre.current as int, pre.line);
                lemma_scan_one_advances(src, pre.current as int, pre.line);
                assert(spec_scan_from(src, pre.current as int, pre.line).0 == st.tokens
                    + spec_scan_from(src, self.current as int, self.line).0);
                assert(spec_scan_from(src, pre.current as int, pre.line).1 == st.diags
                    + spec_scan_from(src, self.current as int, self.line).1);
                assert(self.tokens.deep_view() + spec_scan_from(
                    src,
                    self.current as int,
                    self.line,
                ).0 =~= (pre.tokens.deep_view() + st.tokens) + spec_scan_from(
                    src,
                    self.current as int,
                    self.line,
                ).0);
                assert((pre.tokens.deep_view() + st.tokens) + spec_scan_from(
                    src,
                    self.current as int,
                    self.line,
                ).0 =~= pre.tokens.deep_view() + (st.tokens + spec_scan_from(
                    src,
                    self.current as int,
                    self.line,
                ).0));
                assert(self.diagnostics.deep_view() + spec_scan_from(
                    src,
                    self.current as int,
                    self.line,
                ).1 =~= pre.diagnostics.deep_view() + (st.diags + spec_scan_from(
                    src,
                    self.current as int,
                    self.line,
                ).1));
            }
        }
        let token = Token { token_type: TokenType::Eof, lexeme: String::new(), line: self.line };
        let ghost tv = token@;
        self.tokens.push(token);
        proof {
            assert(tv.lexeme =~= Seq::<char>::empty());
            assert(spec_scan_from(src, self.current as int, self.line).0 =~= seq![tv]);
            assert(spec_scan_from(src, self.current as int, self.line).1 =~= Seq::<
                DiagnosticV,
            >::empty());
            assert(self.tokens.deep_view() =~= spec_scan(src).0);
            assert(self.diagnostics.deep_view() =~= spec_scan(src).1);
        }
        let mut out: Vec<Token> = Vec::new();
        mem::swap(&mut out, &mut self.tokens);
        out
    }

    /// Scans one string literal; `start` sits on the opening quote, which
    /// has been consumed. Multi-line strings move the line counter; an
    /// unterminated string is a lexical error, scanned to the very end.
    fn string(&mut self)
        requires
            old(self).start + 1 == old(self).current,
            old(self).current <= old(self).source@.len(),
            old(self).source@[old(self).start as int] == '"',
        ensures
            step_done(
                *old(self),
                *final(self),
                spec_scan_one(old(self).source@, old(self).start as int, old(self).line),
            ),
    {
        let ghost src = self.source@;
        let ghost i = self.start as int;
        let ghost l0 = self.line;
        let len = self.source.as_str().unicode_len();
        while self.current < len
            invariant
                i + 1 <= self.current <= len,
                len == src.len(),
                self.source@ == src,
                self.start as int == i,
                self.tokens == old(self).tokens,
                self.diagnostics == old(self).diagnostics,
                forall|j: int| i + 1 <= j < self.current ==> src[j] != '"',
                self.line == spec_line_add(l0, spec_newlines(src, i + 1, self.current as int)),
            ensures
                self.current <= len,
                forall|j: int| i + 1 <= j < self.current ==> src[j] != '"',
                self.current == len || src[self.current as int] == '"',
                self.line == spec_line_add(l0, spec_newlines(src, i + 1, self.current as int)),
                self.source@ == src,
                self.start as int == i,
                self.tokens == old(self).tokens,
                self.diagnostics == old(self).diagnostics,
            decreases len - self.current,
    {
            let c = self.source.as_str().get_char(self.current);
            if c == '"' {
                break ;
            }
            let ghost line_before = self.line;
            let ghost cur_before = self.current as int;
            if c == '\n' {
                self.bump_line();
            }
            self.current += 1;
            proof {
                assert(spec_newlines(src, i + 1, cur_before + 1) == spec_newlines(
                    src,
                    i + 1,
                    cur_before,
                ) + (if src[cur_before] == '\n' {
                    1nat
                } else {
                    0nat
                }));
            }
        }
        proof {
            lemma_run_end_is(src, i + 1, self.current as int, nonquote_pred());
        }
        let ghost st = spec_scan_one(src, i, l0);
        if self.current >= len {
            self.add_lex_error(String::from_str("Unterminated string"));
            proof {
                assert(self.tokens.deep_view() =~= old(self).tokens.deep_view() + st.tokens);
            }
        } else {
            // The closing quote.
            self.current += 1;
            let content = self.source.as_str().substring_char(self.start + 1, self.current - 1)
                .to_owned();
            let token = Token {
                token_type: TokenType::Literal(Literal::Str(content)),
                lexeme: self.source.as_str().substring_char(self.start, self.current).to_owned(),
                line: self.line,
            };
            let ghost tv = token@;
            self.tokens.push(token);
            proof {
                assert(self.tokens.deep_view() =~= old(self).tokens.deep_view() + seq![tv]);
                assert(self.tokens.deep_view() =~= old(self).tokens.deep_view() + st.tokens);
                assert(self.diagnostics.deep_view() =~= old(self).diagnostics.deep_view()
                    + st.diags);
            }
        }
    }

    /// Scans one number literal; `start` sits on its first digit, which
    /// has been consumed. A fraction needs a digit right after the point,
    /// else the point is left unconsumed.
    fn number(&mut self)
        requires
            old(self).start + 1 == old(self).current,
            old(self).current <= old(self).source@.len(),
            spec_is_digit(old(self).source@[old(self).start as int]),
        ensures
            step_done(
                *old(self),
                *final(self),
                spec_scan_one(old(self).source@, old(self).start as int, old(self).line),
            ),
    {
        let ghost src = self.source@;
        let ghost i = self.start as int;
        let len = self.source.as_str().unicode_len();
        while self.current < len
            invariant
                i + 1 <= self.current <= len,
                len == src.len(),
                self.source@ == src,
                self.start as int == i,
                self.line == old(self).line,
                self.tokens == old(self).tokens,
                self.diagnostics == old(self).diagnostics,
                forall|j: int| i <= j < self.current ==> spec_is_digit(src[j]),
            ensures
                i + 1 <= self.current <= len,
                forall|j: int| i <= j < self.current ==> spec_is_digit(src[j]),
                self.current == len || !spec_is_digit(src[self.current as int]),
                self.source@ == src,
                self.start as int == i,
                self.line == old(self).line,
                self.tokens == old(self).tokens,
                self.diagnostics == old(self).diagnostics,
            decreases len - self.current,
    {
            let c = self.source.as_str().get_char(self.current);
            if !is_digit_char(c) {
                break ;
            }
            self.current += 1;
        }
        proof {
            lemma_run_end_is(src, i, self.current as int, digit_pred());
        }
        let ghost e1 = self.current as int;
        // A fraction only counts with a digit after the point.
        if len - self.current > 1 {
            let dot = self.source.as_str().get_char(self.current);
            let after = self.source.as_str().get_char(self.current + 1);
            if dot == '.' && is_digit_char(after) {
                self.current += 2;
                while self.current < len
                    invariant
                        e1 + 2 <= self.current <= len,
                        len == src.len(),
                        self.source@ == src,
                        self.start as int == i,
                        self.line == old(self).line,
                        self.tokens == old(self).tokens,
                        self.diagnostics == old(self).diagnostics,
                        forall|j: int| e1 + 1 <= j < self.current ==> spec_is_digit(src[j]),
                    ensures
                        e1 + 2 <= self.current <= len,
                        forall|j: int| e1 + 1 <= j < self.current ==> spec_is_digit(src[j]),
                        self.current == len || !spec_is_digit(src[self.current as int]),
                        self.source@ == src,
                        self.start as int == i,
                        self.line == old(self).line,
                        self.tokens == old(self).tokens,
                        self.diagnostics == old(self).diagnostics,
                    decreases len - self.current,
    {
                    let c = self.source.as_str().get_char(self.current);
                    if !is_digit_char(c) {
                        break ;
                    }
                    self.current += 1;
                }
                proof {
                    lemma_run_end_is(src, e1 + 1, self.current as int, digit_pred());
                }
            }
        }
        let ghost e2 = self.current as int;
        let lexeme_slice = self.source.as_str().substring_char(self.start, self.current);
        let ghost lex = src.subrange(i, e2);
        proof {
            lemma_number_lexeme_shape(src, i, e1, e2);
        }
        let value = parse_number_lexeme(lexeme_slice);
        let text = lexeme_slice.to_owned();
        let token = Token {
            token_type: TokenType::Literal(Literal::Number(value)),
            lexeme: text,
            line: self.line,
        };
        let ghost tv = token@;
        self.tokens.push(token);
        proof {
            let st = spec_scan_one(src, i, old(self).line);
            assert(self.tokens.deep_view() =~= old(self).tokens.deep_view() + seq![tv]);
            assert(self.tokens.deep_view() =~= old(self).tokens.deep_view() + st.tokens);
        }
    }

    /// Scans one identifier or keyword; `start` sits on its first
    /// character, which has been consumed.
    fn reserved_words(&mut self)
        requires
            old(self).start + 1 == old(self).current,
            old(self).current <= old(self).source@.len(),
            spec_is_alpha(old(self).source@[old(self).start as int]),
        ensures
            step_done(
                *old(self),
                *final(self),
                spec_scan_one(old(self).source@, old(self).start as int, old(self).line),
            ),
    {
        let ghost src = self.source@;
        let ghost i = self.start as int;
        let len = self.source.as_str().unicode_len();
        while self.current < len
            invariant
                i + 1 <= self.current <= len,
                len == src.len(),
                self.source@ == src,
                self.start as int == i,
                self.line == old(self).line,
                self.tokens == old(self).tokens,
                self.diagnostics == old(self).diagnostics,
                forall|j: int| i <= j < self.current ==> spec_is_alpha_numeric(src[j]),
            ensures
                i + 1 <= self.current <= len,
                forall|j: int| i <= j < self.current ==> spec_is_alpha_numeric(src[j]),
                self.current == len || !spec_is_alpha_numeric(src[self.current as int]),
                self.source@ == src,
                self.start as int == i,
                self.line == old(self).line,
                self.tokens == old(self).tokens,
                self.diagnostics == old(self).diagnostics,
            decreases len - self.current,
    {
            let c = self.source.as_str().get_char(self.current);
            if !is_alpha_numeric_char(c) {
                break ;
            }
            self.current += 1;
        }
        proof {
            lemma_run_end_is(src, i, self.current as int, alnum_pred());
        }
        let text = self.source.as_str().substring_char(self.start, self.current).to_owned();
        let token_type = get_token_type(text);
        self.add_token(token_type);
        proof {
            let st = spec_scan_one(src, i, old(self).line);
            assert(self.tokens.deep_view() =~= old(self).tokens.deep_view() + st.tokens);
        }
    }
}

/// A scanned number occupies `[i, e2)` with its digit runs ending at `e1`
/// and `e2`; restated over the lexeme itself, that is the shape
/// `parse_number_lexeme` needs, and the value scanned is the value parsed.
proof fn lemma_number_lexeme_shape(src: Seq<char>, i: int, e1: int, e2: int)
    requires
        0 <= i < e1 <= e2 <= src.len(),
        forall|j: int| i <= j < e1 ==> spec_is_digit(src[j]),
        e1 == src.len() || !spec_is_digit(src[e1]),
        e1 < e2 ==> {
            &&& e1 + 2 <= e2
            &&& src[e1] == '.'
            &&& forall|j: int| e1 + 1 <= j < e2 ==> spec_is_digit(src[j])
            &&& (e2 == src.len() || !spec_is_digit(src[e2]))
        },
    ensures
        crate::num::spec_number_lexeme_wf(src.subrange(i, e2)),
        crate::num::spec_int_end(src.subrange(i, e2)) == e1 - i,
    decreases 0int,
{
    let lex = src.subrange(i, e2);
    lemma_run_end_is(lex, 0, e1 - i, digit_pred());
    if e1 < e2 {
        lemma_run_end_is(lex, e1 - i + 1, e2 - i, digit_pred());
    }
}

} // verus!
