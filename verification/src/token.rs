//! Tokens: the shared vocabulary between the scanner and the parser.

use vstd::prelude::*;
use crate::num::Num;

verus! {

/// The payload of a literal token.
#[derive(Debug)]
pub enum Literal {
    Identifier(String),
    Str(String),
    Number(Num),
}

/// Spec-level image of `Literal`: text as character sequences.
pub enum LiteralV {
    Identifier(Seq<char>),
    Str(Seq<char>),
    Number(Num),
}

impl View for Literal {
    type V = LiteralV;

    open spec fn view(&self) -> LiteralV {
        match self {
            Literal::Identifier(s) => LiteralV::Identifier(s@),
            Literal::Str(s) => LiteralV::Str(s@),
            Literal::Number(n) => LiteralV::Number(*n),
        }
    }
}

/// The kind of a token. Single- and double-character punctuation, the
/// keywords, the literals (with their payload) and the end-of-input
/// sentinel the scanner always appends.
#[derive(Debug)]
pub enum TokenType {
    LeftParen,
    RightParen,
    LeftBrace,
    RightBrace,
    Comma,
    Dot,
    Minus,
    Plus,
    Semicolon,
    Slash,
    Star,
    Bang,
    BangEqual,
    Equal,
    EqualEqual,
    Greater,
    GreaterEqual,
    Less,
    LessEqual,
    Literal(Literal),
    And,
    Class,
    Else,
    False,
    Fun,
    For,
    If,
    Nil,
    Or,
    Print,
    Return,
    Super,
    This,
    True,
    Var,
    While,
    Eof,
}

/// Spec-level image of `TokenType`.
pub enum TokenTypeV {
    LeftParen,
    RightParen,
    LeftBrace,
    RightBrace,
    Comma,
    Dot,
    Minus,
    Plus,
    Semicolon,
    Slash,
    Star,
    Bang,
    BangEqual,
    Equal,
    EqualEqual,
    Greater,
    GreaterEqual,
    Less,
    LessEqual,
    Literal(LiteralV),
    And,
    Class,
    Else,
    False,
    Fun,
    For,
    If,
    Nil,
    Or,
    Print,
    Return,
    Super,
    This,
    True,
    Var,
    While,
    Eof,
}

impl View for TokenType {
    type V = TokenTypeV;

    open spec fn view(&self) -> TokenTypeV {
        match self {
            TokenType::LeftParen => TokenTypeV::LeftParen,
            TokenType::RightParen => TokenTypeV::RightParen,
            TokenType::LeftBrace => TokenTypeV::LeftBrace,
            TokenType::RightBrace => TokenTypeV::RightBrace,
            TokenType::Comma => TokenTypeV::Comma,
            TokenType::Dot => TokenTypeV::Dot,
            TokenType::Minus => TokenTypeV::Minus,
            TokenType::Plus => TokenTypeV::Plus,
            TokenType::Semicolon => TokenTypeV::Semicolon,
            TokenType::Slash => TokenTypeV::Slash,
            TokenType::Star => TokenTypeV::Star,
            TokenType::Bang => TokenTypeV::Bang,
            TokenType::BangEqual => TokenTypeV::BangEqual,
            TokenType::Equal => TokenTypeV::Equal,
            TokenType::EqualEqual => TokenTypeV::EqualEqual,
            TokenType::Greater => TokenTypeV::Greater,
            TokenType::GreaterEqual => TokenTypeV::GreaterEqual,
            TokenType::Less => TokenTypeV::Less,
            TokenType::LessEqual => TokenTypeV::LessEqual,
            TokenType::Literal(l) => TokenTypeV::Literal(l@),
            TokenType::And => TokenTypeV::And,
            TokenType::Class => TokenTypeV::Class,
            TokenType::Else => TokenTypeV::Else,
            TokenType::False => TokenTypeV::False,
            TokenType::Fun => TokenTypeV::Fun,
            TokenType::For => TokenTypeV::For,
            TokenType::If => TokenTypeV::If,
            TokenType::Nil => TokenTypeV::Nil,
            TokenType::Or => TokenTypeV::Or,
            TokenType::Print => TokenTypeV::Print,
            TokenType::Return => TokenTypeV::Return,
            TokenType::Super => TokenTypeV::Super,
            TokenType::This => TokenTypeV::This,
            TokenType::True => TokenTypeV::True,
            TokenType::Var => TokenTypeV::Var,
            TokenType::While => TokenTypeV::While,
            TokenType::Eof => TokenTypeV::Eof,
        }
    }
}

impl Clone for Literal {
    fn clone(&self) -> (r: Self)
        ensures
            r@ == self@,
    {
        match self {
            Literal::Identifier(s) => Literal::Identifier(s.clone()),
            Literal::Str(s) => Literal::Str(s.clone()),
            Literal::Number(n) => Literal::Number(*n),
        }
    }
}

impl PartialEq for Literal {
    fn eq(&self, other: &Literal) -> (r: bool) {
        match (self, other) {
            (Literal::Identifier(a), Literal::Identifier(b)) => *a == *b,
            (Literal::Str(a), Literal::Str(b)) => *a == *b,
            (Literal::Number(a), Literal::Number(b)) => *a == *b,
            _ => false,
        }
    }
}

impl vstd::std_specs::cmp::PartialEqSpecImpl for Literal {
    open spec fn obeys_eq_spec() -> bool {
        true
    }

    open spec fn eq_spec(&self, other: &Literal) -> bool {
        self@ == other@
    }
}

impl Clone for TokenType {
    fn clone(&self) -> (r: Self)
        ensures
            r@ == self@,
    {
        match self {
            TokenType::LeftParen => TokenType::LeftParen,
            TokenType::RightParen => TokenType::RightParen,
            TokenType::LeftBrace => TokenType::LeftBrace,
            TokenType::RightBrace => TokenType::RightBrace,
            TokenType::Comma => TokenType::Comma,
            TokenType::Dot => TokenType::Dot,
            TokenType::Minus => TokenType::Minus,
            TokenType::Plus => TokenType::Plus,
            TokenType::Semicolon => TokenType::Semicolon,
            TokenType::Slash => TokenType::Slash,
            TokenType::Star => TokenType::Star,
            TokenType::Bang => TokenType::Bang,
            TokenType::BangEqual => TokenType::BangEqual,
            TokenType::Equal => TokenType::Equal,
            TokenType::EqualEqual => TokenType::EqualEqual,
            TokenType::Greater => TokenType::Greater,
            TokenType::GreaterEqual => TokenType::GreaterEqual,
            TokenType::Less => TokenType::Less,
            TokenType::LessEqual => TokenType::LessEqual,
            TokenType::Literal(l) => TokenType::Literal(l.clone()),
            TokenType::And => TokenType::And,
            TokenType::Class => TokenType::Class,
            TokenType::Else => TokenType::Else,
            TokenType::False => TokenType::False,
            TokenType::Fun => TokenType::Fun,
            TokenType::For => TokenType::For,
            TokenType::If => TokenType::If,
            TokenType::Nil => TokenType::Nil,
            TokenType::Or => TokenType::Or,
            TokenType::Print => TokenType::Print,
            TokenType::Return => TokenType::Return,
            TokenType::Super => TokenType::Super,
            TokenType::This => TokenType::This,
            TokenType::True => TokenType::True,
            TokenType::Var => TokenType::Var,
            TokenType::While => TokenType::While,
            TokenType::Eof => TokenType::Eof,
        }
    }
}

impl PartialEq for TokenType {
    fn eq(&self, other: &TokenType) -> (r: bool) {
        match (self, other) {
            (TokenType::LeftParen, TokenType::LeftParen) => true,
            (TokenType::RightParen, TokenType::RightParen) => true,
            (TokenType::LeftBrace, TokenType::LeftBrace) => true,
            (TokenType::RightBrace, TokenType::RightBrace) => true,
            (TokenType::Comma, TokenType::Comma) => true,
            (TokenType::Dot, TokenType::Dot) => true,
            (TokenType::Minus, TokenType::Minus) => true,
            (TokenType::Plus, TokenType::Plus) => true,
            (TokenType::Semicolon, TokenType::Semicolon) => true,
            (TokenType::Slash, TokenType::Slash) => true,
            (TokenType::Star, TokenType::Star) => true,
            (TokenType::Bang, TokenType::Bang) => true,
            (TokenType::BangEqual, TokenType::BangEqual) => true,
            (TokenType::Equal, TokenType::Equal) => true,
            (TokenType::EqualEqual, TokenType::EqualEqual) => true,
            (TokenType::Greater, TokenType::Greater) => true,
            (TokenType::GreaterEqual, TokenType::GreaterEqual) => true,
            (TokenType::Less, TokenType::Less) => true,
            (TokenType::LessEqual, TokenType::LessEqual) => true,
            (TokenType::Literal(a), TokenType::Literal(b)) => *a == *b,
            (TokenType::And, TokenType::And) => true,
            (TokenType::Class, TokenType::Class) => true,
            (TokenType::Else, TokenType::Else) => true,
            (TokenType::False, TokenType::False) => true,
            (TokenType::Fun, TokenType::Fun) => true,
            (TokenType::For, TokenType::For) => true,
            (TokenType::If, TokenType::If) => true,
            (TokenType::Nil, TokenType::Nil) => true,
            (TokenType::Or, TokenType::Or) => true,
            (TokenType::Print, TokenType::Print) => true,
            (TokenType::Return, TokenType::Return) => true,
            (TokenType::Super, TokenType::Super) => true,
            (TokenType::This, TokenType::This) => true,
            (TokenType::True, TokenType::True) => true,
            (TokenType::Var, TokenType::Var) => true,
            (TokenType::While, TokenType::While) => true,
            (TokenType::Eof, TokenType::Eof) => true,
            _ => false,
        }
    }
}

impl vstd::std_specs::cmp::PartialEqSpecImpl for TokenType {
    open spec fn obeys_eq_spec() -> bool {
        true
    }

    open spec fn eq_spec(&self, other: &TokenType) -> bool {
        self@ == other@
    }
}

/// A token: its kind, the exact source text it was read from, and the
/// line it ended on.
#[derive(Debug, PartialEq)]
pub struct Token {
    pub token_type: TokenType,
    pub lexeme: String,
    pub line: u32,
}

/// Spec-level image of `Token`.
pub struct TokenV {
    pub token_type: TokenTypeV,
    pub lexeme: Seq<char>,
    pub line: u32,
}

impl View for Token {
    type V = TokenV;

    open spec fn view(&self) -> TokenV {
        TokenV { token_type: self.token_type@, lexeme: self.lexeme@, line: self.line }
    }
}

impl Clone for Token {
    fn clone(&self) -> (r: Self)
        ensures
            r@ == self@,
    {
        Token { token_type: self.token_type.clone(), lexeme: self.lexeme.clone(), line: self.line }
    }
}

impl DeepView for Token {
    type V = TokenV;

    open spec fn deep_view(&self) -> TokenV {
        self@
    }
}

/// The kind an identifier-shaped lexeme scans to: one of the sixteen
/// keywords, or an identifier literal carrying its own text.
pub open spec fn spec_keyword_type(s: Seq<char>) -> TokenTypeV {
    if s == "and"@ {
        TokenTypeV::And
    } else if s == "class"@ {
        TokenTypeV::Class
    } else if s == "else"@ {
        TokenTypeV::Else
    } else if s == "false"@ {
        TokenTypeV::False
    } else if s == "fun"@ {
        TokenTypeV::Fun
    } else if s == "for"@ {
        TokenTypeV::For
    } else if s == "if"@ {
        TokenTypeV::If
    } else if s == "nil"@ {
        TokenTypeV::Nil
    } else if s == "or"@ {
        TokenTypeV::Or
    } else if s == "print"@ {
        TokenTypeV::Print
    } else if s == "return"@ {
        TokenTypeV::Return
    } else if s == "super"@ {
        TokenTypeV::Super
    } else if s == "this"@ {
        TokenTypeV::This
    } else if s == "true"@ {
        TokenTypeV::True
    } else if s == "var"@ {
        TokenTypeV::Var
    } else if s == "while"@ {
        TokenTypeV::While
    } else {
        TokenTypeV::Literal(LiteralV::Identifier(s))
    }
}

/// Looks an identifier-shaped lexeme up in the keyword table.
pub fn get_token_type(literal: String) -> (t: TokenType)
    ensures
        t@ == spec_keyword_type(literal@),
{
    if literal == String::from_str("and") {
        TokenType::And
    } else if literal == String::from_str("class") {
        TokenType::Class
    } else if literal == String::from_str("else") {
        TokenType::Else
    } else if literal == String::from_str("false") {
        TokenType::False
    } else if literal == String::from_str("fun") {
        TokenType::Fun
    } else if literal == String::from_str("for") {
        TokenType::For
    } else if literal == String::from_str("if") {
        TokenType::If
    } else if literal == String::from_str("nil") {
        TokenType::Nil
    } else if literal == String::from_str("or") {
        TokenType::Or
    } else if literal == String::from_str("print") {
        TokenType::Print
    } else if literal == String::from_str("return") {
        TokenType::Return
    } else if literal == String::from_str("super") {
        TokenType::Super
    } else if literal == String::from_str("this") {
        TokenType::This
    } else if literal == String::from_str("true") {
        TokenType::True
    } else if literal == String::from_str("var") {
        TokenType::Var
    } else if literal == String::from_str("while") {
        TokenType::While
    } else {
        TokenType::Literal(Literal::Identifier(literal))
    }
}

} // verus!
