//! Runtime values and their display forms.

use vstd::prelude::*;
use crate::num::{Num, spec_display, spec_approx_eq};
use crate::token::{TokenType, TokenTypeV, Literal, LiteralV};

verus! {

/// A runtime value: text, a number, a boolean, or nil.
#[derive(Debug, PartialEq)]
pub enum Value {
    Str(String),
    Num(Num),
    Bool(bool),
    Nil,
}

/// Spec-level image of `Value`.
pub enum ValueV {
    Str(Seq<char>),
    Num(Num),
    Bool(bool),
    Nil,
}

impl View for Value {
    type V = ValueV;

    open spec fn view(&self) -> ValueV {
        match self {
            Value::Str(s) => ValueV::Str(s@),
            Value::Num(n) => ValueV::Num(*n),
            Value::Bool(b) => ValueV::Bool(*b),
            Value::Nil => ValueV::Nil,
        }
    }
}

impl Clone for Value {
    fn clone(&self) -> (r: Self)
        ensures
            r@ == self@,
    {
        match self {
            Value::Str(s) => Value::Str(s.clone()),
            Value::Num(n) => Value::Num(*n),
            Value::Bool(b) => Value::Bool(*b),
            Value::Nil => Value::Nil,
        }
    }
}

/// The value a literal token denotes: its payload for number and string
/// literals, the booleans for `true` and `false`, and nil otherwise.
/// An identifier payload falls through to its name as text.
pub open spec fn spec_value_of_token_type(t: TokenTypeV) -> ValueV {
    match t {
        TokenTypeV::Literal(LiteralV::Identifier(s)) => ValueV::Str(s),
        TokenTypeV::Literal(LiteralV::Number(n)) => ValueV::Num(n),
        TokenTypeV::Literal(LiteralV::Str(s)) => ValueV::Str(s),
        TokenTypeV::False => ValueV::Bool(false),
        TokenTypeV::True => ValueV::Bool(true),
        _ => ValueV::Nil,
    }
}

/// Truthiness: nil and false are falsy, every other value is truthy
/// (zero and the empty string included).
pub open spec fn spec_truthy(v: ValueV) -> bool {
    match v {
        ValueV::Nil => false,
        ValueV::Bool(b) => b,
        _ => true,
    }
}

/// The language's equality: nil equals only nil, numbers compare with the
/// one-millionth tolerance, and everything else compares structurally;
/// values of different kinds are never equal.
pub open spec fn spec_is_equal(a: ValueV, b: ValueV) -> bool {
    match (a, b) {
        (ValueV::Nil, ValueV::Nil) => true,
        (ValueV::Num(x), ValueV::Num(y)) => spec_approx_eq(x, y),
        (ValueV::Str(x), ValueV::Str(y)) => x == y,
        (ValueV::Bool(x), ValueV::Bool(y)) => x == y,
        _ => false,
    }
}

/// The display form a value prints as: raw text for strings, the decimal
/// form for numbers, `true`/`false` and `nil` for the rest.
pub open spec fn spec_display_value(v: ValueV) -> Seq<char> {
    match v {
        ValueV::Str(s) => s,
        ValueV::Num(n) => spec_display(n),
        ValueV::Bool(b) => if b {
            seq!['t', 'r', 'u', 'e']
        } else {
            seq!['f', 'a', 'l', 's', 'e']
        },
        ValueV::Nil => seq!['n', 'i', 'l'],
    }
}

impl Value {
    /// Builds the value a literal token denotes.
    pub fn from_token_type(t: &TokenType) -> (r: Value)
        ensures
            r@ == spec_value_of_token_type(t@),
    {
        match t {
            TokenType::Literal(Literal::Identifier(s)) => Value::Str(s.clone()),
            TokenType::Literal(Literal::Number(n)) => Value::Num(*n),
            TokenType::Literal(Literal::Str(s)) => Value::Str(s.clone()),
            TokenType::False => Value::Bool(false),
            TokenType::True => Value::Bool(true),
            _ => Value::Nil,
        }
    }

    /// Renders the value as `print` shows it.
    pub fn to_display_string(&self) -> (r: String)
        ensures
            r@ == spec_display_value(self@),
    {
        match self {
            Value::Str(s) => s.clone(),
            Value::Num(n) => n.to_display_string(),
            Value::Bool(b) => {
                proof {
                    reveal_strlit("true");
                    reveal_strlit("false");
                }
                let r = if *b {
                    String::from_str("true")
                } else {
                    String::from_str("false")
                };
                proof {
                    assert(r@ =~= spec_display_value(self@));
                }
                r
            },
            Value::Nil => {
                proof {
                    reveal_strlit("nil");
                }
                let r = String::from_str("nil");
                proof {
                    assert(r@ =~= spec_display_value(self@));
                }
                r
            },
        }
    }
}

/// Whether two values are equal under the language's policy.
pub fn is_equal(a: &Value, b: &Value) -> (r: bool)
    ensures
        r == spec_is_equal(a@, b@),
{
    match (a, b) {
        (Value::Nil, Value::Nil) => true,
        (Value::Num(x), Value::Num(y)) => x.approx_eq(*y),
        (Value::Str(x), Value::Str(y)) => *x == *y,
        (Value::Bool(x), Value::Bool(y)) => *x == *y,
        _ => false,
    }
}

/// Whether a value counts as true.
pub fn is_truthy(v: &Value) -> (r: bool)
    ensures
        r == spec_truthy(v@),
{
    match v {
        Value::Nil => false,
        Value::Bool(b) => *b,
        _ => true,
    }
}

} // verus!
