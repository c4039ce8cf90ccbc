//! The expression and statement trees the parser builds.
//!
//! Each composite node owns its children outright: the tree is acyclic and
//! unshared, and every operation over it is a match on the closed variant
//! set.

use vstd::prelude::*;
use crate::token::{Token, TokenV};

verus! {

/// An expression.
#[derive(Debug, PartialEq)]
pub enum Expr {
    Assign(Assign),
    Binary(Binary),
    Grouping(Grouping),
    Literal(Literal),
    Unary(Unary),
    Variable(Variable),
}

/// Assignment to a variable: `name = value`.
#[derive(Debug, PartialEq)]
pub struct Assign {
    pub name: Token,
    pub value: Box<Expr>,
}

/// A binary operation: `left operator right`.
#[derive(Debug, PartialEq)]
pub struct Binary {
    pub left: Box<Expr>,
    pub operator: Token,
    pub right: Box<Expr>,
}

/// A parenthesized expression.
#[derive(Debug, PartialEq)]
pub struct Grouping {
    pub expression: Box<Expr>,
}

/// A literal, carrying the token it was read from.
#[derive(Debug, PartialEq)]
pub struct Literal {
    pub value: Token,
}

/// A prefix operation: `operator right`.
#[derive(Debug, PartialEq)]
pub struct Unary {
    pub operator: Token,
    pub right: Box<Expr>,
}

/// A variable reference.
#[derive(Debug, PartialEq)]
pub struct Variable {
    pub name: Token,
}

/// A statement.
#[derive(Debug, PartialEq)]
pub enum Stmt {
    Expression(Expression),
    Print(Print),
    Var(Var),
}

/// An expression evaluated for its effects, its value discarded.
#[derive(Debug, PartialEq)]
pub struct Expression {
    pub expression: Box<Expr>,
}

/// `print expression ;`
#[derive(Debug, PartialEq)]
pub struct Print {
    pub expression: Box<Expr>,
}

/// `var name ( = initializer )? ;`
#[derive(Debug, PartialEq)]
pub struct Var {
    pub name: Token,
    pub initializer: Option<Box<Expr>>,
}

/// Spec-level image of `Expr`.
pub enum ExprV {
    Assign { name: TokenV, value: Box<ExprV> },
    Binary { left: Box<ExprV>, operator: TokenV, right: Box<ExprV> },
    Grouping { expression: Box<ExprV> },
    Literal { value: TokenV },
    Unary { operator: TokenV, right: Box<ExprV> },
    Variable { name: TokenV },
}

/// Spec-level image of `Stmt`.
pub enum StmtV {
    Expression { expression: ExprV },
    Print { expression: ExprV },
    Var { name: TokenV, initializer: Option<ExprV> },
}

/// The spec-level image of an expression tree.
pub open spec fn spec_expr_view(e: Expr) -> ExprV
    decreases e,
{
    match e {
        Expr::Assign(a) => (ExprV::Assign {
            name: a.name@,
            value: Box::new(spec_expr_view(*a.value)),
        }),
        Expr::Binary(b) => (ExprV::Binary {
            left: Box::new(spec_expr_view(*b.left)),
            operator: b.operator@,
            right: Box::new(spec_expr_view(*b.right)),
        }),
        Expr::Grouping(g) => (ExprV::Grouping { expression: Box::new(spec_expr_view(*g.expression)) }),
        Expr::Literal(l) => (ExprV::Literal { value: l.value@ }),
        Expr::Unary(u) => (ExprV::Unary {
            operator: u.operator@,
            right: Box::new(spec_expr_view(*u.right)),
        }),
        Expr::Variable(v) => (ExprV::Variable { name: v.name@ }),
    }
}

impl View for Expr {
    type V = ExprV;

    open spec fn view(&self) -> ExprV {
        spec_expr_view(*self)
    }
}

impl DeepView for Expr {
    type V = ExprV;

    open spec fn deep_view(&self) -> ExprV {
        spec_expr_view(*self)
    }
}

impl View for Stmt {
    type V = StmtV;

    open spec fn view(&self) -> StmtV {
        match self {
            Stmt::Expression(e) => (StmtV::Expression { expression: spec_expr_view(*e.expression) }),
            Stmt::Print(p) => (StmtV::Print { expression: spec_expr_view(*p.expression) }),
            Stmt::Var(v) => (StmtV::Var {
                name: v.name@,
                initializer: match &v.initializer {
                    Some(e) => Some(spec_expr_view(**e)),
                    None => None,
                },
            }),
        }
    }
}

impl DeepView for Stmt {
    type V = StmtV;

    open spec fn deep_view(&self) -> StmtV {
        self@
    }
}

} // verus!
