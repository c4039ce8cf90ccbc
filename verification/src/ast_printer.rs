//! A parenthesized rendering of expression trees, useful when inspecting
//! what the parser built.

use vstd::prelude::*;
use crate::ast::{Expr, ExprV};

verus! {

/// The rendering: operators prefix their operands, parenthesized;
/// literals and variables show their lexeme; a grouping is labelled
/// `group`; an assignment is labelled `=`.
pub open spec fn spec_print_expr(e: ExprV) -> Seq<char>
    decreases e,
{
    match e {
        ExprV::Assign { name, value } => "(= "@ + name.lexeme + " "@ + spec_print_expr(*value)
            + ")"@,
        ExprV::Binary { left, operator, right } => "("@ + operator.lexeme + " "@
            + spec_print_expr(*left) + " "@ + spec_print_expr(*right) + ")"@,
        ExprV::Grouping { expression } => "(group "@ + spec_print_expr(*expression) + ")"@,
        ExprV::Literal { value } => value.lexeme,
        ExprV::Unary { operator, right } => "("@ + operator.lexeme + " "@ + spec_print_expr(
            *right,
        ) + ")"@,
        ExprV::Variable { name } => name.lexeme,
    }
}

pub struct AstPrinter {}

impl AstPrinter {
    /// Renders an expression tree.
    pub fn print(&self, expr: &Expr) -> (r: String)
        ensures
            r@ == spec_print_expr(expr@),
        decreases expr,
    {
        proof {
            reveal_strlit("(");
            reveal_strlit("(= ");
            reveal_strlit("(group ");
            reveal_strlit(" ");
            reveal_strlit(")");
        }
        let r = match expr {
            Expr::Assign(a) => {
                let mut s = String::from_str("(= ");
                s.append(a.name.lexeme.as_str());
                s.append(" ");
                let inner = self.print(&a.value);
                s.append(inner.as_str());
                s.append(")");
                s
            },
            Expr::Binary(b) => {
                let mut s = String::from_str("(");
                s.append(b.operator.lexeme.as_str());
                s.append(" ");
                let left = self.print(&b.left);
                s.append(left.as_str());
                s.append(" ");
                let right = self.print(&b.right);
                s.append(right.as_str());
                s.append(")");
                s
            },
            Expr::Grouping(g) => {
                let mut s = String::from_str("(group ");
                let inner = self.print(&g.expression);
                s.append(inner.as_str());
                s.append(")");
                s
            },
            Expr::Literal(l) => l.value.lexeme.clone(),
            Expr::Unary(u) => {
                let mut s = String::from_str("(");
                s.append(u.operator.lexeme.as_str());
                s.append(" ");
                let right = self.print(&u.right);
                s.append(right.as_str());
                s.append(")");
                s
            },
            Expr::Variable(v) => v.name.lexeme.clone(),
        };
        proof {
            assert(r@ =~= spec_print_expr(expr@));
        }
        r
    }
}

} // verus!
