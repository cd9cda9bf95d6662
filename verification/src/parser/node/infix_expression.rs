//! A binary application of an operator token to two subexpressions.
use vstd::prelude::*;

use crate::lexer::token::{spec_kind_str, TokenKind};
use crate::parser::node::{spec_print_expr, view_expr, Expression};

verus! {

#[derive(Debug, PartialEq, Eq)]
pub struct InfixExpression {
    pub operator: TokenKind,
    pub left: Expression,
    pub right: Expression,
}

impl InfixExpression {
    /// The canonical rendering: `(left operator right)`.
    pub fn string(&self) -> (r: String)
        ensures
            r@ == "("@ + spec_print_expr(view_expr(self.left)) + " "@ + spec_kind_str(
                self.operator@,
            ) + " "@ + spec_print_expr(view_expr(self.right)) + ")"@,
        decreases self, 0int,
    {
        let mut s = String::from_str("(");
        let left = self.left.string();
        s.append(left.as_str());
        s.append(" ");
        let op = self.operator.string();
        s.append(op.as_str());
        s.append(" ");
        let right = self.right.string();
        s.append(right.as_str());
        s.append(")");
        proof {
            assert(s@ =~= "("@ + spec_print_expr(view_expr(self.left)) + " "@ + spec_kind_str(
                self.operator@,
            ) + " "@ + spec_print_expr(view_expr(self.right)) + ")"@);
        }
        s
    }
}

} // verus!
