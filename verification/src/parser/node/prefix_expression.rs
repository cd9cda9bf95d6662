//! A unary application of an operator token to one subexpression.
use vstd::prelude::*;

use crate::lexer::token::{spec_kind_str, TokenKind};
use crate::parser::node::{spec_print_expr, view_expr, Expression};

verus! {

#[derive(Debug, PartialEq, Eq)]
pub struct PrefixExpression {
    pub operator: TokenKind,
    pub right: Expression,
}

impl PrefixExpression {
    /// The canonical rendering: `(operator operand)` without a space.
    pub fn string(&self) -> (r: String)
        ensures
            r@ == "("@ + spec_kind_str(self.operator@) + spec_print_expr(view_expr(self.right))
                + ")"@,
        decreases self, 0int,
    {
        let mut s = String::from_str("(");
        let op = self.operator.string();
        s.append(op.as_str());
        let right = self.right.string();
        s.append(right.as_str());
        s.append(")");
        proof {
            assert(s@ =~= "("@ + spec_kind_str(self.operator@) + spec_print_expr(
                view_expr(self.right),
            ) + ")"@);
        }
        s
    }
}

} // verus!
