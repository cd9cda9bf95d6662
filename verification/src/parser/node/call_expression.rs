//! A function call: a callee expression applied to an argument list.
use vstd::prelude::*;

use crate::parser::node::{exprs_string, spec_print_expr, spec_print_exprs, view_expr, view_exprs, Expression};

verus! {

#[derive(Debug, PartialEq, Eq)]
pub struct CallExpression {
    pub function: Expression,
    pub arguments: Vec<Expression>,
}

impl CallExpression {
    /// The canonical rendering: the callee, then the arguments in
    /// parentheses, comma separated.
    pub fn string(&self) -> (r: String)
        ensures
            r@ == spec_print_expr(view_expr(self.function)) + "("@ + spec_print_exprs(
                view_exprs(self.arguments@, 0),
                0,
            ) + ")"@,
        decreases self, 0int,
    {
        let mut s = self.function.string();
        s.append("(");
        let args = exprs_string(&self.arguments, 0);
        s.append(args.as_str());
        s.append(")");
        proof {
            assert(s@ =~= spec_print_expr(view_expr(self.function)) + "("@ + spec_print_exprs(
                view_exprs(self.arguments@, 0),
                0,
            ) + ")"@);
        }
        s
    }
}

} // verus!
