//! A bare expression in statement position.
use vstd::prelude::*;

use crate::parser::node::{spec_print_expr, view_expr, Expression};

verus! {

#[derive(Debug, PartialEq, Eq)]
pub struct ExpressionStatement {
    pub expression: Expression,
}

impl ExpressionStatement {
    /// The canonical rendering: the expression itself.
    pub fn string(&self) -> (r: String)
        ensures
            r@ == spec_print_expr(view_expr(self.expression)),
        decreases self, 0int,
    {
        self.expression.string()
    }
}

} // verus!
