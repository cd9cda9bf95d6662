//! A `return` statement carrying the returned expression.
use vstd::prelude::*;

use crate::parser::node::{spec_print_expr, view_expr, Expression};

verus! {

#[derive(Debug, PartialEq, Eq)]
pub struct ReturnStatement {
    pub value: Expression,
}

impl ReturnStatement {
    /// The canonical rendering: `return value;`.
    pub fn string(&self) -> (r: String)
        ensures
            r@ == "return "@ + spec_print_expr(view_expr(self.value)) + ";"@,
        decreases self, 0int,
    {
        let mut s = String::from_str("return ");
        let v = self.value.string();
        s.append(v.as_str());
        s.append(";");
        proof {
            assert(s@ =~= "return "@ + spec_print_expr(view_expr(self.value)) + ";"@);
        }
        s
    }
}

} // verus!
