//! A `let` binding: a name and the expression bound to it.
use vstd::prelude::*;

use crate::parser::node::{spec_print_expr, view_expr, Expression};

verus! {

#[derive(Debug, PartialEq, Eq)]
pub struct LetStatement {
    pub name: String,
    pub value: Expression,
}

impl LetStatement {
    /// The canonical rendering: `let name = value;`.
    pub fn string(&self) -> (r: String)
        ensures
            r@ == "let "@ + self.name@ + " = "@ + spec_print_expr(view_expr(self.value)) + ";"@,
        decreases self, 0int,
    {
        let mut s = String::from_str("let ");
        s.append(self.name.as_str());
        s.append(" = ");
        let v = self.value.string();
        s.append(v.as_str());
        s.append(";");
        proof {
            assert(s@ =~= "let "@ + self.name@ + " = "@ + spec_print_expr(view_expr(self.value))
                + ";"@);
        }
        s
    }
}

} // verus!
