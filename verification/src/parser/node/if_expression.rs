//! A conditional expression with an optional alternative block.
use vstd::prelude::*;

use crate::parser::node::{
    spec_print_block, spec_print_expr, view_block, view_expr, BlockStatement, Expression,
};

verus! {

#[derive(Debug, PartialEq, Eq)]
pub struct IfExpression {
    pub condition: Expression,
    pub consequence: BlockStatement,
    pub alternative: Option<BlockStatement>,
}

impl IfExpression {
    /// The canonical rendering: `if condition consequence`, then
    /// ` else alternative` when an alternative is present.
    pub fn string(&self) -> (r: String)
        ensures
            r@ == "if "@ + spec_print_expr(view_expr(self.condition)) + " "@ + spec_print_block(
                view_block(self.consequence),
            ) + match self.alternative {
                Some(a) => " else "@ + spec_print_block(view_block(a)),
                None => seq![],
            },
        decreases self, 0int,
    {
        let mut s = String::from_str("if ");
        let cond = self.condition.string();
        s.append(cond.as_str());
        s.append(" ");
        let cons = self.consequence.string();
        s.append(cons.as_str());
        match &self.alternative {
            Some(alt) => {
                s.append(" else ");
                let a = alt.string();
                s.append(a.as_str());
            },
            None => {},
        }
        proof {
            assert(s@ =~= "if "@ + spec_print_expr(view_expr(self.condition)) + " "@
                + spec_print_block(view_block(self.consequence)) + match self.alternative {
                Some(a) => " else "@ + spec_print_block(view_block(a)),
                None => seq![],
            });
        }
        s
    }
}

} // verus!
