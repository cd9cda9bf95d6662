//! A brace-delimited block of statements.
use vstd::prelude::*;

use crate::parser::node::{spec_print_block, stmts_string, view_block, Statement};

verus! {

#[derive(Debug, PartialEq, Eq)]
pub struct BlockStatement {
    pub statements: Vec<Statement>,
}

impl BlockStatement {
    /// The canonical rendering: the statements, concatenated.
    pub fn string(&self) -> (r: String)
        ensures
            r@ == spec_print_block(view_block(*self)),
        decreases self, 0int,
    {
        stmts_string(&self.statements, 0)
    }
}

} // verus!
