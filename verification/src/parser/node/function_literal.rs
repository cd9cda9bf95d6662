//! A function literal: a parameter list and a body block.
use vstd::prelude::*;

use crate::parser::node::{
    params_string, spec_print_block, spec_print_params, view_block, view_params, BlockStatement,
};

verus! {

#[derive(Debug, PartialEq, Eq)]
pub struct FunctionLiteral {
    pub parameters: Vec<IdentifierExpression>,
    pub body: BlockStatement,
}

#[derive(Debug, PartialEq, Eq)]
pub struct IdentifierExpression {
    pub name: String,
}

impl FunctionLiteral {
    /// The canonical rendering: the parameter list in parentheses, a space,
    /// then the body.
    pub fn string(&self) -> (r: String)
        ensures
            r@ == "("@ + spec_print_params(view_params(self.parameters@), 0) + ") "@
                + spec_print_block(view_block(self.body)),
        decreases self, 0int,
    {
        let mut s = String::from_str("(");
        let params = params_string(&self.parameters, 0);
        s.append(params.as_str());
        s.append(") ");
        let body = self.body.string();
        s.append(body.as_str());
        proof {
            assert(s@ =~= "("@ + spec_print_params(view_params(self.parameters@), 0) + ") "@
                + spec_print_block(view_block(self.body)));
        }
        s
    }
}

impl IdentifierExpression {
    /// The canonical rendering: the name itself.
    pub fn string(&self) -> (r: String)
        ensures
            r@ == self.name@,
    {
        self.name.clone()
    }
}

} // verus!
