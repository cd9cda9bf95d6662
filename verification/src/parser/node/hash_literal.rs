//! A hash literal: key/value expression pairs in source order.
use vstd::prelude::*;

use crate::parser::node::{pairs_string, spec_print_pairs, view_pairs, Expression};

verus! {

#[derive(Debug, PartialEq, Eq)]
pub struct HashLiteral {
    pub pairs: Vec<(Expression, Expression)>,
}

impl HashLiteral {
    /// The canonical rendering: the `key:value` pairs in braces, comma
    /// separated, in source order.
    pub fn string(&self) -> (r: String)
        ensures
            r@ == "{"@ + spec_print_pairs(view_pairs(self.pairs@, 0), 0) + "}"@,
        decreases self, 0int,
    {
        let mut s = String::from_str("{");
        let pairs = pairs_string(&self.pairs, 0);
        s.append(pairs.as_str());
        s.append("}");
        proof {
            assert(s@ =~= "{"@ + spec_print_pairs(view_pairs(self.pairs@, 0), 0) + "}"@);
        }
        s
    }
}

} // verus!
