use vstd::prelude::*;
use super::Expr;

verus! {

/// A call of one expression on one input.
#[derive(Clone, Debug, PartialEq, Eq)]
pub struct CallExpr {
    pub called: Box<Expr>,
    pub input: Box<Expr>,
}

impl CallExpr {
    pub fn new(called: Expr, input: Expr) -> (r: CallExpr)
        ensures
            *r.called == called,
            *r.input == input,
    {
        Self { called: Box::new(called), input: Box::new(input) }
    }
}

} // verus!
