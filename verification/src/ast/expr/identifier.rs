use vstd::prelude::*;

verus! {

/// A name used as an expression.
#[derive(Clone, Debug, PartialEq, Eq)]
pub struct Identifier {
    pub ident: String,
}

pub type IdentifierExpr = Identifier;

impl Identifier {
    pub fn new(ident: String) -> (r: Identifier)
        ensures
            r.ident == ident,
    {
        Identifier { ident }
    }
}

} // verus!
