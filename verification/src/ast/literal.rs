use vstd::prelude::*;

verus! {

/// A literal value with a wide number, for consumers that compute with what was parsed.
#[derive(Clone, Debug, PartialEq, Eq)]
pub enum Literal {
    Number(i128),
    Boolean(bool),
    String(String),
}

/// The mathematical value of a `Literal`.
pub enum LiteralValue {
    Number(i128),
    Boolean(bool),
    String(Seq<char>),
}

impl View for Literal {
    type V = LiteralValue;

    open spec fn view(&self) -> LiteralValue {
        match self {
            Literal::Number(n) => LiteralValue::Number(*n),
            Literal::Boolean(b) => LiteralValue::Boolean(*b),
            Literal::String(text) => LiteralValue::String(text@),
        }
    }
}

} // verus!
