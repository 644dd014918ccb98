use vstd::prelude::*;

verus! {

#[derive(Clone, Debug, PartialEq, Eq)]
pub enum LiteralExpr {
    Number(u32),
    Bool(bool),
    String(String),
}

/// The mathematical value of a `LiteralExpr`.
pub enum LiteralView {
    Number(u32),
    Bool(bool),
    String(Seq<char>),
}

impl View for LiteralExpr {
    type V = LiteralView;

    open spec fn view(&self) -> LiteralView {
        match self {
            LiteralExpr::Number(n) => LiteralView::Number(*n),
            LiteralExpr::Bool(b) => LiteralView::Bool(*b),
            LiteralExpr::String(text) => LiteralView::String(text@),
        }
    }
}

} // verus!
