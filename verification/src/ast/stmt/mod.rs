use vstd::prelude::*;
use crate::ast::expr::Expr;
use crate::lexer::Position;

verus! {

/// A binding of a name to the value of an expression.
#[derive(Clone, Debug, PartialEq, Eq)]
pub struct LetStmt {
    pub identifier: String,
    pub value: Expr,
}

impl LetStmt {
    pub fn new(identifier: String, value: Expr) -> (r: LetStmt)
        ensures
            r.identifier == identifier,
            r.value == value,
    {
        Self { identifier, value }
    }
}

/// What a statement is: an expression, or a binding.
#[derive(Clone, Debug, PartialEq, Eq)]
pub enum StmtKind {
    Expr(Expr),
    Let(LetStmt),
}

/// A statement and the characters of the source text that it spans, up to its semicolon
/// where it has one.
#[derive(Debug, PartialEq, Eq)]
pub struct Stmt {
    pub kind: StmtKind,
    pub pos: Position,
}

impl Stmt {
    pub fn new(kind: StmtKind, pos: Position) -> (r: Stmt)
        ensures
            r.kind == kind,
            r.pos == pos,
    {
        Self { kind, pos }
    }
}

} // verus!
