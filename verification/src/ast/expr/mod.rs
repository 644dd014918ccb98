pub mod call;
pub mod identifier;
pub mod literal;

use vstd::prelude::*;

pub use self::call::CallExpr;
pub use self::identifier::{Identifier, IdentifierExpr};
pub use self::literal::{LiteralExpr, LiteralView};
use crate::ast::stmt::{LetStmt, Stmt, StmtKind};
use crate::lexer::Position;

verus! {

/// What an expression is. A call owns the expression that is called and its one input.
#[derive(Clone, Debug, PartialEq, Eq)]
pub enum ExprKind {
    Identifier(IdentifierExpr),
    Call(CallExpr),
    Literal(LiteralExpr),
    Block(Vec<Stmt>),
}

/// An expression and the characters of the source text that it spans.
#[derive(Debug, PartialEq, Eq)]
pub struct Expr {
    pub kind: ExprKind,
    pub pos: Position,
}

/// The mathematical value of an `ExprKind`.
pub enum ExprKindView {
    Identifier(Seq<char>),
    Call(Box<ExprView>, Box<ExprView>),
    Literal(LiteralView),
    Block(Seq<StmtView>),
}

/// The mathematical value of an `Expr`: a tree over texts, with the span of each node.
pub struct ExprView {
    pub kind: ExprKindView,
    pub pos: Position,
}

/// The mathematical value of a `StmtKind`.
pub enum StmtKindView {
    Expr(ExprView),
    Let(Seq<char>, ExprView),
}

/// The mathematical value of a `Stmt`.
pub struct StmtView {
    pub kind: StmtKindView,
    pub pos: Position,
}

impl Expr {
    /// The tree that an expression stands for.
    pub open spec fn model(&self) -> ExprView
        decreases self,
    {
        ExprView {
            kind: match self.kind {
                ExprKind::Identifier(name) => ExprKindView::Identifier(name.ident@),
                ExprKind::Call(call) => ExprKindView::Call(
                    Box::new(call.called.model()),
                    Box::new(call.input.model()),
                ),
                ExprKind::Literal(literal) => ExprKindView::Literal(literal@),
                ExprKind::Block(stmts) => ExprKindView::Block(
                    Seq::new(
                        stmts@.len(),
                        |i: int|
                            if 0 <= i < stmts@.len() {
                                stmts@[i].model()
                            } else {
                                arbitrary()
                            },
                    ),
                ),
            },
            pos: self.pos,
        }
    }

    pub fn new(kind: ExprKind, pos: Position) -> (r: Expr)
        ensures
            r.kind == kind,
            r.pos == pos,
    {
        Self { kind, pos }
    }
}

impl Stmt {
    /// The tree that a statement stands for.
    pub open spec fn model(&self) -> StmtView
        decreases self,
    {
        StmtView {
            kind: match self.kind {
                StmtKind::Expr(expr) => StmtKindView::Expr(expr.model()),
                StmtKind::Let(binding) => StmtKindView::Let(
                    binding.identifier@,
                    binding.value.model(),
                ),
            },
            pos: self.pos,
        }
    }
}

impl Clone for Expr {
    fn clone(&self) -> (r: Expr)
        ensures
            r@ == self@,
        decreases self,
    {
        let kind = match &self.kind {
            ExprKind::Identifier(name) => ExprKind::Identifier(
                Identifier { ident: name.ident.clone() },
            ),
            ExprKind::Call(call) => {
                let called = (*call.called).clone();
                let input = (*call.input).clone();
                ExprKind::Call(CallExpr { called: Box::new(called), input: Box::new(input) })
            },
            ExprKind::Literal(literal) => ExprKind::Literal(
                match literal {
                    LiteralExpr::Number(n) => LiteralExpr::Number(*n),
                    LiteralExpr::Bool(b) => LiteralExpr::Bool(*b),
                    LiteralExpr::String(text) => LiteralExpr::String(text.clone()),
                },
            ),
            ExprKind::Block(stmts) => {
                let mut copies: Vec<Stmt> = Vec::new();
                let mut i: usize = 0;
                while i < stmts.len()
                    invariant
                        i <= stmts.len(),
                        self.kind == ExprKind::Block(*stmts),
                        copies@.len() == i,
                        forall|j: int| 0 <= j < i ==> copies@[j].model() == stmts@[j].model(),
                    decreases stmts.len() - i,
                {
                    proof {
                        vstd::std_specs::vec::axiom_vec_index_decreases(*stmts, i as int);
                        assert(decreases_to!(self.kind => self.kind->Block_0));
                        assert(self.kind->Block_0 == *stmts);
                        assert(decreases_to!(*self => self.kind));
                        assert(decreases_to!(*stmts => stmts[i as int]));
                    }
                    let copy = stmts[i].clone();
                    copies.push(copy);
                    i += 1;
                }
                let copy = Expr { kind: ExprKind::Block(copies), pos: self.pos };
                assert(copy.model().kind->Block_0 =~= self.model().kind->Block_0);
                return copy;
            },
        };
        Expr { kind, pos: self.pos }
    }
}

impl Clone for Stmt {
    fn clone(&self) -> (r: Stmt)
        ensures
            r@ == self@,
        decreases self,
    {
        let kind = match &self.kind {
            StmtKind::Expr(expr) => StmtKind::Expr(expr.clone()),
            StmtKind::Let(binding) => StmtKind::Let(
                LetStmt { identifier: binding.identifier.clone(), value: binding.value.clone() },
            ),
        };
        Stmt { kind, pos: self.pos }
    }
}

impl View for Expr {
    type V = ExprView;

    open spec fn view(&self) -> ExprView {
        self.model()
    }
}

impl View for Stmt {
    type V = StmtView;

    open spec fn view(&self) -> StmtView {
        self.model()
    }
}

} // verus!
