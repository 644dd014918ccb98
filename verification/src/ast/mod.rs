pub mod expr;
pub mod grammar;
pub mod literal;
pub mod stmt;

use vstd::prelude::*;

pub use self::expr::{
    CallExpr, Expr, ExprKind, ExprKindView, ExprView, Identifier, IdentifierExpr, LiteralExpr,
    LiteralView, StmtKindView, StmtView,
};
pub use self::grammar::{
    after_spaces, decimal_value, digits_end, lemma_digit_token, lemma_digits_end_bounds,
    lemma_digits_parse_to_their_value, lemma_expr_advances, lemma_primary_advances,
    lemma_primary_span, lemma_stmt_span, parsed_expr, parsed_let, parsed_primary, parsed_stmt,
    parsed_stmt_end,
};
pub use self::literal::Literal;
pub use self::stmt::{LetStmt, Stmt, StmtKind};
use crate::lexer::{
    chars_of, lemma_next_token_advances, lemma_next_token_span, lemma_skip_while_bounds,
    space_kinds, Bracket, Keyword, Lexer, Operator, Position, Token, TokenKind,
};

verus! {

/// Parses expressions and statements from the text that its lexer reads. Each attempt
/// either gives a node and leaves the lexer just behind it, or gives none and leaves the
/// lexer where it was.
pub struct Parser {
    pub lexer: Lexer,
}

impl Parser {
    pub fn from_lexer(lexer: Lexer) -> (r: Parser)
        ensures
            r.lexer == lexer,
    {
        Self { lexer }
    }

    pub fn from_chars(chars: Vec<char>) -> (r: Parser)
        requires
            chars@.len() <= u32::MAX,
        ensures
            r.lexer.source() == chars@,
            r.lexer.position() == 0,
            r.lexer.wf(),
    {
        Self::from_lexer(Lexer::new(chars))
    }

    /// A parser at the start of a text of at most `u32::MAX` characters.
    pub fn new(input: &str) -> (r: Parser)
        requires
            input@.len() <= u32::MAX,
        ensures
            r.lexer.source() == input@,
            r.lexer.position() == 0,
            r.lexer.wf(),
    {
        Self::from_chars(chars_of(input))
    }

    fn parse_stmt_end(lexer: &mut Lexer, expr_end: u32) -> (end: u32)
        ensures
            final(lexer).source() == old(lexer).source(),
            final(lexer).wf(),
            (end, final(lexer).position()) == parsed_stmt_end(
                old(lexer).source(),
                old(lexer).position(),
                expr_end,
            ),
    {
        lexer.ignore_spaces();
        match lexer.ignore_semicolon() {
            Some(semicolon) => semicolon.pos.end,
            None => expr_end,
        }
    }

    fn parse_let(lexer: &mut Lexer) -> (r: Option<(String, Expr)>)
        ensures
            final(lexer).source() == old(lexer).source(),
            final(lexer).wf(),
            match parsed_let(old(lexer).source(), old(lexer).position()) {
                Some((identifier, value, after)) => r matches Some(bound) && bound.0@ == identifier
                    && bound.1@ == value && final(lexer).position() == after,
                None => r is None && final(lexer).position() == old(lexer).position(),
            },
    {
        let start = lexer.mark();
        if let Some(Token { kind: TokenKind::Keyword(Keyword::Let), .. }) = lexer.bump() {
            lexer.ignore_spaces();
            if let Some(Token { kind: TokenKind::Identifier(identifier), .. }) = lexer.bump() {
                lexer.ignore_spaces();
                if let Some(Token { kind: TokenKind::Operator(Operator::Equal), .. }) = lexer.bump() {
                    lexer.ignore_spaces();
                    if let Some(value) = Self::parse_expr_inner(lexer) {
                        return Some((identifier, value));
                    }
                }
            }
        }
        lexer.rewind(start);
        None
    }

    fn parse_stmt_inner(lexer: &mut Lexer) -> (r: Option<Stmt>)
        ensures
            final(lexer).source() == old(lexer).source(),
            final(lexer).wf(),
            match parsed_stmt(old(lexer).source(), old(lexer).position()) {
                Some((stmt, next)) => r matches Some(x) && x@ == stmt && final(lexer).position()
                    == next,
                None => r is None && final(lexer).position() == old(lexer).position(),
            },
    {
        let start = lexer.mark();
        match Self::parse_let(lexer) {
            Some((identifier, value)) => {
                let end = Self::parse_stmt_end(lexer, value.pos.end);
                Some(
                    Stmt::new(
                        StmtKind::Let(LetStmt::new(identifier, value)),
                        Position::new(start, end),
                    ),
                )
            },
            None => match Self::parse_expr_inner(lexer) {
                Some(expr) => {
                    let end = Self::parse_stmt_end(lexer, expr.pos.end);
                    let pos = Position::new(expr.pos.start, end);
                    Some(Stmt::new(StmtKind::Expr(expr), pos))
                },
                None => None,
            },
        }
    }

    /// Parses an expression. Where there is none, the lexer stays where it was.
    pub fn parse_expr_call(lexer: &mut Lexer) -> (r: Option<Expr>)
        ensures
            final(lexer).source() == old(lexer).source(),
            final(lexer).wf(),
            match parsed_expr(old(lexer).source(), old(lexer).position()) {
                Some((expr, next)) => r matches Some(x) && x@ == expr && final(lexer).position()
                    == next,
                None => r is None && final(lexer).position() == old(lexer).position(),
            },
        decreases old(lexer).source().len() - old(lexer).position(), 0int,
    {
        let ghost s = lexer.source();
        let ghost pos = lexer.position();
        let called = match Self::parse_expr_not_call(lexer) {
            Some(called) => called,
            None => {
                return None;
            },
        };
        let after = lexer.mark();
        proof {
            lemma_primary_advances(s, pos);
            lemma_skip_while_bounds(s, after as int, space_kinds());
            lemma_next_token_advances(s, after_spaces(s, after as int));
        }
        lexer.ignore_spaces();
        if let Some(Token { kind: TokenKind::Bracket(Bracket::OpenParen), .. }) = lexer.bump() {
            if let Some(input) = Self::parse_expr_inner(lexer) {
                if let Some(Token { kind: TokenKind::Bracket(Bracket::CloseParen), pos: closing }) =
                    lexer.bump() {
                    let span = Position::new(called.pos.start, closing.end);
                    return Some(Expr::new(ExprKind::Call(CallExpr::new(called, input)), span));
                }
            }
        }
        lexer.rewind(after);
        Some(called)
    }

    fn parse_expr_not_call(lexer: &mut Lexer) -> (r: Option<Expr>)
        ensures
            final(lexer).source() == old(lexer).source(),
            final(lexer).wf(),
            match parsed_primary(old(lexer).source(), old(lexer).position()) {
                Some((expr, next)) => r matches Some(x) && x@ == expr && final(lexer).position()
                    == next,
                None => r is None && final(lexer).position() == old(lexer).position(),
            },
    {
        let ghost s = lexer.source();
        let start = lexer.mark();
        proof {
            lemma_next_token_advances(s, start as int);
            lemma_next_token_span(s, start as int);
            lemma_digit_token(s, start as int);
        }
        let token = match lexer.bump() {
            Some(token) => token,
            None => {
                return None;
            },
        };
        let pos = token.pos;
        match token.kind {
            TokenKind::Identifier(identifier) => Some(
                Expr::new(ExprKind::Identifier(IdentifierExpr::new(identifier)), pos),
            ),
            TokenKind::NumberChar(first) => {
                let mut value: u64 = first.to_int() as u64;
                let mut fits = true;
                proof {
                    let one = s.subrange(start as int, start + 1);
                    assert(one.drop_last().len() == 0);
                    assert(decimal_value(one.drop_last()) == 0);
                    assert(one.last() == s[start as int]);
                }
                loop
                    invariant
                        lexer.wf(),
                        lexer.source() == s,
                        s == old(lexer).source(),
                        start == old(lexer).position(),
                        0 <= start < lexer.position() <= s.len(),
                        digits_end(s, start as int) == digits_end(s, lexer.position()),
                        fits ==> value == decimal_value(s.subrange(start as int, lexer.position())),
                        fits ==> value <= u32::MAX,
                        !fits ==> decimal_value(s.subrange(start as int, lexer.position()))
                            > u32::MAX,
                    ensures
                        digits_end(s, lexer.position()) == lexer.position(),
                    decreases s.len() - lexer.position(),
                {
                    let mark = lexer.mark();
                    proof {
                        lemma_next_token_advances(s, mark as int);
                        lemma_digit_token(s, mark as int);
                        if mark < s.len() {
                            assert(s.subrange(start as int, mark + 1).drop_last() =~= s.subrange(
                                start as int,
                                mark as int,
                            ));
                        }
                    }
                    match lexer.bump() {
                        Some(Token { kind: TokenKind::NumberChar(digit), .. }) => {
                            if fits {
                                value = value * 10 + digit.to_int() as u64;
                                if value > 0xffff_ffff {
                                    fits = false;
                                }
                            }
                        },
                        Some(_) => {
                            lexer.rewind(mark);
                            break ;
                        },
                        None => {
                            break ;
                        },
                    }
                }
                if fits {
                    let end = lexer.mark() - 1;
                    Some(
                        Expr::new(
                            ExprKind::Literal(LiteralExpr::Number(value as u32)),
                            Position::new(start, end),
                        ),
                    )
                } else {
                    lexer.rewind(start);
                    None
                }
            },
            TokenKind::Keyword(Keyword::True) => Some(
                Expr::new(ExprKind::Literal(LiteralExpr::Bool(true)), pos),
            ),
            TokenKind::Keyword(Keyword::False) => Some(
                Expr::new(ExprKind::Literal(LiteralExpr::Bool(false)), pos),
            ),
            TokenKind::Separation(separation) => Some(
                Expr::new(ExprKind::Literal(LiteralExpr::String(separation.separated)), pos),
            ),
            _ => {
                lexer.rewind(start);
                None
            },
        }
    }

    fn parse_expr_inner(lexer: &mut Lexer) -> (r: Option<Expr>)
        ensures
            final(lexer).source() == old(lexer).source(),
            final(lexer).wf(),
            match parsed_expr(old(lexer).source(), old(lexer).position()) {
                Some((expr, next)) => r matches Some(x) && x@ == expr && final(lexer).position()
                    == next,
                None => r is None && final(lexer).position() == old(lexer).position(),
            },
        decreases old(lexer).source().len() - old(lexer).position(), 1int,
    {
        Self::parse_expr_call(lexer)
    }

    /// Parses an expression. Where there is none, the parser stays where it was.
    pub fn parse_expr(&mut self) -> (r: Option<Expr>)
        ensures
            final(self).lexer.source() == old(self).lexer.source(),
            final(self).lexer.wf(),
            match parsed_expr(old(self).lexer.source(), old(self).lexer.position()) {
                Some((expr, next)) => r matches Some(x) && x@ == expr && final(self).lexer.position()
                    == next,
                None => r is None && final(self).lexer.position() == old(self).lexer.position(),
            },
            r matches Some(x) ==> {
                &&& old(self).lexer.position() < final(self).lexer.position() <= old(self).lexer.source().len()
                &&& x.pos.start == old(self).lexer.position()
                &&& x.pos.end == final(self).lexer.position() - 1
            },
    {
        let r = Self::parse_expr_inner(&mut self.lexer);
        proof {
            lemma_expr_advances(old(self).lexer.source(), old(self).lexer.position());
        }
        r
    }

    /// Parses a statement. Where there is none, the parser stays where it was.
    pub fn parse_stmt(&mut self) -> (r: Option<Stmt>)
        ensures
            final(self).lexer.source() == old(self).lexer.source(),
            final(self).lexer.wf(),
            match parsed_stmt(old(self).lexer.source(), old(self).lexer.position()) {
                Some((stmt, next)) => r matches Some(x) && x@ == stmt && final(self).lexer.position()
                    == next,
                None => r is None && final(self).lexer.position() == old(self).lexer.position(),
            },
            r matches Some(x) ==> {
                &&& old(self).lexer.position() < final(self).lexer.position() <= old(self).lexer.source().len()
                &&& x.pos.start == old(self).lexer.position()
                &&& x.pos.start <= x.pos.end < final(self).lexer.position()
            },
    {
        let r = Self::parse_stmt_inner(&mut self.lexer);
        proof {
            lemma_stmt_span(old(self).lexer.source(), old(self).lexer.position());
        }
        r
    }

    pub fn reload_lexer(&mut self, lexer: Lexer)
        ensures
            final(self).lexer == lexer,
    {
        self.lexer = lexer
    }

    pub fn reload_chars(&mut self, chars: Vec<char>)
        requires
            chars@.len() <= u32::MAX,
        ensures
            final(self).lexer.source() == chars@,
            final(self).lexer.position() == 0,
            final(self).lexer.wf(),
    {
        self.reload_lexer(Lexer::new(chars))
    }

    /// Starts over at the start of another text.
    pub fn reload(&mut self, input: &str)
        requires
            input@.len() <= u32::MAX,
        ensures
            final(self).lexer.source() == input@,
            final(self).lexer.position() == 0,
            final(self).lexer.wf(),
    {
        self.reload_chars(chars_of(input))
    }
}

} // verus!
