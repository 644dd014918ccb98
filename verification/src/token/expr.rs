use vstd::prelude::*;
use super::bracket::{Bracket, BracketT};
use super::utils::{
    deliminated, delimited, lemma_first_of_bounds, lemma_trimmed_len, skip_spaces, trimmed,
};
use super::{views, Token, TokenStream, TokenT, TokenTView, TokenView};
use crate::lexer::{Punctuation, Separator};

verus! {

#[derive(Clone, Debug, PartialEq, Eq)]
pub enum LiteralExpr {
    Number(i128),
    Boolean(bool),
    String(String),
}

#[derive(Clone, Debug, PartialEq, Eq)]
pub struct IdentExpr {
    pub ident: String,
}

#[derive(Clone, Debug, PartialEq, Eq)]
pub struct CallExpr {
    pub func: Box<Expr>,
    pub input: Box<Expr>,
}

#[derive(Clone, Debug, PartialEq, Eq)]
pub struct AccesserExpr {
    pub accessed: Box<Expr>,
    pub accessing: String,
}

/// An expression read from a stream of tokens.
#[derive(Debug, PartialEq, Eq)]
pub enum Expr {
    Literal(LiteralExpr),
    Call(CallExpr),
    Accesser(AccesserExpr),
    Ident(IdentExpr),
}

/// An expression that was read from the start of a stream, and what is left of the stream.
#[derive(Clone, Debug, PartialEq, Eq)]
pub struct ParseExprResultSome {
    pub expr: Expr,
    pub rest: TokenStream,
}

pub type ParseExprResult = Option<ParseExprResultSome>;

/// The mathematical value of a `LiteralExpr`.
pub enum LiteralView {
    Number(i128),
    Boolean(bool),
    String(Seq<char>),
}

/// The mathematical value of an `Expr`: a tree over texts.
pub enum ExprView {
    Literal(LiteralView),
    Call(Box<ExprView>, Box<ExprView>),
    Accesser(Box<ExprView>, Seq<char>),
    Ident(Seq<char>),
}

impl View for LiteralExpr {
    type V = LiteralView;

    open spec fn view(&self) -> LiteralView {
        match self {
            LiteralExpr::Number(n) => LiteralView::Number(*n),
            LiteralExpr::Boolean(b) => LiteralView::Boolean(*b),
            LiteralExpr::String(text) => LiteralView::String(text@),
        }
    }
}

impl Expr {
    /// The tree that an expression stands for.
    pub open spec fn model(&self) -> ExprView
        decreases self,
    {
        match self {
            Expr::Literal(literal) => ExprView::Literal(literal@),
            Expr::Call(call) => ExprView::Call(
                Box::new(call.func.model()),
                Box::new(call.input.model()),
            ),
            Expr::Accesser(accesser) => ExprView::Accesser(
                Box::new(accesser.accessed.model()),
                accesser.accessing@,
            ),
            Expr::Ident(name) => ExprView::Ident(name.ident@),
        }
    }
}

impl Clone for Expr {
    fn clone(&self) -> (r: Expr)
        ensures
            r@ == self@,
        decreases self,
    {
        match self {
            Expr::Literal(literal) => Expr::Literal(
                match literal {
                    LiteralExpr::Number(n) => LiteralExpr::Number(*n),
                    LiteralExpr::Boolean(b) => LiteralExpr::Boolean(*b),
                    LiteralExpr::String(text) => LiteralExpr::String(text.clone()),
                },
            ),
            Expr::Call(call) => {
                let func = (*call.func).clone();
                let input = (*call.input).clone();
                Expr::Call(CallExpr { func: Box::new(func), input: Box::new(input) })
            },
            Expr::Accesser(accesser) => {
                let accessed = (*accesser.accessed).clone();
                Expr::Accesser(
                    AccesserExpr {
                        accessed: Box::new(accessed),
                        accessing: accesser.accessing.clone(),
                    },
                )
            },
            Expr::Ident(name) => Expr::Ident(IdentExpr { ident: name.ident.clone() }),
        }
    }
}

impl View for Expr {
    type V = ExprView;

    open spec fn view(&self) -> ExprView {
        self.model()
    }
}

/// The kind of an opening parenthesis.
pub open spec fn open_paren() -> TokenTView {
    TokenTView::Bracket(Bracket::Open(BracketT::Paren))
}

/// The kind of a closing parenthesis.
pub open spec fn close_paren() -> TokenTView {
    TokenTView::Bracket(Bracket::Close(BracketT::Paren))
}

/// A text literal at the start of a stream, behind whitespace or none: a double quote, a
/// quoted text, and at least one token more. The literal is the quoted text. What is left
/// of the stream is the trimmed stream without its first two tokens and without its last.
pub open spec fn parsed_literal(tokens: Seq<TokenView>) -> Option<(ExprView, Seq<TokenView>)> {
    let stream = trimmed(tokens);
    if stream.len() >= 3 && stream[0].t == TokenTView::Separator(Separator::DoubleQuote) {
        match stream[1].t {
            TokenTView::Separated(text) => Some(
                (
                    ExprView::Literal(LiteralView::String(text)),
                    stream.subrange(2, stream.len() - 1),
                ),
            ),
            _ => None,
        }
    } else {
        None
    }
}

/// An identifier at the very start of a stream, and the stream behind it.
pub open spec fn parsed_ident(tokens: Seq<TokenView>) -> Option<(ExprView, Seq<TokenView>)> {
    if tokens.len() > 0 {
        match tokens[0].t {
            TokenTView::Ident(name) => Some((ExprView::Ident(name), tokens.drop_first())),
            _ => None,
        }
    } else {
        None
    }
}

/// A call at the start of a stream, behind whitespace or none: in parentheses, the
/// expression that is called and the expression that it is called on, which is read from
/// what the first leaves, behind whitespace or none. The first closing parenthesis ends the
/// call, and what is left of the stream is what follows it.
///
/// The test on the two lengths makes the definition well founded. It never fails: see
/// `lemma_parsed_rest_len`.
pub open spec fn parsed_call(tokens: Seq<TokenView>) -> Option<(ExprView, Seq<TokenView>)>
    decreases tokens.len(), 0int,
{
    match delimited(trimmed(tokens), open_paren(), close_paren()) {
        Some((inner, rest)) => {
            proof {
                lemma_delimited_len(trimmed(tokens), open_paren(), close_paren());
                lemma_trimmed_len(tokens);
            }
            match parsed_expr(inner) {
                Some((func, after)) => if after.len() <= inner.len() {
                    proof {
                        lemma_trimmed_len(after);
                    }
                    match parsed_expr(trimmed(after)) {
                        Some((input, unused)) => Some(
                            (ExprView::Call(Box::new(func), Box::new(input)), rest),
                        ),
                        None => None,
                    }
                } else {
                    None
                },
                None => None,
            }
        },
        None => None,
    }
}

/// A member access at the start of a stream: an expression that is no member access, a
/// full stop and an identifier, with nothing between them.
pub open spec fn parsed_accesser(tokens: Seq<TokenView>) -> Option<(ExprView, Seq<TokenView>)>
    decreases tokens.len(), 2int,
{
    match parsed_not_accesser(tokens) {
        Some((accessed, rest)) => if rest.len() >= 2 && rest[0].t == TokenTView::Punctuation(
            Punctuation::FullStop,
        ) {
            match rest[1].t {
                TokenTView::Ident(name) => Some(
                    (
                        ExprView::Accesser(Box::new(accessed), name),
                        rest.subrange(2, rest.len() as int),
                    ),
                ),
                _ => None,
            }
        } else {
            None
        },
        None => None,
    }
}

/// An expression that is no member access: a call, else an identifier, else a literal.
pub open spec fn parsed_not_accesser(tokens: Seq<TokenView>) -> Option<(ExprView, Seq<TokenView>)>
    decreases tokens.len(), 1int,
{
    match parsed_call(tokens) {
        Some(found) => Some(found),
        None => match parsed_ident(tokens) {
            Some(found) => Some(found),
            None => parsed_literal(tokens),
        },
    }
}

/// An expression: a member access, else an expression that is none.
pub open spec fn parsed_expr(tokens: Seq<TokenView>) -> Option<(ExprView, Seq<TokenView>)>
    decreases tokens.len(), 3int,
{
    match parsed_accesser(tokens) {
        Some(found) => Some(found),
        None => parsed_not_accesser(tokens),
    }
}

/// Both parts of a split stream are shorter than the stream.
pub proof fn lemma_delimited_len(tokens: Seq<TokenView>, start: TokenTView, end: TokenTView)
    ensures
        delimited(tokens, start, end) matches Some((between, behind)) ==> between.len()
            < tokens.len() && behind.len() < tokens.len(),
{
    if tokens.len() > 0 {
        lemma_first_of_bounds(tokens, 1, end);
    }
}

/// What is left behind an expression is never longer than the stream it was read from.
pub proof fn lemma_parsed_rest_len(tokens: Seq<TokenView>)
    ensures
        parsed_literal(tokens) matches Some((e, rest)) ==> rest.len() <= tokens.len(),
        parsed_ident(tokens) matches Some((e, rest)) ==> rest.len() <= tokens.len(),
        parsed_call(tokens) matches Some((e, rest)) ==> rest.len() <= tokens.len(),
        parsed_not_accesser(tokens) matches Some((e, rest)) ==> rest.len() <= tokens.len(),
        parsed_accesser(tokens) matches Some((e, rest)) ==> rest.len() <= tokens.len(),
        parsed_expr(tokens) matches Some((e, rest)) ==> rest.len() <= tokens.len(),
{
    lemma_trimmed_len(tokens);
    lemma_delimited_len(trimmed(tokens), open_paren(), close_paren());
}

/// A copy of the tokens of a stream from index `from` up to index `to`.
fn copy_range(tokens: &Vec<Token>, from: usize, to: usize) -> (r: Vec<Token>)
    requires
        from <= to <= tokens.len(),
    ensures
        views(r@) == views(tokens@).subrange(from as int, to as int),
{
    let mut copies: Vec<Token> = Vec::new();
    let mut i: usize = from;
    assert(views(copies@) =~= views(tokens@).subrange(from as int, from as int));
    while i < to
        invariant
            from <= i <= to <= tokens.len(),
            views(copies@) == views(tokens@).subrange(from as int, i as int),
        decreases to - i,
    {
        let ghost before = views(copies@);
        copies.push(tokens[i].clone());
        assert(views(copies@) =~= before.push(views(tokens@)[i as int]));
        i += 1;
        assert(views(copies@) =~= views(tokens@).subrange(from as int, i as int));
    }
    copies
}

fn literal_in(tokens: &Vec<Token>) -> (r: ParseExprResult)
    ensures
        match parsed_literal(views(tokens@)) {
            Some((expr, rest)) => r matches Some(found) && found.expr@ == expr && views(
                found.rest@,
            ) == rest,
            None => r is None,
        },
{
    let stream = skip_spaces(copy_range(tokens, 0, tokens.len()));
    assert(views(tokens@).subrange(0, tokens.len() as int) =~= views(tokens@));
    if stream.len() < 3 {
        return None;
    }
    if let TokenT::Separator(Separator::DoubleQuote) = stream[0].t {
        if let TokenT::Separated(text) = &stream[1].t {
            return Some(
                ParseExprResultSome {
                    expr: Expr::Literal(LiteralExpr::String(text.clone())),
                    rest: copy_range(&stream, 2, stream.len() - 1),
                },
            );
        }
    }
    None
}

fn ident_in(tokens: &Vec<Token>) -> (r: ParseExprResult)
    ensures
        match parsed_ident(views(tokens@)) {
            Some((expr, rest)) => r matches Some(found) && found.expr@ == expr && views(
                found.rest@,
            ) == rest,
            None => r is None,
        },
{
    if tokens.len() > 0 {
        if let TokenT::Ident(ident) = &tokens[0].t {
            return Some(
                ParseExprResultSome {
                    expr: Expr::Ident(IdentExpr { ident: ident.clone() }),
                    rest: copy_range(tokens, 1, tokens.len()),
                },
            );
        }
    }
    None
}

fn call_in(tokens: &Vec<Token>) -> (r: ParseExprResult)
    ensures
        match parsed_call(views(tokens@)) {
            Some((expr, rest)) => r matches Some(found) && found.expr@ == expr && views(
                found.rest@,
            ) == rest,
            None => r is None,
        },
    decreases tokens@.len(), 0int,
{
    let stream = skip_spaces(copy_range(tokens, 0, tokens.len()));
    assert(views(tokens@).subrange(0, tokens.len() as int) =~= views(tokens@));
    proof {
        lemma_trimmed_len(views(tokens@));
        lemma_delimited_len(views(stream@), open_paren(), close_paren());
    }
    let with_paren = deliminated(
        stream,
        TokenT::Bracket(Bracket::Open(BracketT::Paren)),
        TokenT::Bracket(Bracket::Close(BracketT::Paren)),
    );
    if let Some((in_paren, rest)) = with_paren {
        if let Some(func) = expr_in(&in_paren) {
            proof {
                lemma_parsed_rest_len(views(in_paren@));
                lemma_trimmed_len(views(func.rest@));
            }
            let ParseExprResultSome { expr: called, rest: after } = func;
            let behind = skip_spaces(after);
            if let Some(input) = expr_in(&behind) {
                return Some(
                    ParseExprResultSome {
                        expr: Expr::Call(
                            CallExpr { func: Box::new(called), input: Box::new(input.expr) },
                        ),
                        rest,
                    },
                );
            }
        }
    }
    None
}

fn accesser_in(tokens: &Vec<Token>) -> (r: ParseExprResult)
    ensures
        match parsed_accesser(views(tokens@)) {
            Some((expr, rest)) => r matches Some(found) && found.expr@ == expr && views(
                found.rest@,
            ) == rest,
            None => r is None,
        },
    decreases tokens@.len(), 2int,
{
    if let Some(accessed) = not_accesser_in(tokens) {
        let ParseExprResultSome { expr, rest } = accessed;
        if rest.len() >= 2 {
            if let TokenT::Punctuation(Punctuation::FullStop) = rest[0].t {
                if let TokenT::Ident(ident) = &rest[1].t {
                    return Some(
                        ParseExprResultSome {
                            expr: Expr::Accesser(
                                AccesserExpr { accessed: Box::new(expr), accessing: ident.clone() },
                            ),
                            rest: copy_range(&rest, 2, rest.len()),
                        },
                    );
                }
            }
        }
    }
    None
}

fn not_accesser_in(tokens: &Vec<Token>) -> (r: ParseExprResult)
    ensures
        match parsed_not_accesser(views(tokens@)) {
            Some((expr, rest)) => r matches Some(found) && found.expr@ == expr && views(
                found.rest@,
            ) == rest,
            None => r is None,
        },
    decreases tokens@.len(), 1int,
{
    if let Some(call_expr) = call_in(tokens) {
        Some(call_expr)
    } else if let Some(ident_expr) = ident_in(tokens) {
        Some(ident_expr)
    } else if let Some(literal_expr) = literal_in(tokens) {
        Some(literal_expr)
    } else {
        None
    }
}

fn expr_in(tokens: &Vec<Token>) -> (r: ParseExprResult)
    ensures
        match parsed_expr(views(tokens@)) {
            Some((expr, rest)) => r matches Some(found) && found.expr@ == expr && views(
                found.rest@,
            ) == rest,
            None => r is None,
        },
    decreases tokens@.len(), 3int,
{
    if let Some(accesser_expr) = accesser_in(tokens) {
        Some(accesser_expr)
    } else if let Some(expr) = not_accesser_in(tokens) {
        Some(expr)
    } else {
        None
    }
}

impl LiteralExpr {
    pub fn parse(token_stream: TokenStream) -> (r: ParseExprResult)
        ensures
            match parsed_literal(views(token_stream@)) {
                Some((expr, rest)) => r matches Some(found) && found.expr@ == expr && views(
                    found.rest@,
                ) == rest,
                None => r is None,
            },
    {
        literal_in(&token_stream)
    }
}

impl IdentExpr {
    pub fn parse(token_stream: TokenStream) -> (r: ParseExprResult)
        ensures
            match parsed_ident(views(token_stream@)) {
                Some((expr, rest)) => r matches Some(found) && found.expr@ == expr && views(
                    found.rest@,
                ) == rest,
                None => r is None,
            },
    {
        ident_in(&token_stream)
    }
}

impl CallExpr {
    pub fn parse(token_stream: TokenStream) -> (r: ParseExprResult)
        ensures
            match parsed_call(views(token_stream@)) {
                Some((expr, rest)) => r matches Some(found) && found.expr@ == expr && views(
                    found.rest@,
                ) == rest,
                None => r is None,
            },
    {
        call_in(&token_stream)
    }
}

impl AccesserExpr {
    pub fn parse(token_stream: TokenStream) -> (r: ParseExprResult)
        ensures
            match parsed_accesser(views(token_stream@)) {
                Some((expr, rest)) => r matches Some(found) && found.expr@ == expr && views(
                    found.rest@,
                ) == rest,
                None => r is None,
            },
    {
        accesser_in(&token_stream)
    }
}

impl Expr {
    pub fn parse_not_accesser(token_stream: TokenStream) -> (r: ParseExprResult)
        ensures
            match parsed_not_accesser(views(token_stream@)) {
                Some((expr, rest)) => r matches Some(found) && found.expr@ == expr && views(
                    found.rest@,
                ) == rest,
                None => r is None,
            },
    {
        not_accesser_in(&token_stream)
    }

    pub fn parse(token_stream: TokenStream) -> (r: ParseExprResult)
        ensures
            match parsed_expr(views(token_stream@)) {
                Some((expr, rest)) => r matches Some(found) && found.expr@ == expr && views(
                    found.rest@,
                ) == rest,
                None => r is None,
            },
    {
        expr_in(&token_stream)
    }
}

} // verus!
