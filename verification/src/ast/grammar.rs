use vstd::prelude::*;
use super::expr::{ExprKindView, ExprView, LiteralView, StmtKindView, StmtView};
use crate::lexer::{
    lemma_next_token_advances, lemma_next_token_span, lemma_skip_while_bounds, next_token,
    semicolon_kinds, skip_while, space_kinds, Bracket, Keyword, NumberChar, Operator, Position,
    TokenKindView,
};

verus! {

/// The first index from `from` on at which no digit stands, or the length of `s` if digits
/// stand from there to the end.
pub open spec fn digits_end(s: Seq<char>, from: int) -> int
    decreases s.len() - from,
{
    if from < 0 || from >= s.len() {
        s.len() as int
    } else if NumberChar::of_char(s[from]) is None {
        from
    } else {
        digits_end(s, from + 1)
    }
}

/// The number that a text of digits writes in base ten, read from left to right.
pub open spec fn decimal_value(digits: Seq<char>) -> nat
    decreases digits.len(),
{
    if digits.len() == 0 {
        0
    } else {
        decimal_value(digits.drop_last()) * 10 + match NumberChar::of_char(digits.last()) {
            Some(d) => d.value(),
            None => 0,
        }
    }
}

/// The primary expression that starts at index `pos` of `s`, with the index just behind it:
/// an identifier, a run of digits, `true`, `false` or a quoted text. A run of digits whose
/// value does not fit 32 bits is no expression.
pub open spec fn parsed_primary(s: Seq<char>, pos: int) -> Option<(ExprView, int)> {
    match next_token(s, pos) {
        None => None,
        Some((token, next)) => match token.kind {
            TokenKindView::Identifier(name) => Some(
                (ExprView { kind: ExprKindView::Identifier(name), pos: token.pos }, next),
            ),
            TokenKindView::NumberChar(_) => {
                let end = digits_end(s, pos);
                let value = decimal_value(s.subrange(pos, end));
                if value <= u32::MAX {
                    Some(
                        (
                            ExprView {
                                kind: ExprKindView::Literal(LiteralView::Number(value as u32)),
                                pos: Position { start: pos as u32, end: (end - 1) as u32 },
                            },
                            end,
                        ),
                    )
                } else {
                    None
                }
            },
            TokenKindView::Keyword(Keyword::True) => Some(
                (
                    ExprView {
                        kind: ExprKindView::Literal(LiteralView::Bool(true)),
                        pos: token.pos,
                    },
                    next,
                ),
            ),
            TokenKindView::Keyword(Keyword::False) => Some(
                (
                    ExprView {
                        kind: ExprKindView::Literal(LiteralView::Bool(false)),
                        pos: token.pos,
                    },
                    next,
                ),
            ),
            TokenKindView::Separation(quoted) => Some(
                (
                    ExprView {
                        kind: ExprKindView::Literal(LiteralView::String(quoted.separated)),
                        pos: token.pos,
                    },
                    next,
                ),
            ),
            _ => None,
        },
    }
}

/// The index behind the whitespace that starts at index `pos`.
pub open spec fn after_spaces(s: Seq<char>, pos: int) -> int {
    skip_while(s, pos, space_kinds()).0
}

/// The expression that starts at index `pos` of `s`, with the index just behind it.
///
/// It is a primary expression, or a call: a primary expression, whitespace or none, `(`, an
/// expression and `)`. Where no complete call follows the primary expression, the
/// expression is the primary expression alone and ends just behind it.
pub open spec fn parsed_expr(s: Seq<char>, pos: int) -> Option<(ExprView, int)>
    decreases s.len() - pos,
{
    match parsed_primary(s, pos) {
        None => None,
        Some((called, after)) => {
            let bare = Some((called, after));
            match next_token(s, after_spaces(s, after)) {
                Some((open, inner)) => if open.kind == TokenKindView::Bracket(Bracket::OpenParen) {
                    proof {
                        lemma_primary_advances(s, pos);
                        lemma_skip_while_bounds(s, after, space_kinds());
                        lemma_next_token_advances(s, after_spaces(s, after));
                    }
                    match parsed_expr(s, inner) {
                        Some((input, close)) => match next_token(s, close) {
                            Some((closing, end)) => if closing.kind == TokenKindView::Bracket(
                                Bracket::CloseParen,
                            ) {
                                Some(
                                    (
                                        ExprView {
                                            kind: ExprKindView::Call(
                                                Box::new(called),
                                                Box::new(input),
                                            ),
                                            pos: Position {
                                                start: called.pos.start,
                                                end: closing.pos.end,
                                            },
                                        },
                                        end,
                                    ),
                                )
                            } else {
                                bare
                            },
                            None => bare,
                        },
                        None => bare,
                    }
                } else {
                    bare
                },
                None => bare,
            }
        },
    }
}

/// How a statement ends behind its expression: whitespace is skipped, then a run of
/// semicolons. Gives the last index of the statement's span, which is that of the last
/// semicolon, else `expr_end`, and the index just behind the statement.
pub open spec fn parsed_stmt_end(s: Seq<char>, after: int, expr_end: u32) -> (u32, int) {
    let semicolons = skip_while(s, after_spaces(s, after), semicolon_kinds());
    (
        match semicolons.1 {
            Some(last) => last.pos.end,
            None => expr_end,
        },
        semicolons.0,
    )
}

/// The binding that starts at index `pos` of `s`: `let`, a name, `=` and an expression, with
/// whitespace or none between them. Gives the name, the expression and the index just
/// behind the expression.
pub open spec fn parsed_let(s: Seq<char>, pos: int) -> Option<(Seq<char>, ExprView, int)> {
    match next_token(s, pos) {
        Some((first, after_let)) => if first.kind == TokenKindView::Keyword(Keyword::Let) {
            match next_token(s, after_spaces(s, after_let)) {
                Some((name, after_name)) => match name.kind {
                    TokenKindView::Identifier(identifier) => match next_token(
                        s,
                        after_spaces(s, after_name),
                    ) {
                        Some((equal, after_equal)) => if equal.kind == TokenKindView::Operator(
                            Operator::Equal,
                        ) {
                            match parsed_expr(s, after_spaces(s, after_equal)) {
                                Some((value, after)) => Some((identifier, value, after)),
                                None => None,
                            }
                        } else {
                            None
                        },
                        None => None,
                    },
                    _ => None,
                },
                None => None,
            }
        } else {
            None
        },
        None => None,
    }
}

/// The statement that starts at index `pos` of `s`, with the index just behind it: a
/// binding where there is one, else an expression, and the end of the statement behind
/// either. The span of a statement starts where its first token starts.
pub open spec fn parsed_stmt(s: Seq<char>, pos: int) -> Option<(StmtView, int)> {
    match parsed_let(s, pos) {
        Some((identifier, value, after)) => {
            let end = parsed_stmt_end(s, after, value.pos.end);
            Some(
                (
                    StmtView {
                        kind: StmtKindView::Let(identifier, value),
                        pos: Position { start: pos as u32, end: end.0 },
                    },
                    end.1,
                ),
            )
        },
        None => match parsed_expr(s, pos) {
            Some((expr, after)) => {
                let end = parsed_stmt_end(s, after, expr.pos.end);
                Some(
                    (
                        StmtView {
                            kind: StmtKindView::Expr(expr),
                            pos: Position { start: expr.pos.start, end: end.0 },
                        },
                        end.1,
                    ),
                )
            },
            None => None,
        },
    }
}

/// A run of digits ends at or behind the index the search started at, and holds digits only.
pub proof fn lemma_digits_end_bounds(s: Seq<char>, from: int)
    requires
        0 <= from <= s.len(),
    ensures
        from <= digits_end(s, from) <= s.len(),
        forall|j: int| from <= j < digits_end(s, from) ==> NumberChar::of_char(s[j]) is Some,
    decreases s.len() - from,
{
    if from < s.len() && NumberChar::of_char(s[from]) is Some {
        lemma_digits_end_bounds(s, from + 1);
    }
}

/// The token at an index is a digit exactly where the character at that index is one.
pub proof fn lemma_digit_token(s: Seq<char>, pos: int)
    ensures
        match next_token(s, pos) {
            Some((token, next)) => match token.kind {
                TokenKindView::NumberChar(d) => 0 <= pos < s.len() && NumberChar::of_char(s[pos])
                    == Some(d) && next == pos + 1,
                _ => 0 <= pos < s.len() && NumberChar::of_char(s[pos]) is None,
            },
            None => 0 <= pos < s.len() ==> NumberChar::of_char(s[pos]) is None,
        },
{
}

/// Every primary expression consumes at least one character and ends inside the text.
pub proof fn lemma_primary_advances(s: Seq<char>, pos: int)
    ensures
        parsed_primary(s, pos) matches Some((e, next)) ==> 0 <= pos < next <= s.len(),
{
    lemma_next_token_advances(s, pos);
    lemma_digit_token(s, pos);
    if 0 <= pos < s.len() {
        lemma_digits_end_bounds(s, pos + 1);
    }
}

/// Every primary expression spans the characters it consumed.
pub proof fn lemma_primary_span(s: Seq<char>, pos: int)
    requires
        s.len() <= u32::MAX,
    ensures
        parsed_primary(s, pos) matches Some((e, next)) ==> {
            &&& e.pos.start == pos
            &&& e.pos.end == next - 1
        },
{
    lemma_next_token_advances(s, pos);
    lemma_next_token_span(s, pos);
    lemma_digit_token(s, pos);
    if 0 <= pos < s.len() {
        lemma_digits_end_bounds(s, pos + 1);
    }
}

/// Every expression consumes at least one character, ends inside the text, and spans the
/// characters it consumed.
pub proof fn lemma_expr_advances(s: Seq<char>, pos: int)
    requires
        s.len() <= u32::MAX,
    ensures
        parsed_expr(s, pos) matches Some((e, next)) ==> {
            &&& 0 <= pos < next <= s.len()
            &&& e.pos.start == pos
            &&& e.pos.end == next - 1
        },
    decreases s.len() - pos,
{
    lemma_primary_advances(s, pos);
    lemma_primary_span(s, pos);
    match parsed_primary(s, pos) {
        None => {},
        Some((called, after)) => {
            lemma_skip_while_bounds(s, after, space_kinds());
            lemma_next_token_advances(s, after_spaces(s, after));
            match next_token(s, after_spaces(s, after)) {
                Some((open, inner)) => {
                    if open.kind == TokenKindView::Bracket(Bracket::OpenParen) {
                        lemma_expr_advances(s, inner);
                        match parsed_expr(s, inner) {
                            Some((input, close)) => {
                                lemma_next_token_advances(s, close);
                                lemma_next_token_span(s, close);
                            },
                            None => {},
                        }
                    }
                },
                None => {},
            }
        },
    }
}

/// Where digits stand from `from` to the end of the text, the run of digits ends there.
proof fn lemma_digits_end_all(s: Seq<char>, from: int)
    requires
        0 <= from <= s.len(),
        forall|j: int| from <= j < s.len() ==> NumberChar::of_char(s[j]) is Some,
    ensures
        digits_end(s, from) == s.len(),
    decreases s.len() - from,
{
    if from < s.len() {
        lemma_digits_end_all(s, from + 1);
    }
}

/// A text made of digits alone is one expression: the number that the digits write in base
/// ten, read from left to right, spanning the whole text. This holds of every such text
/// whose number fits 32 bits.
pub proof fn lemma_digits_parse_to_their_value(digits: Seq<char>)
    requires
        0 < digits.len() <= u32::MAX,
        forall|j: int| 0 <= j < digits.len() ==> NumberChar::of_char(digits[j]) is Some,
        decimal_value(digits) <= u32::MAX,
    ensures
        parsed_expr(digits, 0) == Some(
            (
                ExprView {
                    kind: ExprKindView::Literal(
                        LiteralView::Number(decimal_value(digits) as u32),
                    ),
                    pos: Position { start: 0, end: (digits.len() - 1) as u32 },
                },
                digits.len() as int,
            ),
        ),
{
    lemma_digit_token(digits, 0);
    lemma_digits_end_all(digits, 0);
    assert(digits.subrange(0, digits.len() as int) =~= digits);
    assert(next_token(digits, digits.len() as int) is None);
    assert(after_spaces(digits, digits.len() as int) == digits.len());
}

/// Every statement consumes at least one character and ends inside the text. Its span
/// starts at the first character consumed and ends at one of the characters consumed.
pub proof fn lemma_stmt_span(s: Seq<char>, pos: int)
    requires
        s.len() <= u32::MAX,
    ensures
        parsed_stmt(s, pos) matches Some((stmt, next)) ==> {
            &&& 0 <= pos < next <= s.len()
            &&& stmt.pos.start == pos
            &&& stmt.pos.start <= stmt.pos.end < next
        },
{
    lemma_expr_advances(s, pos);
    match parsed_let(s, pos) {
        Some((identifier, value, after)) => {
            lemma_next_token_advances(s, pos);
            let (first, after_let) = next_token(s, pos).unwrap();
            let at_name = after_spaces(s, after_let);
            lemma_skip_while_bounds(s, after_let, space_kinds());
            lemma_next_token_advances(s, at_name);
            let (name, after_name) = next_token(s, at_name).unwrap();
            let at_equal = after_spaces(s, after_name);
            lemma_skip_while_bounds(s, after_name, space_kinds());
            lemma_next_token_advances(s, at_equal);
            let (equal, after_equal) = next_token(s, at_equal).unwrap();
            let at_value = after_spaces(s, after_equal);
            lemma_skip_while_bounds(s, after_equal, space_kinds());
            lemma_expr_advances(s, at_value);
            lemma_stmt_end_span(s, after, value.pos.end);
        },
        None => match parsed_expr(s, pos) {
            Some((expr, after)) => {
                lemma_stmt_end_span(s, after, expr.pos.end);
            },
            None => {},
        },
    }
}

/// The end of a statement stands at or behind the end of its expression.
proof fn lemma_stmt_end_span(s: Seq<char>, after: int, expr_end: u32)
    requires
        s.len() <= u32::MAX,
        0 < after <= s.len(),
        expr_end == after - 1,
    ensures
        after <= parsed_stmt_end(s, after, expr_end).1 <= s.len(),
        expr_end <= parsed_stmt_end(s, after, expr_end).0 < parsed_stmt_end(s, after, expr_end).1,
{
    lemma_skip_while_bounds(s, after, space_kinds());
    lemma_skip_while_bounds(s, after_spaces(s, after), semicolon_kinds());
}

} // verus!
