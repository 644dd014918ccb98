use vstd::prelude::*;
use super::{
    Bracket, Keyword, NumberChar, Operator, Position, Punctuation, SeparationView, Separator,
    Space, TokenKind, TokenKindView, TokenView,
};

verus! {

/// The kind of the one-character token that `c` makes, if it makes one. The classes are tried
/// in a fixed order: brackets, whitespace, punctuation, digits, operators.
pub open spec fn single_kind(c: char) -> Option<TokenKindView> {
    match Bracket::of_char(c) {
        Some(b) => Some(TokenKindView::Bracket(b)),
        None => match Space::of_char(c) {
            Some(s) => Some(TokenKindView::Space(s)),
            None => match Punctuation::of_char(c) {
                Some(p) => Some(TokenKindView::Punctuation(p)),
                None => match NumberChar::of_char(c) {
                    Some(n) => Some(TokenKindView::NumberChar(n)),
                    None => match Operator::of_char(c) {
                        Some(o) => Some(TokenKindView::Operator(o)),
                        None => None,
                    },
                },
            },
        },
    }
}

/// The first index from `from` on at which `quote` stands, or the length of `s` if it stands
/// nowhere from there on.
pub open spec fn quote_end(s: Seq<char>, from: int, quote: char) -> int
    decreases s.len() - from,
{
    if from < 0 || from >= s.len() {
        s.len() as int
    } else if s[from] == quote {
        from
    } else {
        quote_end(s, from + 1, quote)
    }
}

/// The first index from `from` on at which a one-character token stands, or the length of `s`
/// if none stands from there on.
pub open spec fn word_end(s: Seq<char>, from: int) -> int
    decreases s.len() - from,
{
    if from < 0 || from >= s.len() {
        s.len() as int
    } else if single_kind(s[from]) is Some {
        from
    } else {
        word_end(s, from + 1)
    }
}

/// What a run of characters is: the keyword that it spells, else an identifier.
pub open spec fn word_kind(text: Seq<char>) -> TokenKindView {
    match Keyword::of_text(text) {
        Some(k) => TokenKindView::Keyword(k),
        None => TokenKindView::Identifier(text),
    }
}

/// The token that starts at index `pos` of `s`, with the index just behind what it consumes.
///
/// There is none at the end of the text, nor where a quote opens that is never closed. A
/// quoted text spans from the opening quote to the closing one, and what follows it starts
/// behind the closing quote.
pub open spec fn next_token(s: Seq<char>, pos: int) -> Option<(TokenView, int)> {
    if pos < 0 || pos >= s.len() {
        None
    } else {
        match single_kind(s[pos]) {
            Some(kind) => Some(
                (TokenView { kind, pos: Position { start: pos as u32, end: pos as u32 } }, pos + 1),
            ),
            None => match Separator::of_char(s[pos]) {
                Some(separator) => {
                    let close = quote_end(s, pos + 1, s[pos]);
                    if close < s.len() {
                        Some(
                            (
                                TokenView {
                                    kind: TokenKindView::Separation(
                                        SeparationView {
                                            separator,
                                            separated: s.subrange(pos + 1, close),
                                        },
                                    ),
                                    pos: Position { start: pos as u32, end: close as u32 },
                                },
                                close + 1,
                            ),
                        )
                    } else {
                        None
                    }
                },
                None => {
                    let end = word_end(s, pos + 1);
                    Some(
                        (
                            TokenView {
                                kind: word_kind(s.subrange(pos, end)),
                                pos: Position { start: pos as u32, end: (end - 1) as u32 },
                            },
                            end,
                        ),
                    )
                },
            },
        }
    }
}

/// A closing quote, where there is one, stands at or behind the index the search started at.
pub proof fn lemma_quote_end_bounds(s: Seq<char>, from: int, quote: char)
    requires
        0 <= from <= s.len(),
    ensures
        from <= quote_end(s, from, quote) <= s.len(),
        quote_end(s, from, quote) < s.len() ==> s[quote_end(s, from, quote)] == quote,
        forall|j: int| from <= j < quote_end(s, from, quote) ==> s[j] != quote,
    decreases s.len() - from,
{
    if from < s.len() && s[from] != quote {
        lemma_quote_end_bounds(s, from + 1, quote);
    }
}

/// A run ends at or behind the index the search started at, and holds no one-character token.
pub proof fn lemma_word_end_bounds(s: Seq<char>, from: int)
    requires
        0 <= from <= s.len(),
    ensures
        from <= word_end(s, from) <= s.len(),
        word_end(s, from) < s.len() ==> single_kind(s[word_end(s, from)]) is Some,
        forall|j: int| from <= j < word_end(s, from) ==> single_kind(s[j]) is None,
    decreases s.len() - from,
{
    if from < s.len() && single_kind(s[from]) is None {
        lemma_word_end_bounds(s, from + 1);
    }
}

/// Every token consumes at least one character and ends inside the text.
pub proof fn lemma_next_token_advances(s: Seq<char>, pos: int)
    ensures
        next_token(s, pos) matches Some((token, next)) ==> 0 <= pos < next <= s.len(),
{
    if 0 <= pos < s.len() {
        lemma_quote_end_bounds(s, pos + 1, s[pos]);
        lemma_word_end_bounds(s, pos + 1);
    }
}

/// Every token spans the characters it consumed, from its first to its last.
pub proof fn lemma_next_token_span(s: Seq<char>, pos: int)
    requires
        s.len() <= u32::MAX,
    ensures
        next_token(s, pos) matches Some((token, next)) ==> {
            &&& token.pos.start == pos
            &&& token.pos.end == next - 1
            &&& token.pos.wf()
        },
{
    if 0 <= pos < s.len() {
        lemma_quote_end_bounds(s, pos + 1, s[pos]);
        lemma_word_end_bounds(s, pos + 1);
    }
}

/// Skipping tokens from index `pos` on for as long as their kinds are `wanted`: the index
/// at which the skipping stops, and the last token skipped, if any was.
pub open spec fn skip_while(
    s: Seq<char>,
    pos: int,
    wanted: spec_fn(TokenKindView) -> bool,
) -> (int, Option<TokenView>)
    decreases s.len() - pos,
{
    match next_token(s, pos) {
        Some((token, next)) => if wanted(token.kind) {
            proof {
                lemma_next_token_advances(s, pos);
            }
            let rest = skip_while(s, next, wanted);
            (
                rest.0,
                Some(
                    match rest.1 {
                        Some(last) => last,
                        None => token,
                    },
                ),
            )
        } else {
            (pos, None)
        },
        None => (pos, None),
    }
}

/// A skip never goes back, and never goes past the end of the text.
pub proof fn lemma_skip_while_bounds(s: Seq<char>, pos: int, wanted: spec_fn(TokenKindView) -> bool)
    ensures
        pos <= skip_while(s, pos, wanted).0,
        pos <= s.len() ==> skip_while(s, pos, wanted).0 <= s.len(),
        skip_while(s, pos, wanted).1 matches Some(last) ==> wanted(last.kind) && (s.len()
            <= u32::MAX ==> pos <= last.pos.start && last.pos.end == skip_while(s, pos, wanted).0
            - 1),
    decreases s.len() - pos,
{
    lemma_next_token_advances(s, pos);
    if s.len() <= u32::MAX {
        lemma_next_token_span(s, pos);
    }
    match next_token(s, pos) {
        Some((token, next)) => if wanted(token.kind) {
            lemma_skip_while_bounds(s, next, wanted);
        },
        None => {},
    }
}

/// An executable predicate computes `wanted` when whatever it returns for a token kind is
/// what `wanted` says of that kind's value.
pub open spec fn computes<F: Fn(&TokenKind) -> bool>(
    matcher: F,
    wanted: spec_fn(TokenKindView) -> bool,
) -> bool {
    forall|k: &TokenKind, b: bool| #[trigger] matcher.ensures((k,), b) ==> b == wanted(k@)
}

/// The whitespace kinds.
pub open spec fn space_kinds() -> spec_fn(TokenKindView) -> bool {
    |kind: TokenKindView| kind is Space
}

/// The one kind of a semicolon.
pub open spec fn semicolon_kinds() -> spec_fn(TokenKindView) -> bool {
    |kind: TokenKindView| kind == TokenKindView::Punctuation(Punctuation::Semicolon)
}

/// A quote that stands at index `at`, with none like it from `from` up to `at`, is where
/// the search from `from` ends.
proof fn lemma_quote_end_found(s: Seq<char>, from: int, quote: char, at: int)
    requires
        0 <= from <= at < s.len(),
        s[at] == quote,
        forall|j: int| from <= j < at ==> s[j] != quote,
    ensures
        quote_end(s, from, quote) == at,
    decreases at - from,
{
    if from < at {
        lemma_quote_end_found(s, from + 1, quote, at);
    }
}

/// Where no one-character token stands from `from` on, the run goes to the end of the text.
proof fn lemma_word_end_all(s: Seq<char>, from: int)
    requires
        0 <= from <= s.len(),
        forall|j: int| from <= j < s.len() ==> single_kind(s[j]) is None,
    ensures
        word_end(s, from) == s.len(),
    decreases s.len() - from,
{
    if from < s.len() {
        lemma_word_end_all(s, from + 1);
    }
}

/// Lexing the characters that a token spans, by themselves, gives a token of the same
/// kind that spans them all. The characters that a token spans are those that its
/// position denotes.
pub proof fn lemma_relex_same_kind(s: Seq<char>, pos: int)
    requires
        s.len() <= u32::MAX,
    ensures
        next_token(s, pos) matches Some((token, next)) ==> {
            &&& token.pos.slice(s) == Some(s.subrange(pos, next))
            &&& next_token(s.subrange(pos, next), 0) matches Some((again, end))
            &&& again.kind == token.kind
            &&& end == next - pos
        },
{
    lemma_next_token_advances(s, pos);
    lemma_next_token_span(s, pos);
    match next_token(s, pos) {
        None => {},
        Some((token, next)) => {
            let piece = s.subrange(pos, next);
            assert(piece[0] == s[pos]);
            match single_kind(s[pos]) {
                Some(kind) => {},
                None => match Separator::of_char(s[pos]) {
                    Some(separator) => {
                        lemma_quote_end_bounds(s, pos + 1, s[pos]);
                        let close = quote_end(s, pos + 1, s[pos]);
                        assert forall|j: int| 1 <= j < close - pos implies piece[j] != s[pos] by {
                            assert(piece[j] == s[pos + j]);
                        }
                        assert(piece[close - pos] == s[close]);
                        lemma_quote_end_found(piece, 1, s[pos], close - pos);
                        assert(piece.subrange(1, close - pos) =~= s.subrange(pos + 1, close));
                    },
                    None => {
                        lemma_word_end_bounds(s, pos + 1);
                        assert forall|j: int| 1 <= j < piece.len() implies single_kind(piece[j])
                            is None by {
                            assert(piece[j] == s[pos + j]);
                        }
                        lemma_word_end_all(piece, 1);
                        assert(piece.subrange(0, piece.len() as int) =~= piece);
                    },
                },
            }
        },
    }
}

/// There is no token at an index only at the end of the text, or where a quote opens that
/// is never closed.
pub proof fn lemma_no_token_only_at_end_or_open_quote(s: Seq<char>, pos: int)
    ensures
        next_token(s, pos) is None <==> {
            ||| pos < 0
            ||| pos >= s.len()
            ||| (single_kind(s[pos]) is None && Separator::of_char(s[pos]) is Some && forall|
                j: int,
            | pos < j < s.len() ==> s[j] != s[pos])
        },
{
    if 0 <= pos < s.len() {
        lemma_quote_end_bounds(s, pos + 1, s[pos]);
    }
}

/// The text that a token holds is a part of what it spans: a word holds all the characters
/// that it spans, a quoted text all but the two quotes.
pub proof fn lemma_token_text(s: Seq<char>, pos: int)
    ensures
        next_token(s, pos) matches Some((token, next)) ==> match token.kind {
            TokenKindView::Identifier(text) => text == s.subrange(pos, next),
            TokenKindView::Keyword(keyword) => keyword.spelling() == s.subrange(pos, next),
            TokenKindView::Separation(quoted) => {
                &&& quoted.separated == s.subrange(pos + 1, next - 1)
                &&& quoted.separator.to_char() == s[pos]
                &&& s[next - 1] == s[pos]
                &&& forall|j: int| pos < j < next - 1 ==> s[j] != s[pos]
            },
            _ => next == pos + 1,
        },
{
    if 0 <= pos < s.len() {
        lemma_quote_end_bounds(s, pos + 1, s[pos]);
        lemma_word_end_bounds(s, pos + 1);
    }
}

/// No identifier spells a keyword.
pub proof fn lemma_identifier_is_no_keyword(s: Seq<char>, pos: int)
    ensures
        next_token(s, pos) matches Some((token, next)) ==> (token.kind matches TokenKindView::Identifier(
            text,
        ) ==> Keyword::of_text(text) is None),
{
}

/// The spelling of a keyword, lexed as a text of its own, is one token: that keyword.
pub proof fn lemma_keyword_spelling_is_keyword(keyword: Keyword)
    ensures
        next_token(keyword.spelling(), 0) == Some(
            (
                TokenView {
                    kind: TokenKindView::Keyword(keyword),
                    pos: Position { start: 0, end: (keyword.spelling().len() - 1) as u32 },
                },
                keyword.spelling().len() as int,
            ),
        ),
{
    let s = keyword.spelling();
    assert forall|j: int| 0 <= j < s.len() implies single_kind(s[j]) is None && Separator::of_char(
        s[j],
    ) is None by {}
    lemma_word_end_all(s, 1);
    assert(s.subrange(0, s.len() as int) =~= s);
    assert(Keyword::of_text(s) == Some(keyword)) by {
        lemma_spellings_differ();
    }
}

/// No two keywords are spelled alike.
proof fn lemma_spellings_differ()
    ensures
        forall|a: Keyword, b: Keyword| a.spelling() == b.spelling() ==> a == b,
{
    assert forall|a: Keyword, b: Keyword| a.spelling() == b.spelling() implies a == b by {
        if a != b {
            assert(a.spelling().len() != b.spelling().len() || a.spelling()[0] != b.spelling()[0]);
        }
    }
}

} // verus!
