pub mod bracket;
pub mod cursor;
pub mod grammar;
pub mod keyword;
pub mod number;
pub mod operator;
pub mod position;
pub mod punctuation;
pub mod separation;
pub mod space;
pub mod text;

use vstd::prelude::*;

pub use self::bracket::Bracket;
pub use self::cursor::Cursor;
pub use self::grammar::{
    computes, lemma_identifier_is_no_keyword, lemma_keyword_spelling_is_keyword,
    lemma_no_token_only_at_end_or_open_quote, lemma_token_text,
    lemma_next_token_advances, lemma_next_token_span, lemma_quote_end_bounds,
    lemma_relex_same_kind, lemma_skip_while_bounds, lemma_word_end_bounds, next_token, quote_end,
    semicolon_kinds, single_kind, skip_while, space_kinds, word_end, word_kind,
};
pub use self::keyword::Keyword;
pub use self::number::NumberChar;
pub use self::operator::Operator;
pub use self::position::Position;
pub use self::punctuation::Punctuation;
pub use self::separation::{Separation, SeparationView, Separator};
pub use self::space::Space;
pub use self::text::chars_of;

verus! {

/// What a token is. A one-character token holds its class; a word holds its text, or the
/// keyword that it spells; a quoted text holds its quote and what stands between the quotes.
#[derive(Clone, Debug, PartialEq, Eq)]
pub enum TokenKind {
    Bracket(Bracket),
    Space(Space),
    Punctuation(Punctuation),
    Keyword(Keyword),
    Identifier(String),
    Operator(Operator),
    NumberChar(NumberChar),
    Separation(Separation),
}

/// The mathematical value of a `TokenKind`: texts are sequences of characters.
pub enum TokenKindView {
    Bracket(Bracket),
    Space(Space),
    Punctuation(Punctuation),
    Keyword(Keyword),
    Identifier(Seq<char>),
    Operator(Operator),
    NumberChar(NumberChar),
    Separation(SeparationView),
}

impl View for TokenKind {
    type V = TokenKindView;

    open spec fn view(&self) -> TokenKindView {
        match self {
            TokenKind::Bracket(b) => TokenKindView::Bracket(*b),
            TokenKind::Space(s) => TokenKindView::Space(*s),
            TokenKind::Punctuation(p) => TokenKindView::Punctuation(*p),
            TokenKind::Keyword(k) => TokenKindView::Keyword(*k),
            TokenKind::Identifier(text) => TokenKindView::Identifier(text@),
            TokenKind::Operator(o) => TokenKindView::Operator(*o),
            TokenKind::NumberChar(n) => TokenKindView::NumberChar(*n),
            TokenKind::Separation(s) => TokenKindView::Separation(s@),
        }
    }
}

/// A token and the characters of the source text that it spans.
#[derive(Clone, Debug, PartialEq, Eq)]
pub struct Token {
    pub kind: TokenKind,
    pub pos: Position,
}

/// The mathematical value of a `Token`.
pub struct TokenView {
    pub kind: TokenKindView,
    pub pos: Position,
}

impl View for Token {
    type V = TokenView;

    open spec fn view(&self) -> TokenView {
        TokenView { kind: self.kind@, pos: self.pos }
    }
}

impl Token {
    pub fn new(kind: TokenKind, pos: Position) -> (r: Token)
        ensures
            r.kind == kind,
            r.pos == pos,
    {
        Self { kind, pos }
    }
}

/// Where a skip stands that started at index `from`, has come to index `now` and has `last`
/// as the last token skipped: what is left to skip from `now` on completes the whole skip.
spec fn skipping(
    s: Seq<char>,
    from: int,
    now: int,
    last: Option<TokenView>,
    wanted: spec_fn(TokenKindView) -> bool,
) -> bool {
    let whole = skip_while(s, from, wanted);
    let rest = skip_while(s, now, wanted);
    &&& whole.0 == rest.0
    &&& whole.1 == match rest.1 {
        Some(t) => Some(t),
        None => last,
    }
}

/// Whether a token kind is whitespace.
fn is_space(kind: &TokenKind) -> (b: bool)
    ensures
        b == space_kinds()(kind@),
{
    match kind {
        TokenKind::Space(_) => true,
        _ => false,
    }
}

/// Whether a token kind is a semicolon.
fn is_semicolon(kind: &TokenKind) -> (b: bool)
    ensures
        b == semicolon_kinds()(kind@),
{
    match kind {
        TokenKind::Punctuation(Punctuation::Semicolon) => true,
        _ => false,
    }
}

/// Reads a source text token by token, one at each call. Its state is the text and the index
/// of the next character: `mark` remembers the index before an attempt, `rewind` goes back
/// to it, and a copy made by `clone` can be read ahead and taken over with `sync`.
#[derive(Debug)]
pub struct Lexer {
    cursor: Cursor,
}

impl Lexer {
    /// The whole source text.
    pub closed spec fn source(&self) -> Seq<char> {
        self.cursor.source()
    }

    /// The index of the next character to read.
    pub closed spec fn position(&self) -> int {
        self.cursor.position as int
    }

    /// Every index of the source text fits the type of a position. This holds of every
    /// lexer: `new` takes no longer text, and the text never changes.
    pub open spec fn wf(&self) -> bool {
        self.source().len() <= u32::MAX
    }

    #[verifier::type_invariant]
    spec fn fits(&self) -> bool {
        self.cursor.source().len() <= u32::MAX
    }

    /// A lexer at the start of a text. A position is 32 bits wide, so the text has at most
    /// `u32::MAX` characters.
    pub fn new(chars: Vec<char>) -> (r: Lexer)
        requires
            chars@.len() <= u32::MAX,
        ensures
            r.source() == chars@,
            r.position() == 0,
            r.wf(),
    {
        Self { cursor: Cursor::new(chars) }
    }

    /// The read position, to come back to with `rewind`.
    pub fn mark(&self) -> (p: u32)
        ensures
            p == self.position(),
            self.wf(),
    {
        proof {
            use_type_invariant(self);
        }
        self.cursor.position
    }

    /// Moves the read position to `mark`.
    pub fn rewind(&mut self, mark: u32)
        ensures
            final(self).source() == old(self).source(),
            final(self).position() == mark,
            final(self).wf(),
    {
        proof {
            use_type_invariant(&*self);
        }
        self.cursor.position = mark;
    }

    fn parse(&mut self) -> (r: Option<Token>)
        ensures
            final(self).source() == old(self).source(),
            final(self).wf(),
            match next_token(old(self).source(), old(self).position()) {
                Some((token, next)) => r matches Some(t) && t@ == token && final(self).position()
                    == next,
                None => r is None && final(self).position() == old(self).position(),
            },
    {
        proof {
            use_type_invariant(&*self);
        }
        let ghost s = self.source();
        let start = self.cursor.position;
        let c = match self.cursor.bump() {
            Some(c) => c,
            None => {
                return None;
            },
        };
        if let Some(kind) = Self::parse_char(&c) {
            Some(Token { kind, pos: Position { start, end: start } })
        } else if let Some(separator) = Separator::parse(&c) {
            let mut text = String::new();
            loop
                invariant
                    self.source() == s,
                    self.wf(),
                    s == old(self).source(),
                    start == old(self).cursor.position,
                    0 <= start < self.cursor.position <= s.len(),
                    s[start as int] == c,
                    single_kind(c) is None,
                    Separator::of_char(c) == Some(separator),
                    text@ == s.subrange(start + 1, self.cursor.position as int),
                    quote_end(s, start + 1, c) == quote_end(s, self.cursor.position as int, c),
                decreases s.len() - self.cursor.position,
            {
                match self.cursor.bump() {
                    None => {
                        self.cursor.position = start;
                        return None;
                    },
                    Some(d) => {
                        if d == c {
                            return Some(
                                Token::new(
                                    TokenKind::Separation(Separation::new(separator, text)),
                                    Position::new(start, self.cursor.position - 1),
                                ),
                            );
                        }
                        text.push(d);
                        assert(text@ =~= s.subrange(start + 1, self.cursor.position as int));
                    },
                }
            }
        } else {
            let mut identifier = String::new();
            identifier.push(c);
            assert(identifier@ =~= s.subrange(start as int, self.cursor.position as int));
            loop
                invariant
                    self.source() == s,
                    self.wf(),
                    s == old(self).source(),
                    start == old(self).cursor.position,
                    0 <= start < self.cursor.position <= s.len(),
                    single_kind(s[start as int]) is None,
                    Separator::of_char(s[start as int]) is None,
                    identifier@ == s.subrange(start as int, self.cursor.position as int),
                    word_end(s, start + 1) == word_end(s, self.cursor.position as int),
                ensures
                    word_end(s, self.cursor.position as int) == self.cursor.position,
                decreases s.len() - self.cursor.position,
            {
                match self.cursor.first() {
                    None => {
                        break ;
                    },
                    Some(d) => {
                        if Self::parse_char(&d).is_some() {
                            break ;
                        }
                        identifier.push(d);
                        self.cursor.bump();
                        assert(identifier@ =~= s.subrange(start as int, self.cursor.position as int));
                    },
                }
            }
            let pos = Position { start, end: self.cursor.position - 1 };
            if let Some(keyword) = Keyword::parse(&identifier) {
                Some(Token { pos, kind: TokenKind::Keyword(keyword) })
            } else {
                Some(Token { pos, kind: TokenKind::Identifier(identifier) })
            }
        }
    }

    /// Reads one token, which spans the characters read. Where there is none, the lexer stays
    /// where it was.
    pub fn bump(&mut self) -> (r: Option<Token>)
        ensures
            final(self).source() == old(self).source(),
            final(self).wf(),
            match next_token(old(self).source(), old(self).position()) {
                Some((token, next)) => r matches Some(t) && t@ == token && final(self).position()
                    == next,
                None => r is None && final(self).position() == old(self).position(),
            },
            r matches Some(t) ==> {
                &&& old(self).position() < final(self).position() <= old(self).source().len()
                &&& t.pos.start == old(self).position()
                &&& t.pos.end == final(self).position() - 1
            },
    {
        proof {
            use_type_invariant(&*self);
            lemma_next_token_advances(self.source(), self.position());
            lemma_next_token_span(self.source(), self.position());
        }
        self.parse()
    }

    /// Skips tokens for as long as `matcher` accepts their kinds, and returns the last one
    /// skipped. The first token that is not accepted is not consumed.
    pub fn ignore_some<F: Fn(&TokenKind) -> bool>(&mut self, matcher: F) -> (r: Option<Token>)
        requires
            forall|k: &TokenKind| matcher.requires((k,)),
        ensures
            final(self).source() == old(self).source(),
            final(self).wf(),
            old(self).position() <= final(self).position(),
            old(self).position() <= old(self).source().len() ==> final(self).position() <= old(self).source().len(),
            r is None <==> final(self).position() == old(self).position(),
            forall|wanted: spec_fn(TokenKindView) -> bool|
                computes(matcher, wanted) ==> {
                    let whole = #[trigger] skip_while(
                        old(self).source(),
                        old(self).position(),
                        wanted,
                    );
                    &&& final(self).position() == whole.0
                    &&& match whole.1 {
                        Some(last) => r matches Some(t) && t@ == last,
                        None => r is None,
                    }
                },
    {
        proof {
            use_type_invariant(&*self);
        }
        let ghost s = self.source();
        let ghost from = self.position();
        let mut last: Option<Token> = None;
        loop
            invariant
                self.wf(),
                self.source() == s,
                from <= self.position(),
                from <= s.len() ==> self.position() <= s.len(),
                last is None <==> self.position() == from,
                forall|k: &TokenKind| matcher.requires((k,)),
                forall|wanted: spec_fn(TokenKindView) -> bool|
                    computes(matcher, wanted) ==> skipping(
                        s,
                        from,
                        self.position(),
                        match last {
                            Some(l) => Some(l@),
                            None => None,
                        },
                        wanted,
                    ),
            ensures
                forall|wanted: spec_fn(TokenKindView) -> bool|
                    computes(matcher, wanted) ==> {
                        let whole = #[trigger] skip_while(s, from, wanted);
                        &&& self.position() == whole.0
                        &&& match whole.1 {
                            Some(t) => last matches Some(l) && l@ == t,
                            None => last is None,
                        }
                    },
            decreases s.len() - self.position(),
        {
            let mark = self.mark();
            proof {
                lemma_next_token_advances(s, self.position());
            }
            match self.bump() {
                None => {
                    break ;
                },
                Some(token) => {
                    let accepted = matcher(&token.kind);
                    if accepted {
                        last = Some(token);
                    } else {
                        self.rewind(mark);
                        break ;
                    }
                },
            }
        }
        last
    }

    /// Skips a run of whitespace and returns its last token.
    pub fn ignore_spaces(&mut self) -> (r: Option<Token>)
        ensures
            final(self).source() == old(self).source(),
            final(self).wf(),
            final(self).position() == skip_while(
                old(self).source(),
                old(self).position(),
                space_kinds(),
            ).0,
            match skip_while(old(self).source(), old(self).position(), space_kinds()).1 {
                Some(last) => r matches Some(t) && t@ == last,
                None => r is None,
            },
    {
        self.ignore_some(is_space)
    }

    /// Skips a run of semicolons and returns its last token.
    pub fn ignore_semicolon(&mut self) -> (r: Option<Token>)
        ensures
            final(self).source() == old(self).source(),
            final(self).wf(),
            final(self).position() == skip_while(
                old(self).source(),
                old(self).position(),
                semicolon_kinds(),
            ).0,
            match skip_while(old(self).source(), old(self).position(), semicolon_kinds()).1 {
                Some(last) => r matches Some(t) && t@ == last,
                None => r is None,
            },
    {
        self.ignore_some(is_semicolon)
    }

    /// Skips one character, if there is one left.
    pub fn ignore(&mut self)
        ensures
            final(self).source() == old(self).source(),
            final(self).wf(),
            final(self).position() == if 0 <= old(self).position() < old(self).source().len() {
                old(self).position() + 1
            } else {
                old(self).position()
            },
    {
        proof {
            use_type_invariant(&*self);
        }
        self.cursor.bump();
    }

    /// Skips `n` characters, or as many as are left.
    pub fn ignore_n(&mut self, n: usize)
        ensures
            final(self).source() == old(self).source(),
            final(self).wf(),
            final(self).position() == if old(self).position() + n <= old(self).source().len() {
                old(self).position() + n
            } else if old(self).position() <= old(self).source().len() {
                old(self).source().len() as int
            } else {
                old(self).position()
            },
    {
        proof {
            use_type_invariant(&*self);
        }
        let mut i: usize = 0;
        while i < n
            invariant
                i <= n,
                self.wf(),
                self.source() == old(self).source(),
                self.position() == if old(self).position() + i <= old(self).source().len() {
                    old(self).position() + i
                } else if old(self).position() <= old(self).source().len() {
                    old(self).source().len() as int
                } else {
                    old(self).position()
                },
            decreases n - i,
        {
            self.ignore();
            i += 1;
        }
    }

    /// Takes over the state of another lexer.
    pub fn sync(&mut self, another: Self)
        ensures
            final(self).source() == another.source(),
            final(self).position() == another.position(),
            final(self).wf(),
    {
        proof {
            use_type_invariant(&another);
        }
        self.cursor = another.cursor;
    }

    /// The kind of the one-character token that `c` makes, if it makes one.
    pub fn parse_char(c: &char) -> (r: Option<TokenKind>)
        ensures
            match single_kind(*c) {
                Some(kind) => r matches Some(k) && k@ == kind,
                None => r is None,
            },
    {
        if let Some(result) = Bracket::parse(c) {
            Some(TokenKind::Bracket(result))
        } else if let Some(result) = Space::parse(c) {
            Some(TokenKind::Space(result))
        } else if let Some(result) = Punctuation::parse(*c) {
            Some(TokenKind::Punctuation(result))
        } else if let Some(result) = NumberChar::parse(c) {
            Some(TokenKind::NumberChar(result))
        } else if let Some(result) = Operator::parse(c) {
            Some(TokenKind::Operator(result))
        } else {
            None
        }
    }
}

/// A copy reads the same text from the same index, and reading it leaves the lexer it was
/// copied from where it is.
impl Clone for Lexer {
    fn clone(&self) -> (r: Lexer)
        ensures
            r.source() == self.source(),
            r.position() == self.position(),
            r.wf(),
    {
        proof {
            use_type_invariant(self);
        }
        Lexer { cursor: self.cursor.clone() }
    }
}

} // verus!
