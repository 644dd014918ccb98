pub mod bracket;
pub mod expr;
pub mod utils;

use vstd::prelude::*;

pub use self::bracket::{Bracket, BracketT};
use crate::lexer::{chars_of, Keyword, NumberChar, Operator, Punctuation, Separator, Space};

verus! {

/// What a token of a whole-text scan is. A quoted text gives three tokens: the opening
/// quote, the text between, and the closing quote.
#[derive(Debug, PartialEq, Eq)]
pub enum TokenT {
    Bracket(Bracket),
    Space(Space),
    Punctuation(Punctuation),
    Keyword(Keyword),
    Ident(String),
    Operator(Operator),
    Separator(Separator),
    Separated(String),
    NumberChar(NumberChar),
}

/// The mathematical value of a `TokenT`: texts are sequences of characters.
pub enum TokenTView {
    Bracket(Bracket),
    Space(Space),
    Punctuation(Punctuation),
    Keyword(Keyword),
    Ident(Seq<char>),
    Operator(Operator),
    Separator(Separator),
    Separated(Seq<char>),
    NumberChar(NumberChar),
}

impl View for TokenT {
    type V = TokenTView;

    open spec fn view(&self) -> TokenTView {
        match self {
            TokenT::Bracket(b) => TokenTView::Bracket(*b),
            TokenT::Space(s) => TokenTView::Space(*s),
            TokenT::Punctuation(p) => TokenTView::Punctuation(*p),
            TokenT::Keyword(k) => TokenTView::Keyword(*k),
            TokenT::Ident(text) => TokenTView::Ident(text@),
            TokenT::Operator(o) => TokenTView::Operator(*o),
            TokenT::Separator(q) => TokenTView::Separator(*q),
            TokenT::Separated(text) => TokenTView::Separated(text@),
            TokenT::NumberChar(n) => TokenTView::NumberChar(*n),
        }
    }
}

/// The indices of the first and the last character that a token spans.
#[derive(Clone, Copy, Debug, PartialEq, Eq, Structural)]
pub struct TokenPos {
    pub start: usize,
    pub end: usize,
}

#[derive(Debug, PartialEq, Eq)]
pub struct Token {
    pub pos: TokenPos,
    pub t: TokenT,
}

/// The mathematical value of a `Token`.
pub struct TokenView {
    pub pos: TokenPos,
    pub t: TokenTView,
}

impl View for Token {
    type V = TokenView;

    open spec fn view(&self) -> TokenView {
        TokenView { pos: self.pos, t: self.t@ }
    }
}

impl Clone for TokenT {
    fn clone(&self) -> (r: TokenT)
        ensures
            r@ == self@,
    {
        match self {
            TokenT::Bracket(b) => TokenT::Bracket(*b),
            TokenT::Space(s) => TokenT::Space(*s),
            TokenT::Punctuation(p) => TokenT::Punctuation(*p),
            TokenT::Keyword(k) => TokenT::Keyword(*k),
            TokenT::Ident(text) => TokenT::Ident(text.clone()),
            TokenT::Operator(o) => TokenT::Operator(*o),
            TokenT::Separator(q) => TokenT::Separator(*q),
            TokenT::Separated(text) => TokenT::Separated(text.clone()),
            TokenT::NumberChar(n) => TokenT::NumberChar(*n),
        }
    }
}

impl Clone for Token {
    fn clone(&self) -> (r: Token)
        ensures
            r@ == self@,
    {
        Token { pos: self.pos, t: self.t.clone() }
    }
}

impl TokenT {
    /// Whether two kinds of token have the same value.
    pub fn same(&self, other: &TokenT) -> (r: bool)
        ensures
            r == (self@ == other@),
    {
        match (self, other) {
            (TokenT::Bracket(a), TokenT::Bracket(b)) => *a == *b,
            (TokenT::Space(a), TokenT::Space(b)) => *a == *b,
            (TokenT::Punctuation(a), TokenT::Punctuation(b)) => *a == *b,
            (TokenT::Keyword(a), TokenT::Keyword(b)) => *a == *b,
            (TokenT::Ident(a), TokenT::Ident(b)) => *a == *b,
            (TokenT::Operator(a), TokenT::Operator(b)) => *a == *b,
            (TokenT::Separator(a), TokenT::Separator(b)) => *a == *b,
            (TokenT::Separated(a), TokenT::Separated(b)) => *a == *b,
            (TokenT::NumberChar(a), TokenT::NumberChar(b)) => *a == *b,
            _ => false,
        }
    }
}

/// The tokens of a text, in order.
pub type TokenStream = Vec<Token>;

/// The values of the tokens of a stream, in order.
pub open spec fn views(tokens: Seq<Token>) -> Seq<TokenView> {
    tokens.map_values(|token: Token| token@)
}

/// The token that a character makes by itself, if it makes one. A character that makes
/// none belongs to a word.
pub open spec fn single(c: char) -> Option<TokenTView> {
    match Bracket::of_char(c) {
        Some(b) => Some(TokenTView::Bracket(b)),
        None => match Space::of_char(c) {
            Some(s) => Some(TokenTView::Space(s)),
            None => match Operator::of_char(c) {
                Some(o) => Some(TokenTView::Operator(o)),
                None => match NumberChar::of_char(c) {
                    Some(n) => Some(TokenTView::NumberChar(n)),
                    None => match Punctuation::of_char(c) {
                        Some(p) => Some(TokenTView::Punctuation(p)),
                        None => match Separator::of_char(c) {
                            Some(q) => Some(TokenTView::Separator(q)),
                            None => None,
                        },
                    },
                },
            },
        },
    }
}

/// What a finished word is: the keyword that it spells, else an identifier.
pub open spec fn word(text: Seq<char>) -> TokenTView {
    match Keyword::of_text(text) {
        Some(k) => TokenTView::Keyword(k),
        None => TokenTView::Ident(text),
    }
}

/// What the scan is in the middle of.
pub enum ScanMode {
    /// Between tokens.
    Plain,
    /// Inside a word that started at `start` and reads `text` so far.
    Word { start: usize, text: Seq<char> },
    /// Behind the quote `opened` at `start`, with `text` read since.
    Quoted { start: usize, text: Seq<char>, opened: Separator },
}

/// The state of a scan: the tokens produced so far, and what it is in the middle of.
pub struct ScanState {
    pub tokens: Seq<TokenView>,
    pub mode: ScanMode,
}

/// The one-character token at index `i`.
pub open spec fn at(i: usize, t: TokenTView) -> TokenView {
    TokenView { pos: TokenPos { start: i, end: i }, t }
}

/// Reading the character `c` at index `i` between tokens: it makes a token by itself, and
/// a quote opens a quoted text; any other character starts a word.
pub open spec fn plain_step(tokens: Seq<TokenView>, i: usize, c: char) -> ScanState {
    match single(c) {
        Some(TokenTView::Separator(opened)) => ScanState {
            tokens: tokens.push(at(i, TokenTView::Separator(opened))),
            mode: ScanMode::Quoted { start: i, text: Seq::empty(), opened },
        },
        Some(t) => ScanState { tokens: tokens.push(at(i, t)), mode: ScanMode::Plain },
        None => ScanState { tokens, mode: ScanMode::Word { start: i, text: seq![c] } },
    }
}

/// Reading the character `c` at index `i`.
///
/// Inside a word, a character that makes no token by itself is added to the word; any other
/// ends the word, whose token spans up to the index before `i`, and is then read as
/// between tokens.
///
/// Behind an opening quote, every character but the same quote is added to the text. The
/// same quote ends the text: the text's token spans from the index of the opening quote to
/// two before `i` (or index 0, where `i` is 1), a token for the closing quote follows at the
/// index before `i`, and the quote is then read once more as between tokens, where it opens
/// a new quoted text.
pub open spec fn scan_step(state: ScanState, i: usize, c: char) -> ScanState {
    match state.mode {
        ScanMode::Plain => plain_step(state.tokens, i, c),
        ScanMode::Word { start, text } => if single(c) is None {
            ScanState { tokens: state.tokens, mode: ScanMode::Word { start, text: text.push(c) } }
        } else {
            plain_step(
                state.tokens.push(
                    TokenView { pos: TokenPos { start, end: (i - 1) as usize }, t: word(text) },
                ),
                i,
                c,
            )
        },
        ScanMode::Quoted { start, text, opened } => if Separator::of_char(c) == Some(opened) {
            plain_step(
                state.tokens.push(
                    TokenView {
                        pos: TokenPos {
                            start,
                            end: if i >= 2 {
                                (i - 2) as usize
                            } else {
                                0
                            },
                        },
                        t: TokenTView::Separated(text),
                    },
                ).push(at((i - 1) as usize, TokenTView::Separator(opened))),
                i,
                c,
            )
        } else {
            ScanState {
                tokens: state.tokens,
                mode: ScanMode::Quoted { start, text: text.push(c), opened },
            }
        },
    }
}

/// The state of the scan behind the first `n` characters of `chars`.
pub open spec fn scan(chars: Seq<char>, n: nat) -> ScanState
    decreases n,
{
    if n == 0 {
        ScanState { tokens: Seq::empty(), mode: ScanMode::Plain }
    } else {
        scan_step(scan(chars, (n - 1) as nat), (n - 1) as usize, chars[n - 1])
    }
}

/// The tokens of a text, all at once: the text is scanned with a space added behind it,
/// and the last token produced is dropped again. That is the token of the added space,
/// unless a quote is still open at the end.
pub open spec fn tokenized(code: Seq<char>) -> Seq<TokenView> {
    let tokens = scan(code.push(' '), code.len() + 1).tokens;
    if tokens.len() > 0 {
        tokens.drop_last()
    } else {
        tokens
    }
}

/// What the scanner is in the middle of.
enum Mode {
    Plain,
    Word { start: usize, text: String },
    Quoted { start: usize, text: String, opened: Separator },
}

impl View for Mode {
    type V = ScanMode;

    closed spec fn view(&self) -> ScanMode {
        match self {
            Mode::Plain => ScanMode::Plain,
            Mode::Word { start, text } => ScanMode::Word { start: *start, text: text@ },
            Mode::Quoted { start, text, opened } => ScanMode::Quoted {
                start: *start,
                text: text@,
                opened: *opened,
            },
        }
    }
}

/// A word or a quoted text that is being read started before index `i`.
spec fn started_before(mode: ScanMode, i: int) -> bool {
    match mode {
        ScanMode::Plain => true,
        ScanMode::Word { start, text } => start < i,
        ScanMode::Quoted { start, text, opened } => start < i,
    }
}

fn single_token(c: char) -> (r: Option<TokenT>)
    ensures
        match single(c) {
            Some(t) => r matches Some(x) && x@ == t,
            None => r is None,
        },
{
    if let Some(bracket) = Bracket::parse(c) {
        Some(TokenT::Bracket(bracket))
    } else if let Some(space) = Space::parse(&c) {
        Some(TokenT::Space(space))
    } else if let Some(operator) = Operator::parse(&c) {
        Some(TokenT::Operator(operator))
    } else if let Some(number_char) = NumberChar::parse(&c) {
        Some(TokenT::NumberChar(number_char))
    } else if let Some(punctuation) = Punctuation::parse(c) {
        Some(TokenT::Punctuation(punctuation))
    } else if let Some(separator) = Separator::parse(&c) {
        Some(TokenT::Separator(separator))
    } else {
        None
    }
}

fn read_plain(tokens: &mut Vec<Token>, i: usize, c: char) -> (mode: Mode)
    ensures
        (ScanState { tokens: views(final(tokens)@), mode: mode@ }) == plain_step(
            views(old(tokens)@),
            i,
            c,
        ),
        started_before(mode@, i + 1),
{
    match single_token(c) {
        Some(TokenT::Separator(opened)) => {
            tokens.push(Token { pos: TokenPos { start: i, end: i }, t: TokenT::Separator(opened) });
            assert(views(tokens@) =~= views(old(tokens)@).push(
                at(i, TokenTView::Separator(opened)),
            ));
            Mode::Quoted { start: i, text: String::new(), opened }
        },
        Some(t) => {
            let ghost value = t@;
            tokens.push(Token { pos: TokenPos { start: i, end: i }, t });
            assert(views(tokens@) =~= views(old(tokens)@).push(at(i, value)));
            Mode::Plain
        },
        None => {
            let mut text = String::new();
            text.push(c);
            assert(text@ =~= seq![c]);
            assert(views(tokens@) =~= views(old(tokens)@));
            Mode::Word { start: i, text }
        },
    }
}

fn read(tokens: &mut Vec<Token>, mode: Mode, i: usize, c: char) -> (next: Mode)
    requires
        started_before(mode@, i as int),
    ensures
        (ScanState { tokens: views(final(tokens)@), mode: next@ }) == scan_step(
            ScanState { tokens: views(old(tokens)@), mode: mode@ },
            i,
            c,
        ),
        started_before(next@, i + 1),
{
    match mode {
        Mode::Plain => read_plain(tokens, i, c),
        Mode::Word { start, text } => {
            if single_token(c).is_none() {
                let mut text = text;
                text.push(c);
                assert(views(tokens@) =~= views(old(tokens)@));
                Mode::Word { start, text }
            } else {
                let ghost value = word(text@);
                let t = match Keyword::parse(&text) {
                    Some(keyword) => TokenT::Keyword(keyword),
                    None => TokenT::Ident(text),
                };
                tokens.push(Token { pos: TokenPos { start, end: i - 1 }, t });
                assert(views(tokens@) =~= views(old(tokens)@).push(
                    TokenView { pos: TokenPos { start, end: (i - 1) as usize }, t: value },
                ));
                read_plain(tokens, i, c)
            }
        },
        Mode::Quoted { start, text, opened } => {
            let closed = match Separator::parse(&c) {
                Some(separator) => separator == opened,
                None => false,
            };
            if closed {
                let ghost value = text@;
                let end = if i >= 2 {
                    i - 2
                } else {
                    0
                };
                tokens.push(Token { pos: TokenPos { start, end }, t: TokenT::Separated(text) });
                tokens.push(
                    Token { pos: TokenPos { start: i - 1, end: i - 1 }, t: TokenT::Separator(opened) },
                );
                assert(views(tokens@) =~= views(old(tokens)@).push(
                    TokenView { pos: TokenPos { start, end }, t: TokenTView::Separated(value) },
                ).push(at((i - 1) as usize, TokenTView::Separator(opened))));
                read_plain(tokens, i, c)
            } else {
                let mut text = text;
                text.push(c);
                assert(views(tokens@) =~= views(old(tokens)@));
                Mode::Quoted { start, text, opened }
            }
        },
    }
}

/// Splits a whole text into its tokens.
pub fn tokenize(code: String) -> (token_stream: TokenStream)
    ensures
        views(token_stream@) == tokenized(code@),
{
    let mut chars = chars_of(code.as_str());
    chars.push(' ');
    let mut token_stream: Vec<Token> = Vec::new();
    let mut mode = Mode::Plain;
    let mut i: usize = 0;
    assert(views(token_stream@) =~= Seq::<TokenView>::empty());
    while i < chars.len()
        invariant
            i <= chars.len(),
            chars@ == code@.push(' '),
            (ScanState { tokens: views(token_stream@), mode: mode@ }) == scan(chars@, i as nat),
            started_before(mode@, i as int),
        decreases chars.len() - i,
    {
        mode = read(&mut token_stream, mode, i, chars[i]);
        i += 1;
    }
    let ghost all = token_stream@;
    token_stream.pop();
    assert(views(token_stream@) =~= tokenized(code@)) by {
        if all.len() > 0 {
            assert(token_stream@ == all.drop_last());
            assert(views(all.drop_last()) =~= views(all).drop_last());
        }
    }
    token_stream
}

} // verus!
