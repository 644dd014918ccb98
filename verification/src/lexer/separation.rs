use vstd::prelude::*;

verus! {

/// A quote character that opens and closes a quoted text.
#[derive(Clone, Copy, Debug, PartialEq, Eq, Structural)]
pub enum Separator {
    SingleQuote,
    DoubleQuote,
    Backtick,
}

impl Separator {
    /// The quote that a character spells, if it spells one.
    pub open spec fn of_char(c: char) -> Option<Separator> {
        if c == '\'' {
            Some(Separator::SingleQuote)
        } else if c == '"' {
            Some(Separator::DoubleQuote)
        } else if c == '`' {
            Some(Separator::Backtick)
        } else {
            None
        }
    }

    /// The character that spells a quote.
    pub open spec fn to_char(self) -> char {
        match self {
            Separator::SingleQuote => '\'',
            Separator::DoubleQuote => '"',
            Separator::Backtick => '`',
        }
    }

    pub fn parse(c: &char) -> (r: Option<Separator>)
        ensures
            r == Self::of_char(*c),
            r matches Some(q) ==> q.to_char() == *c,
    {
        match *c {
            '\'' => Some(Separator::SingleQuote),
            '"' => Some(Separator::DoubleQuote),
            '`' => Some(Separator::Backtick),
            _ => None,
        }
    }
}

impl Default for Separator {
    fn default() -> (r: Separator)
        ensures
            r == Separator::SingleQuote,
    {
        Separator::SingleQuote
    }
}

/// A quoted text: the quote that delimits it and what stands between the two quotes.
#[derive(Clone, Debug, PartialEq, Eq)]
pub struct Separation {
    pub separator: Separator,
    pub separated: String,
}

/// The mathematical value of a `Separation`.
pub struct SeparationView {
    pub separator: Separator,
    pub separated: Seq<char>,
}

impl View for Separation {
    type V = SeparationView;

    open spec fn view(&self) -> SeparationView {
        SeparationView { separator: self.separator, separated: self.separated@ }
    }
}

impl Separation {
    pub fn new(separator: Separator, separated: String) -> (r: Separation)
        ensures
            r.separator == separator,
            r.separated == separated,
    {
        Self { separator, separated }
    }
}

} // verus!
