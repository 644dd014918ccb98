use vstd::prelude::*;

verus! {

/// The three punctuation characters.
#[derive(Clone, Copy, Debug, PartialEq, Eq, Structural)]
pub enum Punctuation {
    Comma,
    FullStop,
    Semicolon,
}

impl Punctuation {
    /// The punctuation that a character spells, if it spells one.
    pub open spec fn of_char(c: char) -> Option<Punctuation> {
        if c == ',' {
            Some(Punctuation::Comma)
        } else if c == '.' {
            Some(Punctuation::FullStop)
        } else if c == ';' {
            Some(Punctuation::Semicolon)
        } else {
            None
        }
    }

    pub fn parse(c: char) -> (r: Option<Punctuation>)
        ensures
            r == Self::of_char(c),
    {
        match c {
            ',' => Some(Punctuation::Comma),
            '.' => Some(Punctuation::FullStop),
            ';' => Some(Punctuation::Semicolon),
            _ => None,
        }
    }
}

} // verus!
