use vstd::prelude::*;

verus! {

/// The four shapes of bracket.
#[derive(Clone, Copy, Debug, PartialEq, Eq, Structural)]
pub enum BracketT {
    Paren,
    Curly,
    Square,
    Angle,
}

/// A bracket character: its shape, and whether it opens or closes.
#[derive(Clone, Copy, Debug, PartialEq, Eq, Structural)]
pub enum Bracket {
    Open(BracketT),
    Close(BracketT),
}

impl Bracket {
    /// The bracket that a character spells, if it spells one.
    pub open spec fn of_char(c: char) -> Option<Bracket> {
        if c == '(' {
            Some(Bracket::Open(BracketT::Paren))
        } else if c == ')' {
            Some(Bracket::Close(BracketT::Paren))
        } else if c == '{' {
            Some(Bracket::Open(BracketT::Curly))
        } else if c == '}' {
            Some(Bracket::Close(BracketT::Curly))
        } else if c == '[' {
            Some(Bracket::Open(BracketT::Square))
        } else if c == ']' {
            Some(Bracket::Close(BracketT::Square))
        } else if c == '<' {
            Some(Bracket::Open(BracketT::Angle))
        } else if c == '>' {
            Some(Bracket::Close(BracketT::Angle))
        } else {
            None
        }
    }

    pub fn parse(c: char) -> (r: Option<Bracket>)
        ensures
            r == Self::of_char(c),
    {
        match c {
            '(' => Some(Bracket::Open(BracketT::Paren)),
            ')' => Some(Bracket::Close(BracketT::Paren)),
            '{' => Some(Bracket::Open(BracketT::Curly)),
            '}' => Some(Bracket::Close(BracketT::Curly)),
            '[' => Some(Bracket::Open(BracketT::Square)),
            ']' => Some(Bracket::Close(BracketT::Square)),
            '<' => Some(Bracket::Open(BracketT::Angle)),
            '>' => Some(Bracket::Close(BracketT::Angle)),
            _ => None,
        }
    }
}

} // verus!
