use vstd::prelude::*;

verus! {

/// The eight bracket characters, each one a token of its own.
#[derive(Clone, Copy, Debug, PartialEq, Eq, Structural)]
pub enum Bracket {
    // (
    OpenParen,
    // )
    CloseParen,
    // {
    OpenCurly,
    // }
    CloseCurly,
    // [
    OpenSquare,
    // ]
    CloseSquare,
    // <
    OpenAngle,
    // >
    CloseAngle,
}

impl Bracket {
    /// The bracket that a character spells, if it spells one.
    pub open spec fn of_char(c: char) -> Option<Bracket> {
        if c == '(' {
            Some(Bracket::OpenParen)
        } else if c == ')' {
            Some(Bracket::CloseParen)
        } else if c == '{' {
            Some(Bracket::OpenCurly)
        } else if c == '}' {
            Some(Bracket::CloseCurly)
        } else if c == '[' {
            Some(Bracket::OpenSquare)
        } else if c == ']' {
            Some(Bracket::CloseSquare)
        } else if c == '<' {
            Some(Bracket::OpenAngle)
        } else if c == '>' {
            Some(Bracket::CloseAngle)
        } else {
            None
        }
    }

    /// The character that spells a bracket.
    pub open spec fn to_char(self) -> char {
        match self {
            Bracket::OpenParen => '(',
            Bracket::CloseParen => ')',
            Bracket::OpenCurly => '{',
            Bracket::CloseCurly => '}',
            Bracket::OpenSquare => '[',
            Bracket::CloseSquare => ']',
            Bracket::OpenAngle => '<',
            Bracket::CloseAngle => '>',
        }
    }

    pub fn parse(c: &char) -> (r: Option<Bracket>)
        ensures
            r == Self::of_char(*c),
            r matches Some(b) ==> b.to_char() == *c,
    {
        match *c {
            '(' => Some(Bracket::OpenParen),
            ')' => Some(Bracket::CloseParen),
            '{' => Some(Bracket::OpenCurly),
            '}' => Some(Bracket::CloseCurly),
            '[' => Some(Bracket::OpenSquare),
            ']' => Some(Bracket::CloseSquare),
            '<' => Some(Bracket::OpenAngle),
            '>' => Some(Bracket::CloseAngle),
            _ => None,
        }
    }
}

} // verus!
