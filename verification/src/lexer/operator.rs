use vstd::prelude::*;

verus! {

/// The two operator characters.
#[derive(Clone, Copy, Debug, PartialEq, Eq, Structural)]
pub enum Operator {
    Equal,
    Slash,
}

impl Operator {
    /// The operator that a character spells, if it spells one.
    pub open spec fn of_char(c: char) -> Option<Operator> {
        if c == '=' {
            Some(Operator::Equal)
        } else if c == '/' {
            Some(Operator::Slash)
        } else {
            None
        }
    }

    pub fn parse(c: &char) -> (r: Option<Operator>)
        ensures
            r == Self::of_char(*c),
    {
        match *c {
            '=' => Some(Operator::Equal),
            '/' => Some(Operator::Slash),
            _ => None,
        }
    }
}

} // verus!
