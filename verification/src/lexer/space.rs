use vstd::prelude::*;

verus! {

/// The three whitespace characters.
#[derive(Clone, Copy, Debug, PartialEq, Eq, Structural)]
pub enum Space {
    Space,
    NewLine,
    Tab,
}

impl Space {
    /// The whitespace that a character spells, if it spells one.
    pub open spec fn of_char(c: char) -> Option<Space> {
        if c == ' ' {
            Some(Space::Space)
        } else if c == '\n' {
            Some(Space::NewLine)
        } else if c == '\t' {
            Some(Space::Tab)
        } else {
            None
        }
    }

    pub fn parse(c: &char) -> (r: Option<Space>)
        ensures
            r == Self::of_char(*c),
    {
        match *c {
            ' ' => Some(Space::Space),
            '\n' => Some(Space::NewLine),
            '\t' => Some(Space::Tab),
            _ => None,
        }
    }
}

} // verus!
