use vstd::prelude::*;

verus! {

/// One decimal digit.
#[derive(Clone, Copy, Debug, PartialEq, Eq, Structural)]
pub enum NumberChar {
    One,
    Two,
    Three,
    Four,
    Five,
    Six,
    Seven,
    Eight,
    Nine,
    Zero,
}

impl NumberChar {
    /// The digit that a character spells, if it spells one.
    pub open spec fn of_char(c: char) -> Option<NumberChar> {
        if c == '1' {
            Some(NumberChar::One)
        } else if c == '2' {
            Some(NumberChar::Two)
        } else if c == '3' {
            Some(NumberChar::Three)
        } else if c == '4' {
            Some(NumberChar::Four)
        } else if c == '5' {
            Some(NumberChar::Five)
        } else if c == '6' {
            Some(NumberChar::Six)
        } else if c == '7' {
            Some(NumberChar::Seven)
        } else if c == '8' {
            Some(NumberChar::Eight)
        } else if c == '9' {
            Some(NumberChar::Nine)
        } else if c == '0' {
            Some(NumberChar::Zero)
        } else {
            None
        }
    }

    /// The value of a digit, from 0 to 9.
    pub open spec fn value(self) -> nat {
        match self {
            NumberChar::One => 1,
            NumberChar::Two => 2,
            NumberChar::Three => 3,
            NumberChar::Four => 4,
            NumberChar::Five => 5,
            NumberChar::Six => 6,
            NumberChar::Seven => 7,
            NumberChar::Eight => 8,
            NumberChar::Nine => 9,
            NumberChar::Zero => 0,
        }
    }

    pub fn parse(c: &char) -> (r: Option<NumberChar>)
        ensures
            r == Self::of_char(*c),
    {
        match *c {
            '1' => Some(NumberChar::One),
            '2' => Some(NumberChar::Two),
            '3' => Some(NumberChar::Three),
            '4' => Some(NumberChar::Four),
            '5' => Some(NumberChar::Five),
            '6' => Some(NumberChar::Six),
            '7' => Some(NumberChar::Seven),
            '8' => Some(NumberChar::Eight),
            '9' => Some(NumberChar::Nine),
            '0' => Some(NumberChar::Zero),
            _ => None,
        }
    }

    pub fn to_int(&self) -> (n: usize)
        ensures
            n == self.value(),
            n <= 9,
    {
        match self {
            NumberChar::One => 1,
            NumberChar::Two => 2,
            NumberChar::Three => 3,
            NumberChar::Four => 4,
            NumberChar::Five => 5,
            NumberChar::Six => 6,
            NumberChar::Seven => 7,
            NumberChar::Eight => 8,
            NumberChar::Nine => 9,
            NumberChar::Zero => 0,
        }
    }
}

} // verus!
