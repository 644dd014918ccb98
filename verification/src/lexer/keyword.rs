use vstd::prelude::*;

verus! {

/// The reserved words. A run of characters that spells one is never an identifier.
#[derive(Clone, Copy, Debug, PartialEq, Eq, Structural)]
pub enum Keyword {
    Let,
    Fn,
    State,
    If,
    True,
    False,
}

impl Keyword {
    /// The characters that spell a keyword.
    pub open spec fn spelling(self) -> Seq<char> {
        match self {
            Keyword::Let => seq!['l', 'e', 't'],
            Keyword::Fn => seq!['f', 'n'],
            Keyword::State => seq!['s', 't', 'a', 't', 'e'],
            Keyword::If => seq!['i', 'f'],
            Keyword::True => seq!['t', 'r', 'u', 'e'],
            Keyword::False => seq!['f', 'a', 'l', 's', 'e'],
        }
    }

    /// The keyword that a text spells, if it spells one.
    pub open spec fn of_text(text: Seq<char>) -> Option<Keyword> {
        if text == Keyword::Let.spelling() {
            Some(Keyword::Let)
        } else if text == Keyword::Fn.spelling() {
            Some(Keyword::Fn)
        } else if text == Keyword::If.spelling() {
            Some(Keyword::If)
        } else if text == Keyword::State.spelling() {
            Some(Keyword::State)
        } else if text == Keyword::True.spelling() {
            Some(Keyword::True)
        } else if text == Keyword::False.spelling() {
            Some(Keyword::False)
        } else {
            None
        }
    }

    pub fn parse(ident: &String) -> (r: Option<Keyword>)
        ensures
            r == Self::of_text(ident@),
    {
        let s = ident.as_str();
        let n = s.unicode_len();
        if n == 2 {
            let a = s.get_char(0);
            let b = s.get_char(1);
            if a == 'f' && b == 'n' {
                assert(ident@ =~= Keyword::Fn.spelling());
                Some(Keyword::Fn)
            } else if a == 'i' && b == 'f' {
                assert(ident@ =~= Keyword::If.spelling());
                Some(Keyword::If)
            } else {
                None
            }
        } else if n == 3 {
            if s.get_char(0) == 'l' && s.get_char(1) == 'e' && s.get_char(2) == 't' {
                assert(ident@ =~= Keyword::Let.spelling());
                Some(Keyword::Let)
            } else {
                None
            }
        } else if n == 4 {
            if s.get_char(0) == 't' && s.get_char(1) == 'r' && s.get_char(2) == 'u' && s.get_char(3)
                == 'e' {
                assert(ident@ =~= Keyword::True.spelling());
                Some(Keyword::True)
            } else {
                None
            }
        } else if n == 5 {
            let a = s.get_char(0);
            if a == 's' && s.get_char(1) == 't' && s.get_char(2) == 'a' && s.get_char(3) == 't'
                && s.get_char(4) == 'e' {
                assert(ident@ =~= Keyword::State.spelling());
                Some(Keyword::State)
            } else if a == 'f' && s.get_char(1) == 'a' && s.get_char(2) == 'l' && s.get_char(3)
                == 's' && s.get_char(4) == 'e' {
                assert(ident@ =~= Keyword::False.spelling());
                Some(Keyword::False)
            } else {
                None
            }
        } else {
            None
        }
    }
}

} // verus!
