use vstd::prelude::*;

verus! {

/// A read position over the characters of a source text.
#[derive(Debug)]
pub struct Cursor {
    pub chars: Vec<char>,
    pub position: u32,
}

impl Cursor {
    /// The whole source text, read or not.
    pub open spec fn source(&self) -> Seq<char> {
        self.chars@
    }

    /// Every index of the source text fits the type of `position`.
    pub open spec fn wf(&self) -> bool {
        self.source().len() <= u32::MAX
    }

    /// The character `ahead` places after the read position, if the text reaches that far.
    pub open spec fn char_at(&self, ahead: int) -> Option<char> {
        if 0 <= self.position + ahead < self.source().len() {
            Some(self.source()[self.position + ahead])
        } else {
            None
        }
    }

    /// The characters that have not been read yet.
    pub open spec fn remaining(&self) -> Seq<char> {
        if self.position <= self.source().len() {
            self.source().skip(self.position as int)
        } else {
            Seq::empty()
        }
    }

    /// A cursor at the start of a text of at most `u32::MAX` characters.
    pub fn new(chars: Vec<char>) -> (r: Cursor)
        requires
            chars@.len() <= u32::MAX,
        ensures
            r.source() == chars@,
            r.position == 0,
            r.wf(),
    {
        Cursor { chars, position: 0 }
    }

    /// A copy of the characters that have not been read yet.
    pub fn peek(&self) -> (r: Vec<char>)
        ensures
            r@ == self.remaining(),
    {
        let mut rest: Vec<char> = Vec::new();
        let mut i: usize = self.position as usize;
        while i < self.chars.len()
            invariant
                self.position <= i,
                self.position > self.chars.len() ==> rest@.len() == 0,
                self.position <= self.chars.len() ==> i <= self.chars.len() && rest@
                    == self.chars@.subrange(self.position as int, i as int),
            decreases self.chars.len() - i,
        {
            rest.push(self.chars[i]);
            i += 1;
        }
        assert(rest@ =~= self.remaining());
        rest
    }

    /// The next character, which stays unread.
    #[inline]
    pub fn first(&self) -> (r: Option<char>)
        ensures
            r == self.char_at(0),
    {
        let i = self.position as usize;
        if i < self.chars.len() {
            Some(self.chars[i])
        } else {
            None
        }
    }

    /// The character behind the next one, which stays unread.
    #[inline]
    pub fn second(&self) -> (r: Option<char>)
        ensures
            r == self.char_at(1),
    {
        let i = self.position as usize;
        if i < self.chars.len() && i + 1 < self.chars.len() {
            Some(self.chars[i + 1])
        } else {
            None
        }
    }

    /// Reads the next character. At the end of the text nothing is read and the position stays.
    #[inline]
    pub fn bump(&mut self) -> (r: Option<char>)
        requires
            old(self).wf(),
        ensures
            final(self).source() == old(self).source(),
            r == old(self).char_at(0),
            final(self).position == if r is Some {
                old(self).position + 1
            } else {
                old(self).position as int
            },
        no_unwind
    {
        let i = self.position as usize;
        if i < self.chars.len() {
            let c = self.chars[i];
            self.position = self.position + 1;
            Some(c)
        } else {
            None
        }
    }
}

/// A copy reads the same text from the same position.
impl Clone for Cursor {
    fn clone(&self) -> (r: Cursor)
        ensures
            r.source() == self.source(),
            r.position == self.position,
    {
        Cursor { chars: self.chars.clone(), position: self.position }
    }
}

} // verus!
