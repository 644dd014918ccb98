use vstd::prelude::*;

verus! {

/// A closed range of character indices into a source text.
#[derive(Clone, Copy, Debug, PartialEq, Eq, Structural)]
pub struct Position {
    pub start: u32,
    pub end: u32,
}

impl Position {
    /// A range is well formed when it does not end before it starts.
    pub open spec fn wf(self) -> bool {
        self.start <= self.end
    }

    /// The index of the last character that `get` reads: the end of the range, or its start
    /// where the range ends before it starts.
    pub open spec fn last(self) -> int {
        if self.end >= self.start {
            self.end as int
        } else {
            self.start as int
        }
    }

    /// The characters of `text` from `start` to `last`, both included, if `text` has them all.
    pub open spec fn slice(self, text: Seq<char>) -> Option<Seq<char>> {
        if self.last() < text.len() {
            Some(text.subrange(self.start as int, self.last() + 1))
        } else {
            None
        }
    }

    pub fn new(start: u32, end: u32) -> (r: Position)
        ensures
            r.start == start,
            r.end == end,
    {
        Self { start, end }
    }

    /// The text that the range denotes in `string`, or `None` where the range reaches past the
    /// end of `string`.
    pub fn get(&self, string: &str) -> (r: Option<String>)
        ensures
            match self.slice(string@) {
                Some(text) => r matches Some(found) && found@ == text,
                None => r is None,
            },
    {
        let len = string.unicode_len();
        let first = self.start as usize;
        let last = if self.end >= self.start {
            self.end as usize
        } else {
            self.start as usize
        };
        if last < len {
            Some(string.substring_char(first, last + 1).to_owned())
        } else {
            None
        }
    }
}

} // verus!
