//! A cursor that walks a text character by character and keeps count of the
//! line and the column.

use vstd::prelude::*;
use vstd::string::*;
use super::err::FilePos;
use super::text::{classify, white_space_mask};

verus! {

/// The character at index `idx` of `src`, or nothing beyond its end.
pub open spec fn char_at(src: Seq<char>, idx: int) -> Option<char> {
    if 0 <= idx < src.len() {
        Some(src[idx])
    } else {
        None
    }
}

/// The position of a scan that started at index 0 and has moved on `idx`
/// times: each move counts the character it arrives at.
pub open spec fn pos_at(src: Seq<char>, idx: int) -> FilePos
    decreases idx,
{
    if idx <= 0 {
        FilePos::start()
    } else {
        pos_at(src, idx - 1).step(char_at(src, idx))
    }
}

/// Line and column grow by at most one per move, so neither can overflow
/// while the text itself fits in memory.
pub proof fn lemma_pos_at_bound(src: Seq<char>, idx: int)
    requires
        src.len() <= usize::MAX,
    ensures
        1 <= pos_at(src, idx).line,
        1 <= pos_at(src, idx).column,
        idx >= 0 ==> pos_at(src, idx).line + pos_at(src, idx).column <= idx + 2,
        pos_at(src, idx).line + pos_at(src, idx).column <= src.len() + 2,
    decreases idx,
{
    if idx > 0 {
        lemma_pos_at_bound(src, idx - 1);
    }
}

/// A read position in a text, with the character under it and its line and
/// column. Which characters count as white space is settled once, when the
/// cursor is made.
pub struct Cursor {
    pub src: String,
    pub spaces: Vec<bool>,
    pub len: usize,
    pub idx: usize,
    pub file_pos: FilePos,
    pub next: Option<char>,
}

impl Cursor {
    /// The cached length, character and position are those of `src` at `idx`.
    pub open spec fn wf(&self) -> bool {
        &&& self.len == self.src@.len()
        &&& self.spaces@.len() == self.src@.len()
        &&& self.next == char_at(self.src@, self.idx as int)
        &&& self.file_pos == pos_at(self.src@, self.idx as int)
    }

    /// A cursor on the first character of `src`, with white space as
    /// Unicode defines it.
    pub fn new(src: String) -> (cur: Self)
        ensures
            cur.wf(),
            cur.src@ == src@,
            cur.spaces@ == white_space_mask(src@),
            cur.idx == 0,
    {
        let spaces = classify(src.as_str());
        Self::with_spaces(src, spaces)
    }

    /// A cursor on the first character of `src`, with white space where
    /// `spaces` marks it.
    pub fn with_spaces(src: String, spaces: Vec<bool>) -> (cur: Self)
        requires
            spaces@.len() == src@.len(),
        ensures
            cur.wf(),
            cur.src@ == src@,
            cur.spaces@ == spaces@,
            cur.idx == 0,
    {
        let len = src.as_str().unicode_len();
        let next = if 0 < len {
            Some(src.as_str().get_char(0))
        } else {
            None
        };
        Cursor { src, spaces, len, idx: 0, file_pos: FilePos::new(), next }
    }

    /// Whether the character under the cursor counts as white space.
    pub fn at_space(&self) -> (space: bool)
        requires
            self.wf(),
            self.idx < self.len,
        ensures
            space == self.spaces@[self.idx as int],
    {
        self.spaces[self.idx]
    }

    /// Moves one character on.
    pub fn advance(&mut self)
        requires
            old(self).wf(),
            old(self).idx < usize::MAX,
        ensures
            final(self).wf(),
            final(self).src == old(self).src,
            final(self).spaces == old(self).spaces,
            final(self).idx == old(self).idx + 1,
    {
        self.idx += 1;
        self.next = if self.idx < self.len {
            Some(self.src.as_str().get_char(self.idx))
        } else {
            None
        };
        proof {
            lemma_pos_at_bound(self.src@, self.idx - 1);
        }
        self.file_pos.advance(self.next);
    }

    /// Moves one character back, and finds the position again by replaying
    /// the moves from the start.
    pub fn regress(&mut self)
        requires
            old(self).wf(),
            old(self).idx > 0,
        ensures
            final(self).wf(),
            final(self).src == old(self).src,
            final(self).spaces == old(self).spaces,
            final(self).idx == old(self).idx - 1,
    {
        self.idx -= 1;
        self.next = if self.idx < self.len {
            Some(self.src.as_str().get_char(self.idx))
        } else {
            None
        };
        self.file_pos = FilePos::new();
        let mut i: usize = 0;
        while i < self.idx
            invariant
                i <= self.idx,
                self.len == self.src@.len(),
                self.file_pos == pos_at(self.src@, i as int),
                self.src == old(self).src,
                self.spaces == old(self).spaces,
                self.idx == old(self).idx - 1,
                self.next == char_at(self.src@, self.idx as int),
            decreases self.idx - i,
        {
            i += 1;
            let c = if i < self.len {
                Some(self.src.as_str().get_char(i))
            } else {
                None
            };
            proof {
                lemma_pos_at_bound(self.src@, i - 1);
            }
            self.file_pos.advance(c);
        }
    }
}

} // verus!
