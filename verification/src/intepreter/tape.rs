//! One tape and its cursor.

use vstd::prelude::*;
use vstd::string::*;
use super::err::{RuntimeError, RuntimeErrorView};
use super::model::{blank_tape, TapeView};

verus! {

/// A run of cells with a cursor, which may stand beyond the last cell.
pub struct Tape {
    curr: usize,
    vals: Vec<u32>,
}

impl View for Tape {
    type V = TapeView;

    closed spec fn view(&self) -> TapeView {
        TapeView { cells: self.vals@, cursor: self.curr }
    }
}

/// What an operation of the tape alone returns, and the tape it leaves: the
/// new tape where it succeeds, the old one where it fails.
pub open spec fn tape_done(
    before: TapeView,
    after: TapeView,
    res: Result<(), RuntimeError>,
    step: Result<TapeView, RuntimeErrorView>,
) -> bool {
    match step {
        Ok(tape) => res is Ok && after == tape,
        Err(error) => res matches Err(e) && e@ == error && after == before,
    }
}

impl Tape {
    /// A tape of `size` cells, all zero.
    pub fn new(size: usize) -> (tape: Self)
        ensures
            tape@ == blank_tape(size),
    {
        let tape = Self { vals: vec![0; size], curr: 0 };
        assert(tape@.cells =~= blank_tape(size).cells);
        tape
    }

    /// The cell at `index`, where the tape has one.
    pub fn cell(&self, index: usize) -> (val: Option<u32>)
        ensures
            val == if index < self@.cells.len() {
                Some(self@.cells[index as int])
            } else {
                None::<u32>
            },
    {
        if index < self.vals.len() {
            Some(self.vals[index])
        } else {
            None
        }
    }

    /// The index of the cell under the cursor.
    pub fn cursor(&self) -> (index: usize)
        ensures
            index == self@.cursor,
    {
        self.curr
    }

    /// The cell under the cursor.
    pub fn curr_val(&self) -> (res: Result<u32, RuntimeError>)
        ensures
            match self@.value() {
                Ok(val) => res == Ok::<u32, RuntimeError>(val),
                Err(error) => res matches Err(e) && e@ == error,
            },
    {
        if self.curr >= self.vals.len() {
            return Err(RuntimeError::TapeIndexOutOfBounds(self.curr, self.vals.len()));
        }
        Ok(self.vals[self.curr])
    }

    /// Adds one to the cell under the cursor, wrapping round.
    pub fn inc(&mut self) -> (res: Result<(), RuntimeError>)
        ensures
            tape_done(old(self)@, final(self)@, res, old(self)@.inc()),
    {
        let val = self.curr_val()?;
        self.set(val.wrapping_add(1))
    }

    /// Takes one from the cell under the cursor, wrapping round.
    pub fn dec(&mut self) -> (res: Result<(), RuntimeError>)
        ensures
            tape_done(old(self)@, final(self)@, res, old(self)@.dec()),
    {
        let val = self.curr_val()?;
        self.set(val.wrapping_sub(1))
    }

    /// Moves the cursor one cell to the right, also beyond the last cell.
    pub fn ptr_right(&mut self) -> (res: Result<(), RuntimeError>)
        ensures
            tape_done(old(self)@, final(self)@, res, old(self)@.ptr_right()),
    {
        if self.curr == usize::MAX {
            return Err(RuntimeError::TapeIndexOutOfBounds(self.curr, self.vals.len()));
        }
        self.curr += 1;
        Ok(())
    }

    /// Moves the cursor one cell to the left.
    pub fn ptr_left(&mut self) -> (res: Result<(), RuntimeError>)
        ensures
            tape_done(old(self)@, final(self)@, res, old(self)@.ptr_left()),
    {
        if self.curr == 0 {
            return Err(RuntimeError::TapeIndexCannotBeNegative);
        }
        self.curr -= 1;
        Ok(())
    }

    /// Writes the code points of `lit` into the cells from the cursor on, as
    /// far as the tape reaches.
    pub fn literal(&mut self, lit: &String)
        ensures
            final(self)@ == old(self)@.literal(lit@),
    {
        let lit_len = lit.as_str().unicode_len();
        let len = self.vals.len();
        if self.curr >= len {
            assert(self@.cells =~= old(self)@.literal(lit@).cells);
            return ;
        }
        let end = if lit_len < len - self.curr {
            self.curr + lit_len
        } else {
            len
        };
        let mut i = self.curr;
        while i < end
            invariant
                self.curr == old(self).curr,
                self.vals.len() == len,
                len == old(self).vals.len(),
                lit_len == lit@.len(),
                self.curr <= i <= end <= len,
                end <= self.curr + lit_len,
                end == len || end == self.curr + lit_len,
                forall|j: int|
                    0 <= j < len ==> self.vals[j] == if self.curr <= j < i {
                        lit@[j - self.curr] as u32
                    } else {
                        old(self).vals[j]
                    },
            decreases end - i,
        {
            self.vals[i] = lit.as_str().get_char(i - self.curr) as u32;
            i += 1;
        }
        assert(self@.cells =~= old(self)@.literal(lit@).cells);
    }

    /// The code point to write out: the cell under the cursor.
    pub fn dump(&self) -> (res: Result<u32, RuntimeError>)
        ensures
            match self@.value() {
                Ok(val) => res == Ok::<u32, RuntimeError>(val),
                Err(error) => res matches Err(e) && e@ == error,
            },
    {
        self.curr_val()
    }

    /// Reads no input yet: the tape stays as it is.
    pub fn intake(&mut self)
        ensures
            final(self)@ == old(self)@,
    {
    }

    /// Turns over every bit of the cell under the cursor.
    pub fn bit_not(&mut self) -> (res: Result<(), RuntimeError>)
        ensures
            tape_done(old(self)@, final(self)@, res, old(self)@.bit_not()),
    {
        let val = self.curr_val()?;
        self.set(!val)
    }

    /// Puts `val` into the cell under the cursor.
    pub fn set(&mut self, val: u32) -> (res: Result<(), RuntimeError>)
        ensures
            tape_done(old(self)@, final(self)@, res, old(self)@.store(val)),
    {
        if self.curr >= self.vals.len() {
            return Err(RuntimeError::TapeIndexOutOfBounds(self.curr, self.vals.len()));
        }
        self.vals[self.curr] = val;
        Ok(())
    }
}

/// The views of a stack of tapes, bottom first.
pub open spec fn tapes_view(stack: Seq<Tape>) -> Seq<TapeView> {
    stack.map_values(|t: Tape| t@)
}

/// A stack has as many views as tapes.
pub broadcast proof fn lemma_tapes_view_len(stack: Seq<Tape>)
    ensures
        #[trigger] tapes_view(stack).len() == stack.len(),
{
}

/// The view at an index is the view of the tape at that index.
pub broadcast proof fn lemma_tapes_view_index(stack: Seq<Tape>, i: int)
    requires
        0 <= i < stack.len(),
    ensures
        #[trigger] tapes_view(stack)[i] == stack[i]@,
{
}

/// A tape put in place of another changes the view at that index alone, and
/// nothing where both tapes have the same view.
pub broadcast proof fn lemma_tapes_view_update(stack: Seq<Tape>, i: int, tape: Tape)
    requires
        0 <= i < stack.len(),
    ensures
        #[trigger] tapes_view(stack.update(i, tape)) == tapes_view(stack).update(i, tape@),
        tape@ == stack[i]@ ==> tapes_view(stack.update(i, tape)) == tapes_view(stack),
{
    assert(tapes_view(stack.update(i, tape)) =~= tapes_view(stack).update(i, tape@));
    if tape@ == stack[i]@ {
        assert(tapes_view(stack.update(i, tape)) =~= tapes_view(stack));
    }
}

pub broadcast group group_tapes_view {
    lemma_tapes_view_len,
    lemma_tapes_view_index,
    lemma_tapes_view_update,
}

} // verus!
