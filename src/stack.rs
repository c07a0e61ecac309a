use vstd::prelude::*;
use crate::error::Error;
use crate::memory::{free_cells, free_segment, set_cell, set_cells};
use crate::word::{Pointer, Word};

verus! {

/// Operand stack with a frame base. The stack pointer always equals the
/// number of live cells.
pub struct Stack {
    stack: Vec<Word>,
    sp: usize,
    sbp: usize,
}

impl View for Stack {
    type V = Seq<Word>;

    closed spec fn view(&self) -> Seq<Word> {
        self.stack@
    }
}

/// The cells written by `push_segment`: a length header, then the values.
pub open spec fn segment_cells(values: Seq<Word>) -> Seq<Word> {
    seq![Word::Int(values.len() as i64)] + values
}

impl Stack {
    /// The recorded frame base.
    pub closed spec fn base(&self) -> nat {
        self.sbp as nat
    }

    pub closed spec fn wf(&self) -> bool {
        self.sp == self.stack.len()
    }

    pub fn new() -> (r: Self)
        ensures
            r.wf(),
            r@ == Seq::<Word>::empty(),
            r.base() == 0,
    {
        Stack { stack: Vec::new(), sp: 0, sbp: 0 }
    }

    /// Number of live cells.
    pub fn height(&self) -> (r: usize)
        requires
            self.wf(),
        ensures
            r == self@.len(),
    {
        self.sp
    }

    pub fn frame_base(&self) -> (r: usize)
        ensures
            r == self.base(),
    {
        self.sbp
    }

    /// The cell at index `i`, counted from the bottom.
    pub fn get(&self, i: usize) -> (r: Option<Word>)
        ensures
            i < self@.len() ==> r == Some(self@[i as int]),
            i >= self@.len() ==> r.is_none(),
    {
        if i < self.stack.len() {
            Some(self.stack[i])
        } else {
            None
        }
    }

    /// All live cells, bottom first.
    pub fn cells(&self) -> (r: &Vec<Word>)
        ensures
            r@ == self@,
    {
        &self.stack
    }

    /// Appends a value; never fails.
    pub fn push(&mut self, value: Word) -> (r: Result<(), Error>)
        requires
            old(self).wf(),
        ensures
            final(self).wf(),
            r is Ok,
            final(self)@ == old(self)@.push(value),
            final(self).base() == old(self).base(),
    {
        self.stack.push(value);
        self.sp = self.stack.len();
        Ok(())
    }

    /// Removes and returns the top value.
    pub fn pop(&mut self) -> (r: Result<Word, Error>)
        requires
            old(self).wf(),
        ensures
            final(self).wf(),
            final(self).base() == old(self).base(),
            old(self)@.len() == 0 ==> r == Err::<Word, Error>(Error::StackUnderflow)
                && final(self)@ == old(self)@,
            old(self)@.len() > 0 ==> r == Ok::<Word, Error>(old(self)@.last())
                && final(self)@ == old(self)@.drop_last(),
    {
        if self.sp < 1 {
            return Err(Error::StackUnderflow);
        }
        let value = self.stack.pop();
        self.sp = self.stack.len();
        match value {
            Some(v) => Ok(v),
            None => Err(Error::StackUnderflow),
        }
    }

    /// Pushes a copy of the top value.
    pub fn dup(&mut self) -> (r: Result<(), Error>)
        requires
            old(self).wf(),
        ensures
            final(self).wf(),
            final(self).base() == old(self).base(),
            old(self)@.len() == 0 ==> r == Err::<(), Error>(Error::StackUnderflow)
                && final(self)@ == old(self)@,
            old(self)@.len() > 0 ==> r is Ok && final(self)@ == old(self)@.push(old(self)@.last()),
    {
        if self.sp < 1 {
            return Err(Error::StackUnderflow);
        }
        let value = self.stack[self.sp - 1];
        self.push(value)
    }

    /// Records the current height as the frame base.
    pub fn enter_frame(&mut self)
        requires
            old(self).wf(),
        ensures
            final(self).wf(),
            final(self)@ == old(self)@,
            final(self).base() == old(self)@.len(),
    {
        self.sbp = self.sp;
    }

    /// Sets the frame base to a saved value.
    pub fn set_frame_base(&mut self, base: usize)
        requires
            old(self).wf(),
        ensures
            final(self).wf(),
            final(self)@ == old(self)@,
            final(self).base() == base,
    {
        self.sbp = base;
    }

    /// Discards everything pushed since the frame base was recorded. A base
    /// above the current height leaves the stack as it is.
    pub fn pop_frame(&mut self)
        requires
            old(self).wf(),
        ensures
            final(self).wf(),
            final(self).base() == old(self).base(),
            old(self).base() <= old(self)@.len() ==> final(self)@ == old(self)@.subrange(
                0,
                old(self).base() as int,
            ),
            old(self).base() > old(self)@.len() ==> final(self)@ == old(self)@,
    {
        if self.sbp <= self.sp {
            self.stack.truncate(self.sbp);
            self.sp = self.stack.len();
        }
    }

    /// Writes a length header and then `arr`, and returns a pointer to the first
    /// value (just past the header).
    pub fn push_segment(&mut self, arr: &[Word]) -> (r: Result<Pointer, Error>)
        requires
            old(self).wf(),
        ensures
            final(self).wf(),
            final(self).base() == old(self).base(),
            arr@.len() <= i64::MAX ==> r == Ok::<Pointer, Error>(Pointer::Stack((old(self)@.len() + 1) as usize))
                && final(self)@ == old(self)@ + segment_cells(arr@),
            arr@.len() > i64::MAX ==> r == Err::<Pointer, Error>(Error::StackOverflow)
                && final(self)@ == old(self)@,
    {
        if arr.len() as u64 > 0x7fff_ffff_ffff_ffffu64 {
            return Err(Error::StackOverflow);
        }
        let ghost start = self@;
        self.push(Word::Int(arr.len() as i64))?;
        let ptr = Pointer::Stack(self.sp);
        let mut i: usize = 0;
        while i < arr.len()
            invariant
                self.wf(),
                self.base() == old(self).base(),
                i <= arr@.len(),
                self@ == start + seq![Word::Int(arr@.len() as i64)] + arr@.subrange(0, i as int),
                ptr == Pointer::Stack((start.len() + 1) as usize),
            decreases arr@.len() - i,
        {
            self.push(arr[i])?;
            i = i + 1;
            assert(arr@.subrange(0, i as int) == arr@.subrange(0, i - 1).push(arr@[i - 1]));
        }
        assert(arr@.subrange(0, arr@.len() as int) == arr@);
        Ok(ptr)
    }
    /// Frees the segment whose first payload cell is `p`.
    pub(crate) fn free_at(&mut self, p: usize) -> (r: Result<(), Error>)
        requires
            old(self).wf(),
        ensures
            final(self).wf(),
            final(self).base() == old(self).base(),
            match free_segment(old(self)@, p as int) {
                Ok(c) => r is Ok && final(self)@ == c,
                Err(e) => r == Err::<(), Error>(e) && final(self)@ == old(self)@,
            },
    {
        free_cells(&mut self.stack, p)
    }

    /// Overwrites the live, non-`Free` cell `p`.
    pub(crate) fn set_at(&mut self, p: usize, w: Word) -> (r: Result<(), Error>)
        requires
            old(self).wf(),
        ensures
            final(self).wf(),
            final(self).base() == old(self).base(),
            match set_cell(old(self)@, p as int, w) {
                Ok(c) => r is Ok && final(self)@ == c,
                Err(e) => r == Err::<(), Error>(e) && final(self)@ == old(self)@,
            },
    {
        set_cells(&mut self.stack, p, w)
    }
}

} // verus!
