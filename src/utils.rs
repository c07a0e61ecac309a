use vstd::prelude::*;
use crate::error::Error;
use crate::machine::{Machine, MachineState};
use crate::memory::read_at;
use crate::semantics::replace_top_two;
use crate::stack::segment_cells;
use crate::word::{Pointer, Word};

verus! {

/// How a file is to be opened.
#[derive(Debug, Clone, Copy, PartialEq, Eq, Structural)]
pub enum FileMode {
    /// Read only.
    Read,
    /// Write, creating the file or emptying it.
    Truncate,
    /// Write at the end, creating the file if needed.
    Append,
}

/// The mode an `Open` operand names: 0 reads, 1 truncates, 2 appends.
pub open spec fn mode_of(mode: i64) -> Option<FileMode> {
    if mode == 0 {
        Some(FileMode::Read)
    } else if mode == 1 {
        Some(FileMode::Truncate)
    } else if mode == 2 {
        Some(FileMode::Append)
    } else {
        None
    }
}

/// Does every cell hold a `Char`?
pub open spec fn all_chars(ws: Seq<Word>) -> bool {
    forall|i: int| 0 <= i < ws.len() ==> ws[i] is Char
}

/// The characters of a segment of `Char` cells.
pub open spec fn chars_of(ws: Seq<Word>) -> Seq<char> {
    Seq::new(ws.len(), |i: int| match ws[i] {
        Word::Char(c) => c,
        _ => ' ',
    })
}

/// The text of the Char segment at `ptr`.
pub open spec fn text_at(s: MachineState, ptr: Pointer) -> Result<Seq<char>, Error> {
    match read_at(s, ptr) {
        Ok(ws) => if all_chars(ws) {
            Ok(chars_of(ws))
        } else {
            Err(Error::TypeMismatch)
        },
        Err(e) => Err(e),
    }
}

fn text_of(ws: &Vec<Word>) -> (r: Result<Vec<char>, Error>)
    ensures
        all_chars(ws@) ==> r is Ok && r->Ok_0@ == chars_of(ws@),
        !all_chars(ws@) ==> r == Err::<Vec<char>, Error>(Error::TypeMismatch),
{
    let mut out: Vec<char> = Vec::new();
    let mut i: usize = 0;
    while i < ws.len()
        invariant
            i <= ws@.len(),
            all_chars(ws@.subrange(0, i as int)),
            out@ == chars_of(ws@.subrange(0, i as int)),
        decreases ws@.len() - i,
    {
        match ws[i] {
            Word::Char(c) => out.push(c),
            _ => {
                assert(!all_chars(ws@));
                return Err(Error::TypeMismatch);
            },
        }
        i = i + 1;
        assert(out@ =~= chars_of(ws@.subrange(0, i as int)));
        assert(all_chars(ws@.subrange(0, i as int))) by {
            assert forall|k: int| 0 <= k < i implies ws@.subrange(0, i as int)[k] is Char by {
                if k < i - 1 {
                    assert(ws@.subrange(0, i as int)[k] == ws@.subrange(0, i - 1)[k]);
                }
            }
        }
    }
    assert(ws@.subrange(0, ws@.len() as int) == ws@);
    Ok(out)
}

impl Machine {
    /// Finishes a floating-point operation that the outside computed: the two
    /// top cells are replaced by `result`.
    pub fn complete_arith(&mut self, result: Word) -> (r: Result<(), Error>)
        requires
            old(self).wf(),
        ensures
            final(self).wf(),
            old(self)@.stack.len() < 2 ==> r == Err::<(), Error>(Error::StackUnderflow)
                && final(self)@ == old(self)@,
            old(self)@.stack.len() >= 2 ==> r is Ok && final(self)@ == (MachineState {
                stack: replace_top_two(old(self)@.stack, result),
                ..old(self)@
            }),
    {
        if self.stack.height() < 2 {
            return Err(Error::StackUnderflow);
        }
        let _ = self.stack.pop();
        let _ = self.stack.pop();
        self.stack.push(result)
    }

    /// Stores a line of console input, one `Char` cell per character, as a
    /// segment on the stack and returns the new stack height.
    pub fn read(&mut self, line: &[Word]) -> (r: Result<usize, Error>)
        requires
            old(self).wf(),
        ensures
            final(self).wf(),
            line@.len() <= i64::MAX ==> r == Ok::<usize, Error>(final(self)@.stack.len() as usize)
                && final(self)@ == (MachineState {
                stack: old(self)@.stack + segment_cells(line@),
                ..old(self)@
            }),
            line@.len() > i64::MAX ==> r == Err::<usize, Error>(Error::StackOverflow) && final(self)@
                == old(self)@,
    {
        self.stack.push_segment(line)?;
        Ok(self.stack.height())
    }

    /// The text of the Char segment at `ptr`, for the console.
    pub fn write(&self, ptr: Pointer) -> (r: Result<Vec<char>, Error>)
        ensures
            match text_at(self@, ptr) {
                Ok(t) => r is Ok && r->Ok_0@ == t,
                Err(e) => r == Err::<Vec<char>, Error>(e),
            },
    {
        let arr = self.read_arr(ptr)?;
        text_of(&arr)
    }

    /// The file name (the Char segment at `data_ptr`) and the mode that an
    /// `Open` asks for.
    pub fn open_request(&self, data_ptr: Pointer, mode: i64) -> (r: Result<(Vec<char>, FileMode), Error>)
        ensures
            match text_at(self@, data_ptr) {
                Ok(t) => match mode_of(mode) {
                    Some(m) => r is Ok && r->Ok_0.0@ == t && r->Ok_0.1 == m,
                    None => r == Err::<(Vec<char>, FileMode), Error>(Error::IllegalInst),
                },
                Err(e) => r == Err::<(Vec<char>, FileMode), Error>(e),
            },
    {
        let name = self.write(data_ptr)?;
        let m = if mode == 0 {
            FileMode::Read
        } else if mode == 1 {
            FileMode::Truncate
        } else if mode == 2 {
            FileMode::Append
        } else {
            return Err(Error::IllegalInst);
        };
        Ok((name, m))
    }

    /// Records the outcome of opening a file: on success the file gets the next
    /// id, and a pointer to it is pushed and returned.
    pub fn open(&mut self, opened: bool) -> (r: Result<Pointer, Error>)
        requires
            old(self).wf(),
        ensures
            final(self).wf(),
            !opened ==> r == Err::<Pointer, Error>(Error::FileNotFound) && final(self)@ == old(self)@,
            opened ==> {
                let p = Pointer::Files(old(self)@.files.len() as usize);
                &&& r == Ok::<Pointer, Error>(p)
                &&& final(self)@ == (MachineState {
                    files: old(self)@.files.push(true),
                    stack: old(self)@.stack.push(Word::Ptr(p)),
                    ..old(self)@
                })
            },
    {
        if !opened {
            return Err(Error::FileNotFound);
        }
        let id = self.files.len();
        self.files.push(true);
        let p = Pointer::Files(id);
        let _ = self.stack.push(Word::Ptr(p));
        Ok(p)
    }
}

} // verus!
