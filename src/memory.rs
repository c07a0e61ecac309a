use vstd::prelude::*;
use crate::error::Error;
use crate::machine::{Machine, MachineState};
use crate::word::{Pointer, Word};

verus! {

// A segment is a header cell `Int(len)` followed by `len` payload cells; a
// pointer to a segment addresses its first payload cell, one past the header.

/// The payload of the segment whose first payload cell is `p`.
pub open spec fn read_segment(cells: Seq<Word>, p: int) -> Result<Seq<Word>, Error> {
    if p < 1 || p >= cells.len() {
        Err(Error::SegmentationFault)
    } else {
        match cells[p - 1] {
            Word::Int(n) => if n < 0 || p + n > cells.len() {
                Err(Error::SegmentationFault)
            } else {
                Ok(cells.subrange(p, p + n))
            },
            _ => Err(Error::InvalidPointer),
        }
    }
}

/// `cells` with every cell in `[lo, hi)` marked `Free`.
pub open spec fn fill_free(cells: Seq<Word>, lo: int, hi: int) -> Seq<Word> {
    Seq::new(cells.len(), |i: int| if lo <= i < hi { Word::Free } else { cells[i] })
}

/// `cells` after freeing the segment whose first payload cell is `p`, header
/// included.
pub open spec fn free_segment(cells: Seq<Word>, p: int) -> Result<Seq<Word>, Error> {
    if p < 1 || p > cells.len() {
        Err(Error::SegmentationFault)
    } else {
        match cells[p - 1] {
            Word::Int(n) => if n < 1 || p + n > cells.len() {
                Err(Error::SegmentationFault)
            } else {
                Ok(fill_free(cells, p - 1, p + n))
            },
            _ => Err(Error::TypeMismatch),
        }
    }
}

/// `cells` after writing `w` at `p`; a cell out of range or `Free` is a fault.
pub open spec fn set_cell(cells: Seq<Word>, p: int, w: Word) -> Result<Seq<Word>, Error> {
    if p < 0 || p >= cells.len() || cells[p] == Word::Free {
        Err(Error::SegmentationFault)
    } else {
        Ok(cells.update(p, w))
    }
}

/// Are the `need` cells from `s` on all inside `heap` and `Free`?
pub open spec fn window_free(heap: Seq<Word>, s: int, need: int) -> bool {
    &&& 0 <= s
    &&& s + need <= heap.len()
    &&& forall|k: int| s <= k < s + need ==> heap[k] == Word::Free
}

/// `s` is where first-fit puts a run of `need` cells: the lowest start of
/// `need` free cells, or the end of the heap when there is none.
pub open spec fn first_fit(heap: Seq<Word>, need: int, s: int) -> bool {
    &&& 0 <= s
    &&& window_free(heap, s, need) || s == heap.len()
    &&& forall|t: int| 0 <= t < s ==> !window_free(heap, t, need)
}

/// The header index first-fit picks for `need` cells.
pub open spec fn fit_start(heap: Seq<Word>, need: int) -> int {
    choose|s: int| first_fit(heap, need, s)
}

/// There is exactly one first fit, so `fit_start` names it.
pub proof fn lemma_fit_start(heap: Seq<Word>, need: int, s: int)
    requires
        need >= 1,
        first_fit(heap, need, s),
    ensures
        fit_start(heap, need) == s,
{
    let t = fit_start(heap, need);
    assert(first_fit(heap, need, t));
    if t < s {
        assert(!window_free(heap, t, need));
        assert(t == heap.len());
        assert(s > heap.len());
        assert(window_free(heap, s, need));
    } else if s < t {
        assert(!window_free(heap, s, need));
        assert(window_free(heap, t, need));
    }
}

/// `heap` after a segment of `len` zeroed cells is placed with its header at `s`;
/// the heap grows where the segment reaches past its end.
pub open spec fn placed(heap: Seq<Word>, s: int, len: int) -> Seq<Word> {
    Seq::new(
        if heap.len() >= s + len + 1 { heap.len() } else { (s + len + 1) as nat },
        |i: int|
            if i == s {
                Word::Int(len as i64)
            } else if s < i <= s + len {
                Word::Int(0)
            } else {
                heap[i]
            },
    )
}

/// Is there a run of `need` free cells anywhere in `heap`?
pub open spec fn has_fit(heap: Seq<Word>, need: int) -> bool {
    exists|s: int| window_free(heap, s, need)
}

/// Can a segment of `len` cells be allocated at all: its header holds `len`,
/// and it either fits in free cells or the grown heap can still be addressed.
pub open spec fn alloc_fits(heap: Seq<Word>, len: int) -> bool {
    len <= i64::MAX && (has_fit(heap, len + 1) || heap.len() + len + 1 <= usize::MAX)
}

pub open spec fn read_at(s: MachineState, ptr: Pointer) -> Result<Seq<Word>, Error> {
    match ptr {
        Pointer::Stack(p) => read_segment(s.stack, p as int),
        Pointer::Heap(p) => read_segment(s.heap, p as int),
        _ => Err(Error::InvalidPointer),
    }
}

pub open spec fn free_at(s: MachineState, ptr: Pointer) -> Result<MachineState, Error> {
    match ptr {
        Pointer::Stack(p) => match free_segment(s.stack, p as int) {
            Ok(c) => Ok(MachineState { stack: c, ..s }),
            Err(e) => Err(e),
        },
        Pointer::Heap(p) => match free_segment(s.heap, p as int) {
            Ok(c) => Ok(MachineState { heap: c, ..s }),
            Err(e) => Err(e),
        },
        _ => Err(Error::InvalidPointer),
    }
}

pub open spec fn set_at(s: MachineState, ptr: Pointer, w: Word) -> Result<MachineState, Error> {
    match ptr {
        Pointer::Stack(p) => match set_cell(s.stack, p as int, w) {
            Ok(c) => Ok(MachineState { stack: c, ..s }),
            Err(e) => Err(e),
        },
        Pointer::Heap(p) => match set_cell(s.heap, p as int, w) {
            Ok(c) => Ok(MachineState { heap: c, ..s }),
            Err(e) => Err(e),
        },
        _ => Err(Error::InvalidPointer),
    }
}

/// The state after a successful `malloc(len)` that put the header at `start`.
pub open spec fn alloc_state(s: MachineState, len: int, start: int) -> MachineState {
    MachineState { heap: placed(s.heap, start, len), ..s }
}

/// Does an exec result carry the same payload, or the same error, as a spec one?
pub open spec fn same_words(r: Result<Vec<Word>, Error>, e: Result<Seq<Word>, Error>) -> bool {
    match r {
        Ok(v) => e == Ok::<Seq<Word>, Error>(v@),
        Err(x) => e == Err::<Seq<Word>, Error>(x),
    }
}

pub fn read_cells(cells: &Vec<Word>, p: usize) -> (r: Result<Vec<Word>, Error>)
    ensures
        same_words(r, read_segment(cells@, p as int)),
{
    if p < 1 || p >= cells.len() {
        return Err(Error::SegmentationFault);
    }
    match cells[p - 1] {
        Word::Int(n) => {
            if n < 0 || n as u64 > (cells.len() - p) as u64 {
                return Err(Error::SegmentationFault);
            }
            let end = p + n as usize;
            let mut out: Vec<Word> = Vec::new();
            let mut i: usize = p;
            while i < end
                invariant
                    p <= i <= end <= cells@.len(),
                    out@ == cells@.subrange(p as int, i as int),
                decreases end - i,
            {
                out.push(cells[i]);
                i = i + 1;
            }
            Ok(out)
        },
        _ => Err(Error::InvalidPointer),
    }
}

pub fn free_cells(cells: &mut Vec<Word>, p: usize) -> (r: Result<(), Error>)
    ensures
        final(cells)@.len() == old(cells)@.len(),
        match free_segment(old(cells)@, p as int) {
            Ok(c) => r is Ok && final(cells)@ == c,
            Err(e) => r == Err::<(), Error>(e) && final(cells)@ == old(cells)@,
        },
{
    if p < 1 || p > cells.len() {
        return Err(Error::SegmentationFault);
    }
    match cells[p - 1] {
        Word::Int(n) => {
            if n < 1 || n as u64 > (cells.len() - p) as u64 {
                return Err(Error::SegmentationFault);
            }
            let end = p + n as usize;
            let ghost before = cells@;
            let mut i: usize = p - 1;
            while i < end
                invariant
                    p - 1 <= i <= end <= before.len(),
                    end == p + n,
                    cells@.len() == before.len(),
                    forall|k: int| 0 <= k < before.len() ==> cells@[k] == (if p - 1 <= k < i {
                        Word::Free
                    } else {
                        before[k]
                    }),
                decreases end - i,
            {
                cells.set(i, Word::Free);
                i = i + 1;
            }
            assert(cells@ =~= fill_free(before, p - 1, p + n));
            Ok(())
        },
        _ => Err(Error::TypeMismatch),
    }
}

pub fn set_cells(cells: &mut Vec<Word>, p: usize, w: Word) -> (r: Result<(), Error>)
    ensures
        final(cells)@.len() == old(cells)@.len(),
        match set_cell(old(cells)@, p as int, w) {
            Ok(c) => r is Ok && final(cells)@ == c,
            Err(e) => r == Err::<(), Error>(e) && final(cells)@ == old(cells)@,
        },
{
    if p >= cells.len() || cells[p] == Word::Free {
        return Err(Error::SegmentationFault);
    }
    cells.set(p, w);
    Ok(())
}

} // verus!

verus! {

/// The start of the first run of `need` free cells in `heap`, if any.
fn find_fit(heap: &Vec<Word>, need: usize) -> (r: Option<usize>)
    requires
        need >= 1,
    ensures
        match r {
            Some(s) => first_fit(heap@, need as int, s as int) && window_free(heap@, s as int, need as int),
            None => !has_fit(heap@, need as int) && first_fit(heap@, need as int, heap@.len() as int),
        },
{
    let ghost heap0 = heap@;
    let mut run: usize = 0;
    let mut i: usize = 0;
    while i < heap.len() && run < need
        invariant
            heap@ == heap0,
            i <= heap0.len(),
            run <= i,
            run <= need,
            forall|k: int| i - run <= k < i ==> heap0[k] == Word::Free,
            run < i ==> heap0[i - run - 1] != Word::Free,
            forall|t: int| 0 <= t < i - run && t + need <= i ==> !window_free(heap0, t, need as int),
        decreases heap0.len() - i,
    {
        if heap[i] == Word::Free {
            proof {
                assert forall|t: int| 0 <= t < i - run && t + need <= i + 1 implies !window_free(heap0, t, need as int) by {
                    if t + need == i + 1 {
                        assert(t <= i - run - 1 < t + need);
                    }
                }
            }
            run = run + 1;
        } else {
            proof {
                assert forall|t: int| 0 <= t < i + 1 && t + need <= i + 1 implies !window_free(heap0, t, need as int) by {
                    if t + need == i + 1 {
                        assert(t <= i < t + need);
                    } else if t >= i - run {
                        assert(false);
                    }
                }
            }
            run = 0;
        }
        i = i + 1;
    }
    if run >= need {
        let start = i - need;
        assert(window_free(heap0, start as int, need as int));
        assert(first_fit(heap0, need as int, start as int));
        Some(start)
    } else {
        assert forall|t: int| 0 <= t < heap0.len() implies !window_free(heap0, t, need as int) by {
            if t >= i - run {
                assert(t + need > heap0.len());
            }
        }
        assert(!has_fit(heap0, need as int));
        None
    }
}

/// Writes a zeroed segment of `len` cells with its header at `start`, growing
/// the heap where the segment reaches past its end.
fn place_segment(heap: &mut Vec<Word>, start: usize, len: usize)
    requires
        start <= old(heap)@.len(),
        start + len + 1 <= usize::MAX,
        start < old(heap)@.len() ==> start + len + 1 <= old(heap)@.len(),
    ensures
        final(heap)@ == placed(old(heap)@, start as int, len as int),
{
    let need: usize = len + 1;
    let ghost heap0 = heap@;
    let ghost target = placed(heap0, start as int, len as int);
    // the header cell
    if start < heap.len() {
        heap.set(start, Word::Int(len as i64));
    } else {
        heap.push(Word::Int(len as i64));
    }
    let mut j: usize = start + 1;
    while j < start + 1 + len
        invariant
            start + 1 <= j <= start + 1 + len,
            target == placed(heap0, start as int, len as int),
            start <= heap0.len(),
            start + len + 1 <= usize::MAX,
            need == len + 1,
            target.len() == if heap0.len() >= start + len + 1 { heap0.len() } else { (start + len + 1) as nat },
            heap@.len() == if heap0.len() >= j { heap0.len() } else { j as nat },
            start < heap0.len() ==> start + need <= heap0.len(),
            forall|k: int| 0 <= k < heap@.len() ==> heap@[k] == (if start <= k < j {
                target[k]
            } else {
                heap0[k]
            }),
        decreases start + 1 + len - j,
    {
        assert(j < target.len());
        assert(target[j as int] == Word::Int(0));
        if j < heap.len() {
            heap.set(j, Word::Int(0));
        } else {
            heap.push(Word::Int(0));
        }
        j = j + 1;
    }
    assert(heap@ =~= target);
}

impl Machine {
    /// Frees the stack or heap segment that `ptr` points into, header included.
    pub fn free(&mut self, ptr: Pointer) -> (r: Result<(), Error>)
        requires
            old(self).wf(),
        ensures
            final(self).wf(),
            match free_at(old(self)@, ptr) {
                Ok(s) => r is Ok && final(self)@ == s,
                Err(e) => r == Err::<(), Error>(e) && final(self)@ == old(self)@,
            },
    {
        match ptr {
            Pointer::Stack(p) => self.stack.free_at(p),
            Pointer::Heap(p) => free_cells(&mut self.heap, p),
            _ => Err(Error::InvalidPointer),
        }
    }

    /// Overwrites the single cell that `elem` addresses.
    pub fn setelem(&mut self, elem: Pointer, value: Word) -> (r: Result<(), Error>)
        requires
            old(self).wf(),
        ensures
            final(self).wf(),
            match set_at(old(self)@, elem, value) {
                Ok(s) => r is Ok && final(self)@ == s,
                Err(e) => r == Err::<(), Error>(e) && final(self)@ == old(self)@,
            },
    {
        match elem {
            Pointer::Stack(p) => self.stack.set_at(p, value),
            Pointer::Heap(p) => set_cells(&mut self.heap, p, value),
            _ => Err(Error::InvalidPointer),
        }
    }

    /// A copy of the payload of the segment that `ptr` points into.
    pub fn read_arr(&self, ptr: Pointer) -> (r: Result<Vec<Word>, Error>)
        ensures
            same_words(r, read_at(self@, ptr)),
    {
        match ptr {
            Pointer::Heap(p) => read_cells(&self.heap, p),
            Pointer::Stack(p) => read_cells(self.stack.cells(), p),
            _ => Err(Error::InvalidPointer),
        }
    }

    /// Allocates a heap segment of `len` cells, zeroed, first-fit: the lowest
    /// run of `len + 1` free cells takes the header and the payload; with no such
    /// run the heap grows. Returns a pointer to the first payload cell.
    pub fn malloc(&mut self, len: usize) -> (r: Result<Pointer, Error>)
        requires
            old(self).wf(),
        ensures
            final(self).wf(),
            !alloc_fits(old(self)@.heap, len as int) ==> r == Err::<Pointer, Error>(Error::OutOfMemory)
                && final(self)@ == old(self)@,
            alloc_fits(old(self)@.heap, len as int) ==> {
                let s = fit_start(old(self)@.heap, len + 1);
                &&& first_fit(old(self)@.heap, len + 1, s)
                &&& r == Ok::<Pointer, Error>(Pointer::Heap((s + 1) as usize))
                &&& final(self)@ == alloc_state(old(self)@, len as int, s)
            },
    {
        if len as u64 > 0x7fff_ffff_ffff_ffffu64 || len == usize::MAX {
            if len == usize::MAX {
                let heap_len = self.heap.len();
                assert(self.heap@.len() == heap_len);
                assert(forall|t: int| !(#[trigger] window_free(self.heap@, t, len + 1)));
            }
            return Err(Error::OutOfMemory);
        }
        let heap_len = self.heap.len();
        assert(self.heap@.len() == heap_len);
        let start = match find_fit(&self.heap, len + 1) {
            Some(s) => s,
            None => {
                if len >= usize::MAX - self.heap.len() {
                    return Err(Error::OutOfMemory);
                }
                self.heap.len()
            },
        };
        place_segment(&mut self.heap, start, len);
        proof {
            lemma_fit_start(old(self)@.heap, len + 1, start as int);
        }
        assert(self@ == alloc_state(old(self)@, len as int, start as int));
        Ok(Pointer::Heap(start + 1))
    }
}

} // verus!
