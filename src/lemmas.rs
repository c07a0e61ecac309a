use vstd::prelude::*;
use crate::error::Error;
use crate::exec::{Inst, InstType};
use crate::machine::MachineState;
use crate::memory::{
    alloc_fits, alloc_state, fill_free, first_fit, fit_start, free_at, free_segment, lemma_fit_start,
    placed, read_at, read_segment, window_free,
};
use crate::semantics::{binary_spec, control_spec, NumClass, Request};
use crate::stack::segment_cells;
use crate::word::{Pointer, Word};

verus! {

/// The stack after pushing each value of `vs` in turn.
pub open spec fn push_all(st: Seq<Word>, vs: Seq<Word>) -> Seq<Word>
    decreases vs.len(),
{
    if vs.len() == 0 {
        st
    } else {
        push_all(st, vs.drop_last()).push(vs.last())
    }
}

/// The stack after `k` pops.
pub open spec fn pop_n(st: Seq<Word>, k: nat) -> Seq<Word>
    decreases k,
{
    if k == 0 || st.len() == 0 {
        st
    } else {
        pop_n(st.drop_last(), (k - 1) as nat)
    }
}

proof fn lemma_push_all(st: Seq<Word>, vs: Seq<Word>)
    ensures
        push_all(st, vs) == st + vs,
    decreases vs.len(),
{
    if vs.len() > 0 {
        lemma_push_all(st, vs.drop_last());
        assert(st + vs =~= (st + vs.drop_last()).push(vs.last()));
    } else {
        assert(st + vs =~= st);
    }
}

proof fn lemma_pop_n(st: Seq<Word>, k: nat)
    requires
        k <= st.len(),
    ensures
        pop_n(st, k) == st.subrange(0, st.len() - k),
    decreases k,
{
    if k == 0 {
        assert(st.subrange(0, st.len() as int) =~= st);
    } else {
        lemma_pop_n(st.drop_last(), (k - 1) as nat);
        assert(st.drop_last().subrange(0, st.drop_last().len() - (k - 1)) =~= st.subrange(0, st.len() - k));
    }
}

/// Pushing the values `vs` and then popping as many times gives the values back
/// last one first, one fewer cell after each pop, and ends with the stack as it
/// was.
pub proof fn lemma_push_pop_lifo(st: Seq<Word>, vs: Seq<Word>)
    ensures
        pop_n(push_all(st, vs), vs.len()) == st,
        forall|j: nat|
            j < vs.len() ==> (#[trigger] pop_n(push_all(st, vs), j)).len() == st.len() + vs.len() - j
                && pop_n(push_all(st, vs), j).last() == vs[vs.len() - 1 - j],
{
    lemma_push_all(st, vs);
    let full = st + vs;
    lemma_pop_n(full, vs.len());
    assert(full.subrange(0, full.len() - vs.len()) =~= st);
    assert forall|j: nat| j < vs.len() implies (#[trigger] pop_n(push_all(st, vs), j)).len() == st.len()
        + vs.len() - j && pop_n(push_all(st, vs), j).last() == vs[vs.len() - 1 - j] by {
        lemma_pop_n(full, j);
    }
}

/// Reading back a segment just pushed on the stack gives the values pushed,
/// for any non-empty sequence of values.
pub proof fn lemma_segment_round_trip(s: MachineState, v: Seq<Word>)
    requires
        1 <= v.len() <= i64::MAX,
        s.stack.len() + 1 + v.len() <= usize::MAX,
    ensures
        read_at(
            MachineState { stack: s.stack + segment_cells(v), ..s },
            Pointer::Stack((s.stack.len() + 1) as usize),
        ) == Ok::<Seq<Word>, Error>(v),
{
    let cells = s.stack + segment_cells(v);
    let p = s.stack.len() as int + 1;
    assert(cells[p - 1] == Word::Int(v.len() as i64));
    assert(cells.subrange(p, p + v.len() as int) =~= v);
    assert(read_segment(cells, p) == Ok::<Seq<Word>, Error>(v));
}

/// Whenever some `need` cells from `t` on are free, first-fit finds a place
/// no later than `t`.
pub proof fn lemma_fit_exists(heap: Seq<Word>, need: int, t: int)
    requires
        need >= 1,
        window_free(heap, t, need),
    ensures
        first_fit(heap, need, fit_start(heap, need)),
        fit_start(heap, need) <= t,
    decreases t,
{
    if exists|u: int| 0 <= u < t && window_free(heap, u, need) {
        let u = choose|u: int| 0 <= u < t && window_free(heap, u, need);
        lemma_fit_exists(heap, need, u);
    } else {
        assert(first_fit(heap, need, t));
        lemma_fit_start(heap, need, t);
    }
}

/// `malloc(n)`, then `free` of the pointer it returned, then `malloc(n)` again:
/// the free succeeds and the second allocation never grows the heap. It takes
/// the same cells, and leaves the heap exactly as the first one did, whenever
/// the heap did not end in a free cell before the first call.
pub proof fn lemma_free_then_malloc_reuses(m: MachineState, n: int)
    requires
        1 <= n,
        m.heap.len() <= usize::MAX,
        alloc_fits(m.heap, n),
    ensures
        ({
            let s1 = fit_start(m.heap, n + 1);
            let m1 = alloc_state(m, n, s1);
            &&& free_at(m1, Pointer::Heap((s1 + 1) as usize)) is Ok
            &&& {
                let m2 = free_at(m1, Pointer::Heap((s1 + 1) as usize))->Ok_0;
                let s2 = fit_start(m2.heap, n + 1);
                &&& alloc_fits(m2.heap, n)
                &&& s2 <= s1
                &&& alloc_state(m2, n, s2).heap.len() == m1.heap.len()
                &&& (m.heap.len() == 0 || m.heap.last() != Word::Free) ==> s2 == s1 && alloc_state(m2, n, s2)
                    == m1
            }
        }),
{
    let heap = m.heap;
    let need = n + 1;
    let s1 = fit_start(heap, need);
    assert(first_fit(heap, need, s1)) by {
        if exists|u: int| window_free(heap, u, need) {
            let u = choose|u: int| window_free(heap, u, need);
            lemma_fit_exists(heap, need, u);
        } else {
            assert(first_fit(heap, need, heap.len() as int));
            lemma_fit_start(heap, need, heap.len() as int);
        }
    }
    let h1 = placed(heap, s1, n);
    let m1 = alloc_state(m, n, s1);
    let p = s1 + 1;
    assert(h1[p - 1] == Word::Int(n as i64));
    assert(free_segment(h1, p) == Ok::<Seq<Word>, Error>(fill_free(h1, s1, s1 + need)));
    let h2 = fill_free(h1, s1, s1 + need);
    let m2 = MachineState { heap: h2, ..m1 };
    assert(free_at(m1, Pointer::Heap(p as usize)) == Ok::<MachineState, Error>(m2));
    assert(window_free(h2, s1, need));
    lemma_fit_exists(h2, need, s1);
    let s2 = fit_start(h2, need);
    assert(placed(h2, s2, n).len() == h1.len());
    if heap.len() == 0 || heap.last() != Word::Free {
        assert forall|t: int| 0 <= t < s1 implies !window_free(h2, t, need) by {
            if t + need <= heap.len() {
                assert(!window_free(heap, t, need));
                let k = choose|k: int| t <= k < t + need && heap[k] != Word::Free;
                assert(h2[k] == heap[k]);
            } else {
                assert(heap.len() > 0);
                assert(h2[heap.len() - 1] == heap[heap.len() - 1]);
            }
        }
        assert(first_fit(h2, need, s1));
        lemma_fit_start(h2, need, s1);
        assert(placed(h2, s1, n) =~= h1);
    }
}

/// `Div` whose divisor on top of the stack is `Int(0)`, over an `Int` or
/// `Float` dividend, fails with `DivByZero`; a failed instruction leaves the
/// machine as it was.
pub proof fn lemma_div_by_zero(s: MachineState)
    requires
        s.stack.len() >= 2,
        s.stack.last() == Word::Int(0),
        s.stack[s.stack.len() - 2] is Int || s.stack[s.stack.len() - 2] is Float,
    ensures
        binary_spec(s, InstType::Div) == Err::<(MachineState, Request), Error>(Error::DivByZero),
{
}

/// `Plus` on an `Int` under a `Float` is carried out as a `Float` addition of
/// the two; on an `Int` under a `Char` it fails with `IllegalInst`.
pub proof fn lemma_plus_promotion(s: MachineState, a: i64, b: u32, c: char)
    requires
        s.stack.len() >= 2,
        s.stack[s.stack.len() - 2] == Word::Int(a),
    ensures
        s.stack.last() == Word::Float(b) ==> binary_spec(s, InstType::Plus) == Ok::<(MachineState, Request), Error>((
            s,
            Request::Arith { op: InstType::Plus, class: NumClass::Float, left: Word::Int(a), right: Word::Float(b) },
        )),
        s.stack.last() == Word::Char(c) ==> binary_spec(s, InstType::Plus) == Err::<(MachineState, Request), Error>(
            Error::IllegalInst,
        ),
{
}

/// A `Jmp` to the program's length fails with `IllegalJmp`; one to its last
/// instruction goes there.
pub proof fn lemma_jump_bounds(s: MachineState, other: Word)
    requires
        1 <= s.program.len() <= i64::MAX,
    ensures
        control_spec(s, Inst { inst_type: InstType::Jmp, operand: [Word::Int(s.program.len() as i64), other] })
            == Err::<(MachineState, Request), Error>(Error::IllegalJmp),
        control_spec(s, Inst { inst_type: InstType::Jmp, operand: [Word::Int((s.program.len() - 1) as i64), other] })
            == Ok::<(MachineState, Request), Error>((MachineState { ip: (s.program.len() - 1) as nat, ..s }, Request::Continue)),
{
}

/// A `Call` that succeeds, followed (once the callee has left the stack as the
/// call made it) by a `Return`, resumes just after the call with the frame
/// base and the stack as they were before it.
pub proof fn lemma_call_return(s: MachineState, a: i64, o1: Word, o2: Word, o3: Word)
    requires
        s.ip <= s.program.len(),
        s.base <= usize::MAX,
        control_spec(s, Inst { inst_type: InstType::Call, operand: [Word::Int(a), o1] }) is Ok,
    ensures
        ({
            let s1 = control_spec(s, Inst { inst_type: InstType::Call, operand: [Word::Int(a), o1] })->Ok_0.0;
            let back = control_spec(s1, Inst { inst_type: InstType::Return, operand: [o2, o3] });
            &&& back is Ok
            &&& back->Ok_0.0 == s
        }),
{
    let s1 = control_spec(s, Inst { inst_type: InstType::Call, operand: [Word::Int(a), o1] })->Ok_0.0;
    let n = s1.stack.len();
    assert(n == s.stack.len() + 2);
    assert(s1.stack[n - 1] == Word::Int(s.ip as i64));
    assert(s1.stack[n - 2] == Word::Int(s.base as i64));
    assert(s1.stack.drop_last().drop_last() =~= s.stack);
    let back = control_spec(s1, Inst { inst_type: InstType::Return, operand: [o2, o3] });
    assert(back->Ok_0.0 == s);
}

} // verus!
