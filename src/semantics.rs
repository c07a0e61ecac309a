use vstd::prelude::*;
use crate::error::Error;
use crate::exec::{Inst, InstType};
use crate::machine::{MachineState, REGISTER_COUNT};
use crate::memory::{alloc_fits, fit_start, free_at, placed, set_at};
use crate::stack::segment_cells;
use crate::word::{Pointer, Word};

verus! {

/// The numeric type both operands of a binary operation are widened to.
#[derive(Debug, Clone, Copy, PartialEq, Eq, Structural)]
pub enum NumClass {
    Int,
    Float,
    Double,
}

/// What the machine needs from outside before the program can go on.
#[derive(Debug, Clone, Copy, PartialEq, Eq, Structural)]
pub enum Request {
    /// Nothing: the instruction is done.
    Continue,
    /// A floating-point `Plus`, `Sub`, `Mul`, `Div` or `Cmp` on the two top
    /// cells, both widened to `class`; the stack still holds them.
    Arith { op: InstType, class: NumClass, left: Word, right: Word },
    /// One line of console input, to be handed to `Machine::read`.
    ReadLine,
    /// The Char segment at this pointer, to be written to the console.
    Write(Pointer),
    /// Open the file named by the Char segment at this pointer, in this mode.
    Open(Pointer, i64),
    /// The file with this id was closed: release its handle.
    Close(usize),
}

/// Widening of a pair of operands: equal types stay, an `Int` meets a `Float`
/// as a `Float`, a `Float` meets a `Double` as a `Double`; no other pair is
/// numeric.
pub open spec fn promote(l: Word, r: Word) -> Option<NumClass> {
    match (l, r) {
        (Word::Int(_), Word::Int(_)) => Some(NumClass::Int),
        (Word::Float(_), Word::Float(_)) => Some(NumClass::Float),
        (Word::Int(_), Word::Float(_)) => Some(NumClass::Float),
        (Word::Float(_), Word::Int(_)) => Some(NumClass::Float),
        (Word::Double(_), Word::Double(_)) => Some(NumClass::Double),
        (Word::Float(_), Word::Double(_)) => Some(NumClass::Double),
        (Word::Double(_), Word::Float(_)) => Some(NumClass::Double),
        _ => None,
    }
}

/// Is the value zero once widened (either sign of a float zero counts)?
pub open spec fn is_zero(w: Word) -> bool {
    match w {
        Word::Int(v) => v == 0,
        Word::Float(bits) => bits == 0 || bits == 0x8000_0000u32,
        Word::Double(bits) => bits == 0 || bits == 0x8000_0000_0000_0000u64,
        _ => false,
    }
}

pub open spec fn magnitude(a: i64) -> int {
    if a < 0 { -a } else { a as int }
}

/// Integer quotient rounded toward zero; the one overflowing case,
/// `i64::MIN / -1`, wraps to `i64::MIN`.
pub open spec fn int_div(a: i64, b: i64) -> i64 {
    let q = magnitude(a) / magnitude(b);
    if (a < 0) != (b < 0) {
        (-q) as i64
    } else if q > i64::MAX {
        i64::MIN
    } else {
        q as i64
    }
}

/// The result of an integer binary operation; sums, differences and products
/// wrap around.
pub open spec fn int_op(op: InstType, a: i64, b: i64) -> Result<Word, Error> {
    match op {
        InstType::Plus => Ok(Word::Int(a.wrapping_add(b))),
        InstType::Sub => Ok(Word::Int(a.wrapping_sub(b))),
        InstType::Mul => Ok(Word::Int(a.wrapping_mul(b))),
        InstType::Div => if b == 0 {
            Err(Error::DivByZero)
        } else {
            Ok(Word::Int(int_div(a, b)))
        },
        InstType::And => Ok(Word::Int(a & b)),
        InstType::Or => Ok(Word::Int(a | b)),
        InstType::Xor => Ok(Word::Int(a ^ b)),
        InstType::Cmp => Ok(Word::Int(if a == b { 1 } else { 0 })),
        _ => Err(Error::IllegalInst),
    }
}

pub open spec fn is_bitwise(op: InstType) -> bool {
    op == InstType::And || op == InstType::Or || op == InstType::Xor
}

/// The two top cells are replaced by `w`.
pub open spec fn replace_top_two(stack: Seq<Word>, w: Word) -> Seq<Word> {
    stack.drop_last().drop_last().push(w)
}

/// A binary operation on the two top cells (the right operand on top). It
/// either completes (integers), asks for floating-point work with the stack
/// untouched, or fails with the stack untouched.
pub open spec fn binary_spec(s: MachineState, op: InstType) -> Result<(MachineState, Request), Error> {
    let n = s.stack.len();
    if n < 2 {
        Err(Error::StackUnderflow)
    } else {
        let l = s.stack[n - 2];
        let r = s.stack[n - 1];
        match promote(l, r) {
            None => Err(Error::IllegalInst),
            Some(NumClass::Int) => match (l, r) {
                (Word::Int(a), Word::Int(b)) => match int_op(op, a, b) {
                    Ok(w) => Ok((MachineState { stack: replace_top_two(s.stack, w), ..s }, Request::Continue)),
                    Err(e) => Err(e),
                },
                _ => Err(Error::IllegalInst),
            },
            Some(c) => if is_bitwise(op) {
                Err(Error::IllegalInst)
            } else if op == InstType::Div && is_zero(r) {
                Err(Error::DivByZero)
            } else {
                Ok((s, Request::Arith { op, class: c, left: l, right: r }))
            },
        }
    }
}

pub open spec fn push_state(s: MachineState, w: Word) -> MachineState {
    MachineState { stack: s.stack.push(w), ..s }
}

/// Continue after `s2`.
pub open spec fn done(s2: MachineState) -> Result<(MachineState, Request), Error> {
    Ok((s2, Request::Continue))
}

/// The register index an operand names.
pub open spec fn register_of(w: Word) -> Result<int, Error> {
    match w {
        Word::Ptr(Pointer::Register(i)) => if i < REGISTER_COUNT {
            Ok(i as int)
        } else {
            Err(Error::IllegalInst)
        },
        Word::Ptr(_) => Err(Error::InvalidPointer),
        _ => Err(Error::IllegalInst),
    }
}

/// Is `a` a valid jump target in a program of `len` instructions?
pub open spec fn jump_ok(a: i64, len: nat) -> bool {
    0 <= a < len
}

/// Pushing a value given as the first operand, which must have the variant
/// that `want` names.
pub open spec fn push_literal(s: MachineState, w: Word, want: InstType) -> Result<(MachineState, Request), Error> {
    let ok = match (want, w) {
        (InstType::Pushi, Word::Int(_)) => true,
        (InstType::Pushf, Word::Float(_)) => true,
        (InstType::Pushd, Word::Double(_)) => true,
        (InstType::Pushc, Word::Char(_)) => true,
        _ => false,
    };
    if ok {
        done(push_state(s, w))
    } else {
        Err(Error::IllegalInst)
    }
}

/// Jumps, calls, returns, `Halt` and `Exit`. Jump targets are absolute
/// instruction indices. `Call` saves the frame base and the return address on
/// the stack; `Return` checks both saved cells before it changes anything, so
/// a failed `Return` leaves the machine as it was.
pub open spec fn control_spec(s: MachineState, inst: Inst) -> Result<(MachineState, Request), Error> {
    let a0 = inst.operand[0];
    let len = s.program.len();
    match inst.inst_type {
        InstType::Jmp => match a0 {
            Word::Int(a) => if jump_ok(a, len) {
                done(MachineState { ip: a as nat, ..s })
            } else {
                Err(Error::IllegalJmp)
            },
            _ => Err(Error::IllegalInst),
        },
        InstType::Jeq | InstType::Jne => match a0 {
            Word::Int(a) => if !jump_ok(a, len) {
                Err(Error::IllegalJmp)
            } else if s.stack.len() == 0 {
                Err(Error::StackUnderflow)
            } else {
                let v = s.stack.last();
                let want = if inst.inst_type == InstType::Jeq { 1i64 } else { 0i64 };
                let s1 = MachineState { stack: s.stack.drop_last(), ..s };
                if v == Word::Int(want) {
                    done(MachineState { ip: a as nat, ..s1 })
                } else {
                    done(s1)
                }
            },
            _ => Err(Error::IllegalJmp),
        },
        InstType::Call => match a0 {
            Word::Int(a) => if !jump_ok(a, len) {
                Err(Error::IllegalJmp)
            } else if s.base > i64::MAX || s.stack.len() + 1 > i64::MAX || s.ip > i64::MAX {
                Err(Error::StackOverflow)
            } else {
                done(
                    MachineState {
                        stack: s.stack.push(Word::Int(s.base as i64)).push(Word::Int(s.ip as i64)),
                        base: s.stack.len() + 1,
                        ip: a as nat,
                        ..s
                    },
                )
            },
            _ => Err(Error::IllegalInst),
        },
        InstType::Return => {
            let n = s.stack.len();
            if n < 2 {
                Err(Error::StackUnderflow)
            } else {
                match (s.stack[n - 1], s.stack[n - 2]) {
                    (Word::Int(a), Word::Int(b)) => if a < 0 || a > len {
                        Err(Error::IllegalJmp)
                    } else if b < 0 || b > usize::MAX {
                        Err(Error::IllegalInst)
                    } else {
                        done(
                            MachineState {
                                stack: s.stack.drop_last().drop_last(),
                                base: b as nat,
                                ip: a as nat,
                                ..s
                            },
                        )
                    },
                    _ => Err(Error::IllegalInst),
                }
            }
        },
        InstType::Halt => done(MachineState { halted: true, ..s }),
        InstType::Exit => done(MachineState { stack: s.stack.push(a0), exited: true, ..s }),
        _ => Err(Error::IllegalInst),
    }
}

/// The pushes, `Pop`, `Dup` and `Not`.
pub open spec fn stack_spec(s: MachineState, inst: Inst) -> Result<(MachineState, Request), Error> {
    let a0 = inst.operand[0];
    let n = s.stack.len();
    match inst.inst_type {
        InstType::Pushr => match register_of(a0) {
            Ok(i) => done(push_state(s, s.registers[i])),
            Err(e) => Err(e),
        },
        InstType::Pushs => match a0 {
            Word::Ptr(Pointer::Data(i)) => if i >= s.data.len() {
                Err(Error::SegmentationFault)
            } else if s.data[i as int].len() > i64::MAX {
                Err(Error::StackOverflow)
            } else {
                let seg = segment_cells(s.data[i as int]);
                done(MachineState {
                    stack: s.stack + seg + seq![Word::Ptr(Pointer::Stack((n + 1) as usize))],
                    ..s
                })
            },
            Word::Ptr(_) => Err(Error::InvalidPointer),
            _ => Err(Error::IllegalInst),
        },
        InstType::Pop => if n == 0 {
            Err(Error::StackUnderflow)
        } else {
            done(MachineState { stack: s.stack.drop_last(), ..s })
        },
        InstType::Dup => if n == 0 {
            Err(Error::StackUnderflow)
        } else {
            done(push_state(s, s.stack.last()))
        },
        InstType::Not => if n == 0 {
            Err(Error::StackUnderflow)
        } else {
            match s.stack.last() {
                Word::Int(a) => done(MachineState { stack: s.stack.drop_last().push(Word::Int(!a)), ..s }),
                _ => Err(Error::IllegalInst),
            }
        },
        _ => push_literal(s, a0, inst.inst_type),
    }
}

/// Heap segments and registers: `Alloc`, `Free`, `SetElem` (writes the value
/// popped from the stack), `Mov`, `Loadr` and `Storer`.
pub open spec fn heap_spec(s: MachineState, inst: Inst) -> Result<(MachineState, Request), Error> {
    let a0 = inst.operand[0];
    let a1 = inst.operand[1];
    match inst.inst_type {
        InstType::Alloc => match a0 {
            Word::Int(size) => if size < 0 {
                Err(Error::IllegalOperandType)
            } else if !alloc_fits(s.heap, size as int) {
                Err(Error::OutOfMemory)
            } else {
                let start = fit_start(s.heap, size + 1);
                done(MachineState {
                    heap: placed(s.heap, start, size as int),
                    stack: s.stack.push(Word::Ptr(Pointer::Heap((start + 1) as usize))),
                    ..s
                })
            },
            _ => Err(Error::IllegalInst),
        },
        InstType::Free => match a0 {
            Word::Ptr(p) => match free_at(s, p) {
                Ok(s2) => done(s2),
                Err(e) => Err(e),
            },
            _ => Err(Error::IllegalInst),
        },
        InstType::SetElem => match a0 {
            Word::Ptr(p) => if s.stack.len() == 0 {
                Err(Error::StackUnderflow)
            } else {
                match set_at(MachineState { stack: s.stack.drop_last(), ..s }, p, s.stack.last()) {
                    Ok(s2) => done(s2),
                    Err(e) => Err(e),
                }
            },
            _ => Err(Error::IllegalInst),
        },
        InstType::Mov => match register_of(a0) {
            Ok(i) => done(MachineState { registers: s.registers.update(i, a1), ..s }),
            Err(e) => Err(e),
        },
        InstType::Loadr => match register_of(a0) {
            Ok(i) => match a1 {
                Word::Ptr(Pointer::Heap(h)) => if h >= s.heap.len() {
                    Err(Error::SegmentationFault)
                } else {
                    done(MachineState { registers: s.registers.update(i, s.heap[h as int]), ..s })
                },
                Word::Ptr(_) => Err(Error::InvalidPointer),
                _ => Err(Error::IllegalInst),
            },
            Err(e) => Err(e),
        },
        InstType::Storer => match register_of(a0) {
            Ok(i) => if !alloc_fits(s.heap, 1) {
                Err(Error::OutOfMemory)
            } else {
                let start = fit_start(s.heap, 2);
                done(MachineState {
                    heap: placed(s.heap, start, 1).update(start + 1, s.registers[i]),
                    registers: s.registers.update(i, Word::Ptr(Pointer::Heap((start + 1) as usize))),
                    ..s
                })
            },
            Err(e) => Err(e),
        },
        _ => Err(Error::IllegalInst),
    }
}

/// Console and file instructions: the machine only checks the operands and
/// says what it needs; `Readf` and `Writef` do nothing.
pub open spec fn io_spec(s: MachineState, inst: Inst) -> Result<(MachineState, Request), Error> {
    let a0 = inst.operand[0];
    let a1 = inst.operand[1];
    match inst.inst_type {
        InstType::Open => match (a0, a1) {
            (Word::Ptr(p), Word::Int(mode)) => Ok((s, Request::Open(p, mode))),
            (Word::Ptr(_), _) => Err(Error::IllegalOperandType),
            _ => Err(Error::IllegalInst),
        },
        InstType::Close => match a0 {
            Word::Ptr(Pointer::Files(id)) => {
                let files = if id < s.files.len() { s.files.update(id as int, false) } else { s.files };
                Ok((MachineState { files, ..s }, Request::Close(id)))
            },
            Word::Ptr(_) => Err(Error::FileNotFound),
            _ => Err(Error::IllegalInst),
        },
        InstType::Read => Ok((s, Request::ReadLine)),
        InstType::Write => match a0 {
            Word::Ptr(p) => Ok((s, Request::Write(p))),
            _ => Err(Error::IllegalInst),
        },
        InstType::Readf | InstType::Writef => done(s),
        _ => Err(Error::IllegalInst),
    }
}

/// What executing `inst` does to `s` (whose instruction pointer already
/// points past `inst`): the next state and what is asked of the outside, or
/// the error. A failed instruction changes nothing.
pub open spec fn inst_spec(s: MachineState, inst: Inst) -> Result<(MachineState, Request), Error> {
    match inst.inst_type {
        InstType::Pushi | InstType::Pushf | InstType::Pushd | InstType::Pushc | InstType::Pushr
        | InstType::Pushs | InstType::Pop | InstType::Dup | InstType::Not => stack_spec(s, inst),
        InstType::Plus | InstType::Sub | InstType::Mul | InstType::Div | InstType::And
        | InstType::Or | InstType::Xor | InstType::Cmp => binary_spec(s, inst.inst_type),
        InstType::Jmp | InstType::Jeq | InstType::Jne | InstType::Halt | InstType::Call
        | InstType::Return | InstType::Exit => control_spec(s, inst),
        InstType::Alloc | InstType::Free | InstType::SetElem | InstType::Mov | InstType::Loadr
        | InstType::Storer => heap_spec(s, inst),
        _ => io_spec(s, inst),
    }
}

/// Does an executed instruction's outcome agree with its specification?
pub open spec fn agrees(
    before: MachineState,
    after: MachineState,
    r: Result<Request, Error>,
    e: Result<(MachineState, Request), Error>,
) -> bool {
    match e {
        Ok((s2, q)) => r == Ok::<Request, Error>(q) && after == s2,
        Err(x) => r == Err::<Request, Error>(x) && after == before,
    }
}

/// How a run of the dispatch loop ended, when no instruction failed.
#[derive(Debug, Clone, Copy, PartialEq, Eq, Structural)]
pub enum Status {
    /// A `Halt` was executed.
    Halted,
    /// An `Exit` was executed; its code is on top of the stack.
    Exited,
    /// The instruction pointer ran off the end of the program.
    Exhausted,
    /// The last instruction needs outside work before the program can go on.
    Waiting(Request),
    /// The step budget ran out with the machine still running.
    Running,
}

/// `s` with the instruction pointer moved past the current instruction.
pub open spec fn advance(s: MachineState) -> MachineState {
    MachineState { ip: s.ip + 1, ..s }
}

/// One fetch-decode-execute cycle from `s`, whose instruction pointer is inside
/// the program. On an error the pointer has still moved on.
pub open spec fn step_spec(s: MachineState) -> Result<(MachineState, Request), Error> {
    inst_spec(advance(s), s.program[s.ip as int])
}

/// At most `fuel` cycles from `s`: the final state and how the run ended.
pub open spec fn run_spec(s: MachineState, fuel: nat) -> (MachineState, Result<Status, Error>)
    decreases fuel,
{
    if s.halted {
        (s, Ok(Status::Halted))
    } else if s.exited {
        (s, Ok(Status::Exited))
    } else if s.ip >= s.program.len() {
        (s, Ok(Status::Exhausted))
    } else if fuel == 0 {
        (s, Ok(Status::Running))
    } else {
        match step_spec(s) {
            Err(e) => (advance(s), Err(e)),
            Ok((s2, Request::Continue)) => run_spec(s2, (fuel - 1) as nat),
            Ok((s2, q)) => (s2, Ok(Status::Waiting(q))),
        }
    }
}

} // verus!
