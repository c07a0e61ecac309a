use vstd::prelude::*;
use crate::error::Error;
use crate::machine::{Machine, MachineState, REGISTER_COUNT};
use crate::memory::{fit_start, placed, set_cell};
use crate::semantics::{
    advance, agrees, binary_spec, control_spec, heap_spec, inst_spec, int_div, int_op, io_spec, is_zero,
    jump_ok, magnitude, promote, register_of, run_spec, stack_spec, step_spec, NumClass, Request, Status,
};
use crate::word::{Pointer, Word};

verus! {

/// The opcodes of the instruction set.
#[derive(Debug, Clone, Copy, PartialEq, Eq, Structural)]
pub enum InstType {
    Pushi,
    Pushf,
    Pushd,
    Pushc,
    Pushr,
    Pushs,
    Pop,
    Dup,
    Plus,
    Sub,
    Mul,
    Div,
    And,
    Or,
    Xor,
    Not,
    Jmp,
    Jeq,
    Jne,
    Halt,
    Call,
    Return,
    Exit,
    Cmp,
    Alloc,
    Free,
    SetElem,
    Mov,
    Loadr,
    Storer,
    Open,
    Close,
    Readf,
    Writef,
    Read,
    Write,
}

/// An opcode and its two operand slots (`Word::Nil` where none is given).
#[derive(Debug, Clone, Copy)]
pub struct Inst {
    pub inst_type: InstType,
    pub operand: [Word; 2],
}

impl Inst {
    pub fn new(inst_type: InstType, operand: [Word; 2]) -> (r: Self)
        ensures
            r.inst_type == inst_type,
            r.operand@ == operand@,
    {
        Inst { inst_type, operand }
    }
}

/// Widening of two operands, as `promote` states it.
pub fn promote_pair(l: Word, r: Word) -> (c: Option<NumClass>)
    ensures
        c == promote(l, r),
{
    match (l, r) {
        (Word::Int(_), Word::Int(_)) => Some(NumClass::Int),
        (Word::Float(_), Word::Float(_)) => Some(NumClass::Float),
        (Word::Int(_), Word::Float(_)) => Some(NumClass::Float),
        (Word::Float(_), Word::Int(_)) => Some(NumClass::Float),
        (Word::Double(_), Word::Double(_)) => Some(NumClass::Double),
        (Word::Float(_), Word::Double(_)) => Some(NumClass::Double),
        (Word::Double(_), Word::Float(_)) => Some(NumClass::Double),
        _ => None,
    }
}

fn zero_word(w: Word) -> (r: bool)
    ensures
        r == is_zero(w),
{
    match w {
        Word::Int(v) => v == 0,
        Word::Float(bits) => bits == 0 || bits == 0x8000_0000u32,
        Word::Double(bits) => bits == 0 || bits == 0x8000_0000_0000_0000u64,
        _ => false,
    }
}

fn magnitude_of(a: i64) -> (r: u64)
    ensures
        r == magnitude(a),
{
    if a < 0 {
        (0i128 - a as i128) as u64
    } else {
        a as u64
    }
}

/// Integer division rounded toward zero, wrapping on `i64::MIN / -1`.
pub fn div_trunc(a: i64, b: i64) -> (r: i64)
    requires
        b != 0,
    ensures
        r == int_div(a, b),
{
    let q: u64 = magnitude_of(a) / magnitude_of(b);
    if (a < 0) != (b < 0) {
        proof {
            assert(magnitude(a) / magnitude(b) <= magnitude(a)) by (nonlinear_arith)
                requires
                    magnitude(b) >= 1,
                    magnitude(a) >= 0,
            ;
        }
        (0i128 - q as i128) as i64
    } else if q > 0x7fff_ffff_ffff_ffffu64 {
        i64::MIN
    } else {
        q as i64
    }
}

/// An integer binary operation, as `int_op` states it.
pub fn int_apply(op: InstType, a: i64, b: i64) -> (r: Result<Word, Error>)
    ensures
        r == int_op(op, a, b),
{
    match op {
        InstType::Plus => Ok(Word::Int(a.wrapping_add(b))),
        InstType::Sub => Ok(Word::Int(a.wrapping_sub(b))),
        InstType::Mul => Ok(Word::Int(a.wrapping_mul(b))),
        InstType::Div => if b == 0 {
            Err(Error::DivByZero)
        } else {
            Ok(Word::Int(div_trunc(a, b)))
        },
        InstType::And => Ok(Word::Int(a & b)),
        InstType::Or => Ok(Word::Int(a | b)),
        InstType::Xor => Ok(Word::Int(a ^ b)),
        InstType::Cmp => Ok(Word::Int(if a == b { 1 } else { 0 })),
        _ => Err(Error::IllegalInst),
    }
}

fn register_index(w: Word) -> (r: Result<usize, Error>)
    ensures
        match register_of(w) {
            Ok(i) => r == Ok::<usize, Error>(i as usize),
            Err(e) => r == Err::<usize, Error>(e),
        },
{
    match w {
        Word::Ptr(Pointer::Register(i)) => if i < REGISTER_COUNT {
            Ok(i)
        } else {
            Err(Error::IllegalInst)
        },
        Word::Ptr(_) => Err(Error::InvalidPointer),
        _ => Err(Error::IllegalInst),
    }
}

impl Machine {
    /// A binary operation on the two top stack cells (see `binary_spec`).
    pub fn binary_op(&mut self, op: InstType) -> (r: Result<Request, Error>)
        requires
            old(self).wf(),
        ensures
            final(self).wf(),
            agrees(old(self)@, final(self)@, r, binary_spec(old(self)@, op)),
    {
        let n = self.stack.height();
        if n < 2 {
            return Err(Error::StackUnderflow);
        }
        let l = match self.stack.get(n - 2) {
            Some(w) => w,
            None => return Err(Error::StackUnderflow),
        };
        let r = match self.stack.get(n - 1) {
            Some(w) => w,
            None => return Err(Error::StackUnderflow),
        };
        match promote_pair(l, r) {
            None => Err(Error::IllegalInst),
            Some(NumClass::Int) => match (l, r) {
                (Word::Int(a), Word::Int(b)) => {
                    let w = int_apply(op, a, b)?;
                    let _ = self.stack.pop();
                    let _ = self.stack.pop();
                    let _ = self.stack.push(w);
                    Ok(Request::Continue)
                },
                _ => Err(Error::IllegalInst),
            },
            Some(c) => if op == InstType::And || op == InstType::Or || op == InstType::Xor {
                Err(Error::IllegalInst)
            } else if op == InstType::Div && zero_word(r) {
                Err(Error::DivByZero)
            } else {
                Ok(Request::Arith { op, class: c, left: l, right: r })
            },
        }
    }

    fn exec_stack(&mut self, inst: &Inst) -> (r: Result<Request, Error>)
        requires
            old(self).wf(),
        ensures
            final(self).wf(),
            agrees(old(self)@, final(self)@, r, stack_spec(old(self)@, *inst)),
    {
        let a0 = inst.operand[0];
        match inst.inst_type {
            InstType::Pushr => {
                let i = register_index(a0)?;
                let v = self.registers[i];
                let _ = self.stack.push(v);
                Ok(Request::Continue)
            },
            InstType::Pushs => match a0 {
                Word::Ptr(Pointer::Data(i)) => {
                    if i >= self.data.len() {
                        return Err(Error::SegmentationFault);
                    }
                    assert(self@.data[i as int] == self.data@[i as int]@);
                    let n = self.stack.height();
                    let ptr = self.stack.push_segment(self.data[i].as_slice())?;
                    let _ = self.stack.push(Word::Ptr(ptr));
                    assert(self@.stack =~= old(self)@.stack + crate::stack::segment_cells(old(self)@.data[i as int])
                        + seq![Word::Ptr(Pointer::Stack((n + 1) as usize))]);
                    Ok(Request::Continue)
                },
                Word::Ptr(_) => Err(Error::InvalidPointer),
                _ => Err(Error::IllegalInst),
            },
            InstType::Pop => {
                self.stack.pop()?;
                Ok(Request::Continue)
            },
            InstType::Dup => {
                self.stack.dup()?;
                Ok(Request::Continue)
            },
            InstType::Not => {
                let n = self.stack.height();
                if n < 1 {
                    return Err(Error::StackUnderflow);
                }
                match self.stack.get(n - 1) {
                    Some(Word::Int(a)) => {
                        let _ = self.stack.pop();
                        let _ = self.stack.push(Word::Int(!a));
                        Ok(Request::Continue)
                    },
                    _ => Err(Error::IllegalInst),
                }
            },
            _ => {
                let ok = match (inst.inst_type, a0) {
                    (InstType::Pushi, Word::Int(_)) => true,
                    (InstType::Pushf, Word::Float(_)) => true,
                    (InstType::Pushd, Word::Double(_)) => true,
                    (InstType::Pushc, Word::Char(_)) => true,
                    _ => false,
                };
                if ok {
                    let _ = self.stack.push(a0);
                    Ok(Request::Continue)
                } else {
                    Err(Error::IllegalInst)
                }
            },
        }
    }
}

impl Machine {
    /// `a` as an instruction index, if it is one.
    fn jump_target(&self, a: i64) -> (r: Option<usize>)
        ensures
            match r {
                Some(t) => jump_ok(a, self@.program.len()) && t == a,
                None => !jump_ok(a, self@.program.len()),
            },
    {
        if a >= 0 && (a as u64) < (self.program.len() as u64) {
            Some(a as usize)
        } else {
            None
        }
    }

    fn exec_control(&mut self, inst: &Inst) -> (r: Result<Request, Error>)
        requires
            old(self).wf(),
        ensures
            final(self).wf(),
            agrees(old(self)@, final(self)@, r, control_spec(old(self)@, *inst)),
    {
        let a0 = inst.operand[0];
        match inst.inst_type {
            InstType::Jmp => match a0 {
                Word::Int(a) => {
                    let target = match self.jump_target(a) {
                        Some(t) => t,
                        None => return Err(Error::IllegalJmp),
                    };
                    self.ip = target;
                    Ok(Request::Continue)
                },
                _ => Err(Error::IllegalInst),
            },
            InstType::Jeq | InstType::Jne => match a0 {
                Word::Int(a) => {
                    let target = match self.jump_target(a) {
                        Some(t) => t,
                        None => return Err(Error::IllegalJmp),
                    };
                    let value = self.stack.pop()?;
                    let want: i64 = if inst.inst_type == InstType::Jeq { 1 } else { 0 };
                    let taken = match value {
                        Word::Int(v) => v == want,
                        _ => false,
                    };
                    if taken {
                        self.ip = target;
                    }
                    Ok(Request::Continue)
                },
                _ => Err(Error::IllegalJmp),
            },
            InstType::Call => match a0 {
                Word::Int(a) => {
                    let target = match self.jump_target(a) {
                        Some(t) => t,
                        None => return Err(Error::IllegalJmp),
                    };
                    let base = self.stack.frame_base();
                    let n = self.stack.height();
                    if base as u64 > 0x7fff_ffff_ffff_ffffu64 || n as u64 >= 0x7fff_ffff_ffff_ffffu64
                        || self.ip as u64 > 0x7fff_ffff_ffff_ffffu64 {
                        return Err(Error::StackOverflow);
                    }
                    let _ = self.stack.push(Word::Int(base as i64));
                    self.stack.enter_frame();
                    let _ = self.stack.push(Word::Int(self.ip as i64));
                    self.ip = target;
                    Ok(Request::Continue)
                },
                _ => Err(Error::IllegalInst),
            },
            InstType::Return => {
                let n = self.stack.height();
                if n < 2 {
                    return Err(Error::StackUnderflow);
                }
                match (self.stack.get(n - 1), self.stack.get(n - 2)) {
                    (Some(Word::Int(a)), Some(Word::Int(b))) => {
                        if a < 0 || a as u64 > self.program.len() as u64 {
                            return Err(Error::IllegalJmp);
                        }
                        if b < 0 || b as u64 > usize::MAX as u64 {
                            return Err(Error::IllegalInst);
                        }
                        let _ = self.stack.pop();
                        let _ = self.stack.pop();
                        self.stack.set_frame_base(b as usize);
                        self.ip = a as usize;
                        Ok(Request::Continue)
                    },
                    _ => Err(Error::IllegalInst),
                }
            },
            InstType::Halt => {
                self.halt = true;
                Ok(Request::Continue)
            },
            InstType::Exit => {
                self.exit(a0);
                Ok(Request::Continue)
            },
            _ => Err(Error::IllegalInst),
        }
    }

    /// Pushes the exit code and marks the machine as exited.
    pub fn exit(&mut self, exit_code: Word)
        requires
            old(self).wf(),
        ensures
            final(self).wf(),
            final(self)@ == (MachineState {
                stack: old(self)@.stack.push(exit_code),
                exited: true,
                ..old(self)@
            }),
    {
        let _ = self.stack.push(exit_code);
        self.exit = true;
    }
}

impl Machine {
    fn exec_heap(&mut self, inst: &Inst) -> (r: Result<Request, Error>)
        requires
            old(self).wf(),
        ensures
            final(self).wf(),
            agrees(old(self)@, final(self)@, r, heap_spec(old(self)@, *inst)),
    {
        let a0 = inst.operand[0];
        let a1 = inst.operand[1];
        match inst.inst_type {
            InstType::Alloc => match a0 {
                Word::Int(size) => {
                    if size < 0 {
                        return Err(Error::IllegalOperandType);
                    }
                    if size as u64 > usize::MAX as u64 {
                        let heap_len = self.heap.len();
                        assert(self.heap@.len() == heap_len);
                        assert(forall|t: int| !(#[trigger] crate::memory::window_free(self.heap@, t, size + 1)));
                        return Err(Error::OutOfMemory);
                    }
                    let ptr = self.malloc(size as usize)?;
                    let _ = self.stack.push(Word::Ptr(ptr));
                    Ok(Request::Continue)
                },
                _ => Err(Error::IllegalInst),
            },
            InstType::Free => match a0 {
                Word::Ptr(p) => {
                    self.free(p)?;
                    Ok(Request::Continue)
                },
                _ => Err(Error::IllegalInst),
            },
            InstType::SetElem => match a0 {
                Word::Ptr(p) => {
                    let value = self.stack.pop()?;
                    match self.setelem(p, value) {
                        Ok(()) => Ok(Request::Continue),
                        Err(e) => {
                            let _ = self.stack.push(value);
                            assert(self@.stack =~= old(self)@.stack);
                            Err(e)
                        },
                    }
                },
                _ => Err(Error::IllegalInst),
            },
            InstType::Mov => {
                let i = register_index(a0)?;
                self.registers.set(i, a1);
                Ok(Request::Continue)
            },
            InstType::Loadr => {
                let i = register_index(a0)?;
                match a1 {
                    Word::Ptr(Pointer::Heap(h)) => {
                        if h >= self.heap.len() {
                            return Err(Error::SegmentationFault);
                        }
                        let v = self.heap[h];
                        self.registers.set(i, v);
                        Ok(Request::Continue)
                    },
                    Word::Ptr(_) => Err(Error::InvalidPointer),
                    _ => Err(Error::IllegalInst),
                }
            },
            InstType::Storer => {
                let i = register_index(a0)?;
                let v = self.registers[i];
                let ptr = self.malloc(1)?;
                let ghost start = fit_start(old(self)@.heap, 2);
                let ghost h1 = placed(old(self)@.heap, start, 1);
                let heap_len = self.heap.len();
                assert(self.heap@.len() == heap_len);
                assert(h1[start + 1] == Word::Int(0));
                assert(set_cell(h1, start + 1, v) == Ok::<Seq<Word>, Error>(h1.update(start + 1, v)));
                let _ = self.setelem(ptr, v);
                self.registers.set(i, Word::Ptr(ptr));
                Ok(Request::Continue)
            },
            _ => Err(Error::IllegalInst),
        }
    }

    fn exec_io(&mut self, inst: &Inst) -> (r: Result<Request, Error>)
        requires
            old(self).wf(),
        ensures
            final(self).wf(),
            agrees(old(self)@, final(self)@, r, io_spec(old(self)@, *inst)),
    {
        let a0 = inst.operand[0];
        let a1 = inst.operand[1];
        match inst.inst_type {
            InstType::Open => match (a0, a1) {
                (Word::Ptr(p), Word::Int(mode)) => Ok(Request::Open(p, mode)),
                (Word::Ptr(_), _) => Err(Error::IllegalOperandType),
                _ => Err(Error::IllegalInst),
            },
            InstType::Close => match a0 {
                Word::Ptr(ptr) => {
                    self.close(ptr)?;
                    Ok(Request::Close(ptr.as_usize()))
                },
                _ => Err(Error::IllegalInst),
            },
            InstType::Read => Ok(Request::ReadLine),
            InstType::Write => match a0 {
                Word::Ptr(p) => Ok(Request::Write(p)),
                _ => Err(Error::IllegalInst),
            },
            InstType::Readf | InstType::Writef => Ok(Request::Continue),
            _ => Err(Error::IllegalInst),
        }
    }

    /// Closes the file `ptr` names; an id that is not open is left as it is.
    pub fn close(&mut self, ptr: Pointer) -> (r: Result<(), Error>)
        requires
            old(self).wf(),
        ensures
            final(self).wf(),
            match ptr {
                Pointer::Files(id) => r is Ok && final(self)@ == (MachineState {
                    files: if id < old(self)@.files.len() {
                        old(self)@.files.update(id as int, false)
                    } else {
                        old(self)@.files
                    },
                    ..old(self)@
                }),
                _ => r == Err::<(), Error>(Error::FileNotFound) && final(self)@ == old(self)@,
            },
    {
        match ptr {
            Pointer::Files(id) => {
                if id < self.files.len() {
                    self.files.set(id, false);
                }
                Ok(())
            },
            _ => Err(Error::FileNotFound),
        }
    }
}

impl Machine {
    /// Executes one instruction against the machine, whose instruction pointer
    /// already points past it.
    pub fn exec_inst(&mut self, inst: &Inst) -> (r: Result<Request, Error>)
        requires
            old(self).wf(),
        ensures
            final(self).wf(),
            agrees(old(self)@, final(self)@, r, inst_spec(old(self)@, *inst)),
    {
        match inst.inst_type {
            InstType::Pushi | InstType::Pushf | InstType::Pushd | InstType::Pushc
            | InstType::Pushr | InstType::Pushs | InstType::Pop | InstType::Dup
            | InstType::Not => self.exec_stack(inst),
            InstType::Plus | InstType::Sub | InstType::Mul | InstType::Div | InstType::And
            | InstType::Or | InstType::Xor | InstType::Cmp => self.binary_op(inst.inst_type),
            InstType::Jmp | InstType::Jeq | InstType::Jne | InstType::Halt | InstType::Call
            | InstType::Return | InstType::Exit => self.exec_control(inst),
            InstType::Alloc | InstType::Free | InstType::SetElem | InstType::Mov
            | InstType::Loadr | InstType::Storer => self.exec_heap(inst),
            _ => self.exec_io(inst),
        }
    }

    /// Fetches the current instruction, moves the pointer past it, and
    /// executes it.
    pub fn step(&mut self) -> (r: Result<Request, Error>)
        requires
            old(self).wf(),
            old(self)@.ip < old(self)@.program.len(),
        ensures
            final(self).wf(),
            agrees(advance(old(self)@), final(self)@, r, step_spec(old(self)@)),
    {
        let n = self.program.len();
        let inst = self.program[self.ip];
        assert(self.ip < n);
        self.ip = self.ip + 1;
        self.exec_inst(&inst)
    }

    /// Runs the program for at most `fuel` instructions: until it halts, exits,
    /// runs off its end, fails, or an instruction needs outside work.
    pub fn exec(&mut self, fuel: usize) -> (r: Result<Status, Error>)
        requires
            old(self).wf(),
        ensures
            final(self).wf(),
            (final(self)@, r) == run_spec(old(self)@, fuel as nat),
    {
        let mut left: usize = fuel;
        while left > 0 && !self.halt && !self.exit && self.ip < self.program.len()
            invariant
                self.wf(),
                run_spec(self@, left as nat) == run_spec(old(self)@, fuel as nat),
            decreases left,
        {
            let q = self.step()?;
            left = left - 1;
            match q {
                Request::Continue => {},
                _ => return Ok(Status::Waiting(q)),
            }
        }
        if self.halt {
            Ok(Status::Halted)
        } else if self.exit {
            Ok(Status::Exited)
        } else if self.ip >= self.program.len() {
            Ok(Status::Exhausted)
        } else {
            Ok(Status::Running)
        }
    }
}

} // verus!
