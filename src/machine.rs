use vstd::prelude::*;
use crate::exec::Inst;
use crate::stack::Stack;
use crate::word::{Pointer, Word};

verus! {

/// Number of general-purpose registers.
pub const REGISTER_COUNT: usize = 8;

/// The abstract state of a machine: what each storage region holds.
pub struct MachineState {
    pub registers: Seq<Word>,
    pub data: Seq<Seq<Word>>,
    pub stack: Seq<Word>,
    pub base: nat,
    pub heap: Seq<Word>,
    /// One flag per file id ever handed out: is it still open?
    pub files: Seq<bool>,
    pub ip: nat,
    pub program: Seq<Inst>,
    pub exited: bool,
    pub halted: bool,
}

/// The virtual machine: it owns its stack, heap, registers, literal data,
/// file table, program and instruction pointer.
pub struct Machine {
    pub(crate) registers: Vec<Word>,
    pub(crate) data: Vec<Vec<Word>>,
    pub(crate) stack: Stack,
    pub(crate) heap: Vec<Word>,
    pub(crate) files: Vec<bool>,
    pub(crate) ip: usize,
    pub(crate) program: Vec<Inst>,
    pub(crate) exit: bool,
    pub(crate) halt: bool,
}

impl View for Machine {
    type V = MachineState;

    open(crate) spec fn view(&self) -> MachineState {
        MachineState {
            registers: self.registers@,
            data: self.data@.map_values(|v: Vec<Word>| v@),
            stack: self.stack@,
            base: self.stack.base(),
            heap: self.heap@,
            files: self.files@,
            ip: self.ip as nat,
            program: self.program@,
            exited: self.exit,
            halted: self.halt,
        }
    }
}

impl Machine {
    pub open(crate) spec fn wf(&self) -> bool {
        &&& self.stack.wf()
        &&& self.registers.len() == REGISTER_COUNT
    }

    /// A machine at the start of `program`: empty stack and heap, every register
    /// `Free`, no literal data, no open file.
    pub fn new(program: Vec<Inst>) -> (r: Self)
        ensures
            r.wf(),
            r@ == (MachineState {
                registers: Seq::new(REGISTER_COUNT as nat, |i: int| Word::Free),
                data: Seq::empty(),
                stack: Seq::empty(),
                base: 0,
                heap: Seq::empty(),
                files: Seq::empty(),
                ip: 0,
                program: program@,
                exited: false,
                halted: false,
            }),
    {
        let mut registers: Vec<Word> = Vec::new();
        let mut i: usize = 0;
        while i < REGISTER_COUNT
            invariant
                i <= REGISTER_COUNT,
                registers@ == Seq::new(i as nat, |j: int| Word::Free),
            decreases REGISTER_COUNT - i,
        {
            registers.push(Word::Free);
            i = i + 1;
        }
        let m = Machine {
            registers,
            data: Vec::new(),
            stack: Stack::new(),
            heap: Vec::new(),
            files: Vec::new(),
            ip: 0,
            program,
            exit: false,
            halt: false,
        };
        assert(m@.data =~= Seq::<Seq<Word>>::empty());
        m
    }

    /// Appends a literal segment to the data table and returns its address.
    pub fn add_data(&mut self, segment: Vec<Word>) -> (r: Pointer)
        requires
            old(self).wf(),
        ensures
            final(self).wf(),
            r == Pointer::Data(old(self)@.data.len() as usize),
            final(self)@ == (MachineState { data: old(self)@.data.push(segment@), ..old(self)@ }),
    {
        let idx = self.data.len();
        self.data.push(segment);
        assert(self@.data =~= old(self)@.data.push(segment@));
        Pointer::Data(idx)
    }

    pub fn ip(&self) -> (r: usize)
        ensures
            r == self@.ip,
    {
        self.ip
    }

    pub fn is_halted(&self) -> (r: bool)
        ensures
            r == self@.halted,
    {
        self.halt
    }

    pub fn is_exited(&self) -> (r: bool)
        ensures
            r == self@.exited,
    {
        self.exit
    }

    pub fn stack(&self) -> (r: &Stack)
        ensures
            r@ == self@.stack,
            r.base() == self@.base,
            self.wf() ==> r.wf(),
    {
        &self.stack
    }

    pub fn heap(&self) -> (r: &Vec<Word>)
        ensures
            r@ == self@.heap,
    {
        &self.heap
    }

    /// The value held by register `i`, if there is such a register.
    pub fn register(&self, i: usize) -> (r: Option<Word>)
        ensures
            i < self@.registers.len() ==> r == Some(self@.registers[i as int]),
            i >= self@.registers.len() ==> r.is_none(),
    {
        if i < self.registers.len() {
            Some(self.registers[i])
        } else {
            None
        }
    }
}

} // verus!
