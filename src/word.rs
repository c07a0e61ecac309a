use vstd::prelude::*;

verus! {

/// A tagged address: the tag names the address space, the number is an index
/// (or an id) inside that space.
#[derive(Debug, Clone, Copy, PartialEq, Eq, Structural)]
pub enum Pointer {
    Register(usize),
    Stack(usize),
    Heap(usize),
    Files(usize),
    Data(usize),
}

impl Pointer {
    /// The index carried by the pointer, whatever its space.
    pub open spec fn index(&self) -> usize {
        match *self {
            Pointer::Register(v) => v,
            Pointer::Stack(v) => v,
            Pointer::Heap(v) => v,
            Pointer::Files(v) => v,
            Pointer::Data(v) => v,
        }
    }

    pub fn as_usize(&self) -> (r: usize)
        ensures
            r == self.index(),
    {
        let value = match self {
            Pointer::Register(v) => v,
            Pointer::Stack(v) => v,
            Pointer::Heap(v) => v,
            Pointer::Files(v) => v,
            Pointer::Data(v) => v,
        };
        *value
    }
}

/// A runtime value. `Float` and `Double` hold the IEEE-754 bit patterns of a
/// 32-bit and a 64-bit float; `Free` marks an unoccupied cell and `Nil` an
/// operand that was not supplied.
#[derive(Debug, Clone, Copy, PartialEq, Eq, Structural)]
pub enum Word {
    Int(i64),
    Float(u32),
    Double(u64),
    Ptr(Pointer),
    Char(char),
    Free,
    Nil,
}

} // verus!
