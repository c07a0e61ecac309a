use vstd::prelude::*;

verus! {

/// Every way an instruction can fail. The dispatch loop stops at the first one
/// and hands it to its caller.
#[derive(Debug, Clone, Copy, PartialEq, Eq, Structural)]
pub enum Error {
    StackOverflow,
    StackUnderflow,
    SegmentationFault,
    OutOfMemory,
    IllegalInst,
    DivByZero,
    IllegalJmp,
    IllegalOperandType,
    TypeMismatch,
    InvalidPointer,
    FileNotFound,
    IO,
}

} // verus!
