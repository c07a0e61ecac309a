//! A stack/register virtual machine: tagged values and addresses, an operand
//! stack with call frames, a first-fit heap of length-prefixed segments, eight
//! registers, and an instruction dispatch loop whose every step is specified in
//! `semantics`. Floating-point arithmetic and console or file work are handed
//! to the caller as requests.

pub mod error;
pub mod word;
pub mod stack;
pub mod machine;
pub mod memory;
pub mod exec;
pub mod semantics;
pub mod utils;
pub mod lemmas;
