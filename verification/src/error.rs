//! What can stop the machine.

use crate::instructions::DecodeError;
use crate::memory::MemoryError;
use vstd::prelude::*;

verus! {

#[derive(Copy, Clone, PartialEq, Eq, Structural, Debug)]
pub enum EngineError {
    /// The word at the program counter encodes no instruction.
    Decode(DecodeError),
    /// An access left the store.
    Memory(MemoryError),
    /// A call with sixteen return addresses already on the stack.
    StackOverflow,
    /// A return with no return address on the stack.
    StackUnderflow,
}

} // verus!
