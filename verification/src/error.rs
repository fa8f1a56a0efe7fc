//! The failures that the interpreter reports to its host.

use vstd::prelude::*;

verus! {

/// Why an operation on the machine was refused.
///
/// Every failure leaves the machine exactly as it was before the call, so a
/// host can inspect the state that led to it. A faulting program faults again
/// on the next cycle: nothing is skipped or repaired.
#[derive(Clone, Copy, Debug, PartialEq, Eq, Structural)]
pub enum Chip8Error {
    /// The program image has `length` bytes, more than fit between the load
    /// address and the end of memory.
    LoadError { length: usize },
    /// The two bytes of the next instruction do not both lie inside memory.
    FetchOutOfBounds { program_counter: u16 },
    /// A call was made with sixteen return addresses already on the stack.
    StackOverflow { program_counter: u16 },
    /// A return was made with no return address on the stack.
    StackUnderflow { program_counter: u16 },
    /// The instruction word at `program_counter` is not part of the
    /// instruction set.
    UnknownOpcode { opcode: u16, program_counter: u16 },
    /// The instruction at `program_counter` reads or writes memory through
    /// the index register, starting at `address`, and would run past the end
    /// of memory.
    MemoryOutOfBounds { address: u16, program_counter: u16 },
    /// The host named a key that the keypad does not have.
    InvalidKeyIndex { key_index: usize },
}

} // verus!
