//! The conditions that halt the machine.

use vstd::prelude::*;

verus! {

/// Why the machine halted.
#[derive(Debug, Clone, Copy, PartialEq, Eq)]
pub enum FaultKind {
    /// The program counter does not address a whole instruction inside
    /// program memory.
    ProgramCounterOutOfBounds,
    /// The instruction word encodes no defined instruction.
    UndefinedInstruction,
    /// A call with every stack level in use.
    StackOverflow,
    /// A return with no call outstanding.
    StackUnderflow,
    /// The instruction reaches memory past its end through the index
    /// register.
    IndexOutOfBounds,
    /// The instruction asks for a key that the keypad does not have.
    KeyOutOfRange,
}

/// A halt: its cause, the program counter at which it happened and, where
/// an instruction word was at hand, that word. The machine is left as it
/// was before the faulting step.
#[derive(Debug, Clone, Copy, PartialEq, Eq)]
pub struct Fault {
    pub kind: FaultKind,
    pub pc: usize,
    pub opcode: Option<u16>,
}

/// A program image that does not fit between the program start and the end
/// of memory.
#[derive(Debug, Clone, Copy, PartialEq, Eq)]
pub struct RomTooLarge {
    /// Length of the rejected image in bytes.
    pub len: usize,
}

} // verus!
