//! The fatal conditions that end a run.

use vstd::prelude::*;

verus! {

/// What went wrong.
#[derive(Clone, Copy, Debug, PartialEq, Eq, Structural)]
pub enum FaultKind {
    /// The instruction word is not part of the instruction set.
    UnknownOpcode,
    /// A memory address beyond the last byte of memory was read or written.
    AddressOutOfRange,
    /// A subroutine call found the call stack full.
    StackOverflow,
    /// A return found the call stack empty.
    StackUnderflow,
    /// A register index beyond the last register was used.
    RegisterOutOfRange,
    /// A display cell outside the grid was addressed.
    CellOutOfRange,
    /// The program image does not fit between the load address and the end
    /// of memory.
    ProgramTooLarge,
}

/// A fatal condition together with the instruction that met it.
///
/// `pc` is the address the instruction was fetched from. `opcode` is the
/// instruction word, or zero when the fetch itself failed.
#[derive(Clone, Copy, Debug, PartialEq, Eq, Structural)]
pub struct Fault {
    pub kind: FaultKind,
    pub opcode: u16,
    pub pc: u16,
}

} // verus!
