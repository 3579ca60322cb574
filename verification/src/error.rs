//! Error conditions surfaced to the driver. Every failure of the engine is a
//! recoverable result value; the machine state is never silently corrupted.

use vstd::prelude::*;

verus! {

/// A condition that stops an instruction or a load before it takes effect.
#[derive(Debug, Clone, Copy, PartialEq, Eq, Structural)]
pub enum EmuError {
    /// A return was executed with an empty call stack.
    StackUnderflow,
    /// A call was executed with the call stack already at capacity.
    StackOverflow,
    /// No opcode family matches the instruction word; carries the raw word
    /// and the address it was fetched from.
    UnimplementedOpcode(u16, u16),
    /// The index register or the program counter would address a byte
    /// beyond the end of memory; carries the offending base address.
    OutOfRangeAddress(u16),
    /// A program image too large to fit between the start address and the
    /// end of memory.
    OversizedProgram,
}

} // verus!
