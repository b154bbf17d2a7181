//! The error taxonomy of the machine: every way a fetch, decode, or execute
//! step can fail is a typed value, so the host can choose its halt policy
//! instead of the process aborting.

use vstd::prelude::*;

verus! {

/// A fault raised by the decoder or the execution engine.
///
/// Decode and execute errors are fatal to the run: the machine state is left
/// exactly as it was before the faulting step, so the host can report the
/// program counter and opcode for diagnosis.
#[derive(Clone, Copy, Debug, PartialEq, Eq, Structural)]
pub enum Chip8Error {
    /// The 16-bit opcode matches no known instruction pattern.
    InvalidOpcode(u16),
    /// A call instruction arrived with all 16 stack slots in use.
    StackOverflow,
    /// A return instruction arrived with no frame on the stack.
    StackUnderflow,
    /// A memory access (instruction fetch, sprite fetch, BCD write, or
    /// register block store/load) would fall outside the 4096-byte memory.
    MemoryFault,
    /// A ROM image longer than the 3584 bytes that fit above the reset
    /// address.
    RomTooLarge,
}

} // verus!
