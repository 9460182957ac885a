//! Error taxonomy of the interpreter core.

use vstd::prelude::*;

verus! {

/// Everything that can go wrong inside the interpreter core.
///
/// `InvalidProgramSize` is recoverable and reported at load time; the others
/// are fatal to the execution that raised them. I/O failures belong to the
/// host, which reads ROM files and hands this crate plain bytes.
#[derive(Debug, Clone, Copy, PartialEq, Eq, Structural)]
pub enum Chip8Error {
    /// A ROM longer than the program region can hold; carries the offered length.
    InvalidProgramSize(usize),
    /// An instruction word that no opcode family decodes; carries the word.
    InvalidOpcode(u16),
    /// A memory access past the end of the address space; carries the address.
    InvalidMemoryAddress(u16),
    /// A register index outside the 16-register file; carries the index.
    InvalidRegister(u8),
    /// A subroutine call with all 16 stack slots already in use.
    StackOverflow,
    /// A subroutine return with no call outstanding.
    StackUnderflow,
}

} // verus!
