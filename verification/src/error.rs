use vstd::prelude::*;

verus! {

/// The ways in which loading a program or running a cycle can fail.
#[derive(Clone, Copy, Debug, PartialEq, Eq, Structural)]
pub enum Chip8Error {
    /// The program image does not fit between the load address and the end of memory.
    RomTooLarge,
    /// A subroutine call was made while the call stack was full.
    StackOverflow,
    /// A return was made while the call stack was empty.
    StackUnderflow,
    /// An instruction would have read or written an address outside memory.
    MemoryOutOfRange,
}

} // verus!
