use vstd::prelude::*;

verus! {

/// What can go wrong while loading a program or running the machine.
#[derive(Clone, Copy, Debug, PartialEq, Eq, Structural)]
pub enum Chip8Error {
    /// The program does not fit between the load address and the end of memory.
    LoadError,
    /// An address at or beyond the end of memory was reached.
    MemoryFault { addr: usize },
    /// A call was made with all sixteen return slots in use.
    StackOverflow,
    /// A return was made with no return address on the stack.
    StackUnderflow,
    /// The fetched word matches no known encoding.
    InvalidOpcode { word: u16 },
}

} // verus!
