use vstd::prelude::*;

pub mod decode;
pub mod display;
pub mod laws;
pub mod machine;
pub mod memory;
pub mod rng;

verus! {

/// Capacity of the machine's address space, in bytes.
pub const MEM_SIZE: usize = 4096;

/// Address at which loaded program bytes begin and from which the
/// program counter starts.
pub const PROGRAM_START: usize = 512;

/// The three fatal conditions of the instruction cycle. None is
/// recoverable: the host stops driving the machine when one surfaces.
#[derive(Clone, Copy, PartialEq, Eq, Structural, Debug)]
pub enum Chip8Error {
    /// A memory access named an address at or beyond `MEM_SIZE`.
    OutOfBounds,
    /// The two bytes at the given address decode to no instruction.
    IllegalInstruction(usize),
    /// A return was executed with an empty call stack.
    MissingReturnAddress,
}

} // verus!
