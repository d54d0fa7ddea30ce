use vstd::prelude::*;

use crate::Chip8Error;
use crate::MEM_SIZE;

verus! {

/// The machine's addressable memory: a fixed array of `MEM_SIZE` bytes.
/// Every access is bounds-checked; the hardware model has no fault
/// handler, so an out-of-range access surfaces as `OutOfBounds`.
pub struct Memory {
    bytes: Vec<u8>,
}

impl Memory {
    /// The bytes the memory holds, as a sequence.
    pub closed spec fn view(&self) -> Seq<u8> {
        self.bytes@
    }

    /// A well-formed memory holds exactly `MEM_SIZE` bytes.
    pub open spec fn wf(&self) -> bool {
        self@.len() == MEM_SIZE
    }

    /// A fresh memory: `MEM_SIZE` bytes, all zero.
    pub fn new() -> (m: Memory)
        ensures
            m.wf(),
            forall|k: int| 0 <= k < MEM_SIZE ==> m@[k] == 0u8,
    {
        let mut bytes: Vec<u8> = Vec::new();
        while bytes.len() < MEM_SIZE
            invariant
                bytes@.len() <= MEM_SIZE,
                forall|k: int| 0 <= k < bytes@.len() ==> bytes@[k] == 0u8,
            decreases MEM_SIZE - bytes@.len(),
        {
            bytes.push(0u8);
        }
        Memory { bytes }
    }

    /// How many bytes the memory holds.
    pub fn len(&self) -> (n: usize)
        ensures
            n == self@.len(),
    {
        self.bytes.len()
    }

    /// Read the byte at `addr`; `OutOfBounds` if `addr` is not below capacity.
    pub fn read(&self, addr: usize) -> (r: Result<u8, Chip8Error>)
        requires
            self.wf(),
        ensures
            addr < MEM_SIZE ==> r == Ok::<u8, Chip8Error>(self@[addr as int]),
            addr >= MEM_SIZE ==> r == Err::<u8, Chip8Error>(Chip8Error::OutOfBounds),
    {
        if addr < MEM_SIZE {
            Ok(self.bytes[addr])
        } else {
            Err(Chip8Error::OutOfBounds)
        }
    }

    /// Write `value` at `addr`; `OutOfBounds` (and no change) if `addr` is
    /// not below capacity.
    pub fn write(&mut self, addr: usize, value: u8) -> (r: Result<(), Chip8Error>)
        requires
            old(self).wf(),
        ensures
            final(self).wf(),
            addr < MEM_SIZE ==> r == Ok::<(), Chip8Error>(())
                && final(self)@ == old(self)@.update(addr as int, value),
            addr >= MEM_SIZE ==> r == Err::<(), Chip8Error>(Chip8Error::OutOfBounds)
                && final(self)@ == old(self)@,
    {
        if addr < MEM_SIZE {
            self.bytes.set(addr, value);
            Ok(())
        } else {
            Err(Chip8Error::OutOfBounds)
        }
    }

    /// Copy `data` verbatim to `offset..offset + data.len()`. Fails with
    /// `OutOfBounds`, writing nothing, if the range does not fit below
    /// capacity; there is no partial write on failure.
    pub fn bulk_write(&mut self, offset: usize, data: &Vec<u8>) -> (r: Result<(), Chip8Error>)
        requires
            old(self).wf(),
        ensures
            final(self).wf(),
            offset + data@.len() <= MEM_SIZE ==> r == Ok::<(), Chip8Error>(())
                && (forall|k: int| 0 <= k < data@.len()
                    ==> final(self)@[offset + k] == data@[k])
                && (forall|k: int| 0 <= k < MEM_SIZE
                    && !(offset <= k < offset + data@.len())
                    ==> final(self)@[k] == old(self)@[k]),
            offset + data@.len() > MEM_SIZE ==> r == Err::<(), Chip8Error>(Chip8Error::OutOfBounds)
                && final(self)@ == old(self)@,
    {
        if offset > MEM_SIZE || data.len() > MEM_SIZE - offset {
            return Err(Chip8Error::OutOfBounds);
        }
        let mut k: usize = 0;
        while k < data.len()
            invariant
                offset + data@.len() <= MEM_SIZE,
                k <= data@.len(),
                self@.len() == MEM_SIZE,
                forall|q: int| 0 <= q < k ==> self@[offset + q] == data@[q],
                forall|q: int| 0 <= q < MEM_SIZE && !(offset <= q < offset + k)
                    ==> self@[q] == old(self)@[q],
            decreases data@.len() - k,
        {
            self.bytes.set(offset + k, data[k]);
            k = k + 1;
        }
        Ok(())
    }
}

} // verus!
