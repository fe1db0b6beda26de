//! A memory that keeps its bytes in a `Vec`.

use vstd::prelude::*;
use crate::index::ByteIndex;
use crate::memory::Memory;

verus! {

/// A memory of a fixed number of bytes, held in a `Vec`.
pub struct VecMemory {
    ram: Vec<u8>,
}

impl VecMemory {
    /// Makes a memory of `size` zero bytes.
    pub fn new(size: usize) -> (mem: Self)
        ensures
            mem@ == Seq::new(size as nat, |i: int| 0u8),
    {
        let mut ram: Vec<u8> = Vec::new();
        let mut i: usize = 0;
        while i < size
            invariant
                i <= size,
                ram@ == Seq::new(i as nat, |j: int| 0u8),
            decreases size - i,
        {
            ram.push(0u8);
            i = i + 1;
        }
        VecMemory { ram }
    }

    /// Makes a memory that holds `bytes`.
    pub fn from_bytes(bytes: Vec<u8>) -> (mem: Self)
        ensures
            mem@ == bytes@,
    {
        VecMemory { ram: bytes }
    }

    /// Returns the number of bytes in the memory.
    pub fn len(&self) -> (len: usize)
        ensures
            len == self@.len(),
    {
        self.ram.len()
    }

    /// Returns all bytes of the memory.
    pub fn as_bytes(&self) -> (bytes: &[u8])
        ensures
            bytes@ == self@,
    {
        self.ram.as_slice()
    }
}

impl Memory for VecMemory {
    /// An access is refused for one reason only: it is out of bounds.
    type Error = ();

    closed spec fn view(&self) -> Seq<u8> {
        self.ram@
    }

    fn get<I>(&self, index: I) -> (res: Result<&I::Output, ()>) where I: ByteIndex {
        match index.select(self.ram.as_slice()) {
            Some(out) => Ok(out),
            None => Err(()),
        }
    }

    fn get_mut<I>(&mut self, index: I) -> (res: Result<&mut I::Output, ()>) where I: ByteIndex {
        match index.select_mut(self.ram.as_mut_slice()) {
            Some(out) => Ok(out),
            None => Err(()),
        }
    }

    fn try_read_byte(&self, addr: usize) -> (res: Result<u8, ()>) {
        if addr < self.ram.len() {
            Ok(self.ram[addr])
        } else {
            Err(())
        }
    }

    fn try_write_byte(&mut self, addr: usize, byte: u8) -> (res: Result<(), ()>) {
        if addr < self.ram.len() {
            self.ram[addr] = byte;
            Ok(())
        } else {
            Err(())
        }
    }
}

} // verus!
