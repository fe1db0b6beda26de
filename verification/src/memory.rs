//! The `Memory` trait: a chunk of bytes that values can be read from and
//! written to, in little-endian or big-endian byte order.
//!
//! A memory is modelled by the sequence of its bytes. An implementation
//! provides access to single bytes and to ranges of bytes; reading and
//! writing of values is derived from those and specified over the model
//! alone.

use vstd::prelude::*;
use vstd::pervasive::runtime_assert;
use crate::encoding::{
    byte_swapped, decode_le, encode_le, le_value, lemma_byte_swapped, lemma_le_bytes_len,
    lemma_le_bytes_of_le_value, lemma_le_value_bound,
};
use crate::index::ByteIndex;
use crate::value::{decoded_be, decoded_le, encoded_be, encoded_le, swapped, Value};

verus! {

/// The `width` bytes that start at `addr` have addresses, and a memory of
/// `len` bytes holds them all.
pub open spec fn in_range(len: nat, addr: usize, width: nat) -> bool {
    addr + width <= len && addr + width <= usize::MAX
}

/// A value of type `V` at `addr` lies within `mem`.
pub open spec fn fits<V: Value>(mem: Seq<u8>, addr: usize) -> bool {
    in_range(mem.len(), addr, V::width())
}

/// `mem` with the bytes from `addr` on replaced by `bytes`.
pub open spec fn splice(mem: Seq<u8>, addr: int, bytes: Seq<u8>) -> Seq<u8> {
    mem.subrange(0, addr) + bytes + mem.subrange(addr + bytes.len(), mem.len() as int)
}

/// The value that the bytes of `mem` at `addr` hold, least significant byte first.
pub open spec fn load<V: Value>(mem: Seq<u8>, addr: int) -> V {
    decoded_le(mem.subrange(addr, addr + V::width()))
}

/// The value that the bytes of `mem` at `addr` hold, most significant byte first.
pub open spec fn load_be<V: Value>(mem: Seq<u8>, addr: int) -> V {
    decoded_be(mem.subrange(addr, addr + V::width()))
}

/// `mem` after `val` has been written at `addr`, least significant byte first.
pub open spec fn store<V: Value>(mem: Seq<u8>, addr: int, val: V) -> Seq<u8> {
    splice(mem, addr, encoded_le(val))
}

/// `mem` after `val` has been written at `addr`, most significant byte first.
pub open spec fn store_be<V: Value>(mem: Seq<u8>, addr: int, val: V) -> Seq<u8> {
    splice(mem, addr, encoded_be(val))
}

/// `after` differs from `before` at most in the `width` bytes from `addr` on.
pub open spec fn same_outside(before: Seq<u8>, after: Seq<u8>, addr: int, width: nat) -> bool {
    &&& after.len() == before.len()
    &&& forall|i: int|
        0 <= i < before.len() && !(addr <= i < addr + width) ==> after[i] == before[i]
}

/// Replacing bytes within a memory keeps its length and every byte outside
/// the replaced range, and puts the new bytes at the range.
pub proof fn lemma_splice(mem: Seq<u8>, addr: int, bytes: Seq<u8>)
    requires
        0 <= addr,
        addr + bytes.len() <= mem.len(),
    ensures
        same_outside(mem, splice(mem, addr, bytes), addr, bytes.len()),
        splice(mem, addr, bytes).subrange(addr, addr + bytes.len()) == bytes,
{
}

/// Decodes the value that a view of a memory holds, least significant byte
/// first. An error in place of the view is handed on as it is.
///
/// The view must be exactly as wide as the value. That is proved of every
/// verified caller and tested again when the program runs, since nothing
/// else holds an implementation of `Memory` from unverified code to its
/// contract.
pub fn decode_view<V: Value, E>(view: Result<&[u8], E>) -> (res: Result<V, E>)
    requires
        view matches Ok(bytes) ==> bytes@.len() == V::width(),
    ensures
        match view {
            Ok(bytes) => res == Ok::<V, E>(decoded_le(bytes@)),
            Err(e) => res == Err::<V, E>(e),
        },
{
    match view {
        Ok(bytes) => {
            proof {
                V::lemma_width();
                lemma_le_value_bound(bytes@);
            }
            runtime_assert(bytes.len() == core::mem::size_of::<V>());
            Ok(V::from_bits(decode_le(bytes)))
        },
        Err(e) => Err(e),
    }
}

/// Fills a mutable view of a memory with the bytes of `val`, least
/// significant byte first. An error in place of the view is handed on as it
/// is.
///
/// The view must be exactly as wide as the value, which is proved of every
/// verified caller and tested again when the program runs.
pub fn encode_view<V: Value, E>(view: Result<&mut [u8], E>, val: V) -> (res: Result<(), E>)
    requires
        view matches Ok(bytes) ==> bytes@.len() == V::width(),
    ensures
        match view {
            Ok(bytes) => res is Ok && final(bytes)@ == encoded_le(val),
            Err(e) => res == Err::<(), E>(e),
        },
{
    match view {
        Ok(bytes) => {
            proof {
                V::lemma_width();
            }
            runtime_assert(bytes.len() == core::mem::size_of::<V>());
            encode_le(val.to_bits(), bytes);
            Ok(())
        },
        Err(e) => Err(e),
    }
}

/// A chunk of memory that can be read from and written to.
///
/// The model of a memory is the sequence of its bytes, `self@`. Addresses
/// are indices into that sequence. An implementation provides the model and
/// the four operations without a body; the typed operations are derived.
pub trait Memory {
    /// Tells that an access failed. It is handed to the caller as the
    /// implementation made it.
    type Error: core::fmt::Debug;

    /// The bytes of the memory.
    spec fn view(&self) -> Seq<u8>;

    /// Returns a reference to what `index` selects: a byte for an address,
    /// a slice of bytes for a range of addresses.
    ///
    /// Fails exactly when `index` does not lie within the memory.
    fn get<I>(&self, index: I) -> (res: Result<&I::Output, Self::Error>) where I: ByteIndex
        ensures
            res is Ok <==> index.first() <= index.past() <= self@.len(),
            res matches Ok(out) ==> I::bytes_of(out) == self@.subrange(
                index.first(),
                index.past(),
            ),
    ;

    /// Returns a mutable reference to what `index` selects: a byte for an
    /// address, a slice of bytes for a range of addresses.
    ///
    /// Fails exactly when `index` does not lie within the memory, and then
    /// leaves the memory as it is. What is written through the reference
    /// replaces the bytes that `index` selects; every other byte stays.
    fn get_mut<I>(&mut self, index: I) -> (res: Result<&mut I::Output, Self::Error>) where
        I: ByteIndex,
        ensures
            res is Ok <==> index.first() <= index.past() <= old(self)@.len(),
            res matches Ok(out) ==> {
                &&& I::bytes_of(out) == old(self)@.subrange(index.first(), index.past())
                &&& final(self)@ == old(self)@.subrange(0, index.first()) + I::bytes_of(
                    final(out),
                ) + old(self)@.subrange(index.past(), old(self)@.len() as int)
            },
            res is Err ==> final(self)@ == old(self)@,
    ;

    /// Tries to read the byte at `addr`.
    ///
    /// Fails exactly when `addr` is not within the memory.
    fn try_read_byte(&self, addr: usize) -> (res: Result<u8, Self::Error>)
        ensures
            res is Ok <==> addr < self@.len(),
            res matches Ok(byte) ==> byte == self@[addr as int],
    ;

    /// Tries to write `byte` to `addr`.
    ///
    /// Fails exactly when `addr` is not within the memory, and then leaves
    /// the memory as it is.
    fn try_write_byte(&mut self, addr: usize, byte: u8) -> (res: Result<(), Self::Error>)
        ensures
            res is Ok <==> addr < old(self)@.len(),
            res is Ok ==> final(self)@ == old(self)@.update(addr as int, byte),
            res is Err ==> final(self)@ == old(self)@,
    ;

    /// Reads the byte at `addr`, which must be within the memory.
    fn read_byte(&self, addr: usize) -> (byte: u8)
        requires
            addr < self@.len(),
        ensures
            byte == self@[addr as int],
    {
        self.try_read_byte(addr).expect("failed to read from memory")
    }

    /// Writes `byte` to `addr`, which must be within the memory.
    fn write_byte(&mut self, addr: usize, byte: u8)
        requires
            addr < old(self)@.len(),
        ensures
            final(self)@ == old(self)@.update(addr as int, byte),
    {
        self.try_write_byte(addr, byte).expect("failed to write to memory")
    }

    /// Tries to read a value at `addr` in little endian format.
    ///
    /// Fails exactly when the bytes of the value do not all lie within the
    /// memory.
    fn try_read<V: Value>(&self, addr: usize) -> (res: Result<V, Self::Error>)
        ensures
            res is Ok <==> fits::<V>(self@, addr),
            res matches Ok(val) ==> val == load::<V>(self@, addr as int),
    {
        let size: usize = core::mem::size_of::<V>();
        proof {
            V::lemma_width();
        }
        decode_view(self.get(addr..addr.wrapping_add(size)))
    }

    /// Reads a value at `addr` in little endian format. The bytes of the
    /// value must all lie within the memory.
    fn read<V: Value>(&self, addr: usize) -> (val: V)
        requires
            fits::<V>(self@, addr),
        ensures
            val == load::<V>(self@, addr as int),
    {
        self.try_read::<V>(addr).expect("failed to read from memory")
    }

    /// Tries to read a value at `addr` in big endian format.
    ///
    /// Fails exactly when the bytes of the value do not all lie within the
    /// memory.
    fn try_read_be<V: Value>(&self, addr: usize) -> (res: Result<V, Self::Error>)
        ensures
            res is Ok <==> fits::<V>(self@, addr),
            res matches Ok(val) ==> val == load_be::<V>(self@, addr as int),
    {
        match self.try_read::<V>(addr) {
            Ok(val) => {
                proof {
                    lemma_load_swapped::<V>(self@, addr as int);
                }
                Ok(val.to_be())
            },
            Err(e) => Err(e),
        }
    }

    /// Reads a value at `addr` in big endian format. The bytes of the value
    /// must all lie within the memory.
    fn read_be<V: Value>(&self, addr: usize) -> (val: V)
        requires
            fits::<V>(self@, addr),
        ensures
            val == load_be::<V>(self@, addr as int),
    {
        proof {
            lemma_load_swapped::<V>(self@, addr as int);
        }
        self.read::<V>(addr).to_be()
    }

    /// Tries to write `val` to `addr` in little endian format.
    ///
    /// Fails exactly when the bytes of the value do not all lie within the
    /// memory, and then leaves the memory as it is. A write that succeeds
    /// changes the bytes of the value and no others.
    fn try_write<V: Value>(&mut self, addr: usize, val: V) -> (res: Result<(), Self::Error>)
        ensures
            res is Ok <==> fits::<V>(old(self)@, addr),
            res is Ok ==> final(self)@ == store(old(self)@, addr as int, val),
            res is Err ==> final(self)@ == old(self)@,
            same_outside(old(self)@, final(self)@, addr as int, V::width()),
    {
        let size: usize = core::mem::size_of::<V>();
        let val: V = val.to_le();
        proof {
            V::lemma_width();
            lemma_le_bytes_len(val.bits(), V::width());
            if fits::<V>(old(self)@, addr) {
                lemma_splice(old(self)@, addr as int, encoded_le(val));
            }
        }
        encode_view(self.get_mut(addr..addr.wrapping_add(size)), val)
    }

    /// Writes `val` to `addr` in little endian format. The bytes of the
    /// value must all lie within the memory.
    fn write<V: Value>(&mut self, addr: usize, val: V)
        requires
            fits::<V>(old(self)@, addr),
        ensures
            final(self)@ == store(old(self)@, addr as int, val),
            same_outside(old(self)@, final(self)@, addr as int, V::width()),
    {
        self.try_write::<V>(addr, val).expect("failed to write to memory")
    }

    /// Tries to write `val` to `addr` in big endian format.
    ///
    /// Fails exactly when the bytes of the value do not all lie within the
    /// memory, and then leaves the memory as it is. A write that succeeds
    /// changes the bytes of the value and no others.
    fn try_write_be<V: Value>(&mut self, addr: usize, val: V) -> (res: Result<(), Self::Error>)
        ensures
            res is Ok <==> fits::<V>(old(self)@, addr),
            res is Ok ==> final(self)@ == store_be(old(self)@, addr as int, val),
            res is Err ==> final(self)@ == old(self)@,
            same_outside(old(self)@, final(self)@, addr as int, V::width()),
    {
        proof {
            lemma_store_swapped::<V>(old(self)@, addr as int, val);
        }
        self.try_write(addr, val.to_be())
    }

    /// Writes `val` to `addr` in big endian format. The bytes of the value
    /// must all lie within the memory.
    fn write_be<V: Value>(&mut self, addr: usize, val: V)
        requires
            fits::<V>(old(self)@, addr),
        ensures
            final(self)@ == store_be(old(self)@, addr as int, val),
            same_outside(old(self)@, final(self)@, addr as int, V::width()),
    {
        proof {
            lemma_store_swapped::<V>(old(self)@, addr as int, val);
        }
        self.write(addr, val.to_be());
    }
}

/// Reading most significant byte first gives the little-endian reading with
/// its bytes swapped.
pub proof fn lemma_load_swapped<V: Value>(mem: Seq<u8>, addr: int)
    requires
        0 <= addr,
        addr + V::width() <= mem.len(),
    ensures
        load_be::<V>(mem, addr) == swapped(load::<V>(mem, addr)),
{
    let bytes = mem.subrange(addr, addr + V::width());
    lemma_le_value_bound(bytes);
    V::lemma_of_bits(le_value(bytes));
    lemma_le_bytes_of_le_value(bytes);
}

/// Writing most significant byte first is writing the value with its bytes
/// swapped.
pub proof fn lemma_store_swapped<V: Value>(mem: Seq<u8>, addr: int, val: V)
    ensures
        store_be(mem, addr, val) == store(mem, addr, swapped(val)),
{
    lemma_byte_swapped(val.bits(), V::width());
    V::lemma_of_bits(byte_swapped(val.bits(), V::width()));
}

} // verus!
