//! What holds of reading and writing for every memory, address and value.
//!
//! The laws are stated over the model of a memory, with the functions
//! `load`, `load_be`, `store` and `store_be` by which the operations of
//! `Memory` are specified.

use vstd::prelude::*;
use crate::encoding::{
    byte_swapped, is_palindrome, le_bytes, le_value, lemma_be_round_trip, lemma_byte_swapped,
    lemma_byte_swapped_fixed, lemma_byte_swapped_twice, lemma_le_bytes_len,
    lemma_le_value_of_le_bytes,
};
use crate::memory::{fits, lemma_splice, load, load_be, same_outside, store, store_be};
use crate::value::{encoded_be, encoded_le, swapped, Value};

verus! {

/// Swapping the bytes of a value is reversible: swapping them again gives
/// the value back.
pub proof fn lemma_swapped_twice<V: Value>(val: V)
    ensures
        swapped(swapped(val)) == val,
{
    let n = val.bits();
    val.lemma_bits();
    lemma_byte_swapped(n, V::width());
    V::lemma_of_bits(byte_swapped(n, V::width()));
    lemma_byte_swapped_twice(n, V::width());
}

/// The bytes of a value with its bytes swapped are the bytes of the value
/// in reverse order, and the swapped value is the value itself exactly
/// when its bytes read the same in both directions.
pub proof fn lemma_swapped_bytes<V: Value>(val: V)
    ensures
        encoded_le(swapped(val)) == encoded_le(val).reverse(),
        swapped(val) == val <==> is_palindrome(encoded_le(val)),
{
    let n = val.bits();
    val.lemma_bits();
    lemma_byte_swapped(n, V::width());
    V::lemma_of_bits(byte_swapped(n, V::width()));
    lemma_byte_swapped_fixed(n, V::width());
}

/// A value written in little endian format is read back in little endian
/// format from the same address.
pub proof fn lemma_read_after_write<V: Value>(mem: Seq<u8>, addr: usize, val: V)
    requires
        fits::<V>(mem, addr),
    ensures
        fits::<V>(store(mem, addr as int, val), addr),
        load::<V>(store(mem, addr as int, val), addr as int) == val,
{
    val.lemma_bits();
    lemma_le_bytes_len(val.bits(), V::width());
    lemma_splice(mem, addr as int, encoded_le(val));
    lemma_le_value_of_le_bytes(val.bits(), V::width());
}

/// A value written in big endian format is read back in big endian format
/// from the same address.
pub proof fn lemma_read_be_after_write_be<V: Value>(mem: Seq<u8>, addr: usize, val: V)
    requires
        fits::<V>(mem, addr),
    ensures
        fits::<V>(store_be(mem, addr as int, val), addr),
        load_be::<V>(store_be(mem, addr as int, val), addr as int) == val,
{
    val.lemma_bits();
    lemma_le_bytes_len(val.bits(), V::width());
    lemma_splice(mem, addr as int, encoded_be(val));
    lemma_be_round_trip(val.bits(), Seq::empty(), V::width());
}

/// A value written in one byte order and read in the other comes back with
/// its bytes swapped. That is another value unless the bytes of the value
/// read the same in both directions.
pub proof fn lemma_read_in_other_order<V: Value>(mem: Seq<u8>, addr: usize, val: V)
    requires
        fits::<V>(mem, addr),
    ensures
        load_be::<V>(store(mem, addr as int, val), addr as int) == swapped(val),
        load::<V>(store_be(mem, addr as int, val), addr as int) == swapped(val),
        swapped(val) != val <==> !is_palindrome(encoded_le(val)),
{
    lemma_le_bytes_len(val.bits(), V::width());
    lemma_splice(mem, addr as int, encoded_le(val));
    lemma_splice(mem, addr as int, encoded_be(val));
    lemma_swapped_bytes(val);
}

/// A write changes the bytes of the value it writes, to the bytes of that
/// value in the order asked for, and no byte besides.
pub proof fn lemma_write_changes_only_its_range<V: Value>(mem: Seq<u8>, addr: usize, val: V)
    requires
        fits::<V>(mem, addr),
    ensures
        same_outside(mem, store(mem, addr as int, val), addr as int, V::width()),
        same_outside(mem, store_be(mem, addr as int, val), addr as int, V::width()),
        store(mem, addr as int, val).subrange(addr as int, addr + V::width()) == encoded_le(val),
        store_be(mem, addr as int, val).subrange(addr as int, addr + V::width()) == encoded_be(
            val,
        ),
{
    lemma_le_bytes_len(val.bits(), V::width());
    lemma_splice(mem, addr as int, encoded_le(val));
    lemma_splice(mem, addr as int, encoded_be(val));
}

/// Reading and writing a `u8` as a value is reading and writing a byte: it
/// is in bounds at the same addresses, reads the byte at the address and
/// replaces that byte alone, in either byte order.
pub proof fn lemma_single_byte(mem: Seq<u8>, addr: usize, byte: u8)
    requires
        addr < usize::MAX || mem.len() <= usize::MAX,
    ensures
        fits::<u8>(mem, addr) <==> addr < mem.len(),
        addr < mem.len() ==> {
            &&& load::<u8>(mem, addr as int) == mem[addr as int]
            &&& load_be::<u8>(mem, addr as int) == mem[addr as int]
            &&& store(mem, addr as int, byte) == mem.update(addr as int, byte)
            &&& store_be(mem, addr as int, byte) == mem.update(addr as int, byte)
        },
{
    if addr < mem.len() {
        let window = mem.subrange(addr as int, addr + 1);
        reveal_with_fuel(le_value, 2);
        reveal_with_fuel(le_bytes, 2);
        assert(window.reverse() == window);
        assert(encoded_le(byte) == seq![byte]);
        assert(encoded_be(byte) == seq![byte]);
    }
}

} // verus!
