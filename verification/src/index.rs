//! Indices into the bytes of a memory: a single address or a range of
//! addresses.
//!
//! `ByteIndex` narrows the slice indices of the standard library to those
//! for which this crate says which bytes they select. That is what lets the
//! contracts of `Memory::get` and `Memory::get_mut` speak of any index.

use vstd::prelude::*;
use core::ops::Range;
use core::slice::SliceIndex;

verus! {

/// An index that selects bytes of a memory.
///
/// An address of type `usize` selects the one byte at that address, and the
/// reference to it is a reference to a `u8`. A `Range<usize>` selects the
/// bytes from its start up to its end, which is left out, and the reference
/// to them is a slice. Either way the bytes selected are those from
/// `first()` up to `past()`, and an index lies within `len` bytes when
/// `first() <= past() <= len`.
pub trait ByteIndex: SliceIndex<[u8]> + Sized {
    /// The address of the first byte that the index selects.
    spec fn first(&self) -> int;

    /// The address after the last byte that the index selects.
    spec fn past(&self) -> int;

    /// The bytes of what the index selects.
    spec fn bytes_of(out: &<Self as SliceIndex<[u8]>>::Output) -> Seq<u8>;

    /// Returns what the index selects of `bytes`, if it lies within them.
    fn select(self, bytes: &[u8]) -> (res: Option<&<Self as SliceIndex<[u8]>>::Output>)
        ensures
            res is Some <==> self.first() <= self.past() <= bytes@.len(),
            res matches Some(out) ==> Self::bytes_of(out) == bytes@.subrange(
                self.first(),
                self.past(),
            ),
    ;

    /// Returns what the index selects of `bytes` for writing, if it lies within them.
    fn select_mut(self, bytes: &mut [u8]) -> (res: Option<
        &mut <Self as SliceIndex<[u8]>>::Output,
    >)
        ensures
            res is Some <==> self.first() <= self.past() <= old(bytes)@.len(),
            res matches Some(out) ==> {
                &&& Self::bytes_of(out) == old(bytes)@.subrange(self.first(), self.past())
                &&& final(bytes)@ == old(bytes)@.subrange(0, self.first()) + Self::bytes_of(
                    final(out),
                ) + old(bytes)@.subrange(self.past(), old(bytes)@.len() as int)
            },
            res is None ==> final(bytes)@ == old(bytes)@,
    ;
}

impl ByteIndex for Range<usize> {
    open spec fn first(&self) -> int {
        self.start as int
    }

    open spec fn past(&self) -> int {
        self.end as int
    }

    open spec fn bytes_of(out: &[u8]) -> Seq<u8> {
        out@
    }

    fn select(self, bytes: &[u8]) -> (res: Option<&[u8]>) {
        if self.start <= self.end && self.end <= bytes.len() {
            Some(vstd::slice::slice_subrange(bytes, self.start, self.end))
        } else {
            None
        }
    }

    fn select_mut(self, bytes: &mut [u8]) -> (res: Option<&mut [u8]>) {
        if self.start <= self.end && self.end <= bytes.len() {
            let (_head, tail) = bytes.split_at_mut(self.start);
            let (window, _rest) = tail.split_at_mut(self.end - self.start);
            Some(window)
        } else {
            None
        }
    }
}

impl ByteIndex for usize {
    open spec fn first(&self) -> int {
        *self as int
    }

    open spec fn past(&self) -> int {
        *self + 1
    }

    open spec fn bytes_of(out: &u8) -> Seq<u8> {
        seq![*out]
    }

    fn select(self, bytes: &[u8]) -> (res: Option<&u8>) {
        if self < bytes.len() {
            Some(&bytes[self])
        } else {
            None
        }
    }

    fn select_mut(self, bytes: &mut [u8]) -> (res: Option<&mut u8>) {
        if self < bytes.len() {
            let (_head, tail) = bytes.split_at_mut(self);
            tail.first_mut()
        } else {
            None
        }
    }
}

} // verus!
