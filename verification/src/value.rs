//! The fixed-width integers that can be stored in a memory, and how each
//! corresponds to a bit pattern.
//!
//! Every value type has a width in bytes and a bijection between its values
//! and the bit patterns of that width, read as natural numbers: an unsigned
//! value is its own pattern, a signed value maps to its two's complement.
//! Byte order is then a matter of how a pattern is written down, which the
//! `encoding` module defines once for all widths.

use vstd::prelude::*;
use crate::encoding::{
    be_bytes, be_value, byte_swapped, le_bytes, le_value, lemma_byte_swapped,
    lemma_radix_values, radix, swap_bytes, MAX_WIDTH,
};
use crate::private::Sealed;

verus! {

/// An integer type that can be read from and written to a `Memory`.
///
/// The trait is sealed: it is implemented for `u8`, `i8`, `u16`, `i16`,
/// `u32`, `i32`, `u64`, `i64`, `u128` and `i128`, and for nothing else.
pub trait Value: Sealed + Sized + Copy {
    /// Number of bytes that a value occupies.
    spec fn width() -> nat;

    /// The bit pattern of `self` as a natural number below `radix(Self::width())`.
    spec fn bits(self) -> nat;

    /// The value with bit pattern `n`.
    spec fn of_bits(n: nat) -> Self;

    /// The width is the size of the type, and the codecs can handle it.
    proof fn lemma_width()
        ensures
            Self::width() == vstd::layout::size_of::<Self>(),
            1 <= Self::width() <= MAX_WIDTH,
    ;

    /// Every value has a bit pattern of the type's width, from which it can be recovered.
    proof fn lemma_bits(self)
        ensures
            self.bits() < radix(Self::width()),
            Self::of_bits(self.bits()) == self,
    ;

    /// Every bit pattern of the type's width is the pattern of the value made from it.
    proof fn lemma_of_bits(n: nat)
        requires
            n < radix(Self::width()),
        ensures
            Self::of_bits(n).bits() == n,
    ;

    /// Returns the bit pattern of `self`.
    fn to_bits(self) -> (n: u128)
        ensures
            n == self.bits(),
    ;

    /// Returns the value with bit pattern `n`.
    fn from_bits(n: u128) -> (v: Self)
        requires
            n < radix(Self::width()),
        ensures
            v == Self::of_bits(n as nat),
    ;

    /// Converts `self` to little endian format.
    ///
    /// The result is the value that a plain write stores as the
    /// little-endian bytes of `self`. A plain write stores the least
    /// significant byte first, so that value is `self`.
    fn to_le(self) -> (v: Self)
        ensures
            v == self,
    {
        self
    }

    /// Converts `self` to big endian format.
    ///
    /// The result is the value that a plain write stores as the big-endian
    /// bytes of `self`: `self` with the order of its bytes reversed.
    fn to_be(self) -> (v: Self)
        ensures
            v == Self::of_bits(byte_swapped(self.bits(), Self::width())),
    {
        let width: usize = core::mem::size_of::<Self>();
        proof {
            Self::lemma_width();
            lemma_byte_swapped(self.bits(), Self::width());
        }
        Self::from_bits(swap_bytes(self.to_bits(), width))
    }
}

/// The bytes of `v`, least significant first.
pub open spec fn encoded_le<V: Value>(v: V) -> Seq<u8> {
    le_bytes(v.bits(), V::width())
}

/// The bytes of `v`, most significant first.
pub open spec fn encoded_be<V: Value>(v: V) -> Seq<u8> {
    be_bytes(v.bits(), V::width())
}

/// The value whose bytes, least significant first, are `bytes`.
pub open spec fn decoded_le<V: Value>(bytes: Seq<u8>) -> V {
    V::of_bits(le_value(bytes))
}

/// The value whose bytes, most significant first, are `bytes`.
pub open spec fn decoded_be<V: Value>(bytes: Seq<u8>) -> V {
    V::of_bits(be_value(bytes))
}

/// The value that holds the bytes of `v` in reverse order.
pub open spec fn swapped<V: Value>(v: V) -> V {
    V::of_bits(byte_swapped(v.bits(), V::width()))
}

impl Value for u8 {
    open spec fn width() -> nat {
        1
    }

    open spec fn bits(self) -> nat {
        self as nat
    }

    open spec fn of_bits(n: nat) -> Self {
        n as u8
    }

    proof fn lemma_width() {
        broadcast use vstd::layout::layout_of_primitives;

    }

    proof fn lemma_bits(self) {
        lemma_radix_values();
    }

    proof fn lemma_of_bits(n: nat) {
        lemma_radix_values();
    }

    fn to_bits(self) -> (n: u128) {
        self as u128
    }

    fn from_bits(n: u128) -> (v: Self) {
        proof {
            lemma_radix_values();
        }
        n as u8
    }
}

impl Value for i8 {
    open spec fn width() -> nat {
        1
    }

    open spec fn bits(self) -> nat {
        if self >= 0 {
            self as nat
        } else {
            (self + 0x100) as nat
        }
    }

    open spec fn of_bits(n: nat) -> Self {
        if n < 0x80 {
            n as i8
        } else {
            (n - 0x100) as i8
        }
    }

    proof fn lemma_width() {
        broadcast use vstd::layout::layout_of_primitives;

    }

    proof fn lemma_bits(self) {
        lemma_radix_values();
    }

    proof fn lemma_of_bits(n: nat) {
        lemma_radix_values();
    }

    fn to_bits(self) -> (n: u128) {
        if self >= 0 {
            self as u128
        } else {
            (self as i128 + 0x100) as u128
        }
    }

    fn from_bits(n: u128) -> (v: Self) {
        proof {
            lemma_radix_values();
        }
        if n < 0x80 {
            n as i8
        } else {
            (n as i128 - 0x100) as i8
        }
    }
}

impl Value for u16 {
    open spec fn width() -> nat {
        2
    }

    open spec fn bits(self) -> nat {
        self as nat
    }

    open spec fn of_bits(n: nat) -> Self {
        n as u16
    }

    proof fn lemma_width() {
        broadcast use vstd::layout::layout_of_primitives;

    }

    proof fn lemma_bits(self) {
        lemma_radix_values();
    }

    proof fn lemma_of_bits(n: nat) {
        lemma_radix_values();
    }

    fn to_bits(self) -> (n: u128) {
        self as u128
    }

    fn from_bits(n: u128) -> (v: Self) {
        proof {
            lemma_radix_values();
        }
        n as u16
    }
}

impl Value for i16 {
    open spec fn width() -> nat {
        2
    }

    open spec fn bits(self) -> nat {
        if self >= 0 {
            self as nat
        } else {
            (self + 0x1_0000) as nat
        }
    }

    open spec fn of_bits(n: nat) -> Self {
        if n < 0x8000 {
            n as i16
        } else {
            (n - 0x1_0000) as i16
        }
    }

    proof fn lemma_width() {
        broadcast use vstd::layout::layout_of_primitives;

    }

    proof fn lemma_bits(self) {
        lemma_radix_values();
    }

    proof fn lemma_of_bits(n: nat) {
        lemma_radix_values();
    }

    fn to_bits(self) -> (n: u128) {
        if self >= 0 {
            self as u128
        } else {
            (self as i128 + 0x1_0000) as u128
        }
    }

    fn from_bits(n: u128) -> (v: Self) {
        proof {
            lemma_radix_values();
        }
        if n < 0x8000 {
            n as i16
        } else {
            (n as i128 - 0x1_0000) as i16
        }
    }
}

impl Value for u32 {
    open spec fn width() -> nat {
        4
    }

    open spec fn bits(self) -> nat {
        self as nat
    }

    open spec fn of_bits(n: nat) -> Self {
        n as u32
    }

    proof fn lemma_width() {
        broadcast use vstd::layout::layout_of_primitives;

    }

    proof fn lemma_bits(self) {
        lemma_radix_values();
    }

    proof fn lemma_of_bits(n: nat) {
        lemma_radix_values();
    }

    fn to_bits(self) -> (n: u128) {
        self as u128
    }

    fn from_bits(n: u128) -> (v: Self) {
        proof {
            lemma_radix_values();
        }
        n as u32
    }
}

impl Value for i32 {
    open spec fn width() -> nat {
        4
    }

    open spec fn bits(self) -> nat {
        if self >= 0 {
            self as nat
        } else {
            (self + 0x1_0000_0000) as nat
        }
    }

    open spec fn of_bits(n: nat) -> Self {
        if n < 0x8000_0000 {
            n as i32
        } else {
            (n - 0x1_0000_0000) as i32
        }
    }

    proof fn lemma_width() {
        broadcast use vstd::layout::layout_of_primitives;

    }

    proof fn lemma_bits(self) {
        lemma_radix_values();
    }

    proof fn lemma_of_bits(n: nat) {
        lemma_radix_values();
    }

    fn to_bits(self) -> (n: u128) {
        if self >= 0 {
            self as u128
        } else {
            (self as i128 + 0x1_0000_0000) as u128
        }
    }

    fn from_bits(n: u128) -> (v: Self) {
        proof {
            lemma_radix_values();
        }
        if n < 0x8000_0000 {
            n as i32
        } else {
            (n as i128 - 0x1_0000_0000) as i32
        }
    }
}

impl Value for u64 {
    open spec fn width() -> nat {
        8
    }

    open spec fn bits(self) -> nat {
        self as nat
    }

    open spec fn of_bits(n: nat) -> Self {
        n as u64
    }

    proof fn lemma_width() {
        broadcast use vstd::layout::layout_of_primitives;

    }

    proof fn lemma_bits(self) {
        lemma_radix_values();
    }

    proof fn lemma_of_bits(n: nat) {
        lemma_radix_values();
    }

    fn to_bits(self) -> (n: u128) {
        self as u128
    }

    fn from_bits(n: u128) -> (v: Self) {
        proof {
            lemma_radix_values();
        }
        n as u64
    }
}

impl Value for i64 {
    open spec fn width() -> nat {
        8
    }

    open spec fn bits(self) -> nat {
        if self >= 0 {
            self as nat
        } else {
            (self + 0x1_0000_0000_0000_0000) as nat
        }
    }

    open spec fn of_bits(n: nat) -> Self {
        if n < 0x8000_0000_0000_0000 {
            n as i64
        } else {
            (n - 0x1_0000_0000_0000_0000) as i64
        }
    }

    proof fn lemma_width() {
        broadcast use vstd::layout::layout_of_primitives;

    }

    proof fn lemma_bits(self) {
        lemma_radix_values();
    }

    proof fn lemma_of_bits(n: nat) {
        lemma_radix_values();
    }

    fn to_bits(self) -> (n: u128) {
        if self >= 0 {
            self as u128
        } else {
            (self as i128 + 0x1_0000_0000_0000_0000) as u128
        }
    }

    fn from_bits(n: u128) -> (v: Self) {
        proof {
            lemma_radix_values();
        }
        if n < 0x8000_0000_0000_0000 {
            n as i64
        } else {
            (n as i128 - 0x1_0000_0000_0000_0000) as i64
        }
    }
}

impl Value for u128 {
    open spec fn width() -> nat {
        16
    }

    open spec fn bits(self) -> nat {
        self as nat
    }

    open spec fn of_bits(n: nat) -> Self {
        n as u128
    }

    proof fn lemma_width() {
        broadcast use vstd::layout::layout_of_primitives;

    }

    proof fn lemma_bits(self) {
        lemma_radix_values();
    }

    proof fn lemma_of_bits(n: nat) {
        lemma_radix_values();
    }

    fn to_bits(self) -> (n: u128) {
        self
    }

    fn from_bits(n: u128) -> (v: Self) {
        n
    }
}

impl Value for i128 {
    open spec fn width() -> nat {
        16
    }

    open spec fn bits(self) -> nat {
        if self >= 0 {
            self as nat
        } else {
            (self + 0x1_0000_0000_0000_0000_0000_0000_0000_0000) as nat
        }
    }

    open spec fn of_bits(n: nat) -> Self {
        if n < 0x8000_0000_0000_0000_0000_0000_0000_0000 {
            n as i128
        } else {
            (n - 0x1_0000_0000_0000_0000_0000_0000_0000_0000) as i128
        }
    }

    proof fn lemma_width() {
        broadcast use vstd::layout::layout_of_primitives;

    }

    proof fn lemma_bits(self) {
        lemma_radix_values();
    }

    proof fn lemma_of_bits(n: nat) {
        lemma_radix_values();
    }

    fn to_bits(self) -> (n: u128) {
        if self >= 0 {
            self as u128
        } else {
            (self - i128::MIN) as u128 + 0x8000_0000_0000_0000_0000_0000_0000_0000
        }
    }

    fn from_bits(n: u128) -> (v: Self) {
        if n < 0x8000_0000_0000_0000_0000_0000_0000_0000 {
            n as i128
        } else {
            (n - 0x8000_0000_0000_0000_0000_0000_0000_0000) as i128 + i128::MIN
        }
    }
}

} // verus!
