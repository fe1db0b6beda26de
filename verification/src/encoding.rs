//! Positional byte encodings of natural numbers.
//!
//! A bit pattern of `width` bytes is modelled as a natural number below
//! `radix(width)`. Its little-endian encoding lists the base-256 digits from
//! the least significant one upwards; the big-endian encoding is the same
//! list reversed.

use vstd::prelude::*;

verus! {

/// Largest width, in bytes, that the executable codecs handle.
pub const MAX_WIDTH: usize = 16;

/// Number of distinct bit patterns of `width` bytes: `256` to the power `width`.
pub open spec fn radix(width: nat) -> nat
    decreases width,
{
    if width == 0 {
        1
    } else {
        256 * radix((width - 1) as nat)
    }
}

/// The `width` least significant base-256 digits of `n`, least significant first.
pub open spec fn le_bytes(n: nat, width: nat) -> Seq<u8>
    decreases width,
{
    if width == 0 {
        Seq::empty()
    } else {
        seq![(n % 256) as u8] + le_bytes(n / 256, (width - 1) as nat)
    }
}

/// The `width` least significant base-256 digits of `n`, most significant first.
pub open spec fn be_bytes(n: nat, width: nat) -> Seq<u8> {
    le_bytes(n, width).reverse()
}

/// The number whose base-256 digits, least significant first, are `bytes`.
pub open spec fn le_value(bytes: Seq<u8>) -> nat
    decreases bytes.len(),
{
    if bytes.len() == 0 {
        0
    } else {
        bytes[0] as nat + 256 * le_value(bytes.drop_first())
    }
}

/// The number whose base-256 digits, most significant first, are `bytes`.
pub open spec fn be_value(bytes: Seq<u8>) -> nat {
    le_value(bytes.reverse())
}

/// The bit pattern of `width` bytes that holds the bytes of `n` in reverse order.
pub open spec fn byte_swapped(n: nat, width: nat) -> nat {
    be_value(le_bytes(n, width))
}

/// `bytes` reads the same in both directions.
pub open spec fn is_palindrome(bytes: Seq<u8>) -> bool {
    bytes.reverse() == bytes
}

/// The radix is positive and grows with the width.
pub proof fn lemma_radix_monotonic(a: nat, b: nat)
    requires
        a <= b,
    ensures
        0 < radix(a) <= radix(b),
    decreases b,
{
    if b == 0 {
    } else if a == b {
        lemma_radix_monotonic((a - 1) as nat, (b - 1) as nat);
    } else {
        lemma_radix_monotonic(a, (b - 1) as nat);
    }
}

/// The radix of each width that a primitive integer has.
pub proof fn lemma_radix_values()
    ensures
        radix(0) == 1,
        radix(1) == 0x100,
        radix(2) == 0x1_0000,
        radix(4) == 0x1_0000_0000,
        radix(8) == 0x1_0000_0000_0000_0000,
        radix(15) == 0x100_0000_0000_0000_0000_0000_0000_0000,
        radix(16) == 0x1_0000_0000_0000_0000_0000_0000_0000_0000,
{
    reveal_with_fuel(radix, 5);
    assert(radix(4) == 0x1_0000_0000);
    assert(radix(8) == 0x1_0000_0000 * radix(4));
    assert(radix(12) == 0x1_0000_0000 * radix(8));
    assert(radix(15) == 0x100_0000 * radix(12));
    assert(radix(16) == 256 * radix(15));
}

/// An encoding has as many bytes as were asked for.
pub proof fn lemma_le_bytes_len(n: nat, width: nat)
    ensures
        le_bytes(n, width).len() == width,
        be_bytes(n, width).len() == width,
    decreases width,
{
    if width > 0 {
        lemma_le_bytes_len(n / 256, (width - 1) as nat);
    }
}

/// A sequence of bytes denotes a bit pattern of its own width.
pub proof fn lemma_le_value_bound(bytes: Seq<u8>)
    ensures
        le_value(bytes) < radix(bytes.len()),
        be_value(bytes) < radix(bytes.len()),
    decreases bytes.len(),
{
    if bytes.len() > 0 {
        lemma_le_value_bound(bytes.drop_first());
        lemma_le_value_bound(bytes.reverse().drop_first());
    }
}

/// Decoding the little-endian encoding of a bit pattern gives the pattern back.
pub proof fn lemma_le_value_of_le_bytes(n: nat, width: nat)
    requires
        n < radix(width),
    ensures
        le_value(le_bytes(n, width)) == n,
    decreases width,
{
    if width > 0 {
        let rest = le_bytes(n / 256, (width - 1) as nat);
        lemma_le_value_of_le_bytes(n / 256, (width - 1) as nat);
        assert(le_bytes(n, width).drop_first() == rest);
    }
}

/// Encoding what a sequence of bytes denotes, at its own width, gives the bytes back.
pub proof fn lemma_le_bytes_of_le_value(bytes: Seq<u8>)
    ensures
        le_bytes(le_value(bytes), bytes.len()) == bytes,
    decreases bytes.len(),
{
    if bytes.len() > 0 {
        let tail = bytes.drop_first();
        lemma_le_bytes_of_le_value(tail);
        let n = le_value(bytes);
        assert(n % 256 == bytes[0] as nat);
        assert(n / 256 == le_value(tail));
        assert(le_bytes(n, bytes.len()) == seq![bytes[0]] + tail);
    }
}

/// The big-endian codec is a bijection between bit patterns and byte sequences too.
pub proof fn lemma_be_round_trip(n: nat, bytes: Seq<u8>, width: nat)
    requires
        n < radix(width),
    ensures
        be_value(be_bytes(n, width)) == n,
        be_bytes(be_value(bytes), bytes.len()) == bytes,
{
    lemma_le_value_of_le_bytes(n, width);
    assert(le_bytes(n, width).reverse().reverse() == le_bytes(n, width));
    lemma_le_bytes_of_le_value(bytes.reverse());
    assert(bytes.reverse().reverse() == bytes);
}

/// Swapping the bytes of the bit pattern `n` gives a bit pattern of the same
/// width whose little-endian encoding is the big-endian encoding of `n`.
pub proof fn lemma_byte_swapped(n: nat, width: nat)
    ensures
        byte_swapped(n, width) < radix(width),
        le_bytes(byte_swapped(n, width), width) == be_bytes(n, width),
{
    lemma_le_bytes_len(n, width);
    lemma_le_value_bound(be_bytes(n, width));
    lemma_le_bytes_of_le_value(be_bytes(n, width));
}

/// Swapping the bytes twice gives the bit pattern back.
pub proof fn lemma_byte_swapped_twice(n: nat, width: nat)
    requires
        n < radix(width),
    ensures
        byte_swapped(byte_swapped(n, width), width) == n,
{
    lemma_byte_swapped(n, width);
    lemma_be_round_trip(n, Seq::empty(), width);
}

/// A bit pattern is its own byte-swapped form exactly when its encoding is a palindrome.
pub proof fn lemma_byte_swapped_fixed(n: nat, width: nat)
    requires
        n < radix(width),
    ensures
        byte_swapped(n, width) == n <==> is_palindrome(le_bytes(n, width)),
{
    lemma_byte_swapped(n, width);
    lemma_le_value_of_le_bytes(n, width);
}

/// Reads `bytes` as a little-endian number.
pub fn decode_le(bytes: &[u8]) -> (n: u128)
    requires
        bytes@.len() <= MAX_WIDTH,
    ensures
        n == le_value(bytes@),
{
    let len: usize = bytes.len();
    let mut i: usize = len;
    let mut acc: u128 = 0;
    while i > 0
        invariant
            i <= len,
            len == bytes@.len(),
            len <= MAX_WIDTH,
            acc == le_value(bytes@.subrange(i as int, len as int)),
        decreases i,
    {
        let ghost suffix = bytes@.subrange(i as int, len as int);
        let ghost longer = bytes@.subrange(i - 1, len as int);
        proof {
            lemma_le_value_bound(suffix);
            lemma_radix_monotonic(suffix.len(), 15);
            lemma_radix_values();
            assert(longer.drop_first() == suffix);
        }
        i = i - 1;
        acc = acc * 256 + bytes[i] as u128;
    }
    assert(bytes@.subrange(0, len as int) == bytes@);
    acc
}

/// Fills `out` with the little-endian encoding of `n` at the width of `out`.
pub fn encode_le(n: u128, out: &mut [u8])
    ensures
        final(out)@ == le_bytes(n as nat, old(out)@.len()),
{
    let len: usize = out.len();
    let mut i: usize = 0;
    let mut rest: u128 = n;
    while i < len
        invariant
            i <= len,
            len == out@.len(),
            out@.subrange(0, i as int) + le_bytes(rest as nat, (len - i) as nat) == le_bytes(
                n as nat,
                len as nat,
            ),
        decreases len - i,
    {
        let ghost before = out@.subrange(0, i as int);
        let digit: u8 = (rest % 256) as u8;
        out[i] = digit;
        proof {
            let tail = le_bytes((rest / 256) as nat, (len - i - 1) as nat);
            assert(out@.subrange(0, i + 1) == before.push(digit));
            assert(before + (seq![digit] + tail) == before.push(digit) + tail);
        }
        rest = rest / 256;
        i = i + 1;
    }
    assert(out@.subrange(0, len as int) == out@);
}

/// Reverses the order of the `width` bytes that make up the bit pattern `n`.
pub fn swap_bytes(n: u128, width: usize) -> (swapped: u128)
    requires
        width <= MAX_WIDTH,
    ensures
        swapped == byte_swapped(n as nat, width as nat),
{
    let ghost digits = le_bytes(n as nat, width as nat);
    let mut i: usize = 0;
    let mut rest: u128 = n;
    let mut acc: u128 = 0;
    proof {
        lemma_le_bytes_len(n as nat, width as nat);
        assert(digits.subrange(0, 0).reverse() == Seq::<u8>::empty());
    }
    while i < width
        invariant
            i <= width <= MAX_WIDTH,
            digits.len() == width,
            digits == le_bytes(n as nat, width as nat),
            le_bytes(rest as nat, (width - i) as nat) == digits.subrange(i as int, width as int),
            acc == le_value(digits.subrange(0, i as int).reverse()),
        decreases width - i,
    {
        let ghost done = digits.subrange(0, i as int).reverse();
        let ghost grown = digits.subrange(0, i + 1).reverse();
        let digit: u8 = (rest % 256) as u8;
        proof {
            let here = le_bytes(rest as nat, (width - i) as nat);
            let tail = le_bytes((rest / 256) as nat, (width - i - 1) as nat);
            // The next digit of `rest` is the digit of `n` at `i`.
            assert(here[0] == digit);
            assert(here.drop_first() == tail);
            assert(digits.subrange(i as int, width as int).drop_first() == digits.subrange(
                i + 1,
                width as int,
            ));
            // It becomes the least significant digit of what has been reversed.
            assert(grown[0] == digit);
            assert(grown.drop_first() == done);
            lemma_le_value_bound(done);
            lemma_radix_monotonic(done.len(), 15);
            lemma_radix_values();
        }
        acc = acc * 256 + digit as u128;
        rest = rest / 256;
        i = i + 1;
    }
    proof {
        assert(digits.subrange(0, width as int) == digits);
    }
    acc
}

} // verus!
