//! Keeps the set of value types closed: a type outside this crate cannot
//! name `Sealed`, so it cannot implement a trait that requires it.

use vstd::prelude::*;

verus! {

/// Marker implemented for exactly the ten fixed-width primitive integers.
pub trait Sealed {

}

impl Sealed for u8 {

}

impl Sealed for i8 {

}

impl Sealed for u16 {

}

impl Sealed for i16 {

}

impl Sealed for u32 {

}

impl Sealed for i32 {

}

impl Sealed for u64 {

}

impl Sealed for i64 {

}

impl Sealed for u128 {

}

impl Sealed for i128 {

}

} // verus!
