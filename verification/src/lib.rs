//! An abstraction over a chunk of memory that is readable and writable.
//!
//! The [`Memory`] trait asks an implementation for access to single bytes
//! and to ranges of bytes, and derives from those the reading and writing
//! of fixed-width integers in little-endian and big-endian byte order.
//! [`Value`] is the closed set of integer types that can be stored,
//! [`ByteIndex`] is what can select bytes of a memory, and [`VecMemory`]
//! is a memory backed by a `Vec`.
//!
//! Every operation is specified over the sequence of bytes that models a
//! memory. The module `laws` states what follows for reading after writing.

pub mod encoding;
pub mod index;
pub mod laws;
pub mod memory;
mod private;
pub mod value;
pub mod vec_memory;

pub use index::ByteIndex;
pub use memory::Memory;
pub use value::Value;
pub use vec_memory::VecMemory;
