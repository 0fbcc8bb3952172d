//! A fixed-capacity set of bit flags, packed eight to a byte.
//!
//! [`Bitvec`] owns the storage and keeps a running count of the flags that are
//! set. Its abstract value is a `Seq<bool>` with one entry per position; the
//! functions in [`model`] describe every operation on that sequence, and
//! [`laws`] proves how the operations relate to one another.

pub mod error;
pub mod model;
pub mod laws;
mod bits;
pub mod bit_vec;

pub use bit_vec::Bitvec;
pub use error::OutOfRange;
