use vstd::prelude::*;

verus! {

/// A position was addressed that the set does not have.
#[derive(Debug, Clone, Copy, PartialEq, Eq, Structural)]
pub struct OutOfRange {
    /// The position that was asked for.
    pub bit: usize,
    /// The number of positions the set has.
    pub capacity: usize,
}

} // verus!
