//! The abstract value of a bit set: a sequence of flags, one per position.

use vstd::prelude::*;
use vstd::set_lib::{lemma_int_range, lemma_len_subset, set_int_range};
use crate::error::OutOfRange;

verus! {

/// The flags of a fresh set of `n` positions: every one reset.
pub open spec fn all_reset(n: nat) -> Seq<bool> {
    Seq::new(n, |i: int| false)
}

/// The positions of `s` that are set.
pub open spec fn ones(s: Seq<bool>) -> Set<int> {
    Set::new(|i: int| 0 <= i < s.len() && s[i])
}

/// How many positions of `s` are set.
pub open spec fn count_ones(s: Seq<bool>) -> nat {
    ones(s).len()
}

/// `s` with position `bit` set; `s` itself where it has no such position.
pub open spec fn set_bit(s: Seq<bool>, bit: int) -> Seq<bool> {
    if 0 <= bit < s.len() {
        s.update(bit, true)
    } else {
        s
    }
}

/// `s` with position `bit` reset; `s` itself where it has no such position.
pub open spec fn reset_bit(s: Seq<bool>, bit: int) -> Seq<bool> {
    if 0 <= bit < s.len() {
        s.update(bit, false)
    } else {
        s
    }
}

/// `s` with position `bit` inverted; `s` itself where it has no such position.
pub open spec fn flip_bit(s: Seq<bool>, bit: int) -> Seq<bool> {
    if 0 <= bit < s.len() {
        s.update(bit, !s[bit])
    } else {
        s
    }
}

/// The outcome of addressing position `bit` in a set of `capacity` positions:
/// accepted below `capacity`, refused with the position and the capacity from
/// there on.
pub open spec fn guard(capacity: nat, bit: usize) -> Result<(), OutOfRange> {
    if bit < capacity {
        Ok(())
    } else {
        Err(OutOfRange { bit, capacity: capacity as usize })
    }
}

/// The answer to asking whether position `bit` of `s` is set.
pub open spec fn query(s: Seq<bool>, bit: usize) -> Result<bool, OutOfRange> {
    match guard(s.len(), bit) {
        Ok(_) => Ok(s[bit as int]),
        Err(e) => Err(e),
    }
}

/// The answer to asking whether position `bit` of `s` is reset.
pub open spec fn query_reset(s: Seq<bool>, bit: usize) -> Result<bool, OutOfRange> {
    match guard(s.len(), bit) {
        Ok(_) => Ok(!s[bit as int]),
        Err(e) => Err(e),
    }
}

/// The set positions are finitely many, and no more than there are positions.
pub proof fn lemma_count_bounded(s: Seq<bool>)
    ensures
        ones(s).finite(),
        count_ones(s) <= s.len(),
{
    lemma_int_range(0, s.len() as int);
    lemma_len_subset(ones(s), set_int_range(0, s.len() as int));
}

/// A fresh set has nothing set.
pub proof fn lemma_count_all_reset(n: nat)
    ensures
        count_ones(all_reset(n)) == 0,
{
    assert(ones(all_reset(n)) =~= Set::<int>::empty());
}

/// Setting a position adds one to the count if it was reset, and nothing if
/// it was set already.
pub proof fn lemma_count_set(s: Seq<bool>, bit: int)
    requires
        0 <= bit < s.len(),
    ensures
        s[bit] ==> count_ones(set_bit(s, bit)) == count_ones(s),
        !s[bit] ==> count_ones(set_bit(s, bit)) == count_ones(s) + 1,
{
    lemma_count_bounded(s);
    assert(ones(set_bit(s, bit)) =~= ones(s).insert(bit));
}

/// Resetting a position takes one from the count if it was set, and nothing
/// if it was reset already.
pub proof fn lemma_count_reset(s: Seq<bool>, bit: int)
    requires
        0 <= bit < s.len(),
    ensures
        s[bit] ==> count_ones(reset_bit(s, bit)) == count_ones(s) - 1,
        !s[bit] ==> count_ones(reset_bit(s, bit)) == count_ones(s),
{
    lemma_count_bounded(s);
    assert(ones(reset_bit(s, bit)) =~= ones(s).remove(bit));
}

} // verus!
