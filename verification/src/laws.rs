//! How the operations relate to one another, proved over the abstract value.

use vstd::prelude::*;
use vstd::set_lib::lemma_map_size;
use crate::error::OutOfRange;
use crate::model::{
    all_reset, count_ones, flip_bit, guard, lemma_count_all_reset, lemma_count_bounded,
    lemma_count_reset, lemma_count_set, ones, query, query_reset, reset_bit, set_bit,
};

verus! {

/// A fresh set has the capacity it was asked for and nothing set; every
/// position of it answers "reset".
pub proof fn lemma_fresh(n: nat)
    ensures
        all_reset(n).len() == n,
        count_ones(all_reset(n)) == 0,
        forall|bit: usize| bit < n ==> query(all_reset(n), bit) == Ok::<bool, OutOfRange>(false),
{
    lemma_count_all_reset(n);
}

/// After a position has been set, it answers "set" and not "reset".
pub proof fn lemma_set_then_query(s: Seq<bool>, bit: usize)
    requires
        bit < s.len(),
    ensures
        query(set_bit(s, bit as int), bit) == Ok::<bool, OutOfRange>(true),
        query_reset(set_bit(s, bit as int), bit) == Ok::<bool, OutOfRange>(false),
{
}

/// After a position has been reset, it answers "reset" and not "set".
pub proof fn lemma_reset_then_query(s: Seq<bool>, bit: usize)
    requires
        bit < s.len(),
    ensures
        query(reset_bit(s, bit as int), bit) == Ok::<bool, OutOfRange>(false),
        query_reset(reset_bit(s, bit as int), bit) == Ok::<bool, OutOfRange>(true),
{
}

/// "Reset" is always the negation of "set", and both refuse the same
/// positions.
pub proof fn lemma_query_reset_negates(s: Seq<bool>, bit: usize)
    ensures
        query(s, bit) is Ok <==> query_reset(s, bit) is Ok,
        query(s, bit) is Ok ==> query_reset(s, bit)->Ok_0 == !query(s, bit)->Ok_0,
        query(s, bit) is Err ==> query_reset(s, bit)->Err_0 == query(s, bit)->Err_0,
{
}

/// Flipping a position inverts its answer and moves the count by exactly one,
/// up if the position was reset and down if it was set.
pub proof fn lemma_flip_moves_count_by_one(s: Seq<bool>, bit: usize)
    requires
        bit < s.len(),
    ensures
        flip_bit(s, bit as int)[bit as int] == !s[bit as int],
        !s[bit as int] ==> count_ones(flip_bit(s, bit as int)) == count_ones(s) + 1,
        s[bit as int] ==> count_ones(flip_bit(s, bit as int)) == count_ones(s) - 1,
{
    if s[bit as int] {
        lemma_count_reset(s, bit as int);
        assert(flip_bit(s, bit as int) == reset_bit(s, bit as int));
    } else {
        lemma_count_set(s, bit as int);
        assert(flip_bit(s, bit as int) == set_bit(s, bit as int));
    }
}

/// Flipping the same position twice gives back the set as it was, and with it
/// the count.
pub proof fn lemma_flip_twice(s: Seq<bool>, bit: usize)
    ensures
        flip_bit(flip_bit(s, bit as int), bit as int) == s,
        count_ones(flip_bit(flip_bit(s, bit as int), bit as int)) == count_ones(s),
{
    assert(flip_bit(flip_bit(s, bit as int), bit as int) =~= s);
}

/// Setting a position that is already set changes nothing: a second `set`
/// leaves the flags and the count as the first one left them.
pub proof fn lemma_set_twice(s: Seq<bool>, bit: usize)
    ensures
        set_bit(set_bit(s, bit as int), bit as int) == set_bit(s, bit as int),
        count_ones(set_bit(set_bit(s, bit as int), bit as int)) == count_ones(
            set_bit(s, bit as int),
        ),
{
    assert(set_bit(set_bit(s, bit as int), bit as int) =~= set_bit(s, bit as int));
}

/// Resetting a position that is already reset changes nothing: a second
/// `reset` leaves the flags and the count as the first one left them.
pub proof fn lemma_reset_twice(s: Seq<bool>, bit: usize)
    ensures
        reset_bit(reset_bit(s, bit as int), bit as int) == reset_bit(s, bit as int),
        count_ones(reset_bit(reset_bit(s, bit as int), bit as int)) == count_ones(
            reset_bit(s, bit as int),
        ),
{
    assert(reset_bit(reset_bit(s, bit as int), bit as int) =~= reset_bit(s, bit as int));
}

/// The count is the number of positions that answer "set".
pub proof fn lemma_count_is_number_answering_set(s: Seq<bool>)
    requires
        s.len() <= usize::MAX,
    ensures
        count_ones(s) == Set::new(
            |bit: usize| query(s, bit) == Ok::<bool, OutOfRange>(true),
        ).len(),
{
    let answering = Set::new(|bit: usize| query(s, bit) == Ok::<bool, OutOfRange>(true));
    let place = |i: int| i as usize;
    lemma_count_bounded(s);
    assert(ones(s).map(place) =~= answering) by {
        assert forall|bit: usize| answering.contains(bit) implies ones(s).map(place).contains(
            bit,
        ) by {
            assert(ones(s).contains(bit as int) && place(bit as int) == bit);
        }
    }
    lemma_map_size(ones(s), answering, place);
}

/// A position is refused exactly when it is not below the capacity, whatever
/// the operation; the refusal names the position and the capacity.
pub proof fn lemma_refused_exactly_beyond_capacity(capacity: nat, bit: usize)
    requires
        capacity <= usize::MAX,
    ensures
        guard(capacity, bit) is Err <==> bit >= capacity,
        guard(capacity, capacity as usize) is Err,
        guard(capacity, bit) is Err ==> guard(capacity, bit)->Err_0.bit == bit && guard(
            capacity,
            bit,
        )->Err_0.capacity == capacity,
{
}

/// A refused operation leaves the set as it was.
pub proof fn lemma_refused_changes_nothing(s: Seq<bool>, bit: usize)
    requires
        guard(s.len(), bit) is Err,
    ensures
        set_bit(s, bit as int) == s,
        reset_bit(s, bit as int) == s,
        flip_bit(s, bit as int) == s,
{
}

/// Setting, resetting or flipping one position leaves the capacity and the
/// answer of every other position as they were.
pub proof fn lemma_other_positions_untouched(s: Seq<bool>, bit: usize, other: usize)
    requires
        other != bit,
    ensures
        set_bit(s, bit as int).len() == s.len(),
        reset_bit(s, bit as int).len() == s.len(),
        flip_bit(s, bit as int).len() == s.len(),
        query(set_bit(s, bit as int), other) == query(s, other),
        query(reset_bit(s, bit as int), other) == query(s, other),
        query(flip_bit(s, bit as int), other) == query(s, other),
{
}

} // verus!
