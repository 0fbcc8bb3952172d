use bitvec::{Bitvec, OutOfRange};

#[test]
fn set_at_capacity_is_refused() {
    let mut b = Bitvec::new(10);
    assert_eq!(b.set(10), Err(OutOfRange { bit: 10, capacity: 10 }));
    assert_eq!(b.count(), 0);
}

#[test]
fn reset_at_capacity_is_refused() {
    let mut b = Bitvec::new(10);
    b.set(9).unwrap();
    assert_eq!(b.reset(10), Err(OutOfRange { bit: 10, capacity: 10 }));
    assert_eq!(b.count(), 1);
}

#[test]
fn flip_at_capacity_is_refused() {
    let mut b = Bitvec::new(10);
    assert_eq!(b.flip(10), Err(OutOfRange { bit: 10, capacity: 10 }));
    assert_eq!(b.count(), 0);
}

#[test]
fn queries_at_capacity_are_refused() {
    let b = Bitvec::new(10);
    assert_eq!(b.is_set(10), Err(OutOfRange { bit: 10, capacity: 10 }));
    assert_eq!(b.is_reset(10), Err(OutOfRange { bit: 10, capacity: 10 }));
}

#[test]
fn positions_in_the_unused_tail_of_the_last_word_are_refused() {
    // Ten positions take two bytes; positions 10..16 lie in the second byte
    // but are not part of the set.
    let mut b = Bitvec::new(10);
    for bit in 10usize..16 {
        let refusal = OutOfRange { bit, capacity: 10 };
        assert_eq!(b.set(bit), Err(refusal));
        assert_eq!(b.reset(bit), Err(refusal));
        assert_eq!(b.flip(bit), Err(refusal));
        assert_eq!(b.is_set(bit), Err(refusal));
        assert_eq!(b.is_reset(bit), Err(refusal));
    }
    assert_eq!(b.count(), 0);
    for bit in 0usize..10 {
        assert_eq!(b.is_set(bit), Ok(false));
    }
}

#[test]
fn far_positions_are_refused() {
    let mut b = Bitvec::new(128);
    for bit in [128usize, 129, 1024, usize::MAX - 1, usize::MAX] {
        let refusal = OutOfRange { bit, capacity: 128 };
        assert_eq!(b.set(bit), Err(refusal));
        assert_eq!(b.reset(bit), Err(refusal));
        assert_eq!(b.flip(bit), Err(refusal));
        assert_eq!(b.is_set(bit), Err(refusal));
        assert_eq!(b.is_reset(bit), Err(refusal));
    }
    assert_eq!(b.count(), 0);
}

#[test]
fn refused_operation_leaves_the_set_as_it_was() {
    let mut b = Bitvec::new(20);
    b.set(3).unwrap();
    b.set(19).unwrap();
    assert!(b.set(20).is_err());
    assert!(b.reset(20).is_err());
    assert!(b.flip(20).is_err());
    assert_eq!(b.capacity(), 20);
    assert_eq!(b.count(), 2);
    for bit in 0usize..20 {
        assert_eq!(b.is_set(bit), Ok(bit == 3 || bit == 19));
    }
}

#[test]
fn empty_set_refuses_every_position() {
    let mut b = Bitvec::new(0);
    assert_eq!(b.capacity(), 0);
    assert_eq!(b.count(), 0);
    for bit in [0usize, 1, 7, 8, usize::MAX] {
        let refusal = OutOfRange { bit, capacity: 0 };
        assert_eq!(b.set(bit), Err(refusal));
        assert_eq!(b.reset(bit), Err(refusal));
        assert_eq!(b.flip(bit), Err(refusal));
        assert_eq!(b.is_set(bit), Err(refusal));
        assert_eq!(b.is_reset(bit), Err(refusal));
    }
    assert_eq!(b.count(), 0);
}

#[test]
fn last_valid_position_is_accepted() {
    for capacity in [1usize, 7, 8, 9, 63, 64, 65, 1000] {
        let mut b = Bitvec::new(capacity);
        assert_eq!(b.set(capacity - 1), Ok(()));
        assert_eq!(b.is_set(capacity - 1), Ok(true));
        assert_eq!(b.count(), 1);
        assert!(b.set(capacity).is_err());
    }
}
