//! The bit set itself.

use vstd::prelude::*;
use crate::bits::{
    bit_offset, flags, lemma_flags_after_and_not, lemma_flags_after_or,
    lemma_flags_of_zero_words, mask, word_index, words_for, WORD_BITS,
};
use crate::error::OutOfRange;
use crate::model::{
    all_reset, count_ones, flip_bit, guard, lemma_count_all_reset, lemma_count_bounded,
    lemma_count_reset, lemma_count_set, query, query_reset, reset_bit, set_bit,
};

verus! {

/// A set of bit flags at the positions `0 .. capacity`, fixed in size when it
/// is made.
pub struct Bitvec {
    /// The flags, eight to a word, position `i` in word `i / 8` at bit `i % 8`.
    block: Vec<u8>,
    /// How many positions are set.
    count: usize,
    /// How many positions there are.
    capacity: usize,
}

impl View for Bitvec {
    type V = Seq<bool>;

    /// One flag per position, `true` where the position is set.
    closed spec fn view(&self) -> Seq<bool> {
        flags(self.block@, self.capacity as nat)
    }
}

/// Replaces one storage word and the running count in a single step, so that
/// the two never disagree.
fn store(block: &mut Vec<u8>, count: &mut usize, index: usize, word: u8, n: usize)
    requires
        index < old(block)@.len(),
    ensures
        final(block)@ == old(block)@.update(index as int, word),
        *final(count) == n,
    no_unwind
{
    block[index] = word;
    *count = n;
}

impl Bitvec {
    /// The storage has exactly the words that the capacity needs, and the
    /// running count is the number of set positions.
    #[verifier::type_invariant]
    spec fn inv(&self) -> bool {
        &&& self.block@.len() == words_for(self.capacity as nat)
        &&& self.count == count_ones(self@)
    }

    /// The index in `block` of the word that holds position `bitpos`.
    fn get_vec_index(&self, bitpos: usize) -> (index: usize)
        ensures
            index == word_index(bitpos as int),
    {
        bitpos / WORD_BITS
    }

    /// The word that has only the bit of position `bitpos` raised.
    fn get_bit_mask(&self, bitpos: usize) -> (pos: u8)
        ensures
            pos == mask(bit_offset(bitpos as int)),
    {
        1u8 << ((bitpos % WORD_BITS) as u8)
    }

    /// Makes a set of `num_of_bits` positions, all of them reset.
    pub fn new(num_of_bits: usize) -> (b: Self)
        ensures
            b@ == all_reset(num_of_bits as nat),
            b@.len() == num_of_bits,
            count_ones(b@) == 0,
    {
        let size: usize = if num_of_bits % WORD_BITS == 0 {
            num_of_bits / WORD_BITS
        } else {
            num_of_bits / WORD_BITS + 1
        };
        let block: Vec<u8> = vec![0u8; size];
        proof {
            lemma_flags_of_zero_words(block@, num_of_bits as nat);
            lemma_count_all_reset(num_of_bits as nat);
        }
        Bitvec { block, count: 0, capacity: num_of_bits }
    }

    /// Sets position `bit`. A position the set does not have is refused, and
    /// the set stays as it was.
    pub fn set(&mut self, bit: usize) -> (r: Result<(), OutOfRange>)
        ensures
            r == guard(old(self)@.len(), bit),
            r is Ok <==> bit < old(self)@.len(),
            final(self)@ == set_bit(old(self)@, bit as int),
            r is Ok && !old(self)@[bit as int]
                ==> count_ones(final(self)@) == count_ones(old(self)@) + 1,
            r is Err || old(self)@[bit as int]
                ==> count_ones(final(self)@) == count_ones(old(self)@),
    {
        proof {
            use_type_invariant(&*self);
        }
        if bit >= self.capacity {
            return Err(OutOfRange { bit, capacity: self.capacity });
        }
        let index: usize = self.get_vec_index(bit);
        let pos: u8 = self.get_bit_mask(bit);
        let word: u8 = self.block[index];
        proof {
            lemma_flags_after_or(self.block@, self.capacity as nat, bit as int);
            lemma_count_set(self@, bit as int);
            lemma_count_bounded(set_bit(self@, bit as int));
        }
        let n: usize = if word & pos == 0 {
            self.count + 1
        } else {
            self.count
        };
        store(&mut self.block, &mut self.count, index, word | pos, n);
        Ok(())
    }

    /// Resets position `bit`. A position the set does not have is refused,
    /// and the set stays as it was.
    pub fn reset(&mut self, bit: usize) -> (r: Result<(), OutOfRange>)
        ensures
            r == guard(old(self)@.len(), bit),
            r is Ok <==> bit < old(self)@.len(),
            final(self)@ == reset_bit(old(self)@, bit as int),
            r is Ok && old(self)@[bit as int]
                ==> count_ones(final(self)@) == count_ones(old(self)@) - 1,
            r is Err || !old(self)@[bit as int]
                ==> count_ones(final(self)@) == count_ones(old(self)@),
    {
        proof {
            use_type_invariant(&*self);
        }
        if bit >= self.capacity {
            return Err(OutOfRange { bit, capacity: self.capacity });
        }
        let index: usize = self.get_vec_index(bit);
        let pos: u8 = self.get_bit_mask(bit);
        let word: u8 = self.block[index];
        proof {
            lemma_flags_after_and_not(self.block@, self.capacity as nat, bit as int);
            lemma_count_reset(self@, bit as int);
        }
        let n: usize = if word & pos != 0 {
            self.count - 1
        } else {
            self.count
        };
        store(&mut self.block, &mut self.count, index, word & !pos, n);
        Ok(())
    }

    /// Inverts position `bit`: resets it if it is set, sets it otherwise. A
    /// position the set does not have is refused, and the set stays as it was.
    pub fn flip(&mut self, bit: usize) -> (r: Result<(), OutOfRange>)
        ensures
            r == guard(old(self)@.len(), bit),
            r is Ok <==> bit < old(self)@.len(),
            final(self)@ == flip_bit(old(self)@, bit as int),
            r is Ok && !old(self)@[bit as int]
                ==> count_ones(final(self)@) == count_ones(old(self)@) + 1,
            r is Ok && old(self)@[bit as int]
                ==> count_ones(final(self)@) == count_ones(old(self)@) - 1,
            r is Err ==> count_ones(final(self)@) == count_ones(old(self)@),
    {
        match self.is_set(bit) {
            Ok(true) => self.reset(bit),
            Ok(false) => self.set(bit),
            Err(e) => Err(e),
        }
    }

    /// Tells whether position `bit` is set, or refuses a position the set does
    /// not have.
    pub fn is_set(&self, bit: usize) -> (r: Result<bool, OutOfRange>)
        ensures
            r == query(self@, bit),
            r is Ok <==> bit < self@.len(),
    {
        proof {
            use_type_invariant(&*self);
        }
        if bit >= self.capacity {
            return Err(OutOfRange { bit, capacity: self.capacity });
        }
        let index: usize = self.get_vec_index(bit);
        let pos: u8 = self.get_bit_mask(bit);
        Ok(self.block[index] & pos != 0)
    }

    /// Tells whether position `bit` is reset, or refuses a position the set
    /// does not have.
    pub fn is_reset(&self, bit: usize) -> (r: Result<bool, OutOfRange>)
        ensures
            r == query_reset(self@, bit),
            r is Ok <==> bit < self@.len(),
    {
        match self.is_set(bit) {
            Ok(set) => Ok(!set),
            Err(e) => Err(e),
        }
    }

    /// The number of positions that are set.
    pub fn count(&self) -> (n: usize)
        ensures
            n == count_ones(self@),
            n <= self@.len(),
    {
        proof {
            use_type_invariant(&*self);
            lemma_count_bounded(self@);
        }
        self.count
    }

    /// The number of positions the set has.
    pub fn capacity(&self) -> (n: usize)
        ensures
            n == self@.len(),
    {
        self.capacity
    }
}

} // verus!
