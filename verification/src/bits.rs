//! Arithmetic on positions and on single storage words.

use vstd::prelude::*;

verus! {

/// Number of flags packed into one storage word.
pub const WORD_BITS: usize = 8;

/// Index of the storage word that holds position `bit`.
pub open spec fn word_index(bit: int) -> int {
    bit / WORD_BITS as int
}

/// Place of position `bit` inside its storage word.
pub open spec fn bit_offset(bit: int) -> u8 {
    (bit % WORD_BITS as int) as u8
}

/// The word with only the bit at `offset` raised.
pub open spec fn mask(offset: u8) -> u8 {
    1u8 << offset
}

/// Whether `word` has the bit at `offset` raised.
pub open spec fn has_bit(word: u8, offset: u8) -> bool {
    word & mask(offset) != 0
}

/// Number of storage words needed for `capacity` positions.
pub open spec fn words_for(capacity: nat) -> nat {
    ((capacity + WORD_BITS - 1) / WORD_BITS as int) as nat
}

/// The flags that `words` holds at the first `capacity` positions.
pub open spec fn flags(words: Seq<u8>, capacity: nat) -> Seq<bool> {
    Seq::new(capacity, |i: int| has_bit(words[word_index(i)], bit_offset(i)))
}

/// No bit of the zero word is raised.
pub proof fn lemma_zero_word(offset: u8)
    by (bit_vector)
    requires
        offset < WORD_BITS,
    ensures
        !has_bit(0u8, offset),
{
}

/// OR with a mask raises that bit and leaves the other seven as they were.
pub proof fn lemma_or_mask(word: u8, raised: u8, offset: u8)
    by (bit_vector)
    requires
        raised < WORD_BITS,
        offset < WORD_BITS,
    ensures
        has_bit(word | mask(raised), offset) == (offset == raised || has_bit(word, offset)),
{
}

/// AND with a complemented mask clears that bit and leaves the other seven as
/// they were.
pub proof fn lemma_and_not_mask(word: u8, cleared: u8, offset: u8)
    by (bit_vector)
    requires
        cleared < WORD_BITS,
        offset < WORD_BITS,
    ensures
        has_bit(word & !mask(cleared), offset) == (offset != cleared && has_bit(word, offset)),
{
}

/// Two positions share word and offset only if they are the same position.
pub proof fn lemma_position_unique(a: int, b: int)
    requires
        0 <= a,
        0 <= b,
    ensures
        (word_index(a) == word_index(b) && bit_offset(a) == bit_offset(b)) <==> a == b,
{
}

/// Words that are all zero hold no raised flag.
pub proof fn lemma_flags_of_zero_words(words: Seq<u8>, capacity: nat)
    requires
        words.len() == words_for(capacity),
        forall|k: int| 0 <= k < words.len() ==> words[k] == 0u8,
    ensures
        flags(words, capacity) == Seq::new(capacity, |i: int| false),
{
    assert forall|i: int| 0 <= i < capacity implies !(#[trigger] flags(words, capacity)[i]) by {
        lemma_zero_word(bit_offset(i));
    }
}

/// Raising one bit of the word of position `bit` raises that flag alone.
pub proof fn lemma_flags_after_or(words: Seq<u8>, capacity: nat, bit: int)
    requires
        words.len() == words_for(capacity),
        0 <= bit < capacity,
    ensures
        flags(
            words.update(word_index(bit), words[word_index(bit)] | mask(bit_offset(bit))),
            capacity,
        ) == flags(words, capacity).update(bit, true),
{
    let word = words[word_index(bit)];
    let after = words.update(word_index(bit), word | mask(bit_offset(bit)));
    let expected = flags(words, capacity).update(bit, true);
    assert forall|i: int| 0 <= i < capacity implies #[trigger] flags(after, capacity)[i]
        == expected[i] by {
        lemma_position_unique(i, bit);
        lemma_or_mask(word, bit_offset(bit), bit_offset(i));
    }
}

/// Clearing one bit of the word of position `bit` clears that flag alone.
pub proof fn lemma_flags_after_and_not(words: Seq<u8>, capacity: nat, bit: int)
    requires
        words.len() == words_for(capacity),
        0 <= bit < capacity,
    ensures
        flags(
            words.update(word_index(bit), words[word_index(bit)] & !mask(bit_offset(bit))),
            capacity,
        ) == flags(words, capacity).update(bit, false),
{
    let word = words[word_index(bit)];
    let after = words.update(word_index(bit), word & !mask(bit_offset(bit)));
    let expected = flags(words, capacity).update(bit, false);
    assert forall|i: int| 0 <= i < capacity implies #[trigger] flags(after, capacity)[i]
        == expected[i] by {
        lemma_position_unique(i, bit);
        lemma_and_not_mask(word, bit_offset(bit), bit_offset(i));
    }
}

} // verus!
