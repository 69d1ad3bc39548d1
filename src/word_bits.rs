//! Facts about single bits of a 64-bit word.

use vstd::prelude::*;

verus! {

/// Bit `j` of the word `w` (bit 0 is the least significant).
pub open spec fn word_bit(w: u64, j: u64) -> bool {
    (w >> j) & 1u64 == 1u64
}

/// Setting bit `k` of a word sets that bit and keeps every other one.
pub proof fn lemma_word_set(w: u64, k: u64, j: u64)
    requires
        k < 64,
        j < 64,
    ensures
        word_bit(w | (1u64 << k), j) == (j == k || word_bit(w, j)),
{
    assert(((w | (1u64 << k)) >> j) & 1u64 == 1u64 <==> (j == k || (w >> j) & 1u64 == 1u64))
        by (bit_vector)
        requires
            k < 64,
            j < 64,
    ;
}

/// Clearing bit `k` of a word clears that bit and keeps every other one.
pub proof fn lemma_word_clear(w: u64, k: u64, j: u64)
    requires
        k < 64,
        j < 64,
    ensures
        word_bit(w & !(1u64 << k), j) == (j != k && word_bit(w, j)),
{
    assert(((w & !(1u64 << k)) >> j) & 1u64 == 1u64 <==> (j != k && (w >> j) & 1u64 == 1u64))
        by (bit_vector)
        requires
            k < 64,
            j < 64,
    ;
}

/// No bit of the zero word is set.
pub proof fn lemma_word_zero(j: u64)
    requires
        j < 64,
    ensures
        !word_bit(0u64, j),
{
    assert((0u64 >> j) & 1u64 != 1u64) by (bit_vector);
}

} // verus!
