//! Properties that hold across the bitmap's operations.

use vstd::prelude::*;

use crate::bitmap::{all_taken, is_first_free, Bitmap};
use crate::pow2::{is_capacity_for, is_pow2};

verus! {

/// Any request of at most 64 bits gets a capacity of exactly 64 bits.
pub proof fn lemma_small_request(s: nat)
    requires
        s <= 64,
    ensures
        is_capacity_for(s, 64),
{
    reveal_with_fuel(is_pow2, 7);
    assert(is_pow2(64));
}

/// The backing storage is exactly the capacity divided into 64-bit words,
/// with nothing left over.
pub proof fn lemma_size_exact(b: &Bitmap)
    requires
        b.wf(),
    ensures
        b@.len() % 64 == 0,
        b.word_count() == b@.len() / 64,
{
    b.lemma_wf();
}

/// Right after a bit is set it reads as set, and right after it is cleared
/// it reads as clear.
pub proof fn lemma_set_then_test(b: &Bitmap, i: int)
    requires
        b.wf(),
        0 <= i < b@.len(),
    ensures
        b@.update(i, true)[i],
        !b@.update(i, false)[i],
{
}

/// Setting a bit twice leaves the same bits as setting it once, and the same
/// holds of clearing.
pub proof fn lemma_idempotent(b: &Bitmap, i: int)
    requires
        b.wf(),
        0 <= i < b@.len(),
    ensures
        b@.update(i, true).update(i, true) == b@.update(i, true),
        b@.update(i, false).update(i, false) == b@.update(i, false),
{
    assert(b@.update(i, true).update(i, true) =~= b@.update(i, true));
    assert(b@.update(i, false).update(i, false) =~= b@.update(i, false));
}

/// A slot found by the search lies in `[start, capacity)`.
pub proof fn lemma_found_in_range(b: &Bitmap, i: int)
    requires
        b.wf(),
        is_first_free(b@, b.start() as int, i),
    ensures
        b.start() <= i < b@.len(),
{
}

/// The search has exactly one answer: at most one index is the first free
/// one, and there is one unless every searched bit is set.
pub proof fn lemma_first_free_unique(bits: Seq<bool>, from: int, i: int, k: int)
    requires
        is_first_free(bits, from, i),
        is_first_free(bits, from, k),
    ensures
        i == k,
        !all_taken(bits, from),
{
    assert(!bits[i]);
}

/// If not every searched bit is set, some index is the first free one.
pub proof fn lemma_first_free_exists(bits: Seq<bool>, from: int)
    requires
        0 <= from,
        !all_taken(bits, from),
    ensures
        exists|i: int| #[trigger] is_first_free(bits, from, i),
    decreases bits.len() - from,
{
    if from < bits.len() && !bits[from] {
        assert(is_first_free(bits, from, from));
    } else {
        lemma_first_free_exists(bits, from + 1);
        let i = choose|i: int| #[trigger] is_first_free(bits, from + 1, i);
        assert(is_first_free(bits, from, i));
    }
}

/// The reserved prefix is never handed out: on a bitmap with every bit clear
/// the search answers its start, and on any bitmap no index below the start.
pub proof fn lemma_reserved_prefix(b: &Bitmap, i: int)
    requires
        b.wf(),
        forall|j: int| 0 <= j < b@.len() ==> !#[trigger] b@[j],
    ensures
        is_first_free(b@, b.start() as int, b.start() as int),
        is_first_free(b@, b.start() as int, i) ==> i == b.start(),
{
    b.lemma_wf();
    if is_first_free(b@, b.start() as int, i) {
        lemma_first_free_unique(b@, b.start() as int, i, b.start() as int);
    }
}

} // verus!
