//! Powers of two, and the capacity a requested size rounds up to.

use vstd::prelude::*;

verus! {

/// The smallest capacity a bitmap has, in bits.
pub const MIN_BITMAP_SIZE: usize = 64;

/// The largest requested size whose rounded capacity still fits a `usize`.
pub const MAX_REQUEST: usize = usize::MAX / 2 + 1;

/// `n` is a power of two.
pub open spec fn is_pow2(n: nat) -> bool
    decreases n,
{
    if n == 1 {
        true
    } else if n < 2 || n % 2 != 0 {
        false
    } else {
        is_pow2(n / 2)
    }
}

/// A requested size raised to the minimum capacity.
pub open spec fn clamped(s: nat) -> nat {
    if s < MIN_BITMAP_SIZE {
        MIN_BITMAP_SIZE as nat
    } else {
        s
    }
}

/// `c` is the smallest power of two that is at least `clamped(s)`.
pub open spec fn is_capacity_for(s: nat, c: nat) -> bool {
    &&& is_pow2(c)
    &&& c >= clamped(s)
    &&& forall|p: nat| #[trigger] is_pow2(p) && p >= clamped(s) ==> c <= p
}

/// Of two distinct powers of two, the larger is at least twice the smaller.
pub proof fn lemma_pow2_gap(a: nat, b: nat)
    requires
        is_pow2(a),
        is_pow2(b),
        a < b,
    ensures
        2 * a <= b,
    decreases a,
{
    if a != 1 {
        lemma_pow2_gap(a / 2, b / 2);
    }
}

/// A power of two of at least 64 is a whole number of 64-bit words.
pub proof fn lemma_pow2_words(n: nat)
    requires
        is_pow2(n),
        n >= 64,
    ensures
        n % 64 == 0,
    decreases n,
{
    if n != 64 {
        reveal_with_fuel(is_pow2, 7);
        assert(is_pow2(64));
        lemma_pow2_gap(64, n);
        lemma_pow2_words(n / 2);
    }
}

/// The rounded capacity for a request is unique.
pub proof fn lemma_capacity_unique(s: nat, c1: nat, c2: nat)
    requires
        is_capacity_for(s, c1),
        is_capacity_for(s, c2),
    ensures
        c1 == c2,
{
    assert(c1 <= c2);
    assert(c2 <= c1);
}

} // verus!
