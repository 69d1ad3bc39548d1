//! The bitmap: a run of bits packed into 64-bit words.

use vstd::prelude::*;

use crate::pow2::{
    is_capacity_for, is_pow2, lemma_pow2_gap, lemma_pow2_words, MAX_REQUEST,
    MIN_BITMAP_SIZE,
};
use crate::word_bits::{lemma_word_clear, lemma_word_set, lemma_word_zero, word_bit};

verus! {

/// Width of a backing word, in bits.
const WORD_BITS: usize = 64;

/// A fixed-capacity set of flags, packed into 64-bit words.
///
/// The capacity is a power of two of at least 64 bits. Bits below
/// `start_bit` are addressable but never handed out by `find_free_slot`.
pub struct Bitmap {
    rounded_size: usize,
    bitmap: Vec<u64>,
    start_bit: usize,
}

/// `i` is the first clear bit of `bits` at or after `from`.
pub open spec fn is_first_free(bits: Seq<bool>, from: int, i: int) -> bool {
    &&& from <= i < bits.len()
    &&& !bits[i]
    &&& forall|j: int| from <= j < i ==> #[trigger] bits[j]
}

/// Every bit of `bits` at or after `from` is set.
pub open spec fn all_taken(bits: Seq<bool>, from: int) -> bool {
    forall|j: int| from <= j < bits.len() ==> #[trigger] bits[j]
}

/// The bits that a run of words holds: bit `i` is bit `i % 64` of word `i / 64`.
pub open spec fn bits_of(words: Seq<u64>, n: nat) -> Seq<bool> {
    Seq::new(n, |i: int| word_bit(words[i / 64], (i % 64) as u64))
}

impl Bitmap {
    /// The bits, in order; the length is the capacity.
    pub closed spec fn view(&self) -> Seq<bool> {
        bits_of(self.bitmap@, self.rounded_size as nat)
    }

    /// The first bit that the free-slot search looks at.
    pub closed spec fn start(&self) -> nat {
        self.start_bit as nat
    }

    /// The number of backing words.
    pub closed spec fn word_count(&self) -> nat {
        self.bitmap@.len()
    }

    /// The capacity is a power of two of at least 64, backed by exactly
    /// enough words, and the search starts inside it.
    pub closed spec fn wf(&self) -> bool {
        &&& is_pow2(self.rounded_size as nat)
        &&& self.rounded_size >= MIN_BITMAP_SIZE
        &&& self.rounded_size % WORD_BITS == 0
        &&& self.bitmap@.len() == self.rounded_size / WORD_BITS
        &&& self.start_bit < self.rounded_size
    }

    /// What every well-formed bitmap satisfies, stated over its view.
    pub proof fn lemma_wf(&self)
        requires
            self.wf(),
        ensures
            is_pow2(self@.len()),
            self@.len() >= 64,
            self@.len() % 64 == 0,
            self.word_count() == self@.len() / 64,
            self.word_count() * 64 == self@.len(),
            self.start() < self@.len(),
    {
    }

    /// Rounds `s` up to the smallest power of two that is at least `s`.
    fn roundup_pow_of_two(s: usize) -> (r: usize)
        requires
            s <= MAX_REQUEST,
        ensures
            is_pow2(r as nat),
            r >= s,
            forall|q: nat| #[trigger] is_pow2(q) && q >= s ==> r <= q,
    {
        let mut p: usize = 1;
        while p < s
            invariant
                is_pow2(p as nat),
                p == 1 || p / 2 < s,
                s <= MAX_REQUEST,
            decreases usize::MAX - p,
        {
            p = p * 2;
            assert(is_pow2(p as nat));
        }
        proof {
            assert forall|q: nat| #[trigger] is_pow2(q) && q >= s implies p <= q by {
                if q < p {
                    lemma_pow2_gap(q, p as nat);
                }
            }
        }
        p
    }

    /// A bitmap of at least `size` bits, all clear, rounded up to the
    /// smallest power of two that is at least `max(size, 64)`.
    pub fn new(size: usize) -> (r: Self)
        requires
            size <= MAX_REQUEST,
        ensures
            r.wf(),
            is_capacity_for(size as nat, r@.len()),
            forall|i: int| 0 <= i < r@.len() ==> !#[trigger] r@[i],
            r.start() == 0,
    {
        let size: usize = if size < MIN_BITMAP_SIZE {
            MIN_BITMAP_SIZE
        } else {
            size
        };
        let rounded_size = Self::roundup_pow_of_two(size);
        proof {
            lemma_pow2_words(rounded_size as nat);
        }
        let words: usize = rounded_size / WORD_BITS;
        let bitmap: Vec<u64> = vec![0u64; words];
        let r = Bitmap { rounded_size, bitmap, start_bit: 0 };
        proof {
            assert forall|i: int| 0 <= i < r@.len() implies !#[trigger] r@[i] by {
                assert(bitmap@[i / 64] == 0u64);
                lemma_word_zero((i % 64) as u64);
            }
        }
        r
    }

    /// A bitmap as `new(size)` makes it, whose free-slot search skips the
    /// first `reserved_space` bits.
    pub fn new_with_reserved(size: usize, reserved_space: usize) -> (r: Self)
        requires
            reserved_space < size,
            size <= MAX_REQUEST,
        ensures
            r.wf(),
            is_capacity_for(size as nat, r@.len()),
            forall|i: int| 0 <= i < r@.len() ==> !#[trigger] r@[i],
            r.start() == reserved_space,
    {
        let mut instance = Self::new(size);
        instance.start_bit = reserved_space;
        instance
    }

    /// Sets bit `bit` and leaves every other bit as it was.
    pub fn set_bit(&mut self, bit: usize)
        requires
            old(self).wf(),
            bit < old(self)@.len(),
        ensures
            final(self).wf(),
            final(self)@ == old(self)@.update(bit as int, true),
            final(self).start() == old(self).start(),
    {
        let index: usize = bit / WORD_BITS;
        let offset: u64 = (bit % WORD_BITS) as u64;
        let word: u64 = self.bitmap[index] | (1u64 << offset);
        self.bitmap.set(index, word);
        proof {
            assert forall|i: int| 0 <= i < self@.len() implies #[trigger] self@[i] == old(
                self,
            )@.update(bit as int, true)[i] by {
                if i / 64 == index as int {
                    lemma_word_set(old(self).bitmap@[index as int], offset, (i % 64) as u64);
                }
            }
            assert(self@ =~= old(self)@.update(bit as int, true));
        }
    }

    /// Clears bit `bit` and leaves every other bit as it was.
    pub fn unset_bit(&mut self, bit: usize)
        requires
            old(self).wf(),
            bit < old(self)@.len(),
        ensures
            final(self).wf(),
            final(self)@ == old(self)@.update(bit as int, false),
            final(self).start() == old(self).start(),
    {
        let index: usize = bit / WORD_BITS;
        let offset: u64 = (bit % WORD_BITS) as u64;
        let word: u64 = self.bitmap[index] & !(1u64 << offset);
        self.bitmap.set(index, word);
        proof {
            assert forall|i: int| 0 <= i < self@.len() implies #[trigger] self@[i] == old(
                self,
            )@.update(bit as int, false)[i] by {
                if i / 64 == index as int {
                    lemma_word_clear(old(self).bitmap@[index as int], offset, (i % 64) as u64);
                }
            }
            assert(self@ =~= old(self)@.update(bit as int, false));
        }
    }

    /// Whether bit `bit` is set.
    pub fn is_set(&self, bit: usize) -> (r: bool)
        requires
            self.wf(),
            bit < self@.len(),
        ensures
            r == self@[bit as int],
    {
        let index: usize = bit / WORD_BITS;
        let offset: u64 = (bit % WORD_BITS) as u64;
        (self.bitmap[index] >> offset) & 1u64 == 1u64
    }

    /// The first clear bit at or after the search start, if there is one.
    pub fn find_free_slot(&self) -> (r: Option<usize>)
        requires
            self.wf(),
        ensures
            match r {
                Some(i) => is_first_free(self@, self.start() as int, i as int),
                None => all_taken(self@, self.start() as int),
            },
    {
        let mut bit: usize = self.start_bit;
        while bit < self.rounded_size
            invariant
                self.wf(),
                self.start_bit <= bit <= self.rounded_size,
                forall|j: int| self.start_bit <= j < bit ==> #[trigger] self@[j],
            decreases self.rounded_size - bit,
        {
            let index: usize = bit / WORD_BITS;
            let offset: u64 = (bit % WORD_BITS) as u64;
            if (self.bitmap[index] >> offset) & 1u64 == 0u64 {
                proof {
                    let w = self.bitmap@[index as int];
                    assert((w >> offset) & 1u64 == 0u64 ==> (w >> offset) & 1u64 != 1u64)
                        by (bit_vector);
                }
                return Some(bit);
            }
            proof {
                let w = self.bitmap@[index as int];
                assert((w >> offset) & 1u64 != 0u64 ==> (w >> offset) & 1u64 == 1u64)
                    by (bit_vector);
            }
            bit = bit + 1;
        }
        None
    }

    /// The capacity, in bits.
    pub fn bit_size(&self) -> (r: usize)
        ensures
            r == self@.len(),
    {
        self.rounded_size
    }

    /// The number of 64-bit words that back the bitmap.
    pub fn size(&self) -> (r: usize)
        requires
            self.wf(),
        ensures
            r == self.word_count(),
            r == self@.len() / 64,
    {
        self.bitmap.len()
    }
}

} // verus!
