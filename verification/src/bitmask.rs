//! A dense 256-bit mask, sized to one chunk's tile count.
//!
//! Backs the per-chunk solid and opaque caches: one bit per cell, with
//! constant-time get and set and a bulk bitwise-or merge.
use vstd::prelude::*;
use vstd::arithmetic::div_mod::{lemma_fundamental_div_mod, lemma_mod_bound};

verus! {

/// A 256-bit mask stored as four 64-bit words.
#[derive(Clone, Debug)]
pub struct BitMask256 {
    pub data: Vec<u64>,
}

/// In a zero word every bit reads as clear.
pub(crate) proof fn lemma_zero_word_bits()
    by (bit_vector)
    ensures
        forall|s: u64| s < 64 ==> #[trigger] ((0u64 >> s) & 1u64) == 0u64,
{
}

/// Setting bit `k` of a word leaves every bit `j != k` as it was and
/// makes bit `k` read as `value`.
pub(crate) proof fn lemma_word_set_bit(w: u64, nw: u64, k: u64, j: u64, value: bool)
    requires
        k < 64,
        j < 64,
        nw == if value {
            w | (1u64 << k)
        } else {
            w & !(1u64 << k)
        },
    ensures
        ((nw >> j) & 1u64 == 1u64) == if j == k {
            value
        } else {
            (w >> j) & 1u64 == 1u64
        },
{
    if value {
        assert((j == k ==> ((w | (1u64 << k)) >> j) & 1u64 == 1u64) && (j != k ==> ((w | (1u64
            << k)) >> j) & 1u64 == (w >> j) & 1u64)) by (bit_vector)
            requires
                k < 64,
                j < 64,
        ;
    } else {
        assert((j == k ==> ((w & !(1u64 << k)) >> j) & 1u64 == 0u64) && (j != k ==> ((w & !(1u64
            << k)) >> j) & 1u64 == (w >> j) & 1u64)) by (bit_vector)
            requires
                k < 64,
                j < 64,
        ;
    }
}

/// A bit of the bitwise or of two words is the disjunction of their bits.
pub(crate) proof fn lemma_word_or_bit(a: u64, b: u64, j: u64)
    requires
        j < 64,
    ensures
        (((a | b) >> j) & 1u64 == 1u64) == ((a >> j) & 1u64 == 1u64 || (b >> j) & 1u64 == 1u64),
{
    assert((((a | b) >> j) & 1u64 == 1u64) == ((a >> j) & 1u64 == 1u64 || (b >> j) & 1u64 == 1u64))
        by (bit_vector)
        requires
            j < 64,
    ;
}

impl BitMask256 {
    /// The mask holds exactly four words.
    pub open spec fn wf(self) -> bool {
        self.data@.len() == 4
    }

    /// The value of bit `i`, for `i` in 0..256.
    pub open spec fn spec_bit(self, i: int) -> bool {
        (self.data@[i / 64] >> ((i % 64) as u64)) & 1u64 == 1u64
    }

    /// An all-clear mask.
    pub fn new() -> (r: BitMask256)
        ensures
            r.wf(),
            forall|j: int| 0 <= j < 256 ==> !r.spec_bit(j),
    {
        let r = BitMask256 { data: vec![0u64, 0u64, 0u64, 0u64] };
        proof {
            lemma_zero_word_bits();
            assert forall|j: int| 0 <= j < 256 implies !r.spec_bit(j) by {
                lemma_fundamental_div_mod(j, 64);
                lemma_mod_bound(j, 64);
            }
        }
        r
    }

    /// Sets bit `idx` to `value`; every other bit is unchanged.
    pub fn set(&mut self, idx: usize, value: bool)
        requires
            old(self).wf(),
            idx < 256,
        ensures
            final(self).wf(),
            forall|j: int|
                0 <= j < 256 ==> final(self).spec_bit(j) == if j == idx {
                    value
                } else {
                    old(self).spec_bit(j)
                },
    {
        let block: usize = idx / 64;
        let shift: u64 = (idx % 64) as u64;
        let w: u64 = self.data[block];
        let nw: u64 = if value {
            w | (1u64 << shift)
        } else {
            w & !(1u64 << shift)
        };
        self.data[block] = nw;
        proof {
            assert forall|j: int|
                0 <= j < 256 implies self.spec_bit(j) == if j == idx {
                    value
                } else {
                    old(self).spec_bit(j)
                } by {
                lemma_fundamental_div_mod(j, 64);
                lemma_mod_bound(j, 64);
                if j / 64 == block {
                    lemma_word_set_bit(w, nw, shift, (j % 64) as u64, value);
                }
            }
        }
    }

    /// Reads bit `idx`.
    pub fn get(&self, idx: usize) -> (r: bool)
        requires
            self.wf(),
            idx < 256,
        ensures
            r == self.spec_bit(idx as int),
    {
        let block: usize = idx / 64;
        let shift: u64 = (idx % 64) as u64;
        (self.data[block] >> shift) & 1 == 1
    }

    /// Ors `other` into `self`: afterwards a bit is set exactly when it
    /// was set in either mask.
    pub fn merge(&mut self, other: &BitMask256)
        requires
            old(self).wf(),
            other.wf(),
        ensures
            final(self).wf(),
            forall|j: int|
                0 <= j < 256 ==> final(self).spec_bit(j) == (old(self).spec_bit(j)
                    || other.spec_bit(j)),
    {
        let ghost pre = *self;
        let mut i: usize = 0;
        while i < 4
            invariant
                0 <= i <= 4,
                self.data@.len() == 4,
                other.wf(),
                pre.wf(),
                forall|b: int| 0 <= b < i ==> self.data@[b] == (pre.data@[b] | other.data@[b]),
                forall|b: int| i <= b < 4 ==> self.data@[b] == pre.data@[b],
            decreases 4 - i,
        {
            let w: u64 = self.data[i] | other.data[i];
            self.data[i] = w;
            i = i + 1;
        }
        proof {
            assert forall|j: int|
                0 <= j < 256 implies self.spec_bit(j) == (pre.spec_bit(j) || other.spec_bit(
                j,
            )) by {
                lemma_fundamental_div_mod(j, 64);
                lemma_mod_bound(j, 64);
                lemma_word_or_bit(pre.data@[j / 64], other.data@[j / 64], (j % 64) as u64);
            }
        }
    }

    /// Makes `self` an exact copy of `other`.
    pub fn copy_from(&mut self, other: &BitMask256)
        requires
            old(self).wf(),
            other.wf(),
        ensures
            final(self).wf(),
            final(self).data@ == other.data@,
            forall|j: int| 0 <= j < 256 ==> final(self).spec_bit(j) == other.spec_bit(j),
    {
        let w0: u64 = other.data[0];
        let w1: u64 = other.data[1];
        let w2: u64 = other.data[2];
        let w3: u64 = other.data[3];
        self.data[0] = w0;
        self.data[1] = w1;
        self.data[2] = w2;
        self.data[3] = w3;
        proof {
            assert(self.data@ =~= other.data@);
        }
    }
}

impl Default for BitMask256 {
    /// An all-clear mask.
    fn default() -> (r: BitMask256)
        ensures
            r.wf(),
            forall|j: int| 0 <= j < 256 ==> !r.spec_bit(j),
    {
        BitMask256::new()
    }
}

} // verus!
