//! One-hot bitmap representation of a column's log-size.
//!
//! Inside a circuit a runtime log-size cannot drive control flow, so it is
//! carried as one boolean signal per admissible value, with the invariant
//! that exactly one of them is set. Every dispatch on the log-size is then a
//! selection through these bits rather than a branch.
use vstd::prelude::*;

verus! {

/// Exactly one position `k` of `s` is set, and it is `k`.
pub open spec fn one_hot(s: Seq<bool>, k: int) -> bool {
    &&& 0 <= k < s.len()
    &&& forall|j: int| 0 <= j < s.len() ==> (s[j] <==> j == k)
}

/// A log-size in the admissible range `[min_log_size, min_log_size + n - 1]`,
/// held as `n` one-hot bits; bit `i` stands for log-size `min_log_size + i`.
pub struct LogSizeBitmap {
    pub min_log_size: u32,
    pub bits: Vec<bool>,
}

impl LogSizeBitmap {
    /// Exactly one bit is set.
    pub open spec fn wf(self) -> bool {
        exists|k: int| one_hot(self.bits@, k)
    }

    /// The offset of the set bit within the admissible range.
    pub open spec fn active_offset(self) -> int {
        choose|k: int| one_hot(self.bits@, k)
    }

    /// The log-size this bitmap stands for.
    pub open spec fn active_log_size(self) -> int {
        self.min_log_size + self.active_offset()
    }

    /// Builds the bitmap for the concrete value `log_size` over the
    /// admissible range `[min_log_size, max_log_size]`: the bit at
    /// `log_size - min_log_size` is set and every other bit is clear.
    pub fn new(min_log_size: u32, max_log_size: u32, log_size: u32) -> (r: LogSizeBitmap)
        requires
            min_log_size <= log_size <= max_log_size,
            max_log_size - min_log_size + 1 <= usize::MAX,
        ensures
            r.wf(),
            r.min_log_size == min_log_size,
            r.bits@.len() == max_log_size - min_log_size + 1,
            one_hot(r.bits@, log_size - min_log_size),
            r.active_log_size() == log_size,
    {
        let n: usize = (max_log_size - min_log_size) as usize + 1;
        let mut bits: Vec<bool> = Vec::new();
        let mut i: usize = 0;
        while i < n
            invariant
                i <= n,
                n == max_log_size - min_log_size + 1,
                min_log_size <= log_size <= max_log_size,
                bits@.len() == i,
                forall|j: int|
                    0 <= j < i ==> (bits@[j] <==> j == log_size - min_log_size),
            decreases n - i,
        {
            bits.push(min_log_size as u64 + i as u64 == log_size as u64);
            i += 1;
        }
        let r = LogSizeBitmap { min_log_size, bits };
        proof {
            let k = log_size - min_log_size;
            assert(one_hot(r.bits@, k));
            lemma_one_hot_unique(r.bits@, k, r.active_offset());
        }
        r
    }

    /// Reads the bit for the `offset`-th admissible log-size.
    pub fn bit(&self, offset: usize) -> (b: bool)
        requires
            offset < self.bits@.len(),
        ensures
            b == self.bits@[offset as int],
    {
        self.bits[offset]
    }

    /// The number of admissible log-sizes this bitmap ranges over.
    pub fn len(&self) -> (n: usize)
        ensures
            n == self.bits@.len(),
    {
        self.bits.len()
    }
}

/// A one-hot sequence has a single set position: any two witnesses agree.
pub proof fn lemma_one_hot_unique(s: Seq<bool>, k1: int, k2: int)
    requires
        one_hot(s, k1),
        one_hot(s, k2),
    ensures
        k1 == k2,
{
    assert(s[k1]);
}

} // verus!
