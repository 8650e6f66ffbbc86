//! Aggregation of queried column values into per-log-size hashes, for the
//! decommitment stage.
//!
//! Each component hands its queried base-field columns to the hasher, which
//! folds their hash into the running hash of the component's log-size —
//! through the one-hot bitmap when the log-size is runtime-dependent, so
//! every bucket computes the mixed result and keeps or discards it by
//! selection. The finished buckets, one per admissible log-size with a
//! presence flag, feed the Merkle decommitment checks.
use vstd::prelude::*;
use crate::bitmap::LogSizeBitmap;
use crate::field::M31;
use crate::merkle::{HashDigest, node_hash, node_hash_spec, mix_column_spec,
    combine_hash_tree_with_column};
use crate::quotients::{LogSizeSel, m31s_wf, m31_views};

verus! {

/// The state after absorbing one base-field value: it enters through the
/// first lane, the rest stay zero.
pub open spec fn absorb_base_spec(state: Seq<int>, v: int) -> Seq<int> {
    node_hash_spec(state, seq![v, 0int, 0int, 0int, 0int, 0int, 0int, 0int])
}

/// The hash of a base-field column list, absorbed in order from the zero
/// state.
pub open spec fn base_column_hash_spec(vals: Seq<int>) -> Seq<int>
    decreases vals.len(),
{
    if vals.len() == 0 {
        Seq::new(8, |i: int| 0int)
    } else {
        absorb_base_spec(base_column_hash_spec(vals.drop_last()), vals.last())
    }
}

/// Hashes a list of queried base-field column values.
pub fn hash_base_columns(values: &Vec<M31>) -> (r: HashDigest)
    requires
        m31s_wf(values@),
    ensures
        r.wf(),
        r@ == base_column_hash_spec(m31_views(values@)),
{
    let ghost vs = m31_views(values@);
    let mut state = zero_digest();
    proof {
        assert(vs.subrange(0, 0) =~= Seq::<int>::empty());
    }
    let n = values.len();
    let mut i: usize = 0;
    while i < n
        invariant
            m31s_wf(values@),
            n == values@.len(),
            vs == m31_views(values@),
            i <= n,
            state.wf(),
            state@ == base_column_hash_spec(vs.subrange(0, i as int)),
        decreases n - i,
    {
        let embedded = embed_base(values[i]);
        proof {
            let sub1 = vs.subrange(0, i as int + 1);
            assert(sub1.drop_last() =~= vs.subrange(0, i as int));
            assert(sub1.last() == vs[i as int]);
        }
        state = node_hash(&state, &embedded);
        i += 1;
    }
    proof {
        assert(vs.subrange(0, n as int) =~= vs);
    }
    state
}

/// The all-zero state.
fn zero_digest() -> (r: HashDigest)
    ensures
        r.wf(),
        r@ == Seq::new(8, |i: int| 0int),
{
    let mut lanes: Vec<M31> = Vec::new();
    let mut i: usize = 0;
    while i < 8
        invariant
            i <= 8,
            lanes@.len() == i,
            forall|t: int| 0 <= t < i ==> #[trigger] lanes@[t] == (M31 { v: 0u32 }),
        decreases 8 - i,
    {
        lanes.push(M31::zero());
        i += 1;
    }
    let r = HashDigest { lanes };
    proof {
        assert(r@ =~= Seq::new(8, |i: int| 0int));
    }
    r
}

/// One base-field value in the first lane.
fn embed_base(v: M31) -> (r: HashDigest)
    requires
        v.wf(),
    ensures
        r.wf(),
        r@ == seq![v@, 0int, 0int, 0int, 0int, 0int, 0int, 0int],
{
    let mut lanes: Vec<M31> = Vec::new();
    lanes.push(v);
    lanes.push(M31::zero());
    lanes.push(M31::zero());
    lanes.push(M31::zero());
    lanes.push(M31::zero());
    lanes.push(M31::zero());
    lanes.push(M31::zero());
    lanes.push(M31::zero());
    let r = HashDigest { lanes };
    proof {
        assert(r@ =~= seq![v@, 0int, 0int, 0int, 0int, 0int, 0int, 0int]);
    }
    r
}

/// The running per-log-size column hashes: slot `o` belongs to log-size
/// `min_log_size + o` and holds a presence flag with the hash folded so
/// far.
pub struct ColumnsHasher {
    pub min_log_size: u32,
    pub max_log_size: u32,
    pub buckets: Vec<(bool, HashDigest)>,
}

/// One bucket after a column hash lands on it: an empty bucket starts at
/// the column hash, a filled one mixes it in.
pub open spec fn bucket_absorb(b: (bool, Seq<int>), ch: Seq<int>) -> (bool, Seq<int>) {
    (true, if b.0 {
        mix_column_spec(b.1, ch)
    } else {
        ch
    })
}

impl ColumnsHasher {
    pub open spec fn n_buckets(self) -> int {
        self.max_log_size - self.min_log_size + 1
    }

    /// The spec value of slot `o`.
    pub open spec fn bucket_at(self, o: int) -> (bool, Seq<int>) {
        (self.buckets@[o].0, self.buckets@[o].1@)
    }

    pub open spec fn wf(self) -> bool {
        &&& self.min_log_size <= self.max_log_size
        &&& self.buckets@.len() == self.n_buckets()
        &&& forall|o: int| 0 <= o < self.n_buckets() ==> (#[trigger] self.buckets@[o]).1.wf()
    }

    /// A fresh hasher: every bucket empty.
    pub fn new(min_log_size: u32, max_log_size: u32) -> (r: ColumnsHasher)
        requires
            min_log_size <= max_log_size,
            max_log_size - min_log_size + 1 <= usize::MAX,
        ensures
            r.wf(),
            r.min_log_size == min_log_size,
            r.max_log_size == max_log_size,
            forall|o: int| 0 <= o < r.n_buckets() ==> !(#[trigger] r.bucket_at(o)).0,
    {
        let n: usize = (max_log_size - min_log_size) as usize + 1;
        let mut buckets: Vec<(bool, HashDigest)> = Vec::new();
        let mut o: usize = 0;
        while o < n
            invariant
                o <= n,
                buckets@.len() == o,
                forall|t: int|
                    0 <= t < o ==> !(#[trigger] buckets@[t]).0 && buckets@[t].1.wf(),
            decreases n - o,
        {
            buckets.push((false, zero_digest()));
            o += 1;
        }
        ColumnsHasher { min_log_size, max_log_size, buckets }
    }

    /// Folds a component's column hash into the bucket selected by the
    /// one-hot bitmap; every bucket computes the mixed result and keeps or
    /// discards it by its bit.
    pub fn update(&mut self, log_size: &LogSizeBitmap, columns: &Vec<M31>)
        requires
            old(self).wf(),
            log_size.wf(),
            log_size.min_log_size == old(self).min_log_size,
            log_size.bits@.len() == old(self).n_buckets(),
            m31s_wf(columns@),
        ensures
            final(self).wf(),
            final(self).min_log_size == old(self).min_log_size,
            final(self).max_log_size == old(self).max_log_size,
            forall|o: int|
                0 <= o < old(self).n_buckets() && o != log_size.active_offset()
                    ==> #[trigger] final(self).bucket_at(o) == old(self).bucket_at(o),
            final(self).bucket_at(log_size.active_offset()) == bucket_absorb(
                old(self).bucket_at(log_size.active_offset()),
                base_column_hash_spec(m31_views(columns@)),
            ),
    {
        let column_hash = hash_base_columns(columns);
        let n = self.buckets.len();
        let ghost k = log_size.active_offset();
        proof {
            assert(crate::bitmap::one_hot(log_size.bits@, k));
        }
        let mut o: usize = 0;
        while o < n
            invariant
                old(self).wf(),
                log_size.wf(),
                crate::bitmap::one_hot(log_size.bits@, k),
                log_size.bits@.len() == old(self).n_buckets(),
                n == old(self).n_buckets(),
                self.min_log_size == old(self).min_log_size,
                self.max_log_size == old(self).max_log_size,
                self.buckets@.len() == n,
                column_hash.wf(),
                column_hash@ == base_column_hash_spec(m31_views(columns@)),
                o <= n,
                forall|t: int|
                    0 <= t < n ==> (#[trigger] self.buckets@[t]).1.wf(),
                forall|t: int|
                    o <= t < n ==> (#[trigger] self.buckets@[t]).0 == old(self).buckets@[t].0
                        && self.buckets@[t].1@ == old(self).buckets@[t].1@,
                forall|t: int|
                    0 <= t < o && t != k ==> (#[trigger] self.buckets@[t]).0 == old(
                        self,
                    ).buckets@[t].0 && self.buckets@[t].1@ == old(self).buckets@[t].1@,
                o > k ==> (self.buckets@[k].0, self.buckets@[k].1@) == bucket_absorb(
                    (old(self).buckets@[k].0, old(self).buckets@[k].1@),
                    column_hash@,
                ),
            decreases n - o,
        {
            let bit = log_size.bit(o);
            let present = self.buckets[o].0;
            let mixed = if present {
                combine_hash_tree_with_column(&self.buckets[o].1, &column_hash)
            } else {
                column_hash.dup()
            };
            let chosen = self.buckets[o].1.select(&mixed, bit);
            let new_present = present || bit;
            self.buckets.set(o, (new_present, chosen));
            proof {
                assert(bit <==> o == k);
            }
            o += 1;
        }
    }

    /// Folds a component's column hash directly into the bucket of a
    /// statically-known log-size.
    pub fn update_fixed_log_size(&mut self, log_size: u32, columns: &Vec<M31>)
        requires
            old(self).wf(),
            old(self).min_log_size <= log_size <= old(self).max_log_size,
            m31s_wf(columns@),
        ensures
            final(self).wf(),
            final(self).min_log_size == old(self).min_log_size,
            final(self).max_log_size == old(self).max_log_size,
            forall|o: int|
                0 <= o < old(self).n_buckets() && o != log_size - old(self).min_log_size
                    ==> #[trigger] final(self).bucket_at(o) == old(self).bucket_at(o),
            final(self).bucket_at(log_size - old(self).min_log_size) == bucket_absorb(
                old(self).bucket_at(log_size - old(self).min_log_size),
                base_column_hash_spec(m31_views(columns@)),
            ),
    {
        let column_hash = hash_base_columns(columns);
        let o: usize = (log_size - self.min_log_size) as usize;
        let present = self.buckets[o].0;
        let mixed = if present {
            combine_hash_tree_with_column(&self.buckets[o].1, &column_hash)
        } else {
            column_hash
        };
        self.buckets.set(o, (true, mixed));
    }

    /// The finished buckets: per admissible log-size, whether any columns
    /// landed there and the hash folded from them, largest log-size first
    /// as the decommitment stage reads them.
    pub fn finalize(&self) -> (r: Vec<(bool, HashDigest)>)
        requires
            self.wf(),
        ensures
            r@.len() == self.n_buckets(),
            forall|j: int|
                0 <= j < r@.len() ==> ((#[trigger] r@[j]).0, r@[j].1@) == self.bucket_at(
                    self.n_buckets() - 1 - j,
                ) && r@[j].1.wf(),
    {
        let n = self.buckets.len();
        let mut out: Vec<(bool, HashDigest)> = Vec::new();
        let mut j: usize = 0;
        while j < n
            invariant
                self.wf(),
                n == self.n_buckets(),
                j <= n,
                out@.len() == j,
                forall|t: int|
                    0 <= t < j ==> ((#[trigger] out@[t]).0, out@[t].1@) == self.bucket_at(
                        n - 1 - t,
                    ) && out@[t].1.wf(),
            decreases n - j,
        {
            let slot = &self.buckets[n - 1 - j];
            out.push((slot.0, slot.1.dup()));
            j += 1;
        }
        out
    }
}

/// The spec values of every bucket, in slot order.
pub open spec fn buckets_view(h: ColumnsHasher) -> Seq<(bool, Seq<int>)> {
    Seq::new(h.n_buckets() as nat, |o: int| h.bucket_at(o))
}

/// The buckets after one component's columns land on its log-size.
pub open spec fn buckets_after_component(
    bks: Seq<(bool, Seq<int>)>,
    min: u32,
    c: (LogSizeSel, Vec<M31>),
) -> Seq<(bool, Seq<int>)> {
    let o = c.0.log_size() - min;
    bks.update(o, bucket_absorb(bks[o], base_column_hash_spec(m31_views(c.1@))))
}

/// The buckets after a whole component list, in order.
pub open spec fn buckets_after_components(
    bks: Seq<(bool, Seq<int>)>,
    min: u32,
    cs: Seq<(LogSizeSel, Vec<M31>)>,
) -> Seq<(bool, Seq<int>)>
    decreases cs.len(),
{
    if cs.len() == 0 {
        bks
    } else {
        buckets_after_component(
            buckets_after_components(bks, min, cs.drop_last()),
            min,
            cs.last(),
        )
    }
}

/// Feeds every component's columns to the hasher in the declared order:
/// the whole per-query column-hash computation of the decommitment stage.
pub fn compute_column_hashes(
    hasher: &mut ColumnsHasher,
    components: &Vec<(LogSizeSel, Vec<M31>)>,
)
    requires
        old(hasher).wf(),
        forall|i: int|
            0 <= i < components@.len() ==> (#[trigger] components@[i]).0.wf(
                old(hasher).min_log_size,
                old(hasher).max_log_size,
            ) && m31s_wf(components@[i].1@),
    ensures
        final(hasher).wf(),
        final(hasher).min_log_size == old(hasher).min_log_size,
        final(hasher).max_log_size == old(hasher).max_log_size,
        buckets_view(*final(hasher)) == buckets_after_components(
            buckets_view(*old(hasher)),
            old(hasher).min_log_size,
            components@,
        ),
{
    let n = components.len();
    let mut i: usize = 0;
    proof {
        assert(components@.subrange(0, 0) =~= Seq::<(LogSizeSel, Vec<M31>)>::empty());
    }
    while i < n
        invariant
            n == components@.len(),
            hasher.wf(),
            hasher.min_log_size == old(hasher).min_log_size,
            hasher.max_log_size == old(hasher).max_log_size,
            forall|t: int|
                0 <= t < n ==> (#[trigger] components@[t]).0.wf(
                    old(hasher).min_log_size,
                    old(hasher).max_log_size,
                ) && m31s_wf(components@[t].1@),
            i <= n,
            buckets_view(*hasher) == buckets_after_components(
                buckets_view(*old(hasher)),
                old(hasher).min_log_size,
                components@.subrange(0, i as int),
            ),
        decreases n - i,
    {
        let entry = &components[i];
        let ghost before = buckets_view(*hasher);
        proof {
            crate::quotients::lemma_log_size_sel_range(
                entry.0,
                hasher.min_log_size,
                hasher.max_log_size,
            );
        }
        match &entry.0 {
            LogSizeSel::Dynamic(bm) => {
                hasher.update(bm, &entry.1);
            },
            LogSizeSel::Fixed(s) => {
                hasher.update_fixed_log_size(*s, &entry.1);
            },
        }
        proof {
            let sub1 = components@.subrange(0, i as int + 1);
            assert(sub1.drop_last() =~= components@.subrange(0, i as int));
            assert(sub1.last() == components@[i as int]);
            assert(buckets_view(*hasher) =~= buckets_after_component(
                before,
                old(hasher).min_log_size,
                components@[i as int],
            ));
        }
        i += 1;
    }
    proof {
        assert(components@.subrange(0, n as int) =~= components@);
    }
}

} // verus!
