//! The padded Merkle-decommitment verifier.
//!
//! A Merkle inclusion path has witness-dependent depth and witness-dependent
//! column presence per depth, but a circuit cannot branch on witness data:
//! the proof is held over a padded, fixed range of depths, every level does
//! the column-mixing work, and the unwanted branch is discarded by
//! selection. The hash gadgets are modelled by a fixed mixing permutation
//! over eight base-field lanes.
use vstd::prelude::*;
use indexmap::IndexMap;
use crate::column_map::{
    ColumnEntry, column_entries, column_map_new, column_map_push, column_map_get_index,
};
use crate::errors::StructuralError;
use crate::field::{ExtVal, M31, QM31, fadd, fmul, limbs_view, limbs_wf, qm31_limbs, qzero};

verus! {

/// A hash state of eight base-field lanes.
pub struct HashDigest {
    pub lanes: Vec<M31>,
}

impl View for HashDigest {
    type V = Seq<int>;

    open spec fn view(&self) -> Seq<int> {
        self.lanes@.map_values(|m: M31| m@)
    }
}

impl HashDigest {
    pub open spec fn wf(self) -> bool {
        &&& self.lanes@.len() == 8
        &&& forall|i: int| 0 <= i < 8 ==> (#[trigger] self.lanes@[i]).wf()
    }

    /// An exact copy.
    pub fn dup(&self) -> (r: HashDigest)
        requires
            self.wf(),
        ensures
            r.wf(),
            r@ == self@,
    {
        let mut lanes: Vec<M31> = Vec::new();
        let mut i: usize = 0;
        while i < 8
            invariant
                self.wf(),
                i <= 8,
                lanes@.len() == i,
                forall|t: int| 0 <= t < i ==> #[trigger] lanes@[t] == self.lanes@[t],
            decreases 8 - i,
        {
            lanes.push(self.lanes[i]);
            i += 1;
        }
        let r = HashDigest { lanes };
        proof {
            assert(r@ =~= self@);
        }
        r
    }

    /// Whether two digests hold the same lanes.
    pub fn equals(&self, other: &HashDigest) -> (r: bool)
        requires
            self.wf(),
            other.wf(),
        ensures
            r == (self@ == other@),
    {
        let mut i: usize = 0;
        while i < 8
            invariant
                self.wf(),
                other.wf(),
                i <= 8,
                forall|t: int| 0 <= t < i ==> self@[t] == other@[t],
            decreases 8 - i,
        {
            if self.lanes[i].v != other.lanes[i].v {
                proof {
                    assert(self@[i as int] != other@[i as int]);
                }
                return false;
            }
            i += 1;
        }
        proof {
            assert(self@ =~= other@);
        }
        true
    }

    /// Picks `if_one` when the bit is set, else `self`: the oblivious
    /// choice the circuit makes per lane.
    pub fn select(&self, if_one: &HashDigest, bit: bool) -> (r: HashDigest)
        requires
            self.wf(),
            if_one.wf(),
        ensures
            r.wf(),
            r@ == if bit {
                if_one@
            } else {
                self@
            },
    {
        if bit {
            if_one.dup()
        } else {
            self.dup()
        }
    }
}

/// The two-to-one mixing permutation: each output lane combines the two
/// matching input lanes with two rotated ones.
pub open spec fn node_hash_spec(a: Seq<int>, b: Seq<int>) -> Seq<int> {
    Seq::new(
        8,
        |i: int| fadd(fadd(fmul(a[i], 5), fmul(b[i], 7)), fadd(a[(i + 1) % 8], b[(i + 3) % 8])),
    )
}

/// The state after absorbing one quartic value into a hash state: its four
/// lanes enter through the first half, the second half stays zero.
pub open spec fn absorb_spec(state: Seq<int>, v: ExtVal) -> Seq<int> {
    node_hash_spec(state, seq![v.0.0, v.0.1, v.1.0, v.1.1, 0int, 0int, 0int, 0int])
}

/// A column hash: the values absorbed in order into a constant initial
/// state — `init` separates the rate and capacity uses.
pub open spec fn column_hash_spec(vals: Seq<ExtVal>, init: int) -> Seq<int>
    decreases vals.len(),
{
    if vals.len() == 0 {
        Seq::new(8, |i: int| init)
    } else {
        absorb_spec(column_hash_spec(vals.drop_last(), init), vals.last())
    }
}

/// The node hash of an ordered pair, sides swapped when the path bit is
/// set.
pub open spec fn tree_hash_spec(a: Seq<int>, b: Seq<int>, bit: bool) -> Seq<int> {
    if bit {
        node_hash_spec(b, a)
    } else {
        node_hash_spec(a, b)
    }
}

/// Mixes a column hash into a node hash.
pub open spec fn mix_column_spec(t: Seq<int>, c: Seq<int>) -> Seq<int> {
    node_hash_spec(t, c)
}

/// The two-to-one mixing permutation, as executable arithmetic.
pub fn node_hash(a: &HashDigest, b: &HashDigest) -> (r: HashDigest)
    requires
        a.wf(),
        b.wf(),
    ensures
        r.wf(),
        r@ == node_hash_spec(a@, b@),
{
    let five = M31 { v: 5 };
    let seven = M31 { v: 7 };
    let mut lanes: Vec<M31> = Vec::new();
    let mut i: usize = 0;
    while i < 8
        invariant
            a.wf(),
            b.wf(),
            five == (M31 { v: 5u32 }),
            seven == (M31 { v: 7u32 }),
            i <= 8,
            lanes@.len() == i,
            forall|t: int| 0 <= t < i ==> (#[trigger] lanes@[t]).wf(),
            forall|t: int| 0 <= t < i ==> (#[trigger] lanes@[t])@ == node_hash_spec(a@, b@)[t],
        decreases 8 - i,
    {
        let lane = a.lanes[i].mul(five).add(b.lanes[i].mul(seven)).add(
            a.lanes[(i + 1) % 8].add(b.lanes[(i + 3) % 8]),
        );
        lanes.push(lane);
        i += 1;
    }
    let r = HashDigest { lanes };
    proof {
        assert(r@ =~= node_hash_spec(a@, b@));
    }
    r
}

/// A constant state, every lane the same small value.
fn constant_digest(v: u32) -> (r: HashDigest)
    requires
        v < crate::field::P,
    ensures
        r.wf(),
        r@ == Seq::new(8, |i: int| v as int),
{
    let mut lanes: Vec<M31> = Vec::new();
    let mut i: usize = 0;
    while i < 8
        invariant
            v < crate::field::P,
            i <= 8,
            lanes@.len() == i,
            forall|t: int| 0 <= t < i ==> #[trigger] lanes@[t] == (M31 { v }),
        decreases 8 - i,
    {
        lanes.push(M31 { v });
        i += 1;
    }
    let r = HashDigest { lanes };
    proof {
        assert(r@ =~= Seq::new(8, |i: int| v as int));
    }
    r
}

/// The digest of one quartic value's lanes, second half zero.
fn embed_value(v: QM31) -> (r: HashDigest)
    requires
        v.wf(),
    ensures
        r.wf(),
        r@ == seq![v@.0.0, v@.0.1, v@.1.0, v@.1.1, 0int, 0int, 0int, 0int],
{
    let parts = v.decompose_m31();
    let mut lanes: Vec<M31> = Vec::new();
    lanes.push(parts[0]);
    lanes.push(parts[1]);
    lanes.push(parts[2]);
    lanes.push(parts[3]);
    lanes.push(M31::zero());
    lanes.push(M31::zero());
    lanes.push(M31::zero());
    lanes.push(M31::zero());
    let r = HashDigest { lanes };
    proof {
        assert(r@ =~= seq![v@.0.0, v@.0.1, v@.1.0, v@.1.1, 0int, 0int, 0int, 0int]);
    }
    r
}

/// Hashes a column list into the rate state: initial state zero.
pub fn hash_columns_get_rate(values: &Vec<QM31>) -> (r: HashDigest)
    requires
        forall|i: int| 0 <= i < values@.len() ==> (#[trigger] values@[i]).wf(),
    ensures
        r.wf(),
        r@ == column_hash_spec(crate::field::views_of(values@), 0),
{
    hash_columns(values, 0)
}

/// Hashes a column list into the capacity state: initial state one.
pub fn hash_columns_get_capacity(values: &Vec<QM31>) -> (r: HashDigest)
    requires
        forall|i: int| 0 <= i < values@.len() ==> (#[trigger] values@[i]).wf(),
    ensures
        r.wf(),
        r@ == column_hash_spec(crate::field::views_of(values@), 1),
{
    hash_columns(values, 1)
}

/// The shared absorbing loop.
fn hash_columns(values: &Vec<QM31>, init: u32) -> (r: HashDigest)
    requires
        init < crate::field::P,
        forall|i: int| 0 <= i < values@.len() ==> (#[trigger] values@[i]).wf(),
    ensures
        r.wf(),
        r@ == column_hash_spec(crate::field::views_of(values@), init as int),
{
    let ghost vs = crate::field::views_of(values@);
    let mut state = constant_digest(init);
    proof {
        assert(vs.subrange(0, 0) =~= Seq::<ExtVal>::empty());
    }
    let n = values.len();
    let mut i: usize = 0;
    while i < n
        invariant
            init < crate::field::P,
            n == values@.len(),
            vs == crate::field::views_of(values@),
            forall|t: int| 0 <= t < n ==> (#[trigger] values@[t]).wf(),
            i <= n,
            state.wf(),
            state@ == column_hash_spec(vs.subrange(0, i as int), init as int),
        decreases n - i,
    {
        let embedded = embed_value(values[i]);
        proof {
            let sub1 = vs.subrange(0, i as int + 1);
            assert(sub1.drop_last() =~= vs.subrange(0, i as int));
            assert(sub1.last() == vs[i as int]);
        }
        state = node_hash(&state, &embedded);
        i += 1;
    }
    proof {
        assert(vs.subrange(0, n as int) =~= vs);
    }
    state
}

/// The node hash of the pair, sides swapped by the path bit.
pub fn hash_tree_with_swap(a: &HashDigest, b: &HashDigest, bit: bool) -> (r: HashDigest)
    requires
        a.wf(),
        b.wf(),
    ensures
        r.wf(),
        r@ == tree_hash_spec(a@, b@, bit),
{
    if bit {
        node_hash(b, a)
    } else {
        node_hash(a, b)
    }
}

/// Mixes a column hash into a node hash.
pub fn combine_hash_tree_with_column(t: &HashDigest, c: &HashDigest) -> (r: HashDigest)
    requires
        t.wf(),
        c.wf(),
    ensures
        r.wf(),
        r@ == mix_column_spec(t@, c@),
{
    node_hash(t, c)
}

/// The spec values of optional columns.
pub open spec fn opts_view(s: Seq<Option<QM31>>) -> Seq<Option<ExtVal>> {
    s.map_values(
        |o: Option<QM31>|
            match o {
                Option::Some(q) => Option::Some(q@),
                Option::None => Option::<ExtVal>::None,
            },
    )
}

/// Every present column value is well-formed.
pub open spec fn opts_wf(s: Seq<Option<QM31>>) -> bool {
    forall|i: int|
        0 <= i < s.len() ==> ((#[trigger] s[i]) is Some ==> s[i]->Some_0.wf())
}

/// A Merkle inclusion proof over a padded, fixed range of depths
/// `[min_depth, max_depth]`: one slot per depth, keyed from the largest
/// depth down, each holding a presence bit and the (self, sibling) column
/// pair — zero when absent. The path itself has `depth` levels.
pub struct PaddedMerkleProof {
    pub min_depth: u32,
    pub max_depth: u32,
    pub depth: usize,
    pub sibling_hashes: Vec<HashDigest>,
    pub columns: IndexMap<u32, ColumnEntry>,
}

impl PaddedMerkleProof {
    /// The padded slots, largest depth first.
    pub open spec fn entries(self) -> Seq<(u32, ColumnEntry)> {
        column_entries(self.columns)
    }

    pub open spec fn n_slots(self) -> int {
        self.max_depth - self.min_depth + 1
    }

    /// The slot index of a depth inside the padded range.
    pub open spec fn slot_of_depth(self, d: int) -> int {
        self.max_depth - d
    }

    /// Whether columns are present at a depth of the padded range.
    pub open spec fn present_at(self, d: int) -> bool {
        self.entries()[self.slot_of_depth(d)].1.0
    }

    /// The self-column value stored at a depth.
    pub open spec fn self_value_at(self, d: int) -> ExtVal {
        limbs_view(self.entries()[self.slot_of_depth(d)].1.1)
    }

    /// The sibling-column value stored at a depth.
    pub open spec fn sibling_value_at(self, d: int) -> ExtVal {
        limbs_view(self.entries()[self.slot_of_depth(d)].1.2)
    }

    pub open spec fn wf(self) -> bool {
        &&& self.min_log_range_wf()
        &&& self.entries().len() == self.n_slots()
        &&& forall|j: int|
            0 <= j < self.n_slots() ==> (#[trigger] self.entries()[j]).0 == self.max_depth - j
        &&& forall|j: int|
            0 <= j < self.n_slots() ==> limbs_wf((#[trigger] self.entries()[j]).1.1) && limbs_wf(
                self.entries()[j].1.2,
            )
        &&& forall|i: int|
            0 <= i < self.sibling_hashes@.len() ==> (#[trigger] self.sibling_hashes@[i]).wf()
    }

    pub open spec fn min_log_range_wf(self) -> bool {
        &&& self.min_depth <= self.max_depth
        &&& self.min_depth <= self.depth <= self.max_depth
    }

    /// Builds the padded proof from a witness given over the padded range:
    /// slot `o` of the two column lists stands for depth `min_depth + o`.
    /// Self-column and sibling-column presence must agree at every depth;
    /// a disagreement is the structural presence error, raised here at
    /// allocation time and never silently defaulted.
    pub fn new(
        min_depth: u32,
        max_depth: u32,
        depth: usize,
        sibling_hashes: Vec<HashDigest>,
        self_columns: &Vec<Option<QM31>>,
        sibling_columns: &Vec<Option<QM31>>,
    ) -> (r: Result<PaddedMerkleProof, StructuralError>)
        requires
            min_depth <= max_depth,
            min_depth <= depth <= max_depth,
            max_log_range_fits(min_depth, max_depth),
            self_columns@.len() == max_depth - min_depth + 1,
            sibling_columns@.len() == max_depth - min_depth + 1,
            opts_wf(self_columns@),
            opts_wf(sibling_columns@),
            forall|i: int|
                0 <= i < sibling_hashes@.len() ==> (#[trigger] sibling_hashes@[i]).wf(),
        ensures
            r is Ok <==> (forall|o: int|
                0 <= o < self_columns@.len() ==> ((#[trigger] self_columns@[o]) is Some
                    <==> sibling_columns@[o] is Some)),
            r is Err ==> r->Err_0 == StructuralError::PresenceMismatch,
            r is Ok ==> ({
                let p = r->Ok_0;
                &&& p.wf()
                &&& p.min_depth == min_depth
                &&& p.max_depth == max_depth
                &&& p.depth == depth
                &&& p.sibling_hashes == sibling_hashes
                &&& forall|d: int|
                    min_depth <= d <= max_depth ==> {
                        let o = d - min_depth;
                        &&& (#[trigger] p.present_at(d)) == self_columns@[o] is Some
                        &&& p.self_value_at(d) == (if self_columns@[o] is Some {
                            self_columns@[o]->Some_0@
                        } else {
                            qzero()
                        })
                        &&& p.sibling_value_at(d) == (if sibling_columns@[o] is Some {
                            sibling_columns@[o]->Some_0@
                        } else {
                            qzero()
                        })
                    }
            }),
    {
        let n: usize = (max_depth - min_depth) as usize + 1;
        let mut columns = column_map_new();
        let mut j: usize = 0;
        while j < n
            invariant
                n == max_depth - min_depth + 1,
                min_depth <= max_depth,
                self_columns@.len() == n,
                sibling_columns@.len() == n,
                opts_wf(self_columns@),
                opts_wf(sibling_columns@),
                j <= n,
                column_entries(columns).len() == j,
                forall|t: int|
                    0 <= t < j ==> (#[trigger] column_entries(columns)[t]).0 == max_depth - t,
                forall|t: int|
                    0 <= t < j ==> ((#[trigger] self_columns@[n - 1 - t]) is Some
                        <==> sibling_columns@[n - 1 - t] is Some),
                forall|t: int|
                    0 <= t < j ==> (#[trigger] column_entries(columns)[t]).1.0 == self_columns@[n
                        - 1 - t] is Some,
                forall|t: int|
                    0 <= t < j ==> limbs_wf((#[trigger] column_entries(columns)[t]).1.1)
                        && limbs_wf(column_entries(columns)[t].1.2),
                forall|t: int|
                    0 <= t < j ==> limbs_view((#[trigger] column_entries(columns)[t]).1.1) == (
                    if self_columns@[n - 1 - t] is Some {
                        self_columns@[n - 1 - t]->Some_0@
                    } else {
                        qzero()
                    }),
                forall|t: int|
                    0 <= t < j ==> limbs_view((#[trigger] column_entries(columns)[t]).1.2) == (
                    if sibling_columns@[n - 1 - t] is Some {
                        sibling_columns@[n - 1 - t]->Some_0@
                    } else {
                        qzero()
                    }),
            decreases n - j,
        {
            let o: usize = n - 1 - j;
            let key: u32 = max_depth - j as u32;
            let self_present = self_columns[o].is_some();
            let sibling_present = sibling_columns[o].is_some();
            if self_present != sibling_present {
                return Err(StructuralError::PresenceMismatch);
            }
            let self_value = match &self_columns[o] {
                Option::Some(q) => *q,
                Option::None => QM31::zero(),
            };
            let sibling_value = match &sibling_columns[o] {
                Option::Some(q) => *q,
                Option::None => QM31::zero(),
            };
            column_map_push(
                &mut columns,
                key,
                (self_present, self_value.to_limbs(), sibling_value.to_limbs()),
            );
            proof {
                assert(column_entries(columns)[j as int] == (
                    key,
                    (self_present, qm31_limbs(self_value), qm31_limbs(sibling_value)),
                ));
            }
            j += 1;
        }
        proof {
            assert forall|o: int|
                0 <= o < self_columns@.len() implies ((#[trigger] self_columns@[o]) is Some
                <==> sibling_columns@[o] is Some) by {
                let t = n - 1 - o;
                assert(self_columns@[n - 1 - t] is Some <==> sibling_columns@[n - 1 - t] is Some);
            }
        }
        Ok(PaddedMerkleProof { min_depth, max_depth, depth, sibling_hashes, columns })
    }
}

/// The padded range is small enough to enumerate.
pub open spec fn max_log_range_fits(min_depth: u32, max_depth: u32) -> bool {
    max_depth - min_depth + 1 <= usize::MAX
}

/// The pair of hash states seeded from the leaf-level column pair at the
/// proof's declared depth. Leaf-level presence is an assumption of the
/// protocol, not selected: the stored values are hashed as they stand.
pub open spec fn leaf_state(p: PaddedMerkleProof) -> (Seq<int>, Seq<int>) {
    (
        column_hash_spec(seq![p.self_value_at(p.depth as int)], 0),
        column_hash_spec(seq![p.sibling_value_at(p.depth as int)], 0),
    )
}

/// One transition of the verifier, from level `depth - 1 - i` toward the
/// root: the pair is hashed with the path bit deciding the sides; inside
/// the padded range the column-mixing result is computed and kept or
/// discarded by the presence bit; the sibling side takes the proof-supplied
/// hash, mixed the same way, except at the last step where no sibling is
/// needed.
pub open spec fn walk_step(
    p: PaddedMerkleProof,
    st: (Seq<int>, Seq<int>),
    i: int,
    bits: Seq<bool>,
) -> (Seq<int>, Seq<int>) {
    let h = p.depth - 1 - i;
    let t = tree_hash_spec(st.0, st.1, bits[i]);
    let new_self = if p.min_depth <= h <= p.max_depth {
        if p.present_at(h) {
            mix_column_spec(t, column_hash_spec(seq![p.self_value_at(h)], 1))
        } else {
            t
        }
    } else {
        t
    };
    let new_sibling = if i != p.depth - 1 {
        let base = p.sibling_hashes@[i]@;
        if p.min_depth <= h <= p.max_depth {
            if p.present_at(h) {
                mix_column_spec(base, column_hash_spec(seq![p.sibling_value_at(h)], 1))
            } else {
                base
            }
        } else {
            base
        }
    } else {
        st.1
    };
    (new_self, new_sibling)
}

/// The self hash after walking every remaining level from `i` to the root.
pub open spec fn walk_from(
    p: PaddedMerkleProof,
    st: (Seq<int>, Seq<int>),
    i: int,
    bits: Seq<bool>,
) -> Seq<int>
    decreases p.depth - i,
{
    if i < 0 || i >= p.depth {
        st.0
    } else {
        walk_from(p, walk_step(p, st, i, bits), i + 1, bits)
    }
}

/// The root the padded verifier reconstructs for this proof and path.
pub open spec fn reconstructed_root(p: PaddedMerkleProof, bits: Seq<bool>) -> Seq<int> {
    walk_from(p, leaf_state(p), 0, bits)
}

impl PaddedMerkleProof {
    /// Walks the path from the leaf to the root through the padded slots
    /// and compares the reconstructed root with the committed one. The
    /// comparison result is the circuit constraint: a forged witness that
    /// does not reconstruct the root yields `false`.
    pub fn verify(&self, root: &HashDigest, path_bits: &Vec<bool>) -> (r: bool)
        requires
            self.wf(),
            1 <= self.depth,
            self.sibling_hashes@.len() >= self.depth - 1,
            path_bits@.len() >= self.depth,
            root.wf(),
        ensures
            r == (reconstructed_root(*self, path_bits@) == root@),
    {
        let leaf_slot: usize = (self.max_depth - self.depth as u32) as usize;
        let leaf = column_map_get_index(&self.columns, leaf_slot);
        let mut self_vals: Vec<QM31> = Vec::new();
        self_vals.push(QM31::from_limbs(leaf.1.1));
        let mut sibling_vals: Vec<QM31> = Vec::new();
        sibling_vals.push(QM31::from_limbs(leaf.1.2));
        let mut self_hash = hash_columns_get_rate(&self_vals);
        let mut sibling_hash = hash_columns_get_rate(&sibling_vals);
        proof {
            assert(crate::field::views_of(self_vals@) =~= seq![
                self.self_value_at(self.depth as int),
            ]);
            assert(crate::field::views_of(sibling_vals@) =~= seq![
                self.sibling_value_at(self.depth as int),
            ]);
            assert((self_hash@, sibling_hash@) == leaf_state(*self));
        }
        let mut i: usize = 0;
        while i < self.depth
            invariant
                self.wf(),
                1 <= self.depth,
                self.sibling_hashes@.len() >= self.depth - 1,
                path_bits@.len() >= self.depth,
                i <= self.depth,
                self_hash.wf(),
                sibling_hash.wf(),
                walk_from(*self, (self_hash@, sibling_hash@), i as int, path_bits@)
                    == reconstructed_root(*self, path_bits@),
            decreases self.depth - i,
        {
            let h: usize = self.depth - 1 - i;
            let bit = path_bits[i];
            let tree_hash = hash_tree_with_swap(&self_hash, &sibling_hash, bit);
            let ghost st = (self_hash@, sibling_hash@);
            let in_range = self.min_depth as usize <= h && h <= self.max_depth as usize;
            if in_range {
                let slot: usize = self.max_depth as usize - h;
                let entry = column_map_get_index(&self.columns, slot);
                let mut column_vals: Vec<QM31> = Vec::new();
                column_vals.push(QM31::from_limbs(entry.1.1));
                let column_hash = hash_columns_get_capacity(&column_vals);
                let with_column = combine_hash_tree_with_column(&tree_hash, &column_hash);
                proof {
                    assert(crate::field::views_of(column_vals@) =~= seq![
                        self.self_value_at(h as int),
                    ]);
                }
                if i + 1 != self.depth {
                    let mut sibling_column_vals: Vec<QM31> = Vec::new();
                    sibling_column_vals.push(QM31::from_limbs(entry.1.2));
                    let sibling_column_hash = hash_columns_get_capacity(&sibling_column_vals);
                    let base = &self.sibling_hashes[i];
                    let sibling_with_column = combine_hash_tree_with_column(
                        base,
                        &sibling_column_hash,
                    );
                    proof {
                        assert(crate::field::views_of(sibling_column_vals@) =~= seq![
                            self.sibling_value_at(h as int),
                        ]);
                    }
                    sibling_hash = base.select(&sibling_with_column, entry.1.0);
                }
                self_hash = tree_hash.select(&with_column, entry.1.0);
            } else {
                if i + 1 != self.depth {
                    sibling_hash = self.sibling_hashes[i].dup();
                }
                self_hash = tree_hash;
            }
            proof {
                assert((self_hash@, sibling_hash@) == walk_step(*self, st, i as int, path_bits@));
            }
            i += 1;
        }
        self_hash.equals(root)
    }
}

/// The value of an optional column, zero when absent.
pub open spec fn opt_or_zero(o: Option<ExtVal>) -> ExtVal {
    match o {
        Option::Some(v) => v,
        Option::None => qzero(),
    }
}

/// The straightforward, non-padded reconstruction of the root from the
/// witness itself: the same chain of hashes, but branching on the witness's
/// own presence flags instead of selecting over padded slots.
pub open spec fn plain_step(
    min_depth: int,
    max_depth: int,
    depth: int,
    selfs: Seq<Option<ExtVal>>,
    sibs: Seq<Option<ExtVal>>,
    sibling_hashes: Seq<Seq<int>>,
    st: (Seq<int>, Seq<int>),
    i: int,
    bits: Seq<bool>,
) -> (Seq<int>, Seq<int>) {
    let h = depth - 1 - i;
    let t = tree_hash_spec(st.0, st.1, bits[i]);
    let new_self = if min_depth <= h <= max_depth && selfs[h - min_depth] is Some {
        mix_column_spec(t, column_hash_spec(seq![selfs[h - min_depth]->Some_0], 1))
    } else {
        t
    };
    let new_sibling = if i != depth - 1 {
        let base = sibling_hashes[i];
        if min_depth <= h <= max_depth && sibs[h - min_depth] is Some {
            mix_column_spec(base, column_hash_spec(seq![sibs[h - min_depth]->Some_0], 1))
        } else {
            base
        }
    } else {
        st.1
    };
    (new_self, new_sibling)
}

/// The plain reconstruction walked to the root.
pub open spec fn plain_from(
    min_depth: int,
    max_depth: int,
    depth: int,
    selfs: Seq<Option<ExtVal>>,
    sibs: Seq<Option<ExtVal>>,
    sibling_hashes: Seq<Seq<int>>,
    st: (Seq<int>, Seq<int>),
    i: int,
    bits: Seq<bool>,
) -> Seq<int>
    decreases depth - i,
{
    if i < 0 || i >= depth {
        st.0
    } else {
        plain_from(
            min_depth,
            max_depth,
            depth,
            selfs,
            sibs,
            sibling_hashes,
            plain_step(min_depth, max_depth, depth, selfs, sibs, sibling_hashes, st, i, bits),
            i + 1,
            bits,
        )
    }
}

/// The spec values of a digest list.
pub open spec fn digests_view(s: Seq<HashDigest>) -> Seq<Seq<int>> {
    s.map_values(|d: HashDigest| d@)
}

/// A padded proof mirrors a witness: presence and stored values agree at
/// every depth of the padded range, absent slots holding zero.
pub open spec fn mirrors_witness(
    p: PaddedMerkleProof,
    selfs: Seq<Option<ExtVal>>,
    sibs: Seq<Option<ExtVal>>,
) -> bool {
    &&& selfs.len() == p.n_slots()
    &&& sibs.len() == p.n_slots()
    &&& forall|d: int|
        p.min_depth <= d <= p.max_depth ==> (#[trigger] p.present_at(d)) == selfs[d
            - p.min_depth] is Some && p.present_at(d) == sibs[d - p.min_depth] is Some
    &&& forall|d: int|
        p.min_depth <= d <= p.max_depth ==> (#[trigger] p.self_value_at(d)) == opt_or_zero(
            selfs[d - p.min_depth],
        ) && p.sibling_value_at(d) == opt_or_zero(sibs[d - p.min_depth])
}

/// Padding idempotence, one level: under the mirror relation, the padded
/// transition and the plain transition agree on any state.
proof fn lemma_steps_agree(
    p: PaddedMerkleProof,
    selfs: Seq<Option<ExtVal>>,
    sibs: Seq<Option<ExtVal>>,
    st: (Seq<int>, Seq<int>),
    i: int,
    bits: Seq<bool>,
)
    requires
        mirrors_witness(p, selfs, sibs),
        0 <= i < p.depth,
        p.sibling_hashes@.len() >= p.depth - 1,
    ensures
        walk_step(p, st, i, bits) == plain_step(
            p.min_depth as int,
            p.max_depth as int,
            p.depth as int,
            selfs,
            sibs,
            digests_view(p.sibling_hashes@),
            st,
            i,
            bits,
        ),
{
    let h = p.depth - 1 - i;
    if p.min_depth <= h <= p.max_depth {
        assert(p.present_at(h) == selfs[h - p.min_depth] is Some);
        if p.present_at(h) {
            assert(p.self_value_at(h) == selfs[h - p.min_depth]->Some_0);
            assert(p.sibling_value_at(h) == sibs[h - p.min_depth]->Some_0);
        }
    }
}

/// Padding idempotence: a padded proof that mirrors a witness reconstructs
/// exactly the root that the straightforward, non-padded recursive hash of
/// that witness yields — so verification against that root succeeds, and
/// against any other root fails.
pub proof fn lemma_padding_idempotent(
    p: PaddedMerkleProof,
    selfs: Seq<Option<ExtVal>>,
    sibs: Seq<Option<ExtVal>>,
    bits: Seq<bool>,
)
    requires
        p.wf(),
        mirrors_witness(p, selfs, sibs),
        p.sibling_hashes@.len() >= p.depth - 1,
    ensures
        reconstructed_root(p, bits) == plain_from(
            p.min_depth as int,
            p.max_depth as int,
            p.depth as int,
            selfs,
            sibs,
            digests_view(p.sibling_hashes@),
            (
                column_hash_spec(seq![opt_or_zero(selfs[p.depth - p.min_depth])], 0),
                column_hash_spec(seq![opt_or_zero(sibs[p.depth - p.min_depth])], 0),
            ),
            0,
            bits,
        ),
{
    if p.min_depth <= p.depth <= p.max_depth {
        assert(p.self_value_at(p.depth as int) == opt_or_zero(selfs[p.depth - p.min_depth]));
        assert(p.sibling_value_at(p.depth as int) == opt_or_zero(sibs[p.depth - p.min_depth]));
    }
    lemma_walks_agree(p, selfs, sibs, leaf_state(p), 0, bits);
}

/// The two walks agree from any level onward, state for state.
proof fn lemma_walks_agree(
    p: PaddedMerkleProof,
    selfs: Seq<Option<ExtVal>>,
    sibs: Seq<Option<ExtVal>>,
    st: (Seq<int>, Seq<int>),
    i: int,
    bits: Seq<bool>,
)
    requires
        mirrors_witness(p, selfs, sibs),
        p.sibling_hashes@.len() >= p.depth - 1,
    ensures
        walk_from(p, st, i, bits) == plain_from(
            p.min_depth as int,
            p.max_depth as int,
            p.depth as int,
            selfs,
            sibs,
            digests_view(p.sibling_hashes@),
            st,
            i,
            bits,
        ),
    decreases p.depth - i,
{
    if i < 0 || i >= p.depth {
    } else {
        lemma_steps_agree(p, selfs, sibs, st, i, bits);
        lemma_walks_agree(p, selfs, sibs, walk_step(p, st, i, bits), i + 1, bits);
    }
}

} // verus!
