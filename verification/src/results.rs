//! The two top-level outcomes of the core: the per-query answer values,
//! ready for the folding stage, and the verdict of the padded Merkle
//! decommitment checks.
use vstd::prelude::*;
use crate::accumulator::{AnswerAccumulator, fresh_entries};
use crate::field::{CM31, QM31, limbs_view};
use crate::line::CirclePointM31;
use crate::merkle::{HashDigest, PaddedMerkleProof, reconstructed_root};
use crate::quotients::{ColumnFamily, compute_answers, entries_after_families, family_wf, tables_wf};

verus! {

/// The finalized answers: per query, the answer half of every bucket,
/// largest log-size first, each paired with its log-size.
pub struct AnswerResults {
    pub answers: Vec<Vec<(u32, QM31)>>,
}

impl AnswerResults {
    /// Runs one fresh accumulator per query through the whole family list
    /// and finalizes it: the per-query mapping from log-size to answer
    /// value that the folding stage consumes.
    pub fn compute(
        min_log_size: u32,
        max_log_size: u32,
        random_coeff: &QM31,
        oods_c: &CM31,
        domain_points: &Vec<Vec<CirclePointM31>>,
        denominator_inverses: &Vec<Vec<CM31>>,
        families: &Vec<ColumnFamily>,
        num_queries: usize,
    ) -> (r: AnswerResults)
        requires
            min_log_size <= max_log_size,
            max_log_size - min_log_size + 1 <= usize::MAX,
            random_coeff.wf(),
            oods_c.wf(),
            forall|i: int|
                0 <= i < families@.len() ==> family_wf(
                    #[trigger] families@[i],
                    min_log_size,
                    max_log_size,
                ),
            forall|q: int|
                0 <= q < num_queries ==> #[trigger] tables_wf(
                    domain_points@,
                    denominator_inverses@,
                    max_log_size - min_log_size + 1,
                    q,
                ),
        ensures
            r.answers@.len() == num_queries,
            forall|q: int|
                0 <= q < num_queries ==> ({
                    let es = entries_after_families(
                        fresh_entries(min_log_size, max_log_size),
                        min_log_size,
                        random_coeff@,
                        oods_c@,
                        domain_points@,
                        denominator_inverses@,
                        families@,
                        q,
                    );
                    &&& (#[trigger] r.answers@[q])@.len() == max_log_size - min_log_size + 1
                    &&& forall|j: int|
                        0 <= j < r.answers@[q]@.len() ==> (#[trigger] r.answers@[q]@[j]).0
                            == max_log_size - j && r.answers@[q]@[j].1.wf()
                            && r.answers@[q]@[j].1@ == limbs_view(es[j].1.0)
                }),
    {
        let mut answers: Vec<Vec<(u32, QM31)>> = Vec::new();
        let mut q: usize = 0;
        while q < num_queries
            invariant
                min_log_size <= max_log_size,
                max_log_size - min_log_size + 1 <= usize::MAX,
                random_coeff.wf(),
                oods_c.wf(),
                forall|i: int|
                    0 <= i < families@.len() ==> family_wf(
                        #[trigger] families@[i],
                        min_log_size,
                        max_log_size,
                    ),
                forall|t: int|
                    0 <= t < num_queries ==> #[trigger] tables_wf(
                        domain_points@,
                        denominator_inverses@,
                        max_log_size - min_log_size + 1,
                        t,
                    ),
                q <= num_queries,
                answers@.len() == q,
                forall|t: int|
                    0 <= t < q ==> ({
                        let es = entries_after_families(
                            fresh_entries(min_log_size, max_log_size),
                            min_log_size,
                            random_coeff@,
                            oods_c@,
                            domain_points@,
                            denominator_inverses@,
                            families@,
                            t,
                        );
                        &&& (#[trigger] answers@[t])@.len() == max_log_size - min_log_size + 1
                        &&& forall|j: int|
                            0 <= j < answers@[t]@.len() ==> (#[trigger] answers@[t]@[j]).0
                                == max_log_size - j && answers@[t]@[j].1.wf()
                                && answers@[t]@[j].1@ == limbs_view(es[j].1.0)
                    }),
            decreases num_queries - q,
        {
            let mut acc = AnswerAccumulator::new(min_log_size, max_log_size, random_coeff);
            compute_answers(
                &mut acc,
                oods_c,
                domain_points,
                denominator_inverses,
                families,
                q,
            );
            answers.push(acc.finalize());
            q += 1;
        }
        AnswerResults { answers }
    }
}

/// The verdict of the folding stage's decommitment checks: every padded
/// Merkle proof must reconstruct the committed first-layer root.
pub struct FoldingResults {
    pub valid: bool,
}

impl FoldingResults {
    /// Verifies every proof against the committed root along its query's
    /// path bits; the verdict is the conjunction of the root-equality
    /// constraints.
    pub fn new(proofs: &Vec<PaddedMerkleProof>, root: &HashDigest, queries: &Vec<Vec<bool>>) -> (r:
        FoldingResults)
        requires
            root.wf(),
            queries@.len() == proofs@.len(),
            forall|i: int|
                0 <= i < proofs@.len() ==> (#[trigger] proofs@[i]).wf() && 1 <= proofs@[i].depth
                    && proofs@[i].sibling_hashes@.len() >= proofs@[i].depth - 1,
            forall|i: int|
                0 <= i < proofs@.len() ==> (#[trigger] queries@[i])@.len() >= proofs@[i].depth,
        ensures
            r.valid == (forall|i: int|
                0 <= i < proofs@.len() ==> reconstructed_root(#[trigger] proofs@[i], queries@[i]@)
                    == root@),
    {
        let n = proofs.len();
        let mut i: usize = 0;
        while i < n
            invariant
                root.wf(),
                n == proofs@.len(),
                queries@.len() == proofs@.len(),
                forall|t: int|
                    0 <= t < n ==> (#[trigger] proofs@[t]).wf() && 1 <= proofs@[t].depth
                        && proofs@[t].sibling_hashes@.len() >= proofs@[t].depth - 1,
                forall|t: int|
                    0 <= t < n ==> (#[trigger] queries@[t])@.len() >= proofs@[t].depth,
                i <= n,
                forall|t: int|
                    0 <= t < i ==> reconstructed_root(#[trigger] proofs@[t], queries@[t]@)
                        == root@,
            decreases n - i,
        {
            let ok = proofs[i].verify(root, &queries[i]);
            if !ok {
                proof {
                    assert(reconstructed_root(proofs@[i as int], queries@[i as int]@) != root@);
                }
                return FoldingResults { valid: false };
            }
            i += 1;
        }
        FoldingResults { valid: true }
    }
}

} // verus!
