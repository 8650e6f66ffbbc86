//! The oblivious answer accumulator.
//!
//! Per query, one (answer, multiplier) bucket is kept for every admissible
//! log-size, ordered from the largest log-size down. An update touches the
//! single bucket selected by a one-hot log-size bitmap, but evaluates every
//! bucket and chooses by selection, so the circuit shape never depends on
//! which log-size is live.
use vstd::prelude::*;
use indexmap::IndexMap;
use crate::bitmap::LogSizeBitmap;
use crate::bucket_map::{
    BucketPair, bucket_entries, bucket_map_new, bucket_map_push, bucket_map_get_index,
    bucket_map_set_index,
};
use crate::field::{
    ExtVal, Limbs, QM31, P, ext_wf, limbs_view, limbs_wf, qadd, qmul, qm31_limbs, qzero, views_of,
    lemma_qadd_zero_left, lemma_qadd_zero_right, lemma_qmul_zero_right, lemma_qmul_one_right,
};
use crate::algebra::{qpow, lemma_qadd_assoc, lemma_qmul_assoc};

verus! {

/// The sentinel every multiplier starts from: -2 in the third coordinate,
/// matching the FRI-answer convention.
pub open spec fn sentinel_multiplier() -> ExtVal {
    ((0int, 0int), ((P - 2) as int, 0int))
}

/// One accumulation step: the answer absorbs `t` weighted by the running
/// multiplier, and the multiplier advances by the random coefficient.
pub open spec fn accum_step(b: (ExtVal, ExtVal), t: ExtVal, r: ExtVal) -> (ExtVal, ExtVal) {
    (qadd(b.0, qmul(t, b.1)), qmul(b.1, r))
}

/// A bucket after absorbing `ts` in order, starting from `b`.
pub open spec fn accum_terms(b: (ExtVal, ExtVal), ts: Seq<ExtVal>, r: ExtVal) -> (ExtVal, ExtVal)
    decreases ts.len(),
{
    if ts.len() == 0 {
        b
    } else {
        accum_terms(accum_step(b, ts[0], r), ts.subrange(1, ts.len() as int), r)
    }
}

/// Absorbing one more term at the end is one more step after the rest.
pub proof fn lemma_accum_terms_push(b: (ExtVal, ExtVal), ts: Seq<ExtVal>, t: ExtVal, r: ExtVal)
    ensures
        accum_terms(b, ts.push(t), r) == accum_step(accum_terms(b, ts, r), t, r),
    decreases ts.len(),
{
    let pushed = ts.push(t);
    if ts.len() == 0 {
        assert(pushed.subrange(1, 1) =~= Seq::<ExtVal>::empty());
        assert(pushed[0] == t);
        assert(accum_terms(b, pushed, r) == accum_terms(accum_step(b, t, r), pushed.subrange(1, 1), r));
        assert(accum_terms(accum_step(b, t, r), Seq::<ExtVal>::empty(), r) == accum_step(b, t, r));
    } else {
        let rest = ts.subrange(1, ts.len() as int);
        assert(pushed[0] == ts[0]);
        assert(pushed.subrange(1, ts.len() as int + 1) =~= rest.push(t));
        assert(accum_terms(b, pushed, r) == accum_terms(
            accum_step(b, ts[0], r),
            rest.push(t),
            r,
        ));
        lemma_accum_terms_push(accum_step(b, ts[0], r), rest, t, r);
        assert(accum_terms(b, ts, r) == accum_terms(accum_step(b, ts[0], r), rest, r));
    }
}

/// The random-coefficient combination `Σ ts[i] · (m · r^i)`, summed from the
/// last term down.
pub open spec fn weighted_power_sum(ts: Seq<ExtVal>, m: ExtVal, r: ExtVal) -> ExtVal
    decreases ts.len(),
{
    if ts.len() == 0 {
        qzero()
    } else {
        qadd(
            weighted_power_sum(ts.drop_last(), m, r),
            qmul(ts.last(), qmul(m, qpow(r, (ts.len() - 1) as nat))),
        )
    }
}

/// Accumulator linearity: absorbing the terms `ts` into a bucket `b` leaves
/// the answer at `b.0 + Σ ts[i] · (b.1 · r^i)`, each term weighted by the
/// power of the random coefficient matching its position, and advances the
/// multiplier to `b.1 · r^len`.
pub proof fn lemma_accumulator_linearity(b: (ExtVal, ExtVal), ts: Seq<ExtVal>, r: ExtVal)
    requires
        ext_wf(b.0),
        ext_wf(b.1),
    ensures
        accum_terms(b, ts, r).0 == qadd(b.0, weighted_power_sum(ts, b.1, r)),
        accum_terms(b, ts, r).1 == qmul(b.1, qpow(r, ts.len())),
    decreases ts.len(),
{
    if ts.len() == 0 {
        lemma_qadd_zero_right(b.0);
        lemma_qmul_one_right(b.1);
    } else {
        let ts0 = ts.drop_last();
        let t = ts.last();
        assert(ts =~= ts0.push(t));
        lemma_accumulator_linearity(b, ts0, r);
        lemma_accum_terms_push(b, ts0, t, r);
        let n0 = ts0.len();
        lemma_qmul_assoc(b.1, qpow(r, n0), r);
        lemma_qadd_assoc(
            b.0,
            weighted_power_sum(ts0, b.1, r),
            qmul(t, qmul(b.1, qpow(r, n0))),
        );
    }
}

/// The stored pairs of a fresh accumulator over `[min_log_size,
/// max_log_size]`: keys descending, answers zero, multipliers at the
/// sentinel.
pub open spec fn fresh_entries(min_log_size: u32, max_log_size: u32) -> Seq<(u32, BucketPair)> {
    Seq::new(
        (max_log_size - min_log_size + 1) as nat,
        |j: int| (
            (max_log_size - j) as u32,
            ((0u32, 0u32, 0u32, 0u32), (0u32, 0u32, (P - 2) as u32, 0u32)),
        ),
    )
}

/// The per-query accumulator: a bucket per admissible log-size, keyed from
/// `max_log_size` down to `min_log_size`, plus the random coefficient whose
/// powers weight the accumulated terms.
pub struct AnswerAccumulator {
    pub min_log_size: u32,
    pub max_log_size: u32,
    pub random_coeff: QM31,
    pub map: IndexMap<u32, BucketPair>,
}

impl AnswerAccumulator {
    /// How many buckets the admissible range spans.
    pub open spec fn n_buckets(self) -> int {
        self.max_log_size - self.min_log_size + 1
    }

    /// The stored pairs, largest log-size first.
    pub open spec fn entries(self) -> Seq<(u32, BucketPair)> {
        bucket_entries(self.map)
    }

    /// The bucket at position `j`, as spec values.
    pub open spec fn bucket(self, j: int) -> (ExtVal, ExtVal) {
        (limbs_view(self.entries()[j].1.0), limbs_view(self.entries()[j].1.1))
    }

    /// The position of the bucket for `log_size`.
    pub open spec fn bucket_index_of(self, log_size: int) -> int {
        self.max_log_size - log_size
    }

    pub open spec fn wf(self) -> bool {
        &&& self.min_log_size <= self.max_log_size
        &&& self.entries().len() == self.n_buckets()
        &&& forall|j: int|
            0 <= j < self.n_buckets() ==> (#[trigger] self.entries()[j]).0 == self.max_log_size
                - j
        &&& forall|j: int|
            0 <= j < self.n_buckets() ==> limbs_wf((#[trigger] self.entries()[j]).1.0) && limbs_wf(
                self.entries()[j].1.1,
            )
        &&& self.random_coeff.wf()
    }

    /// A fresh accumulator: every bucket starts at answer zero and the
    /// sentinel multiplier.
    pub fn new(min_log_size: u32, max_log_size: u32, random_coeff: &QM31) -> (r: AnswerAccumulator)
        requires
            min_log_size <= max_log_size,
            max_log_size - min_log_size + 1 <= usize::MAX,
            random_coeff.wf(),
        ensures
            r.wf(),
            r.min_log_size == min_log_size,
            r.max_log_size == max_log_size,
            r.random_coeff == *random_coeff,
            forall|j: int|
                0 <= j < r.n_buckets() ==> #[trigger] r.bucket(j) == (
                    qzero(),
                    sentinel_multiplier(),
                ),
            r.entries() == fresh_entries(min_log_size, max_log_size),
    {
        let n: usize = (max_log_size - min_log_size) as usize + 1;
        let zero_limbs: Limbs = (0, 0, 0, 0);
        let sentinel_limbs: Limbs = (0, 0, P - 2, 0);
        let mut map = bucket_map_new();
        let mut j: usize = 0;
        while j < n
            invariant
                n == max_log_size - min_log_size + 1,
                min_log_size <= max_log_size,
                zero_limbs == (0u32, 0u32, 0u32, 0u32),
                sentinel_limbs == (0u32, 0u32, (P - 2) as u32, 0u32),
                j <= n,
                bucket_entries(map).len() == j,
                forall|t: int|
                    0 <= t < j ==> (#[trigger] bucket_entries(map)[t]).0 == max_log_size - t,
                forall|t: int|
                    0 <= t < j ==> (#[trigger] bucket_entries(map)[t]).1 == (
                        (0u32, 0u32, 0u32, 0u32),
                        (0u32, 0u32, (P - 2) as u32, 0u32),
                    ),
            decreases n - j,
        {
            let key: u32 = max_log_size - j as u32;
            bucket_map_push(&mut map, key, (zero_limbs, sentinel_limbs));
            proof {
                assert(bucket_entries(map)[j as int] == (key, (zero_limbs, sentinel_limbs)));
            }
            j += 1;
        }
        proof {
            assert(bucket_entries(map) =~= fresh_entries(min_log_size, max_log_size));
        }
        AnswerAccumulator { min_log_size, max_log_size, random_coeff: *random_coeff, map }
    }

    /// Reads the single live bucket through the one-hot bitmap: every bucket
    /// is weighted by its bit and the results are summed, so exactly the
    /// bucket at the active log-size survives, unmodified.
    pub fn select_bucket(&self, log_size: &LogSizeBitmap) -> (r: (QM31, QM31))
        requires
            self.wf(),
            log_size.wf(),
            log_size.min_log_size == self.min_log_size,
            log_size.bits@.len() == self.n_buckets(),
        ensures
            r.0.wf(),
            r.1.wf(),
            (r.0@, r.1@) == self.bucket(self.bucket_index_of(log_size.active_log_size())),
    {
        let n: usize = crate::bucket_map::bucket_map_len(&self.map);
        let ghost k = log_size.active_offset();
        let ghost jstar = n - 1 - k;
        proof {
            assert(crate::bitmap::one_hot(log_size.bits@, k));
        }
        let mut entry_answer = QM31::zero();
        let mut entry_multiplier = QM31::zero();
        let mut j: usize = 0;
        while j < n
            invariant
                self.wf(),
                log_size.wf(),
                n == self.n_buckets(),
                log_size.bits@.len() == n,
                crate::bitmap::one_hot(log_size.bits@, k),
                jstar == n - 1 - k,
                0 <= jstar < n,
                j <= n,
                entry_answer.wf(),
                entry_multiplier.wf(),
                j <= jstar ==> (entry_answer@, entry_multiplier@) == (qzero(), qzero()),
                j > jstar ==> (entry_answer@, entry_multiplier@) == self.bucket(jstar),
            decreases n - j,
        {
            let (key, pair) = bucket_map_get_index(&self.map, j);
            let bit = log_size.bit(n - 1 - j);
            let ind = if bit {
                QM31::one()
            } else {
                QM31::zero()
            };
            let answer_j = QM31::from_limbs(pair.0);
            let multiplier_j = QM31::from_limbs(pair.1);
            proof {
                if bit {
                    assert(n - 1 - j == k);
                    lemma_qmul_one_right(answer_j@);
                    lemma_qmul_one_right(multiplier_j@);
                    lemma_qadd_zero_left(answer_j@);
                    lemma_qadd_zero_left(multiplier_j@);
                } else {
                    assert(n - 1 - j != k);
                    lemma_qmul_zero_right(answer_j@);
                    lemma_qmul_zero_right(multiplier_j@);
                    lemma_qadd_zero_right(entry_answer@);
                    lemma_qadd_zero_right(entry_multiplier@);
                }
            }
            entry_answer = entry_answer.add(answer_j.mul(ind));
            entry_multiplier = entry_multiplier.add(multiplier_j.mul(ind));
            j += 1;
        }
        (entry_answer, entry_multiplier)
    }

    /// Absorbs `terms` into the bucket selected by the one-hot bitmap; every
    /// other bucket is written back unchanged through the same selection.
    pub fn update(&mut self, log_size: &LogSizeBitmap, terms: &Vec<QM31>)
        requires
            old(self).wf(),
            log_size.wf(),
            log_size.min_log_size == old(self).min_log_size,
            log_size.bits@.len() == old(self).n_buckets(),
            forall|t: int| 0 <= t < terms@.len() ==> (#[trigger] terms@[t]).wf(),
        ensures
            final(self).wf(),
            final(self).min_log_size == old(self).min_log_size,
            final(self).max_log_size == old(self).max_log_size,
            final(self).random_coeff == old(self).random_coeff,
            forall|j: int|
                0 <= j < old(self).n_buckets() && j != old(self).bucket_index_of(
                    log_size.active_log_size(),
                ) ==> #[trigger] final(self).entries()[j] == old(self).entries()[j],
            final(self).bucket(old(self).bucket_index_of(log_size.active_log_size()))
                == accum_terms(
                old(self).bucket(old(self).bucket_index_of(log_size.active_log_size())),
                views_of(terms@),
                old(self).random_coeff@,
            ),
    {
        let n: usize = crate::bucket_map::bucket_map_len(&self.map);
        let ghost k = log_size.active_offset();
        let ghost jstar = n - 1 - k;
        proof {
            assert(crate::bitmap::one_hot(log_size.bits@, k));
            assert(jstar == old(self).bucket_index_of(log_size.active_log_size()));
        }
        let selected = self.select_bucket(log_size);
        let (entry_answer, entry_multiplier) = self.accumulate(selected.0, selected.1, terms);
        let ghost goal = accum_terms(
            self.bucket(jstar),
            views_of(terms@),
            self.random_coeff@,
        );
        let mut j: usize = 0;
        while j < n
            invariant
                self.min_log_size == old(self).min_log_size,
                self.max_log_size == old(self).max_log_size,
                self.random_coeff == old(self).random_coeff,
                old(self).wf(),
                n == old(self).n_buckets(),
                log_size.bits@.len() == n,
                crate::bitmap::one_hot(log_size.bits@, k),
                jstar == n - 1 - k,
                0 <= jstar < n,
                j <= n,
                entry_answer.wf(),
                entry_multiplier.wf(),
                (entry_answer@, entry_multiplier@) == goal,
                self.entries().len() == n,
                forall|t: int| j <= t < n ==> #[trigger] self.entries()[t] == old(self).entries()[t],
                forall|t: int|
                    0 <= t < j && t != jstar ==> #[trigger] self.entries()[t] == old(
                        self,
                    ).entries()[t],
                j > jstar ==> self.entries()[jstar] == (
                    old(self).entries()[jstar].0,
                    (qm31_limbs(entry_answer), qm31_limbs(entry_multiplier)),
                ),
            decreases n - j,
        {
            let (key, pair) = bucket_map_get_index(&self.map, j);
            let bit = log_size.bit(n - 1 - j);
            let new_answer = QM31::from_limbs(pair.0).select(entry_answer, bit);
            let new_multiplier = QM31::from_limbs(pair.1).select(entry_multiplier, bit);
            let written = (new_answer.to_limbs(), new_multiplier.to_limbs());
            proof {
                assert(bit <==> n - 1 - j == k);
                assert(bit <==> j == jstar);
                assert((pair.0, pair.1) == pair);
                assert((key, pair) == self.entries()[j as int]);
            }
            let ghost before = self.entries();
            bucket_map_set_index(&mut self.map, j, written);
            proof {
                assert(self.entries() == before.update(
                    j as int,
                    (before[j as int].0, written),
                ));
                if !bit {
                    assert(written == pair);
                    assert(self.entries()[j as int] == old(self).entries()[j as int]);
                } else {
                    assert(written == (qm31_limbs(entry_answer), qm31_limbs(entry_multiplier)));
                    assert(self.entries()[j as int] == (
                        old(self).entries()[j as int].0,
                        (qm31_limbs(entry_answer), qm31_limbs(entry_multiplier)),
                    ));
                }
                assert(forall|t: int|
                    0 <= t < n && t != j ==> #[trigger] self.entries()[t] == before[t]);
            }
            j += 1;
        }
    }

    /// Absorbs `terms` directly into the bucket for a statically-known
    /// log-size: the same accumulation, with no selection.
    pub fn update_fix_log_size(&mut self, log_size: u32, terms: &Vec<QM31>)
        requires
            old(self).wf(),
            old(self).min_log_size <= log_size <= old(self).max_log_size,
            forall|t: int| 0 <= t < terms@.len() ==> (#[trigger] terms@[t]).wf(),
        ensures
            final(self).wf(),
            final(self).min_log_size == old(self).min_log_size,
            final(self).max_log_size == old(self).max_log_size,
            final(self).random_coeff == old(self).random_coeff,
            forall|j: int|
                0 <= j < old(self).n_buckets() && j != old(self).bucket_index_of(log_size as int)
                    ==> #[trigger] final(self).entries()[j] == old(self).entries()[j],
            final(self).bucket(old(self).bucket_index_of(log_size as int)) == accum_terms(
                old(self).bucket(old(self).bucket_index_of(log_size as int)),
                views_of(terms@),
                old(self).random_coeff@,
            ),
    {
        let idx: usize = (self.max_log_size - log_size) as usize;
        let (key, pair) = bucket_map_get_index(&self.map, idx);
        let answer = QM31::from_limbs(pair.0);
        let multiplier = QM31::from_limbs(pair.1);
        let (new_answer, new_multiplier) = self.accumulate(answer, multiplier, terms);
        bucket_map_set_index(
            &mut self.map,
            idx,
            (new_answer.to_limbs(), new_multiplier.to_limbs()),
        );
    }

    /// The accumulation arithmetic shared by both update paths: the answer
    /// absorbs each term weighted by the running multiplier, which advances
    /// by one power of the random coefficient per term.
    fn accumulate(&self, answer: QM31, multiplier: QM31, terms: &Vec<QM31>) -> (r: (QM31, QM31))
        requires
            self.random_coeff.wf(),
            answer.wf(),
            multiplier.wf(),
            forall|t: int| 0 <= t < terms@.len() ==> (#[trigger] terms@[t]).wf(),
        ensures
            r.0.wf(),
            r.1.wf(),
            (r.0@, r.1@) == accum_terms(
                (answer@, multiplier@),
                views_of(terms@),
                self.random_coeff@,
            ),
    {
        let ghost b0 = (answer@, multiplier@);
        let ghost tseq = views_of(terms@);
        let ghost r_spec = self.random_coeff@;
        let mut acc_answer = answer;
        let mut acc_multiplier = multiplier;
        let mut t: usize = 0;
        proof {
            assert(tseq.subrange(0, 0) =~= Seq::<ExtVal>::empty());
        }
        while t < terms.len()
            invariant
                self.random_coeff.wf(),
                r_spec == self.random_coeff@,
                tseq == views_of(terms@),
                forall|i: int| 0 <= i < terms@.len() ==> (#[trigger] terms@[i]).wf(),
                t <= terms@.len(),
                acc_answer.wf(),
                acc_multiplier.wf(),
                (acc_answer@, acc_multiplier@) == accum_terms(b0, tseq.subrange(0, t as int), r_spec),
            decreases terms@.len() - t,
        {
            let term = terms[t];
            proof {
                assert(tseq.subrange(0, t as int).push(tseq[t as int]) =~= tseq.subrange(
                    0,
                    t as int + 1,
                ));
                lemma_accum_terms_push(b0, tseq.subrange(0, t as int), tseq[t as int], r_spec);
            }
            acc_answer = acc_answer.add(term.mul(acc_multiplier));
            acc_multiplier = acc_multiplier.mul(self.random_coeff);
            t += 1;
        }
        proof {
            assert(tseq.subrange(0, terms@.len() as int) =~= tseq);
        }
        (acc_answer, acc_multiplier)
    }

    /// The answer half of every bucket, paired with its log-size, largest
    /// log-size first: what the folding stage consumes.
    pub fn finalize(&self) -> (r: Vec<(u32, QM31)>)
        requires
            self.wf(),
        ensures
            r@.len() == self.n_buckets(),
            forall|j: int|
                0 <= j < r@.len() ==> (#[trigger] r@[j]).0 == self.max_log_size - j && r@[j].1.wf()
                    && r@[j].1@ == self.bucket(j).0,
    {
        let n: usize = crate::bucket_map::bucket_map_len(&self.map);
        let mut out: Vec<(u32, QM31)> = Vec::new();
        let mut j: usize = 0;
        while j < n
            invariant
                self.wf(),
                n == self.n_buckets(),
                j <= n,
                out@.len() == j,
                forall|t: int|
                    0 <= t < j ==> (#[trigger] out@[t]).0 == self.max_log_size - t && out@[t].1.wf()
                        && out@[t].1@ == self.bucket(t).0,
            decreases n - j,
        {
            let (key, pair) = bucket_map_get_index(&self.map, j);
            out.push((key, QM31::from_limbs(pair.0)));
            j += 1;
        }
        out
    }
}

} // verus!
