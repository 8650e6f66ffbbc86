//! Allocation of sampled values into per-component arrays.
//!
//! Every component declares a fixed column count; the flat stream of
//! sampled values must be consumed exactly, with no remainder — a leftover
//! or a shortfall is the fatal offset-consistency error. Interaction
//! components are laid out as rows of four quartic lanes, with the last
//! row's data read from each column's second sample and the claimed sum
//! (`presum`) from the first.
use vstd::prelude::*;
use crate::errors::StructuralError;
use crate::field::QM31;

verus! {

/// The total of a count list.
pub open spec fn counts_sum(s: Seq<usize>) -> int
    decreases s.len(),
{
    if s.len() == 0 {
        0
    } else {
        counts_sum(s.drop_last()) + s.last()
    }
}

/// The start of component `i` in the flat stream.
pub open spec fn counts_prefix(s: Seq<usize>, i: int) -> int {
    counts_sum(s.subrange(0, i))
}

/// One more component moves the prefix by its count.
pub proof fn lemma_counts_prefix_step(s: Seq<usize>, i: int)
    requires
        0 <= i < s.len(),
    ensures
        counts_prefix(s, i + 1) == counts_prefix(s, i) + s[i],
{
    let sub1 = s.subrange(0, i + 1);
    assert(sub1.drop_last() =~= s.subrange(0, i));
    assert(sub1.last() == s[i]);
}

/// No prefix exceeds the total.
pub proof fn lemma_counts_prefix_le_sum(s: Seq<usize>, i: int)
    requires
        0 <= i <= s.len(),
    ensures
        counts_prefix(s, i) <= counts_sum(s),
    decreases s.len() - i,
{
    if i == s.len() {
        assert(s.subrange(0, i) =~= s);
    } else {
        lemma_counts_prefix_step(s, i);
        lemma_counts_prefix_le_sum(s, i + 1);
    }
}

/// Splits the flat stream of sampled values into one array per component,
/// of exactly the declared lengths and in order. Any mismatch between the
/// declared counts and the stream — a shortfall as much as a remainder —
/// is the fatal offset-consistency error: not all sampled values would be
/// consumed.
pub fn allocate_samples(sampled_values: &Vec<QM31>, counts: &Vec<usize>) -> (r: Result<
    Vec<Vec<QM31>>,
    StructuralError,
>)
    ensures
        r is Ok <==> counts_sum(counts@) == sampled_values@.len(),
        r is Err ==> r->Err_0 == StructuralError::OffsetMismatch,
        r is Ok ==> ({
            let out = r->Ok_0;
            &&& out@.len() == counts@.len()
            &&& forall|i: int|
                0 <= i < counts@.len() ==> (#[trigger] out@[i])@ == sampled_values@.subrange(
                    counts_prefix(counts@, i),
                    counts_prefix(counts@, i) + counts@[i],
                )
        }),
{
    let n = counts.len();
    let total = sampled_values.len();
    let mut out: Vec<Vec<QM31>> = Vec::new();
    let mut offset: usize = 0;
    let mut i: usize = 0;
    proof {
        assert(counts@.subrange(0, 0) =~= Seq::<usize>::empty());
    }
    while i < n
        invariant
            n == counts@.len(),
            total == sampled_values@.len(),
            i <= n,
            offset <= total,
            offset == counts_prefix(counts@, i as int),
            out@.len() == i,
            forall|t: int|
                0 <= t < i ==> (#[trigger] out@[t])@ == sampled_values@.subrange(
                    counts_prefix(counts@, t),
                    counts_prefix(counts@, t) + counts@[t],
                ),
        decreases n - i,
    {
        let count = counts[i];
        if count > total - offset {
            proof {
                lemma_counts_prefix_step(counts@, i as int);
                lemma_counts_prefix_le_sum(counts@, i as int + 1);
            }
            return Err(StructuralError::OffsetMismatch);
        }
        let mut part: Vec<QM31> = Vec::new();
        let mut j: usize = 0;
        while j < count
            invariant
                total == sampled_values@.len(),
                offset + count <= total,
                j <= count,
                part@.len() == j,
                forall|t: int|
                    0 <= t < j ==> #[trigger] part@[t] == sampled_values@[offset + t],
            decreases count - j,
        {
            part.push(sampled_values[offset + j]);
            j += 1;
        }
        proof {
            lemma_counts_prefix_step(counts@, i as int);
            assert(part@ =~= sampled_values@.subrange(
                offset as int,
                offset as int + count as int,
            ));
        }
        out.push(part);
        offset += count;
        i += 1;
    }
    proof {
        assert(counts@.subrange(0, n as int) =~= counts@);
    }
    if offset != total {
        return Err(StructuralError::OffsetMismatch);
    }
    Ok(out)
}

/// One interaction component's sampled values: rows of four quartic lanes
/// plus the claimed total sum of its contribution, sampled at a shifted
/// point.
pub struct InteractionEntry {
    /// One row per logUp fraction pair; each row holds four lane samples.
    pub data: Vec<Vec<QM31>>,
    /// The four lane samples of the claimed sum.
    pub presum: Vec<QM31>,
}

/// Reads one interaction component out of the per-column sample lists,
/// starting at `offset`: row `i` takes the first sample of columns
/// `offset + 4 i ..`, except the last row, which takes their second sample;
/// the claimed sum takes the first sample of those same last four columns.
/// Columns with too few samples, or too few columns, are the fatal
/// offset-consistency error.
pub fn allocate_interaction_entry(
    sampled_values: &Vec<Vec<QM31>>,
    offset: usize,
    n_rows: usize,
) -> (r: Result<InteractionEntry, StructuralError>)
    requires
        1 <= n_rows,
        4 * n_rows <= usize::MAX - offset,
    ensures
        r is Err ==> r->Err_0 == StructuralError::OffsetMismatch,
        r is Ok <==> (offset + 4 * n_rows <= sampled_values@.len() && (forall|c: int|
            offset <= c < offset + 4 * (n_rows - 1) ==> (#[trigger] sampled_values@[c])@.len()
                >= 1) && (forall|c: int|
            offset + 4 * (n_rows - 1) <= c < offset + 4 * n_rows
                ==> (#[trigger] sampled_values@[c])@.len() >= 2)),
        r is Ok ==> ({
            let e = r->Ok_0;
            &&& e.data@.len() == n_rows
            &&& forall|i: int|
                0 <= i < n_rows ==> (#[trigger] e.data@[i])@.len() == 4
            &&& forall|i: int, j: int|
                0 <= i < n_rows - 1 && 0 <= j < 4 ==> (#[trigger] e.data@[i]@[j])
                    == sampled_values@[offset + 4 * i + j]@[0]
            &&& forall|j: int|
                0 <= j < 4 ==> (#[trigger] e.data@[n_rows - 1 as int]@[j]) == sampled_values@[
                    offset + 4 * (n_rows - 1) + j
                ]@[1]
            &&& e.presum@.len() == 4
            &&& forall|j: int|
                0 <= j < 4 ==> (#[trigger] e.presum@[j]) == sampled_values@[offset + 4 * (n_rows
                    - 1) + j]@[0]
        }),
{
    if sampled_values.len() < 4 * n_rows || offset > sampled_values.len() - 4 * n_rows {
        return Err(StructuralError::OffsetMismatch);
    }
    let mut data: Vec<Vec<QM31>> = Vec::new();
    let mut i: usize = 0;
    while i < n_rows - 1
        invariant
            1 <= n_rows,
            4 * n_rows <= usize::MAX - offset,
            offset + 4 * n_rows <= sampled_values@.len(),
            i <= n_rows - 1,
            data@.len() == i,
            forall|c: int|
                offset <= c < offset + 4 * i ==> (#[trigger] sampled_values@[c])@.len() >= 1,
            forall|t: int|
                0 <= t < i ==> (#[trigger] data@[t])@.len() == 4,
            forall|t: int, j: int|
                0 <= t < i && 0 <= j < 4 ==> (#[trigger] data@[t]@[j]) == sampled_values@[offset
                    + 4 * t + j]@[0],
        decreases n_rows - 1 - i,
    {
        let mut row: Vec<QM31> = Vec::new();
        let mut j: usize = 0;
        while j < 4
            invariant
                1 <= n_rows,
                i < n_rows - 1,
                4 * n_rows <= usize::MAX - offset,
                offset + 4 * n_rows <= sampled_values@.len(),
                j <= 4,
                row@.len() == j,
                forall|c: int|
                    offset + 4 * i <= c < offset + 4 * i + j ==> (#[trigger] sampled_values@[
                        c
                    ])@.len() >= 1,
                forall|t: int|
                    0 <= t < j ==> (#[trigger] row@[t]) == sampled_values@[offset + 4 * i + t]@[0],
            decreases 4 - j,
        {
            let column = &sampled_values[offset + 4 * i + j];
            if column.len() < 1 {
                return Err(StructuralError::OffsetMismatch);
            }
            row.push(column[0]);
            j += 1;
        }
        data.push(row);
        i += 1;
    }
    let last_base: usize = offset + 4 * (n_rows - 1);
    let mut last_row: Vec<QM31> = Vec::new();
    let mut presum: Vec<QM31> = Vec::new();
    let mut j: usize = 0;
    while j < 4
        invariant
            1 <= n_rows,
            4 * n_rows <= usize::MAX - offset,
            last_base == offset + 4 * (n_rows - 1),
            offset + 4 * n_rows <= sampled_values@.len(),
            j <= 4,
            last_row@.len() == j,
            presum@.len() == j,
            forall|c: int|
                last_base <= c < last_base + j ==> (#[trigger] sampled_values@[c])@.len() >= 2,
            forall|t: int|
                0 <= t < j ==> (#[trigger] last_row@[t]) == sampled_values@[last_base + t]@[1],
            forall|t: int|
                0 <= t < j ==> (#[trigger] presum@[t]) == sampled_values@[last_base + t]@[0],
        decreases 4 - j,
    {
        let column = &sampled_values[last_base + j];
        if column.len() < 2 {
            return Err(StructuralError::OffsetMismatch);
        }
        presum.push(column[0]);
        last_row.push(column[1]);
        j += 1;
    }
    data.push(last_row);
    Ok(InteractionEntry { data, presum })
}

} // verus!
