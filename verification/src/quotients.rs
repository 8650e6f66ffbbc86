//! Per-query quotient evaluation, driving the oblivious accumulator.
//!
//! Every column family of the proof — trace-like columns sampled in the base
//! field, interaction columns sampled in the quartic extension, and the
//! shift-only check of each interaction component's claimed sum — reduces to
//! the same quotient formula
//! `denominator_inverse * (c * queried - a * domain_y - b)`
//! applied per column or per quadratic lane, with the terms fed to the
//! accumulator in the protocol's declared component order. The families are
//! held as one declarative table (`ColumnFamily`) and evaluated by a single
//! uniform routine, instead of one hand-written function per component.
use vstd::prelude::*;
use crate::accumulator::{AnswerAccumulator, accum_terms};
use crate::bitmap::LogSizeBitmap;
use crate::bucket_map::BucketPair;
use crate::errors::StructuralError;
use crate::field::{
    CM31, ExtVal, M31, QM31, cm_inv, cmul, csub, limbs_view, limbs_wf, views_of,
};
use crate::line::{CirclePointM31, CirclePointQM31, complex_conjugate_line_coeffs};

verus! {

/// The `j`-th base-field coordinate of a quartic value, in decomposition
/// order.
pub open spec fn lane(v: ExtVal, j: int) -> int {
    if j == 0 {
        v.0.0
    } else if j == 1 {
        v.0.1
    } else if j == 2 {
        v.1.0
    } else {
        v.1.1
    }
}

/// One column's quotient contribution at one query:
/// `denominator_inverse * (c * queried - a * domain_y - b)`, embedded into
/// the quartic extension.
pub open spec fn scalar_quotient_term(
    denom_inv: (int, int),
    c: (int, int),
    a: (int, int),
    b: (int, int),
    queried: int,
    domain_y: int,
) -> ExtVal {
    (
        cmul(denom_inv, csub(csub(cmul(c, (queried, 0int)), cmul(a, (domain_y, 0int))), b)),
        (0int, 0int),
    )
}

/// The spec values of a vector of line-coefficient pairs.
pub open spec fn coeff_views(s: Seq<(CM31, CM31)>) -> Seq<((int, int), (int, int))> {
    s.map_values(|p: (CM31, CM31)| (p.0@, p.1@))
}

/// Every coefficient pair is well-formed.
pub open spec fn coeffs_wf(s: Seq<(CM31, CM31)>) -> bool {
    forall|i: int| 0 <= i < s.len() ==> (#[trigger] s[i]).0.wf() && s[i].1.wf()
}

/// The spec values of a vector of base-field elements.
pub open spec fn m31_views(s: Seq<M31>) -> Seq<int> {
    s.map_values(|m: M31| m@)
}

/// Every element is well-formed.
pub open spec fn m31s_wf(s: Seq<M31>) -> bool {
    forall|i: int| 0 <= i < s.len() ==> (#[trigger] s[i]).wf()
}

/// The terms of a trace-like family: one per base-field column.
pub open spec fn trace_family_terms(
    denom_inv: (int, int),
    c: (int, int),
    consts: Seq<((int, int), (int, int))>,
    queried: Seq<int>,
    domain_y: int,
) -> Seq<ExtVal> {
    Seq::new(
        consts.len(),
        |i: int| scalar_quotient_term(denom_inv, c, consts[i].0, consts[i].1, queried[i], domain_y),
    )
}

/// The four terms of one quartic-sampled value: one per quadratic lane.
pub open spec fn row_quotient_terms(
    denom_inv: (int, int),
    c: (int, int),
    consts: Seq<((int, int), (int, int))>,
    queried: ExtVal,
    domain_y: int,
) -> Seq<ExtVal> {
    Seq::new(
        4,
        |j: int| scalar_quotient_term(
            denom_inv,
            c,
            consts[j].0,
            consts[j].1,
            lane(queried, j),
            domain_y,
        ),
    )
}

/// One interaction data row: the line coefficients of its four lanes and
/// the value queried for it.
pub struct InteractionRow {
    pub constants: Vec<(CM31, CM31)>,
    pub queried: QM31,
}

impl InteractionRow {
    pub open spec fn wf(self) -> bool {
        &&& self.constants@.len() == 4
        &&& coeffs_wf(self.constants@)
        &&& self.queried.wf()
    }

    /// Pairs four lane coefficients with the row's queried value; any other
    /// coefficient count is the structural pairing error.
    pub fn new(constants: Vec<(CM31, CM31)>, queried: QM31) -> (r: Result<
        InteractionRow,
        StructuralError,
    >)
        ensures
            r is Ok <==> constants@.len() == 4,
            r is Ok ==> r->Ok_0 == (InteractionRow { constants, queried }),
            r is Err ==> r->Err_0 == StructuralError::LengthMismatch,
    {
        if constants.len() == 4 {
            Ok(InteractionRow { constants, queried })
        } else {
            Err(StructuralError::LengthMismatch)
        }
    }
}

/// Every row is well-formed.
pub open spec fn rows_wf(rows: Seq<InteractionRow>) -> bool {
    forall|i: int| 0 <= i < rows.len() ==> (#[trigger] rows[i]).wf()
}

/// The flat terms of an interaction family: four per row, rows in order.
pub open spec fn interaction_family_terms(
    denom_inv: (int, int),
    c: (int, int),
    rows: Seq<InteractionRow>,
    domain_y: int,
) -> Seq<ExtVal>
    decreases rows.len(),
{
    if rows.len() == 0 {
        Seq::<ExtVal>::empty()
    } else {
        interaction_family_terms(denom_inv, c, rows.drop_last(), domain_y) + row_quotient_terms(
            denom_inv,
            c,
            coeff_views(rows.last().constants@),
            rows.last().queried@,
            domain_y,
        )
    }
}

/// How a family knows its log-size: through a one-hot bitmap when it is
/// runtime-dependent, or directly when it is a protocol constant.
pub enum LogSizeSel {
    Dynamic(LogSizeBitmap),
    Fixed(u32),
}

impl LogSizeSel {
    pub open spec fn wf(self, min: u32, max: u32) -> bool {
        match self {
            LogSizeSel::Dynamic(bm) => {
                &&& bm.wf()
                &&& bm.min_log_size == min
                &&& bm.bits@.len() == max - min + 1
                &&& min <= max
            },
            LogSizeSel::Fixed(s) => min <= s <= max,
        }
    }

    /// The log-size selected.
    pub open spec fn log_size(self) -> int {
        match self {
            LogSizeSel::Dynamic(bm) => bm.active_log_size(),
            LogSizeSel::Fixed(s) => s as int,
        }
    }
}

/// A selected log-size stays inside its admissible range.
pub proof fn lemma_log_size_sel_range(sel: LogSizeSel, min: u32, max: u32)
    requires
        sel.wf(min, max),
    ensures
        min <= sel.log_size() <= max,
{
    match sel {
        LogSizeSel::Dynamic(bm) => {
            let k = bm.active_offset();
            assert(crate::bitmap::one_hot(bm.bits@, k));
        },
        LogSizeSel::Fixed(s) => {},
    }
}

/// One column family of the proof, as one entry of the declarative
/// component table: everything the per-query evaluator needs to produce the
/// family's quotient terms and route them to the right accumulator bucket.
pub enum ColumnFamily {
    /// Base-field columns with one line-coefficient pair each.
    Trace { log_size: LogSizeSel, constants: Vec<(CM31, CM31)>, queried: Vec<M31> },
    /// Quartic-sampled columns, four lanes per row.
    Interaction { log_size: LogSizeSel, rows: Vec<InteractionRow> },
    /// The claimed-sum check of an interaction family, evaluated at its
    /// shifted point against the last queried value.
    InteractionShift {
        log_size: LogSizeSel,
        presum_constants: Vec<(CM31, CM31)>,
        shifted_point: CirclePointQM31,
        queried_value: QM31,
    },
}

/// A family is well-formed for the accumulator range `[min, max]`.
pub open spec fn family_wf(f: ColumnFamily, min: u32, max: u32) -> bool {
    match f {
        ColumnFamily::Trace { log_size, constants, queried } => {
            &&& log_size.wf(min, max)
            &&& constants@.len() == queried@.len()
            &&& coeffs_wf(constants@)
            &&& m31s_wf(queried@)
        },
        ColumnFamily::Interaction { log_size, rows } => {
            &&& log_size.wf(min, max)
            &&& rows_wf(rows@)
        },
        ColumnFamily::InteractionShift { log_size, presum_constants, shifted_point, queried_value } => {
            &&& log_size.wf(min, max)
            &&& presum_constants@.len() == 4
            &&& coeffs_wf(presum_constants@)
            &&& shifted_point.wf()
            &&& queried_value.wf()
        },
    }
}

/// The log-size a family accumulates at.
pub open spec fn family_log_size(f: ColumnFamily) -> int {
    match f {
        ColumnFamily::Trace { log_size, .. } => log_size.log_size(),
        ColumnFamily::Interaction { log_size, .. } => log_size.log_size(),
        ColumnFamily::InteractionShift { log_size, .. } => log_size.log_size(),
    }
}

/// The terms a family contributes at one query, given the selected domain
/// point and denominator inverse. The shift-only family ignores the table
/// inverse: its denominator comes from its own shifted point.
pub open spec fn family_terms(
    f: ColumnFamily,
    oods_c: (int, int),
    domain_point: (int, int),
    denom_inv: (int, int),
) -> Seq<ExtVal> {
    match f {
        ColumnFamily::Trace { constants, queried, .. } => trace_family_terms(
            denom_inv,
            oods_c,
            coeff_views(constants@),
            m31_views(queried@),
            domain_point.1,
        ),
        ColumnFamily::Interaction { rows, .. } => interaction_family_terms(
            denom_inv,
            oods_c,
            rows@,
            domain_point.1,
        ),
        ColumnFamily::InteractionShift { presum_constants, shifted_point, queried_value, .. } => {
            let sx = shifted_point.x@;
            let sy = shifted_point.y@;
            let shift_denom_inv = cm_inv(
                csub(
                    cmul(csub(sx.0, (domain_point.0, 0int)), sy.1),
                    cmul(csub(sy.0, (domain_point.1, 0int)), sx.1),
                ),
            );
            row_quotient_terms(
                shift_denom_inv,
                sy.1,
                coeff_views(presum_constants@),
                queried_value@,
                domain_point.1,
            )
        },
    }
}

impl ColumnFamily {
    /// Pairs a trace family's coefficients with its queried columns; unequal
    /// counts are the structural pairing error, raised when the family is
    /// allocated, never silently defaulted.
    pub fn new_trace(log_size: LogSizeSel, constants: Vec<(CM31, CM31)>, queried: Vec<M31>) -> (r:
        Result<ColumnFamily, StructuralError>)
        ensures
            r is Ok <==> constants@.len() == queried@.len(),
            r is Ok ==> r->Ok_0 == (ColumnFamily::Trace { log_size, constants, queried }),
            r is Err ==> r->Err_0 == StructuralError::LengthMismatch,
    {
        if constants.len() == queried.len() {
            Ok(ColumnFamily::Trace { log_size, constants, queried })
        } else {
            Err(StructuralError::LengthMismatch)
        }
    }

    /// Wraps interaction rows as a family.
    pub fn new_interaction(log_size: LogSizeSel, rows: Vec<InteractionRow>) -> (r: ColumnFamily)
        ensures
            r == (ColumnFamily::Interaction { log_size, rows }),
    {
        ColumnFamily::Interaction { log_size, rows }
    }

    /// Pairs an interaction family's four presum coefficients with its
    /// shifted point and last queried value; any other coefficient count is
    /// the structural pairing error.
    pub fn new_interaction_shift(
        log_size: LogSizeSel,
        presum_constants: Vec<(CM31, CM31)>,
        shifted_point: CirclePointQM31,
        queried_value: QM31,
    ) -> (r: Result<ColumnFamily, StructuralError>)
        ensures
            r is Ok <==> presum_constants@.len() == 4,
            r is Ok ==> r->Ok_0 == (ColumnFamily::InteractionShift {
                log_size,
                presum_constants,
                shifted_point,
                queried_value,
            }),
            r is Err ==> r->Err_0 == StructuralError::LengthMismatch,
    {
        if presum_constants.len() == 4 {
            Ok(
                ColumnFamily::InteractionShift {
                    log_size,
                    presum_constants,
                    shifted_point,
                    queried_value,
                },
            )
        } else {
            Err(StructuralError::LengthMismatch)
        }
    }
}

/// Derives the line-coefficient pair of every sampled column at the given
/// point: the quotient-constants builder, shared by every family.
pub fn build_quotient_constants(point: &CirclePointQM31, samples: &Vec<QM31>) -> (r: Vec<
    (CM31, CM31),
>)
    requires
        point.wf(),
        point.y@.1 != (0int, 0int),
        forall|i: int| 0 <= i < samples@.len() ==> (#[trigger] samples@[i]).wf(),
    ensures
        r@.len() == samples@.len(),
        coeffs_wf(r@),
        forall|i: int|
            0 <= i < r@.len() ==> (#[trigger] r@[i]).0@ == samples@[i]@.1 && r@[i].1@ == csub(
                cmul(samples@[i]@.0, point.y@.1),
                cmul(samples@[i]@.1, point.y@.0),
            ),
{
    let n = samples.len();
    let mut out: Vec<(CM31, CM31)> = Vec::new();
    let mut i: usize = 0;
    while i < n
        invariant
            point.wf(),
            point.y@.1 != (0int, 0int),
            n == samples@.len(),
            forall|t: int| 0 <= t < n ==> (#[trigger] samples@[t]).wf(),
            i <= n,
            out@.len() == i,
            coeffs_wf(out@),
            forall|t: int|
                0 <= t < i ==> (#[trigger] out@[t]).0@ == samples@[t]@.1 && out@[t].1@ == csub(
                    cmul(samples@[t]@.0, point.y@.1),
                    cmul(samples@[t]@.1, point.y@.0),
                ),
        decreases n - i,
    {
        let coeffs = complex_conjugate_line_coeffs(point, &samples[i]);
        out.push((coeffs[0], coeffs[1]));
        i += 1;
    }
    out
}

/// The oblivious path agrees with the direct computation: a family
/// dispatched through a one-hot bitmap whose active log-size is `s` leaves
/// the accumulator exactly as the same family with the fixed log-size `s`
/// does — the bitmap selection changes nothing of the answer.
pub proof fn lemma_oblivious_matches_direct(
    entries: Seq<(u32, BucketPair)>,
    min: u32,
    rc: ExtVal,
    oods_c: (int, int),
    dps: Seq<Vec<CirclePointM31>>,
    dis: Seq<Vec<CM31>>,
    bm: LogSizeBitmap,
    s: u32,
    constants: Vec<(CM31, CM31)>,
    queried: Vec<M31>,
    q: int,
)
    requires
        bm.active_log_size() == s,
    ensures
        entries_after_family(
            entries,
            min,
            rc,
            oods_c,
            dps,
            dis,
            ColumnFamily::Trace { log_size: LogSizeSel::Dynamic(bm), constants, queried },
            q,
        ) == entries_after_family(
            entries,
            min,
            rc,
            oods_c,
            dps,
            dis,
            ColumnFamily::Trace { log_size: LogSizeSel::Fixed(s), constants, queried },
            q,
        ),
{
}

/// One scalar quotient term, as executable arithmetic.
pub fn scalar_term(
    denominator_inverse: CM31,
    c: CM31,
    a: CM31,
    b: CM31,
    queried: M31,
    domain_y: M31,
) -> (r: QM31)
    requires
        denominator_inverse.wf(),
        c.wf(),
        a.wf(),
        b.wf(),
        queried.wf(),
        domain_y.wf(),
    ensures
        r.wf(),
        r@ == scalar_quotient_term(denominator_inverse@, c@, a@, b@, queried@, domain_y@),
{
    QM31::from_cm31(
        denominator_inverse.mul(c.mul_m31(queried).sub(a.mul_m31(domain_y)).sub(b)),
    )
}

/// The terms of a trace family at one query.
fn trace_terms_exec(
    denominator_inverse: CM31,
    c: CM31,
    constants: &Vec<(CM31, CM31)>,
    queried: &Vec<M31>,
    domain_y: M31,
) -> (r: Vec<QM31>)
    requires
        denominator_inverse.wf(),
        c.wf(),
        domain_y.wf(),
        constants@.len() == queried@.len(),
        coeffs_wf(constants@),
        m31s_wf(queried@),
    ensures
        forall|i: int| 0 <= i < r@.len() ==> (#[trigger] r@[i]).wf(),
        views_of(r@) == trace_family_terms(
            denominator_inverse@,
            c@,
            coeff_views(constants@),
            m31_views(queried@),
            domain_y@,
        ),
{
    let n = constants.len();
    let mut out: Vec<QM31> = Vec::new();
    let mut i: usize = 0;
    while i < n
        invariant
            denominator_inverse.wf(),
            c.wf(),
            domain_y.wf(),
            n == constants@.len(),
            constants@.len() == queried@.len(),
            coeffs_wf(constants@),
            m31s_wf(queried@),
            i <= n,
            out@.len() == i,
            forall|t: int| 0 <= t < i ==> (#[trigger] out@[t]).wf(),
            forall|t: int|
                0 <= t < i ==> (#[trigger] out@[t])@ == scalar_quotient_term(
                    denominator_inverse@,
                    c@,
                    constants@[t].0@,
                    constants@[t].1@,
                    queried@[t]@,
                    domain_y@,
                ),
        decreases n - i,
    {
        let pair = constants[i];
        out.push(scalar_term(denominator_inverse, c, pair.0, pair.1, queried[i], domain_y));
        i += 1;
    }
    proof {
        assert(views_of(out@) =~= trace_family_terms(
            denominator_inverse@,
            c@,
            coeff_views(constants@),
            m31_views(queried@),
            domain_y@,
        ));
    }
    out
}

/// The four terms of one quartic-sampled row.
fn row_terms_exec(
    denominator_inverse: CM31,
    c: CM31,
    constants: &Vec<(CM31, CM31)>,
    queried: QM31,
    domain_y: M31,
) -> (r: Vec<QM31>)
    requires
        denominator_inverse.wf(),
        c.wf(),
        domain_y.wf(),
        queried.wf(),
        constants@.len() == 4,
        coeffs_wf(constants@),
    ensures
        forall|i: int| 0 <= i < r@.len() ==> (#[trigger] r@[i]).wf(),
        views_of(r@) == row_quotient_terms(
            denominator_inverse@,
            c@,
            coeff_views(constants@),
            queried@,
            domain_y@,
        ),
{
    let lanes = queried.decompose_m31();
    let mut out: Vec<QM31> = Vec::new();
    let c0 = constants[0];
    let c1 = constants[1];
    let c2 = constants[2];
    let c3 = constants[3];
    out.push(scalar_term(denominator_inverse, c, c0.0, c0.1, lanes[0], domain_y));
    out.push(scalar_term(denominator_inverse, c, c1.0, c1.1, lanes[1], domain_y));
    out.push(scalar_term(denominator_inverse, c, c2.0, c2.1, lanes[2], domain_y));
    out.push(scalar_term(denominator_inverse, c, c3.0, c3.1, lanes[3], domain_y));
    proof {
        assert(views_of(out@) =~= row_quotient_terms(
            denominator_inverse@,
            c@,
            coeff_views(constants@),
            queried@,
            domain_y@,
        ));
    }
    out
}

/// The flat terms of an interaction family at one query.
fn interaction_terms_exec(
    denominator_inverse: CM31,
    c: CM31,
    rows: &Vec<InteractionRow>,
    domain_y: M31,
) -> (r: Vec<QM31>)
    requires
        denominator_inverse.wf(),
        c.wf(),
        domain_y.wf(),
        rows_wf(rows@),
    ensures
        forall|i: int| 0 <= i < r@.len() ==> (#[trigger] r@[i]).wf(),
        views_of(r@) == interaction_family_terms(denominator_inverse@, c@, rows@, domain_y@),
{
    let n = rows.len();
    let mut out: Vec<QM31> = Vec::new();
    let mut i: usize = 0;
    proof {
        assert(rows@.subrange(0, 0) =~= Seq::<InteractionRow>::empty());
        assert(views_of(out@) =~= Seq::<ExtVal>::empty());
    }
    while i < n
        invariant
            denominator_inverse.wf(),
            c.wf(),
            domain_y.wf(),
            rows_wf(rows@),
            n == rows@.len(),
            i <= n,
            forall|t: int| 0 <= t < out@.len() ==> (#[trigger] out@[t]).wf(),
            views_of(out@) == interaction_family_terms(
                denominator_inverse@,
                c@,
                rows@.subrange(0, i as int),
                domain_y@,
            ),
        decreases n - i,
    {
        let row = &rows[i];
        let mut row_terms = row_terms_exec(
            denominator_inverse,
            c,
            &row.constants,
            row.queried,
            domain_y,
        );
        let ghost prefix = out@;
        let ghost added = row_terms@;
        out.append(&mut row_terms);
        proof {
            let sub1 = rows@.subrange(0, i as int + 1);
            assert(sub1.drop_last() =~= rows@.subrange(0, i as int));
            assert(sub1.last() == rows@[i as int]);
            assert(views_of(prefix + added) =~= views_of(prefix) + views_of(added));
        }
        i += 1;
    }
    proof {
        assert(rows@.subrange(0, n as int) =~= rows@);
    }
    out
}

/// Tables of the precomputed domain points and denominator inverses, one
/// row per admissible log-size (offset from the smallest), one entry per
/// query, all well-formed and long enough for query `q`.
pub open spec fn tables_wf(
    dps: Seq<Vec<CirclePointM31>>,
    dis: Seq<Vec<CM31>>,
    n: int,
    q: int,
) -> bool {
    &&& dps.len() == n
    &&& dis.len() == n
    &&& forall|o: int| 0 <= o < n ==> 0 <= q < (#[trigger] dps[o])@.len()
    &&& forall|o: int| 0 <= o < n ==> 0 <= q < (#[trigger] dis[o])@.len()
    &&& forall|o: int, t: int|
        0 <= o < n && 0 <= t < dps[o]@.len() ==> (#[trigger] dps[o]@[t]).wf()
    &&& forall|o: int, t: int|
        0 <= o < n && 0 <= t < dis[o]@.len() ==> (#[trigger] dis[o]@[t]).wf()
}

/// Reads the domain point and denominator inverse of the active log-size
/// through the one-hot bitmap: every row is weighted by its bit and the
/// results are summed, so exactly the active row survives.
pub fn select_domain_and_inverse(
    bm: &LogSizeBitmap,
    domain_points: &Vec<Vec<CirclePointM31>>,
    denominator_inverses: &Vec<Vec<CM31>>,
    query_idx: usize,
) -> (r: (CirclePointM31, CM31))
    requires
        bm.wf(),
        tables_wf(domain_points@, denominator_inverses@, bm.bits@.len() as int, query_idx as int),
    ensures
        r.0.wf(),
        r.1.wf(),
        r.0.x@ == domain_points@[bm.active_offset()]@[query_idx as int].x@,
        r.0.y@ == domain_points@[bm.active_offset()]@[query_idx as int].y@,
        r.1@ == denominator_inverses@[bm.active_offset()]@[query_idx as int]@,
{
    let n = bm.len();
    let ghost k = bm.active_offset();
    proof {
        assert(crate::bitmap::one_hot(bm.bits@, k));
    }
    let mut x = M31::zero();
    let mut y = M31::zero();
    let mut denominator_inverse = CM31::zero();
    let mut o: usize = 0;
    while o < n
        invariant
            bm.wf(),
            n == bm.bits@.len(),
            crate::bitmap::one_hot(bm.bits@, k),
            tables_wf(
                domain_points@,
                denominator_inverses@,
                bm.bits@.len() as int,
                query_idx as int,
            ),
            o <= n,
            x.wf(),
            y.wf(),
            denominator_inverse.wf(),
            o <= k ==> x@ == 0 && y@ == 0 && denominator_inverse@ == (0int, 0int),
            o > k ==> x@ == domain_points@[k]@[query_idx as int].x@ && y@
                == domain_points@[k]@[query_idx as int].y@ && denominator_inverse@
                == denominator_inverses@[k]@[query_idx as int]@,
        decreases n - o,
    {
        let bit = bm.bit(o);
        let ind = if bit {
            M31::one()
        } else {
            M31::zero()
        };
        let dp = domain_points[o][query_idx];
        let di = denominator_inverses[o][query_idx];
        proof {
            if bit {
                assert(o == k);
                crate::field::lemma_fmul_zero_one(dp.x@);
                crate::field::lemma_fmul_zero_one(dp.y@);
                crate::field::lemma_cmul_zero_one(di@);
            } else {
                assert(o != k);
                crate::field::lemma_fmul_zero_one(dp.x@);
                crate::field::lemma_fmul_zero_one(dp.y@);
                crate::field::lemma_cmul_zero_one(di@);
                crate::field::lemma_fadd_zero_right(x@);
                crate::field::lemma_fadd_zero_right(y@);
                crate::field::lemma_cadd_zero_right(denominator_inverse@);
            }
        }
        x = x.add(dp.x.mul(ind));
        y = y.add(dp.y.mul(ind));
        denominator_inverse = denominator_inverse.add(di.mul_m31(ind));
        o += 1;
    }
    (CirclePointM31 { x, y }, denominator_inverse)
}

/// Reads the shifted evaluation point of the active log-size through the
/// one-hot bitmap: every table entry is weighted by its bit and the results
/// are summed, so exactly the active entry survives. Used to resolve the
/// point at which an interaction component's claimed sum is evaluated.
pub fn select_shifted_point(bm: &LogSizeBitmap, shifted_points: &Vec<CirclePointQM31>) -> (r:
    CirclePointQM31)
    requires
        bm.wf(),
        shifted_points@.len() == bm.bits@.len(),
        forall|o: int|
            0 <= o < shifted_points@.len() ==> (#[trigger] shifted_points@[o]).wf(),
    ensures
        r.wf(),
        r.x@ == shifted_points@[bm.active_offset()].x@,
        r.y@ == shifted_points@[bm.active_offset()].y@,
{
    let n = bm.len();
    let ghost k = bm.active_offset();
    proof {
        assert(crate::bitmap::one_hot(bm.bits@, k));
    }
    let mut x = QM31::zero();
    let mut y = QM31::zero();
    let mut o: usize = 0;
    while o < n
        invariant
            bm.wf(),
            n == bm.bits@.len(),
            shifted_points@.len() == n,
            crate::bitmap::one_hot(bm.bits@, k),
            forall|t: int| 0 <= t < n ==> (#[trigger] shifted_points@[t]).wf(),
            o <= n,
            x.wf(),
            y.wf(),
            o <= k ==> x@ == crate::field::qzero() && y@ == crate::field::qzero(),
            o > k ==> x@ == shifted_points@[k].x@ && y@ == shifted_points@[k].y@,
        decreases n - o,
    {
        let bit = bm.bit(o);
        let ind = if bit {
            QM31::one()
        } else {
            QM31::zero()
        };
        let p = &shifted_points[o];
        proof {
            if bit {
                assert(o == k);
                crate::field::lemma_qmul_one_right(p.x@);
                crate::field::lemma_qmul_one_right(p.y@);
                crate::field::lemma_qadd_zero_left(p.x@);
                crate::field::lemma_qadd_zero_left(p.y@);
            } else {
                assert(o != k);
                crate::field::lemma_qmul_zero_right(p.x@);
                crate::field::lemma_qmul_zero_right(p.y@);
                crate::field::lemma_qadd_zero_right(x@);
                crate::field::lemma_qadd_zero_right(y@);
            }
        }
        x = x.add(p.x.mul(ind));
        y = y.add(p.y.mul(ind));
        o += 1;
    }
    CirclePointQM31 { x, y }
}

/// The machine words of a bucket's spec value.
pub open spec fn pair_of_ext(v: (ExtVal, ExtVal)) -> BucketPair {
    (
        (v.0.0.0 as u32, v.0.0.1 as u32, v.0.1.0 as u32, v.0.1.1 as u32),
        (v.1.0.0 as u32, v.1.0.1 as u32, v.1.1.0 as u32, v.1.1.1 as u32),
    )
}

/// The accumulator's stored pairs after one family is absorbed at one
/// query: the family's bucket steps through its quotient terms, every other
/// bucket is untouched.
pub open spec fn entries_after_family(
    entries: Seq<(u32, BucketPair)>,
    min: u32,
    rc: ExtVal,
    oods_c: (int, int),
    dps: Seq<Vec<CirclePointM31>>,
    dis: Seq<Vec<CM31>>,
    f: ColumnFamily,
    q: int,
) -> Seq<(u32, BucketPair)> {
    let s = family_log_size(f);
    let o = s - min;
    let idx = entries.len() - 1 - o;
    let dp = dps[o]@[q];
    let di = dis[o]@[q];
    let old_bucket = (limbs_view(entries[idx].1.0), limbs_view(entries[idx].1.1));
    let new_bucket = accum_terms(
        old_bucket,
        family_terms(f, oods_c, (dp.x@, dp.y@), di@),
        rc,
    );
    entries.update(idx, (entries[idx].0, pair_of_ext(new_bucket)))
}

/// The stored pairs after a whole family list is absorbed, in order.
pub open spec fn entries_after_families(
    entries: Seq<(u32, BucketPair)>,
    min: u32,
    rc: ExtVal,
    oods_c: (int, int),
    dps: Seq<Vec<CirclePointM31>>,
    dis: Seq<Vec<CM31>>,
    fs: Seq<ColumnFamily>,
    q: int,
) -> Seq<(u32, BucketPair)>
    decreases fs.len(),
{
    if fs.len() == 0 {
        entries
    } else {
        entries_after_family(
            entries_after_families(entries, min, rc, oods_c, dps, dis, fs.drop_last(), q),
            min,
            rc,
            oods_c,
            dps,
            dis,
            fs.last(),
            q,
        )
    }
}

/// Absorbs one family's quotient terms at one query into the accumulator:
/// selection of the domain point and denominator inverse (through the
/// bitmap, or directly for a fixed log-size), the quotient formula per
/// column or lane, and the accumulator update at the family's bucket.
pub fn accumulate_family(
    acc: &mut AnswerAccumulator,
    oods_c: &CM31,
    domain_points: &Vec<Vec<CirclePointM31>>,
    denominator_inverses: &Vec<Vec<CM31>>,
    family: &ColumnFamily,
    query_idx: usize,
)
    requires
        old(acc).wf(),
        oods_c.wf(),
        family_wf(*family, old(acc).min_log_size, old(acc).max_log_size),
        tables_wf(
            domain_points@,
            denominator_inverses@,
            old(acc).n_buckets(),
            query_idx as int,
        ),
    ensures
        final(acc).wf(),
        final(acc).min_log_size == old(acc).min_log_size,
        final(acc).max_log_size == old(acc).max_log_size,
        final(acc).random_coeff == old(acc).random_coeff,
        final(acc).entries() == entries_after_family(
            old(acc).entries(),
            old(acc).min_log_size,
            old(acc).random_coeff@,
            oods_c@,
            domain_points@,
            denominator_inverses@,
            *family,
            query_idx as int,
        ),
{
    let ghost s = family_log_size(*family);
    let ghost o = s - acc.min_log_size;
    let ghost idx = old(acc).bucket_index_of(s);
    proof {
        match family {
            ColumnFamily::Trace { log_size, .. } => lemma_log_size_sel_range(
                *log_size,
                acc.min_log_size,
                acc.max_log_size,
            ),
            ColumnFamily::Interaction { log_size, .. } => lemma_log_size_sel_range(
                *log_size,
                acc.min_log_size,
                acc.max_log_size,
            ),
            ColumnFamily::InteractionShift { log_size, .. } => lemma_log_size_sel_range(
                *log_size,
                acc.min_log_size,
                acc.max_log_size,
            ),
        }
    }
    match family {
        ColumnFamily::Trace { log_size, constants, queried } => {
            match log_size {
                LogSizeSel::Dynamic(bm) => {
                    let sel = select_domain_and_inverse(
                        bm,
                        domain_points,
                        denominator_inverses,
                        query_idx,
                    );
                    let terms = trace_terms_exec(sel.1, *oods_c, constants, queried, sel.0.y);
                    acc.update(bm, &terms);
                },
                LogSizeSel::Fixed(sf) => {
                    let off: usize = (*sf - acc.min_log_size) as usize;
                    let dp = domain_points[off][query_idx];
                    let di = denominator_inverses[off][query_idx];
                    let terms = trace_terms_exec(di, *oods_c, constants, queried, dp.y);
                    acc.update_fix_log_size(*sf, &terms);
                },
            }
        },
        ColumnFamily::Interaction { log_size, rows } => {
            match log_size {
                LogSizeSel::Dynamic(bm) => {
                    let sel = select_domain_and_inverse(
                        bm,
                        domain_points,
                        denominator_inverses,
                        query_idx,
                    );
                    let terms = interaction_terms_exec(sel.1, *oods_c, rows, sel.0.y);
                    acc.update(bm, &terms);
                },
                LogSizeSel::Fixed(sf) => {
                    let off: usize = (*sf - acc.min_log_size) as usize;
                    let dp = domain_points[off][query_idx];
                    let di = denominator_inverses[off][query_idx];
                    let terms = interaction_terms_exec(di, *oods_c, rows, dp.y);
                    acc.update_fix_log_size(*sf, &terms);
                },
            }
        },
        ColumnFamily::InteractionShift { log_size, presum_constants, shifted_point, queried_value } => {
            match log_size {
                LogSizeSel::Dynamic(bm) => {
                    let sel = select_domain_and_inverse(
                        bm,
                        domain_points,
                        denominator_inverses,
                        query_idx,
                    );
                    let terms = shift_terms_exec(
                        presum_constants,
                        shifted_point,
                        *queried_value,
                        sel.0,
                    );
                    acc.update(bm, &terms);
                },
                LogSizeSel::Fixed(sf) => {
                    let off: usize = (*sf - acc.min_log_size) as usize;
                    let dp = domain_points[off][query_idx];
                    let terms = shift_terms_exec(
                        presum_constants,
                        shifted_point,
                        *queried_value,
                        dp,
                    );
                    acc.update_fix_log_size(*sf, &terms);
                },
            }
        },
    }
    proof {
        lemma_entries_match(
            old(acc).entries(),
            acc.entries(),
            old(acc).min_log_size,
            old(acc).max_log_size,
            old(acc).random_coeff@,
            oods_c@,
            domain_points@,
            denominator_inverses@,
            *family,
            query_idx as int,
        );
    }
}

/// The shift-only terms: the denominator inverse is derived from the
/// family's own shifted point and the selected domain point, and the
/// claimed-sum coefficients meet the last queried value at the shifted
/// point's second y half.
fn shift_terms_exec(
    presum_constants: &Vec<(CM31, CM31)>,
    shifted_point: &CirclePointQM31,
    queried: QM31,
    domain_point: CirclePointM31,
) -> (r: Vec<QM31>)
    requires
        presum_constants@.len() == 4,
        coeffs_wf(presum_constants@),
        shifted_point.wf(),
        queried.wf(),
        domain_point.wf(),
    ensures
        forall|i: int| 0 <= i < r@.len() ==> (#[trigger] r@[i]).wf(),
        views_of(r@) == ({
            let sx = shifted_point.x@;
            let sy = shifted_point.y@;
            let shift_denom_inv = cm_inv(
                csub(
                    cmul(csub(sx.0, (domain_point.x@, 0int)), sy.1),
                    cmul(csub(sy.0, (domain_point.y@, 0int)), sx.1),
                ),
            );
            row_quotient_terms(
                shift_denom_inv,
                sy.1,
                coeff_views(presum_constants@),
                queried@,
                domain_point.y@,
            )
        }),
{
    let x_halves = shifted_point.x.decompose_cm31();
    let y_halves = shifted_point.y.decompose_cm31();
    let prx = x_halves[0];
    let pix = x_halves[1];
    let pry = y_halves[0];
    let piy = y_halves[1];
    let denominator_inverse = prx.sub_m31(domain_point.x).mul(piy).sub(
        pry.sub_m31(domain_point.y).mul(pix),
    ).inv();
    row_terms_exec(denominator_inverse, piy, presum_constants, queried, domain_point.y)
}

/// Ties the per-bucket postcondition of an accumulator update to the
/// entries-level description `entries_after_family`.
proof fn lemma_entries_match(
    old_entries: Seq<(u32, BucketPair)>,
    new_entries: Seq<(u32, BucketPair)>,
    min: u32,
    max: u32,
    rc: ExtVal,
    oods_c: (int, int),
    dps: Seq<Vec<CirclePointM31>>,
    dis: Seq<Vec<CM31>>,
    f: ColumnFamily,
    q: int,
)
    requires
        min <= max,
        old_entries.len() == max - min + 1,
        new_entries.len() == max - min + 1,
        min <= family_log_size(f) <= max,
        forall|j: int|
            0 <= j < new_entries.len() ==> (#[trigger] new_entries[j]).0 == max - j,
        forall|j: int|
            0 <= j < old_entries.len() ==> (#[trigger] old_entries[j]).0 == max - j,
        forall|j: int|
            0 <= j < new_entries.len() ==> limbs_wf((#[trigger] new_entries[j]).1.0) && limbs_wf(
                new_entries[j].1.1,
            ),
        forall|j: int|
            0 <= j < new_entries.len() && j != max - family_log_size(f)
                ==> #[trigger] new_entries[j] == old_entries[j],
        ({
            let idx = max - family_log_size(f);
            let o = family_log_size(f) - min;
            let dp = dps[o]@[q];
            let di = dis[o]@[q];
            (limbs_view(new_entries[idx].1.0), limbs_view(new_entries[idx].1.1)) == accum_terms(
                (limbs_view(old_entries[idx].1.0), limbs_view(old_entries[idx].1.1)),
                family_terms(f, oods_c, (dp.x@, dp.y@), di@),
                rc,
            )
        }),
    ensures
        new_entries == entries_after_family(old_entries, min, rc, oods_c, dps, dis, f, q),
{
    let s = family_log_size(f);
    let idx = max - s;
    let spec_entries = entries_after_family(old_entries, min, rc, oods_c, dps, dis, f, q);
    assert(old_entries.len() - 1 - (s - min) == idx);
    assert(new_entries[idx].1 == spec_entries[idx].1);
    assert(new_entries =~= spec_entries);
}

/// Absorbs a whole family list at one query, in the declared component
/// order — the protocol's order is part of the result, since each term's
/// weight is a power of the random coefficient.
pub fn compute_answers(
    acc: &mut AnswerAccumulator,
    oods_c: &CM31,
    domain_points: &Vec<Vec<CirclePointM31>>,
    denominator_inverses: &Vec<Vec<CM31>>,
    families: &Vec<ColumnFamily>,
    query_idx: usize,
)
    requires
        old(acc).wf(),
        oods_c.wf(),
        forall|i: int|
            0 <= i < families@.len() ==> family_wf(
                #[trigger] families@[i],
                old(acc).min_log_size,
                old(acc).max_log_size,
            ),
        tables_wf(
            domain_points@,
            denominator_inverses@,
            old(acc).n_buckets(),
            query_idx as int,
        ),
    ensures
        final(acc).wf(),
        final(acc).min_log_size == old(acc).min_log_size,
        final(acc).max_log_size == old(acc).max_log_size,
        final(acc).random_coeff == old(acc).random_coeff,
        final(acc).entries() == entries_after_families(
            old(acc).entries(),
            old(acc).min_log_size,
            old(acc).random_coeff@,
            oods_c@,
            domain_points@,
            denominator_inverses@,
            families@,
            query_idx as int,
        ),
{
    let n = families.len();
    let mut i: usize = 0;
    proof {
        assert(families@.subrange(0, 0) =~= Seq::<ColumnFamily>::empty());
    }
    while i < n
        invariant
            oods_c.wf(),
            n == families@.len(),
            i <= n,
            acc.wf(),
            acc.min_log_size == old(acc).min_log_size,
            acc.max_log_size == old(acc).max_log_size,
            acc.random_coeff == old(acc).random_coeff,
            forall|t: int|
                0 <= t < n ==> family_wf(
                    #[trigger] families@[t],
                    old(acc).min_log_size,
                    old(acc).max_log_size,
                ),
            tables_wf(
                domain_points@,
                denominator_inverses@,
                old(acc).n_buckets(),
                query_idx as int,
            ),
            acc.entries() == entries_after_families(
                old(acc).entries(),
                old(acc).min_log_size,
                old(acc).random_coeff@,
                oods_c@,
                domain_points@,
                denominator_inverses@,
                families@.subrange(0, i as int),
                query_idx as int,
            ),
        decreases n - i,
    {
        accumulate_family(
            acc,
            oods_c,
            domain_points,
            denominator_inverses,
            &families[i],
            query_idx,
        );
        proof {
            let sub1 = families@.subrange(0, i as int + 1);
            assert(sub1.drop_last() =~= families@.subrange(0, i as int));
            assert(sub1.last() == families@[i as int]);
        }
        i += 1;
    }
    proof {
        assert(families@.subrange(0, n as int) =~= families@);
    }
}

} // verus!
