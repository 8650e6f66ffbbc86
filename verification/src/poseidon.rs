//! The Poseidon-style round functions over the quartic extension: the
//! arithmetic evaluated by the composition-polynomial circuit of the hash
//! component. Each function's contract states the matrix it applies, row by
//! row, over the spec-level field operations.
use vstd::prelude::*;
use vstd::arithmetic::div_mod::lemma_add_mod_noop;
use crate::algebra::{qpow, lemma_qmul_assoc, lemma_qmul_one_left};
use crate::field::{ExtVal, M31, QM31, qadd, qmul, qone, qscalar, qsub};

verus! {

/// The fifth power, by two squarings and a multiplication.
pub fn pow5(x: QM31) -> (r: QM31)
    requires
        x.wf(),
    ensures
        r.wf(),
        r@ == qpow(x@, 5),
{
    let x2 = x.mul(x);
    let x4 = x2.mul(x2);
    let r = x4.mul(x);
    proof {
        lemma_qmul_one_left(x@);
        assert(qpow(x@, 1) == qmul(qpow(x@, 0), x@));
        assert(qpow(x@, 2) == qmul(qpow(x@, 1), x@));
        assert(qpow(x@, 3) == qmul(qpow(x@, 2), x@));
        assert(qpow(x@, 4) == qmul(qpow(x@, 3), x@));
        assert(qpow(x@, 5) == qmul(qpow(x@, 4), x@));
        lemma_qmul_assoc(qmul(x@, x@), x@, x@);
    }
    r
}

/// A linear combination of four base-field values with small integer
/// coefficients, reduced once.
pub open spec fn lin4(c: (int, int, int, int), a: (int, int, int, int)) -> int {
    (c.0 * a.0 + c.1 * a.1 + c.2 * a.2 + c.3 * a.3) % (crate::field::P as int)
}

/// The same combination applied to every coordinate of four quartic values.
pub open spec fn lin4_ext(c: (int, int, int, int), x0: ExtVal, x1: ExtVal, x2: ExtVal, x3: ExtVal)
    -> ExtVal {
    (
        (
            lin4(c, (x0.0.0, x1.0.0, x2.0.0, x3.0.0)),
            lin4(c, (x0.0.1, x1.0.1, x2.0.1, x3.0.1)),
        ),
        (
            lin4(c, (x0.1.0, x1.1.0, x2.1.0, x3.1.0)),
            lin4(c, (x0.1.1, x1.1.1, x2.1.1, x3.1.1)),
        ),
    )
}

/// The addition chain of the M4 application realizes the four matrix rows,
/// on one coordinate.
proof fn lemma_m4_chain(a0: int, a1: int, a2: int, a3: int)
    ensures
        ({
            let t0 = crate::field::fadd(a0, a1);
            let t02 = crate::field::fadd(t0, t0);
            let t1 = crate::field::fadd(a2, a3);
            let t12 = crate::field::fadd(t1, t1);
            let t2 = crate::field::fadd(crate::field::fadd(a1, a1), t1);
            let t3 = crate::field::fadd(crate::field::fadd(a3, a3), t0);
            let t4 = crate::field::fadd(crate::field::fadd(t12, t12), t3);
            let t5 = crate::field::fadd(crate::field::fadd(t02, t02), t2);
            let t6 = crate::field::fadd(t3, t5);
            let t7 = crate::field::fadd(t2, t4);
            &&& t6 == lin4((5, 7, 1, 3), (a0, a1, a2, a3))
            &&& t5 == lin4((4, 6, 1, 1), (a0, a1, a2, a3))
            &&& t7 == lin4((1, 3, 5, 7), (a0, a1, a2, a3))
            &&& t4 == lin4((1, 1, 4, 6), (a0, a1, a2, a3))
        }),
{
    let p = crate::field::P as int;
    let t0 = crate::field::fadd(a0, a1);
    let t1 = crate::field::fadd(a2, a3);
    lemma_add_mod_noop(2 * a1, a2 + a3, p);
    lemma_add_mod_noop(a1, a1, p);
    assert(crate::field::fadd(crate::field::fadd(a1, a1), t1) == (2 * a1 + a2 + a3) % p);
    lemma_add_mod_noop(2 * a3, a0 + a1, p);
    lemma_add_mod_noop(a3, a3, p);
    assert(crate::field::fadd(crate::field::fadd(a3, a3), t0) == (a0 + a1 + 2 * a3) % p);
    lemma_add_mod_noop(a0 + a1, a0 + a1, p);
    assert(crate::field::fadd(t0, t0) == (2 * a0 + 2 * a1) % p);
    lemma_add_mod_noop(a2 + a3, a2 + a3, p);
    assert(crate::field::fadd(t1, t1) == (2 * a2 + 2 * a3) % p);
    lemma_add_mod_noop(2 * a0 + 2 * a1, 2 * a0 + 2 * a1, p);
    lemma_add_mod_noop(2 * a2 + 2 * a3, 2 * a2 + 2 * a3, p);
    lemma_add_mod_noop(4 * a0 + 4 * a1, 2 * a1 + a2 + a3, p);
    lemma_add_mod_noop(4 * a2 + 4 * a3, a0 + a1 + 2 * a3, p);
    lemma_add_mod_noop(a0 + a1 + 2 * a3, 4 * a0 + 6 * a1 + a2 + a3, p);
    lemma_add_mod_noop(2 * a1 + a2 + a3, a0 + a1 + 4 * a2 + 6 * a3, p);
}

/// Applies the M4 MDS matrix to four lanes, by the addition chain the
/// circuit uses; the contract states the four matrix rows it realizes:
/// `(5, 7, 1, 3)`, `(4, 6, 1, 1)`, `(1, 3, 5, 7)` and `(1, 1, 4, 6)`.
#[verifier::rlimit(100)]
pub fn apply_m4(x: [QM31; 4]) -> (r: [QM31; 4])
    requires
        x[0].wf(),
        x[1].wf(),
        x[2].wf(),
        x[3].wf(),
    ensures
        r[0].wf() && r[1].wf() && r[2].wf() && r[3].wf(),
        r[0]@ == lin4_ext((5, 7, 1, 3), x[0]@, x[1]@, x[2]@, x[3]@),
        r[1]@ == lin4_ext((4, 6, 1, 1), x[0]@, x[1]@, x[2]@, x[3]@),
        r[2]@ == lin4_ext((1, 3, 5, 7), x[0]@, x[1]@, x[2]@, x[3]@),
        r[3]@ == lin4_ext((1, 1, 4, 6), x[0]@, x[1]@, x[2]@, x[3]@),
{
    let t0 = x[0].add(x[1]);
    let t02 = t0.add(t0);
    let t1 = x[2].add(x[3]);
    let t12 = t1.add(t1);
    let t2 = x[1].add(x[1]).add(t1);
    let t3 = x[3].add(x[3]).add(t0);
    let t4 = t12.add(t12).add(t3);
    let t5 = t02.add(t02).add(t2);
    let t6 = t3.add(t5);
    let t7 = t2.add(t4);
    proof {
        lemma_m4_chain(x[0]@.0.0, x[1]@.0.0, x[2]@.0.0, x[3]@.0.0);
        lemma_m4_chain(x[0]@.0.1, x[1]@.0.1, x[2]@.0.1, x[3]@.0.1);
        lemma_m4_chain(x[0]@.1.0, x[1]@.1.0, x[2]@.1.0, x[3]@.1.0);
        lemma_m4_chain(x[0]@.1.1, x[1]@.1.1, x[2]@.1.1, x[3]@.1.1);
    }
    [t6, t5, t7, t4]
}

/// The M4 result at flat position `t` of a sixteen-lane state: row `t % 4`
/// of the matrix applied to block `t / 4`.
pub open spec fn ext_round_y(s: Seq<ExtVal>, t: int) -> ExtVal {
    let i = t / 4;
    let j = t % 4;
    if j == 0 {
        lin4_ext((5, 7, 1, 3), s[4 * i], s[4 * i + 1], s[4 * i + 2], s[4 * i + 3])
    } else if j == 1 {
        lin4_ext((4, 6, 1, 1), s[4 * i], s[4 * i + 1], s[4 * i + 2], s[4 * i + 3])
    } else if j == 2 {
        lin4_ext((1, 3, 5, 7), s[4 * i], s[4 * i + 1], s[4 * i + 2], s[4 * i + 3])
    } else {
        lin4_ext((1, 1, 4, 6), s[4 * i], s[4 * i + 1], s[4 * i + 2], s[4 * i + 3])
    }
}

/// The external round matrix `circ(2 M4, M4, M4, M4)` at flat position `t`:
/// the blockwise M4 image plus the column sum of the four images.
pub open spec fn ext_round_out(s: Seq<ExtVal>, t: int) -> ExtVal {
    let j = t % 4;
    qadd(
        ext_round_y(s, t),
        qadd(qadd(qadd(ext_round_y(s, j), ext_round_y(s, j + 4)), ext_round_y(s, j + 8)),
            ext_round_y(s, j + 12)),
    )
}

/// Applies the external round matrix to a sixteen-lane state: M4 per block
/// of four, then every lane absorbs its column's sum across the blocks.
#[verifier::rlimit(100)]
pub fn apply_external_round_matrix(state: &Vec<QM31>) -> (r: Vec<QM31>)
    requires
        state@.len() == 16,
        forall|t: int| 0 <= t < 16 ==> (#[trigger] state@[t]).wf(),
    ensures
        r@.len() == 16,
        forall|t: int| 0 <= t < 16 ==> (#[trigger] r@[t]).wf(),
        forall|t: int|
            0 <= t < 16 ==> (#[trigger] r@[t])@ == ext_round_out(
                crate::field::views_of(state@),
                t,
            ),
{
    let ghost vs = crate::field::views_of(state@);
    let b0 = apply_m4([state[0], state[1], state[2], state[3]]);
    let b1 = apply_m4([state[4], state[5], state[6], state[7]]);
    let b2 = apply_m4([state[8], state[9], state[10], state[11]]);
    let b3 = apply_m4([state[12], state[13], state[14], state[15]]);
    let s0 = b0[0].add(b1[0]).add(b2[0]).add(b3[0]);
    let s1 = b0[1].add(b1[1]).add(b2[1]).add(b3[1]);
    let s2 = b0[2].add(b1[2]).add(b2[2]).add(b3[2]);
    let s3 = b0[3].add(b1[3]).add(b2[3]).add(b3[3]);
    let mut out: Vec<QM31> = Vec::new();
    out.push(b0[0].add(s0));
    out.push(b0[1].add(s1));
    out.push(b0[2].add(s2));
    out.push(b0[3].add(s3));
    out.push(b1[0].add(s0));
    out.push(b1[1].add(s1));
    out.push(b1[2].add(s2));
    out.push(b1[3].add(s3));
    out.push(b2[0].add(s0));
    out.push(b2[1].add(s1));
    out.push(b2[2].add(s2));
    out.push(b2[3].add(s3));
    out.push(b3[0].add(s0));
    out.push(b3[1].add(s1));
    out.push(b3[2].add(s2));
    out.push(b3[3].add(s3));
    proof {
        assert(b0[0]@ == ext_round_y(vs, 0) && b0[1]@ == ext_round_y(vs, 1) && b0[2]@
            == ext_round_y(vs, 2) && b0[3]@ == ext_round_y(vs, 3));
        assert(b1[0]@ == ext_round_y(vs, 4) && b1[1]@ == ext_round_y(vs, 5) && b1[2]@
            == ext_round_y(vs, 6) && b1[3]@ == ext_round_y(vs, 7));
        assert(b2[0]@ == ext_round_y(vs, 8) && b2[1]@ == ext_round_y(vs, 9) && b2[2]@
            == ext_round_y(vs, 10) && b2[3]@ == ext_round_y(vs, 11));
        assert(b3[0]@ == ext_round_y(vs, 12) && b3[1]@ == ext_round_y(vs, 13) && b3[2]@
            == ext_round_y(vs, 14) && b3[3]@ == ext_round_y(vs, 15));
        assert forall|t: int| 0 <= t < 16 implies (#[trigger] out@[t])@ == ext_round_out(vs, t) by {
            assert(0 <= t % 4 < 4 && t % 4 == t - 4 * (t / 4));
        }
    }
    out
}

/// The left-grouped running sum of the first `k + 1` lanes.
pub open spec fn sum_to(s: Seq<ExtVal>, k: int) -> ExtVal
    decreases k,
{
    if k <= 0 {
        s[0]
    } else {
        qadd(sum_to(s, k - 1), s[k])
    }
}

/// Applies the internal round matrix: lane `i` is scaled by `2^(i + 1)`
/// (lane `0` once more by addition) and every lane absorbs the total sum,
/// realizing the diagonal `mu_i = 2^(i + 1) + 1`.
pub fn apply_internal_round_matrix(state: &Vec<QM31>) -> (r: Vec<QM31>)
    requires
        state@.len() == 16,
        forall|t: int| 0 <= t < 16 ==> (#[trigger] state@[t]).wf(),
    ensures
        r@.len() == 16,
        forall|t: int| 0 <= t < 16 ==> (#[trigger] r@[t]).wf(),
        r@[0]@ == ({
            let vs = crate::field::views_of(state@);
            qadd(vs[0], qadd(qadd(vs[0], vs[0]), sum_to(vs, 15)))
        }),
        forall|t: int|
            1 <= t < 16 ==> (#[trigger] r@[t])@ == ({
                let vs = crate::field::views_of(state@);
                qadd(qscalar(vs[t], (1u32 << ((t + 1) as u32)) as int), sum_to(vs, 15))
            }),
{
    let ghost vs = crate::field::views_of(state@);
    let mut sum = state[0];
    let mut k: usize = 1;
    while k < 16
        invariant
            state@.len() == 16,
            forall|t: int| 0 <= t < 16 ==> (#[trigger] state@[t]).wf(),
            vs == crate::field::views_of(state@),
            1 <= k <= 16,
            sum.wf(),
            sum@ == sum_to(vs, k - 1),
        decreases 16 - k,
    {
        sum = sum.add(state[k]);
        k += 1;
    }
    let mut out: Vec<QM31> = Vec::new();
    out.push(state[0].add(state[0].add(state[0]).add(sum)));
    let mut i: usize = 1;
    while i < 16
        invariant
            state@.len() == 16,
            forall|t: int| 0 <= t < 16 ==> (#[trigger] state@[t]).wf(),
            vs == crate::field::views_of(state@),
            sum.wf(),
            sum@ == sum_to(vs, 15),
            1 <= i <= 16,
            out@.len() == i,
            forall|t: int| 0 <= t < i ==> (#[trigger] out@[t]).wf(),
            out@[0]@ == qadd(vs[0], qadd(qadd(vs[0], vs[0]), sum_to(vs, 15))),
            forall|t: int|
                1 <= t < i ==> (#[trigger] out@[t])@ == qadd(
                    qscalar(vs[t], (1u32 << ((t + 1) as u32)) as int),
                    sum_to(vs, 15),
                ),
        decreases 16 - i,
    {
        let shift: u32 = (i + 1) as u32;
        let coeff: u32 = 1u32 << shift;
        proof {
            assert(1u32 << shift < 0x7fffffffu32) by (bit_vector)
                requires
                    shift <= 16u32,
            ;
        }
        out.push(state[i].mul_m31(M31 { v: coeff }).add(sum));
        i += 1;
    }
    out
}

/// The full external-round image of a sixteen-lane state.
pub open spec fn ext_round_seq(s: Seq<ExtVal>) -> Seq<ExtVal> {
    Seq::new(16, |t: int| ext_round_out(s, t))
}

/// The full internal-round image of a sixteen-lane state.
pub open spec fn internal_round_seq(s: Seq<ExtVal>) -> Seq<ExtVal> {
    Seq::new(
        16,
        |t: int|
            if t == 0 {
                qadd(s[0], qadd(qadd(s[0], s[0]), sum_to(s, 15)))
            } else {
                qadd(qscalar(s[t], (1u32 << ((t + 1) as u32)) as int), sum_to(s, 15))
            },
    )
}

/// The leaf state after the conditional half-swap: under the swap bit each
/// lane of one half blends with its counterpart in the other, computed for
/// both cases and combined linearly — never branched on.
#[verifier::opaque]
pub open spec fn permuted_state_spec(in_s: Seq<ExtVal>, swap: ExtVal) -> Seq<ExtVal> {
    Seq::new(
        16,
        |i: int|
            if i < 8 {
                qadd(qmul(in_s[i], qsub(qone(), swap)), qmul(in_s[i + 8], swap))
            } else {
                qadd(qmul(in_s[i - 8], swap), qmul(in_s[i], qsub(qone(), swap)))
            },
    )
}

/// One gated difference per lane: `sel * (want - have)` — the shape of
/// every constraint group the hash component emits.
#[verifier::opaque]
pub open spec fn gated_difference_constraints(
    sel: ExtVal,
    want: Seq<ExtVal>,
    have: Seq<ExtVal>,
) -> Seq<ExtVal> {
    Seq::new(want.len(), |i: int| qmul(sel, qsub(want[i], have[i])))
}

/// Emits `sel * (want - have)` per lane.
fn gated_differences(sel: QM31, want: &Vec<QM31>, have: &Vec<QM31>) -> (r: Vec<QM31>)
    requires
        sel.wf(),
        want@.len() == have@.len(),
        forall|i: int| 0 <= i < want@.len() ==> (#[trigger] want@[i]).wf(),
        forall|i: int| 0 <= i < have@.len() ==> (#[trigger] have@[i]).wf(),
    ensures
        r@.len() == want@.len(),
        forall|i: int| 0 <= i < r@.len() ==> (#[trigger] r@[i]).wf(),
        crate::field::views_of(r@) == gated_difference_constraints(
            sel@,
            crate::field::views_of(want@),
            crate::field::views_of(have@),
        ),
{
    let n = want.len();
    let mut out: Vec<QM31> = Vec::new();
    let mut i: usize = 0;
    while i < n
        invariant
            sel.wf(),
            n == want@.len(),
            want@.len() == have@.len(),
            forall|t: int| 0 <= t < n ==> (#[trigger] want@[t]).wf(),
            forall|t: int| 0 <= t < n ==> (#[trigger] have@[t]).wf(),
            i <= n,
            out@.len() == i,
            forall|t: int| 0 <= t < i ==> (#[trigger] out@[t]).wf(),
            forall|t: int|
                0 <= t < i ==> (#[trigger] out@[t])@ == qmul(sel@, qsub(want@[t]@, have@[t]@)),
        decreases n - i,
    {
        out.push(sel.mul(want[i].sub(have[i])));
        i += 1;
    }
    proof {
        reveal(gated_difference_constraints);
        assert(crate::field::views_of(out@) =~= gated_difference_constraints(
            sel@,
            crate::field::views_of(want@),
            crate::field::views_of(have@),
        ));
    }
    out
}

/// The conditional half-swap of the leaf state, as executable selection
/// arithmetic.
fn permute_halves(in_state: &Vec<QM31>, swap: QM31) -> (r: Vec<QM31>)
    requires
        in_state@.len() == 16,
        forall|i: int| 0 <= i < 16 ==> (#[trigger] in_state@[i]).wf(),
        swap.wf(),
    ensures
        r@.len() == 16,
        forall|i: int| 0 <= i < 16 ==> (#[trigger] r@[i]).wf(),
        crate::field::views_of(r@) == permuted_state_spec(
            crate::field::views_of(in_state@),
            swap@,
        ),
{
    let one_minus_swap = QM31::one().sub(swap);
    let mut out: Vec<QM31> = Vec::new();
    let mut i: usize = 0;
    while i < 16
        invariant
            in_state@.len() == 16,
            forall|t: int| 0 <= t < 16 ==> (#[trigger] in_state@[t]).wf(),
            swap.wf(),
            one_minus_swap.wf(),
            one_minus_swap@ == qsub(qone(), swap@),
            i <= 16,
            out@.len() == i,
            forall|t: int| 0 <= t < i ==> (#[trigger] out@[t]).wf(),
            forall|t: int|
                0 <= t < i && t < 8 ==> (#[trigger] out@[t])@ == qadd(
                    qmul(in_state@[t]@, qsub(qone(), swap@)),
                    qmul(in_state@[t + 8]@, swap@),
                ),
            forall|t: int|
                8 <= t < i ==> (#[trigger] out@[t])@ == qadd(
                    qmul(in_state@[t - 8]@, swap@),
                    qmul(in_state@[t]@, qsub(qone(), swap@)),
                ),
        decreases 16 - i,
    {
        if i < 8 {
            out.push(in_state[i].mul(one_minus_swap).add(in_state[i + 8].mul(swap)));
        } else {
            out.push(in_state[i - 8].mul(swap).add(in_state[i].mul(one_minus_swap)));
        }
        i += 1;
    }
    proof {
        reveal(permuted_state_spec);
        assert(crate::field::views_of(out@) =~= permuted_state_spec(
            crate::field::views_of(in_state@),
            swap@,
        ));
    }
    out
}

/// The first-round constraints of the hash component: the selected leaf
/// state, sent once through the external round matrix, must match the
/// output state wherever the first-round flag is set.
pub fn poseidon_first_round_constraints(
    is_first_round: QM31,
    swap_bit_value: QM31,
    in_state: &Vec<QM31>,
    out_state: &Vec<QM31>,
) -> (r: Vec<QM31>)
    requires
        is_first_round.wf(),
        swap_bit_value.wf(),
        in_state@.len() == 16,
        out_state@.len() == 16,
        forall|i: int| 0 <= i < 16 ==> (#[trigger] in_state@[i]).wf(),
        forall|i: int| 0 <= i < 16 ==> (#[trigger] out_state@[i]).wf(),
    ensures
        r@.len() == 16,
        forall|i: int| 0 <= i < r@.len() ==> (#[trigger] r@[i]).wf(),
        crate::field::views_of(r@) == gated_difference_constraints(
            is_first_round@,
            ext_round_seq(
                permuted_state_spec(crate::field::views_of(in_state@), swap_bit_value@),
            ),
            crate::field::views_of(out_state@),
        ),
{
    let permuted = permute_halves(in_state, swap_bit_value);
    let after = apply_external_round_matrix(&permuted);
    proof {
        assert(crate::field::views_of(after@) =~= ext_round_seq(
            crate::field::views_of(permuted@),
        ));
    }
    gated_differences(is_first_round, &after, out_state)
}

/// Lane-wise addition of a round-constant column.
#[verifier::opaque]
pub open spec fn add_round_constants_spec(s: Seq<ExtVal>, rc: Seq<ExtVal>) -> Seq<ExtVal> {
    Seq::new(s.len(), |i: int| qadd(s[i], rc[i]))
}

/// The fifth power of every lane.
#[verifier::opaque]
pub open spec fn pow5_each_spec(s: Seq<ExtVal>) -> Seq<ExtVal> {
    Seq::new(s.len(), |i: int| qpow(s[i], 5))
}

/// Adds a round-constant column lane by lane.
fn add_round_constants(s: &Vec<QM31>, rc: &Vec<QM31>) -> (r: Vec<QM31>)
    requires
        s@.len() == rc@.len(),
        forall|i: int| 0 <= i < s@.len() ==> (#[trigger] s@[i]).wf(),
        forall|i: int| 0 <= i < rc@.len() ==> (#[trigger] rc@[i]).wf(),
    ensures
        r@.len() == s@.len(),
        forall|i: int| 0 <= i < r@.len() ==> (#[trigger] r@[i]).wf(),
        crate::field::views_of(r@) == add_round_constants_spec(
            crate::field::views_of(s@),
            crate::field::views_of(rc@),
        ),
{
    let n = s.len();
    let mut out: Vec<QM31> = Vec::new();
    let mut i: usize = 0;
    while i < n
        invariant
            n == s@.len(),
            s@.len() == rc@.len(),
            forall|t: int| 0 <= t < n ==> (#[trigger] s@[t]).wf(),
            forall|t: int| 0 <= t < n ==> (#[trigger] rc@[t]).wf(),
            i <= n,
            out@.len() == i,
            forall|t: int| 0 <= t < i ==> (#[trigger] out@[t]).wf(),
            forall|t: int| 0 <= t < i ==> (#[trigger] out@[t])@ == qadd(s@[t]@, rc@[t]@),
        decreases n - i,
    {
        out.push(s[i].add(rc[i]));
        i += 1;
    }
    proof {
        reveal(add_round_constants_spec);
        assert(crate::field::views_of(out@) =~= add_round_constants_spec(
            crate::field::views_of(s@),
            crate::field::views_of(rc@),
        ));
    }
    out
}

/// Raises every lane to the fifth power.
fn pow5_each(s: &Vec<QM31>) -> (r: Vec<QM31>)
    requires
        forall|i: int| 0 <= i < s@.len() ==> (#[trigger] s@[i]).wf(),
    ensures
        r@.len() == s@.len(),
        forall|i: int| 0 <= i < r@.len() ==> (#[trigger] r@[i]).wf(),
        crate::field::views_of(r@) == pow5_each_spec(crate::field::views_of(s@)),
{
    let n = s.len();
    let mut out: Vec<QM31> = Vec::new();
    let mut i: usize = 0;
    while i < n
        invariant
            n == s@.len(),
            forall|t: int| 0 <= t < n ==> (#[trigger] s@[t]).wf(),
            i <= n,
            out@.len() == i,
            forall|t: int| 0 <= t < i ==> (#[trigger] out@[t]).wf(),
            forall|t: int| 0 <= t < i ==> (#[trigger] out@[t])@ == qpow(s@[t]@, 5),
        decreases n - i,
    {
        out.push(pow5(s[i]));
        i += 1;
    }
    proof {
        reveal(pow5_each_spec);
        assert(crate::field::views_of(out@) =~= pow5_each_spec(crate::field::views_of(s@)));
    }
    out
}

/// The full-round constraints of the hash component, in two groups: the
/// intermediate state must be the first substituted state — round
/// constants added, lanes raised to the fifth power — and the output state
/// must be the intermediate state taken through the external matrix, the
/// second constants, the fifth powers and the external matrix again;
/// both gated by the full-round flag.
pub fn poseidon_full_round_constraints(
    is_full_round: QM31,
    in_state: &Vec<QM31>,
    intermediate_state: &Vec<QM31>,
    out_state: &Vec<QM31>,
    rc0: &Vec<QM31>,
    rc1: &Vec<QM31>,
) -> (r: (Vec<QM31>, Vec<QM31>))
    requires
        is_full_round.wf(),
        in_state@.len() == 16,
        intermediate_state@.len() == 16,
        out_state@.len() == 16,
        rc0@.len() == 16,
        rc1@.len() == 16,
        forall|i: int| 0 <= i < 16 ==> (#[trigger] in_state@[i]).wf(),
        forall|i: int| 0 <= i < 16 ==> (#[trigger] intermediate_state@[i]).wf(),
        forall|i: int| 0 <= i < 16 ==> (#[trigger] out_state@[i]).wf(),
        forall|i: int| 0 <= i < 16 ==> (#[trigger] rc0@[i]).wf(),
        forall|i: int| 0 <= i < 16 ==> (#[trigger] rc1@[i]).wf(),
    ensures
        ({
            let in_v = crate::field::views_of(in_state@);
            let inter_v = crate::field::views_of(intermediate_state@);
            let out_v = crate::field::views_of(out_state@);
            let rc0_v = crate::field::views_of(rc0@);
            let rc1_v = crate::field::views_of(rc1@);
            let second_half = ext_round_seq(
                pow5_each_spec(add_round_constants_spec(ext_round_seq(inter_v), rc1_v)),
            );
            &&& r.0@.len() == 16
            &&& r.1@.len() == 16
            &&& (forall|i: int| 0 <= i < r.0@.len() ==> (#[trigger] r.0@[i]).wf())
            &&& (forall|i: int| 0 <= i < r.1@.len() ==> (#[trigger] r.1@[i]).wf())
            &&& crate::field::views_of(r.0@) == gated_difference_constraints(
                is_full_round@,
                inter_v,
                pow5_each_spec(add_round_constants_spec(in_v, rc0_v)),
            )
            &&& crate::field::views_of(r.1@) == gated_difference_constraints(
                is_full_round@,
                out_v,
                second_half,
            )
        }),
{
    let stage1 = pow5_each(&add_round_constants(in_state, rc0));
    let group_a = gated_differences(is_full_round, intermediate_state, &stage1);
    let stage2 = apply_external_round_matrix(intermediate_state);
    proof {
        assert(crate::field::views_of(stage2@) =~= ext_round_seq(
            crate::field::views_of(intermediate_state@),
        ));
    }
    let stage3 = pow5_each(&add_round_constants(&stage2, rc1));
    let stage4 = apply_external_round_matrix(&stage3);
    proof {
        assert(crate::field::views_of(stage4@) =~= ext_round_seq(
            crate::field::views_of(stage3@),
        ));
    }
    let group_b = gated_differences(is_full_round, out_state, &stage4);
    (group_a, group_b)
}

/// The state at the start of partial round `r`: each earlier round had its
/// first lane replaced by the corresponding intermediate mask and the
/// internal matrix applied.
pub open spec fn partial_state_spec(s0: Seq<ExtVal>, inter: Seq<ExtVal>, r: int) -> Seq<ExtVal>
    decreases r,
{
    if r <= 0 {
        s0
    } else {
        internal_round_seq(partial_state_spec(s0, inter, r - 1).update(0, inter[r - 1]))
    }
}

/// The constraint of partial round `r`: the intermediate mask must equal
/// the fifth power of the first lane plus its round constant, gated by the
/// partial-round flag.
#[verifier::opaque]
pub open spec fn partial_round_constraint_spec(
    is_partial: ExtVal,
    s0: Seq<ExtVal>,
    inter: Seq<ExtVal>,
    rc0: Seq<ExtVal>,
    r: int,
) -> ExtVal {
    qmul(is_partial, qsub(inter[r], qpow(qadd(partial_state_spec(s0, inter, r)[0], rc0[r]), 5)))
}

/// An exact copy of a state vector.
fn copy_state(s: &Vec<QM31>) -> (r: Vec<QM31>)
    ensures
        r@ == s@,
{
    let n = s.len();
    let mut out: Vec<QM31> = Vec::new();
    let mut i: usize = 0;
    while i < n
        invariant
            n == s@.len(),
            i <= n,
            out@ == s@.subrange(0, i as int),
        decreases n - i,
    {
        out.push(s[i]);
        i += 1;
    }
    proof {
        assert(s@.subrange(0, n as int) =~= s@);
    }
    out
}

/// The partial-round constraints of the hash component: fourteen per-round
/// checks of the substituted first lane, then the sixteen checks tying the
/// output state to the state after the last internal round, all gated by
/// the partial-round flag.
pub fn poseidon_partial_round_constraints(
    is_partial_round: QM31,
    in_state: &Vec<QM31>,
    intermediate_state: &Vec<QM31>,
    out_state: &Vec<QM31>,
    rc0: &Vec<QM31>,
) -> (r: (Vec<QM31>, Vec<QM31>))
    requires
        is_partial_round.wf(),
        in_state@.len() == 16,
        intermediate_state@.len() == 16,
        out_state@.len() == 16,
        rc0@.len() == 16,
        forall|i: int| 0 <= i < 16 ==> (#[trigger] in_state@[i]).wf(),
        forall|i: int| 0 <= i < 16 ==> (#[trigger] intermediate_state@[i]).wf(),
        forall|i: int| 0 <= i < 16 ==> (#[trigger] out_state@[i]).wf(),
        forall|i: int| 0 <= i < 16 ==> (#[trigger] rc0@[i]).wf(),
    ensures
        ({
            let in_v = crate::field::views_of(in_state@);
            let inter_v = crate::field::views_of(intermediate_state@);
            let out_v = crate::field::views_of(out_state@);
            let rc0_v = crate::field::views_of(rc0@);
            &&& r.1@.len() == 16
            &&& (forall|i: int| 0 <= i < r.0@.len() ==> (#[trigger] r.0@[i]).wf())
            &&& (forall|i: int| 0 <= i < r.1@.len() ==> (#[trigger] r.1@[i]).wf())
            &&& r.0@.len() == 14
            &&& (forall|t: int|
                0 <= t < 14 ==> (#[trigger] r.0@[t])@ == partial_round_constraint_spec(
                    is_partial_round@,
                    in_v,
                    inter_v,
                    rc0_v,
                    t,
                ))
            &&& crate::field::views_of(r.1@) == gated_difference_constraints(
                is_partial_round@,
                out_v,
                partial_state_spec(in_v, inter_v, 14),
            )
        }),
{
    let ghost in_v = crate::field::views_of(in_state@);
    let ghost inter_v = crate::field::views_of(intermediate_state@);
    let ghost rc0_v = crate::field::views_of(rc0@);
    let mut state = copy_state(in_state);
    let mut constraints: Vec<QM31> = Vec::new();
    let mut round: usize = 0;
    while round < 14
        invariant
            is_partial_round.wf(),
            in_state@.len() == 16,
            intermediate_state@.len() == 16,
            rc0@.len() == 16,
            forall|t: int| 0 <= t < 16 ==> (#[trigger] in_state@[t]).wf(),
            forall|t: int| 0 <= t < 16 ==> (#[trigger] intermediate_state@[t]).wf(),
            forall|t: int| 0 <= t < 16 ==> (#[trigger] rc0@[t]).wf(),
            in_v == crate::field::views_of(in_state@),
            inter_v == crate::field::views_of(intermediate_state@),
            rc0_v == crate::field::views_of(rc0@),
            round <= 14,
            state@.len() == 16,
            forall|t: int| 0 <= t < 16 ==> (#[trigger] state@[t]).wf(),
            crate::field::views_of(state@) == partial_state_spec(in_v, inter_v, round as int),
            constraints@.len() == round,
            forall|t: int| 0 <= t < round ==> (#[trigger] constraints@[t]).wf(),
            forall|t: int|
                0 <= t < round ==> (#[trigger] constraints@[t])@ == partial_round_constraint_spec(
                    is_partial_round@,
                    in_v,
                    inter_v,
                    rc0_v,
                    t,
                ),
        decreases 14 - round,
    {
        let substituted = pow5(state[0].add(rc0[round]));
        constraints.push(is_partial_round.mul(intermediate_state[round].sub(substituted)));
        proof {
            reveal(partial_round_constraint_spec);
        }
        state.set(0, intermediate_state[round]);
        proof {
            assert(crate::field::views_of(state@) =~= partial_state_spec(
                in_v,
                inter_v,
                round as int,
            ).update(0, inter_v[round as int]));
        }
        state = apply_internal_round_matrix(&state);
        proof {
            assert(crate::field::views_of(state@) =~= partial_state_spec(
                in_v,
                inter_v,
                round as int + 1,
            ));
        }
        round += 1;
    }
    let finals = gated_differences(is_partial_round, out_state, &state);
    (constraints, finals)
}

/// The preprocessed columns the hash component reads on one row.
pub struct PoseidonPreprocessed {
    pub is_first_round: QM31,
    pub is_last_round: QM31,
    pub is_full_round: QM31,
    pub round_id: QM31,
    pub rc0: Vec<QM31>,
    pub rc1: Vec<QM31>,
    pub external_idx_1: QM31,
    pub external_idx_2: QM31,
    pub is_external_idx_1_nonzero: QM31,
    pub is_external_idx_2_nonzero: QM31,
}

impl PoseidonPreprocessed {
    pub open spec fn wf(self) -> bool {
        &&& self.is_first_round.wf()
        &&& self.is_last_round.wf()
        &&& self.is_full_round.wf()
        &&& self.round_id.wf()
        &&& self.rc0@.len() == 16
        &&& self.rc1@.len() == 16
        &&& (forall|i: int| 0 <= i < 16 ==> (#[trigger] self.rc0@[i]).wf())
        &&& (forall|i: int| 0 <= i < 16 ==> (#[trigger] self.rc1@[i]).wf())
        &&& self.external_idx_1.wf()
        &&& self.external_idx_2.wf()
        &&& self.is_external_idx_1_nonzero.wf()
        &&& self.is_external_idx_2_nonzero.wf()
    }
}



/// The five lookup-relation entries of the hash component: the two input
/// halves against the first-round identifiers, the two output halves
/// against the last-round identifiers, and the swap bit against its
/// address.
#[verifier::rlimit(100)]
pub fn poseidon_relation_entries(
    pre: &PoseidonPreprocessed,
    in_state: &Vec<QM31>,
    intermediate_state: &Vec<QM31>,
    out_state: &Vec<QM31>,
) -> (r: Vec<(QM31, Vec<QM31>)>)
    requires
        pre.wf(),
        in_state@.len() == 16,
        intermediate_state@.len() == 16,
        out_state@.len() == 16,
        forall|i: int| 0 <= i < 16 ==> (#[trigger] in_state@[i]).wf(),
        forall|i: int| 0 <= i < 16 ==> (#[trigger] intermediate_state@[i]).wf(),
        forall|i: int| 0 <= i < 16 ==> (#[trigger] out_state@[i]).wf(),
    ensures
        r@.len() == 5,
        forall|i: int| 0 <= i < 5 ==> (#[trigger] r@[i]).0.wf(),
{
    let entry1 = relation_entry_gated(
        pre.is_external_idx_1_nonzero,
        pre.is_first_round,
        pre.external_idx_1,
        pre.round_id.add(pre.round_id),
        crate::composition::wire_value(in_state[0], in_state[1], in_state[2], in_state[3]),
        crate::composition::wire_value(in_state[4], in_state[5], in_state[6], in_state[7]),
        false,
    );
    let entry2 = relation_entry_gated(
        pre.is_external_idx_2_nonzero,
        pre.is_first_round,
        pre.external_idx_2,
        pre.round_id.add(pre.round_id).add(QM31::one()),
        crate::composition::wire_value(in_state[8], in_state[9], in_state[10], in_state[11]),
        crate::composition::wire_value(in_state[12], in_state[13], in_state[14], in_state[15]),
        false,
    );
    let entry3 = relation_entry_gated(
        pre.is_external_idx_1_nonzero,
        pre.is_last_round,
        pre.external_idx_1,
        pre.round_id.add(pre.round_id).add(QM31::one()).add(QM31::one()),
        crate::composition::wire_value(out_state[0], out_state[1], out_state[2], out_state[3]),
        crate::composition::wire_value(out_state[4], out_state[5], out_state[6], out_state[7]),
        true,
    );
    let entry4 = relation_entry_gated(
        pre.is_external_idx_2_nonzero,
        pre.is_last_round,
        pre.external_idx_2,
        pre.round_id.add(pre.round_id).add(QM31::one()).add(QM31::one()).add(QM31::one()),
        crate::composition::wire_value(out_state[8], out_state[9], out_state[10], out_state[11]),
        crate::composition::wire_value(out_state[12], out_state[13], out_state[14], out_state[15]),
        true,
    );
    let not_last = QM31::one().sub(pre.is_last_round);
    let mut vals5: Vec<QM31> = Vec::new();
    vals5.push(intermediate_state[0]);
    vals5.push(pre.rc0[0]);
    let entry5 = (pre.is_first_round.mul(not_last), vals5);
    let mut relations: Vec<(QM31, Vec<QM31>)> = Vec::new();
    relations.push(entry1);
    relations.push(entry2);
    relations.push(entry3);
    relations.push(entry4);
    relations.push(entry5);
    relations
}

/// One gated relation entry: the selector times the round flag as
/// multiplicity (the complement flag subtracted for input entries, added
/// for output entries), and the identifier selected between the external
/// index and the running identifier, followed by the two state halves.
pub fn relation_entry_gated(
    selector_nonzero: QM31,
    round_flag: QM31,
    external_idx: QM31,
    running_id: QM31,
    half_a: QM31,
    half_b: QM31,
    add_complement: bool,
) -> (r: (QM31, Vec<QM31>))
    requires
        selector_nonzero.wf(),
        round_flag.wf(),
        external_idx.wf(),
        running_id.wf(),
        half_a.wf(),
        half_b.wf(),
    ensures
        r.0.wf(),
        ({
            let sel = qmul(selector_nonzero@, round_flag@);
            let complement = qsub(qone(), round_flag@);
            &&& r.0@ == if add_complement {
                qadd(sel, complement)
            } else {
                qsub(sel, complement)
            }
            &&& crate::field::views_of(r.1@) == seq![
                qadd(qmul(round_flag@, external_idx@), qmul(complement, running_id@)),
                half_a@,
                half_b@,
            ]
        }),
{
    let complement = QM31::one().sub(round_flag);
    let sel = selector_nonzero.mul(round_flag);
    let multiplicity = if add_complement {
        sel.add(complement)
    } else {
        sel.sub(complement)
    };
    let id = round_flag.mul(external_idx).add(complement.mul(running_id));
    let mut vals: Vec<QM31> = Vec::new();
    vals.push(id);
    vals.push(half_a);
    vals.push(half_b);
    proof {
        assert(crate::field::views_of(vals@) =~= seq![id@, half_a@, half_b@]);
    }
    (multiplicity, vals)
}

/// Evaluates the hash component on one row: the first-round, full-round
/// and partial-round constraint groups in order, and the five
/// lookup-relation entries tying the state halves to their identifiers.
/// The partial-round flag is derived as neither-first-nor-full.
#[verifier::rlimit(100)]
pub fn evaluate_poseidon(
    pre: &PoseidonPreprocessed,
    in_state: &Vec<QM31>,
    intermediate_state: &Vec<QM31>,
    out_state: &Vec<QM31>,
) -> (r: (Vec<QM31>, Vec<(QM31, Vec<QM31>)>))
    requires
        pre.wf(),
        in_state@.len() == 16,
        intermediate_state@.len() == 16,
        out_state@.len() == 16,
        forall|i: int| 0 <= i < 16 ==> (#[trigger] in_state@[i]).wf(),
        forall|i: int| 0 <= i < 16 ==> (#[trigger] intermediate_state@[i]).wf(),
        forall|i: int| 0 <= i < 16 ==> (#[trigger] out_state@[i]).wf(),
    ensures
        ({
            let in_v = crate::field::views_of(in_state@);
            let inter_v = crate::field::views_of(intermediate_state@);
            let out_v = crate::field::views_of(out_state@);
            let rc0_v = crate::field::views_of(pre.rc0@);
            let rc1_v = crate::field::views_of(pre.rc1@);
            let cs = crate::field::views_of(r.0@);
            let is_first = pre.is_first_round@;
            let is_full = pre.is_full_round@;
            let is_partial = qsub(qsub(qone(), is_first), is_full);
            &&& r.0@.len() == 78
            &&& (forall|i: int| 0 <= i < r.0@.len() ==> (#[trigger] r.0@[i]).wf())
            &&& cs.subrange(0, 16) == gated_difference_constraints(
                is_first,
                ext_round_seq(permuted_state_spec(in_v, inter_v[0])),
                out_v,
            )
            &&& cs.subrange(16, 32) == gated_difference_constraints(
                is_full,
                inter_v,
                pow5_each_spec(add_round_constants_spec(in_v, rc0_v)),
            )
            &&& cs.subrange(32, 48) == gated_difference_constraints(
                is_full,
                out_v,
                ext_round_seq(
                    pow5_each_spec(add_round_constants_spec(ext_round_seq(inter_v), rc1_v)),
                ),
            )
            &&& (forall|t: int|
                48 <= t < 62 ==> cs[t] == partial_round_constraint_spec(
                    is_partial,
                    in_v,
                    inter_v,
                    rc0_v,
                    t - 48,
                ))
            &&& cs.subrange(62, 78) == gated_difference_constraints(
                is_partial,
                out_v,
                partial_state_spec(in_v, inter_v, 14),
            )
            &&& r.1@.len() == 5
            &&& (forall|i: int| 0 <= i < 5 ==> (#[trigger] r.1@[i]).0.wf())
        }),
{
    let swap_bit_value = intermediate_state[0];
    let swap_bit_addr = pre.rc0[0];
    let is_partial_round = QM31::one().sub(pre.is_first_round).sub(pre.is_full_round);

    let group_first = poseidon_first_round_constraints(
        pre.is_first_round,
        swap_bit_value,
        in_state,
        out_state,
    );
    let (group_full_a, group_full_b) = poseidon_full_round_constraints(
        pre.is_full_round,
        in_state,
        intermediate_state,
        out_state,
        &pre.rc0,
        &pre.rc1,
    );
    let (group_partial, group_partial_final) = poseidon_partial_round_constraints(
        is_partial_round,
        in_state,
        intermediate_state,
        out_state,
        &pre.rc0,
    );

    let ghost g0 = crate::field::views_of(group_first@);
    let ghost g1 = crate::field::views_of(group_full_a@);
    let ghost g2 = crate::field::views_of(group_full_b@);
    let ghost g3 = crate::field::views_of(group_partial@);
    let ghost g4 = crate::field::views_of(group_partial_final@);
    let mut constraints = group_first;
    let mut rest_a = group_full_a;
    let mut rest_b = group_full_b;
    let mut rest_c = group_partial;
    let mut rest_d = group_partial_final;
    constraints.append(&mut rest_a);
    constraints.append(&mut rest_b);
    constraints.append(&mut rest_c);
    constraints.append(&mut rest_d);
    proof {
        let cs = crate::field::views_of(constraints@);
        assert(cs =~= g0 + g1 + g2 + g3 + g4);
        assert(cs.subrange(0, 16) =~= g0);
        assert(cs.subrange(16, 32) =~= g1);
        assert(cs.subrange(32, 48) =~= g2);
        assert(cs.subrange(62, 78) =~= g4);
        assert(forall|t: int| 48 <= t < 62 ==> cs[t] == g3[t - 48]);
    }

    let relations = poseidon_relation_entries(pre, in_state, intermediate_state, out_state);
    (constraints, relations)
}

} // verus!
