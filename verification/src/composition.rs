//! Evaluation of the PLONK gate of the outer arithmetization, on the values
//! of one row: the constraints and lookup-relation entries the composition
//! polynomial accumulates for that row. The circuit framework around it —
//! mask allocation, constraint accumulation, logup finalization — is an
//! external collaborator; this module computes the row's values from plain
//! inputs.
use vstd::prelude::*;
use crate::field::{ExtVal, QM31, cneg, qadd, qmul, qone, qsub, views_of};

verus! {

/// The unit `i` of the quadratic extension.
pub open spec fn unit_i() -> ExtVal {
    ((0int, 1int), (0int, 0int))
}

/// The unit `u` of the quartic extension.
pub open spec fn unit_j() -> ExtVal {
    ((0int, 0int), (1int, 0int))
}

/// The unit `i u`.
pub open spec fn unit_ij() -> ExtVal {
    ((0int, 0int), (0int, 1int))
}

/// Recomposes one extension value from its four mask columns:
/// `m0 + m1 i + m2 u + m3 i u`.
#[verifier::opaque]
pub open spec fn recompose(m0: ExtVal, m1: ExtVal, m2: ExtVal, m3: ExtVal) -> ExtVal {
    qadd(qadd(qadd(m0, qmul(m1, unit_i())), qmul(m2, unit_j())), qmul(m3, unit_ij()))
}

/// Multiplies by the unit `i`.
pub(crate) fn shift_by_i(v: QM31) -> (r: QM31)
    requires
        v.wf(),
    ensures
        r.wf(),
        r@ == qmul(v@, unit_i()),
{
    let unit = QM31::from_limbs((0, 1, 0, 0));
    v.mul(unit)
}

/// Multiplies by the unit `u`.
pub(crate) fn shift_by_j(v: QM31) -> (r: QM31)
    requires
        v.wf(),
    ensures
        r.wf(),
        r@ == qmul(v@, unit_j()),
{
    let unit = QM31::from_limbs((0, 0, 1, 0));
    v.mul(unit)
}

/// Multiplies by the unit `i u`.
pub(crate) fn shift_by_ij(v: QM31) -> (r: QM31)
    requires
        v.wf(),
    ensures
        r.wf(),
        r@ == qmul(v@, unit_ij()),
{
    let unit = QM31::from_limbs((0, 0, 0, 1));
    v.mul(unit)
}

/// One wire value of the row, from its four masks.
pub(crate) fn wire_value(m0: QM31, m1: QM31, m2: QM31, m3: QM31) -> (r: QM31)
    requires
        m0.wf(),
        m1.wf(),
        m2.wf(),
        m3.wf(),
    ensures
        r.wf(),
        r@ == recompose(m0@, m1@, m2@, m3@),
{
    let r = m0.add(shift_by_i(m1)).add(shift_by_j(m2)).add(shift_by_ij(m3));
    proof {
        reveal(recompose);
    }
    r
}

/// The arithmetic gate constraint of the row.
fn gate_constraint(op: QM31, a: QM31, b: QM31, c: QM31) -> (r: QM31)
    requires
        op.wf(),
        a.wf(),
        b.wf(),
        c.wf(),
    ensures
        r.wf(),
        r@ == plonk_gate_constraint(op@, a@, b@, c@),
{
    let r = c.sub(op.mul(a.add(b))).sub(QM31::one().sub(op).mul(a).mul(b));
    proof {
        reveal(plonk_gate_constraint);
    }
    r
}

/// The preprocessed columns the PLONK gate reads on one row.
pub struct PlonkPreprocessed {
    pub a_wire: QM31,
    pub b_wire: QM31,
    pub c_wire: QM31,
    pub op: QM31,
    pub mult_a: QM31,
    pub mult_b: QM31,
    pub mult_c: QM31,
    pub poseidon_wire: QM31,
    pub mult_poseidon: QM31,
    pub enforce_c_m31: QM31,
}

impl PlonkPreprocessed {
    pub open spec fn wf(self) -> bool {
        &&& self.a_wire.wf()
        &&& self.b_wire.wf()
        &&& self.c_wire.wf()
        &&& self.op.wf()
        &&& self.mult_a.wf()
        &&& self.mult_b.wf()
        &&& self.mult_c.wf()
        &&& self.poseidon_wire.wf()
        &&& self.mult_poseidon.wf()
        &&& self.enforce_c_m31.wf()
    }
}

/// The `a`, `b` and `c` wire values of the row, recomposed from the twelve
/// trace masks, four per wire.
pub open spec fn plonk_wire_values(masks: Seq<ExtVal>) -> (ExtVal, ExtVal, ExtVal) {
    (
        recompose(masks[0], masks[1], masks[2], masks[3]),
        recompose(masks[4], masks[5], masks[6], masks[7]),
        recompose(masks[8], masks[9], masks[10], masks[11]),
    )
}

/// The arithmetic gate constraint: the selector chooses between the sum
/// and the product of the two input wires, and the difference from the
/// output wire must vanish.
#[verifier::opaque]
pub open spec fn plonk_gate_constraint(op: ExtVal, a: ExtVal, b: ExtVal, c: ExtVal) -> ExtVal {
    qsub(qsub(c, qmul(op, qadd(a, b))), qmul(qmul(qsub(qone(), op), a), b))
}

/// Evaluates the PLONK gate on one row: three constraints enforcing that
/// the `c` wire stays in the base field where flagged, the arithmetic gate
/// constraint, and the four lookup-relation entries tying the wire values
/// to the wiring columns (the Poseidon wire with negated multiplicity).
#[verifier::rlimit(100)]
pub fn evaluate_plonk(pre: &PlonkPreprocessed, masks: &Vec<QM31>) -> (r: (
    Vec<QM31>,
    Vec<(QM31, Vec<QM31>)>,
))
    requires
        pre.wf(),
        masks@.len() == 12,
        forall|i: int| 0 <= i < 12 ==> (#[trigger] masks@[i]).wf(),
    ensures
        ({
            let (a_val, b_val, c_val) = plonk_wire_values(views_of(masks@));
            &&& r.0@.len() == 4
            &&& (forall|i: int| 0 <= i < 4 ==> (#[trigger] r.0@[i]).wf())
            &&& r.0@[0]@ == qmul(pre.enforce_c_m31@, masks@[9]@)
            &&& r.0@[1]@ == qmul(pre.enforce_c_m31@, masks@[10]@)
            &&& r.0@[2]@ == qmul(pre.enforce_c_m31@, masks@[11]@)
            &&& r.0@[3]@ == plonk_gate_constraint(pre.op@, a_val, b_val, c_val)
            &&& r.1@.len() == 4
            &&& r.1@[0].0@ == pre.mult_a@ && views_of(r.1@[0].1@) == seq![a_val, pre.a_wire@]
            &&& r.1@[1].0@ == pre.mult_b@ && views_of(r.1@[1].1@) == seq![b_val, pre.b_wire@]
            &&& r.1@[2].0@ == pre.mult_c@ && views_of(r.1@[2].1@) == seq![c_val, pre.c_wire@]
            &&& r.1@[3].0@ == (cneg(pre.mult_poseidon@.0), cneg(pre.mult_poseidon@.1))
            &&& views_of(r.1@[3].1@) == seq![pre.poseidon_wire@, a_val, b_val]
        }),
{
    let a_val = wire_value(masks[0], masks[1], masks[2], masks[3]);
    let b_val = wire_value(masks[4], masks[5], masks[6], masks[7]);
    let c_val = wire_value(masks[8], masks[9], masks[10], masks[11]);

    let mut constraints: Vec<QM31> = Vec::new();
    constraints.push(pre.enforce_c_m31.mul(masks[9]));
    constraints.push(pre.enforce_c_m31.mul(masks[10]));
    constraints.push(pre.enforce_c_m31.mul(masks[11]));
    constraints.push(gate_constraint(pre.op, a_val, b_val, c_val));

    let mut relations: Vec<(QM31, Vec<QM31>)> = Vec::new();
    let mut vals_a: Vec<QM31> = Vec::new();
    vals_a.push(a_val);
    vals_a.push(pre.a_wire);
    relations.push((pre.mult_a, vals_a));
    let mut vals_b: Vec<QM31> = Vec::new();
    vals_b.push(b_val);
    vals_b.push(pre.b_wire);
    relations.push((pre.mult_b, vals_b));
    let mut vals_c: Vec<QM31> = Vec::new();
    vals_c.push(c_val);
    vals_c.push(pre.c_wire);
    relations.push((pre.mult_c, vals_c));
    let mut vals_p: Vec<QM31> = Vec::new();
    vals_p.push(pre.poseidon_wire);
    vals_p.push(a_val);
    vals_p.push(b_val);
    relations.push((pre.mult_poseidon.neg(), vals_p));
    proof {
        assert(views_of(relations@[0].1@) =~= seq![a_val@, pre.a_wire@]);
        assert(views_of(relations@[1].1@) =~= seq![b_val@, pre.b_wire@]);
        assert(views_of(relations@[2].1@) =~= seq![c_val@, pre.c_wire@]);
        assert(views_of(relations@[3].1@) =~= seq![pre.poseidon_wire@, a_val@, b_val@]);
    }
    (constraints, relations)
}

} // verus!
