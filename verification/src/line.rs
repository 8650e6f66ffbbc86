//! The line-coefficient evaluator: the building block of every quotient.
//!
//! Given a point whose coordinates live in the quartic extension and a value
//! claimed at that point, the affine line through the point and its complex
//! conjugate is summarized by three quadratic-extension coefficients
//! `[a, b, c]`; later evaluators combine them with a query point and a
//! precomputed denominator inverse to recover the quotient value.
use vstd::prelude::*;
use crate::field::{CM31, M31, QM31, cmul, csub};

verus! {

/// A point with coordinates in the quartic extension, as sampled out of
/// domain.
pub struct CirclePointQM31 {
    pub x: QM31,
    pub y: QM31,
}

impl CirclePointQM31 {
    pub open spec fn wf(self) -> bool {
        self.x.wf() && self.y.wf()
    }
}

/// A point of a base-field domain.
#[derive(Clone, Copy, Debug)]
pub struct CirclePointM31 {
    pub x: M31,
    pub y: M31,
}

impl CirclePointM31 {
    pub open spec fn wf(self) -> bool {
        self.x.wf() && self.y.wf()
    }
}

/// The coefficients of the line through `(point, value)` and its complex
/// conjugate: `a` is the second half of the value, `c` the second half of
/// the point's y coordinate, and `b = value0 * y1 - value1 * y0` over the
/// quadratic-subfield halves.
///
/// The point's y coordinate must differ from its complex conjugate — its
/// second half must not vanish — else the two points coincide and no line
/// is determined; a well-sampled out-of-domain point never violates this.
pub fn complex_conjugate_line_coeffs(point: &CirclePointQM31, value: &QM31) -> (r: [CM31; 3])
    requires
        point.wf(),
        value.wf(),
        point.y@.1 != (0int, 0int),
    ensures
        r[0].wf() && r[1].wf() && r[2].wf(),
        r[0]@ == value@.1,
        r[1]@ == csub(cmul(value@.0, point.y@.1), cmul(value@.1, point.y@.0)),
        r[2]@ == point.y@.1,
{
    let value_halves = value.decompose_cm31();
    let y_halves = point.y.decompose_cm31();
    let value0 = value_halves[0];
    let value1 = value_halves[1];
    let y0 = y_halves[0];
    let y1 = y_halves[1];

    let a = value1;
    let c = y1;
    let b = value0.mul(y1).sub(value1.mul(y0));

    [a, b, c]
}

} // verus!
