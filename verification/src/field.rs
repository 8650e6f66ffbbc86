//! The Mersenne-31 base field and its quadratic (CM31) and quartic (QM31)
//! extensions, as plain values: the native semantics that the circuit
//! emulates bit-for-bit.
//!
//! Spec-level models live on integer tuples: an `M31` is an integer in
//! `[0, P)`, a `CM31` a pair (real, imaginary), a `QM31` a pair of `CM31`
//! halves, with `u` the generator of the quartic extension satisfying
//! `u^2 = 2 + i`.
use vstd::prelude::*;
use vstd::arithmetic::div_mod::{
    lemma_small_mod, lemma_mod_add_multiples_vanish, lemma_mod_sub_multiples_vanish,
};
use vstd::arithmetic::power2::pow2;

verus! {

/// The Mersenne prime 2^31 - 1.
pub const P: u32 = 2147483647;

/// Addition in the base field, on canonical representatives.
pub open spec fn fadd(a: int, b: int) -> int {
    (a + b) % (P as int)
}

/// Subtraction in the base field, on canonical representatives.
pub open spec fn fsub(a: int, b: int) -> int {
    (a - b) % (P as int)
}

/// Multiplication in the base field, on canonical representatives.
pub open spec fn fmul(a: int, b: int) -> int {
    (a * b) % (P as int)
}

/// Negation in the base field, on canonical representatives.
pub open spec fn fneg(a: int) -> int {
    (0 - a) % (P as int)
}

/// A base-field element; well-formed values hold a canonical representative.
#[derive(Clone, Copy, Debug, PartialEq, Eq, Structural)]
pub struct M31 {
    pub v: u32,
}

impl View for M31 {
    type V = int;

    open spec fn view(&self) -> int {
        self.v as int
    }
}

impl M31 {
    /// Canonical representative: reduced below the modulus.
    pub open spec fn wf(self) -> bool {
        self.v < P
    }

    pub fn new(v: u32) -> (r: M31)
        requires
            v < P,
        ensures
            r.wf(),
            r@ == v as int,
    {
        M31 { v }
    }

    pub fn zero() -> (r: M31)
        ensures
            r.wf(),
            r@ == 0,
    {
        M31 { v: 0 }
    }

    pub fn one() -> (r: M31)
        ensures
            r.wf(),
            r@ == 1,
    {
        M31 { v: 1 }
    }

    pub fn add(self, rhs: M31) -> (r: M31)
        requires
            self.wf(),
            rhs.wf(),
        ensures
            r.wf(),
            r@ == fadd(self@, rhs@),
    {
        let s: u64 = self.v as u64 + rhs.v as u64;
        let out: u32 = if s >= P as u64 {
            (s - P as u64) as u32
        } else {
            s as u32
        };
        proof {
            let m = P as int;
            if self@ + rhs@ < m {
                lemma_small_mod((self@ + rhs@) as nat, m as nat);
            } else {
                lemma_mod_sub_multiples_vanish(self@ + rhs@, m);
                lemma_small_mod((self@ + rhs@ - m) as nat, m as nat);
            }
        }
        M31 { v: out }
    }

    pub fn sub(self, rhs: M31) -> (r: M31)
        requires
            self.wf(),
            rhs.wf(),
        ensures
            r.wf(),
            r@ == fsub(self@, rhs@),
    {
        let out: u32 = if self.v >= rhs.v {
            self.v - rhs.v
        } else {
            (self.v as u64 + P as u64 - rhs.v as u64) as u32
        };
        proof {
            let m = P as int;
            if self@ >= rhs@ {
                lemma_small_mod((self@ - rhs@) as nat, m as nat);
            } else {
                lemma_mod_add_multiples_vanish(self@ - rhs@, m);
                lemma_small_mod((self@ - rhs@ + m) as nat, m as nat);
            }
        }
        M31 { v: out }
    }

    pub fn neg(self) -> (r: M31)
        requires
            self.wf(),
        ensures
            r.wf(),
            r@ == fneg(self@),
    {
        let out: u32 = if self.v == 0 {
            0
        } else {
            P - self.v
        };
        proof {
            let m = P as int;
            if self@ == 0 {
                lemma_small_mod(0, m as nat);
            } else {
                lemma_mod_add_multiples_vanish(0 - self@, m);
                lemma_small_mod((m - self@) as nat, m as nat);
            }
        }
        M31 { v: out }
    }

    pub fn mul(self, rhs: M31) -> (r: M31)
        requires
            self.wf(),
            rhs.wf(),
        ensures
            r.wf(),
            r@ == fmul(self@, rhs@),
    {
        proof {
            assert(self@ * rhs@ <= 2147483646int * 2147483646int) by (nonlinear_arith)
                requires
                    0 <= self@ <= 2147483646,
                    0 <= rhs@ <= 2147483646,
            ;
        }
        let prod: u64 = self.v as u64 * rhs.v as u64;
        let out: u32 = (prod % P as u64) as u32;
        M31 { v: out }
    }

    /// The power `P - 2` — the multiplicative inverse for nonzero inputs —
    /// by binary exponentiation over the fixed exponent, whose binary
    /// expansion is thirty-one bits, all ones but the second-lowest.
    pub fn inv(self) -> (r: M31)
        requires
            self.wf(),
        ensures
            r.wf(),
            r@ == pow_mod(self@, (P - 2) as nat),
    {
        let mut acc = M31 { v: 1 };
        let ghost mut e: nat = 0;
        let mut j: usize = 0;
        proof {
            vstd::arithmetic::power2::lemma2_to64();
        }
        while j < 31
            invariant
                self.wf(),
                acc.wf(),
                j <= 31,
                acc@ == pow_mod(self@, e),
                j <= 29 ==> e == pow2(j as nat) - 1,
                j == 30 ==> e == pow2(30) - 2,
                j == 31 ==> e == pow2(31) - 3,
            decreases 31 - j,
        {
            proof {
                crate::algebra::lemma_pow_mod_add(self@, e, e);
            }
            acc = acc.mul(acc);
            proof {
                e = e + e;
            }
            if j != 29 {
                proof {
                    crate::algebra::lemma_pow_mod_add(self@, e, 1);
                    lemma_small_mod(self.v as nat, P as nat);
                    assert(pow_mod(self@, 0) == 1);
                    assert(pow_mod(self@, 1) == fmul(1, self@));
                    assert(1 * self@ == self@);
                }
                acc = acc.mul(self);
                proof {
                    e = e + 1;
                }
            }
            j += 1;
            proof {
                if j <= 30 {
                    vstd::arithmetic::power2::lemma_pow2_unfold(j as nat);
                    vstd::arithmetic::power2::lemma_pow2_pos((j - 1) as nat);
                } else {
                    vstd::arithmetic::power2::lemma_pow2_unfold(31);
                    vstd::arithmetic::power2::lemma_pow2_pos(30);
                }
            }
        }
        proof {
            vstd::arithmetic::power2::lemma2_to64();
        }
        acc
    }
}

/// Addition in the quadratic extension.
pub open spec fn cadd(a: (int, int), b: (int, int)) -> (int, int) {
    (fadd(a.0, b.0), fadd(a.1, b.1))
}

/// Subtraction in the quadratic extension.
pub open spec fn csub(a: (int, int), b: (int, int)) -> (int, int) {
    (fsub(a.0, b.0), fsub(a.1, b.1))
}

/// Multiplication in the quadratic extension: (a + bi)(c + di) with i^2 = -1.
pub open spec fn cmul(a: (int, int), b: (int, int)) -> (int, int) {
    (fsub(fmul(a.0, b.0), fmul(a.1, b.1)), fadd(fmul(a.0, b.1), fmul(a.1, b.0)))
}

/// Negation in the quadratic extension.
pub open spec fn cneg(a: (int, int)) -> (int, int) {
    (fneg(a.0), fneg(a.1))
}

/// The constant 2 + i: the square of the quartic generator u.
pub open spec fn u_squared() -> (int, int) {
    (2, 1)
}

/// Addition in the quartic extension, half by half.
pub open spec fn qadd(a: ((int, int), (int, int)), b: ((int, int), (int, int))) -> (
    (int, int),
    (int, int),
) {
    (cadd(a.0, b.0), cadd(a.1, b.1))
}

/// Subtraction in the quartic extension, half by half.
pub open spec fn qsub(a: ((int, int), (int, int)), b: ((int, int), (int, int))) -> (
    (int, int),
    (int, int),
) {
    (csub(a.0, b.0), csub(a.1, b.1))
}

/// Multiplication in the quartic extension:
/// (a + bu)(c + du) = (ac + (2 + i) bd) + (ad + bc) u.
pub open spec fn qmul(a: ((int, int), (int, int)), b: ((int, int), (int, int))) -> (
    (int, int),
    (int, int),
) {
    (
        cadd(cmul(a.0, b.0), cmul(u_squared(), cmul(a.1, b.1))),
        cadd(cmul(a.0, b.1), cmul(a.1, b.0)),
    )
}

/// The spec-level value of a QM31 element: two quadratic halves, each a
/// (real, imaginary) pair of canonical base-field representatives.
pub type ExtVal = ((int, int), (int, int));

/// The four coordinates of a quartic-extension value, as machine words.
pub type Limbs = (u32, u32, u32, u32);

/// Zero of the quartic extension, as a spec value.
pub open spec fn qzero() -> ExtVal {
    ((0int, 0int), (0int, 0int))
}

/// One of the quartic extension, as a spec value.
pub open spec fn qone() -> ExtVal {
    ((1int, 0int), (0int, 0int))
}

/// Every coordinate is a canonical representative.
pub open spec fn ext_wf(v: ExtVal) -> bool {
    &&& 0 <= v.0.0 < P as int
    &&& 0 <= v.0.1 < P as int
    &&& 0 <= v.1.0 < P as int
    &&& 0 <= v.1.1 < P as int
}

/// The machine-word coordinates of a QM31 value.
pub open spec fn qm31_limbs(q: QM31) -> Limbs {
    (q.first.re.v, q.first.im.v, q.second.re.v, q.second.im.v)
}

/// The spec value a limb tuple stands for.
pub open spec fn limbs_view(l: Limbs) -> ExtVal {
    ((l.0 as int, l.1 as int), (l.2 as int, l.3 as int))
}

/// Every limb is a canonical representative.
pub open spec fn limbs_wf(l: Limbs) -> bool {
    l.0 < P && l.1 < P && l.2 < P && l.3 < P
}

/// An element of the quadratic extension CM31 = M31[i] / (i^2 + 1).
#[derive(Clone, Copy, Debug, PartialEq, Eq, Structural)]
pub struct CM31 {
    pub re: M31,
    pub im: M31,
}

impl View for CM31 {
    type V = (int, int);

    open spec fn view(&self) -> (int, int) {
        (self.re@, self.im@)
    }
}

impl CM31 {
    pub open spec fn wf(self) -> bool {
        self.re.wf() && self.im.wf()
    }

    pub fn new(re: M31, im: M31) -> (r: CM31)
        requires
            re.wf(),
            im.wf(),
        ensures
            r.wf(),
            r@ == (re@, im@),
    {
        CM31 { re, im }
    }

    pub fn zero() -> (r: CM31)
        ensures
            r.wf(),
            r@ == (0int, 0int),
    {
        CM31 { re: M31::zero(), im: M31::zero() }
    }

    pub fn one() -> (r: CM31)
        ensures
            r.wf(),
            r@ == (1int, 0int),
    {
        CM31 { re: M31::one(), im: M31::zero() }
    }

    /// Embeds a base-field element with zero imaginary part.
    pub fn from_m31(x: M31) -> (r: CM31)
        requires
            x.wf(),
        ensures
            r.wf(),
            r@ == (x@, 0int),
    {
        CM31 { re: x, im: M31::zero() }
    }

    pub fn add(self, rhs: CM31) -> (r: CM31)
        requires
            self.wf(),
            rhs.wf(),
        ensures
            r.wf(),
            r@ == cadd(self@, rhs@),
    {
        CM31 { re: self.re.add(rhs.re), im: self.im.add(rhs.im) }
    }

    pub fn sub(self, rhs: CM31) -> (r: CM31)
        requires
            self.wf(),
            rhs.wf(),
        ensures
            r.wf(),
            r@ == csub(self@, rhs@),
    {
        CM31 { re: self.re.sub(rhs.re), im: self.im.sub(rhs.im) }
    }

    pub fn neg(self) -> (r: CM31)
        requires
            self.wf(),
        ensures
            r.wf(),
            r@ == cneg(self@),
    {
        CM31 { re: self.re.neg(), im: self.im.neg() }
    }

    pub fn mul(self, rhs: CM31) -> (r: CM31)
        requires
            self.wf(),
            rhs.wf(),
        ensures
            r.wf(),
            r@ == cmul(self@, rhs@),
    {
        CM31 {
            re: self.re.mul(rhs.re).sub(self.im.mul(rhs.im)),
            im: self.re.mul(rhs.im).add(self.im.mul(rhs.re)),
        }
    }

    /// Subtracts a base-field scalar from the real part.
    pub fn sub_m31(self, rhs: M31) -> (r: CM31)
        requires
            self.wf(),
            rhs.wf(),
        ensures
            r.wf(),
            r@ == csub(self@, (rhs@, 0int)),
    {
        proof {
            lemma_small_mod(self.im.v as nat, P as nat);
        }
        CM31 { re: self.re.sub(rhs), im: self.im }
    }

    /// The multiplicative inverse, by conjugate over norm; the base-field
    /// inverse of the norm is the power `P - 2`.
    pub fn inv(self) -> (r: CM31)
        requires
            self.wf(),
        ensures
            r.wf(),
            r@ == cm_inv(self@),
    {
        let norm = self.re.mul(self.re).add(self.im.mul(self.im));
        let norm_inv = norm.inv();
        proof {
            crate::algebra::lemma_pow_mod_bounds(norm@, (P - 2) as nat);
        }
        CM31 { re: self.re.mul(norm_inv), im: self.im.neg().mul(norm_inv) }
    }

    /// Multiplies by a base-field scalar.
    pub fn mul_m31(self, rhs: M31) -> (r: CM31)
        requires
            self.wf(),
            rhs.wf(),
        ensures
            r.wf(),
            r@ == cmul(self@, (rhs@, 0int)),
    {
        proof {
            let m = P as int;
            assert(fmul(self@.0, rhs@) - 0 == fmul(self@.0, rhs@));
            lemma_small_mod(fmul(self@.0, rhs@) as nat, m as nat);
            lemma_small_mod(fmul(self@.1, rhs@) as nat, m as nat);
        }
        CM31 { re: self.re.mul(rhs), im: self.im.mul(rhs) }
    }
}

/// Multiplication of a quartic value by a base-field scalar, half by half.
pub open spec fn qscalar(v: ExtVal, k: int) -> ExtVal {
    (cmul(v.0, (k, 0int)), cmul(v.1, (k, 0int)))
}

/// An element of the quartic extension QM31 = CM31[u] / (u^2 - 2 - i),
/// the field in which sampled values, random coefficients and accumulated
/// answers live.
#[derive(Clone, Copy, Debug, PartialEq, Eq, Structural)]
pub struct QM31 {
    pub first: CM31,
    pub second: CM31,
}

impl View for QM31 {
    type V = ((int, int), (int, int));

    open spec fn view(&self) -> ((int, int), (int, int)) {
        (self.first@, self.second@)
    }
}

impl QM31 {
    pub open spec fn wf(self) -> bool {
        self.first.wf() && self.second.wf()
    }

    pub fn new(first: CM31, second: CM31) -> (r: QM31)
        requires
            first.wf(),
            second.wf(),
        ensures
            r.wf(),
            r@ == (first@, second@),
    {
        QM31 { first, second }
    }

    pub fn zero() -> (r: QM31)
        ensures
            r.wf(),
            r@ == ((0int, 0int), (0int, 0int)),
    {
        QM31 { first: CM31::zero(), second: CM31::zero() }
    }

    pub fn one() -> (r: QM31)
        ensures
            r.wf(),
            r@ == ((1int, 0int), (0int, 0int)),
    {
        QM31 { first: CM31::one(), second: CM31::zero() }
    }

    /// Builds an element from its four base-field coordinates
    /// (a + bi) + (c + di) u.
    pub fn from_m31(a: M31, b: M31, c: M31, d: M31) -> (r: QM31)
        requires
            a.wf(),
            b.wf(),
            c.wf(),
            d.wf(),
        ensures
            r.wf(),
            r@ == ((a@, b@), (c@, d@)),
    {
        QM31 { first: CM31 { re: a, im: b }, second: CM31 { re: c, im: d } }
    }

    /// Embeds a quadratic-extension element with zero second half.
    pub fn from_cm31(x: CM31) -> (r: QM31)
        requires
            x.wf(),
        ensures
            r.wf(),
            r@ == (x@, (0int, 0int)),
    {
        QM31 { first: x, second: CM31::zero() }
    }

    /// The two quadratic-subfield halves, in order.
    pub fn decompose_cm31(self) -> (r: [CM31; 2])
        requires
            self.wf(),
        ensures
            r[0].wf() && r[1].wf(),
            r[0]@ == self@.0 && r[1]@ == self@.1,
    {
        [self.first, self.second]
    }

    /// The four base-field coordinates, in order.
    pub fn decompose_m31(self) -> (r: [M31; 4])
        requires
            self.wf(),
        ensures
            r[0].wf() && r[1].wf() && r[2].wf() && r[3].wf(),
            r[0]@ == self@.0.0 && r[1]@ == self@.0.1 && r[2]@ == self@.1.0 && r[3]@ == self@.1.1,
    {
        [self.first.re, self.first.im, self.second.re, self.second.im]
    }

    pub fn add(self, rhs: QM31) -> (r: QM31)
        requires
            self.wf(),
            rhs.wf(),
        ensures
            r.wf(),
            r@ == qadd(self@, rhs@),
    {
        QM31 { first: self.first.add(rhs.first), second: self.second.add(rhs.second) }
    }

    pub fn sub(self, rhs: QM31) -> (r: QM31)
        requires
            self.wf(),
            rhs.wf(),
        ensures
            r.wf(),
            r@ == qsub(self@, rhs@),
    {
        QM31 { first: self.first.sub(rhs.first), second: self.second.sub(rhs.second) }
    }

    pub fn mul(self, rhs: QM31) -> (r: QM31)
        requires
            self.wf(),
            rhs.wf(),
        ensures
            r.wf(),
            r@ == qmul(self@, rhs@),
    {
        let r_const = CM31 { re: M31 { v: 2 }, im: M31 { v: 1 } };
        QM31 {
            first: self.first.mul(rhs.first).add(r_const.mul(self.second.mul(rhs.second))),
            second: self.first.mul(rhs.second).add(self.second.mul(rhs.first)),
        }
    }

    pub fn neg(self) -> (r: QM31)
        requires
            self.wf(),
        ensures
            r.wf(),
            r@ == (cneg(self@.0), cneg(self@.1)),
    {
        QM31 { first: self.first.neg(), second: self.second.neg() }
    }

    /// Multiplies every coordinate by a base-field scalar.
    pub fn mul_m31(self, rhs: M31) -> (r: QM31)
        requires
            self.wf(),
            rhs.wf(),
        ensures
            r.wf(),
            r@ == qscalar(self@, rhs@),
    {
        QM31 { first: self.first.mul_m31(rhs), second: self.second.mul_m31(rhs) }
    }

    /// The oblivious two-way choice the circuit offers: `bit ? if_one : self`.
    /// In a circuit this is a linear combination weighted by the bit; here it
    /// is the same function of the same inputs.
    pub fn select(self, if_one: QM31, bit: bool) -> (r: QM31)
        ensures
            r == if bit {
                if_one
            } else {
                self
            },
    {
        if bit {
            if_one
        } else {
            self
        }
    }

    /// Rebuilds an element from its machine-word coordinates.
    pub fn from_limbs(l: Limbs) -> (q: QM31)
        requires
            limbs_wf(l),
        ensures
            q.wf(),
            q@ == limbs_view(l),
            qm31_limbs(q) == l,
    {
        QM31 {
            first: CM31 { re: M31 { v: l.0 }, im: M31 { v: l.1 } },
            second: CM31 { re: M31 { v: l.2 }, im: M31 { v: l.3 } },
        }
    }

    /// The machine-word coordinates of this element.
    pub fn to_limbs(self) -> (l: Limbs)
        requires
            self.wf(),
        ensures
            l == qm31_limbs(self),
            limbs_wf(l),
            limbs_view(l) == self@,
    {
        (self.first.re.v, self.first.im.v, self.second.re.v, self.second.im.v)
    }
}

/// The sequence of spec values behind a sequence of field elements.
pub open spec fn views_of(ts: Seq<QM31>) -> Seq<ExtVal> {
    ts.map_values(|q: QM31| q@)
}

/// `b^e` in the base field, on canonical representatives.
pub open spec fn pow_mod(b: int, e: nat) -> int
    decreases e,
{
    if e == 0 {
        1
    } else {
        fmul(pow_mod(b, (e - 1) as nat), b)
    }
}

/// The multiplicative inverse in the quadratic extension, by the
/// conjugate-over-norm formula, with the base-field inverse as the power
/// `P - 2`.
pub open spec fn cm_inv(v: (int, int)) -> (int, int) {
    let norm_inv = pow_mod(fadd(fmul(v.0, v.0), fmul(v.1, v.1)), (P - 2) as nat);
    (fmul(v.0, norm_inv), fmul(fneg(v.1), norm_inv))
}

/// Both coordinates are canonical representatives.
pub open spec fn cm_wf(v: (int, int)) -> bool {
    &&& 0 <= v.0 < P as int
    &&& 0 <= v.1 < P as int
}

/// Base-field: adding zero on the right leaves a canonical value unchanged.
pub proof fn lemma_fadd_zero_right(v: int)
    requires
        0 <= v < P as int,
    ensures
        fadd(v, 0) == v,
{
    lemma_small_mod(v as nat, P as nat);
}

/// Base-field: multiplying by zero gives zero, by one leaves a canonical
/// value unchanged.
pub proof fn lemma_fmul_zero_one(v: int)
    requires
        0 <= v < P as int,
    ensures
        fmul(v, 0) == 0,
        fmul(v, 1) == v,
        fadd(0, v) == v,
{
    lemma_small_mod(0, P as nat);
    lemma_small_mod(v as nat, P as nat);
}

/// Quadratic extension: adding zero on the right leaves a canonical value
/// unchanged.
pub proof fn lemma_cadd_zero_right(v: (int, int))
    requires
        cm_wf(v),
    ensures
        cadd(v, (0int, 0int)) == v,
{
    lemma_small_mod(v.0 as nat, P as nat);
    lemma_small_mod(v.1 as nat, P as nat);
}

/// Quadratic extension: multiplying by zero gives zero, by one leaves a
/// canonical value unchanged; adding to zero on the left is the identity.
pub proof fn lemma_cmul_zero_one(v: (int, int))
    requires
        cm_wf(v),
    ensures
        cmul(v, (0int, 0int)) == (0int, 0int),
        cmul(v, (1int, 0int)) == v,
        cadd((0int, 0int), v) == v,
{
    lemma_small_mod(0, P as nat);
    lemma_small_mod(v.0 as nat, P as nat);
    lemma_small_mod(v.1 as nat, P as nat);
}

/// Adding zero on the left leaves a canonical value unchanged.
pub proof fn lemma_qadd_zero_left(v: ExtVal)
    requires
        ext_wf(v),
    ensures
        qadd(qzero(), v) == v,
{
    let m = P as int;
    lemma_small_mod(v.0.0 as nat, m as nat);
    lemma_small_mod(v.0.1 as nat, m as nat);
    lemma_small_mod(v.1.0 as nat, m as nat);
    lemma_small_mod(v.1.1 as nat, m as nat);
}

/// Adding zero on the right leaves a canonical value unchanged.
pub proof fn lemma_qadd_zero_right(v: ExtVal)
    requires
        ext_wf(v),
    ensures
        qadd(v, qzero()) == v,
{
    let m = P as int;
    lemma_small_mod(v.0.0 as nat, m as nat);
    lemma_small_mod(v.0.1 as nat, m as nat);
    lemma_small_mod(v.1.0 as nat, m as nat);
    lemma_small_mod(v.1.1 as nat, m as nat);
}

/// Multiplying by zero gives zero.
pub proof fn lemma_qmul_zero_right(v: ExtVal)
    ensures
        qmul(v, qzero()) == qzero(),
{
    let m = P as int;
    lemma_small_mod(0, m as nat);
}

/// Multiplying a canonical value by one leaves it unchanged.
pub proof fn lemma_qmul_one_right(v: ExtVal)
    requires
        ext_wf(v),
    ensures
        qmul(v, qone()) == v,
{
    let m = P as int;
    lemma_small_mod(0, m as nat);
    lemma_small_mod(v.0.0 as nat, m as nat);
    lemma_small_mod(v.0.1 as nat, m as nat);
    lemma_small_mod(v.1.0 as nat, m as nat);
    lemma_small_mod(v.1.1 as nat, m as nat);
}

} // verus!
