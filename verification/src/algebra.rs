//! Ring laws of the extension fields, on spec values.
//!
//! The accumulator's contracts are phrased over `qadd` / `qmul`; the laws
//! here (associativity, commutativity, neutral elements, powers) let callers
//! reason about accumulated sums of the form `t_0 r^0 + t_1 r^1 + ...`.
use vstd::prelude::*;
use vstd::arithmetic::div_mod::{
    lemma_add_mod_noop, lemma_add_mod_noop_right, lemma_sub_mod_noop, lemma_mul_mod_noop_left,
    lemma_mul_mod_noop_right, lemma_small_mod,
};
use vstd::arithmetic::mul::{
    lemma_mul_is_associative, lemma_mul_is_commutative, lemma_mul_is_distributive_add,
    lemma_mul_is_distributive_add_other_way, lemma_mul_is_distributive_sub,
    lemma_mul_is_distributive_sub_other_way,
};
use vstd::arithmetic::div_mod::lemma_mod_bound;
use crate::field::{
    ExtVal, P, cadd, cmul, ext_wf, fadd, fmul, fsub, pow_mod, qadd, qmul, qone,
    lemma_fmul_zero_one,
};

verus! {

/// Adding two reduced values then reducing equals reducing the plain sum.
proof fn lemma_fadd_flat(a: int, b: int)
    ensures
        fadd(a % (P as int), b % (P as int)) == (a + b) % (P as int),
{
    lemma_add_mod_noop(a, b, P as int);
}

/// Subtracting two reduced values then reducing equals reducing the plain
/// difference.
proof fn lemma_fsub_flat(a: int, b: int)
    ensures
        fsub(a % (P as int), b % (P as int)) == (a - b) % (P as int),
{
    lemma_sub_mod_noop(a, b, P as int);
}

/// Reducing the left factor does not change a reduced product.
proof fn lemma_fmul_flat_left(a: int, b: int)
    ensures
        fmul(a % (P as int), b) == (a * b) % (P as int),
{
    lemma_mul_mod_noop_left(a, b, P as int);
}

/// Reducing the right factor does not change a reduced product.
proof fn lemma_fmul_flat_right(a: int, b: int)
    ensures
        fmul(a, b % (P as int)) == (a * b) % (P as int),
{
    lemma_mul_mod_noop_right(a, b, P as int);
}

/// Base-field addition is associative.
pub proof fn lemma_fadd_assoc(a: int, b: int, c: int)
    ensures
        fadd(fadd(a, b), c) == fadd(a, fadd(b, c)),
{
    let p = P as int;
    lemma_add_mod_noop(a + b, c, p);
    lemma_small_mod((if 0 <= c % p { c % p } else { 0 }) as nat, p as nat);
    lemma_mod_of_mod(c);
    assert(fadd(fadd(a, b), c) == ((a + b) % p + c % p) % p);
    assert(((a + b) % p + c % p) % p == (a + b + c) % p);
    lemma_add_mod_noop_right(a, b + c, p);
    assert(fadd(a, fadd(b, c)) == (a + (b + c) % p) % p);
}

/// Reducing twice is reducing once.
proof fn lemma_mod_of_mod(x: int)
    ensures
        (x % (P as int)) % (P as int) == x % (P as int),
{
    vstd::arithmetic::div_mod::lemma_mod_twice(x, P as int);
}

/// Quadratic-extension addition is associative.
pub proof fn lemma_cadd_assoc(x: (int, int), y: (int, int), z: (int, int))
    ensures
        cadd(cadd(x, y), z) == cadd(x, cadd(y, z)),
{
    lemma_fadd_assoc(x.0, y.0, z.0);
    lemma_fadd_assoc(x.1, y.1, z.1);
}

/// Quartic-extension addition is associative.
pub proof fn lemma_qadd_assoc(x: ExtVal, y: ExtVal, z: ExtVal)
    ensures
        qadd(qadd(x, y), z) == qadd(x, qadd(y, z)),
{
    lemma_cadd_assoc(x.0, y.0, z.0);
    lemma_cadd_assoc(x.1, y.1, z.1);
}

/// Quartic-extension addition is commutative.
pub proof fn lemma_qadd_comm(x: ExtVal, y: ExtVal)
    ensures
        qadd(x, y) == qadd(y, x),
{
}

/// Quadratic-extension multiplication is commutative.
pub proof fn lemma_cmul_comm(x: (int, int), y: (int, int))
    ensures
        cmul(x, y) == cmul(y, x),
{
    lemma_mul_is_commutative(x.0, y.0);
    lemma_mul_is_commutative(x.1, y.1);
    lemma_mul_is_commutative(x.0, y.1);
    lemma_mul_is_commutative(x.1, y.0);
}

/// A product of two quadratic values, flattened to one reduction of the
/// plain polynomial in the coordinates.
proof fn lemma_cmul_flat(x: (int, int), y: (int, int))
    ensures
        cmul(x, y) == (
            (x.0 * y.0 - x.1 * y.1) % (P as int),
            (x.0 * y.1 + x.1 * y.0) % (P as int),
        ),
{
    lemma_fsub_flat(x.0 * y.0, x.1 * y.1);
    lemma_fadd_flat(x.0 * y.1, x.1 * y.0);
}

/// Quadratic-extension multiplication is associative.
pub proof fn lemma_cmul_assoc(x: (int, int), y: (int, int), z: (int, int))
    ensures
        cmul(cmul(x, y), z) == cmul(x, cmul(y, z)),
{
    let p = P as int;
    let a1 = x.0 * y.0 - x.1 * y.1;
    let a2 = x.0 * y.1 + x.1 * y.0;
    let b1 = y.0 * z.0 - y.1 * z.1;
    let b2 = y.0 * z.1 + y.1 * z.0;
    lemma_cmul_flat(x, y);
    lemma_cmul_flat(y, z);
    // Left side flattened.
    lemma_fmul_flat_left(a1, z.0);
    lemma_fmul_flat_left(a2, z.1);
    lemma_fsub_flat(a1 * z.0, a2 * z.1);
    lemma_fmul_flat_left(a1, z.1);
    lemma_fmul_flat_left(a2, z.0);
    lemma_fadd_flat(a1 * z.1, a2 * z.0);
    assert(cmul(cmul(x, y), z) == ((a1 * z.0 - a2 * z.1) % p, (a1 * z.1 + a2 * z.0) % p));
    // Right side flattened.
    lemma_fmul_flat_right(x.0, b1);
    lemma_fmul_flat_right(x.1, b2);
    lemma_fsub_flat(x.0 * b1, x.1 * b2);
    lemma_fmul_flat_right(x.0, b2);
    lemma_fmul_flat_right(x.1, b1);
    lemma_fadd_flat(x.0 * b2, x.1 * b1);
    assert(cmul(x, cmul(y, z)) == ((x.0 * b1 - x.1 * b2) % p, (x.0 * b2 + x.1 * b1) % p));
    // The underlying polynomials agree: expand each side into monomials.
    lemma_mul_is_distributive_sub_other_way(z.0, x.0 * y.0, x.1 * y.1);
    lemma_mul_is_distributive_add_other_way(z.1, x.0 * y.1, x.1 * y.0);
    lemma_mul_is_distributive_sub(x.0, y.0 * z.0, y.1 * z.1);
    lemma_mul_is_distributive_add(x.1, y.0 * z.1, y.1 * z.0);
    lemma_mul_is_associative(x.0, y.0, z.0);
    lemma_mul_is_associative(x.1, y.1, z.0);
    lemma_mul_is_associative(x.0, y.1, z.1);
    lemma_mul_is_associative(x.1, y.0, z.1);
    assert(a1 * z.0 - a2 * z.1 == x.0 * b1 - x.1 * b2);
    lemma_mul_is_distributive_sub_other_way(z.1, x.0 * y.0, x.1 * y.1);
    lemma_mul_is_distributive_add_other_way(z.0, x.0 * y.1, x.1 * y.0);
    lemma_mul_is_distributive_add(x.0, y.0 * z.1, y.1 * z.0);
    lemma_mul_is_distributive_sub(x.1, y.0 * z.0, y.1 * z.1);
    lemma_mul_is_associative(x.0, y.0, z.1);
    lemma_mul_is_associative(x.1, y.1, z.1);
    lemma_mul_is_associative(x.0, y.1, z.0);
    lemma_mul_is_associative(x.1, y.0, z.0);
    assert(a1 * z.1 + a2 * z.0 == x.0 * b2 + x.1 * b1);
}

/// Quadratic-extension multiplication distributes over addition on the right.
pub proof fn lemma_cmul_distrib_right(x: (int, int), y: (int, int), z: (int, int))
    ensures
        cmul(cadd(x, y), z) == cadd(cmul(x, z), cmul(y, z)),
{
    let p = P as int;
    lemma_fmul_flat_left(x.0 + y.0, z.0);
    lemma_fmul_flat_left(x.1 + y.1, z.1);
    lemma_fmul_flat_left(x.0 + y.0, z.1);
    lemma_fmul_flat_left(x.1 + y.1, z.0);
    lemma_fsub_flat((x.0 + y.0) * z.0, (x.1 + y.1) * z.1);
    lemma_fadd_flat((x.0 + y.0) * z.1, (x.1 + y.1) * z.0);
    assert(cmul(cadd(x, y), z) == (
        ((x.0 + y.0) * z.0 - (x.1 + y.1) * z.1) % p,
        ((x.0 + y.0) * z.1 + (x.1 + y.1) * z.0) % p,
    ));
    lemma_cmul_flat(x, z);
    lemma_cmul_flat(y, z);
    lemma_fadd_flat(x.0 * z.0 - x.1 * z.1, y.0 * z.0 - y.1 * z.1);
    lemma_fadd_flat(x.0 * z.1 + x.1 * z.0, y.0 * z.1 + y.1 * z.0);
    assert(cadd(cmul(x, z), cmul(y, z)) == (
        ((x.0 * z.0 - x.1 * z.1) + (y.0 * z.0 - y.1 * z.1)) % p,
        ((x.0 * z.1 + x.1 * z.0) + (y.0 * z.1 + y.1 * z.0)) % p,
    ));
    lemma_mul_is_distributive_add_other_way(z.0, x.0, y.0);
    lemma_mul_is_distributive_add_other_way(z.1, x.1, y.1);
    lemma_mul_is_distributive_add_other_way(z.1, x.0, y.0);
    lemma_mul_is_distributive_add_other_way(z.0, x.1, y.1);
    assert((x.0 + y.0) * z.0 - (x.1 + y.1) * z.1 == (x.0 * z.0 - x.1 * z.1) + (y.0 * z.0 - y.1
        * z.1));
    assert((x.0 + y.0) * z.1 + (x.1 + y.1) * z.0 == (x.0 * z.1 + x.1 * z.0) + (y.0 * z.1 + y.1
        * z.0));
}

/// Quadratic-extension multiplication distributes over addition on the left.
pub proof fn lemma_cmul_distrib_left(x: (int, int), y: (int, int), z: (int, int))
    ensures
        cmul(x, cadd(y, z)) == cadd(cmul(x, y), cmul(x, z)),
{
    lemma_cmul_comm(x, cadd(y, z));
    lemma_cmul_distrib_right(y, z, x);
    lemma_cmul_comm(y, x);
    lemma_cmul_comm(z, x);
}

/// (a + b) + (c + d) == (a + c) + (d + b), in the quadratic extension.
proof fn lemma_cadd_four_rearrange(a: (int, int), b: (int, int), c: (int, int), d: (int, int))
    ensures
        cadd(cadd(a, b), cadd(c, d)) == cadd(cadd(a, c), cadd(d, b)),
{
    let p = P as int;
    lemma_fadd_flat(a.0 + b.0, c.0 + d.0);
    lemma_fadd_flat(a.1 + b.1, c.1 + d.1);
    lemma_fadd_flat(a.0 + c.0, d.0 + b.0);
    lemma_fadd_flat(a.1 + c.1, d.1 + b.1);
    assert(cadd(cadd(a, b), cadd(c, d)) == (
        (a.0 + b.0 + (c.0 + d.0)) % p,
        (a.1 + b.1 + (c.1 + d.1)) % p,
    ));
    assert(cadd(cadd(a, c), cadd(d, b)) == (
        (a.0 + c.0 + (d.0 + b.0)) % p,
        (a.1 + c.1 + (d.1 + b.1)) % p,
    ));
}

/// Quartic-extension multiplication is associative.
#[verifier::rlimit(60)]
pub proof fn lemma_qmul_assoc(x: ExtVal, y: ExtVal, z: ExtVal)
    ensures
        qmul(qmul(x, y), z) == qmul(x, qmul(y, z)),
{
    let r = crate::field::u_squared();
    let (a, b) = x;
    let (c, d) = y;
    let (e, f) = z;
    let xy0 = cadd(cmul(a, c), cmul(r, cmul(b, d)));
    let xy1 = cadd(cmul(a, d), cmul(b, c));
    let yz0 = cadd(cmul(c, e), cmul(r, cmul(d, f)));
    let yz1 = cadd(cmul(c, f), cmul(d, e));
    assert(qmul(x, y) == (xy0, xy1));
    assert(qmul(y, z) == (yz0, yz1));

    // First half of (x y) z.
    lemma_cmul_distrib_right(cmul(a, c), cmul(r, cmul(b, d)), e);
    lemma_cmul_assoc(a, c, e);
    lemma_cmul_assoc(r, cmul(b, d), e);
    lemma_cmul_assoc(b, d, e);
    lemma_cmul_distrib_right(cmul(a, d), cmul(b, c), f);
    lemma_cmul_assoc(a, d, f);
    lemma_cmul_assoc(b, c, f);
    lemma_cmul_distrib_left(r, cmul(a, cmul(d, f)), cmul(b, cmul(c, f)));
    assert(qmul(qmul(x, y), z).0 == cadd(
        cadd(cmul(a, cmul(c, e)), cmul(r, cmul(b, cmul(d, e)))),
        cadd(cmul(r, cmul(a, cmul(d, f))), cmul(r, cmul(b, cmul(c, f)))),
    ));

    // First half of x (y z).
    lemma_cmul_distrib_left(a, cmul(c, e), cmul(r, cmul(d, f)));
    lemma_cmul_assoc(a, r, cmul(d, f));
    lemma_cmul_comm(a, r);
    lemma_cmul_assoc(r, a, cmul(d, f));
    lemma_cmul_distrib_left(b, cmul(c, f), cmul(d, e));
    lemma_cmul_distrib_left(r, cmul(b, cmul(c, f)), cmul(b, cmul(d, e)));
    assert(qmul(x, qmul(y, z)).0 == cadd(
        cadd(cmul(a, cmul(c, e)), cmul(r, cmul(a, cmul(d, f)))),
        cadd(cmul(r, cmul(b, cmul(c, f))), cmul(r, cmul(b, cmul(d, e)))),
    ));
    lemma_cadd_four_rearrange(
        cmul(a, cmul(c, e)),
        cmul(r, cmul(b, cmul(d, e))),
        cmul(r, cmul(a, cmul(d, f))),
        cmul(r, cmul(b, cmul(c, f))),
    );
    assert(qmul(qmul(x, y), z).0 == qmul(x, qmul(y, z)).0);

    // Second half of (x y) z.
    lemma_cmul_distrib_right(cmul(a, c), cmul(r, cmul(b, d)), f);
    lemma_cmul_assoc(a, c, f);
    lemma_cmul_assoc(r, cmul(b, d), f);
    lemma_cmul_assoc(b, d, f);
    lemma_cmul_distrib_right(cmul(a, d), cmul(b, c), e);
    lemma_cmul_assoc(a, d, e);
    lemma_cmul_assoc(b, c, e);
    assert(qmul(qmul(x, y), z).1 == cadd(
        cadd(cmul(a, cmul(c, f)), cmul(r, cmul(b, cmul(d, f)))),
        cadd(cmul(a, cmul(d, e)), cmul(b, cmul(c, e))),
    ));

    // Second half of x (y z).
    lemma_cmul_distrib_left(a, cmul(c, f), cmul(d, e));
    lemma_cmul_distrib_left(b, cmul(c, e), cmul(r, cmul(d, f)));
    lemma_cmul_assoc(b, r, cmul(d, f));
    lemma_cmul_comm(b, r);
    lemma_cmul_assoc(r, b, cmul(d, f));
    assert(qmul(x, qmul(y, z)).1 == cadd(
        cadd(cmul(a, cmul(c, f)), cmul(a, cmul(d, e))),
        cadd(cmul(b, cmul(c, e)), cmul(r, cmul(b, cmul(d, f)))),
    ));
    lemma_cadd_four_rearrange(
        cmul(a, cmul(c, f)),
        cmul(r, cmul(b, cmul(d, f))),
        cmul(a, cmul(d, e)),
        cmul(b, cmul(c, e)),
    );
    assert(qmul(qmul(x, y), z).1 == qmul(x, qmul(y, z)).1);
}

/// Base-field multiplication is associative.
pub proof fn lemma_fmul_assoc(a: int, b: int, c: int)
    ensures
        fmul(fmul(a, b), c) == fmul(a, fmul(b, c)),
{
    lemma_fmul_flat_left(a * b, c);
    lemma_fmul_flat_right(a, b * c);
    lemma_mul_is_associative(a, b, c);
}

/// Every base-field power is a canonical representative.
pub proof fn lemma_pow_mod_bounds(b: int, e: nat)
    ensures
        0 <= pow_mod(b, e) < P as int,
    decreases e,
{
    if e == 0 {
    } else {
        lemma_pow_mod_bounds(b, (e - 1) as nat);
        lemma_mod_bound(pow_mod(b, (e - 1) as nat) * b, P as int);
    }
}

/// Base-field powers add: `b^(i + j) == b^i * b^j`.
pub proof fn lemma_pow_mod_add(b: int, i: nat, j: nat)
    ensures
        pow_mod(b, i + j) == fmul(pow_mod(b, i), pow_mod(b, j)),
    decreases j,
{
    if j == 0 {
        lemma_pow_mod_bounds(b, i);
        lemma_fmul_zero_one(pow_mod(b, i));
    } else {
        lemma_pow_mod_add(b, i, (j - 1) as nat);
        lemma_fmul_assoc(pow_mod(b, i), pow_mod(b, (j - 1) as nat), b);
        assert(pow_mod(b, i + j) == fmul(pow_mod(b, (i + j - 1) as nat), b));
    }
}

/// The `n`-th power of `r`, built by repeated multiplication on the right.
pub open spec fn qpow(r: ExtVal, n: nat) -> ExtVal
    decreases n,
{
    if n == 0 {
        qone()
    } else {
        qmul(qpow(r, (n - 1) as nat), r)
    }
}

/// Multiplying a canonical value by one on the left leaves it unchanged.
pub proof fn lemma_qmul_one_left(v: ExtVal)
    requires
        ext_wf(v),
    ensures
        qmul(qone(), v) == v,
{
    let p = P as int;
    lemma_small_mod(0, p as nat);
    lemma_small_mod(v.0.0 as nat, p as nat);
    lemma_small_mod(v.0.1 as nat, p as nat);
    lemma_small_mod(v.1.0 as nat, p as nat);
    lemma_small_mod(v.1.1 as nat, p as nat);
}

} // verus!
