//! The field arithmetic against its native reference: every operation must
//! reproduce, element for element, what the out-of-circuit implementation
//! computes on the same values.
use recursion_core::field::{CM31, M31, P, QM31};

fn native_m31(v: u32) -> stwo::core::fields::m31::M31 {
    stwo::core::fields::m31::M31(v)
}

fn native_qm31(a: u32, b: u32, c: u32, d: u32) -> stwo::core::fields::qm31::QM31 {
    stwo::core::fields::qm31::QM31::from_u32_unchecked(a, b, c, d)
}

fn limbs_of(n: stwo::core::fields::qm31::QM31) -> (u32, u32, u32, u32) {
    (n.0.0.0, n.0.1.0, n.1.0.0, n.1.1.0)
}

/// A small deterministic value stream for the comparison.
fn next(seed: &mut u64) -> u32 {
    *seed = seed.wrapping_mul(6364136223846793005).wrapping_add(1442695040888963407);
    ((*seed >> 33) as u32) % P
}

#[test]
fn base_field_matches_the_native_computation() {
    let mut seed: u64 = 7;
    for _ in 0..64 {
        let a = next(&mut seed);
        let b = next(&mut seed);
        let x = M31::new(a);
        let y = M31::new(b);
        assert_eq!(x.add(y).v, (native_m31(a) + native_m31(b)).0);
        assert_eq!(x.sub(y).v, (native_m31(a) - native_m31(b)).0);
        assert_eq!(x.mul(y).v, (native_m31(a) * native_m31(b)).0);
        assert_eq!(x.neg().v, (-native_m31(a)).0);
        if a != 0 {
            assert_eq!(x.inv().v, native_m31(a).inverse().0);
        }
    }
}

#[test]
fn quartic_field_matches_the_native_computation() {
    let mut seed: u64 = 99;
    for _ in 0..64 {
        let a = [next(&mut seed), next(&mut seed), next(&mut seed), next(&mut seed)];
        let b = [next(&mut seed), next(&mut seed), next(&mut seed), next(&mut seed)];
        let x = QM31::from_m31(M31::new(a[0]), M31::new(a[1]), M31::new(a[2]), M31::new(a[3]));
        let y = QM31::from_m31(M31::new(b[0]), M31::new(b[1]), M31::new(b[2]), M31::new(b[3]));
        let nx = native_qm31(a[0], a[1], a[2], a[3]);
        let ny = native_qm31(b[0], b[1], b[2], b[3]);
        assert_eq!(x.add(y).to_limbs(), limbs_of(nx + ny));
        assert_eq!(x.sub(y).to_limbs(), limbs_of(nx - ny));
        assert_eq!(x.mul(y).to_limbs(), limbs_of(nx * ny));
    }
}

#[test]
fn quadratic_inverse_matches_the_native_computation() {
    let mut seed: u64 = 1234;
    for _ in 0..16 {
        let a = next(&mut seed);
        let b = next(&mut seed);
        if a == 0 && b == 0 {
            continue;
        }
        let x = CM31::new(M31::new(a), M31::new(b));
        let native = stwo::core::fields::cm31::CM31(native_m31(a), native_m31(b));
        let inv = x.inv();
        let native_inv = stwo::core::fields::FieldExpOps::inverse(&native);
        assert_eq!((inv.re.v, inv.im.v), (native_inv.0.0, native_inv.1.0));
    }
}
