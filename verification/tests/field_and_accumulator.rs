use recursion_core::accumulator::AnswerAccumulator;
use recursion_core::bitmap::LogSizeBitmap;
use recursion_core::field::{CM31, M31, P, QM31};

fn q(a: u32, b: u32, c: u32, d: u32) -> QM31 {
    QM31::from_m31(M31::new(a), M31::new(b), M31::new(c), M31::new(d))
}

#[test]
fn m31_arithmetic_wraps_at_the_modulus() {
    let x = M31::new(P - 1);
    let y = M31::new(5);
    assert_eq!(x.add(y).v, 4);
    assert_eq!(y.sub(x).v, 6);
    assert_eq!(x.mul(y).v, P - 5);
    assert_eq!(x.neg().v, 1);
    assert_eq!(M31::new(0).neg().v, 0);
}

#[test]
fn m31_inverse_multiplies_to_one() {
    for v in [1u32, 2, 3, 12345, P - 1, 65536] {
        let x = M31::new(v);
        assert_eq!(x.mul(x.inv()).v, 1);
    }
    assert_eq!(M31::new(2).inv().v, 1 << 30);
}

#[test]
fn cm31_inverse_multiplies_to_one() {
    let x = CM31::new(M31::new(17), M31::new(99));
    let r = x.mul(x.inv());
    assert_eq!((r.re.v, r.im.v), (1, 0));
}

#[test]
fn qm31_multiplication_uses_the_quartic_relation() {
    // u * u must equal 2 + i.
    let u = q(0, 0, 1, 0);
    assert_eq!(u.mul(u).to_limbs(), (2, 1, 0, 0));
    // i * i must equal -1.
    let i = q(0, 1, 0, 0);
    assert_eq!(i.mul(i).to_limbs(), (P - 1, 0, 0, 0));
    let x = q(1, 2, 3, 4);
    assert_eq!(x.mul(QM31::one()).to_limbs(), (1, 2, 3, 4));
    assert_eq!(x.mul(QM31::zero()).to_limbs(), (0, 0, 0, 0));
}

#[test]
fn bitmap_is_one_hot() {
    // Exactness: exactly the bit of the given log-size is set.
    for s in 3..=5u32 {
        let bm = LogSizeBitmap::new(3, 5, s);
        assert_eq!(bm.bits.len(), 3);
        for o in 0..3u32 {
            assert_eq!(bm.bits[o as usize], 3 + o == s);
        }
    }
}

#[test]
fn selecting_through_the_bitmap_returns_the_bucket_unmodified() {
    let r = q(7, 0, 0, 0);
    let acc = AnswerAccumulator::new(3, 5, &r);
    let bm = LogSizeBitmap::new(3, 5, 4);
    let (answer, multiplier) = acc.select_bucket(&bm);
    assert_eq!(answer.to_limbs(), (0, 0, 0, 0));
    assert_eq!(multiplier.to_limbs(), (0, 0, P - 2, 0));
}

#[test]
fn accumulator_update_is_linear_in_the_terms() {
    // After terms [t0, t1, t2], the answer is
    // t0 * m + t1 * (m r) + t2 * (m r^2) and the multiplier is m r^3.
    let r = q(3, 1, 4, 1);
    let t0 = q(2, 7, 1, 8);
    let t1 = q(5, 0, 2, 3);
    let t2 = q(9, 9, 1, 2);
    let m = q(0, 0, P - 2, 0);
    let mut acc = AnswerAccumulator::new(3, 5, &r);
    acc.update_fix_log_size(5, &vec![t0, t1, t2]);
    let expected = t0.mul(m).add(t1.mul(m.mul(r))).add(t2.mul(m.mul(r).mul(r)));
    let out = acc.finalize();
    assert_eq!(out[0].0, 5);
    assert_eq!(out[0].1.to_limbs(), expected.to_limbs());
    // The multiplier advanced to m r^3.
    let bm = LogSizeBitmap::new(3, 5, 5);
    let (_, multiplier) = acc.select_bucket(&bm);
    assert_eq!(multiplier.to_limbs(), m.mul(r).mul(r).mul(r).to_limbs());
}

#[test]
fn oblivious_update_matches_direct_update() {
    // The same terms through the bitmap and through the fixed path leave
    // identical states.
    let r = q(3, 1, 4, 1);
    let terms = vec![q(2, 7, 1, 8), q(5, 0, 2, 3)];
    let mut oblivious = AnswerAccumulator::new(3, 6, &r);
    let mut direct = AnswerAccumulator::new(3, 6, &r);
    let bm = LogSizeBitmap::new(3, 6, 4);
    oblivious.update(&bm, &terms);
    direct.update_fix_log_size(4, &terms);
    let a = oblivious.finalize();
    let b = direct.finalize();
    assert_eq!(a.len(), b.len());
    for (x, y) in a.iter().zip(b.iter()) {
        assert_eq!(x.0, y.0);
        assert_eq!(x.1.to_limbs(), y.1.to_limbs());
    }
}

#[test]
fn accumulator_scenario_over_a_small_range() {
    // Range [3, 5], one update at log-size 4 with terms [t0, t1] and
    // random coefficient r: the bucket for 4 ends at
    // t0 * (-2) + t1 * (-2 r); the buckets for 3 and 5 stay (0, -2).
    let r = q(6, 5, 4, 3);
    let t0 = q(10, 0, 0, 0);
    let t1 = q(0, 20, 0, 0);
    let minus_two = q(0, 0, P - 2, 0);
    let mut acc = AnswerAccumulator::new(3, 5, &r);
    let bm = LogSizeBitmap::new(3, 5, 4);
    acc.update(&bm, &vec![t0, t1]);
    let out = acc.finalize();
    assert_eq!(out.len(), 3);
    assert_eq!((out[0].0, out[1].0, out[2].0), (5, 4, 3));
    let expected = t0.mul(minus_two).add(t1.mul(minus_two.mul(r)));
    assert_eq!(out[1].1.to_limbs(), expected.to_limbs());
    assert_eq!(out[0].1.to_limbs(), (0, 0, 0, 0));
    assert_eq!(out[2].1.to_limbs(), (0, 0, 0, 0));
    for s in [3u32, 5] {
        let (answer, multiplier) = acc.select_bucket(&LogSizeBitmap::new(3, 5, s));
        assert_eq!(answer.to_limbs(), (0, 0, 0, 0));
        assert_eq!(multiplier.to_limbs(), (0, 0, P - 2, 0));
    }
}
