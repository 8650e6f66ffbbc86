use recursion_core::allocation::{allocate_interaction_entry, allocate_samples};
use recursion_core::bitmap::LogSizeBitmap;
use recursion_core::errors::StructuralError;
use recursion_core::field::{CM31, M31, P, QM31};
use recursion_core::line::{CirclePointM31, CirclePointQM31, complex_conjugate_line_coeffs};
use recursion_core::composition::{PlonkPreprocessed, evaluate_plonk};
use recursion_core::poseidon::{
    apply_external_round_matrix, apply_internal_round_matrix, apply_m4, pow5,
};
use recursion_core::quotients::{
    ColumnFamily, InteractionRow, LogSizeSel, build_quotient_constants, scalar_term,
    select_shifted_point,
};
use recursion_core::poseidon::{PoseidonPreprocessed, evaluate_poseidon};
use recursion_core::results::AnswerResults;

fn q(a: u32, b: u32, c: u32, d: u32) -> QM31 {
    QM31::from_m31(M31::new(a), M31::new(b), M31::new(c), M31::new(d))
}

fn cm(a: u32, b: u32) -> CM31 {
    CM31::new(M31::new(a), M31::new(b))
}

#[test]
fn scalar_quotient_term_has_the_documented_value() {
    // denom = 1, c = 2, a = 1, b = 0, queried = 3, y = 5:
    // 1 * (2 * 3 - 1 * 5 - 0) = 1.
    let r = scalar_term(cm(1, 0), cm(2, 0), cm(1, 0), cm(0, 0), M31::new(3), M31::new(5));
    assert_eq!(r.to_limbs(), (1, 0, 0, 0));
}

#[test]
fn line_coefficients_follow_the_conjugate_formula() {
    let point = CirclePointQM31 { x: q(1, 2, 3, 4), y: q(5, 6, 7, 8) };
    let value = q(10, 20, 30, 40);
    let coeffs = complex_conjugate_line_coeffs(&point, &value);
    // a is the second half of the value, c the second half of the y
    // coordinate.
    assert_eq!((coeffs[0].re.v, coeffs[0].im.v), (30, 40));
    assert_eq!((coeffs[2].re.v, coeffs[2].im.v), (7, 8));
    // b = value0 * y1 - value1 * y0.
    let b = cm(10, 20).mul(cm(7, 8)).sub(cm(30, 40).mul(cm(5, 6)));
    assert_eq!((coeffs[1].re.v, coeffs[1].im.v), (b.re.v, b.im.v));
    // The builder derives the same pair per sampled column.
    let built = build_quotient_constants(&point, &vec![value]);
    assert_eq!(built.len(), 1);
    assert_eq!((built[0].0.re.v, built[0].0.im.v), (30, 40));
    assert_eq!((built[0].1.re.v, built[0].1.im.v), (b.re.v, b.im.v));
}

#[test]
fn trace_family_requires_matching_lengths() {
    let r = ColumnFamily::new_trace(
        LogSizeSel::Fixed(3),
        vec![(cm(1, 0), cm(0, 0))],
        vec![M31::new(5), M31::new(6)],
    );
    assert_eq!(r.err().unwrap(), StructuralError::LengthMismatch);
    let row = InteractionRow::new(vec![(cm(1, 0), cm(0, 0))], q(1, 0, 0, 0));
    assert_eq!(row.err().unwrap(), StructuralError::LengthMismatch);
}

#[test]
fn answers_follow_the_quotient_formula() {
    // Range [3, 4], one query, one trace family at fixed log-size 3 with a
    // single column: the bucket absorbs exactly its quotient term.
    let random_coeff = q(9, 0, 1, 0);
    let oods_c = cm(2, 0);
    let domain_points = vec![
        vec![CirclePointM31 { x: M31::new(1), y: M31::new(2) }],
        vec![CirclePointM31 { x: M31::new(3), y: M31::new(4) }],
    ];
    let denominator_inverses = vec![vec![cm(1, 0)], vec![cm(2, 0)]];
    let family = ColumnFamily::new_trace(
        LogSizeSel::Fixed(3),
        vec![(cm(1, 0), cm(0, 0))],
        vec![M31::new(5)],
    )
    .unwrap();
    let results = AnswerResults::compute(
        3,
        4,
        &random_coeff,
        &oods_c,
        &domain_points,
        &denominator_inverses,
        &vec![family],
        1,
    );
    assert_eq!(results.answers.len(), 1);
    let row = &results.answers[0];
    assert_eq!((row[0].0, row[1].0), (4, 3));
    // Expected: the scalar term times the sentinel multiplier -2.
    let term = scalar_term(cm(1, 0), cm(2, 0), cm(1, 0), cm(0, 0), M31::new(5), M31::new(2));
    let expected = term.mul(q(0, 0, P - 2, 0));
    assert_eq!(row[1].1.to_limbs(), expected.to_limbs());
    assert_eq!(row[0].1.to_limbs(), (0, 0, 0, 0));
}

#[test]
fn sample_allocation_consumes_the_stream_exactly() {
    let stream: Vec<QM31> = (0..6u32).map(|v| q(v, 0, 0, 0)).collect();
    let parts = allocate_samples(&stream, &vec![2, 3, 1]).unwrap();
    assert_eq!(parts.len(), 3);
    assert_eq!(parts[0].len(), 2);
    assert_eq!(parts[1].len(), 3);
    assert_eq!(parts[2].len(), 1);
    assert_eq!(parts[1][0].to_limbs(), (2, 0, 0, 0));
    assert_eq!(parts[2][0].to_limbs(), (5, 0, 0, 0));
    // A leftover and a shortfall are both the offset error.
    assert_eq!(
        allocate_samples(&stream, &vec![2, 3]).err().unwrap(),
        StructuralError::OffsetMismatch
    );
    assert_eq!(
        allocate_samples(&stream, &vec![4, 3]).err().unwrap(),
        StructuralError::OffsetMismatch
    );
}

#[test]
fn interaction_allocation_splits_data_and_presum() {
    // Eight columns: the first four hold one sample, the last four hold
    // the presum sample then the last data row's sample.
    let mut columns: Vec<Vec<QM31>> = Vec::new();
    for c in 0..4u32 {
        columns.push(vec![q(100 + c, 0, 0, 0)]);
    }
    for c in 0..4u32 {
        columns.push(vec![q(200 + c, 0, 0, 0), q(300 + c, 0, 0, 0)]);
    }
    let entry = allocate_interaction_entry(&columns, 0, 2).unwrap();
    assert_eq!(entry.data.len(), 2);
    assert_eq!(entry.data[0][2].to_limbs(), (102, 0, 0, 0));
    assert_eq!(entry.data[1][1].to_limbs(), (301, 0, 0, 0));
    assert_eq!(entry.presum[3].to_limbs(), (203, 0, 0, 0));
    // A last-row column with a single sample cannot be split.
    let mut short = columns.clone();
    short[7] = vec![q(1, 0, 0, 0)];
    assert_eq!(
        allocate_interaction_entry(&short, 0, 2).err().unwrap(),
        StructuralError::OffsetMismatch
    );
}

#[test]
fn shifted_point_selection_picks_the_active_entry() {
    let points = vec![
        CirclePointQM31 { x: q(1, 0, 0, 0), y: q(2, 0, 0, 0) },
        CirclePointQM31 { x: q(3, 0, 0, 0), y: q(4, 0, 0, 0) },
        CirclePointQM31 { x: q(5, 0, 0, 0), y: q(6, 0, 0, 0) },
    ];
    let bm = LogSizeBitmap::new(3, 5, 4);
    let p = select_shifted_point(&bm, &points);
    assert_eq!(p.x.to_limbs(), (3, 0, 0, 0));
    assert_eq!(p.y.to_limbs(), (4, 0, 0, 0));
}

#[test]
fn m4_realizes_its_matrix_rows() {
    let x = [q(1, 0, 0, 0), q(2, 0, 0, 0), q(3, 0, 0, 0), q(4, 0, 0, 0)];
    let r = apply_m4(x);
    // Rows (5,7,1,3), (4,6,1,1), (1,3,5,7), (1,1,4,6) applied to 1,2,3,4.
    assert_eq!(r[0].to_limbs(), (5 + 14 + 3 + 12, 0, 0, 0));
    assert_eq!(r[1].to_limbs(), (4 + 12 + 3 + 4, 0, 0, 0));
    assert_eq!(r[2].to_limbs(), (1 + 6 + 15 + 28, 0, 0, 0));
    assert_eq!(r[3].to_limbs(), (1 + 2 + 12 + 24, 0, 0, 0));
}

#[test]
fn fifth_power_is_exact() {
    assert_eq!(pow5(q(3, 0, 0, 0)).to_limbs(), (243, 0, 0, 0));
}

#[test]
fn round_matrices_on_the_all_ones_state() {
    let state: Vec<QM31> = (0..16).map(|_| q(1, 0, 0, 0)).collect();
    let ext = apply_external_round_matrix(&state);
    // Each M4 row sums its coefficients on all-ones input; each output
    // lane adds its column's sum over the four blocks.
    assert_eq!(ext[0].to_limbs(), (16 + 64, 0, 0, 0));
    assert_eq!(ext[1].to_limbs(), (12 + 48, 0, 0, 0));
    assert_eq!(ext[14].to_limbs(), (16 + 64, 0, 0, 0));
    let int = apply_internal_round_matrix(&state);
    // mu_i = 2^(i+1) + 1 on the diagonal plus the total sum 16.
    assert_eq!(int[0].to_limbs(), (1 + 2 + 16, 0, 0, 0));
    assert_eq!(int[5].to_limbs(), (64 + 16, 0, 0, 0));
    assert_eq!(int[15].to_limbs(), (65536 + 16, 0, 0, 0));
}

#[test]
fn poseidon_constraints_vanish_on_a_consistent_full_round_row() {
    // Build a row that genuinely performs a full round: the intermediate
    // state is the substituted input, the output state the full-round
    // image. With the full-round flag set and the others clear, every
    // constraint group must vanish.
    let mut stream_state = 12345u64;
    let mut next = move || {
        stream_state = stream_state
            .wrapping_mul(6364136223846793005)
            .wrapping_add(1442695040888963407);
        q(((stream_state >> 33) as u32) % recursion_core::field::P, 0, 0, 0)
    };
    let in_state: Vec<QM31> = (0..16).map(|_| next()).collect();
    let rc0: Vec<QM31> = (0..16).map(|_| next()).collect();
    let rc1: Vec<QM31> = (0..16).map(|_| next()).collect();
    let intermediate: Vec<QM31> = in_state
        .iter()
        .zip(rc0.iter())
        .map(|(s, rc)| pow5(s.add(*rc)))
        .collect();
    let stage2 = apply_external_round_matrix(&intermediate);
    let stage3: Vec<QM31> = stage2.iter().zip(rc1.iter()).map(|(s, rc)| pow5(s.add(*rc))).collect();
    let out_state = apply_external_round_matrix(&stage3);
    let pre = PoseidonPreprocessed {
        is_first_round: q(0, 0, 0, 0),
        is_last_round: q(0, 0, 0, 0),
        is_full_round: q(1, 0, 0, 0),
        round_id: q(3, 0, 0, 0),
        rc0,
        rc1,
        external_idx_1: q(0, 0, 0, 0),
        external_idx_2: q(0, 0, 0, 0),
        is_external_idx_1_nonzero: q(0, 0, 0, 0),
        is_external_idx_2_nonzero: q(0, 0, 0, 0),
    };
    let (constraints, relations) = evaluate_poseidon(&pre, &in_state, &intermediate, &out_state);
    assert_eq!(constraints.len(), 78);
    for c in &constraints {
        assert_eq!(c.to_limbs(), (0, 0, 0, 0));
    }
    assert_eq!(relations.len(), 5);
    // With neither first nor last round, the input and output entries
    // carry multiplicity -1 and +1 respectively.
    assert_eq!(relations[0].0.to_limbs(), (P - 1, 0, 0, 0));
    assert_eq!(relations[2].0.to_limbs(), (1, 0, 0, 0));
}

#[test]
fn plonk_gate_vanishes_on_a_consistent_addition_row() {
    let pre = PlonkPreprocessed {
        a_wire: q(7, 0, 0, 0),
        b_wire: q(8, 0, 0, 0),
        c_wire: q(9, 0, 0, 0),
        op: q(1, 0, 0, 0),
        mult_a: q(1, 0, 0, 0),
        mult_b: q(1, 0, 0, 0),
        mult_c: q(2, 0, 0, 0),
        poseidon_wire: q(0, 0, 0, 0),
        mult_poseidon: q(3, 0, 0, 0),
        enforce_c_m31: q(1, 0, 0, 0),
    };
    // A consistent addition row: the selector picks the sum of the two
    // input wires, so the arithmetic constraint vanishes, and the three
    // enforce constraints read the imaginary masks of the output wire.
    let mut masks = vec![q(0, 0, 0, 0); 12];
    masks[0] = q(4, 0, 0, 0);
    masks[4] = q(5, 0, 0, 0);
    masks[8] = q(9, 0, 0, 0);
    let (constraints, relations) = evaluate_plonk(&pre, &masks);
    assert_eq!(constraints.len(), 4);
    for c in &constraints {
        assert_eq!(c.to_limbs(), (0, 0, 0, 0));
    }
    assert_eq!(relations.len(), 4);
    assert_eq!(relations[0].1[0].to_limbs(), (4, 0, 0, 0));
    assert_eq!(relations[3].0.to_limbs(), (P - 3, 0, 0, 0));
    assert_eq!(relations[3].1.len(), 3);

    // A multiplication row: op = 0, c = a * b.
    let pre_mul = PlonkPreprocessed { op: q(0, 0, 0, 0), ..pre };
    let mut mul_masks = vec![q(0, 0, 0, 0); 12];
    mul_masks[0] = q(4, 0, 0, 0);
    mul_masks[4] = q(5, 0, 0, 0);
    mul_masks[8] = q(20, 0, 0, 0);
    let (mul_constraints, _) = evaluate_plonk(&pre_mul, &mul_masks);
    assert_eq!(mul_constraints[3].to_limbs(), (0, 0, 0, 0));
}
