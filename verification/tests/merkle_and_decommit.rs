use recursion_core::decommit::{ColumnsHasher, hash_base_columns};
use recursion_core::errors::StructuralError;
use recursion_core::field::{M31, QM31};
use recursion_core::merkle::{
    HashDigest, PaddedMerkleProof, combine_hash_tree_with_column, hash_columns_get_capacity,
    hash_columns_get_rate, hash_tree_with_swap,
};
use recursion_core::results::FoldingResults;

fn q(a: u32, b: u32, c: u32, d: u32) -> QM31 {
    QM31::from_m31(M31::new(a), M31::new(b), M31::new(c), M31::new(d))
}

fn digest_of(vals: &[u32]) -> HashDigest {
    let columns: Vec<QM31> = vals.iter().map(|v| q(*v, 0, 0, 0)).collect();
    hash_columns_get_rate(&columns)
}

/// The straightforward, non-padded reconstruction of the root for the
/// witness used below: hash the leaf pair, then walk the levels, mixing a
/// column hash in exactly where the witness has one.
fn plain_root(
    depth: usize,
    min_depth: u32,
    self_columns: &Vec<Option<QM31>>,
    sibling_columns: &Vec<Option<QM31>>,
    sibling_hashes: &Vec<HashDigest>,
    bits: &Vec<bool>,
) -> HashDigest {
    let leaf_offset = (depth as u32 - min_depth) as usize;
    let mut self_hash = hash_columns_get_rate(&vec![self_columns[leaf_offset].unwrap()]);
    let mut sibling_hash = hash_columns_get_rate(&vec![sibling_columns[leaf_offset].unwrap()]);
    let max_offset = self_columns.len() - 1;
    for i in 0..depth {
        let h = depth - 1 - i;
        let tree = hash_tree_with_swap(&self_hash, &sibling_hash, bits[i]);
        let in_range = h >= min_depth as usize && h <= min_depth as usize + max_offset;
        self_hash = if in_range {
            match &self_columns[h - min_depth as usize] {
                Some(v) => combine_hash_tree_with_column(
                    &tree,
                    &hash_columns_get_capacity(&vec![*v]),
                ),
                None => tree,
            }
        } else {
            tree
        };
        if i + 1 != depth {
            let base = &sibling_hashes[i];
            sibling_hash = if in_range {
                match &sibling_columns[h - min_depth as usize] {
                    Some(v) => combine_hash_tree_with_column(
                        base,
                        &hash_columns_get_capacity(&vec![*v]),
                    ),
                    None => base.dup(),
                }
            } else {
                base.dup()
            };
        }
    }
    self_hash
}

#[test]
fn padded_verification_matches_the_plain_reconstruction() {
    // Padded range [2, 4], actual depth 3; columns present at depths 2 and
    // 3, absent at 4. The padded verifier must accept exactly the root the
    // plain reconstruction yields.
    let self_columns = vec![Some(q(11, 1, 0, 5)), Some(q(7, 2, 9, 0)), None];
    let sibling_columns = vec![Some(q(3, 3, 3, 1)), Some(q(8, 0, 4, 2)), None];
    let sibling_hashes = vec![digest_of(&[101, 55]), digest_of(&[202])];
    let bits = vec![false, true, false];
    let root = plain_root(3, 2, &self_columns, &sibling_columns, &sibling_hashes, &bits);

    let proof = PaddedMerkleProof::new(
        2,
        4,
        3,
        vec![digest_of(&[101, 55]), digest_of(&[202])],
        &self_columns,
        &sibling_columns,
    )
    .unwrap();
    assert!(proof.verify(&root, &bits));

    // A root that differs in a single lane must be rejected.
    let mut wrong = root.dup();
    wrong.lanes[0] = wrong.lanes[0].add(M31::new(1));
    assert!(!proof.verify(&wrong, &bits));
}

#[test]
fn presence_disagreement_is_the_structural_error() {
    // Self present but sibling absent at one depth: never silently
    // defaulted.
    let self_columns = vec![Some(q(1, 0, 0, 0)), Some(q(2, 0, 0, 0)), None];
    let sibling_columns = vec![Some(q(5, 0, 0, 0)), None, None];
    let r = PaddedMerkleProof::new(2, 4, 3, Vec::new(), &self_columns, &sibling_columns);
    assert_eq!(r.err().unwrap(), StructuralError::PresenceMismatch);
}

#[test]
fn tree_hash_swaps_its_sides_on_the_path_bit() {
    let a = digest_of(&[1, 2, 3]);
    let b = digest_of(&[4, 5]);
    let swapped = hash_tree_with_swap(&a, &b, true);
    let plain = hash_tree_with_swap(&b, &a, false);
    assert!(swapped.equals(&plain));
    assert!(!hash_tree_with_swap(&a, &b, false).equals(&swapped));
}

#[test]
fn folding_results_check_every_proof() {
    let self_columns = vec![Some(q(11, 1, 0, 5)), Some(q(7, 2, 9, 0)), None];
    let sibling_columns = vec![Some(q(3, 3, 3, 1)), Some(q(8, 0, 4, 2)), None];
    let sibling_hashes = vec![digest_of(&[101, 55]), digest_of(&[202])];
    let bits = vec![true, true, false];
    let root = plain_root(3, 2, &self_columns, &sibling_columns, &sibling_hashes, &bits);
    let proof = PaddedMerkleProof::new(
        2,
        4,
        3,
        vec![digest_of(&[101, 55]), digest_of(&[202])],
        &self_columns,
        &sibling_columns,
    )
    .unwrap();
    let verdict = FoldingResults::new(&vec![proof], &root, &vec![bits.clone()]);
    assert!(verdict.valid);

    let proof2 = PaddedMerkleProof::new(
        2,
        4,
        3,
        vec![digest_of(&[101, 55]), digest_of(&[202])],
        &self_columns,
        &sibling_columns,
    )
    .unwrap();
    let mut wrong = root.dup();
    wrong.lanes[3] = wrong.lanes[3].add(M31::new(1));
    let verdict2 = FoldingResults::new(&vec![proof2], &wrong, &vec![bits]);
    assert!(!verdict2.valid);
}

#[test]
fn column_hashes_land_in_the_right_bucket() {
    // A fixed-log-size update fills exactly its bucket with the column
    // hash; the dynamic path agrees with it.
    let columns = vec![M31::new(10), M31::new(20), M31::new(30)];
    let mut fixed = ColumnsHasher::new(3, 4);
    fixed.update_fixed_log_size(3, &columns);
    let out = fixed.finalize();
    assert_eq!(out.len(), 2);
    // Largest log-size first: bucket for 4 is empty, bucket for 3 holds
    // the column hash.
    assert!(!out[0].0);
    assert!(out[1].0);
    assert!(out[1].1.equals(&hash_base_columns(&columns)));

    let mut dynamic = ColumnsHasher::new(3, 4);
    let bm = recursion_core::bitmap::LogSizeBitmap::new(3, 4, 3);
    dynamic.update(&bm, &columns);
    let out2 = dynamic.finalize();
    assert_eq!(out.len(), out2.len());
    for (x, y) in out.iter().zip(out2.iter()) {
        assert_eq!(x.0, y.0);
        assert!(x.1.equals(&y.1));
    }
}
