//! The ordered bucket store behind the answer accumulator: an
//! `indexmap::IndexMap` from log-size keys to (answer, multiplier) pairs,
//! held to its documented behaviour through a small trusted surface.
//!
//! `bucket_entries` names the map's contents: the stored key-value pairs in
//! their insertion order. Every wrapper below states over that name what the
//! crate's source shows of the method it calls.
use vstd::prelude::*;
use indexmap::IndexMap;
use crate::field::Limbs;

verus! {

/// Declares `indexmap::IndexMap` to the verifier; values of it stay opaque.
#[verifier::external_type_specification]
#[verifier::external_body]
#[verifier::reject_recursive_types(K)]
#[verifier::reject_recursive_types(V)]
#[verifier::reject_recursive_types(S)]
pub struct ExIndexMap<K, V, S>(indexmap::IndexMap<K, V, S>);

/// One stored bucket: the machine words of an answer and of a multiplier.
pub type BucketPair = (Limbs, Limbs);

/// The key-value pairs an `IndexMap` holds, in its insertion order.
pub uninterp spec fn bucket_entries(m: IndexMap<u32, BucketPair>) -> Seq<(u32, BucketPair)>;

/// Relies on `IndexMap::new`: the new map is empty.
#[verifier::external_body]
pub(crate) fn bucket_map_new() -> (m: IndexMap<u32, BucketPair>)
    ensures
        bucket_entries(m) == Seq::<(u32, BucketPair)>::empty(),
{
    IndexMap::new()
}

/// Relies on `IndexMap::insert`: a key with no equivalent in the map is
/// inserted last in order, and the earlier pairs keep their places.
#[verifier::external_body]
pub(crate) fn bucket_map_push(m: &mut IndexMap<u32, BucketPair>, key: u32, value: BucketPair)
    requires
        forall|j: int|
            0 <= j < bucket_entries(*old(m)).len() ==> bucket_entries(*old(m))[j].0 != key,
    ensures
        bucket_entries(*final(m)) == bucket_entries(*old(m)).push((key, value)),
{
    m.insert(key, value);
}

/// Relies on `IndexMap::len`: the number of stored pairs.
#[verifier::external_body]
pub(crate) fn bucket_map_len(m: &IndexMap<u32, BucketPair>) -> (n: usize)
    ensures
        n == bucket_entries(*m).len(),
{
    m.len()
}

/// Relies on `IndexMap::get_index`: position `i` of the order holds the
/// `i`-th stored pair.
#[verifier::external_body]
pub(crate) fn bucket_map_get_index(m: &IndexMap<u32, BucketPair>, i: usize) -> (r: (
    u32,
    BucketPair,
))
    requires
        i < bucket_entries(*m).len(),
    ensures
        r == bucket_entries(*m)[i as int],
{
    let (k, v) = m.get_index(i).unwrap();
    (*k, *v)
}

/// Relies on `IndexMap::get_index_mut`: writing through it replaces the
/// value at that position; keys and order are untouched.
#[verifier::external_body]
pub(crate) fn bucket_map_set_index(m: &mut IndexMap<u32, BucketPair>, i: usize, value: BucketPair)
    requires
        i < bucket_entries(*old(m)).len(),
    ensures
        bucket_entries(*final(m)) == bucket_entries(*old(m)).update(
            i as int,
            (bucket_entries(*old(m))[i as int].0, value),
        ),
{
    *m.get_index_mut(i).unwrap().1 = value;
}

} // verus!
