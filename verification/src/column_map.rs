//! The padded column store behind the Merkle-decommitment verifier: an
//! `indexmap::IndexMap` from depth keys to (presence, self-column,
//! sibling-column) entries, held to its documented behaviour through a
//! small trusted surface.
//!
//! `column_entries` names the map's contents: the stored key-value pairs in
//! their insertion order.
use vstd::prelude::*;
use indexmap::IndexMap;
use crate::field::Limbs;

verus! {

/// One padded slot: whether the columns are present at this depth, and the
/// machine words of the self and sibling column values (zero when absent).
pub type ColumnEntry = (bool, Limbs, Limbs);

/// The key-value pairs an `IndexMap` holds, in its insertion order.
pub uninterp spec fn column_entries(m: IndexMap<u32, ColumnEntry>) -> Seq<(u32, ColumnEntry)>;

/// Relies on `IndexMap::new`: the new map is empty.
#[verifier::external_body]
pub(crate) fn column_map_new() -> (m: IndexMap<u32, ColumnEntry>)
    ensures
        column_entries(m) == Seq::<(u32, ColumnEntry)>::empty(),
{
    IndexMap::new()
}

/// Relies on `IndexMap::insert`: a key with no equivalent in the map is
/// inserted last in order, and the earlier pairs keep their places.
#[verifier::external_body]
pub(crate) fn column_map_push(m: &mut IndexMap<u32, ColumnEntry>, key: u32, value: ColumnEntry)
    requires
        forall|j: int|
            0 <= j < column_entries(*old(m)).len() ==> column_entries(*old(m))[j].0 != key,
    ensures
        column_entries(*final(m)) == column_entries(*old(m)).push((key, value)),
{
    m.insert(key, value);
}

/// Relies on `IndexMap::len`: the number of stored pairs.
#[verifier::external_body]
pub(crate) fn column_map_len(m: &IndexMap<u32, ColumnEntry>) -> (n: usize)
    ensures
        n == column_entries(*m).len(),
{
    m.len()
}

/// Relies on `IndexMap::get_index`: position `i` of the order holds the
/// `i`-th stored pair.
#[verifier::external_body]
pub(crate) fn column_map_get_index(m: &IndexMap<u32, ColumnEntry>, i: usize) -> (r: (
    u32,
    ColumnEntry,
))
    requires
        i < column_entries(*m).len(),
    ensures
        r == column_entries(*m)[i as int],
{
    let (k, v) = m.get_index(i).unwrap();
    (*k, *v)
}

} // verus!
