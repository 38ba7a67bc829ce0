//! An id-keyed map of value handles, kept in a `starlark_map::SmallMap`.

use starlark_map::small_map::SmallMap;
use vstd::prelude::*;

verus! {

#[verifier::external_type_specification]
#[verifier::external_body]
#[verifier::reject_recursive_types(K)]
#[verifier::reject_recursive_types(V)]
pub struct ExSmallMap<K, V>(SmallMap<K, V>);

/// The entries that a `SmallMap` from ids to value handles holds.
pub uninterp spec fn small_map_entries(m: SmallMap<u64, u64>) -> Map<u64, u64>;

/// The map with no entries.
pub open spec fn no_entries() -> Map<u64, u64> {
    Map::empty()
}

/// Relies on `SmallMap::new`: the map starts with no entries.
#[verifier::external_body]
pub(crate) fn small_map_new() -> (r: SmallMap<u64, u64>)
    ensures
        small_map_entries(r) == no_entries(),
{
    SmallMap::new()
}

/// Relies on `SmallMap::insert`: the entry for `k` is set to `v`, replacing
/// any earlier one; the other entries stay.
#[verifier::external_body]
pub(crate) fn small_map_insert(m: &mut SmallMap<u64, u64>, k: u64, v: u64)
    ensures
        small_map_entries(*final(m)) == small_map_entries(*old(m)).insert(k, v),
{
    m.insert(k, v);
}

/// Relies on `SmallMap::get`: the value stored under `k`, if there is one.
#[verifier::external_body]
pub(crate) fn small_map_get(m: &SmallMap<u64, u64>, k: u64) -> (r: Option<u64>)
    ensures
        small_map_entries(*m).contains_key(k) ==> r == Some(small_map_entries(*m)[k]),
        !small_map_entries(*m).contains_key(k) ==> r is None,
{
    m.get(&k).copied()
}

} // verus!
