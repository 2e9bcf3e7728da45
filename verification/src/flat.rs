//! Channels grouped by the guild they belong to, in the order the groups
//! were first named: an `IndexMap` from a guild's id, or from nothing for
//! conversations outside any guild, to channel ids.

use crate::keyed::index_of;
use indexmap::IndexMap;
use vstd::prelude::*;

verus! {

#[verifier::external_type_specification]
#[verifier::external_body]
#[verifier::reject_recursive_types(K)]
#[verifier::reject_recursive_types(V)]
#[verifier::reject_recursive_types(S)]
pub struct ExIndexMap<K, V, S>(IndexMap<K, V, S>);

/// What a map of grouped channels holds: its keys with their channel ids, in
/// the map's order.
pub uninterp spec fn flat_entries(map: IndexMap<Option<u64>, Vec<u64>>) -> Seq<(Option<u64>, Seq<u64>)>;

/// The keys of some entries, in order.
pub open spec fn entry_keys(entries: Seq<(Option<u64>, Seq<u64>)>) -> Seq<Option<u64>> {
    entries.map_values(|e: (Option<u64>, Seq<u64>)| e.0)
}

/// Entries with a value stored under a key: the value of a key that is there
/// is replaced where it stands, a new key goes to the end.
pub open spec fn entries_insert(
    entries: Seq<(Option<u64>, Seq<u64>)>,
    key: Option<u64>,
    value: Seq<u64>,
) -> Seq<(Option<u64>, Seq<u64>)> {
    match index_of(entry_keys(entries), key) {
        Some(i) => entries.update(i, (key, value)),
        None => entries.push((key, value)),
    }
}

/// Calls `IndexMap::new`. The contract claims that the new map holds
/// nothing.
#[verifier::external_body]
pub(crate) fn new_flat() -> (map: IndexMap<Option<u64>, Vec<u64>>)
    ensures
        flat_entries(map) == Seq::<(Option<u64>, Seq<u64>)>::empty(),
{
    IndexMap::new()
}

/// Calls `IndexMap::len`. The contract claims that it is the number of
/// entries.
#[verifier::external_body]
pub(crate) fn entry_count(map: &IndexMap<Option<u64>, Vec<u64>>) -> (n: usize)
    ensures
        n == flat_entries(*map).len(),
{
    map.len()
}

/// Calls `IndexMap::get_index` and copies what it hands out. The contract
/// claims that an index below the number of entries gives the entry at that
/// place in the map's order, and any other index nothing.
#[verifier::external_body]
pub(crate) fn entry_at(
    map: &IndexMap<Option<u64>, Vec<u64>>,
    i: usize,
) -> (entry: Option<(Option<u64>, Vec<u64>)>)
    ensures
        i < flat_entries(*map).len() ==> entry is Some && entry.unwrap().0 == flat_entries(
            *map,
        )[i as int].0 && entry.unwrap().1@ == flat_entries(*map)[i as int].1,
        i >= flat_entries(*map).len() ==> entry is None,
{
    map.get_index(i).map(|(k, v)| (*k, v.clone()))
}

/// Calls `IndexMap::get_index_of`. The contract claims that it gives the
/// place of the key in the map's order, and nothing for a key the map does
/// not hold.
#[verifier::external_body]
pub(crate) fn position_of_key(
    map: &IndexMap<Option<u64>, Vec<u64>>,
    key: Option<u64>,
) -> (at: Option<usize>)
    ensures
        at matches Some(i) ==> index_of(entry_keys(flat_entries(*map)), key) == Some(i as int),
        at is None ==> index_of(entry_keys(flat_entries(*map)), key) is None,
{
    map.get_index_of(&key)
}

/// Calls `IndexMap::insert`. The contract claims that the value of a key the
/// map holds is replaced where the key stands, and that a new key is added
/// with its value at the end of the map's order.
#[verifier::external_body]
pub(crate) fn put_entry(
    map: &mut IndexMap<Option<u64>, Vec<u64>>,
    key: Option<u64>,
    value: Vec<u64>,
)
    ensures
        flat_entries(*final(map)) == entries_insert(flat_entries(*old(map)), key, value@),
{
    let _ = map.insert(key, value);
}

} // verus!
