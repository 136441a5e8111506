//! The concurrent maps that hold cluster metadata, seen through their contents.
//!
//! Each map of `dashmap` used here gets a name for what it holds and a small
//! wrapper per method the logic calls. The maps are only ever reached through
//! `&mut` when they change, so their contents before and after a call can be
//! stated.

use vstd::prelude::*;
use dashmap::DashMap;
use crate::ids::RegionId;
use crate::node::NodeInfo;
use crate::region::RegionInfo;

verus! {

/// Declares `dashmap::DashMap` so that structures can hold one.
#[verifier::external_type_specification]
#[verifier::external_body]
#[verifier::reject_recursive_types(K)]
#[verifier::reject_recursive_types(V)]
#[verifier::reject_recursive_types(S)]
pub struct ExDashMap<K, V, S>(DashMap<K, V, S>);

// ---------------------------------------------------------------------------
// Region records by region id

/// What a map of region records holds.
pub uninterp spec fn region_records(m: DashMap<u64, RegionInfo>) -> Map<u64, RegionInfo>;

/// An empty map of region records (`DashMap::new`).
#[verifier::external_body]
pub(crate) fn region_records_new() -> (m: DashMap<u64, RegionInfo>)
    ensures
        region_records(m).dom() == Set::<u64>::empty(),
{
    DashMap::new()
}

/// A copy of the record under `key`, if any (`DashMap::get`, then `Clone`).
#[verifier::external_body]
pub(crate) fn region_records_get(m: &DashMap<u64, RegionInfo>, key: u64) -> (r: Option<RegionInfo>)
    ensures
        region_records(*m).contains_key(key) ==> r == Some(region_records(*m)[key]),
        !region_records(*m).contains_key(key) ==> r is None,
{
    match m.get(&key) {
        Some(entry) => Some(entry.value().clone()),
        None => None,
    }
}

/// Stores a record under `key`, replacing any earlier one (`DashMap::insert`).
#[verifier::external_body]
pub(crate) fn region_records_insert(m: &mut DashMap<u64, RegionInfo>, key: u64, value: RegionInfo)
    ensures
        region_records(*final(m)) == region_records(*old(m)).insert(key, value),
{
    m.insert(key, value);
}

/// The number of records (`DashMap::len`).
#[verifier::external_body]
pub(crate) fn region_records_len(m: &DashMap<u64, RegionInfo>) -> (n: usize)
    ensures
        n == region_records(*m).len(),
{
    m.len()
}

// ---------------------------------------------------------------------------
// Region id lists by table key

/// What a map of region id lists keyed by table name holds.
pub uninterp spec fn table_lists(m: DashMap<String, Vec<RegionId>>) -> Map<Seq<char>, Seq<RegionId>>;

/// An empty map of region id lists by table (`DashMap::new`).
#[verifier::external_body]
pub(crate) fn table_lists_new() -> (m: DashMap<String, Vec<RegionId>>)
    ensures
        table_lists(m).dom() == Set::<Seq<char>>::empty(),
{
    DashMap::new()
}

/// Whether a list is stored under `key` (`DashMap::contains_key`).
#[verifier::external_body]
pub(crate) fn table_lists_contains(m: &DashMap<String, Vec<RegionId>>, key: &String) -> (b: bool)
    ensures
        b == table_lists(*m).contains_key(key@),
{
    m.contains_key(key)
}

/// A copy of the list under `key`, if any (`DashMap::get`, then `Clone`).
#[verifier::external_body]
pub(crate) fn table_lists_get(m: &DashMap<String, Vec<RegionId>>, key: &String) -> (r: Option<Vec<RegionId>>)
    ensures
        table_lists(*m).contains_key(key@) ==> (r is Some && r->Some_0@ == table_lists(*m)[key@]),
        !table_lists(*m).contains_key(key@) ==> r is None,
{
    match m.get(key) {
        Some(entry) => Some(entry.value().clone()),
        None => None,
    }
}

/// Stores a list under `key`, replacing any earlier one (`DashMap::insert`).
#[verifier::external_body]
pub(crate) fn table_lists_insert(m: &mut DashMap<String, Vec<RegionId>>, key: String, value: Vec<RegionId>)
    ensures
        table_lists(*final(m)) == table_lists(*old(m)).insert(key@, value@),
{
    m.insert(key, value);
}

/// The number of stored lists (`DashMap::len`).
#[verifier::external_body]
pub(crate) fn table_lists_len(m: &DashMap<String, Vec<RegionId>>) -> (n: usize)
    ensures
        n == table_lists(*m).len(),
{
    m.len()
}

/// Every key and list, in the order the map walks them (`DashMap::iter`).
///
/// The order depends on hashing and is not stated; each key comes exactly once.
#[verifier::external_body]
pub(crate) fn table_lists_entries(m: &DashMap<String, Vec<RegionId>>) -> (r: Vec<(String, Vec<RegionId>)>)
    ensures
        forall|i: int| #![trigger r@[i]] 0 <= i < r@.len() ==> table_lists(*m).contains_key(r@[i].0@)
            && table_lists(*m)[r@[i].0@] == r@[i].1@,
        forall|k: Seq<char>| #[trigger] table_lists(*m).contains_key(k) ==> exists|i: int|
            0 <= i < r@.len() && #[trigger] r@[i].0@ == k,
        forall|i: int, j: int| 0 <= i < j < r@.len() ==> r@[i].0@ != r@[j].0@,
{
    m.iter().map(|e| (e.key().clone(), e.value().clone())).collect()
}

// ---------------------------------------------------------------------------
// Region id lists by node id

/// What a map of region id lists keyed by node id holds.
pub uninterp spec fn node_lists(m: DashMap<u64, Vec<RegionId>>) -> Map<u64, Seq<RegionId>>;

/// An empty map of region id lists by node (`DashMap::new`).
#[verifier::external_body]
pub(crate) fn node_lists_new() -> (m: DashMap<u64, Vec<RegionId>>)
    ensures
        node_lists(m).dom() == Set::<u64>::empty(),
{
    DashMap::new()
}

/// A copy of the list under `key`, if any (`DashMap::get`, then `Clone`).
#[verifier::external_body]
pub(crate) fn node_lists_get(m: &DashMap<u64, Vec<RegionId>>, key: u64) -> (r: Option<Vec<RegionId>>)
    ensures
        node_lists(*m).contains_key(key) ==> (r is Some && r->Some_0@ == node_lists(*m)[key]),
        !node_lists(*m).contains_key(key) ==> r is None,
{
    match m.get(&key) {
        Some(entry) => Some(entry.value().clone()),
        None => None,
    }
}

/// Stores a list under `key`, replacing any earlier one (`DashMap::insert`).
#[verifier::external_body]
pub(crate) fn node_lists_insert(m: &mut DashMap<u64, Vec<RegionId>>, key: u64, value: Vec<RegionId>)
    ensures
        node_lists(*final(m)) == node_lists(*old(m)).insert(key, value@),
{
    m.insert(key, value);
}

/// Removes the list under `key` and hands it back (`DashMap::remove`).
#[verifier::external_body]
pub(crate) fn node_lists_remove(m: &mut DashMap<u64, Vec<RegionId>>, key: u64) -> (r: Option<Vec<RegionId>>)
    ensures
        node_lists(*final(m)) == node_lists(*old(m)).remove(key),
        node_lists(*old(m)).contains_key(key) ==> (r is Some && r->Some_0@ == node_lists(*old(m))[key]),
        !node_lists(*old(m)).contains_key(key) ==> r is None,
{
    match m.remove(&key) {
        Some((_, value)) => Some(value),
        None => None,
    }
}

/// Every key and list, in the order the map walks them (`DashMap::iter`).
///
/// The order depends on hashing and is not stated; each key comes exactly once.
#[verifier::external_body]
pub(crate) fn node_lists_entries(m: &DashMap<u64, Vec<RegionId>>) -> (r: Vec<(u64, Vec<RegionId>)>)
    ensures
        forall|i: int| #![trigger r@[i]] 0 <= i < r@.len() ==> node_lists(*m).contains_key(r@[i].0)
            && node_lists(*m)[r@[i].0] == r@[i].1@,
        forall|k: u64| #[trigger] node_lists(*m).contains_key(k) ==> exists|i: int|
            0 <= i < r@.len() && #[trigger] r@[i].0 == k,
        forall|i: int, j: int| 0 <= i < j < r@.len() ==> r@[i].0 != r@[j].0,
{
    m.iter().map(|e| (*e.key(), e.value().clone())).collect()
}

// ---------------------------------------------------------------------------
// Node records by node id

/// What a map of node records holds.
pub uninterp spec fn node_records(m: DashMap<u64, NodeInfo>) -> Map<u64, NodeInfo>;

/// An empty map of node records (`DashMap::new`).
#[verifier::external_body]
pub(crate) fn node_records_new() -> (m: DashMap<u64, NodeInfo>)
    ensures
        node_records(m).dom() == Set::<u64>::empty(),
{
    DashMap::new()
}

/// Whether a record is stored under `key` (`DashMap::contains_key`).
#[verifier::external_body]
pub(crate) fn node_records_contains(m: &DashMap<u64, NodeInfo>, key: u64) -> (b: bool)
    ensures
        b == node_records(*m).contains_key(key),
{
    m.contains_key(&key)
}

/// A copy of the record under `key`, if any (`DashMap::get`, then `Clone`).
#[verifier::external_body]
pub(crate) fn node_records_get(m: &DashMap<u64, NodeInfo>, key: u64) -> (r: Option<NodeInfo>)
    ensures
        node_records(*m).contains_key(key) ==> r == Some(node_records(*m)[key]),
        !node_records(*m).contains_key(key) ==> r is None,
{
    match m.get(&key) {
        Some(entry) => Some(entry.value().clone()),
        None => None,
    }
}

/// Stores a record under `key`, replacing any earlier one (`DashMap::insert`).
#[verifier::external_body]
pub(crate) fn node_records_insert(m: &mut DashMap<u64, NodeInfo>, key: u64, value: NodeInfo)
    ensures
        node_records(*final(m)) == node_records(*old(m)).insert(key, value),
{
    m.insert(key, value);
}

/// Every record, in the order the map walks them (`DashMap::iter`).
///
/// The order depends on hashing and is not stated; each key comes exactly once.
#[verifier::external_body]
pub(crate) fn node_records_entries(m: &DashMap<u64, NodeInfo>) -> (r: Vec<(u64, NodeInfo)>)
    ensures
        forall|i: int| #![trigger r@[i]] 0 <= i < r@.len() ==> node_records(*m).contains_key(r@[i].0)
            && node_records(*m)[r@[i].0] == r@[i].1,
        forall|k: u64| #[trigger] node_records(*m).contains_key(k) ==> exists|i: int|
            0 <= i < r@.len() && #[trigger] r@[i].0 == k,
        forall|i: int, j: int| 0 <= i < j < r@.len() ==> r@[i].0 != r@[j].0,
{
    m.iter().map(|e| (*e.key(), e.value().clone())).collect()
}

// ---------------------------------------------------------------------------
// Cached region lists by table key

/// What a cache of region lists keyed by table holds.
pub uninterp spec fn cached_regions(m: DashMap<String, Vec<RegionInfo>>) -> Map<Seq<char>, Seq<RegionInfo>>;

/// An empty cache (`DashMap::new`).
#[verifier::external_body]
pub(crate) fn cached_regions_new() -> (m: DashMap<String, Vec<RegionInfo>>)
    ensures
        cached_regions(m).dom() == Set::<Seq<char>>::empty(),
{
    DashMap::new()
}

/// A copy of the list under `key`, if any (`DashMap::get`, then `Clone`).
#[verifier::external_body]
pub(crate) fn cached_regions_get(m: &DashMap<String, Vec<RegionInfo>>, key: &String) -> (r: Option<Vec<RegionInfo>>)
    ensures
        cached_regions(*m).contains_key(key@) ==> (r is Some && r->Some_0@ == cached_regions(*m)[key@]),
        !cached_regions(*m).contains_key(key@) ==> r is None,
{
    match m.get(key) {
        Some(entry) => Some(entry.value().clone()),
        None => None,
    }
}

/// Stores a list under `key`, replacing any earlier one (`DashMap::insert`).
#[verifier::external_body]
pub(crate) fn cached_regions_insert(m: &mut DashMap<String, Vec<RegionInfo>>, key: String, value: Vec<RegionInfo>)
    ensures
        cached_regions(*final(m)) == cached_regions(*old(m)).insert(key@, value@),
{
    m.insert(key, value);
}

/// Removes the list under `key`, if any (`DashMap::remove`).
#[verifier::external_body]
pub(crate) fn cached_regions_remove(m: &mut DashMap<String, Vec<RegionInfo>>, key: &String)
    ensures
        cached_regions(*final(m)) == cached_regions(*old(m)).remove(key@),
{
    m.remove(key);
}

/// Removes every list (`DashMap::clear`).
#[verifier::external_body]
pub(crate) fn cached_regions_clear(m: &mut DashMap<String, Vec<RegionInfo>>)
    ensures
        cached_regions(*final(m)).dom() == Set::<Seq<char>>::empty(),
{
    m.clear();
}

} // verus!
