//! The fast tier: a concurrent hash map from the `dashmap` crate, reached
//! through a handful of trusted operations.

use vstd::prelude::*;
use dashmap::DashMap;
use crate::cache::entry::{CacheEntry, EntryModel};

verus! {

#[verifier::external_type_specification]
#[verifier::external_body]
#[verifier::reject_recursive_types(K)]
#[verifier::reject_recursive_types(V)]
#[verifier::reject_recursive_types(S)]
pub struct ExDashMap<K, V, S>(DashMap<K, V, S>);

/// What the fast tier's map holds: for each key, as a byte string, the entry
/// stored under it.
pub uninterp spec fn fast_contents(m: DashMap<Vec<u8>, CacheEntry>) -> Map<Seq<u8>, EntryModel>;

/// The contents of a tier that holds nothing.
pub open spec fn no_entries() -> Map<Seq<u8>, EntryModel> {
    Map::empty()
}

/// `DashMap::new`: a map that holds nothing.
#[verifier::external_body]
pub(crate) fn fast_new() -> (m: DashMap<Vec<u8>, CacheEntry>)
    ensures
        fast_contents(m) == no_entries(),
{
    DashMap::new()
}

/// `DashMap::insert`: afterwards the map holds `entry` under `key` and is
/// otherwise unchanged; the entry that was under `key` before is returned.
#[verifier::external_body]
pub(crate) fn fast_insert(
    m: &mut DashMap<Vec<u8>, CacheEntry>,
    key: Vec<u8>,
    entry: CacheEntry,
) -> (prior: Option<CacheEntry>)
    ensures
        fast_contents(*final(m)) == fast_contents(*old(m)).insert(key@, entry@),
        match prior {
            Some(p) => fast_contents(*old(m)).contains_key(key@) && p@ == fast_contents(*old(m))[key@],
            None => !fast_contents(*old(m)).contains_key(key@),
        },
{
    m.insert(key, entry)
}

/// `DashMap::get`: a copy of the entry under `key`, if the map holds one.
#[verifier::external_body]
pub(crate) fn fast_get(m: &DashMap<Vec<u8>, CacheEntry>, key: &[u8]) -> (found: Option<CacheEntry>)
    ensures
        match found {
            Some(e) => fast_contents(*m).contains_key(key@) && e@ == fast_contents(*m)[key@],
            None => !fast_contents(*m).contains_key(key@),
        },
{
    m.get(key).map(|r| r.value().clone())
}

/// `DashMap::remove`: afterwards the map holds nothing under `key` and is
/// otherwise unchanged; the entry that was under `key` is returned.
#[verifier::external_body]
pub(crate) fn fast_remove(m: &mut DashMap<Vec<u8>, CacheEntry>, key: &[u8]) -> (gone: Option<CacheEntry>)
    ensures
        fast_contents(*final(m)) == fast_contents(*old(m)).remove(key@),
        match gone {
            Some(e) => fast_contents(*old(m)).contains_key(key@) && e@ == fast_contents(*old(m))[key@],
            None => !fast_contents(*old(m)).contains_key(key@),
        },
{
    m.remove(key).map(|pair| pair.1)
}

/// `DashMap::len`: the number of keys the map holds.
#[verifier::external_body]
pub(crate) fn fast_len(m: &DashMap<Vec<u8>, CacheEntry>) -> (n: usize)
    ensures
        n == fast_contents(*m).len(),
{
    m.len()
}

/// `DashMap::iter`: every key of the map exactly once, in no particular
/// order.
#[verifier::external_body]
pub(crate) fn fast_keys(m: &DashMap<Vec<u8>, CacheEntry>) -> (keys: Vec<Vec<u8>>)
    ensures
        forall|i: int| 0 <= i < keys@.len() ==> fast_contents(*m).contains_key(#[trigger] keys@[i]@),
        forall|i: int, j: int| 0 <= i < j < keys@.len() ==> keys@[i]@ != keys@[j]@,
        forall|k: Seq<u8>| fast_contents(*m).contains_key(k) ==> exists|i: int|
            0 <= i < keys@.len() && #[trigger] keys@[i]@ == k,
{
    m.iter().map(|r| r.key().clone()).collect()
}

} // verus!
