//! The server registry: a concurrent hash map from the `dashmap` crate,
//! reached through a handful of trusted operations.

use vstd::prelude::*;
use dashmap::DashMap;
use crate::balancer::server::{ServerId, ServerModel, ServerRecord};

verus! {

/// What the registry holds: for each server id the record stored under it.
pub uninterp spec fn registry_contents(m: DashMap<ServerId, ServerRecord>) -> Map<ServerId, ServerModel>;

/// The contents of a registry without servers.
pub open spec fn no_servers() -> Map<ServerId, ServerModel> {
    Map::empty()
}

/// `DashMap::new`: a map that holds nothing.
#[verifier::external_body]
pub(crate) fn registry_new() -> (m: DashMap<ServerId, ServerRecord>)
    ensures
        registry_contents(m) == no_servers(),
{
    DashMap::new()
}

/// `DashMap::insert`: afterwards the map holds `record` under `id` and is
/// otherwise unchanged; the record that was under `id` before is returned.
#[verifier::external_body]
pub(crate) fn registry_insert(
    m: &mut DashMap<ServerId, ServerRecord>,
    id: ServerId,
    record: ServerRecord,
) -> (prior: Option<ServerRecord>)
    ensures
        registry_contents(*final(m)) == registry_contents(*old(m)).insert(id, record@),
        match prior {
            Some(p) => registry_contents(*old(m)).contains_key(id) && p@ == registry_contents(*old(m))[id],
            None => !registry_contents(*old(m)).contains_key(id),
        },
{
    m.insert(id, record)
}

/// `DashMap::get`: a copy of the record under `id`, if the map holds one.
#[verifier::external_body]
pub(crate) fn registry_get(m: &DashMap<ServerId, ServerRecord>, id: ServerId) -> (found: Option<
    ServerRecord,
>)
    ensures
        match found {
            Some(r) => registry_contents(*m).contains_key(id) && r@ == registry_contents(*m)[id],
            None => !registry_contents(*m).contains_key(id),
        },
{
    m.get(&id).map(|r| r.value().clone())
}

/// `DashMap::iter`: every id of the map exactly once, in no particular
/// order.
#[verifier::external_body]
pub(crate) fn registry_ids(m: &DashMap<ServerId, ServerRecord>) -> (ids: Vec<ServerId>)
    ensures
        forall|i: int| 0 <= i < ids@.len() ==> registry_contents(*m).contains_key(#[trigger] ids@[i]),
        forall|i: int, j: int| 0 <= i < j < ids@.len() ==> ids@[i] != ids@[j],
        forall|id: ServerId| registry_contents(*m).contains_key(id) ==> #[trigger] ids@.contains(id),
{
    m.iter().map(|r| *r.key()).collect()
}

} // verus!
