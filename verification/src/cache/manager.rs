//! The cache manager: lookup through the tiers, promotion on a hit in a
//! slower tier, and eviction when the fast tier fills up.

use vstd::prelude::*;
use dashmap::DashMap;
use crate::bytes::copy_bytes;
use crate::cache::entry::{fresh_entry, CacheConfig, CacheEntry, CacheError, CachePolicy, Tier};
use crate::cache::eviction::is_evicted;
use crate::cache::fast_tier::{fast_contents, fast_get, fast_insert, fast_len, fast_new};
use crate::cache::model::{
    capped_sum, empty_cache, get_outcome, lemma_eviction_shrinks, lemma_get_preserves_invariant,
    lemma_place_bounded, lemma_set_preserves_invariant, lemma_written_entry_stays, place,
    relieved, set_outcome, with_entry, CacheCounters, CacheState,
};
use crate::cache::pass::evict_pass;
use crate::cache::tier_store::TierStore;

verus! {

/// The hybrid cache: a concurrent fast tier, an ordered secondary tier and
/// a bulk tier, under one policy.
pub struct HybridCacheManager {
    l1_cache: DashMap<Vec<u8>, CacheEntry>,
    l2_cache: TierStore,
    l3_cache: TierStore,
    policy: CachePolicy,
    degraded: bool,
    counters: CacheCounters,
}

impl View for HybridCacheManager {
    type V = CacheState;

    closed spec fn view(&self) -> CacheState {
        CacheState {
            fast: fast_contents(self.l1_cache),
            secondary: self.l2_cache@,
            bulk: self.l3_cache@,
            degraded: self.degraded,
            policy: self.policy,
            counters: self.counters,
        }
    }
}

/// Adds `n` to a counter, stopping at `u64::MAX`.
pub fn capped_add(count: u64, n: usize) -> (r: u64)
    ensures
        r == capped_sum(count, n as nat),
{
    let room: u64 = u64::MAX - count;
    if (n as u128) <= (room as u128) {
        count + (n as u64)
    } else {
        u64::MAX
    }
}

/// Places `entry` under `key` in the fast tier; returns whether it went in
/// and how many entries left to make room and to relieve pressure. The
/// pass that relieves pressure leaves the entry alone if it is promoted.
fn place_entry(
    m: &mut DashMap<Vec<u8>, CacheEntry>,
    key: &[u8],
    entry: CacheEntry,
    policy: &CachePolicy,
    now: i64,
    promotion: bool,
) -> (r: (bool, usize, usize))
    requires
        fast_contents(*old(m)).dom().finite(),
    ensures
        fast_contents(*final(m)) == place(
            fast_contents(*old(m)),
            key@,
            entry@,
            *policy,
            now,
            promotion,
        ).fast,
        r.0 == place(fast_contents(*old(m)), key@, entry@, *policy, now, promotion).placed,
        r.1 == place(fast_contents(*old(m)), key@, entry@, *policy, now, promotion).evicted_for_room,
        r.2 == place(
            fast_contents(*old(m)),
            key@,
            entry@,
            *policy,
            now,
            promotion,
        ).evicted_for_pressure,
{
    let present: bool = fast_get(m, key).is_some();
    let held: usize = fast_len(m);
    let mut for_room: usize = 0;
    if !(present || held < policy.max_entries) {
        let gone: Vec<Vec<u8>> = evict_pass(m, policy, now, None);
        for_room = gone.len();
        if fast_len(m) >= policy.max_entries {
            return (false, for_room, 0);
        }
    }
    let _ = fast_insert(m, copy_bytes(key), entry);
    if policy.is_under_pressure(fast_len(m)) {
        let gone: Vec<Vec<u8>> = if promotion {
            evict_pass(m, policy, now, Some(key))
        } else {
            evict_pass(m, policy, now, None)
        };
        (true, for_room, gone.len())
    } else {
        (true, for_room, 0)
    }
}

impl HybridCacheManager {
    /// The manager's invariant: that of the cache it stands for, and that
    /// of its two ordered stores.
    pub closed spec fn well_formed(&self) -> bool {
        &&& self@.well_formed()
        &&& self.l2_cache.well_formed()
        &&& self.l3_cache.well_formed()
    }

    /// What the manager's invariant says of the cache it stands for.
    pub proof fn lemma_well_formed(&self)
        requires
            self.well_formed(),
        ensures
            self@.well_formed(),
    {
    }

    /// A manager with empty tiers under the configured policy.
    pub fn new(config: CacheConfig) -> (m: Self)
        ensures
            m.well_formed(),
            m@ == empty_cache(
                (CachePolicy {
                    max_age: config.max_age_seconds,
                    max_entries: config.max_entries,
                    eviction_batch_size: config.eviction_batch_size,
                    memory_pressure_threshold: config.memory_pressure_threshold,
                    strategy: config.strategy,
                }),
            ),
    {
        let m = HybridCacheManager {
            l1_cache: fast_new(),
            l2_cache: TierStore::new(),
            l3_cache: TierStore::new(),
            policy: CachePolicy::from_config(&config),
            degraded: false,
            counters: CacheCounters {
                fast_hits: 0,
                secondary_hits: 0,
                bulk_hits: 0,
                misses: 0,
                evictions: 0,
                promotions: 0,
            },
        };
        assert(m@.fast =~= Map::<Seq<u8>, crate::cache::entry::EntryModel>::empty());
        m
    }

    /// Looks `key` up in the fast, secondary and bulk tier, in that order,
    /// and returns the decoded value of the first readable entry. A hit in
    /// a slower tier promotes the entry.
    pub fn get(&mut self, key: &[u8], now: i64) -> (r: Option<Vec<u8>>)
        requires
            old(self).well_formed(),
        ensures
            final(self).well_formed(),
            final(self)@ == get_outcome(old(self)@, key@, now).0,
            match r {
                Some(v) => get_outcome(old(self)@, key@, now).1 == Some(v@),
                None => get_outcome(old(self)@, key@, now).1 is None,
            },
    {
        proof {
            lemma_get_preserves_invariant(self@, key@, now);
        }
        let policy: CachePolicy = self.policy;
        match fast_get(&self.l1_cache, key) {
            Some(e) => {
                match e.decode() {
                    Ok(v) => {
                        let _ = fast_insert(&mut self.l1_cache, copy_bytes(key), e.touch(now));
                        self.counters.fast_hits = capped_add(self.counters.fast_hits, 1);
                        return Some(v);
                    },
                    Err(_) => {},
                }
            },
            None => {},
        }
        match self.l2_cache.get(key) {
            Some(e) => {
                match e.decode() {
                    Ok(v) => {
                        let copy: CacheEntry = e.promote(copy_bytes(v.as_slice()), now);
                        let placed = place_entry(&mut self.l1_cache, key, copy, &policy, now, true);
                        self.counters.evictions = capped_add(
                            capped_add(self.counters.evictions, placed.1),
                            placed.2,
                        );
                        if placed.0 {
                            self.counters.promotions = capped_add(self.counters.promotions, 1);
                        }
                        self.counters.secondary_hits = capped_add(self.counters.secondary_hits, 1);
                        return Some(v);
                    },
                    Err(_) => {},
                }
            },
            None => {},
        }
        if !self.degraded {
            match self.l3_cache.get(key) {
                Some(e) => {
                    match e.decode() {
                        Ok(v) => {
                            let copy: CacheEntry = e.promote(copy_bytes(v.as_slice()), now);
                            self.l2_cache.insert(copy_bytes(key), copy.duplicate());
                            let placed = place_entry(&mut self.l1_cache, key, copy, &policy, now, true);
                            self.counters.evictions = capped_add(
                                capped_add(self.counters.evictions, placed.1),
                                placed.2,
                            );
                            if placed.0 {
                                self.counters.promotions = capped_add(self.counters.promotions, 1);
                            }
                            self.counters.bulk_hits = capped_add(self.counters.bulk_hits, 1);
                            return Some(v);
                        },
                        Err(_) => {},
                    }
                },
                None => {},
            }
        }
        self.counters.misses = capped_add(self.counters.misses, 1);
        None
    }

    /// Stores `value` under `key` in the fast tier and drops stale copies
    /// of the key from the slower tiers. Where the tier is under pressure
    /// afterwards one eviction pass runs over all its entries, the new one
    /// among them. Fails only where the fast tier is full of other keys and
    /// an eviction pass frees no room.
    pub fn set(&mut self, key: &[u8], value: &[u8], now: i64) -> (r: Result<(), CacheError>)
        requires
            old(self).well_formed(),
        ensures
            final(self).well_formed(),
            final(self)@ == set_outcome(old(self)@, key@, value@, now).0,
            r == set_outcome(old(self)@, key@, value@, now).1,
            r is Err <==> !old(self)@.fast.contains_key(key@) && old(self)@.fast.len() >= old(
                self,
            )@.policy.max_entries && (old(self)@.policy.eviction_batch_size == 0 || old(
                self,
            )@.fast.len() == 0),
            r is Ok ==> (final(self)@.fast.contains_key(key@) <==> !(old(
                self,
            )@.policy.under_pressure(
                with_entry(
                    old(self)@.fast,
                    key@,
                    fresh_entry(key@, value@, now),
                    old(self)@.policy,
                    now,
                ).len(),
            ) && is_evicted(
                with_entry(
                    old(self)@.fast,
                    key@,
                    fresh_entry(key@, value@, now),
                    old(self)@.policy,
                    now,
                ),
                None,
                old(self)@.policy,
                now,
                key@,
            ))),
            r is Ok && final(self)@.fast.contains_key(key@) ==> final(self)@.fast[key@].payload()
                == Some(value@),
    {
        let policy: CachePolicy = self.policy;
        let entry: CacheEntry = CacheEntry::new(key, value, now);
        proof {
            lemma_set_preserves_invariant(self@, key@, value@, now);
            lemma_place_bounded(self@.fast, key@, entry@, policy, now, false);
            if place(self@.fast, key@, entry@, policy, now, false).placed {
                lemma_written_entry_stays(self@.fast, key@, entry@, policy, now);
            }
        }
        let placed = place_entry(&mut self.l1_cache, key, entry, &policy, now, false);
        self.counters.evictions = capped_add(
            capped_add(self.counters.evictions, placed.1),
            placed.2,
        );
        if placed.0 {
            self.l2_cache.remove(key);
            if !self.degraded {
                self.l3_cache.remove(key);
            }
            Ok(())
        } else {
            Err(CacheError::CapacityExceeded)
        }
    }

    /// Runs one eviction pass over the fast tier if it is under pressure;
    /// returns how many entries left.
    pub fn evict_if_needed(&mut self, now: i64) -> (gone: usize)
        requires
            old(self).well_formed(),
        ensures
            final(self).well_formed(),
            final(self)@ == relieved(old(self)@, now),
            gone == old(self)@.fast.len() - final(self)@.fast.len(),
            gone <= old(self)@.policy.eviction_batch_size,
    {
        let policy: CachePolicy = self.policy;
        if policy.is_under_pressure(fast_len(&self.l1_cache)) {
            proof {
                lemma_eviction_shrinks(self@.fast, None, policy, now);
            }
            let gone: Vec<Vec<u8>> = evict_pass(&mut self.l1_cache, &policy, now, None);
            self.counters.evictions = capped_add(self.counters.evictions, gone.len());
            gone.len()
        } else {
            0
        }
    }

    /// Stores `value` under `key` in the given tier. The fast tier takes it
    /// as `set` does; the bulk tier refuses while it is degraded.
    pub fn store_in_tier(&mut self, tier: Tier, key: &[u8], value: &[u8], now: i64) -> (r: Result<
        (),
        CacheError,
    >)
        requires
            old(self).well_formed(),
        ensures
            final(self).well_formed(),
            tier == Tier::Fast ==> final(self)@ == set_outcome(old(self)@, key@, value@, now).0 && r
                == set_outcome(old(self)@, key@, value@, now).1,
            tier == Tier::Secondary ==> r is Ok && final(self)@ == (CacheState {
                secondary: old(self)@.secondary.insert(key@, fresh_entry(key@, value@, now)),
                ..old(self)@
            }),
            tier == Tier::Bulk && !old(self)@.degraded ==> r is Ok && final(self)@ == (CacheState {
                bulk: old(self)@.bulk.insert(key@, fresh_entry(key@, value@, now)),
                ..old(self)@
            }),
            tier == Tier::Bulk && old(self)@.degraded ==> r == Err::<(), CacheError>(
                CacheError::BackingStoreUnavailable,
            ) && final(self)@ == old(self)@,
    {
        match tier {
            Tier::Fast => self.set(key, value, now),
            Tier::Secondary => {
                let entry: CacheEntry = CacheEntry::new(key, value, now);
                self.l2_cache.insert(copy_bytes(key), entry);
                proof {
                    self.l2_cache.lemma_finite();
                }
                Ok(())
            },
            Tier::Bulk => {
                if self.degraded {
                    Err(CacheError::BackingStoreUnavailable)
                } else {
                    let entry: CacheEntry = CacheEntry::new(key, value, now);
                    self.l3_cache.insert(copy_bytes(key), entry);
                    proof {
                        self.l3_cache.lemma_finite();
                    }
                    Ok(())
                }
            },
        }
    }

    /// Marks the bulk tier degraded: lookups and writes bypass it.
    pub fn mark_bulk_degraded(&mut self)
        requires
            old(self).well_formed(),
        ensures
            final(self).well_formed(),
            final(self)@ == (CacheState { degraded: true, ..old(self)@ }),
    {
        self.degraded = true;
    }

    /// Takes the bulk tier back into use.
    pub fn mark_bulk_recovered(&mut self)
        requires
            old(self).well_formed(),
        ensures
            final(self).well_formed(),
            final(self)@ == (CacheState { degraded: false, ..old(self)@ }),
    {
        self.degraded = false;
    }

    /// Whether the bulk tier is bypassed.
    pub fn is_degraded(&self) -> (r: bool)
        ensures
            r == self@.degraded,
    {
        self.degraded
    }

    /// The counters.
    pub fn counters(&self) -> (c: CacheCounters)
        ensures
            c == self@.counters,
    {
        self.counters
    }

    /// The policy.
    pub fn policy(&self) -> (p: CachePolicy)
        ensures
            p == self@.policy,
    {
        self.policy
    }

    /// The number of entries in a tier.
    pub fn tier_len(&self, tier: Tier) -> (n: usize)
        requires
            self.well_formed(),
        ensures
            n == match tier {
                Tier::Fast => self@.fast.len(),
                Tier::Secondary => self@.secondary.len(),
                Tier::Bulk => self@.bulk.len(),
            },
    {
        match tier {
            Tier::Fast => fast_len(&self.l1_cache),
            Tier::Secondary => self.l2_cache.len(),
            Tier::Bulk => self.l3_cache.len(),
        }
    }

    /// A copy of the entry that a tier holds under `key`, if it holds one.
    /// Nothing is counted or promoted.
    pub fn peek(&self, tier: Tier, key: &[u8]) -> (r: Option<CacheEntry>)
        requires
            self.well_formed(),
        ensures
            match r {
                Some(e) => match tier {
                    Tier::Fast => self@.fast.contains_key(key@) && e@ == self@.fast[key@],
                    Tier::Secondary => self@.secondary.contains_key(key@) && e@ == self@.secondary[key@],
                    Tier::Bulk => self@.bulk.contains_key(key@) && e@ == self@.bulk[key@],
                },
                None => match tier {
                    Tier::Fast => !self@.fast.contains_key(key@),
                    Tier::Secondary => !self@.secondary.contains_key(key@),
                    Tier::Bulk => !self@.bulk.contains_key(key@),
                },
            },
    {
        match tier {
            Tier::Fast => fast_get(&self.l1_cache, key),
            Tier::Secondary => self.l2_cache.get(key),
            Tier::Bulk => self.l3_cache.get(key),
        }
    }

    /// Whether a tier holds an entry under `key`.
    pub fn holds(&self, tier: Tier, key: &[u8]) -> (r: bool)
        requires
            self.well_formed(),
        ensures
            r == match tier {
                Tier::Fast => self@.fast.contains_key(key@),
                Tier::Secondary => self@.secondary.contains_key(key@),
                Tier::Bulk => self@.bulk.contains_key(key@),
            },
    {
        match tier {
            Tier::Fast => fast_get(&self.l1_cache, key).is_some(),
            Tier::Secondary => self.l2_cache.get(key).is_some(),
            Tier::Bulk => self.l3_cache.get(key).is_some(),
        }
    }
}

} // verus!
