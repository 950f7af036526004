//! The cache as a mathematical state, and `get` and `set` as functions on
//! it. The manager's contracts say that it computes these functions.

use vstd::prelude::*;
use crate::cache::entry::{
    fresh_entry, lemma_fresh_entry_round_trip, promoted_entry, CacheError, CachePolicy, EntryModel,
    Tier,
};
use crate::cache::eviction::{
    after_eviction, goes_before, is_candidate, is_evicted, lemma_order_irreflexive,
    lemma_order_total, lemma_order_transitive, predecessors,
};

verus! {

/// What one tier holds.
pub type TierMap = Map<Seq<u8>, EntryModel>;

/// Counters kept for monitoring. Each stops at `u64::MAX`.
#[derive(Clone, Copy, Debug, PartialEq, Eq, Structural)]
pub struct CacheCounters {
    pub fast_hits: u64,
    pub secondary_hits: u64,
    pub bulk_hits: u64,
    pub misses: u64,
    pub evictions: u64,
    pub promotions: u64,
}

/// `count + n`, stopping at `u64::MAX`.
pub open spec fn capped_sum(count: u64, n: nat) -> u64 {
    if count + n <= u64::MAX {
        (count + n) as u64
    } else {
        u64::MAX
    }
}

/// The whole cache.
pub struct CacheState {
    pub fast: TierMap,
    pub secondary: TierMap,
    pub bulk: TierMap,
    /// The bulk tier is bypassed.
    pub degraded: bool,
    pub policy: CachePolicy,
    pub counters: CacheCounters,
}

/// Every entry of `m` is well formed.
pub open spec fn entries_well_formed(m: TierMap) -> bool {
    forall|k: Seq<u8>| m.contains_key(k) ==> (#[trigger] m[k]).well_formed()
}

impl CacheState {
    /// The cache's invariant: finitely many well-formed entries in each
    /// tier, and no more than `max_entries` in the fast tier.
    pub open spec fn well_formed(self) -> bool {
        &&& self.fast.dom().finite()
        &&& self.secondary.dom().finite()
        &&& self.bulk.dom().finite()
        &&& self.fast.len() <= self.policy.max_entries
        &&& entries_well_formed(self.fast)
        &&& entries_well_formed(self.secondary)
        &&& entries_well_formed(self.bulk)
    }
}

/// The cache that a manager starts with.
pub open spec fn empty_cache(policy: CachePolicy) -> CacheState {
    CacheState {
        fast: Map::empty(),
        secondary: Map::empty(),
        bulk: Map::empty(),
        degraded: false,
        policy,
        counters: CacheCounters {
            fast_hits: 0,
            secondary_hits: 0,
            bulk_hits: 0,
            misses: 0,
            evictions: 0,
            promotions: 0,
        },
    }
}

/// Tier `m` holds `key` with bytes that decode.
pub open spec fn readable(m: TierMap, key: Seq<u8>) -> bool {
    m.contains_key(key) && m[key].payload() is Some
}

/// The tier that answers a lookup of `key`: the fastest one that holds it
/// readably, the bulk tier only while it is not degraded.
pub open spec fn hit_tier(s: CacheState, key: Seq<u8>) -> Option<Tier> {
    if readable(s.fast, key) {
        Some(Tier::Fast)
    } else if readable(s.secondary, key) {
        Some(Tier::Secondary)
    } else if !s.degraded && readable(s.bulk, key) {
        Some(Tier::Bulk)
    } else {
        None
    }
}

/// The value that a lookup of `key` returns.
pub open spec fn lookup(s: CacheState, key: Seq<u8>) -> Option<Seq<u8>> {
    match hit_tier(s, key) {
        Some(Tier::Fast) => s.fast[key].payload(),
        Some(Tier::Secondary) => s.secondary[key].payload(),
        Some(Tier::Bulk) => s.bulk[key].payload(),
        None => None,
    }
}

/// The outcome of placing an entry in the fast tier.
pub struct Placement {
    /// The fast tier afterwards.
    pub fast: TierMap,
    /// The entry went in.
    pub placed: bool,
    /// Entries removed to make room for it.
    pub evicted_for_room: nat,
    /// Entries removed afterwards because the tier was under pressure.
    pub evicted_for_pressure: nat,
}

/// Relieves pressure after an entry went into `fast`: one eviction pass,
/// if the tier is above its threshold. The pass leaves the key `guard`
/// alone, where there is one.
pub open spec fn settle(
    fast: TierMap,
    guard: Option<Seq<u8>>,
    policy: CachePolicy,
    now: i64,
    evicted_for_room: nat,
) -> Placement {
    if policy.under_pressure(fast.len()) {
        let relieved = after_eviction(fast, guard, policy, now);
        Placement {
            fast: relieved,
            placed: true,
            evicted_for_room,
            evicted_for_pressure: (fast.len() - relieved.len()) as nat,
        }
    } else {
        Placement { fast, placed: true, evicted_for_room, evicted_for_pressure: 0 }
    }
}

/// The key that the pressure pass after a placement leaves alone: the
/// placed key where the placement is a promotion, none where it is a write.
pub open spec fn guard_of(key: Seq<u8>, promotion: bool) -> Option<Seq<u8>> {
    if promotion {
        Some(key)
    } else {
        None
    }
}

/// Places `entry` under `key` in `fast`. Where the tier is full and `key`
/// is new, one eviction pass runs first; where that frees no room, the
/// entry stays out. Where the tier is under pressure afterwards, one more
/// pass runs; it ranks every entry, the new one too, unless the placement
/// is a promotion, whose entry it leaves alone.
pub open spec fn place(
    fast: TierMap,
    key: Seq<u8>,
    entry: EntryModel,
    policy: CachePolicy,
    now: i64,
    promotion: bool,
) -> Placement {
    if fast.contains_key(key) || fast.len() < policy.max_entries {
        settle(fast.insert(key, entry), guard_of(key, promotion), policy, now, 0)
    } else {
        let thinned = after_eviction(fast, None, policy, now);
        let gone = (fast.len() - thinned.len()) as nat;
        if thinned.len() < policy.max_entries {
            settle(thinned.insert(key, entry), guard_of(key, promotion), policy, now, gone)
        } else {
            Placement { fast: thinned, placed: false, evicted_for_room: gone, evicted_for_pressure: 0 }
        }
    }
}

/// The counters after a placement.
pub open spec fn count_evictions(c: CacheCounters, p: Placement) -> CacheCounters {
    CacheCounters {
        evictions: capped_sum(capped_sum(c.evictions, p.evicted_for_room), p.evicted_for_pressure),
        ..c
    }
}

/// The cache after `set(key, value)` at time `now`, and what it returns.
///
/// The fresh entry is placed in the fast tier; stale copies of the key
/// leave the slower tiers, the bulk tier only while it is not degraded.
/// A pass that the write causes ranks the fresh entry with the others, so
/// the entry may leave again at once. Where the entry cannot be placed
/// nothing changes but the eviction count.
pub open spec fn set_outcome(s: CacheState, key: Seq<u8>, value: Seq<u8>, now: i64) -> (
    CacheState,
    Result<(), CacheError>,
) {
    let p = place(s.fast, key, fresh_entry(key, value, now), s.policy, now, false);
    if p.placed {
        (
            CacheState {
                fast: p.fast,
                secondary: s.secondary.remove(key),
                bulk: if s.degraded {
                    s.bulk
                } else {
                    s.bulk.remove(key)
                },
                counters: count_evictions(s.counters, p),
                ..s
            },
            Ok(()),
        )
    } else {
        (
            CacheState { fast: p.fast, counters: count_evictions(s.counters, p), ..s },
            Err(CacheError::CapacityExceeded),
        )
    }
}

/// The cache after pressure on the fast tier was looked at: where the tier
/// is above its threshold one eviction pass has run over all its entries
/// and the removed entries are counted; else nothing has changed.
pub open spec fn relieved(s: CacheState, now: i64) -> CacheState {
    if s.policy.under_pressure(s.fast.len()) {
        let thinned = after_eviction(s.fast, None, s.policy, now);
        CacheState {
            fast: thinned,
            counters: CacheCounters {
                evictions: capped_sum(s.counters.evictions, (s.fast.len() - thinned.len()) as nat),
                ..s.counters
            },
            ..s
        }
    } else {
        s
    }
}

/// The counters after a promotion into the fast tier.
pub open spec fn count_promotion(c: CacheCounters, p: Placement) -> CacheCounters {
    let after = count_evictions(c, p);
    CacheCounters {
        promotions: if p.placed {
            capped_sum(after.promotions, 1)
        } else {
            after.promotions
        },
        ..after
    }
}

/// The cache after `get(key)` at time `now`, and what it returns.
///
/// A fast hit counts one more access of the entry. A hit in a slower tier
/// promotes a fresh uncompressed copy into the fast tier, and a bulk hit
/// into the secondary tier too. A miss changes only the miss counter.
pub open spec fn get_outcome(s: CacheState, key: Seq<u8>, now: i64) -> (
    CacheState,
    Option<Seq<u8>>,
) {
    match hit_tier(s, key) {
        Some(Tier::Fast) => {
            let e = s.fast[key];
            (
                CacheState {
                    fast: s.fast.insert(key, e.touched(now)),
                    counters: CacheCounters {
                        fast_hits: capped_sum(s.counters.fast_hits, 1),
                        ..s.counters
                    },
                    ..s
                },
                e.payload(),
            )
        },
        Some(Tier::Secondary) => {
            let e = s.secondary[key];
            let copy = promoted_entry(e, e.payload()->0, now);
            let p = place(s.fast, key, copy, s.policy, now, true);
            let counted = count_promotion(s.counters, p);
            (
                CacheState {
                    fast: p.fast,
                    counters: CacheCounters {
                        secondary_hits: capped_sum(counted.secondary_hits, 1),
                        ..counted
                    },
                    ..s
                },
                e.payload(),
            )
        },
        Some(Tier::Bulk) => {
            let e = s.bulk[key];
            let copy = promoted_entry(e, e.payload()->0, now);
            let p = place(s.fast, key, copy, s.policy, now, true);
            let counted = count_promotion(s.counters, p);
            (
                CacheState {
                    fast: p.fast,
                    secondary: s.secondary.insert(key, copy),
                    counters: CacheCounters {
                        bulk_hits: capped_sum(counted.bulk_hits, 1),
                        ..counted
                    },
                    ..s
                },
                e.payload(),
            )
        },
        None => (
            CacheState {
                counters: CacheCounters { misses: capped_sum(s.counters.misses, 1), ..s.counters },
                ..s
            },
            None,
        ),
    }
}

/// An eviction pass only removes entries.
pub proof fn lemma_eviction_shrinks(
    m: TierMap,
    protected: Option<Seq<u8>>,
    policy: CachePolicy,
    now: i64,
)
    requires
        m.dom().finite(),
    ensures
        after_eviction(m, protected, policy, now).dom().finite(),
        after_eviction(m, protected, policy, now).len() <= m.len(),
        after_eviction(m, protected, policy, now).submap_of(m),
        forall|k: Seq<u8>|
            protected == Some(k) && m.contains_key(k) ==> #[trigger] after_eviction(
                m,
                protected,
                policy,
                now,
            ).contains_key(k),
{
    let after = after_eviction(m, protected, policy, now);
    assert(after.dom().subset_of(m.dom()));
    vstd::set_lib::lemma_len_subset(after.dom(), m.dom());
}

/// With batch size zero a pass removes nothing.
pub proof fn lemma_empty_batch_keeps_all(
    m: TierMap,
    protected: Option<Seq<u8>>,
    policy: CachePolicy,
    now: i64,
)
    requires
        policy.eviction_batch_size == 0,
    ensures
        after_eviction(m, protected, policy, now) == m,
{
    assert(after_eviction(m, protected, policy, now) =~= m);
}

/// Among finitely many candidates one leaves before all others.
pub proof fn lemma_lowest_exists(
    m: TierMap,
    protected: Option<Seq<u8>>,
    policy: CachePolicy,
    now: i64,
    x: Seq<u8>,
) -> (k: Seq<u8>)
    requires
        m.dom().finite(),
        is_candidate(m, protected, x),
    ensures
        is_candidate(m, protected, k),
        predecessors(m, protected, policy, now, k).len() == 0,
    decreases predecessors(m, protected, policy, now, x).len(),
{
    let before_x = predecessors(m, protected, policy, now, x);
    assert(before_x.subset_of(m.dom()));
    vstd::set_lib::lemma_len_subset(before_x, m.dom());
    if before_x.len() == 0 {
        x
    } else {
        let y = before_x.choose();
        assert(before_x.contains(y));
        let before_y = predecessors(m, protected, policy, now, y);
        assert forall|j: Seq<u8>| before_y.contains(j) implies before_x.contains(j) by {
            lemma_order_transitive(j, m[j], y, m[y], x, m[x], policy, now);
        }
        lemma_order_irreflexive(y, m[y], policy, now);
        assert(before_y.subset_of(before_x.remove(y)));
        vstd::set_lib::lemma_len_subset(before_y, before_x.remove(y));
        lemma_lowest_exists(m, protected, policy, now, y)
    }
}

/// With a batch size of at least one, a pass over a tier that holds a
/// candidate removes something.
pub proof fn lemma_eviction_makes_room(
    m: TierMap,
    protected: Option<Seq<u8>>,
    policy: CachePolicy,
    now: i64,
    x: Seq<u8>,
)
    requires
        m.dom().finite(),
        is_candidate(m, protected, x),
        policy.eviction_batch_size >= 1,
    ensures
        after_eviction(m, protected, policy, now).len() < m.len(),
{
    let k = lemma_lowest_exists(m, protected, policy, now, x);
    let after = after_eviction(m, protected, policy, now);
    assert(is_evicted(m, protected, policy, now, k));
    assert(after.dom().subset_of(m.dom().remove(k)));
    vstd::set_lib::lemma_len_subset(after.dom(), m.dom().remove(k));
}

/// Every entry that a pass removes ranks below every candidate it keeps.
pub proof fn lemma_evicted_rank_lowest(
    m: TierMap,
    protected: Option<Seq<u8>>,
    policy: CachePolicy,
    now: i64,
    gone: Seq<u8>,
    kept: Seq<u8>,
)
    requires
        m.dom().finite(),
        is_evicted(m, protected, policy, now, gone),
        is_candidate(m, protected, kept),
        !is_evicted(m, protected, policy, now, kept),
    ensures
        goes_before(m, policy, now, gone, kept),
{
    if !goes_before(m, policy, now, gone, kept) {
        lemma_order_total(gone, m[gone], kept, m[kept], policy, now);
        let before_gone = predecessors(m, protected, policy, now, gone);
        let before_kept = predecessors(m, protected, policy, now, kept);
        assert forall|j: Seq<u8>| before_kept.contains(j) implies before_gone.contains(j) by {
            lemma_order_transitive(j, m[j], kept, m[kept], gone, m[gone], policy, now);
        }
        assert(before_gone.subset_of(m.dom()));
        vstd::set_lib::lemma_len_subset(before_gone, m.dom());
        vstd::set_lib::lemma_len_subset(before_kept, before_gone);
    }
}

/// The keys that one pass over `m` removes.
pub open spec fn evicted_keys(
    m: TierMap,
    protected: Option<Seq<u8>>,
    policy: CachePolicy,
    now: i64,
) -> Set<Seq<u8>> {
    Set::new(|k: Seq<u8>| is_evicted(m, protected, policy, now, k))
}

/// Of two candidates, the one that leaves first has fewer candidates
/// before it.
pub proof fn lemma_rank_follows_order(
    m: TierMap,
    protected: Option<Seq<u8>>,
    policy: CachePolicy,
    now: i64,
    a: Seq<u8>,
    b: Seq<u8>,
)
    requires
        m.dom().finite(),
        is_candidate(m, protected, a),
        is_candidate(m, protected, b),
        goes_before(m, policy, now, a, b),
    ensures
        predecessors(m, protected, policy, now, a).len() < predecessors(
            m,
            protected,
            policy,
            now,
            b,
        ).len(),
{
    let before_a = predecessors(m, protected, policy, now, a);
    let before_b = predecessors(m, protected, policy, now, b);
    assert forall|j: Seq<u8>| before_a.contains(j) implies before_b.remove(a).contains(j) by {
        lemma_order_transitive(j, m[j], a, m[a], b, m[b], policy, now);
        lemma_order_irreflexive(a, m[a], policy, now);
    }
    assert(before_b.subset_of(m.dom()));
    vstd::set_lib::lemma_len_subset(before_b, m.dom());
    assert(before_b.contains(a));
    vstd::set_lib::lemma_len_subset(before_a, before_b.remove(a));
}

/// One pass removes no more entries than the batch size.
pub proof fn lemma_eviction_bounded(
    m: TierMap,
    protected: Option<Seq<u8>>,
    policy: CachePolicy,
    now: i64,
)
    requires
        m.dom().finite(),
    ensures
        evicted_keys(m, protected, policy, now).finite(),
        evicted_keys(m, protected, policy, now).len() <= policy.eviction_batch_size,
        after_eviction(m, protected, policy, now).len() + evicted_keys(
            m,
            protected,
            policy,
            now,
        ).len() == m.len(),
{
    let gone = evicted_keys(m, protected, policy, now);
    let after = after_eviction(m, protected, policy, now);
    assert(gone.subset_of(m.dom()));
    vstd::set_lib::lemma_len_subset(gone, m.dom());
    let rank = |k: Seq<u8>| predecessors(m, protected, policy, now, k).len() as int;
    assert(vstd::relations::injective_on(rank, gone)) by {
        assert forall|a: Seq<u8>, b: Seq<u8>|
            gone.contains(a) && gone.contains(b) && #[trigger] rank(a) == #[trigger] rank(
                b,
            ) implies a == b by {
            if a != b {
                lemma_order_total(a, m[a], b, m[b], policy, now);
                if goes_before(m, policy, now, a, b) {
                    lemma_rank_follows_order(m, protected, policy, now, a, b);
                } else {
                    lemma_rank_follows_order(m, protected, policy, now, b, a);
                }
            }
        }
    }
    let ranks = gone.map(rank);
    vstd::set_lib::lemma_map_size(gone, ranks, rank);
    let range = vstd::set_lib::set_int_range(0, policy.eviction_batch_size as int);
    vstd::set_lib::lemma_int_range(0, policy.eviction_batch_size as int);
    assert forall|r: int| ranks.contains(r) implies range.contains(r) by {
        let k = choose|k: Seq<u8>| gone.contains(k) && rank(k) == r;
        assert(is_evicted(m, protected, policy, now, k));
    }
    vstd::set_lib::lemma_len_subset(ranks, range);
    assert(after.dom() =~= m.dom().difference(gone));
    lemma_difference_len(m.dom(), gone);
}

proof fn lemma_difference_len(all: Set<Seq<u8>>, part: Set<Seq<u8>>)
    requires
        all.finite(),
        part.subset_of(all),
    ensures
        all.difference(part).len() + part.len() == all.len(),
    decreases part.len(),
{
    vstd::set_lib::lemma_len_subset(part, all);
    if part.len() == 0 {
        assert(part =~= Set::empty());
        assert(all.difference(part) =~= all);
    } else {
        let k = part.choose();
        assert(part.contains(k));
        let rest = part.remove(k);
        lemma_difference_len(all, rest);
        assert(all.difference(part) =~= all.difference(rest).remove(k));
        assert(all.difference(rest).contains(k));
    }
}

/// Placing an entry keeps the fast tier finite and within `max_entries`.
/// An entry that went in and is still there is the placed one, and a
/// promoted entry that went in is still there.
pub proof fn lemma_place_bounded(
    fast: TierMap,
    key: Seq<u8>,
    entry: EntryModel,
    policy: CachePolicy,
    now: i64,
    promotion: bool,
)
    requires
        fast.dom().finite(),
        fast.len() <= policy.max_entries,
        entries_well_formed(fast),
        entry.well_formed(),
    ensures
        place(fast, key, entry, policy, now, promotion).fast.dom().finite(),
        place(fast, key, entry, policy, now, promotion).fast.len() <= policy.max_entries,
        entries_well_formed(place(fast, key, entry, policy, now, promotion).fast),
        place(fast, key, entry, policy, now, promotion).placed && place(
            fast,
            key,
            entry,
            policy,
            now,
            promotion,
        ).fast.contains_key(key) ==> place(fast, key, entry, policy, now, promotion).fast[key]
            == entry,
        place(fast, key, entry, policy, now, promotion).placed && promotion ==> place(
            fast,
            key,
            entry,
            policy,
            now,
            promotion,
        ).fast.contains_key(key),
        !place(fast, key, entry, policy, now, promotion).placed ==> place(
            fast,
            key,
            entry,
            policy,
            now,
            promotion,
        ).fast == fast,
        place(fast, key, entry, policy, now, promotion).placed <==> (fast.contains_key(key)
            || fast.len() < policy.max_entries || (policy.eviction_batch_size >= 1 && fast.len()
            >= 1)),
{
    let guard = guard_of(key, promotion);
    if fast.contains_key(key) || fast.len() < policy.max_entries {
        let grown = fast.insert(key, entry);
        lemma_eviction_shrinks(grown, guard, policy, now);
    } else {
        let thinned = after_eviction(fast, None, policy, now);
        lemma_eviction_shrinks(fast, None, policy, now);
        if policy.eviction_batch_size >= 1 && fast.len() >= 1 {
            let x = fast.dom().choose();
            assert(fast.dom().contains(x));
            lemma_eviction_makes_room(fast, None, policy, now, x);
        } else if policy.eviction_batch_size == 0 {
            lemma_empty_batch_keeps_all(fast, None, policy, now);
        } else {
            assert(fast.dom() =~= Set::empty());
            assert(thinned =~= fast);
        }
        if thinned.len() < policy.max_entries {
            let grown = thinned.insert(key, entry);
            lemma_eviction_shrinks(grown, guard, policy, now);
        }
    }
}

/// The fast tier as the write of an entry under `key` leaves it before
/// pressure is relieved, where the entry goes in.
pub open spec fn with_entry(
    fast: TierMap,
    key: Seq<u8>,
    entry: EntryModel,
    policy: CachePolicy,
    now: i64,
) -> TierMap {
    if fast.contains_key(key) || fast.len() < policy.max_entries {
        fast.insert(key, entry)
    } else {
        after_eviction(fast, None, policy, now).insert(key, entry)
    }
}

/// A written entry is in the fast tier after the write unless the tier is
/// under pressure with it and the pass that follows removes it.
pub proof fn lemma_written_entry_stays(
    fast: TierMap,
    key: Seq<u8>,
    entry: EntryModel,
    policy: CachePolicy,
    now: i64,
)
    requires
        fast.dom().finite(),
        place(fast, key, entry, policy, now, false).placed,
    ensures
        place(fast, key, entry, policy, now, false).fast.contains_key(key) <==> !(
        policy.under_pressure(with_entry(fast, key, entry, policy, now).len()) && is_evicted(
            with_entry(fast, key, entry, policy, now),
            None,
            policy,
            now,
            key,
        )),
{
}

/// `set` keeps the cache's invariant.
pub proof fn lemma_set_preserves_invariant(s: CacheState, key: Seq<u8>, value: Seq<u8>, now: i64)
    requires
        s.well_formed(),
        value.len() <= usize::MAX,
    ensures
        set_outcome(s, key, value, now).0.well_formed(),
{
    lemma_fresh_entry_round_trip(key, value, now);
    lemma_place_bounded(s.fast, key, fresh_entry(key, value, now), s.policy, now, false);
}

/// `get` keeps the cache's invariant.
pub proof fn lemma_get_preserves_invariant(s: CacheState, key: Seq<u8>, now: i64)
    requires
        s.well_formed(),
    ensures
        get_outcome(s, key, now).0.well_formed(),
{
    match hit_tier(s, key) {
        Some(Tier::Fast) => {
            assert(s.fast.insert(key, s.fast[key].touched(now)).dom() =~= s.fast.dom());
        },
        Some(Tier::Secondary) => {
            let e = s.secondary[key];
            lemma_place_bounded(
                s.fast,
                key,
                promoted_entry(e, e.payload()->0, now),
                s.policy,
                now,
                true,
            );
        },
        Some(Tier::Bulk) => {
            let e = s.bulk[key];
            lemma_place_bounded(
                s.fast,
                key,
                promoted_entry(e, e.payload()->0, now),
                s.policy,
                now,
                true,
            );
        },
        None => {},
    }
}

} // verus!
