//! What holds of the cache over several operations.

use vstd::prelude::*;
use crate::cache::entry::{
    fresh_entry, lemma_fresh_entry_round_trip, promoted_entry, CachePolicy, EntryModel, Tier,
};
use crate::cache::eviction::{after_eviction, goes_before};
use crate::cache::model::{
    capped_sum, evicted_keys, get_outcome, guard_of, hit_tier, lemma_evicted_rank_lowest,
    lemma_eviction_bounded, lemma_eviction_shrinks, lemma_place_bounded,
    lemma_set_preserves_invariant, lookup, place, set_outcome, with_entry, CacheState, TierMap,
};

verus! {

/// A value that was just written is read back: where `set(key, value)`
/// succeeds and the entry is not removed by the pass that the write itself
/// may cause, a `get(key)` that follows it returns `value`, from the fast
/// tier.
pub proof fn lemma_set_then_get(
    s: CacheState,
    key: Seq<u8>,
    value: Seq<u8>,
    written_at: i64,
    read_at: i64,
)
    requires
        s.well_formed(),
        value.len() <= usize::MAX,
        set_outcome(s, key, value, written_at).1 is Ok,
        set_outcome(s, key, value, written_at).0.fast.contains_key(key),
    ensures
        hit_tier(set_outcome(s, key, value, written_at).0, key) == Some(Tier::Fast),
        get_outcome(set_outcome(s, key, value, written_at).0, key, read_at).1 == Some(value),
{
    lemma_fresh_entry_round_trip(key, value, written_at);
    lemma_place_bounded(
        s.fast,
        key,
        fresh_entry(key, value, written_at),
        s.policy,
        written_at,
        false,
    );
}

/// A write that leaves the fast tier within its pressure threshold keeps
/// its entry: the write succeeds and a `get` that follows returns the
/// value.
pub proof fn lemma_set_without_pressure_then_get(
    s: CacheState,
    key: Seq<u8>,
    value: Seq<u8>,
    written_at: i64,
    read_at: i64,
)
    requires
        s.well_formed(),
        value.len() <= usize::MAX,
        s.fast.contains_key(key) || s.fast.len() < s.policy.max_entries,
        !s.policy.under_pressure(s.fast.insert(key, fresh_entry(key, value, written_at)).len()),
    ensures
        set_outcome(s, key, value, written_at).1 is Ok,
        get_outcome(set_outcome(s, key, value, written_at).0, key, read_at).1 == Some(value),
{
    lemma_fresh_entry_round_trip(key, value, written_at);
}

/// A pass that a write causes removes the lowest: every entry that the
/// pass removes, the written one among them, ranks below every entry that
/// it keeps, and the pass removes as many entries as the batch size
/// allows.
pub proof fn lemma_write_evicts_lowest_first(
    s: CacheState,
    key: Seq<u8>,
    value: Seq<u8>,
    now: i64,
    gone: Seq<u8>,
    kept: Seq<u8>,
)
    requires
        s.well_formed(),
        value.len() <= usize::MAX,
        set_outcome(s, key, value, now).1 is Ok,
        with_entry(s.fast, key, fresh_entry(key, value, now), s.policy, now).contains_key(gone),
        !set_outcome(s, key, value, now).0.fast.contains_key(gone),
        set_outcome(s, key, value, now).0.fast.contains_key(kept),
    ensures
        goes_before(
            with_entry(s.fast, key, fresh_entry(key, value, now), s.policy, now),
            s.policy,
            now,
            gone,
            kept,
        ),
        set_outcome(s, key, value, now).0.fast.len() + evicted_keys(
            with_entry(s.fast, key, fresh_entry(key, value, now), s.policy, now),
            None,
            s.policy,
            now,
        ).len() == with_entry(s.fast, key, fresh_entry(key, value, now), s.policy, now).len(),
        evicted_keys(
            with_entry(s.fast, key, fresh_entry(key, value, now), s.policy, now),
            None,
            s.policy,
            now,
        ).len() <= s.policy.eviction_batch_size,
{
    let entry = fresh_entry(key, value, now);
    let grown = with_entry(s.fast, key, entry, s.policy, now);
    lemma_eviction_shrinks(s.fast, None, s.policy, now);
    assert(grown.dom().finite());
    lemma_eviction_shrinks(grown, None, s.policy, now);
    lemma_evicted_rank_lowest(grown, None, s.policy, now, gone, kept);
    lemma_eviction_bounded(grown, None, s.policy, now);
}

/// A read never lowers an access count and never changes a priority: an
/// entry of the fast tier that is there before and after a `get` has the
/// same priority and at least the same count, unless the `get` put a
/// promoted copy in its place; a fast hit counts one access more, up to
/// the counter's maximum; a promoted copy has the priority of its source.
pub proof fn lemma_reads_keep_counts_and_priorities(
    s: CacheState,
    key: Seq<u8>,
    now: i64,
    other: Seq<u8>,
)
    requires
        s.well_formed(),
        s.fast.contains_key(other),
        get_outcome(s, key, now).0.fast.contains_key(other),
        other != key || hit_tier(s, key) == Some(Tier::Fast) || hit_tier(s, key) is None,
    ensures
        get_outcome(s, key, now).0.fast[other].priority == s.fast[other].priority,
        get_outcome(s, key, now).0.fast[other].access_count >= s.fast[other].access_count,
        other == key && hit_tier(s, key) == Some(Tier::Fast) && s.fast[key].access_count < u64::MAX
            ==> get_outcome(s, key, now).0.fast[key].access_count == s.fast[key].access_count + 1,
        hit_tier(s, key) == Some(Tier::Secondary) && get_outcome(s, key, now).0.fast.contains_key(key)
            ==> get_outcome(s, key, now).0.fast[key].priority == s.secondary[key].priority,
        hit_tier(s, key) == Some(Tier::Bulk) && get_outcome(s, key, now).0.fast.contains_key(key)
            ==> get_outcome(s, key, now).0.fast[key].priority == s.bulk[key].priority,
{
    match hit_tier(s, key) {
        Some(Tier::Fast) => {},
        Some(Tier::Secondary) => {
            let e = s.secondary[key];
            let copy = promoted_entry(e, e.payload()->0, now);
            lemma_place_keeps_others(s.fast, key, copy, s.policy, now, true, other);
            lemma_place_bounded(s.fast, key, copy, s.policy, now, true);
        },
        Some(Tier::Bulk) => {
            let e = s.bulk[key];
            let copy = promoted_entry(e, e.payload()->0, now);
            lemma_place_keeps_others(s.fast, key, copy, s.policy, now, true, other);
            lemma_place_bounded(s.fast, key, copy, s.policy, now, true);
        },
        None => {},
    }
}

/// Placing an entry under `key` leaves every other entry that stays in the
/// fast tier as it was.
pub proof fn lemma_place_keeps_others(
    fast: TierMap,
    key: Seq<u8>,
    entry: EntryModel,
    policy: CachePolicy,
    now: i64,
    promotion: bool,
    other: Seq<u8>,
)
    requires
        fast.dom().finite(),
        other != key,
        place(fast, key, entry, policy, now, promotion).fast.contains_key(other),
    ensures
        fast.contains_key(other),
        place(fast, key, entry, policy, now, promotion).fast[other] == fast[other],
{
    let guard = guard_of(key, promotion);
    if fast.contains_key(key) || fast.len() < policy.max_entries {
        lemma_eviction_shrinks(fast.insert(key, entry), guard, policy, now);
    } else {
        let thinned = after_eviction(fast, None, policy, now);
        lemma_eviction_shrinks(fast, None, policy, now);
        if thinned.len() < policy.max_entries {
            lemma_eviction_shrinks(thinned.insert(key, entry), guard, policy, now);
        }
    }
}

/// The cache after a sequence of writes, each a key and a value.
pub open spec fn after_writes(s: CacheState, writes: Seq<(Seq<u8>, Seq<u8>)>, now: i64) -> CacheState
    decreases writes.len(),
{
    if writes.len() == 0 {
        s
    } else {
        set_outcome(after_writes(s, writes.drop_last(), now), writes.last().0, writes.last().1, now).0
    }
}

/// The keys of `writes` differ from one another.
pub open spec fn distinct_keys(writes: Seq<(Seq<u8>, Seq<u8>)>) -> bool {
    forall|a: int, b: int| 0 <= a < b < writes.len() ==> (#[trigger] writes[a]).0 != (#[trigger] writes[b]).0
}

proof fn lemma_writes_accumulate(s: CacheState, writes: Seq<(Seq<u8>, Seq<u8>)>, now: i64)
    requires
        s.well_formed(),
        s.fast.len() + writes.len() <= s.policy.max_entries,
        (s.fast.len() + writes.len()) * 1000 <= s.policy.memory_pressure_threshold
            * s.policy.max_entries,
        distinct_keys(writes),
        forall|a: int| 0 <= a < writes.len() ==> (#[trigger] writes[a]).1.len() <= usize::MAX,
    ensures
        after_writes(s, writes, now).well_formed(),
        after_writes(s, writes, now).policy == s.policy,
        after_writes(s, writes, now).fast.len() <= s.fast.len() + writes.len(),
        forall|a: int|
            0 <= a < writes.len() ==> after_writes(s, writes, now).fast.contains_key(
                (#[trigger] writes[a]).0,
            ) && after_writes(s, writes, now).fast[writes[a].0] == fresh_entry(
                writes[a].0,
                writes[a].1,
                now,
            ),
    decreases writes.len(),
{
    if writes.len() > 0 {
        let earlier = writes.drop_last();
        let (key, value) = writes.last();
        assert(distinct_keys(earlier)) by {
            assert forall|a: int, b: int| 0 <= a < b < earlier.len() implies (#[trigger] earlier[a]).0
                != (#[trigger] earlier[b]).0 by {
                assert(earlier[a] == writes[a] && earlier[b] == writes[b]);
            }
        }
        assert forall|a: int| 0 <= a < earlier.len() implies (#[trigger] earlier[a]).1.len()
            <= usize::MAX by {
            assert(earlier[a] == writes[a]);
        }
        lemma_writes_accumulate(s, earlier, now);
        let t = after_writes(s, earlier, now);
        let entry = fresh_entry(key, value, now);
        lemma_set_preserves_invariant(t, key, value, now);
        lemma_fresh_entry_round_trip(key, value, now);
        lemma_place_bounded(t.fast, key, entry, t.policy, now, false);
        let grown = t.fast.insert(key, entry);
        assert(grown.len() <= t.fast.len() + 1);
        assert(!t.policy.under_pressure(grown.len())) by {
            let len = grown.len();
            let most = s.fast.len() + writes.len();
            assert(len * 1000 <= most * 1000) by (nonlinear_arith)
                requires
                    len <= most,
            ;
        }
        assert(place(t.fast, key, entry, t.policy, now, false).fast == grown);
        let u = after_writes(s, writes, now);
        assert(u.fast == grown);
        assert forall|a: int| 0 <= a < writes.len() implies u.fast.contains_key(
            (#[trigger] writes[a]).0,
        ) && u.fast[writes[a].0] == fresh_entry(writes[a].0, writes[a].1, now) by {
            if a < earlier.len() {
                assert(earlier[a] == writes[a]);
                assert(writes[a].0 != writes[writes.len() - 1].0);
            }
        }
    }
}

/// No write is lost: after writes of different keys that all fit into the
/// fast tier and do not lift it above its pressure threshold, every key
/// reads back the value written under it.
pub proof fn lemma_no_lost_writes(
    s: CacheState,
    writes: Seq<(Seq<u8>, Seq<u8>)>,
    now: i64,
    i: int,
)
    requires
        s.well_formed(),
        s.fast.len() + writes.len() <= s.policy.max_entries,
        (s.fast.len() + writes.len()) * 1000 <= s.policy.memory_pressure_threshold
            * s.policy.max_entries,
        distinct_keys(writes),
        forall|a: int| 0 <= a < writes.len() ==> (#[trigger] writes[a]).1.len() <= usize::MAX,
        0 <= i < writes.len(),
    ensures
        lookup(after_writes(s, writes, now), writes[i].0) == Some(writes[i].1),
{
    lemma_writes_accumulate(s, writes, now);
    lemma_fresh_entry_round_trip(writes[i].0, writes[i].1, now);
}

/// An entry found in a slower tier is in the fast tier afterwards: where
/// the fast tier can hold an entry at all and a pass may remove one, the
/// next lookup of the key is a fast hit with the same value, and touches
/// neither slower tier.
pub proof fn lemma_hit_below_promotes(s: CacheState, key: Seq<u8>, now: i64, later: i64)
    requires
        s.well_formed(),
        hit_tier(s, key) == Some(Tier::Bulk) || hit_tier(s, key) == Some(Tier::Secondary),
        s.policy.max_entries >= 1,
        s.policy.eviction_batch_size >= 1,
    ensures
        hit_tier(get_outcome(s, key, now).0, key) == Some(Tier::Fast),
        get_outcome(get_outcome(s, key, now).0, key, later).1 == get_outcome(s, key, now).1,
        get_outcome(s, key, now).1 == lookup(s, key),
        get_outcome(s, key, now).0.counters.promotions == capped_sum(s.counters.promotions, 1),
        get_outcome(get_outcome(s, key, now).0, key, later).0.counters.bulk_hits == get_outcome(
            s,
            key,
            now,
        ).0.counters.bulk_hits,
        get_outcome(get_outcome(s, key, now).0, key, later).0.counters.secondary_hits
            == get_outcome(s, key, now).0.counters.secondary_hits,
        get_outcome(get_outcome(s, key, now).0, key, later).0.counters.promotions == get_outcome(
            s,
            key,
            now,
        ).0.counters.promotions,
{
    let source = if hit_tier(s, key) == Some(Tier::Bulk) {
        s.bulk[key]
    } else {
        s.secondary[key]
    };
    let copy = promoted_entry(source, source.payload()->0, now);
    assert(copy.well_formed());
    lemma_place_bounded(s.fast, key, copy, s.policy, now, true);
}

} // verus!
