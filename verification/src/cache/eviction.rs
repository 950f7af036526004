//! The eviction order: one score per entry and strategy, ties broken by key,
//! and the set of entries that a pass removes.

use vstd::prelude::*;
use crate::bytes::{
    bytes_less, lemma_lex_asymmetric, lemma_lex_irreflexive, lemma_lex_total,
    lemma_lex_transitive, lex_less,
};
use crate::cache::entry::{CacheEntry, CachePolicy, EntryModel, ReplacementStrategy};

verus! {

/// Seconds for which `entry` has been idle at time `now`, never negative.
pub open spec fn idle_seconds(entry: EntryModel, now: i64) -> int {
    if now > entry.last_accessed_at {
        now - entry.last_accessed_at
    } else {
        0
    }
}

/// The score by which `entry` is ranked at time `now`: lower leaves first.
pub open spec fn eviction_score(entry: EntryModel, policy: CachePolicy, now: i64) -> int {
    match policy.strategy {
        ReplacementStrategy::RecencyOnly => entry.last_accessed_at as int,
        ReplacementStrategy::FrequencyOnly => entry.access_count as int,
        ReplacementStrategy::Composite => entry.access_count * entry.priority,
        ReplacementStrategy::TimeDecayedComposite => {
            let idle = idle_seconds(entry, now);
            if idle > policy.max_age {
                0
            } else {
                (entry.access_count * entry.priority) / (1 + idle)
            }
        },
    }
}

/// The eviction order: the entry under `ka` leaves before the one under
/// `kb` when its score is lower, or the scores are equal and `ka` is the
/// smaller key.
pub open spec fn evicts_before(
    ka: Seq<u8>,
    a: EntryModel,
    kb: Seq<u8>,
    b: EntryModel,
    policy: CachePolicy,
    now: i64,
) -> bool {
    ranked_before(ka, eviction_score(a, policy, now), kb, eviction_score(b, policy, now))
}

/// The order on pairs of key and score: lower score first, then smaller key.
pub open spec fn ranked_before(ka: Seq<u8>, sa: int, kb: Seq<u8>, sb: int) -> bool {
    sa < sb || (sa == sb && lex_less(ka, kb))
}

/// Pairs with different keys are ranked one way or the other, never both.
pub proof fn lemma_ranked_total(ka: Seq<u8>, sa: int, kb: Seq<u8>, sb: int)
    requires
        ka != kb,
    ensures
        ranked_before(ka, sa, kb, sb) != ranked_before(kb, sb, ka, sa),
{
    lemma_lex_total(ka, kb);
    if lex_less(ka, kb) {
        lemma_lex_asymmetric(ka, kb);
    }
}

/// The ranking is transitive.
pub proof fn lemma_ranked_transitive(
    ka: Seq<u8>,
    sa: int,
    kb: Seq<u8>,
    sb: int,
    kc: Seq<u8>,
    sc: int,
)
    requires
        ranked_before(ka, sa, kb, sb),
        ranked_before(kb, sb, kc, sc),
    ensures
        ranked_before(ka, sa, kc, sc),
{
    if lex_less(ka, kb) && lex_less(kb, kc) {
        lemma_lex_transitive(ka, kb, kc);
    }
}

/// Computes the eviction score of an entry.
pub fn score_entry(entry: &CacheEntry, policy: &CachePolicy, now: i64) -> (s: i128)
    ensures
        s == eviction_score(entry@, *policy, now),
{
    match policy.strategy {
        ReplacementStrategy::RecencyOnly => entry.last_accessed_at as i128,
        ReplacementStrategy::FrequencyOnly => entry.access_count as i128,
        ReplacementStrategy::Composite => {
            let count: i128 = entry.access_count as i128;
            let weight: i128 = entry.priority as i128;
            assert(0 <= count * weight <= 0xffff_ffff_ffff_ffff * 255) by (nonlinear_arith)
                requires
                    0 <= count <= 0xffff_ffff_ffff_ffff,
                    0 <= weight <= 255,
            ;
            count * weight
        },
        ReplacementStrategy::TimeDecayedComposite => {
            let idle: i128 = if now > entry.last_accessed_at {
                now as i128 - entry.last_accessed_at as i128
            } else {
                0
            };
            if idle > policy.max_age as i128 {
                0
            } else {
                let count: i128 = entry.access_count as i128;
                let weight: i128 = entry.priority as i128;
                assert(0 <= count * weight <= 0xffff_ffff_ffff_ffff * 255) by (nonlinear_arith)
                    requires
                        0 <= count <= 0xffff_ffff_ffff_ffff,
                        0 <= weight <= 255,
                ;
                (count * weight) / (1 + idle)
            }
        },
    }
}

/// Decides the eviction order of two entries with their keys.
pub fn leaves_first(
    ka: &[u8],
    a: &CacheEntry,
    kb: &[u8],
    b: &CacheEntry,
    policy: &CachePolicy,
    now: i64,
) -> (r: bool)
    ensures
        r == evicts_before(ka@, a@, kb@, b@, *policy, now),
{
    let sa: i128 = score_entry(a, policy, now);
    let sb: i128 = score_entry(b, policy, now);
    if sa < sb {
        true
    } else if sa == sb {
        bytes_less(ka, kb)
    } else {
        false
    }
}

/// Entries under different keys are ordered one way or the other, never
/// both.
pub proof fn lemma_order_total(
    ka: Seq<u8>,
    a: EntryModel,
    kb: Seq<u8>,
    b: EntryModel,
    policy: CachePolicy,
    now: i64,
)
    requires
        ka != kb,
    ensures
        evicts_before(ka, a, kb, b, policy, now) != evicts_before(kb, b, ka, a, policy, now),
{
    lemma_lex_total(ka, kb);
    if lex_less(ka, kb) {
        lemma_lex_asymmetric(ka, kb);
    }
}

/// No entry leaves before itself.
pub proof fn lemma_order_irreflexive(ka: Seq<u8>, a: EntryModel, policy: CachePolicy, now: i64)
    ensures
        !evicts_before(ka, a, ka, a, policy, now),
{
    lemma_lex_irreflexive(ka);
}

/// The eviction order is transitive.
pub proof fn lemma_order_transitive(
    ka: Seq<u8>,
    a: EntryModel,
    kb: Seq<u8>,
    b: EntryModel,
    kc: Seq<u8>,
    c: EntryModel,
    policy: CachePolicy,
    now: i64,
)
    requires
        evicts_before(ka, a, kb, b, policy, now),
        evicts_before(kb, b, kc, c, policy, now),
    ensures
        evicts_before(ka, a, kc, c, policy, now),
{
    if lex_less(ka, kb) && lex_less(kb, kc) {
        lemma_lex_transitive(ka, kb, kc);
    }
}

/// `k` may be removed by a pass that protects `protected`: the tier holds
/// it and it is not the protected key.
pub open spec fn is_candidate(
    m: Map<Seq<u8>, EntryModel>,
    protected: Option<Seq<u8>>,
    k: Seq<u8>,
) -> bool {
    m.contains_key(k) && protected != Some(k)
}

/// In tier `m`, the entry under `j` leaves before the entry under `k`.
pub open spec fn goes_before(
    m: Map<Seq<u8>, EntryModel>,
    policy: CachePolicy,
    now: i64,
    j: Seq<u8>,
    k: Seq<u8>,
) -> bool {
    evicts_before(j, m[j], k, m[k], policy, now)
}

/// The candidates of `m` that leave before `k`.
pub open spec fn predecessors(
    m: Map<Seq<u8>, EntryModel>,
    protected: Option<Seq<u8>>,
    policy: CachePolicy,
    now: i64,
    k: Seq<u8>,
) -> Set<Seq<u8>> {
    Set::new(|j: Seq<u8>| is_candidate(m, protected, j) && goes_before(m, policy, now, j, k))
}

/// One pass over `m` removes `k`: it is a candidate, and fewer candidates
/// than the batch size leave before it.
pub open spec fn is_evicted(
    m: Map<Seq<u8>, EntryModel>,
    protected: Option<Seq<u8>>,
    policy: CachePolicy,
    now: i64,
    k: Seq<u8>,
) -> bool {
    is_candidate(m, protected, k) && predecessors(m, protected, policy, now, k).len()
        < policy.eviction_batch_size
}

/// The tier after one eviction pass: the lowest-ranked candidates are gone,
/// as many as the batch size allows, and nothing else has changed.
pub open spec fn after_eviction(
    m: Map<Seq<u8>, EntryModel>,
    protected: Option<Seq<u8>>,
    policy: CachePolicy,
    now: i64,
) -> Map<Seq<u8>, EntryModel> {
    Map::new(
        |k: Seq<u8>| m.contains_key(k) && !is_evicted(m, protected, policy, now, k),
        |k: Seq<u8>| m[k],
    )
}

/// A sequence of candidates taken lowest first, until the batch is full or
/// no candidate is left, holds exactly the keys that a pass removes.
pub proof fn lemma_selection_is_eviction(
    m: Map<Seq<u8>, EntryModel>,
    protected: Option<Seq<u8>>,
    policy: CachePolicy,
    now: i64,
    taken: Seq<Seq<u8>>,
)
    requires
        m.dom().finite(),
        taken.no_duplicates(),
        taken.len() <= policy.eviction_batch_size,
        forall|i: int| 0 <= i < taken.len() ==> is_candidate(m, protected, #[trigger] taken[i]),
        forall|i: int, j: int|
            0 <= i < j < taken.len() ==> goes_before(m, policy, now, #[trigger] taken[i], #[trigger] taken[j]),
        forall|i: int, k: Seq<u8>|
            0 <= i < taken.len() && is_candidate(m, protected, k) && !taken.contains(k)
                ==> #[trigger] goes_before(m, policy, now, taken[i], k),
        taken.len() == policy.eviction_batch_size || forall|k: Seq<u8>|
            is_candidate(m, protected, k) ==> #[trigger] taken.contains(k),
    ensures
        forall|k: Seq<u8>| #[trigger] is_evicted(m, protected, policy, now, k) <==> taken.contains(k),
{
    assert forall|k: Seq<u8>| #[trigger]
        is_evicted(m, protected, policy, now, k) <==> taken.contains(k) by {
        let before = predecessors(m, protected, policy, now, k);
        assert(before.subset_of(m.dom()));
        vstd::set_lib::lemma_len_subset(before, m.dom());
        if taken.contains(k) {
            let i = choose|i: int| 0 <= i < taken.len() && taken[i] == k;
            let earlier = taken.take(i);
            assert(earlier.no_duplicates());
            earlier.unique_seq_to_set();
            assert forall|x: Seq<u8>| before.contains(x) implies earlier.to_set().contains(x) by {
                if taken.contains(x) {
                    let j = choose|j: int| 0 <= j < taken.len() && taken[j] == x;
                    if j == i {
                        lemma_order_irreflexive(k, m[k], policy, now);
                    } else if j > i {
                        assert(goes_before(m, policy, now, taken[i], taken[j]));
                        lemma_order_total(k, m[k], x, m[x], policy, now);
                    } else {
                        assert(earlier[j] == x);
                    }
                } else {
                    assert(goes_before(m, policy, now, taken[i], x));
                    lemma_order_total(k, m[k], x, m[x], policy, now);
                }
            }
            assert forall|x: Seq<u8>| earlier.to_set().contains(x) implies before.contains(x) by {
                let j = choose|j: int| 0 <= j < earlier.len() && earlier[j] == x;
                assert(taken[j] == x);
                assert(goes_before(m, policy, now, taken[j], taken[i]));
            }
            assert(before =~= earlier.to_set());
        } else if is_candidate(m, protected, k) {
            taken.unique_seq_to_set();
            assert forall|x: Seq<u8>| taken.to_set().contains(x) implies before.contains(x) by {
                let j = choose|j: int| 0 <= j < taken.len() && taken[j] == x;
                assert(goes_before(m, policy, now, taken[j], k));
            }
            assert(taken.to_set().subset_of(before));
            vstd::set_lib::lemma_len_subset(taken.to_set(), before);
        }
    }
}

} // verus!
