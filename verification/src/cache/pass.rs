//! One eviction pass over the fast tier.

use vstd::prelude::*;
use dashmap::DashMap;
use crate::bytes::{bytes_equal, bytes_less, copy_bytes};
use crate::cache::entry::{CacheEntry, CachePolicy};
use crate::cache::eviction::{
    after_eviction, eviction_score, goes_before, is_candidate, is_evicted,
    lemma_ranked_total, lemma_ranked_transitive, lemma_selection_is_eviction, ranked_before,
    score_entry,
};
use crate::cache::fast_tier::{fast_contents, fast_get, fast_keys, fast_remove};

verus! {

/// The key that a pass must leave alone, as a byte string.
pub open spec fn key_view(protected: Option<&[u8]>) -> Option<Seq<u8>> {
    match protected {
        Some(k) => Some(k@),
        None => None,
    }
}

/// The keys of `keys`, each as a byte string.
pub open spec fn key_views(keys: Seq<Vec<u8>>) -> Seq<Seq<u8>> {
    Seq::new(keys.len(), |i: int| keys[i]@)
}

/// Index of the lowest-ranked key among those still open, if any is.
fn lowest_open(keys: &Vec<Vec<u8>>, scores: &Vec<i128>, open: &Vec<bool>) -> (best: Option<usize>)
    requires
        keys@.len() == scores@.len(),
        keys@.len() == open@.len(),
        forall|i: int, j: int| 0 <= i < j < keys@.len() ==> keys@[i]@ != keys@[j]@,
    ensures
        match best {
            Some(b) => b < keys@.len() && open@[b as int] && forall|t: int|
                0 <= t < keys@.len() && open@[t] && t != b ==> ranked_before(
                    keys@[b as int]@,
                    scores@[b as int] as int,
                    #[trigger] keys@[t]@,
                    scores@[t] as int,
                ),
            None => forall|t: int| 0 <= t < keys@.len() ==> !open@[t],
        },
{
    let mut best: Option<usize> = None;
    let mut j: usize = 0;
    while j < keys.len()
        invariant
            0 <= j <= keys@.len(),
            keys@.len() == scores@.len(),
            keys@.len() == open@.len(),
            forall|a: int, b: int| 0 <= a < b < keys@.len() ==> keys@[a]@ != keys@[b]@,
            match best {
                Some(b) => b < j && open@[b as int] && forall|t: int|
                    0 <= t < j && open@[t] && t != b ==> ranked_before(
                        keys@[b as int]@,
                        scores@[b as int] as int,
                        #[trigger] keys@[t]@,
                        scores@[t] as int,
                    ),
                None => forall|t: int| 0 <= t < j ==> !open@[t],
            },
        decreases keys@.len() - j,
    {
        if open[j] {
            match best {
                None => {
                    best = Some(j);
                },
                Some(b) => {
                    let lower: bool = scores[j] < scores[b] || (scores[j] == scores[b]
                        && bytes_less(keys[j].as_slice(), keys[b].as_slice()));
                    proof {
                        lemma_ranked_total(
                            keys@[j as int]@,
                            scores@[j as int] as int,
                            keys@[b as int]@,
                            scores@[b as int] as int,
                        );
                    }
                    if lower {
                        assert forall|t: int| 0 <= t < j + 1 && open@[t] && t != j implies ranked_before(
                            keys@[j as int]@,
                            scores@[j as int] as int,
                            #[trigger] keys@[t]@,
                            scores@[t] as int,
                        ) by {
                            if t != b {
                                lemma_ranked_transitive(
                                    keys@[j as int]@,
                                    scores@[j as int] as int,
                                    keys@[b as int]@,
                                    scores@[b as int] as int,
                                    keys@[t]@,
                                    scores@[t] as int,
                                );
                            }
                        }
                        best = Some(j);
                    }
                },
            }
        }
        j += 1;
    }
    best
}

/// Removes from the fast tier the lowest-ranked entries, up to the policy's
/// batch size, leaving the protected key alone. Returns the removed keys,
/// lowest first.
pub fn evict_pass(
    m: &mut DashMap<Vec<u8>, CacheEntry>,
    policy: &CachePolicy,
    now: i64,
    protected: Option<&[u8]>,
) -> (evicted: Vec<Vec<u8>>)
    requires
        fast_contents(*old(m)).dom().finite(),
    ensures
        fast_contents(*final(m)) == after_eviction(
            fast_contents(*old(m)),
            key_view(protected),
            *policy,
            now,
        ),
        fast_contents(*final(m)).dom().finite(),
        fast_contents(*final(m)).len() + evicted@.len() == fast_contents(*old(m)).len(),
        evicted@.len() <= policy.eviction_batch_size,
        key_views(evicted@).no_duplicates(),
        forall|k: Seq<u8>| #[trigger]
            is_evicted(fast_contents(*old(m)), key_view(protected), *policy, now, k) <==> key_views(
                evicted@,
            ).contains(k),
{
    let ghost m0 = fast_contents(*m);
    let ghost guard = key_view(protected);
    let keys: Vec<Vec<u8>> = fast_keys(m);
    let mut scores: Vec<i128> = Vec::new();
    let mut open: Vec<bool> = Vec::new();
    let mut i: usize = 0;
    while i < keys.len()
        invariant
            0 <= i <= keys@.len(),
            m0 == fast_contents(*m),
            guard == key_view(protected),
            scores@.len() == i,
            open@.len() == i,
            forall|t: int| 0 <= t < keys@.len() ==> m0.contains_key(#[trigger] keys@[t]@),
            forall|t: int| 0 <= t < i ==> #[trigger] scores@[t] == eviction_score(
                m0[keys@[t]@],
                *policy,
                now,
            ),
            forall|t: int| 0 <= t < i ==> #[trigger] open@[t] == (guard != Some(keys@[t]@)),
        decreases keys@.len() - i,
    {
        let is_open: bool = match protected {
            Some(p) => !bytes_equal(keys[i].as_slice(), p),
            None => true,
        };
        let score: i128 = match fast_get(m, keys[i].as_slice()) {
            Some(e) => score_entry(&e, policy, now),
            None => 0,
        };
        scores.push(score);
        open.push(is_open);
        i += 1;
    }
    let mut evicted: Vec<Vec<u8>> = Vec::new();
    let ghost mut taken: Seq<Seq<u8>> = Seq::empty();
    let mut more: bool = true;
    while more && evicted.len() < policy.eviction_batch_size
        invariant
            m0.dom().finite(),
            guard == key_view(protected),
            keys@.len() == scores@.len(),
            keys@.len() == open@.len(),
            forall|a: int, b: int| 0 <= a < b < keys@.len() ==> keys@[a]@ != keys@[b]@,
            forall|t: int| 0 <= t < keys@.len() ==> m0.contains_key(#[trigger] keys@[t]@),
            forall|k: Seq<u8>|
                m0.contains_key(k) ==> exists|t: int| 0 <= t < keys@.len() && #[trigger] keys@[t]@ == k,
            forall|t: int| 0 <= t < keys@.len() ==> #[trigger] scores@[t] == eviction_score(
                m0[keys@[t]@],
                *policy,
                now,
            ),
            forall|t: int|
                0 <= t < keys@.len() && #[trigger] open@[t] ==> guard != Some(keys@[t]@)
                    && !taken.contains(keys@[t]@),
            forall|t: int|
                0 <= t < keys@.len() && !#[trigger] open@[t] ==> guard == Some(keys@[t]@)
                    || taken.contains(keys@[t]@),
            taken == key_views(evicted@),
            taken.no_duplicates(),
            taken.len() <= policy.eviction_batch_size,
            forall|a: int| 0 <= a < taken.len() ==> is_candidate(m0, guard, #[trigger] taken[a]),
            forall|a: int, b: int|
                0 <= a < b < taken.len() ==> goes_before(
                    m0,
                    *policy,
                    now,
                    #[trigger] taken[a],
                    #[trigger] taken[b],
                ),
            forall|a: int, t: int|
                0 <= a < taken.len() && 0 <= t < keys@.len() && open@[t] ==> goes_before(
                    m0,
                    *policy,
                    now,
                    #[trigger] taken[a],
                    #[trigger] keys@[t]@,
                ),
            !more ==> forall|t: int| 0 <= t < keys@.len() ==> !open@[t],
            fast_contents(*m).dom().finite(),
            fast_contents(*m) == m0.remove_keys(taken.to_set()),
            fast_contents(*m).len() + taken.len() == m0.len(),
        decreases
                (if more {
                    1int
                } else {
                    0int
                }),
                policy.eviction_batch_size - evicted@.len(),
    {
        match lowest_open(&keys, &scores, &open) {
            None => {
                more = false;
            },
            Some(b) => {
                let ghost kb = keys@[b as int]@;
                let ghost before = fast_contents(*m);
                let ghost prior = taken;
                let gone = fast_remove(m, keys[b].as_slice());
                evicted.push(copy_bytes(keys[b].as_slice()));
                open[b] = false;
                proof {
                    taken = taken.push(kb);
                    assert(taken =~= key_views(evicted@));
                    assert(before.contains_key(kb));
                    prior.lemma_push_to_set_commute(kb);
                    assert(fast_contents(*m).dom() =~= before.dom().remove(kb));
                    assert(fast_contents(*m) =~= m0.remove_keys(taken.to_set()));
                    assert forall|a: int, t: int|
                        0 <= a < taken.len() && 0 <= t < keys@.len() && open@[t] implies goes_before(
                            m0,
                            *policy,
                            now,
                            #[trigger] taken[a],
                            #[trigger] keys@[t]@,
                        ) by {
                        if a < prior.len() {
                            assert(taken[a] == prior[a]);
                        }
                    }
                    assert forall|t: int| 0 <= t < keys@.len() && #[trigger] open@[t] implies guard
                        != Some(keys@[t]@) && !taken.contains(keys@[t]@) by {
                        if taken.contains(keys@[t]@) {
                            let a = choose|a: int| 0 <= a < taken.len() && taken[a] == keys@[t]@;
                            if a < prior.len() {
                                assert(prior[a] == keys@[t]@);
                                assert(prior.contains(keys@[t]@));
                            }
                        }
                    }
                    assert forall|t: int| 0 <= t < keys@.len() && !#[trigger] open@[t] implies guard
                        == Some(keys@[t]@) || taken.contains(keys@[t]@) by {
                        if t == b {
                            assert(taken[prior.len() as int] == kb);
                        } else if guard != Some(keys@[t]@) {
                            let a = choose|a: int| 0 <= a < prior.len() && prior[a] == keys@[t]@;
                            assert(taken[a] == keys@[t]@);
                        }
                    }
                }
            },
        }
    }
    proof {
        assert forall|a: int, k: Seq<u8>|
            0 <= a < taken.len() && is_candidate(m0, guard, k) && !taken.contains(
                k,
            ) implies #[trigger] goes_before(m0, *policy, now, taken[a], k) by {
            let t = choose|t: int| 0 <= t < keys@.len() && keys@[t]@ == k;
            assert(open@[t]);
        }
        if taken.len() != policy.eviction_batch_size {
            assert forall|k: Seq<u8>| is_candidate(m0, guard, k) implies #[trigger] taken.contains(
                k,
            ) by {
                let t = choose|t: int| 0 <= t < keys@.len() && keys@[t]@ == k;
                assert(!open@[t]);
            }
        }
        lemma_selection_is_eviction(m0, guard, *policy, now, taken);
        assert(fast_contents(*m) =~= after_eviction(m0, guard, *policy, now));
    }
    evicted
}

} // verus!
