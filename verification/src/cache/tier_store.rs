//! The secondary and bulk tiers: entries kept in key order, one per key.

use vstd::prelude::*;
use crate::bytes::{
    bytes_equal, bytes_less, lemma_lex_asymmetric, lemma_lex_irreflexive, lemma_lex_total,
    lemma_lex_transitive, lex_less,
};
use crate::cache::entry::{CacheEntry, EntryModel};

verus! {

/// An ordered store of entries by key.
pub struct TierStore {
    keys: Vec<Vec<u8>>,
    entries: Vec<CacheEntry>,
}

/// Some slot of `keys` holds `k`.
pub open spec fn has_key(keys: Seq<Vec<u8>>, k: Seq<u8>) -> bool {
    exists|i: int| 0 <= i < keys.len() && #[trigger] keys[i]@ == k
}

/// A slot of `keys` that holds `k`.
pub open spec fn slot_of(keys: Seq<Vec<u8>>, k: Seq<u8>) -> int {
    choose|i: int| 0 <= i < keys.len() && #[trigger] keys[i]@ == k
}

/// The keys stand in strictly increasing lexicographic order.
pub open spec fn strictly_sorted(keys: Seq<Vec<u8>>) -> bool {
    forall|i: int, j: int| 0 <= i < j < keys.len() ==> lex_less(#[trigger] keys[i]@, #[trigger] keys[j]@)
}

/// The map that parallel sequences of keys and entries stand for.
pub open spec fn store_map(keys: Seq<Vec<u8>>, entries: Seq<CacheEntry>) -> Map<Seq<u8>, EntryModel> {
    Map::new(|k: Seq<u8>| has_key(keys, k), |k: Seq<u8>| entries[slot_of(keys, k)]@)
}

proof fn lemma_sorted_slots(keys: Seq<Vec<u8>>, i: int)
    requires
        strictly_sorted(keys),
        0 <= i < keys.len(),
    ensures
        has_key(keys, keys[i]@),
        slot_of(keys, keys[i]@) == i,
{
    let j = slot_of(keys, keys[i]@);
    if j < i {
        lemma_lex_irreflexive(keys[i]@);
    } else if j > i {
        lemma_lex_irreflexive(keys[i]@);
    }
}

proof fn lemma_store_is_finite(keys: Seq<Vec<u8>>, entries: Seq<CacheEntry>)
    requires
        strictly_sorted(keys),
        keys.len() == entries.len(),
    ensures
        store_map(keys, entries).dom().finite(),
        store_map(keys, entries).len() == keys.len(),
{
    let views = Seq::new(keys.len(), |i: int| keys[i]@);
    assert forall|i: int, j: int| 0 <= i < views.len() && 0 <= j < views.len() && i != j implies views[i]
        != views[j] by {
        if i < j {
            assert(lex_less(keys[i]@, keys[j]@));
        } else {
            assert(lex_less(keys[j]@, keys[i]@));
        }
        lemma_lex_irreflexive(views[i]);
    }
    views.unique_seq_to_set();
    vstd::seq_lib::seq_to_set_is_finite(views);
    assert forall|k: Seq<u8>| store_map(keys, entries).dom().contains(k) implies views.to_set().contains(
        k,
    ) by {
        let i = slot_of(keys, k);
        assert(views[i] == k);
    }
    assert forall|k: Seq<u8>| views.to_set().contains(k) implies store_map(keys, entries).dom().contains(
        k,
    ) by {
        let i = choose|i: int| 0 <= i < views.len() && views[i] == k;
        assert(keys[i]@ == k);
    }
    assert(store_map(keys, entries).dom() =~= views.to_set());
}

impl View for TierStore {
    type V = Map<Seq<u8>, EntryModel>;

    closed spec fn view(&self) -> Map<Seq<u8>, EntryModel> {
        store_map(self.keys@, self.entries@)
    }
}

impl TierStore {
    /// The store's invariant: one entry per key, keys in increasing order.
    pub closed spec fn well_formed(&self) -> bool {
        &&& self.keys@.len() == self.entries@.len()
        &&& strictly_sorted(self.keys@)
    }

    /// A well-formed store holds finitely many entries.
    pub proof fn lemma_finite(&self)
        requires
            self.well_formed(),
        ensures
            self@.dom().finite(),
    {
        lemma_store_is_finite(self.keys@, self.entries@);
    }

    /// A store that holds nothing.
    pub fn new() -> (s: Self)
        ensures
            s.well_formed(),
            s@ == Map::<Seq<u8>, EntryModel>::empty(),
    {
        let s = TierStore { keys: Vec::new(), entries: Vec::new() };
        assert(s@ =~= Map::<Seq<u8>, EntryModel>::empty());
        s
    }

    /// The number of entries held.
    pub fn len(&self) -> (n: usize)
        requires
            self.well_formed(),
        ensures
            n == self@.len(),
            self@.dom().finite(),
    {
        proof {
            lemma_store_is_finite(self.keys@, self.entries@);
        }
        self.keys.len()
    }

    /// The first slot whose key is not below `key`.
    fn position(&self, key: &[u8]) -> (pos: usize)
        requires
            self.well_formed(),
        ensures
            pos <= self.keys@.len(),
            forall|i: int| 0 <= i < pos ==> lex_less(#[trigger] self.keys@[i]@, key@),
            pos < self.keys@.len() ==> !lex_less(self.keys@[pos as int]@, key@),
    {
        let mut pos: usize = 0;
        while pos < self.keys.len() && bytes_less(self.keys[pos].as_slice(), key)
            invariant
                pos <= self.keys@.len(),
                forall|i: int| 0 <= i < pos ==> lex_less(#[trigger] self.keys@[i]@, key@),
            decreases self.keys@.len() - pos,
        {
            pos += 1;
        }
        pos
    }

    proof fn lemma_absent(&self, key: Seq<u8>, pos: int)
        requires
            self.well_formed(),
            0 <= pos <= self.keys@.len(),
            forall|i: int| 0 <= i < pos ==> lex_less(#[trigger] self.keys@[i]@, key),
            pos < self.keys@.len() ==> lex_less(key, self.keys@[pos]@),
        ensures
            !self@.contains_key(key),
    {
        if has_key(self.keys@, key) {
            let i = slot_of(self.keys@, key);
            if i < pos {
                lemma_lex_irreflexive(key);
            } else if i == pos {
                lemma_lex_irreflexive(key);
            } else {
                assert(lex_less(self.keys@[pos]@, self.keys@[i]@));
                lemma_lex_asymmetric(key, self.keys@[pos]@);
            }
        }
    }

    /// A copy of the entry under `key`, if the store holds one.
    pub fn get(&self, key: &[u8]) -> (found: Option<CacheEntry>)
        requires
            self.well_formed(),
        ensures
            match found {
                Some(e) => self@.contains_key(key@) && e@ == self@[key@],
                None => !self@.contains_key(key@),
            },
    {
        let pos: usize = self.position(key);
        if pos < self.keys.len() && bytes_equal(self.keys[pos].as_slice(), key) {
            proof {
                lemma_sorted_slots(self.keys@, pos as int);
            }
            Some(self.entries[pos].duplicate())
        } else {
            proof {
                if pos < self.keys@.len() {
                    lemma_lex_total(self.keys@[pos as int]@, key@);
                }
                self.lemma_absent(key@, pos as int);
            }
            None
        }
    }

    /// Stores `entry` under `key`, in place of what was there.
    pub fn insert(&mut self, key: Vec<u8>, entry: CacheEntry)
        requires
            old(self).well_formed(),
        ensures
            final(self).well_formed(),
            final(self)@ == old(self)@.insert(key@, entry@),
    {
        let pos: usize = self.position(key.as_slice());
        let ghost old_keys = self.keys@;
        let ghost old_entries = self.entries@;
        let ghost kv = key@;
        let ghost ev = entry@;
        if pos < self.keys.len() && bytes_equal(self.keys[pos].as_slice(), key.as_slice()) {
            self.entries[pos] = entry;
            proof {
                assert forall|k: Seq<u8>| #[trigger] self@.contains_key(k) implies self@[k] == old(
                    self,
                )@.insert(kv, ev)[k] by {
                    let i = slot_of(old_keys, k);
                    if k == kv {
                        lemma_sorted_slots(old_keys, pos as int);
                    }
                }
                assert(self@ =~= old(self)@.insert(kv, ev));
            }
        } else {
            proof {
                if pos < old_keys.len() {
                    lemma_lex_total(old_keys[pos as int]@, kv);
                }
            }
            self.keys.insert(pos, key);
            self.entries.insert(pos, entry);
            proof {
                let new_keys = self.keys@;
                let new_entries = self.entries@;
                assert forall|i: int, j: int| 0 <= i < j < new_keys.len() implies lex_less(
                    #[trigger] new_keys[i]@,
                    #[trigger] new_keys[j]@,
                ) by {
                    if j < pos {
                        assert(new_keys[i] == old_keys[i] && new_keys[j] == old_keys[j]);
                    } else if j == pos {
                        assert(new_keys[i] == old_keys[i]);
                    } else if i < pos {
                        assert(new_keys[i] == old_keys[i] && new_keys[j] == old_keys[j - 1]);
                        if j - 1 > pos {
                            assert(lex_less(old_keys[pos as int]@, old_keys[j - 1]@));
                        }
                        lemma_lex_transitive(old_keys[i]@, kv, old_keys[pos as int]@);
                        if j - 1 > pos {
                            lemma_lex_transitive(old_keys[i]@, old_keys[pos as int]@, old_keys[j - 1]@);
                        }
                    } else if i == pos {
                        assert(new_keys[j] == old_keys[j - 1]);
                        if j - 1 > pos {
                            assert(lex_less(old_keys[pos as int]@, old_keys[j - 1]@));
                            lemma_lex_transitive(kv, old_keys[pos as int]@, old_keys[j - 1]@);
                        }
                    } else {
                        assert(new_keys[i] == old_keys[i - 1] && new_keys[j] == old_keys[j - 1]);
                    }
                }
                assert forall|k: Seq<u8>| has_key(new_keys, k) <==> (k == kv || has_key(
                    old_keys,
                    k,
                )) by {
                    if has_key(new_keys, k) {
                        let i = slot_of(new_keys, k);
                        if i < pos {
                            assert(old_keys[i]@ == k);
                        } else if i > pos {
                            assert(old_keys[i - 1]@ == k);
                        }
                    }
                    if k == kv {
                        assert(new_keys[pos as int]@ == k);
                    } else if has_key(old_keys, k) {
                        let i = slot_of(old_keys, k);
                        if i < pos {
                            assert(new_keys[i]@ == k);
                        } else {
                            assert(new_keys[i + 1]@ == k);
                        }
                    }
                }
                assert forall|k: Seq<u8>| has_key(new_keys, k) implies new_entries[slot_of(new_keys, k)]@
                    == old(self)@.insert(kv, ev)[k] by {
                    let i = slot_of(new_keys, k);
                    lemma_lex_irreflexive(kv);
                    if i < pos {
                        assert(new_keys[i] == old_keys[i]);
                        assert(new_entries[i] == old_entries[i]);
                        lemma_sorted_slots(old_keys, i);
                    } else if i > pos {
                        assert(new_keys[i] == old_keys[i - 1]);
                        assert(new_entries[i] == old_entries[i - 1]);
                        lemma_sorted_slots(old_keys, i - 1);
                        if i - 1 > pos {
                            assert(lex_less(old_keys[pos as int]@, old_keys[i - 1]@));
                            lemma_lex_transitive(kv, old_keys[pos as int]@, old_keys[i - 1]@);
                        }
                    } else {
                        assert(new_entries[i] == entry);
                    }
                }
                assert(self@ =~= old(self)@.insert(kv, ev));
            }
        }
    }

    /// Removes the entry under `key`, if the store holds one.
    pub fn remove(&mut self, key: &[u8])
        requires
            old(self).well_formed(),
        ensures
            final(self).well_formed(),
            final(self)@ == old(self)@.remove(key@),
    {
        let pos: usize = self.position(key);
        let ghost old_keys = self.keys@;
        let ghost old_entries = self.entries@;
        let ghost kv = key@;
        if pos < self.keys.len() && bytes_equal(self.keys[pos].as_slice(), key) {
            let _ = self.keys.remove(pos);
            let _ = self.entries.remove(pos);
            proof {
                let new_keys = self.keys@;
                let new_entries = self.entries@;
                assert forall|i: int, j: int| 0 <= i < j < new_keys.len() implies lex_less(
                    #[trigger] new_keys[i]@,
                    #[trigger] new_keys[j]@,
                ) by {
                    let a = if i < pos { i } else { i + 1 };
                    let b = if j < pos { j } else { j + 1 };
                    assert(new_keys[i] == old_keys[a] && new_keys[j] == old_keys[b]);
                }
                assert forall|k: Seq<u8>| has_key(new_keys, k) <==> (k != kv && has_key(
                    old_keys,
                    k,
                )) by {
                    if has_key(new_keys, k) {
                        let i = slot_of(new_keys, k);
                        let a = if i < pos { i } else { i + 1 };
                        assert(old_keys[a]@ == k);
                        if k == kv {
                            lemma_lex_irreflexive(kv);
                            if a < pos {
                                assert(lex_less(old_keys[a]@, old_keys[pos as int]@));
                            } else {
                                assert(lex_less(old_keys[pos as int]@, old_keys[a]@));
                            }
                        }
                    }
                    if k != kv && has_key(old_keys, k) {
                        let a = slot_of(old_keys, k);
                        if a < pos {
                            assert(new_keys[a]@ == k);
                        } else {
                            assert(new_keys[a - 1]@ == k);
                        }
                    }
                }
                assert forall|k: Seq<u8>| has_key(new_keys, k) implies new_entries[slot_of(new_keys, k)]@
                    == old(self)@[k] by {
                    let i = slot_of(new_keys, k);
                    let a = if i < pos { i } else { i + 1 };
                    lemma_sorted_slots(old_keys, a);
                }
                assert(self@ =~= old(self)@.remove(kv));
            }
        } else {
            proof {
                if pos < old_keys.len() {
                    lemma_lex_total(old_keys[pos as int]@, kv);
                }
                self.lemma_absent(kv, pos as int);
                assert(self@ =~= old(self)@.remove(kv));
            }
        }
    }
}

} // verus!
