//! A small map from text to text that keeps the order of entry.

use vstd::prelude::*;
use crate::text::{lemma_position_found, lemma_position_range, position, same_text};

verus! {

/// The texts that a sequence of strings holds.
pub open spec fn text_views(strings: Seq<String>) -> Seq<Seq<char>> {
    Seq::new(strings.len(), |i: int| strings[i]@)
}

/// A map from text to text. A key has one value; a second entry under a
/// key takes the place of the first.
#[derive(Debug, Clone)]
pub struct TextMap {
    keys: Vec<String>,
    values: Vec<String>,
}

impl TextMap {
    /// The keys, in the order of entry.
    pub closed spec fn keys(&self) -> Seq<Seq<char>> {
        text_views(self.keys@)
    }

    /// The values, each at the place of its key.
    pub closed spec fn values(&self) -> Seq<Seq<char>> {
        text_views(self.values@)
    }

    /// The map's invariant: one value for each key.
    pub closed spec fn well_formed(&self) -> bool {
        self.keys@.len() == self.values@.len()
    }

    /// The map holds a value under `key`.
    pub open spec fn holds(&self, key: Seq<char>) -> bool {
        position(self.keys(), key) < self.keys().len()
    }

    /// The value under `key`.
    pub open spec fn value_of(&self, key: Seq<char>) -> Seq<char> {
        self.values()[position(self.keys(), key)]
    }

    /// A well-formed map has as many values as keys.
    pub proof fn lemma_one_value_per_key(&self)
        requires
            self.well_formed(),
        ensures
            self.keys().len() == self.values().len(),
    {
    }

    /// A map without entries.
    pub fn new() -> (m: Self)
        ensures
            m.well_formed(),
            m.keys() == Seq::<Seq<char>>::empty(),
            m.values() == Seq::<Seq<char>>::empty(),
    {
        let m = TextMap { keys: Vec::new(), values: Vec::new() };
        assert(m.keys() =~= Seq::<Seq<char>>::empty());
        assert(m.values() =~= Seq::<Seq<char>>::empty());
        m
    }

    /// The number of entries.
    pub fn len(&self) -> (n: usize)
        requires
            self.well_formed(),
        ensures
            n == self.keys().len(),
            n == self.values().len(),
    {
        self.keys.len()
    }

    fn find(&self, key: &str) -> (at: usize)
        ensures
            at == position(self.keys(), key@),
            at <= self.keys@.len(),
    {
        let mut at: usize = 0;
        while at < self.keys.len() && !same_text(self.keys[at].as_str(), key)
            invariant
                0 <= at <= self.keys@.len(),
                forall|i: int| 0 <= i < at ==> #[trigger] self.keys()[i] != key@,
            decreases self.keys@.len() - at,
        {
            at += 1;
        }
        proof {
            lemma_position_found(self.keys(), key@, at as int);
        }
        at
    }

    /// The value under `key`, if the map holds one.
    pub fn get(&self, key: &str) -> (r: Option<&String>)
        requires
            self.well_formed(),
        ensures
            match r {
                Some(v) => self.holds(key@) && v@ == self.value_of(key@),
                None => !self.holds(key@),
            },
    {
        let at: usize = self.find(key);
        if at < self.keys.len() {
            assert(self.values()[at as int] == self.values@[at as int]@);
            Some(&self.values[at])
        } else {
            None
        }
    }

    /// Enters `value` under `key`, in place of what was there.
    pub fn insert(&mut self, key: String, value: String)
        requires
            old(self).well_formed(),
        ensures
            final(self).well_formed(),
            old(self).holds(key@) ==> final(self).keys() == old(self).keys() && final(self).values()
                == old(self).values().update(position(old(self).keys(), key@), value@),
            !old(self).holds(key@) ==> final(self).keys() == old(self).keys().push(key@)
                && final(self).values() == old(self).values().push(value@),
            final(self).holds(key@),
            final(self).value_of(key@) == value@,
            forall|other: Seq<char>|
                other != key@ ==> (#[trigger] final(self).holds(other)) == old(self).holds(other),
            forall|other: Seq<char>|
                other != key@ && old(self).holds(other) ==> #[trigger] final(self).value_of(other)
                    == old(self).value_of(other),
    {
        let at: usize = self.find(key.as_str());
        let ghost keys_before = self.keys();
        let ghost values_before = self.values();
        let ghost k = key@;
        let ghost v = value@;
        if at < self.keys.len() {
            self.values[at] = value;
            assert(self.values() =~= values_before.update(at as int, v));
            assert(self.keys() == keys_before);
            proof {
                assert forall|other: Seq<char>| other != k && old(self).holds(other) implies
                    #[trigger] self.value_of(other) == old(self).value_of(other) by {
                    lemma_position_range(keys_before, other);
                    lemma_position_range(keys_before, k);
                    let p = position(keys_before, other);
                    assert(keys_before[p] == other);
                    assert(keys_before[at as int] == k);
                    assert(values_before.update(at as int, v)[p] == values_before[p]);
                }
            }
        } else {
            self.keys.push(key);
            self.values.push(value);
            assert(self.keys() =~= keys_before.push(k));
            assert(self.values() =~= values_before.push(v));
            proof {
                lemma_position_range(keys_before, k);
                lemma_position_found(self.keys(), k, at as int);
                assert forall|other: Seq<char>| other != k implies (#[trigger] self.holds(other))
                    == old(self).holds(other) by {
                    lemma_position_range(keys_before, other);
                    let p = position(keys_before, other);
                    if p < keys_before.len() {
                        lemma_position_found(self.keys(), other, p);
                    } else {
                        lemma_position_found(self.keys(), other, p + 1);
                    }
                }
                assert forall|other: Seq<char>| other != k && old(self).holds(other) implies
                    #[trigger] self.value_of(other) == old(self).value_of(other) by {
                    lemma_position_range(keys_before, other);
                    let p = position(keys_before, other);
                    lemma_position_found(self.keys(), other, p);
                    assert(values_before.push(v)[p] == values_before[p]);
                }
            }
        }
    }

    /// A copy of the map.
    pub fn duplicate(&self) -> (m: Self)
        requires
            self.well_formed(),
        ensures
            m.well_formed(),
            m.keys() == self.keys(),
            m.values() == self.values(),
    {
        let mut keys: Vec<String> = Vec::new();
        let mut values: Vec<String> = Vec::new();
        let mut i: usize = 0;
        while i < self.keys.len()
            invariant
                0 <= i <= self.keys@.len(),
                self.keys@.len() == self.values@.len(),
                keys@.len() == i,
                values@.len() == i,
                forall|t: int| 0 <= t < i ==> (#[trigger] keys@[t])@ == self.keys@[t]@,
                forall|t: int| 0 <= t < i ==> (#[trigger] values@[t])@ == self.values@[t]@,
            decreases self.keys@.len() - i,
        {
            keys.push(String::from_str(self.keys[i].as_str()));
            values.push(String::from_str(self.values[i].as_str()));
            i += 1;
        }
        let m = TextMap { keys, values };
        assert(m.keys() =~= self.keys());
        assert(m.values() =~= self.values());
        m
    }

    /// The key at place `i`.
    pub fn key_at(&self, i: usize) -> (k: &String)
        requires
            i < self.keys().len(),
        ensures
            k@ == self.keys()[i as int],
    {
        &self.keys[i]
    }

    /// The value at place `i`.
    pub fn value_at(&self, i: usize) -> (v: &String)
        requires
            i < self.values().len(),
        ensures
            v@ == self.values()[i as int],
    {
        &self.values[i]
    }
}

} // verus!
