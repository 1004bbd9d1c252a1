//! A map from texts to values that keeps its keys in order.
use crate::text::{
    comes_before, lemma_text_less_irreflexive, lemma_text_less_total, lemma_text_less_transitive,
    same_text, text_less,
};
use vstd::prelude::*;

verus! {

/// A map whose keys are strings, held in ascending order of the keys.
#[derive(Debug, Clone, PartialEq, Eq)]
pub struct TextMap<V> {
    entries: Vec<(String, V)>,
}

/// The keys of a sequence of entries.
pub open spec fn entry_keys<V>(entries: Seq<(String, V)>) -> Seq<Seq<char>> {
    entries.map_values(|e: (String, V)| e.0@)
}

/// Each key comes before the ones after it.
pub open spec fn ascending(keys: Seq<Seq<char>>) -> bool {
    forall|i: int, j: int| 0 <= i < j < keys.len() ==> text_less(#[trigger] keys[i], #[trigger] keys[j])
}

impl<V> View for TextMap<V> {
    type V = Map<Seq<char>, V>;

    closed spec fn view(&self) -> Map<Seq<char>, V> {
        Map::new(
            |k: Seq<char>| self.keys().contains(k),
            |k: Seq<char>| self.entries@[self.keys().index_of(k)].1,
        )
    }
}

impl<V> TextMap<V> {
    /// The keys, in ascending order.
    pub closed spec fn keys(&self) -> Seq<Seq<char>> {
        entry_keys(self.entries@)
    }

    /// The order that every operation keeps.
    pub closed spec fn wf(&self) -> bool {
        ascending(self.keys())
    }

    /// What well-formedness says of the keys, and how they relate to the map.
    pub proof fn lemma_keys(&self)
        requires
            self.wf(),
        ensures
            ascending(self.keys()),
            self.keys().no_duplicates(),
            self.keys().to_set() == self@.dom(),
    {
        assert forall|i: int, j: int|
            0 <= i < self.keys().len() && 0 <= j < self.keys().len() && i != j implies self.keys()[i]
            != self.keys()[j] by {
            lemma_text_less_irreflexive(self.keys()[i]);
            if i < j {
                assert(text_less(self.keys()[i], self.keys()[j]));
            } else {
                assert(text_less(self.keys()[j], self.keys()[i]));
            }
        }
        assert(self.keys().to_set() =~= self@.dom());
    }

    proof fn lemma_entry(&self, i: int)
        requires
            self.wf(),
            0 <= i < self.entries@.len(),
        ensures
            self@.contains_pair(self.entries@[i].0@, self.entries@[i].1),
    {
        self.lemma_keys();
        assert(self.keys()[i] == self.entries@[i].0@);
        let k = self.keys().index_of(self.keys()[i]);
        assert(self.keys().contains(self.keys()[i]));
        assert(k == i);
    }

    /// The map without entries.
    pub fn new() -> (map: Self)
        ensures
            map.wf(),
            map@ == Map::<Seq<char>, V>::empty(),
    {
        let map = TextMap { entries: Vec::new() };
        assert(map@ =~= Map::<Seq<char>, V>::empty());
        map
    }

    /// The number of entries.
    pub fn len(&self) -> (n: usize)
        requires
            self.wf(),
        ensures
            n == self@.len(),
            n == self.keys().len(),
    {
        proof {
            self.lemma_keys();
            self.keys().unique_seq_to_set();
        }
        self.entries.len()
    }

    /// Whether there is no entry.
    pub fn is_empty(&self) -> (b: bool)
        requires
            self.wf(),
        ensures
            b == (self@.len() == 0),
    {
        self.len() == 0
    }

    /// The entry at a position in the order of the keys.
    pub fn entry_at(&self, i: usize) -> (entry: (&String, &V))
        requires
            self.wf(),
            i < self.keys().len(),
        ensures
            entry.0@ == self.keys()[i as int],
            self@.contains_pair(entry.0@, *entry.1),
    {
        proof {
            self.lemma_entry(i as int);
        }
        let entry = &self.entries[i];
        (&entry.0, &entry.1)
    }

    /// The value of `key`.
    pub fn get(&self, key: &str) -> (value: Option<&V>)
        requires
            self.wf(),
        ensures
            match value {
                Some(v) => self@.contains_pair(key@, *v),
                None => !self@.contains_key(key@),
            },
    {
        let mut i: usize = 0;
        while i < self.entries.len()
            invariant
                self.wf(),
                i <= self.entries@.len(),
                forall|j: int| 0 <= j < i ==> #[trigger] self.keys()[j] != key@,
            decreases self.entries@.len() - i,
        {
            assert(self.keys()[i as int] == self.entries@[i as int].0@);
            if same_text(self.entries[i].0.as_str(), key) {
                proof {
                    self.lemma_entry(i as int);
                }
                return Some(&self.entries[i].1);
            }
            i += 1;
        }
        None
    }

    /// Whether there is an entry for `key`.
    pub fn contains_key(&self, key: &str) -> (found: bool)
        requires
            self.wf(),
        ensures
            found == self@.contains_key(key@),
    {
        self.get(key).is_some()
    }

    /// Gives `key` the value `value`, in place of the one it had.
    pub fn insert(&mut self, key: String, value: V)
        requires
            old(self).wf(),
        ensures
            final(self).wf(),
            final(self)@ == old(self)@.insert(key@, value),
    {
        let ghost before = *self;
        let ghost keys = self.keys();
        let ghost entry = (key, value);
        let mut at: usize = 0;
        while at < self.entries.len() && comes_before(self.entries[at].0.as_str(), key.as_str())
            invariant
                *self == before,
                keys == self.keys(),
                at <= self.entries@.len(),
                forall|j: int| 0 <= j < at ==> text_less(#[trigger] keys[j], key@),
            decreases self.entries@.len() - at,
        {
            assert(keys[at as int] == self.entries@[at as int].0@);
            at += 1;
        }
        if at < self.entries.len() && same_text(self.entries[at].0.as_str(), key.as_str()) {
            self.entries.remove(at);
            self.entries.insert(at, (key, value));
            assert(self.entries@ =~= before.entries@.update(at as int, entry));
            assert(self.keys() =~= keys);
        } else {
            self.entries.insert(at, (key, value));
            proof {
                assert(self.keys() =~= keys.insert(at as int, key@));
                if at < keys.len() {
                    assert(keys[at as int] == before.entries@[at as int].0@);
                    lemma_text_less_total(keys[at as int], key@);
                }
                assert forall|i: int, j: int| 0 <= i < j < self.keys().len() implies text_less(
                    #[trigger] self.keys()[i],
                    #[trigger] self.keys()[j],
                ) by {
                    if i < at && j == at {
                        assert(text_less(keys[i], key@));
                    } else if i == at {
                        assert(text_less(key@, keys[at as int]));
                        if j - 1 > at {
                            assert(text_less(keys[at as int], keys[j - 1]));
                            lemma_text_less_transitive(key@, keys[at as int], keys[j - 1]);
                        }
                    } else if j > at && i > at {
                        assert(text_less(keys[i - 1], keys[j - 1]));
                    } else if j > at {
                        assert(text_less(keys[i], keys[j - 1]));
                    } else {
                        assert(text_less(keys[i], keys[j]));
                    }
                }
            }
        }
        proof {
            self.lemma_inserted(before, at as int, entry);
        }
    }

    proof fn lemma_inserted(&self, before: Self, at: int, entry: (String, V))
        requires
            before.wf(),
            self.wf(),
            0 <= at <= before.entries@.len(),
            ({
                ||| self.entries@ == before.entries@.insert(at, entry)
                ||| at < before.entries@.len() && before.entries@[at].0@ == entry.0@ && self.entries@
                    == before.entries@.update(at, entry)
            }),
        ensures
            self@ == before@.insert(entry.0@, entry.1),
    {
        self.lemma_keys();
        before.lemma_keys();
        let target = before@.insert(entry.0@, entry.1);
        let updated = self.entries@.len() == before.entries@.len();
        self.lemma_entry(at);
        assert forall|k: Seq<char>| #[trigger] self@.dom().contains(k) implies target.dom().contains(k)
            && self@[k] == target[k] by {
            let i = self.keys().index_of(k);
            assert(self.keys()[i] == self.entries@[i].0@);
            self.lemma_entry(i);
            if i != at {
                let q = if updated || i < at {
                    i
                } else {
                    i - 1
                };
                assert(before.entries@[q] == self.entries@[i]);
                before.lemma_entry(q);
                assert(self.keys()[i] != self.keys()[at]);
            }
        }
        assert forall|k: Seq<char>| #[trigger] target.dom().contains(k) implies self@.dom().contains(k) by {
            if k != entry.0@ {
                let i = before.keys().index_of(k);
                assert(before.keys()[i] == before.entries@[i].0@);
                let q = if updated || i < at {
                    i
                } else {
                    i + 1
                };
                assert(self.entries@[q] == before.entries@[i]);
                self.lemma_entry(q);
            }
        }
        assert(self@.dom() =~= target.dom());
        assert(self@ =~= target);
    }
}

}
