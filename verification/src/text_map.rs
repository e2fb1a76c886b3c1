//! A small map with text keys.

use vstd::prelude::*;
use crate::text::same_text;

verus! {

/// A map from texts to values, in the order in which the keys came. No key
/// occurs twice.
pub struct TextMap<V> {
    entries: Vec<(String, V)>,
}

/// The value that a list of entries gives to a key.
pub open spec fn lookup<V>(entries: Seq<(String, V)>, key: Seq<char>) -> Option<V>
    decreases entries.len(),
{
    if entries.len() == 0 {
        None
    } else if entries.last().0@ == key {
        Some(entries.last().1)
    } else {
        lookup(entries.drop_last(), key)
    }
}

proof fn lemma_lookup_at<V>(entries: Seq<(String, V)>, i: int)
    requires
        0 <= i < entries.len(),
        distinct(entries),
    ensures
        lookup(entries, entries[i].0@) == Some(entries[i].1),
    decreases entries.len(),
{
    if i < entries.len() - 1 {
        lemma_lookup_at(entries.drop_last(), i);
    }
}

proof fn lemma_lookup_absent<V>(entries: Seq<(String, V)>, key: Seq<char>)
    requires
        forall|i: int| 0 <= i < entries.len() ==> (#[trigger] entries[i]).0@ != key,
    ensures
        lookup(entries, key) is None,
    decreases entries.len(),
{
    if entries.len() > 0 {
        lemma_lookup_absent(entries.drop_last(), key);
    }
}

proof fn lemma_lookup_found<V>(entries: Seq<(String, V)>, key: Seq<char>) -> (i: int)
    requires
        lookup(entries, key) is Some,
    ensures
        0 <= i < entries.len(),
        entries[i].0@ == key,
        entries[i].1 == lookup(entries, key)->0,
    decreases entries.len(),
{
    if entries.last().0@ == key {
        entries.len() - 1
    } else {
        lemma_lookup_found(entries.drop_last(), key)
    }
}

/// Whether no key occurs twice.
pub open spec fn distinct<V>(entries: Seq<(String, V)>) -> bool {
    forall|i: int, j: int|
        0 <= i < j < entries.len() ==> (#[trigger] entries[i]).0@ != (#[trigger] entries[j]).0@
}

/// The map that a list of entries stands for.
pub open spec fn map_of<V>(entries: Seq<(String, V)>) -> Map<Seq<char>, V> {
    Map::new(|k: Seq<char>| lookup(entries, k) is Some, |k: Seq<char>| lookup(entries, k)->0)
}

impl<V> View for TextMap<V> {
    type V = Map<Seq<char>, V>;

    closed spec fn view(&self) -> Map<Seq<char>, V> {
        map_of(self.entries@)
    }
}

impl<V> TextMap<V> {
    #[verifier::type_invariant]
    spec fn keys_are_distinct(self) -> bool {
        distinct(self.entries@)
    }

    /// A map without entries.
    pub fn new() -> (m: Self)
        ensures
            m@ == Map::<Seq<char>, V>::empty(),
    {
        let m = TextMap { entries: Vec::new() };
        proof {
            assert(m@ =~= Map::<Seq<char>, V>::empty());
        }
        m
    }

    /// The position of a key, or the number of entries.
    fn position(&self, key: &str) -> (i: usize)
        ensures
            i <= self.entries@.len(),
            i < self.entries@.len() ==> self.entries@[i as int].0@ == key@,
            i == self.entries@.len() ==> forall|k: int|
                0 <= k < i ==> (#[trigger] self.entries@[k]).0@ != key@,
    {
        let mut i: usize = 0;
        while i < self.entries.len()
            invariant
                i <= self.entries@.len(),
                forall|k: int| 0 <= k < i ==> (#[trigger] self.entries@[k]).0@ != key@,
            decreases self.entries@.len() - i,
        {
            if same_text(self.entries[i].0.as_str(), key) {
                return i;
            }
            i = i + 1;
        }
        i
    }

    /// The value under a key.
    pub fn get(&self, key: &str) -> (value: Option<&V>)
        ensures
            value is Some <==> self@.dom().contains(key@),
            value matches Some(v) ==> *v == self@[key@],
    {
        let i: usize = self.position(key);
        proof {
            use_type_invariant(self);
            if i < self.entries@.len() {
                lemma_lookup_at(self.entries@, i as int);
            } else {
                lemma_lookup_absent(self.entries@, key@);
            }
        }
        if i < self.entries.len() {
            Some(&self.entries[i].1)
        } else {
            None
        }
    }

    /// Whether there is no entry.
    pub fn is_empty(&self) -> (yes: bool)
        ensures
            yes <==> self@ == Map::<Seq<char>, V>::empty(),
    {
        proof {
            use_type_invariant(self);
            if self.entries@.len() > 0 {
                lemma_lookup_at(self.entries@, 0);
                assert(self@.dom().contains(self.entries@[0].0@));
                assert(!Map::<Seq<char>, V>::empty().dom().contains(self.entries@[0].0@));
            } else {
                assert(self@ =~= Map::<Seq<char>, V>::empty());
            }
        }
        self.entries.len() == 0
    }

    /// Removes a key and gives back its value.
    pub fn remove(&mut self, key: &str) -> (value: Option<V>)
        ensures
            value is Some <==> old(self)@.dom().contains(key@),
            value matches Some(v) ==> v == old(self)@[key@],
            final(self)@ == old(self)@.remove(key@),
    {
        let i: usize = self.position(key);
        proof {
            use_type_invariant(&*self);
        }
        if i < self.entries.len() {
            let mut entries: Vec<(String, V)> = Vec::new();
            std::mem::swap(&mut entries, &mut self.entries);
            let ghost before = entries@;
            proof {
                lemma_lookup_at(before, i as int);
            }
            let (_, value) = entries.remove(i);
            proof {
                let after = entries@;
                assert(after =~= before.remove(i as int));
                assert forall|j: int, k: int| 0 <= j < k < after.len() implies (
                #[trigger] after[j]).0@ != (#[trigger] after[k]).0@ by {
                    let j2 = if j < i {
                        j
                    } else {
                        j + 1
                    };
                    let k2 = if k < i {
                        k
                    } else {
                        k + 1
                    };
                    assert(before[j2].0@ != before[k2].0@);
                }
                assert forall|q: Seq<char>| lookup(after, q) == (if q == key@ {
                    None
                } else {
                    lookup(before, q)
                }) by {
                    if lookup(after, q) is Some {
                        let j = lemma_lookup_found(after, q);
                        let j2 = if j < i {
                            j
                        } else {
                            j + 1
                        };
                        lemma_lookup_at(before, j2);
                        lemma_lookup_at(after, j);
                        assert(before[j2].0@ != before[i as int].0@);
                    } else if q != key@ && lookup(before, q) is Some {
                        let j = lemma_lookup_found(before, q);
                        let j2 = if j < i {
                            j
                        } else {
                            j - 1
                        };
                        assert(after[j2] == before[j]);
                        lemma_lookup_at(after, j2);
                    }
                }
                assert(map_of(after) =~= map_of(before).remove(key@));
            }
            self.entries = entries;
            Some(value)
        } else {
            proof {
                lemma_lookup_absent(self.entries@, key@);
                assert(self@.remove(key@) =~= self@);
            }
            None
        }
    }

    /// Puts a value under a key, in place of what was there.
    pub fn insert(&mut self, key: String, value: V)
        ensures
            final(self)@ == old(self)@.insert(key@, value),
    {
        let ghost start = self@;
        let i: usize = self.position(key.as_str());
        proof {
            use_type_invariant(&*self);
        }
        let mut entries: Vec<(String, V)> = Vec::new();
        std::mem::swap(&mut entries, &mut self.entries);
        let ghost before = entries@;
        let ghost k = key@;
        if i < entries.len() {
            entries[i] = (key, value);
        } else {
            entries.push((key, value));
        }
        proof {
            let after = entries@;
            assert(after[i as int].0@ == k && after[i as int].1 == value);
            assert forall|j: int| 0 <= j < after.len() && j != i implies after[j] == before[j] by {}
            assert forall|a: int, b: int| 0 <= a < b < after.len() implies (
            #[trigger] after[a]).0@ != (#[trigger] after[b]).0@ by {
                if a != i && b != i {
                    assert(before[a].0@ != before[b].0@);
                } else if i < before.len() {
                    assert(before[a].0@ != before[b].0@);
                } else {
                    assert(before[a].0@ != k);
                }
            }
            assert forall|q: Seq<char>| lookup(after, q) == (if q == k {
                Some(value)
            } else {
                lookup(before, q)
            }) by {
                if q == k {
                    lemma_lookup_at(after, i as int);
                } else if lookup(after, q) is Some {
                    let j = lemma_lookup_found(after, q);
                    lemma_lookup_at(before, j);
                } else if lookup(before, q) is Some {
                    let j = lemma_lookup_found(before, q);
                    assert(after[j] == before[j]);
                    lemma_lookup_at(after, j);
                }
            }
            assert(map_of(after) =~= map_of(before).insert(k, value));
        }
        self.entries = entries;
    }
}

/// The texts that a map of strings holds.
pub open spec fn texts(m: Map<Seq<char>, String>) -> Map<Seq<char>, Seq<char>> {
    m.map_values(|v: String| v@)
}

} // verus!
