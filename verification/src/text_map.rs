//! A map keyed by texts.

use vstd::prelude::*;
use vstd::string::*;
use crate::text::{list_has, same_text, texts_view};

verus! {

/// A map from texts to values, kept as a list of entries.
#[derive(Debug)]
pub struct TextMap<V> {
    entries: Vec<(String, V)>,
}

/// The value of the first entry with that key.
pub open spec fn lookup<V>(entries: Seq<(String, V)>, key: Seq<char>) -> Option<V>
    decreases entries.len(),
{
    if entries.len() == 0 {
        None
    } else if entries[0].0@ == key {
        Some(entries[0].1)
    } else {
        lookup(entries.skip(1), key)
    }
}

/// The map that a list of entries stands for: the first entry of a key counts.
pub open spec fn entries_map<V>(entries: Seq<(String, V)>) -> Map<Seq<char>, V> {
    Map::new(
        |key: Seq<char>| lookup(entries, key) is Some,
        |key: Seq<char>| lookup(entries, key)->Some_0,
    )
}

impl<V> View for TextMap<V> {
    type V = Map<Seq<char>, V>;

    closed spec fn view(&self) -> Map<Seq<char>, V> {
        entries_map(self.entries@)
    }
}

proof fn lemma_lookup_at<V>(entries: Seq<(String, V)>, key: Seq<char>, at: int)
    requires
        0 <= at < entries.len(),
        entries[at].0@ == key,
        forall|k: int| 0 <= k < at ==> (#[trigger] entries[k]).0@ != key,
    ensures
        lookup(entries, key) == Some(entries[at].1),
    decreases at,
{
    if at > 0 {
        assert(entries[0].0@ != key);
        assert forall|k: int| 0 <= k < at - 1 implies (#[trigger] entries.skip(1)[k]).0@ != key by {
            assert(entries[k + 1].0@ != key);
        }
        lemma_lookup_at(entries.skip(1), key, at - 1);
    }
}

proof fn lemma_lookup_none<V>(entries: Seq<(String, V)>, key: Seq<char>)
    requires
        forall|k: int| 0 <= k < entries.len() ==> (#[trigger] entries[k]).0@ != key,
    ensures
        lookup(entries, key) is None,
    decreases entries.len(),
{
    if entries.len() > 0 {
        assert(entries[0].0@ != key);
        assert forall|k: int| 0 <= k < entries.skip(1).len() implies (#[trigger] entries.skip(
            1,
        )[k]).0@ != key by {
            assert(entries[k + 1].0@ != key);
        }
        lemma_lookup_none(entries.skip(1), key);
    }
}

proof fn lemma_lookup_push<V>(entries: Seq<(String, V)>, entry: (String, V), key: Seq<char>)
    ensures
        lookup(entries.push(entry), key) == (match lookup(entries, key) {
            Some(value) => Some(value),
            None => if entry.0@ == key {
                Some(entry.1)
            } else {
                None
            },
        }),
    decreases entries.len(),
{
    let all = entries.push(entry);
    if entries.len() == 0 {
        assert(all.skip(1) =~= Seq::<(String, V)>::empty());
        reveal_with_fuel(lookup, 2);
    } else {
        assert(all[0] == entries[0]);
        assert(all.skip(1) =~= entries.skip(1).push(entry));
        lemma_lookup_push(entries.skip(1), entry, key);
    }
}

proof fn lemma_lookup_update<V>(entries: Seq<(String, V)>, at: int, entry: (String, V), key: Seq<char>)
    requires
        0 <= at < entries.len(),
        entries[at].0@ == entry.0@,
        forall|k: int| 0 <= k < at ==> (#[trigger] entries[k]).0@ != entry.0@,
    ensures
        lookup(entries.update(at, entry), key) == (if key == entry.0@ {
            Some(entry.1)
        } else {
            lookup(entries, key)
        }),
    decreases at,
{
    let all = entries.update(at, entry);
    if at == 0 {
        assert(all.skip(1) =~= entries.skip(1));
    } else {
        assert(all[0] == entries[0]);
        assert(entries[0].0@ != entry.0@);
        assert(all.skip(1) =~= entries.skip(1).update(at - 1, entry));
        assert forall|k: int| 0 <= k < at - 1 implies (#[trigger] entries.skip(1)[k]).0@
            != entry.0@ by {
            assert(entries[k + 1].0@ != entry.0@);
        }
        lemma_lookup_update(entries.skip(1), at - 1, entry, key);
    }
}

impl<V> TextMap<V> {
    /// An empty map.
    pub fn new() -> (map: Self)
        ensures
            map@ == Map::<Seq<char>, V>::empty(),
    {
        let map = TextMap { entries: Vec::new() };
        assert(map@ =~= Map::<Seq<char>, V>::empty());
        map
    }

    fn find(&self, key: &str) -> (at: Option<usize>)
        ensures
            match at {
                Some(at) => {
                    &&& at < self.entries@.len()
                    &&& self.entries@[at as int].0@ == key@
                    &&& forall|k: int| 0 <= k < at ==> (#[trigger] self.entries@[k]).0@ != key@
                },
                None => forall|k: int|
                    0 <= k < self.entries@.len() ==> (#[trigger] self.entries@[k]).0@ != key@,
            },
    {
        let mut i: usize = 0;
        while i < self.entries.len()
            invariant
                i <= self.entries@.len(),
                forall|k: int| 0 <= k < i ==> (#[trigger] self.entries@[k]).0@ != key@,
            decreases self.entries@.len() - i,
        {
            if same_text(self.entries[i].0.as_str(), key) {
                return Some(i);
            }
            i = i + 1;
        }
        None
    }

    /// The value of a key.
    pub fn get(&self, key: &str) -> (value: Option<&V>)
        ensures
            match value {
                Some(value) => self@.dom().contains(key@) && self@[key@] == *value,
                None => !self@.dom().contains(key@),
            },
    {
        match self.find(key) {
            Some(at) => {
                proof {
                    lemma_lookup_at(self.entries@, key@, at as int);
                }
                Some(&self.entries[at].1)
            },
            None => {
                proof {
                    lemma_lookup_none(self.entries@, key@);
                }
                None
            },
        }
    }

    /// Sets the value of a key.
    pub fn insert(&mut self, key: &str, value: V)
        ensures
            final(self)@ == old(self)@.insert(key@, value),
    {
        let ghost before = self.entries@;
        match self.find(key) {
            Some(at) => {
                let entry = (key.to_owned(), value);
                proof {
                    assert forall|other: Seq<char>|
                        lookup(before.update(at as int, entry), other) == (if other == key@ {
                            Some(value)
                        } else {
                            lookup(before, other)
                        }) by {
                        lemma_lookup_update(before, at as int, entry, other);
                    }
                }
                self.entries.set(at, entry);
            },
            None => {
                let entry = (key.to_owned(), value);
                proof {
                    lemma_lookup_none(before, key@);
                    assert forall|other: Seq<char>|
                        lookup(before.push(entry), other) == (if other == key@ {
                            Some(value)
                        } else {
                            lookup(before, other)
                        }) by {
                        lemma_lookup_push(before, entry, other);
                    }
                }
                self.entries.push(entry);
            },
        }
        assert(self@ =~= old(self)@.insert(key@, value));
    }

    /// Takes a key out of the map.
    pub fn remove(&mut self, key: &str) -> (value: Option<V>)
        ensures
            final(self)@ == old(self)@.remove(key@),
            match value {
                Some(value) => old(self)@.dom().contains(key@) && old(self)@[key@] == value,
                None => !old(self)@.dom().contains(key@),
            },
    {
        let ghost all = self.entries@;
        let mut old_entries: Vec<(String, V)> = Vec::new();
        core::mem::swap(&mut old_entries, &mut self.entries);
        let mut taken: Option<V> = None;
        let mut kept: Vec<(String, V)> = Vec::new();
        assert(all.skip(0) =~= all);
        assert forall|other: Seq<char>|
            other != key@ implies lookup(all, other) == (match lookup(kept@, other) {
            Some(value) => Some(value),
            None => lookup(all.skip(0), other),
        }) by {
            lemma_lookup_none(kept@, other);
        }
        assert(lookup(kept@, key@) is None);
        while old_entries.len() > 0
            invariant
                old_entries@.len() <= all.len(),
                old_entries@ == all.skip(all.len() - old_entries@.len()),
                forall|other: Seq<char>|
                    other != key@ ==> #[trigger] lookup(all, other) == (match lookup(kept@, other) {
                        Some(value) => Some(value),
                        None => lookup(old_entries@, other),
                    }),
                lookup(kept@, key@) is None,
                lookup(all, key@) == (match taken {
                    Some(value) => Some(value),
                    None => lookup(old_entries@, key@),
                }),
            decreases old_entries@.len(),
        {
            let ghost rest = old_entries@;
            let ghost kept_before = kept@;
            let (name, value) = old_entries.remove(0);
            assert(old_entries@ =~= rest.skip(1));
            assert(all.skip(all.len() - rest.len()).skip(1) =~= all.skip(
                all.len() - old_entries@.len(),
            ));
            assert(rest[0] == (name, value));
            if same_text(name.as_str(), key) {
                if taken.is_none() {
                    taken = Some(value);
                }
            } else {
                kept.push((name, value));
                proof {
                    assert forall|other: Seq<char>|
                        #[trigger] lookup(kept@, other) == (match lookup(kept_before, other) {
                            Some(found) => Some(found),
                            None => if name@ == other {
                                Some(value)
                            } else {
                                None
                            },
                        }) by {
                        lemma_lookup_push(kept_before, (name, value), other);
                    }
                }
            }
        }
        self.entries = kept;
        proof {
            assert forall|other: Seq<char>| lookup(old_entries@, other) is None by {
                lemma_lookup_none(old_entries@, other);
            }
            assert(self@ =~= old(self)@.remove(key@));
        }
        taken
    }

    /// Keeps only the keys in the list.
    pub fn keep_only(&mut self, keys: &Vec<String>)
        ensures
            final(self)@ == old(self)@.restrict(
                Set::new(|key: Seq<char>| texts_view(keys@).contains(key)),
            ),
    {
        let ghost all = self.entries@;
        let mut old_entries: Vec<(String, V)> = Vec::new();
        core::mem::swap(&mut old_entries, &mut self.entries);
        let mut kept: Vec<(String, V)> = Vec::new();
        assert forall|other: Seq<char>| lookup(kept@, other) is None by {
            lemma_lookup_none(kept@, other);
        }
        while old_entries.len() > 0
            invariant
                forall|other: Seq<char>|
                    texts_view(keys@).contains(other) ==> #[trigger] lookup(all, other) == (
                    match lookup(kept@, other) {
                        Some(value) => Some(value),
                        None => lookup(old_entries@, other),
                    }),
                forall|other: Seq<char>|
                    !texts_view(keys@).contains(other) ==> #[trigger] lookup(
                        kept@,
                        other,
                    ) is None,
            decreases old_entries@.len(),
        {
            let ghost rest = old_entries@;
            let ghost kept_before = kept@;
            let (name, value) = old_entries.remove(0);
            assert(old_entries@ =~= rest.skip(1));
            assert(rest[0] == (name, value));
            if list_has(keys, name.as_str()) {
                kept.push((name, value));
                proof {
                    assert forall|other: Seq<char>|
                        #[trigger] lookup(kept@, other) == (match lookup(kept_before, other) {
                            Some(found) => Some(found),
                            None => if name@ == other {
                                Some(value)
                            } else {
                                None
                            },
                        }) by {
                        lemma_lookup_push(kept_before, (name, value), other);
                    }
                }
            }
        }
        self.entries = kept;
        proof {
            assert forall|other: Seq<char>| lookup(old_entries@, other) is None by {
                lemma_lookup_none(old_entries@, other);
            }
            assert(self@ =~= old(self)@.restrict(
                Set::new(|key: Seq<char>| texts_view(keys@).contains(key)),
            ));
        }
    }
}

} // verus!
