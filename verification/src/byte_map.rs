//! A small ordered map from byte strings to byte strings. Entries keep the
//! order in which their keys were first put.

use vstd::prelude::*;
use crate::vault::{clone_bytes, ct_eq_bytes};

verus! {

/// The place of the first entry under `key`, if there is one.
pub open spec fn place_of(entries: Seq<(Seq<u8>, Seq<u8>)>, key: Seq<u8>) -> Option<int>
    decreases entries.len(),
{
    if entries.len() == 0 {
        None
    } else {
        match place_of(entries.drop_last(), key) {
            Some(i) => Some(i),
            None => if entries.last().0 == key {
                Some(entries.len() - 1)
            } else {
                None
            },
        }
    }
}

/// The value under `key`, if there is one.
pub open spec fn value_at(entries: Seq<(Seq<u8>, Seq<u8>)>, key: Seq<u8>) -> Option<Seq<u8>> {
    match place_of(entries, key) {
        Some(i) => Some(entries[i].1),
        None => None,
    }
}

/// The entries after `value` was put under `key`: in the place of the old
/// value where the key was there, at the end where it was not.
pub open spec fn spec_put(
    entries: Seq<(Seq<u8>, Seq<u8>)>,
    key: Seq<u8>,
    value: Seq<u8>,
) -> Seq<(Seq<u8>, Seq<u8>)> {
    match place_of(entries, key) {
        Some(i) => entries.update(i, (key, value)),
        None => entries.push((key, value)),
    }
}

/// No key occurs twice.
pub open spec fn distinct_keys(entries: Seq<(Seq<u8>, Seq<u8>)>) -> bool {
    forall|i: int, j: int|
        0 <= i < j < entries.len() ==> (#[trigger] entries[i]).0 != (#[trigger] entries[j]).0
}

/// The place found for a key holds that key, and no earlier place does;
/// nothing is found exactly when no place holds the key.
pub proof fn lemma_place_of(entries: Seq<(Seq<u8>, Seq<u8>)>, key: Seq<u8>)
    ensures
        match place_of(entries, key) {
            Some(i) => {
                &&& 0 <= i < entries.len()
                &&& entries[i].0 == key
                &&& forall|j: int| 0 <= j < i ==> (#[trigger] entries[j]).0 != key
            },
            None => forall|j: int| 0 <= j < entries.len() ==> (#[trigger] entries[j]).0 != key,
        },
    decreases entries.len(),
{
    if entries.len() > 0 {
        let init = entries.drop_last();
        lemma_place_of(init, key);
        match place_of(init, key) {
            Some(i) => {
                assert(entries[i] == init[i]);
                assert forall|j: int| 0 <= j < i implies (#[trigger] entries[j]).0 != key by {
                    assert(entries[j] == init[j]);
                }
            },
            None => {
                assert forall|j: int| 0 <= j < entries.len() - 1 implies (#[trigger] entries[j]).0
                    != key by {
                    assert(entries[j] == init[j]);
                }
            },
        }
    }
}

/// The first place that holds a key is the place found for it.
pub proof fn lemma_place_of_first(entries: Seq<(Seq<u8>, Seq<u8>)>, key: Seq<u8>, i: int)
    requires
        0 <= i < entries.len(),
        entries[i].0 == key,
        forall|j: int| 0 <= j < i ==> (#[trigger] entries[j]).0 != key,
    ensures
        place_of(entries, key) == Some(i),
{
    lemma_place_of(entries, key);
}

/// What was put under a key is found there, and every other key keeps its value.
pub proof fn lemma_put_then_get(
    entries: Seq<(Seq<u8>, Seq<u8>)>,
    key: Seq<u8>,
    value: Seq<u8>,
    other: Seq<u8>,
)
    ensures
        value_at(spec_put(entries, key, value), key) == Some(value),
        other != key ==> value_at(spec_put(entries, key, value), other) == value_at(entries, other),
        distinct_keys(entries) ==> distinct_keys(spec_put(entries, key, value)),
{
    let after = spec_put(entries, key, value);
    lemma_place_of(entries, key);
    lemma_place_of(entries, other);
    match place_of(entries, key) {
        Some(i) => {
            assert(after[i] == (key, value));
            assert forall|j: int| 0 <= j < i implies (#[trigger] after[j]).0 != key by {
                assert(after[j] == entries[j]);
            }
            lemma_place_of_first(after, key, i);
            if other != key {
                match place_of(entries, other) {
                    Some(k) => {
                        assert(after[k] == entries[k]);
                        assert forall|j: int| 0 <= j < k implies (#[trigger] after[j]).0 != other by {
                            if j != i {
                                assert(after[j] == entries[j]);
                            }
                        }
                        lemma_place_of_first(after, other, k);
                    },
                    None => {
                        lemma_place_of(after, other);
                        if place_of(after, other) is Some {
                            let k = place_of(after, other).unwrap();
                            if k != i {
                                assert(after[k] == entries[k]);
                            }
                        }
                    },
                }
            }
            if distinct_keys(entries) {
                assert forall|a: int, b: int| 0 <= a < b < after.len() implies (#[trigger] after[a]).0 != (
                #[trigger] after[b]).0 by {
                    assert(entries[a].0 != entries[b].0);
                }
            }
        },
        None => {
            let last = entries.len() as int;
            assert(after[last] == (key, value));
            assert forall|j: int| 0 <= j < last implies (#[trigger] after[j]).0 != key by {
                assert(after[j] == entries[j]);
            }
            lemma_place_of_first(after, key, last);
            if other != key {
                match place_of(entries, other) {
                    Some(k) => {
                        assert(after[k] == entries[k]);
                        assert forall|j: int| 0 <= j < k implies (#[trigger] after[j]).0 != other by {
                            assert(after[j] == entries[j]);
                        }
                        lemma_place_of_first(after, other, k);
                    },
                    None => {
                        lemma_place_of(after, other);
                        if place_of(after, other) is Some {
                            let k = place_of(after, other).unwrap();
                            if k < last {
                                assert(after[k] == entries[k]);
                            }
                        }
                    },
                }
            }
            if distinct_keys(entries) {
                assert forall|a: int, b: int| 0 <= a < b < after.len() implies (#[trigger] after[a]).0 != (
                #[trigger] after[b]).0 by {
                    assert(after[a] == entries[a]);
                    if b < last {
                        assert(after[b] == entries[b]);
                        assert(entries[a].0 != entries[b].0);
                    }
                }
            }
        },
    }
}

#[derive(Debug)]
struct ByteEntry {
    key: Vec<u8>,
    value: Vec<u8>,
}

spec fn entry_pairs(entries: Seq<ByteEntry>) -> Seq<(Seq<u8>, Seq<u8>)> {
    entries.map_values(|e: ByteEntry| (e.key@, e.value@))
}

/// An ordered map from byte strings to byte strings.
#[derive(Debug)]
pub struct ByteMap {
    entries: Vec<ByteEntry>,
}

impl View for ByteMap {
    type V = Seq<(Seq<u8>, Seq<u8>)>;

    closed spec fn view(&self) -> Seq<(Seq<u8>, Seq<u8>)> {
        entry_pairs(self.entries@)
    }
}

impl Clone for ByteMap {
    fn clone(&self) -> (copy: Self)
        ensures
            copy@ == self@,
    {
        let mut entries: Vec<ByteEntry> = Vec::new();
        let mut i: usize = 0;
        while i < self.entries.len()
            invariant
                i <= self.entries.len(),
                entries@.len() == i,
                forall|j: int|
                    0 <= j < i ==> (#[trigger] entries@[j]).key@ == self.entries@[j].key@
                        && entries@[j].value@ == self.entries@[j].value@,
            decreases self.entries.len() - i,
        {
            entries.push(
                ByteEntry {
                    key: clone_bytes(&self.entries[i].key),
                    value: clone_bytes(&self.entries[i].value),
                },
            );
            i = i + 1;
        }
        let copy = ByteMap { entries };
        assert(copy@ =~= self@);
        copy
    }
}

impl ByteMap {
    /// The map without entries.
    pub fn new() -> (map: Self)
        ensures
            map@ == Seq::<(Seq<u8>, Seq<u8>)>::empty(),
    {
        let map = ByteMap { entries: Vec::new() };
        assert(map@ =~= Seq::<(Seq<u8>, Seq<u8>)>::empty());
        map
    }

    /// The number of entries.
    pub fn len(&self) -> (n: usize)
        ensures
            n == self@.len(),
    {
        self.entries.len()
    }

    /// Whether the map has no entry.
    pub fn is_empty(&self) -> (empty: bool)
        ensures
            empty == (self@.len() == 0),
    {
        self.entries.len() == 0
    }

    fn find(&self, key: &[u8]) -> (place: Option<usize>)
        ensures
            match place {
                Some(i) => place_of(self@, key@) == Some(i as int) && i < self@.len(),
                None => place_of(self@, key@) is None,
            },
    {
        let mut i: usize = 0;
        while i < self.entries.len()
            invariant
                i <= self.entries.len(),
                forall|j: int| 0 <= j < i ==> (#[trigger] self@[j]).0 != key@,
            decreases self.entries.len() - i,
        {
            if ct_eq_bytes(self.entries[i].key.as_slice(), key) {
                proof {
                    assert(self@[i as int].0 == key@);
                    lemma_place_of_first(self@, key@, i as int);
                }
                return Some(i);
            }
            i = i + 1;
        }
        proof {
            lemma_place_of(self@, key@);
        }
        None
    }

    /// The value under `key`, if there is one.
    pub fn get(&self, key: &[u8]) -> (value: Option<&Vec<u8>>)
        ensures
            match value {
                Some(bytes) => value_at(self@, key@) == Some(bytes@),
                None => value_at(self@, key@) is None,
            },
    {
        match self.find(key) {
            Some(i) => Some(&self.entries[i].value),
            None => None,
        }
    }

    /// Whether there is a value under `key`.
    pub fn contains_key(&self, key: &[u8]) -> (yes: bool)
        ensures
            yes == (value_at(self@, key@) is Some),
    {
        self.find(key).is_some()
    }

    /// The key at place `i`.
    pub fn key(&self, i: usize) -> (key: &Vec<u8>)
        requires
            i < self@.len(),
        ensures
            key@ == self@[i as int].0,
    {
        &self.entries[i].key
    }

    /// The value at place `i`.
    pub fn value(&self, i: usize) -> (value: &Vec<u8>)
        requires
            i < self@.len(),
        ensures
            value@ == self@[i as int].1,
    {
        &self.entries[i].value
    }

    /// Puts `value` under `key`: in the place of the old value where the key
    /// was there, at the end where it was not.
    pub fn put(&mut self, key: Vec<u8>, value: Vec<u8>)
        ensures
            final(self)@ == spec_put(old(self)@, key@, value@),
    {
        let ghost before = self@;
        match self.find(key.as_slice()) {
            Some(i) => {
                self.entries[i] = ByteEntry { key, value };
                assert(self@ =~= before.update(i as int, (key@, value@)));
            },
            None => {
                self.entries.push(ByteEntry { key, value });
                assert(self@ =~= before.push((key@, value@)));
            },
        }
    }
}

} // verus!
