//! A map whose keys are texts.

use vstd::prelude::*;
use vstd::string::*;
use crate::bytes;

verus! {

/// Entries in the order in which their keys were first inserted. Where a key stands twice, the
/// first entry counts.
pub struct TextMap<V> {
    pub entries: Vec<(String, V)>,
}

/// Where the entry for a key stands.
pub open spec fn key_position<V>(entries: Seq<(String, V)>, key: Seq<char>) -> Option<int>
    decreases entries.len(),
{
    if entries.len() == 0 {
        None
    } else if entries[0].0@ == key {
        Some(0)
    } else {
        match key_position(entries.drop_first(), key) {
            Some(i) => Some(i + 1),
            None => None,
        }
    }
}

/// What a list of entries maps its keys to.
pub open spec fn entries_map<V>(entries: Seq<(String, V)>) -> Map<Seq<char>, V> {
    Map::new(
        |key: Seq<char>| key_position(entries, key) is Some,
        |key: Seq<char>| entries[key_position(entries, key)->0].1,
    )
}

proof fn lemma_key_position<V>(entries: Seq<(String, V)>, key: Seq<char>)
    ensures
        match key_position(entries, key) {
            Some(i) => {
                &&& 0 <= i < entries.len()
                &&& entries[i].0@ == key
                &&& forall|j: int| 0 <= j < i ==> (#[trigger] entries[j]).0@ != key
            },
            None => forall|j: int| 0 <= j < entries.len() ==> (#[trigger] entries[j]).0@ != key,
        },
    decreases entries.len(),
{
    if entries.len() > 0 && entries[0].0@ != key {
        let rest = entries.drop_first();
        lemma_key_position(rest, key);
        assert forall|j: int| 1 <= j < entries.len() implies #[trigger] entries[j] == rest[j - 1] by {}
        match key_position(rest, key) {
            Some(i) => {
                assert(entries[i + 1] == rest[i]);
                assert forall|j: int| 0 <= j < i + 1 implies (#[trigger] entries[j]).0@ != key by {
                    if j > 0 {
                        assert(entries[j] == rest[j - 1]);
                    }
                }
            },
            None => {
                assert forall|j: int| 0 <= j < entries.len() implies (#[trigger] entries[j]).0@
                    != key by {
                    if j > 0 {
                        assert(entries[j] == rest[j - 1]);
                    }
                }
            },
        }
    }
}

proof fn lemma_key_position_is<V>(entries: Seq<(String, V)>, key: Seq<char>, i: int)
    requires
        0 <= i < entries.len(),
        entries[i].0@ == key,
        forall|j: int| 0 <= j < i ==> (#[trigger] entries[j]).0@ != key,
    ensures
        key_position(entries, key) == Some(i),
{
    lemma_key_position(entries, key);
    match key_position(entries, key) {
        Some(p) => {
            if p < i {
                assert(entries[p].0@ == key);
            }
        },
        None => {
            assert(entries[i].0@ == key);
        },
    }
}

/// The first entry of a list takes precedence over the rest of it.
pub proof fn lemma_entries_map_first<V>(entries: Seq<(String, V)>)
    requires
        entries.len() > 0,
    ensures
        entries_map(entries) == entries_map(entries.drop_first()).insert(entries[0].0@, entries[0].1),
{
    let rest = entries.drop_first();
    assert forall|k: Seq<char>| k != entries[0].0@ && key_position(rest, k) is Some implies entries[key_position(
        entries,
        k,
    )->0] == rest[key_position(rest, k)->0] by {
        lemma_key_position(rest, k);
    }
    assert(entries_map(entries) =~= entries_map(rest).insert(entries[0].0@, entries[0].1));
}

/// A key of a map stands in one of its entries.
pub proof fn lemma_key_is_there<V>(map: TextMap<V>, key: Seq<char>)
    requires
        map@.dom().contains(key),
    ensures
        exists|j: int| 0 <= j < map.entries@.len() && (#[trigger] map.entries@[j]).0@ == key,
{
    lemma_key_position(map.entries@, key);
    let p = key_position(map.entries@, key)->0;
    assert(map.entries@[p].0@ == key);
}

impl<V> View for TextMap<V> {
    type V = Map<Seq<char>, V>;

    open spec fn view(&self) -> Map<Seq<char>, V> {
        entries_map(self.entries@)
    }
}

impl<V> TextMap<V> {
    /// A map without entries.
    pub fn new() -> (r: Self)
        ensures
            r@ == Map::<Seq<char>, V>::empty(),
            r.entries@.len() == 0,
    {
        let r = TextMap { entries: Vec::new() };
        assert(r@ =~= Map::<Seq<char>, V>::empty());
        r
    }

    fn find(&self, key: &str) -> (r: Option<usize>)
        ensures
            match r {
                Some(i) => key_position(self.entries@, key@) == Some(i as int) && i
                    < self.entries@.len(),
                None => key_position(self.entries@, key@) is None,
            },
    {
        let mut i: usize = 0;
        while i < self.entries.len()
            invariant
                i <= self.entries@.len(),
                forall|j: int| 0 <= j < i ==> (#[trigger] self.entries@[j]).0@ != key@,
            decreases self.entries@.len() - i,
        {
            if bytes::text_equal(self.entries[i].0.as_str(), key) {
                proof {
                    lemma_key_position_is(self.entries@, key@, i as int);
                }
                return Some(i);
            }
            i += 1;
        }
        proof {
            lemma_key_position(self.entries@, key@);
        }
        None
    }

    /// The value of a key.
    pub fn get(&self, key: &str) -> (r: Option<&V>)
        ensures
            match r {
                Some(v) => self@.dom().contains(key@) && *v == self@[key@],
                None => !self@.dom().contains(key@),
            },
    {
        match self.find(key) {
            Some(i) => Some(&self.entries[i].1),
            None => None,
        }
    }

    /// Whether a key has a value.
    pub fn contains_key(&self, key: &str) -> (r: bool)
        ensures
            r == self@.dom().contains(key@),
    {
        self.find(key).is_some()
    }

    /// Gives a key a value, in place of the one that it had.
    pub fn insert(&mut self, key: String, value: V)
        ensures
            final(self)@ == old(self)@.insert(key@, value),
    {
        let ghost before = self.entries@;
        match self.find(key.as_str()) {
            Some(i) => {
                self.entries.set(i, (key, value));
                proof {
                    assert forall|k: Seq<char>| key_position(self.entries@, k) == key_position(before, k) by {
                        lemma_key_position(before, k);
                        lemma_key_position(before, key@);
                        match key_position(before, k) {
                            Some(p) => lemma_key_position_is(self.entries@, k, p),
                            None => lemma_key_position(self.entries@, k),
                        }
                    }
                    assert(self@ =~= old(self)@.insert(key@, value)) by {
                        lemma_key_position(before, key@);
                        assert forall|k: Seq<char>| old(self)@.dom().contains(k) && k != key@ implies self@[k]
                            == old(self)@[k] by {
                            lemma_key_position(before, k);
                            lemma_key_position(self.entries@, k);
                        }
                    }
                }
            },
            None => {
                self.entries.push((key, value));
                proof {
                    lemma_key_position(before, key@);
                    lemma_key_position_is(self.entries@, key@, before.len() as int);
                    assert forall|k: Seq<char>| k != key@ implies key_position(self.entries@, k) == key_position(
                        before,
                        k,
                    ) by {
                        lemma_key_position(before, k);
                        match key_position(before, k) {
                            Some(p) => lemma_key_position_is(self.entries@, k, p),
                            None => lemma_key_position(self.entries@, k),
                        }
                    }
                    assert(self@ =~= old(self)@.insert(key@, value)) by {
                        assert forall|k: Seq<char>| old(self)@.dom().contains(k) && k != key@ implies self@[k]
                            == old(self)@[k] by {
                            lemma_key_position(before, k);
                        }
                    }
                }
            },
        }
    }

    /// Takes a key out of the map.
    pub fn remove(&mut self, key: &str) -> (r: Option<V>)
        ensures
            final(self)@ == old(self)@.remove(key@),
            match r {
                Some(v) => old(self)@.dom().contains(key@) && v == old(self)@[key@],
                None => !old(self)@.dom().contains(key@),
            },
        decreases old(self).entries@.len(),
    {
        let ghost before = self.entries@;
        match self.find(key) {
            Some(i) => {
                let taken = self.entries.remove(i);
                let ghost between = self.entries@;
                proof {
                    lemma_key_position(before, key@);
                    assert forall|k: Seq<char>| k != key@ implies (key_position(between, k) is Some
                        == key_position(before, k) is Some) && (key_position(before, k) is Some
                        ==> between[key_position(between, k)->0] == before[key_position(before, k)->0]) by {
                        lemma_key_position(before, k);
                        lemma_key_position(between, k);
                        match key_position(before, k) {
                            Some(p) => {
                                let q = if p < i { p } else { p - 1 };
                                assert(between[q] == before[p]);
                                assert forall|j: int| 0 <= j < q implies (#[trigger] between[j]).0@ != k by {
                                    let jj = if j < i { j } else { j + 1 };
                                    assert(between[j] == before[jj]);
                                }
                                lemma_key_position_is(between, k, q);
                            },
                            None => {
                                match key_position(between, k) {
                                    Some(q) => {
                                        let p = if q < i { q } else { q + 1 };
                                        assert(between[q] == before[p]);
                                    },
                                    None => {},
                                }
                            },
                        }
                    }
                }
                let rest = self.remove(key);
                assert(self@ =~= old(self)@.remove(key@));
                Some(taken.1)
            },
            None => {
                assert(self@ =~= old(self)@.remove(key@));
                None
            },
        }
    }
}

impl TextMap<String> {
    /// A fresh map with the same entries.
    pub fn duplicate_texts(&self) -> (r: Self)
        ensures
            r@ == self@,
            r.entries@ == self.entries@,
    {
        let mut entries: Vec<(String, String)> = Vec::new();
        let mut i: usize = 0;
        while i < self.entries.len()
            invariant
                i <= self.entries@.len(),
                entries@ == self.entries@.take(i as int),
            decreases self.entries@.len() - i,
        {
            entries.push((self.entries[i].0.clone(), self.entries[i].1.clone()));
            assert(self.entries@.take(i + 1) =~= self.entries@.take(i as int).push(self.entries@[i as int]));
            i += 1;
        }
        assert(self.entries@.take(i as int) =~= self.entries@);
        TextMap { entries }
    }
}

impl TextMap<u64> {
    /// A fresh map with the same entries.
    pub fn duplicate(&self) -> (r: Self)
        ensures
            r@ == self@,
            r.entries@ == self.entries@,
    {
        let mut entries: Vec<(String, u64)> = Vec::new();
        let mut i: usize = 0;
        while i < self.entries.len()
            invariant
                i <= self.entries@.len(),
                entries@ == self.entries@.take(i as int),
            decreases self.entries@.len() - i,
        {
            entries.push((self.entries[i].0.clone(), self.entries[i].1));
            assert(self.entries@.take(i + 1) =~= self.entries@.take(i as int).push(self.entries@[i as int]));
            i += 1;
        }
        assert(self.entries@.take(i as int) =~= self.entries@);
        TextMap { entries }
    }

    /// Whether every key of this map has the same value in another.
    fn within(&self, other: &Self) -> (r: bool)
        ensures
            r == (forall|k: Seq<char>| #[trigger]
                self@.dom().contains(k) ==> other@.dom().contains(k) && other@[k] == self@[k]),
    {
        let mut i: usize = 0;
        while i < self.entries.len()
            invariant
                i <= self.entries@.len(),
                forall|j: int|
                    0 <= j < i && key_position(self.entries@, (#[trigger] self.entries@[j]).0@) == Some(j)
                        ==> other@.dom().contains(self.entries@[j].0@) && other@[self.entries@[j].0@]
                        == self.entries@[j].1,
            decreases self.entries@.len() - i,
        {
            let ghost key = self.entries@[i as int].0@;
            let first = self.find(self.entries[i].0.as_str());
            let is_first: bool = match first {
                Some(p) => p == i,
                None => false,
            };
            if is_first {
                let same: bool = match other.get(self.entries[i].0.as_str()) {
                    Some(v) => *v == self.entries[i].1,
                    None => false,
                };
                if !same {
                    assert(self@.dom().contains(key));
                    assert(self@[key] == self.entries@[i as int].1);
                    assert(!(other@.dom().contains(key) && other@[key] == self@[key]));
                    return false;
                }
            }
            i += 1;
        }
        assert forall|k: Seq<char>| #[trigger] self@.dom().contains(k) implies other@.dom().contains(k)
            && other@[k] == self@[k] by {
            lemma_key_position(self.entries@, k);
            let p = key_position(self.entries@, k)->0;
            assert(self.entries@[p].0@ == k);
        }
        true
    }

    /// Whether two maps give the same keys the same values.
    pub fn same_as(&self, other: &Self) -> (r: bool)
        ensures
            r == (self@ == other@),
    {
        let r: bool = self.within(other) && other.within(self);
        proof {
            if r {
                assert(self@ =~= other@);
            }
        }
        r
    }
}

} // verus!
