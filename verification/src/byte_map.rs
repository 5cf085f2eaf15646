//! A map whose keys are byte strings.

use vstd::prelude::*;
use crate::bytes;

verus! {

/// Entries in the order in which their keys were first inserted, one for each key.
#[derive(Clone, Debug)]
pub struct ByteMap<V> {
    pub entries: Vec<(Vec<u8>, V)>,
}

/// Whether a key stands at a place.
pub open spec fn is_key_at<V>(entries: Seq<(Vec<u8>, V)>, key: Seq<u8>, i: int) -> bool {
    0 <= i < entries.len() && entries[i].0@ == key
}

/// Whether a list of entries has a key.
pub open spec fn has_key<V>(entries: Seq<(Vec<u8>, V)>, key: Seq<u8>) -> bool {
    exists|i: int| is_key_at(entries, key, i)
}

/// Whether no two entries have the same key.
pub open spec fn has_distinct_keys<V>(entries: Seq<(Vec<u8>, V)>) -> bool {
    forall|i: int, j: int|
        0 <= i < j < entries.len() ==> (#[trigger] entries[i]).0@ != (#[trigger] entries[j]).0@
}

impl<V> View for ByteMap<V> {
    type V = Map<Seq<u8>, V>;

    open spec fn view(&self) -> Map<Seq<u8>, V> {
        Map::new(
            |key: Seq<u8>| has_key(self.entries@, key),
            |key: Seq<u8>| self.entries@[choose|i: int| is_key_at(self.entries@, key, i)].1,
        )
    }
}

/// An entry gives the value of its key.
pub proof fn lemma_entry<V>(map: ByteMap<V>, i: int)
    requires
        map.wf(),
        0 <= i < map.entries@.len(),
    ensures
        map@.dom().contains(map.entries@[i].0@),
        map@[map.entries@[i].0@] == map.entries@[i].1,
{
    let key = map.entries@[i].0@;
    assert(is_key_at(map.entries@, key, i));
    let k = choose|k: int| is_key_at(map.entries@, key, k);
    if k < i {
        assert(map.entries@[k].0@ != map.entries@[i].0@);
    } else if i < k {
        assert(map.entries@[i].0@ != map.entries@[k].0@);
    }
}

impl<V> ByteMap<V> {
    /// No two entries have the same key.
    pub open spec fn wf(self) -> bool {
        has_distinct_keys(self.entries@)
    }

    /// A map without entries.
    pub fn new() -> (r: Self)
        ensures
            r.wf(),
            r@ == Map::<Seq<u8>, V>::empty(),
            r.entries@.len() == 0,
    {
        let r = ByteMap { entries: Vec::new() };
        assert(r@ =~= Map::<Seq<u8>, V>::empty());
        r
    }

    fn find(&self, key: &[u8]) -> (r: Option<usize>)
        ensures
            match r {
                Some(i) => is_key_at(self.entries@, key@, i as int),
                None => !has_key(self.entries@, key@),
            },
    {
        let mut i: usize = 0;
        while i < self.entries.len()
            invariant
                i <= self.entries@.len(),
                forall|j: int| 0 <= j < i ==> !is_key_at(self.entries@, key@, j),
            decreases self.entries@.len() - i,
        {
            if bytes::bytes_equal(self.entries[i].0.as_slice(), key) {
                return Some(i);
            }
            i += 1;
        }
        None
    }

    /// How many keys have values.
    pub fn len(&self) -> (r: usize)
        ensures
            r == self.entries@.len(),
    {
        self.entries.len()
    }

    /// The value of a key.
    pub fn get(&self, key: &[u8]) -> (r: Option<&V>)
        requires
            self.wf(),
        ensures
            match r {
                Some(v) => self@.dom().contains(key@) && *v == self@[key@],
                None => !self@.dom().contains(key@),
            },
    {
        match self.find(key) {
            Some(i) => {
                proof {
                    lemma_entry(*self, i as int);
                }
                Some(&self.entries[i].1)
            },
            None => None,
        }
    }

    /// Whether a key has a value.
    pub fn contains_key(&self, key: &[u8]) -> (r: bool)
        ensures
            r == self@.dom().contains(key@),
    {
        match self.find(key) {
            Some(i) => {
                assert(has_key(self.entries@, key@));
                true
            },
            None => false,
        }
    }

    /// Gives a key a value, in place of the one that it had.
    pub fn insert(&mut self, key: Vec<u8>, value: V)
        requires
            old(self).wf(),
        ensures
            final(self).wf(),
            final(self)@ == old(self)@.insert(key@, value),
    {
        let ghost before = *self;
        match self.find(key.as_slice()) {
            Some(i) => {
                self.entries.set(i, (key, value));
                proof {
                    lemma_replaced(before, *self, i as int);
                }
            },
            None => {
                self.entries.push((key, value));
                proof {
                    assert(self.entries@.drop_last() =~= before.entries@);
                    lemma_added(before, *self);
                }
            },
        }
    }
}

proof fn lemma_replaced<V>(before: ByteMap<V>, after: ByteMap<V>, at: int)
    requires
        before.wf(),
        0 <= at < before.entries@.len(),
        after.entries@.len() == before.entries@.len(),
        after.entries@[at].0@ == before.entries@[at].0@,
        forall|i: int| 0 <= i < before.entries@.len() && i != at ==> after.entries@[i] == before.entries@[i],
    ensures
        after.wf(),
        after@ == before@.insert(after.entries@[at].0@, after.entries@[at].1),
{
    let key = after.entries@[at].0@;
    assert forall|i: int, j: int| 0 <= i < j < after.entries@.len() implies (#[trigger] after.entries@[i]).0@ != (
    #[trigger] after.entries@[j]).0@ by {
        assert(before.entries@[i].0@ != before.entries@[j].0@);
    }
    assert forall|k: Seq<u8>| has_key(after.entries@, k) == has_key(before.entries@, k) by {
        if has_key(before.entries@, k) {
            let i = choose|i: int| is_key_at(before.entries@, k, i);
            assert(is_key_at(after.entries@, k, i));
        }
        if has_key(after.entries@, k) {
            let i = choose|i: int| is_key_at(after.entries@, k, i);
            assert(is_key_at(before.entries@, k, i));
        }
    }
    assert(is_key_at(after.entries@, key, at));
    assert forall|k: Seq<u8>| has_key(after.entries@, k) implies after@[k] == (if k == key {
        after.entries@[at].1
    } else {
        before@[k]
    }) by {
        let i = choose|i: int| is_key_at(after.entries@, k, i);
        lemma_entry(after, i);
        lemma_entry(after, at);
        lemma_entry(before, i);
    }
    assert(after@ =~= before@.insert(key, after.entries@[at].1));
}

proof fn lemma_added<V>(before: ByteMap<V>, after: ByteMap<V>)
    requires
        before.wf(),
        after.entries@.len() == before.entries@.len() + 1,
        after.entries@.drop_last() == before.entries@,
        !has_key(before.entries@, after.entries@.last().0@),
    ensures
        after.wf(),
        after@ == before@.insert(after.entries@.last().0@, after.entries@.last().1),
{
    let n = before.entries@.len() as int;
    let key = after.entries@[n].0@;
    assert forall|i: int| 0 <= i < n implies after.entries@[i] == before.entries@[i] by {
        assert(after.entries@.drop_last()[i] == after.entries@[i]);
    }
    assert forall|i: int, j: int| 0 <= i < j < after.entries@.len() implies (#[trigger] after.entries@[i]).0@ != (
    #[trigger] after.entries@[j]).0@ by {
        if j < n {
            assert(before.entries@[i].0@ != before.entries@[j].0@);
        } else {
            assert(!is_key_at(before.entries@, key, i));
        }
    }
    assert(is_key_at(after.entries@, key, n));
    assert forall|k: Seq<u8>| has_key(after.entries@, k) == (k == key || has_key(before.entries@, k)) by {
        if has_key(before.entries@, k) {
            let i = choose|i: int| is_key_at(before.entries@, k, i);
            assert(is_key_at(after.entries@, k, i));
        }
        if has_key(after.entries@, k) && k != key {
            let i = choose|i: int| is_key_at(after.entries@, k, i);
            assert(is_key_at(before.entries@, k, i));
        }
    }
    assert forall|k: Seq<u8>| has_key(after.entries@, k) implies after@[k] == (if k == key {
        after.entries@[n].1
    } else {
        before@[k]
    }) by {
        let i = choose|i: int| is_key_at(after.entries@, k, i);
        lemma_entry(after, i);
        lemma_entry(after, n);
        if i < n {
            lemma_entry(before, i);
        }
    }
    assert(after@ =~= before@.insert(key, after.entries@[n].1));
}

} // verus!
