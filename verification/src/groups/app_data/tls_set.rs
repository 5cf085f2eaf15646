//! Sets of inbox ids and changes to such sets, with their form on the wire.
//!
//! A set is written as its keys, one after the other, behind their length in bytes. A change is
//! written as its mutations, each a tag and a key, behind their length in bytes.

use vstd::prelude::*;
use crate::bytes;
use crate::codec;
use crate::codec::TlsCodecError;
use crate::crypto;

verus! {

/// Length in raw bytes of an inbox id.
pub const INBOX_ID_BYTE_LEN: usize = 32;

/// A set of inbox ids, in the order in which they were inserted.
pub struct TlsSet {
    pub keys: Vec<[u8; 32]>,
}

/// One change to a set.
#[derive(Clone, Copy, Debug)]
pub enum TlsSetMutation {
    Insert([u8; 32]),
    Remove([u8; 32]),
    /// Takes out the key whose SHA-256 digest this is.
    RemoveByHash([u8; 32]),
}

/// Changes to a set, in order.
#[derive(Debug)]
pub struct TlsSetDelta {
    pub mutations: Vec<TlsSetMutation>,
}

/// Why a set refuses a change. A set of inbox ids takes every change.
#[derive(Debug)]
pub enum TlsSetError {
    Rejected,
}

/// One change as a mathematical value.
#[verifier::ext_equal]
pub enum MutationView {
    Insert(Seq<u8>),
    Remove(Seq<u8>),
    RemoveByHash(Seq<u8>),
}

impl View for TlsSetMutation {
    type V = MutationView;

    open spec fn view(&self) -> MutationView {
        match *self {
            TlsSetMutation::Insert(k) => MutationView::Insert(k@),
            TlsSetMutation::Remove(k) => MutationView::Remove(k@),
            TlsSetMutation::RemoveByHash(h) => MutationView::RemoveByHash(h@),
        }
    }
}

impl View for TlsSetDelta {
    type V = Seq<MutationView>;

    open spec fn view(&self) -> Seq<MutationView> {
        self.mutations@.map_values(|m: TlsSetMutation| m@)
    }
}

impl View for TlsSet {
    type V = Seq<Seq<u8>>;

    open spec fn view(&self) -> Seq<Seq<u8>> {
        self.keys@.map_values(|k: [u8; 32]| k@)
    }
}

/// A set with a key put in.
pub open spec fn inserted(set: Seq<Seq<u8>>, key: Seq<u8>) -> Seq<Seq<u8>> {
    if set.contains(key) {
        set
    } else {
        set.push(key)
    }
}

/// A set with a key taken out.
pub open spec fn removed(set: Seq<Seq<u8>>, key: Seq<u8>) -> Seq<Seq<u8>> {
    set.filter(|k: Seq<u8>| k != key)
}

/// A set with the key of a digest taken out.
pub open spec fn removed_by_hash(set: Seq<Seq<u8>>, hash: Seq<u8>) -> Seq<Seq<u8>> {
    set.filter(|k: Seq<u8>| crypto::sha256_digest(k) != hash)
}

/// A set after one change.
pub open spec fn changed(set: Seq<Seq<u8>>, m: MutationView) -> Seq<Seq<u8>> {
    match m {
        MutationView::Insert(k) => inserted(set, k),
        MutationView::Remove(k) => removed(set, k),
        MutationView::RemoveByHash(h) => removed_by_hash(set, h),
    }
}

/// A set after changes, in order.
pub open spec fn changed_by(set: Seq<Seq<u8>>, delta: Seq<MutationView>) -> Seq<Seq<u8>>
    decreases delta.len(),
{
    if delta.len() == 0 {
        set
    } else {
        changed(changed_by(set, delta.drop_last()), delta.last())
    }
}

/// The set of the keys of a list.
pub open spec fn collected(keys: Seq<Seq<u8>>) -> Seq<Seq<u8>>
    decreases keys.len(),
{
    if keys.len() == 0 {
        seq![]
    } else {
        inserted(collected(keys.drop_last()), keys.last())
    }
}

/// Keys one after the other.
pub open spec fn keys_bytes(keys: Seq<Seq<u8>>) -> Seq<u8>
    decreases keys.len(),
{
    if keys.len() == 0 {
        seq![]
    } else {
        keys[0] + keys_bytes(keys.drop_first())
    }
}

/// The keys that stand in a byte string one after the other.
pub open spec fn parsed_keys(b: Seq<u8>) -> Result<Seq<Seq<u8>>, TlsCodecError>
    decreases b.len(),
{
    if b.len() == 0 {
        Ok(seq![])
    } else if b.len() < 32 {
        Err(TlsCodecError::EndOfStream)
    } else {
        match parsed_keys(b.skip(32)) {
            Ok(rest) => Ok(seq![b.take(32)] + rest),
            Err(e) => Err(e),
        }
    }
}

/// One change on the wire.
pub open spec fn mutation_bytes(m: MutationView) -> Seq<u8> {
    match m {
        MutationView::Insert(k) => seq![0u8] + k,
        MutationView::Remove(k) => seq![1u8] + k,
        MutationView::RemoveByHash(h) => seq![2u8] + h,
    }
}

/// The key or digest of a change.
pub open spec fn mutation_key(m: MutationView) -> Seq<u8> {
    match m {
        MutationView::Insert(k) => k,
        MutationView::Remove(k) => k,
        MutationView::RemoveByHash(h) => h,
    }
}

/// Changes one after the other.
pub open spec fn mutations_bytes(delta: Seq<MutationView>) -> Seq<u8>
    decreases delta.len(),
{
    if delta.len() == 0 {
        seq![]
    } else {
        mutation_bytes(delta[0]) + mutations_bytes(delta.drop_first())
    }
}

/// The change that a tag and a key stand for.
pub open spec fn tagged(tag: u8, key: Seq<u8>) -> MutationView {
    if tag == 0 {
        MutationView::Insert(key)
    } else if tag == 1 {
        MutationView::Remove(key)
    } else {
        MutationView::RemoveByHash(key)
    }
}

/// The changes that stand in a byte string one after the other.
pub open spec fn parsed_mutations(b: Seq<u8>) -> Result<Seq<MutationView>, TlsCodecError>
    decreases b.len(),
{
    if b.len() == 0 {
        Ok(seq![])
    } else if b[0] > 2 {
        Err(TlsCodecError::UnknownValue(b[0] as u64))
    } else if b.len() < 33 {
        Err(TlsCodecError::EndOfStream)
    } else {
        match parsed_mutations(b.skip(33)) {
            Ok(rest) => Ok(seq![tagged(b[0], b.subrange(1, 33))] + rest),
            Err(e) => Err(e),
        }
    }
}

/// A set on the wire.
pub open spec fn set_bytes(set: Seq<Seq<u8>>) -> Seq<u8> {
    codec::with_length(keys_bytes(set))
}

/// The set that bytes on the wire stand for.
pub open spec fn read_set(b: Seq<u8>) -> Result<Seq<Seq<u8>>, TlsCodecError> {
    match codec::content_of(b) {
        Ok(content) => match parsed_keys(content) {
            Ok(keys) => Ok(collected(keys)),
            Err(e) => Err(e),
        },
        Err(e) => Err(e),
    }
}

/// Changes on the wire.
pub open spec fn delta_bytes(delta: Seq<MutationView>) -> Seq<u8> {
    codec::with_length(mutations_bytes(delta))
}

/// The changes that bytes on the wire stand for.
pub open spec fn read_delta(b: Seq<u8>) -> Result<Seq<MutationView>, TlsCodecError> {
    match codec::content_of(b) {
        Ok(content) => parsed_mutations(content),
        Err(e) => Err(e),
    }
}

/// Whether every key of a list has the length of an inbox id.
pub open spec fn all_keys(keys: Seq<Seq<u8>>) -> bool {
    forall|i: int| 0 <= i < keys.len() ==> (#[trigger] keys[i]).len() == 32
}

/// Whether the key of every change has the length of an inbox id.
pub open spec fn all_mutations(delta: Seq<MutationView>) -> bool {
    forall|i: int| 0 <= i < delta.len() ==> mutation_key(#[trigger] delta[i]).len() == 32
}

proof fn lemma_keys_bytes_push(keys: Seq<Seq<u8>>, key: Seq<u8>)
    ensures
        keys_bytes(keys.push(key)) == keys_bytes(keys) + key,
    decreases keys.len(),
{
    if keys.len() == 0 {
        assert(keys.push(key).drop_first() =~= Seq::<Seq<u8>>::empty());
        reveal_with_fuel(keys_bytes, 2);
        assert(keys_bytes(keys.push(key)) =~= key);
        assert(keys_bytes(keys) + key =~= key);
    } else {
        assert(keys.push(key).drop_first() =~= keys.drop_first().push(key));
        lemma_keys_bytes_push(keys.drop_first(), key);
        assert(keys_bytes(keys.push(key)) =~= keys_bytes(keys) + key);
    }
}

proof fn lemma_mutations_bytes_push(delta: Seq<MutationView>, m: MutationView)
    ensures
        mutations_bytes(delta.push(m)) == mutations_bytes(delta) + mutation_bytes(m),
    decreases delta.len(),
{
    if delta.len() == 0 {
        assert(delta.push(m).drop_first() =~= Seq::<MutationView>::empty());
        reveal_with_fuel(mutations_bytes, 2);
        assert(mutations_bytes(delta.push(m)) =~= mutation_bytes(m));
        assert(mutations_bytes(delta) + mutation_bytes(m) =~= mutation_bytes(m));
    } else {
        assert(delta.push(m).drop_first() =~= delta.drop_first().push(m));
        lemma_mutations_bytes_push(delta.drop_first(), m);
        assert(mutations_bytes(delta.push(m)) =~= mutations_bytes(delta) + mutation_bytes(m));
    }
}

/// Keys that were written one after the other are read back as they were.
pub proof fn keys_round_trip(keys: Seq<Seq<u8>>)
    requires
        all_keys(keys),
    ensures
        parsed_keys(keys_bytes(keys)) == Ok::<_, TlsCodecError>(keys),
        keys_bytes(keys).len() == 32 * keys.len(),
    decreases keys.len(),
{
    if keys.len() == 0 {
        assert(parsed_keys(keys_bytes(keys))->Ok_0 =~= keys);
    } else {
        let rest = keys.drop_first();
        assert forall|i: int| 0 <= i < rest.len() implies (#[trigger] rest[i]).len() == 32 by {
            assert(rest[i] == keys[i + 1]);
        }
        keys_round_trip(rest);
        let b = keys_bytes(keys);
        assert(keys[0].len() == 32);
        assert(b.take(32) =~= keys[0]);
        assert(b.skip(32) =~= keys_bytes(rest));
        assert(seq![keys[0]] + rest =~= keys);
    }
}

/// Changes that were written one after the other are read back as they were.
pub proof fn mutations_round_trip(delta: Seq<MutationView>)
    requires
        all_mutations(delta),
    ensures
        parsed_mutations(mutations_bytes(delta)) == Ok::<_, TlsCodecError>(delta),
        mutations_bytes(delta).len() == 33 * delta.len(),
    decreases delta.len(),
{
    if delta.len() == 0 {
        assert(parsed_mutations(mutations_bytes(delta))->Ok_0 =~= delta);
    } else {
        let rest = delta.drop_first();
        assert forall|i: int| 0 <= i < rest.len() implies mutation_key(#[trigger] rest[i]).len() == 32 by {
            assert(rest[i] == delta[i + 1]);
        }
        mutations_round_trip(rest);
        let b = mutations_bytes(delta);
        assert(mutation_key(delta[0]).len() == 32);
        assert(b.subrange(1, 33) =~= mutation_key(delta[0]));
        assert(b.skip(33) =~= mutations_bytes(rest));
        assert(tagged(b[0], mutation_key(delta[0])) == delta[0]);
        assert(seq![delta[0]] + rest =~= delta);
    }
}

proof fn lemma_collected_distinct(keys: Seq<Seq<u8>>)
    requires
        keys.no_duplicates(),
    ensures
        collected(keys) == keys,
    decreases keys.len(),
{
    if keys.len() > 0 {
        let init = keys.drop_last();
        assert(init.no_duplicates());
        lemma_collected_distinct(init);
        assert(!init.contains(keys.last()));
        assert(init.push(keys.last()) =~= keys);
    } else {
        assert(collected(keys) =~= keys);
    }
}

/// A set that was written is read back as it was.
pub proof fn set_round_trip(set: Seq<Seq<u8>>)
    requires
        all_keys(set),
        set.no_duplicates(),
        32 * set.len() <= codec::MAX_VECTOR_LENGTH,
    ensures
        read_set(set_bytes(set)) == Ok::<_, TlsCodecError>(set),
{
    keys_round_trip(set);
    codec::length_round_trip(keys_bytes(set));
    lemma_collected_distinct(set);
}

/// What is read is a set: its keys are inbox ids, and none stands in it twice.
pub proof fn read_sets_are_sets(b: Seq<u8>)
    ensures
        read_set(b) matches Ok(set) ==> all_keys(set) && set.no_duplicates(),
{
    if let Ok(content) = codec::content_of(b) {
        lemma_parsed_keys(content);
        if let Ok(keys) = parsed_keys(content) {
            lemma_collected_is_set(keys);
        }
    }
}

proof fn lemma_parsed_keys(b: Seq<u8>)
    ensures
        parsed_keys(b) matches Ok(keys) ==> all_keys(keys),
    decreases b.len(),
{
    if b.len() >= 32 {
        lemma_parsed_keys(b.skip(32));
    }
}

proof fn lemma_collected_is_set(keys: Seq<Seq<u8>>)
    requires
        all_keys(keys),
    ensures
        all_keys(collected(keys)),
        collected(keys).no_duplicates(),
    decreases keys.len(),
{
    if keys.len() > 0 {
        assert(all_keys(keys.drop_last()));
        lemma_collected_is_set(keys.drop_last());
        assert(keys[keys.len() - 1].len() == 32);
    }
}

/// Changes that were written are read back as they were.
pub proof fn delta_round_trip(delta: Seq<MutationView>)
    requires
        all_mutations(delta),
        33 * delta.len() <= codec::MAX_VECTOR_LENGTH,
    ensures
        read_delta(delta_bytes(delta)) == Ok::<_, TlsCodecError>(delta),
{
    mutations_round_trip(delta);
    codec::length_round_trip(mutations_bytes(delta));
}

/// An inserted key belongs to the set; all other keys belong to it as before.
pub proof fn insert_adds_only(set: Seq<Seq<u8>>, key: Seq<u8>, other: Seq<u8>)
    ensures
        inserted(set, key).contains(key),
        other != key ==> inserted(set, key).contains(other) == set.contains(other),
        set.no_duplicates() ==> inserted(set, key).no_duplicates(),
{
    let out = inserted(set, key);
    if !set.contains(key) {
        assert(out[set.len() as int] == key);
        if set.contains(other) {
            let i = choose|i: int| 0 <= i < set.len() && set[i] == other;
            assert(out[i] == other);
        }
    }
}

/// A removed key no longer belongs to the set; all other keys belong to it as before.
pub proof fn remove_drops_only(set: Seq<Seq<u8>>, key: Seq<u8>, other: Seq<u8>)
    ensures
        !removed(set, key).contains(key),
        other != key ==> removed(set, key).contains(other) == set.contains(other),
        set.no_duplicates() ==> removed(set, key).no_duplicates(),
    decreases set.len(),
{
    reveal(Seq::filter);
    if set.len() > 0 {
        let init = set.drop_last();
        let last = set.last();
        remove_drops_only(init, key, other);
        let out = removed(set, key);
        let out_init = removed(init, key);
        assert(out == if last != key { out_init.push(last) } else { out_init });
        assert(set =~= init.push(last));
        if set.no_duplicates() {
            assert(init.no_duplicates());
            assert(!init.contains(last));
            remove_drops_only(init, key, last);
        }
        if set.contains(other) {
            let i = choose|i: int| 0 <= i < set.len() && set[i] == other;
            if i < init.len() {
                assert(init[i] == other);
            }
            if other != key {
                if init.contains(other) {
                    let j = choose|j: int| 0 <= j < out_init.len() && out_init[j] == other;
                    assert(out[j] == other);
                } else {
                    assert(out[out_init.len() as int] == other);
                }
            }
        }
        if out.contains(other) {
            let j = choose|j: int| 0 <= j < out.len() && out[j] == other;
            if j < out_init.len() {
                assert(out_init[j] == other);
                if other != key {
                    let i = choose|i: int| 0 <= i < init.len() && init[i] == other;
                    assert(set[i] == other);
                }
            } else {
                assert(set[init.len() as int] == other);
            }
        }
        if out.contains(key) {
            let j = choose|j: int| 0 <= j < out.len() && out[j] == key;
            if j < out_init.len() {
                assert(out_init[j] == key);
            }
        }
    } else {
        assert(removed(set, key) =~= set);
    }
}

fn key_at(content: &Vec<u8>, at: usize) -> (key: [u8; 32])
    requires
        at + 32 <= content@.len(),
    ensures
        key@ == content@.subrange(at as int, at + 32),
{
    let mut key: [u8; 32] = [0u8; 32];
    let mut i: usize = 0;
    while i < 32
        invariant
            i <= 32,
            at + 32 <= content.len(),
            forall|j: int| 0 <= j < i ==> key@[j] == content@[at + j],
        decreases 32 - i,
    {
        key[i] = content[at + i];
        i += 1;
    }
    assert(key@ =~= content@.subrange(at as int, at + 32));
    key
}

fn push_key(out: &mut Vec<u8>, key: &[u8; 32])
    ensures
        final(out)@ == old(out)@ + key@,
{
    out.extend_from_slice(key.as_slice());
    assert(out@ =~= old(out)@ + key@);
}

impl TlsSet {
    /// The empty set.
    pub fn new() -> (r: Self)
        ensures
            r@ == Seq::<Seq<u8>>::empty(),
    {
        let r = TlsSet { keys: Vec::new() };
        assert(r@ =~= Seq::<Seq<u8>>::empty());
        r
    }

    /// How many keys the set has.
    pub fn len(&self) -> (r: usize)
        ensures
            r == self@.len(),
    {
        self.keys.len()
    }

    /// Whether the set has a key.
    pub fn contains(&self, key: &[u8; 32]) -> (r: bool)
        ensures
            r == self@.contains(key@),
    {
        let mut i: usize = 0;
        while i < self.keys.len()
            invariant
                i <= self.keys@.len(),
                forall|j: int| 0 <= j < i ==> self@[j] != key@,
            decreases self.keys@.len() - i,
        {
            if bytes::bytes_equal(self.keys[i].as_slice(), key.as_slice()) {
                assert(self@[i as int] == key@);
                return true;
            }
            i += 1;
        }
        false
    }

    /// Puts a key in.
    pub fn insert(&mut self, key: [u8; 32])
        ensures
            final(self)@ == inserted(old(self)@, key@),
    {
        if !self.contains(&key) {
            self.keys.push(key);
            assert(self@ =~= old(self)@.push(key@));
        }
    }

    /// Takes a key out.
    pub fn remove(&mut self, key: &[u8; 32])
        ensures
            final(self)@ == removed(old(self)@, key@),
    {
        let ghost before = self@;
        let ghost p = |k: Seq<u8>| k != key@;
        let mut kept: Vec<[u8; 32]> = Vec::new();
        let mut i: usize = 0;
        proof {
            reveal(Seq::filter);
            assert(before.take(0) =~= Seq::<Seq<u8>>::empty());
            assert(kept@.map_values(|k: [u8; 32]| k@) =~= before.take(0).filter(p));
        }
        while i < self.keys.len()
            invariant
                i <= self.keys@.len(),
                before == self@,
                p == (|k: Seq<u8>| k != key@),
                kept@.map_values(|k: [u8; 32]| k@) == before.take(i as int).filter(p),
            decreases self.keys@.len() - i,
        {
            let k = self.keys[i];
            let ghost done = kept@;
            let drop: bool = bytes::bytes_equal(k.as_slice(), key.as_slice());
            if !drop {
                kept.push(k);
            }
            proof {
                reveal(Seq::filter);
                assert(before[i as int] == k@);
                assert(before.take(i + 1).drop_last() =~= before.take(i as int));
                assert(before.take(i + 1).last() == k@);
                if !drop {
                    assert(kept@.map_values(|k: [u8; 32]| k@) =~= done.map_values(|k: [u8; 32]| k@).push(k@));
                }
            }
            i += 1;
        }
        assert(before.take(i as int) =~= before);
        self.keys = kept;
    }

    /// Takes the key of a digest out.
    pub fn remove_by_hash(&mut self, hash: &[u8; 32])
        ensures
            final(self)@ == removed_by_hash(old(self)@, hash@),
    {
        let ghost before = self@;
        let ghost p = |k: Seq<u8>| crypto::sha256_digest(k) != hash@;
        let mut kept: Vec<[u8; 32]> = Vec::new();
        let mut i: usize = 0;
        proof {
            reveal(Seq::filter);
            assert(before.take(0) =~= Seq::<Seq<u8>>::empty());
            assert(kept@.map_values(|k: [u8; 32]| k@) =~= before.take(0).filter(p));
        }
        while i < self.keys.len()
            invariant
                i <= self.keys@.len(),
                before == self@,
                p == (|k: Seq<u8>| crypto::sha256_digest(k) != hash@),
                kept@.map_values(|k: [u8; 32]| k@) == before.take(i as int).filter(p),
            decreases self.keys@.len() - i,
        {
            let k = self.keys[i];
            let ghost done = kept@;
            let digest = crypto::sha256(k.as_slice());
            let drop: bool = bytes::bytes_equal(digest.as_slice(), hash.as_slice());
            if !drop {
                kept.push(k);
            }
            proof {
                reveal(Seq::filter);
                assert(before[i as int] == k@);
                assert(before.take(i + 1).drop_last() =~= before.take(i as int));
                assert(before.take(i + 1).last() == k@);
                if !drop {
                    assert(kept@.map_values(|k: [u8; 32]| k@) =~= done.map_values(|k: [u8; 32]| k@).push(k@));
                }
            }
            i += 1;
        }
        assert(before.take(i as int) =~= before);
        self.keys = kept;
    }

    /// Applies changes in order.
    pub fn apply_delta(&mut self, delta: &TlsSetDelta)
        ensures
            final(self)@ == changed_by(old(self)@, delta@),
    {
        let ghost before = self@;
        let mut i: usize = 0;
        assert(delta@.take(0) =~= Seq::<MutationView>::empty());
        while i < delta.mutations.len()
            invariant
                i <= delta.mutations@.len(),
                self@ == changed_by(before, delta@.take(i as int)),
            decreases delta.mutations@.len() - i,
        {
            assert(delta@.take(i + 1).drop_last() =~= delta@.take(i as int));
            assert(delta@.take(i + 1).last() == delta.mutations@[i as int]@);
            match delta.mutations[i] {
                TlsSetMutation::Insert(key) => self.insert(key),
                TlsSetMutation::Remove(key) => self.remove(&key),
                TlsSetMutation::RemoveByHash(hash) => self.remove_by_hash(&hash),
            }
            i += 1;
        }
        assert(delta@.take(i as int) =~= delta@);
    }

    /// The set of the keys of a list.
    pub fn from_keys(keys: &Vec<[u8; 32]>) -> (r: TlsSet)
        ensures
            r@ == collected(keys@.map_values(|k: [u8; 32]| k@)),
    {
        let ghost all = keys@.map_values(|k: [u8; 32]| k@);
        let mut set = TlsSet::new();
        let mut i: usize = 0;
        assert(all.take(0) =~= Seq::<Seq<u8>>::empty());
        while i < keys.len()
            invariant
                i <= keys@.len(),
                all == keys@.map_values(|k: [u8; 32]| k@),
                set@ == collected(all.take(i as int)),
            decreases keys@.len() - i,
        {
            assert(all.take(i + 1).drop_last() =~= all.take(i as int));
            assert(all.take(i + 1).last() == keys@[i as int]@);
            set.insert(keys[i]);
            i += 1;
        }
        assert(all.take(i as int) =~= all);
        set
    }

    /// The set on the wire. It is refused only if its length cannot be announced.
    pub fn tls_serialize_detached(&self) -> (r: Result<Vec<u8>, TlsCodecError>)
        ensures
            match r {
                Ok(b) => b@ == set_bytes(self@) && 32 * self@.len() <= codec::MAX_VECTOR_LENGTH,
                Err(e) => e == TlsCodecError::InvalidVectorLength && 32 * self@.len()
                    > codec::MAX_VECTOR_LENGTH,
            },
    {
        proof {
            assert(all_keys(self@)) by {
                assert forall|i: int| 0 <= i < self@.len() implies (#[trigger] self@[i]).len() == 32 by {
                    assert(self@[i] == self.keys@[i]@);
                }
            }
            keys_round_trip(self@);
        }
        if self.keys.len() as u64 > codec::MAX_VECTOR_LENGTH / 32 {
            return Err(TlsCodecError::InvalidVectorLength);
        }
        let mut content: Vec<u8> = Vec::new();
        let mut i: usize = 0;
        assert(self@.take(0) =~= Seq::<Seq<u8>>::empty());
        while i < self.keys.len()
            invariant
                i <= self.keys@.len(),
                content@ == keys_bytes(self@.take(i as int)),
            decreases self.keys@.len() - i,
        {
            push_key(&mut content, &self.keys[i]);
            proof {
                lemma_keys_bytes_push(self@.take(i as int), self@[i as int]);
                assert(self@.take(i + 1) =~= self@.take(i as int).push(self@[i as int]));
            }
            i += 1;
        }
        assert(self@.take(i as int) =~= self@);
        match codec::write_with_length(&content) {
            Some(b) => Ok(b),
            None => Err(TlsCodecError::LibraryError),
        }
    }

    /// The set that bytes on the wire stand for.
    pub fn tls_deserialize_exact(b: &[u8]) -> (r: Result<TlsSet, TlsCodecError>)
        ensures
            codec::length_fits_word(b@) ==> match r {
                Ok(set) => read_set(b@) == Ok::<_, TlsCodecError>(set@),
                Err(e) => read_set(b@) == Err::<Seq<Seq<u8>>, _>(e),
            },
    {
        let content = match codec::read_with_length(b) {
            Ok(content) => content,
            Err(e) => return Err(e),
        };
        let mut keys: Vec<[u8; 32]> = Vec::new();
        let mut at: usize = 0;
        assert(content@.skip(0) =~= content@);
        assert(keys@.map_values(|k: [u8; 32]| k@) =~= Seq::<Seq<u8>>::empty());
        while at < content.len()
            invariant
                at <= content@.len(),
                codec::length_fits_word(b@) ==> codec::content_of(b@) == Ok::<_, TlsCodecError>(content@),
                parsed_keys(content@) == (match parsed_keys(content@.skip(at as int)) {
                    Ok(rest) => Ok::<_, TlsCodecError>(keys@.map_values(|k: [u8; 32]| k@) + rest),
                    Err(e) => Err(e),
                }),
            decreases content@.len() - at,
        {
            if content.len() - at < 32 {
                return Err(TlsCodecError::EndOfStream);
            }
            let key = key_at(&content, at);
            let ghost done = keys@.map_values(|k: [u8; 32]| k@);
            keys.push(key);
            proof {
                let b = content@.skip(at as int);
                assert(b.take(32) =~= key@);
                assert(b.skip(32) =~= content@.skip(at + 32));
                let now = keys@.map_values(|k: [u8; 32]| k@);
                assert(now =~= done.push(key@));
                match parsed_keys(content@.skip(at + 32)) {
                    Ok(rest) => {
                        assert(done + (seq![key@] + rest) =~= now + rest);
                    },
                    Err(e) => {},
                }
            }
            at += 32;
        }
        proof {
            assert(content@.skip(at as int) =~= Seq::<u8>::empty());
            let now = keys@.map_values(|k: [u8; 32]| k@);
            assert(now + Seq::<Seq<u8>>::empty() =~= now);
        }
        Ok(TlsSet::from_keys(&keys))
    }
}

impl TlsSetDelta {
    /// The changes on the wire. They are refused only if their length cannot be announced.
    pub fn tls_serialize_detached(&self) -> (r: Result<Vec<u8>, TlsCodecError>)
        ensures
            match r {
                Ok(b) => b@ == delta_bytes(self@) && 33 * self@.len() <= codec::MAX_VECTOR_LENGTH,
                Err(e) => e == TlsCodecError::InvalidVectorLength && 33 * self@.len()
                    > codec::MAX_VECTOR_LENGTH,
            },
    {
        proof {
            assert(all_mutations(self@)) by {
                assert forall|i: int| 0 <= i < self@.len() implies mutation_key(#[trigger] self@[i]).len()
                    == 32 by {
                    assert(self@[i] == self.mutations@[i]@);
                }
            }
            mutations_round_trip(self@);
        }
        if self.mutations.len() as u64 > codec::MAX_VECTOR_LENGTH / 33 {
            return Err(TlsCodecError::InvalidVectorLength);
        }
        let mut content: Vec<u8> = Vec::new();
        let mut i: usize = 0;
        assert(self@.take(0) =~= Seq::<MutationView>::empty());
        while i < self.mutations.len()
            invariant
                i <= self.mutations@.len(),
                content@ == mutations_bytes(self@.take(i as int)),
            decreases self.mutations@.len() - i,
        {
            let ghost before = content@;
            match &self.mutations[i] {
                TlsSetMutation::Insert(key) => {
                    content.push(0);
                    push_key(&mut content, key);
                },
                TlsSetMutation::Remove(key) => {
                    content.push(1);
                    push_key(&mut content, key);
                },
                TlsSetMutation::RemoveByHash(hash) => {
                    content.push(2);
                    push_key(&mut content, hash);
                },
            }
            proof {
                let m = self@[i as int];
                assert(content@ =~= before + mutation_bytes(m));
                lemma_mutations_bytes_push(self@.take(i as int), m);
                assert(self@.take(i + 1) =~= self@.take(i as int).push(m));
            }
            i += 1;
        }
        assert(self@.take(i as int) =~= self@);
        match codec::write_with_length(&content) {
            Some(b) => Ok(b),
            None => Err(TlsCodecError::LibraryError),
        }
    }

    /// The changes that bytes on the wire stand for.
    pub fn tls_deserialize_exact(b: &[u8]) -> (r: Result<TlsSetDelta, TlsCodecError>)
        ensures
            codec::length_fits_word(b@) ==> match r {
                Ok(delta) => read_delta(b@) == Ok::<_, TlsCodecError>(delta@),
                Err(e) => read_delta(b@) == Err::<Seq<MutationView>, _>(e),
            },
    {
        let content = match codec::read_with_length(b) {
            Ok(content) => content,
            Err(e) => return Err(e),
        };
        let mut mutations: Vec<TlsSetMutation> = Vec::new();
        let mut at: usize = 0;
        assert(content@.skip(0) =~= content@);
        assert(mutations@.map_values(|m: TlsSetMutation| m@) =~= Seq::<MutationView>::empty());
        while at < content.len()
            invariant
                at <= content@.len(),
                codec::length_fits_word(b@) ==> codec::content_of(b@) == Ok::<_, TlsCodecError>(content@),
                parsed_mutations(content@) == (match parsed_mutations(content@.skip(at as int)) {
                    Ok(rest) => Ok::<_, TlsCodecError>(mutations@.map_values(|m: TlsSetMutation| m@) + rest),
                    Err(e) => Err(e),
                }),
            decreases content@.len() - at,
        {
            let tag: u8 = content[at];
            assert(content@.skip(at as int)[0] == tag);
            if tag > 2 {
                return Err(TlsCodecError::UnknownValue(tag as u64));
            }
            if content.len() - at < 33 {
                return Err(TlsCodecError::EndOfStream);
            }
            let key = key_at(&content, at + 1);
            let ghost done = mutations@.map_values(|m: TlsSetMutation| m@);
            let mutation = if tag == 0 {
                TlsSetMutation::Insert(key)
            } else if tag == 1 {
                TlsSetMutation::Remove(key)
            } else {
                TlsSetMutation::RemoveByHash(key)
            };
            mutations.push(mutation);
            proof {
                let b = content@.skip(at as int);
                assert(b.subrange(1, 33) =~= key@);
                assert(b.skip(33) =~= content@.skip(at + 33));
                let now = mutations@.map_values(|m: TlsSetMutation| m@);
                assert(now =~= done.push(tagged(tag, key@)));
                match parsed_mutations(content@.skip(at + 33)) {
                    Ok(rest) => {
                        assert(done + (seq![tagged(tag, key@)] + rest) =~= now + rest);
                    },
                    Err(e) => {},
                }
            }
            at += 33;
        }
        proof {
            assert(content@.skip(at as int) =~= Seq::<u8>::empty());
            let now = mutations@.map_values(|m: TlsSetMutation| m@);
            assert(now + Seq::<MutationView>::empty() =~= now);
        }
        Ok(TlsSetDelta { mutations })
    }
}

/// A set of keys has exactly the keys that it is made of, each once.
pub proof fn sets_hold_the_keys_they_are_made_of(keys: Seq<Seq<u8>>, key: Seq<u8>)
    ensures
        collected(keys).contains(key) <==> keys.contains(key),
        collected(keys).no_duplicates(),
    decreases keys.len(),
{
    if keys.len() > 0 {
        let init = keys.drop_last();
        let last = keys.last();
        sets_hold_the_keys_they_are_made_of(init, key);
        insert_adds_only(collected(init), last, key);
        assert(keys =~= init.push(last));
        vstd::seq_lib::lemma_seq_contains_after_push(init, last, key);
    }
}

/// A key is removed by its digest exactly if this is its digest.
pub proof fn keys_are_removed_by_their_digest(set: Seq<Seq<u8>>, hash: Seq<u8>, key: Seq<u8>)
    ensures
        removed_by_hash(set, hash).contains(key) <==> set.contains(key) && crypto::sha256_digest(key) != hash,
{
    let p = |k: Seq<u8>| crypto::sha256_digest(k) != hash;
    let kept = set.filter(p);
    if kept.contains(key) {
        let i = choose|i: int| 0 <= i < kept.len() && kept[i] == key;
        set.lemma_filter_pred(p, i);
        set.lemma_filter_contains_rev(p, key);
    }
    if set.contains(key) && crypto::sha256_digest(key) != hash {
        let i = choose|i: int| 0 <= i < set.len() && set[i] == key;
        set.lemma_filter_contains(p, i);
    }
}

/// Changes are made in their order: whether a key belongs to a set in the end is decided by the last change that speaks of
/// it, and a later insertion brings back what an earlier removal took out.
pub proof fn the_last_change_decides(set: Seq<Seq<u8>>, delta: Seq<MutationView>, key: Seq<u8>, hash: Seq<u8>)
    ensures
        changed_by(set, delta.push(MutationView::Insert(key))).contains(key),
        !changed_by(set, delta.push(MutationView::Remove(key))).contains(key),
        !changed_by(set, delta.push(MutationView::RemoveByHash(crypto::sha256_digest(key)))).contains(key),
        changed_by(set, seq![]) == set,
{
    let before = changed_by(set, delta);
    assert(delta.push(MutationView::Insert(key)).drop_last() =~= delta);
    assert(delta.push(MutationView::Remove(key)).drop_last() =~= delta);
    assert(delta.push(MutationView::RemoveByHash(crypto::sha256_digest(key))).drop_last() =~= delta);
    insert_adds_only(before, key, key);
    remove_drops_only(before, key, key);
    keys_are_removed_by_their_digest(before, crypto::sha256_digest(key), key);
}

/// How changes and sets look on the wire: behind the length of it all stands, for each change, a byte that tells an
/// insertion from a removal and from a removal by digest, and then the key or digest; a set has its keys alone.
pub proof fn changes_are_told_apart_by_their_first_byte(key: Seq<u8>)
    requires
        key.len() == 32,
    ensures
        delta_bytes(seq![MutationView::Insert(key)]) == seq![33u8, 0u8] + key,
        delta_bytes(seq![MutationView::Remove(key)]) == seq![33u8, 1u8] + key,
        delta_bytes(seq![MutationView::RemoveByHash(key)]) == seq![33u8, 2u8] + key,
        set_bytes(seq![key]) == seq![32u8] + key,
        set_bytes(seq![]) == seq![0u8],
{
    let ins = seq![MutationView::Insert(key)];
    let rem = seq![MutationView::Remove(key)];
    let hash = seq![MutationView::RemoveByHash(key)];
    reveal_with_fuel(mutations_bytes, 2);
    reveal_with_fuel(keys_bytes, 2);
    assert(ins.drop_first() =~= Seq::<MutationView>::empty());
    assert(rem.drop_first() =~= Seq::<MutationView>::empty());
    assert(hash.drop_first() =~= Seq::<MutationView>::empty());
    assert(seq![key].drop_first() =~= Seq::<Seq<u8>>::empty());
    assert(mutations_bytes(ins) =~= seq![0u8] + key);
    assert(mutations_bytes(rem) =~= seq![1u8] + key);
    assert(mutations_bytes(hash) =~= seq![2u8] + key);
    assert(keys_bytes(seq![key]) =~= key);
    assert(delta_bytes(ins) =~= seq![33u8, 0u8] + key);
    assert(delta_bytes(rem) =~= seq![33u8, 1u8] + key);
    assert(delta_bytes(hash) =~= seq![33u8, 2u8] + key);
    assert(set_bytes(seq![key]) =~= seq![32u8] + key);
    assert(set_bytes(seq![]) =~= seq![0u8]);
}

/// What is no change is refused: an unknown first byte is reported, and a key that is cut off is too short; so is one in a
/// set.
pub proof fn broken_changes_are_refused(b: Seq<u8>)
    requires
        b.len() > 0,
    ensures
        b[0] > 2 ==> parsed_mutations(b) == Err::<Seq<MutationView>, _>(TlsCodecError::UnknownValue(b[0] as u64)),
        b[0] <= 2 && b.len() < 33 ==> parsed_mutations(b) == Err::<Seq<MutationView>, _>(TlsCodecError::EndOfStream),
        b.len() < 32 ==> parsed_keys(b) == Err::<Seq<Seq<u8>>, _>(TlsCodecError::EndOfStream),
{
}

/// A set has no more keys after one was taken out.
pub proof fn removals_shorten(set: Seq<Seq<u8>>, key: Seq<u8>)
    ensures
        removed(set, key).len() <= set.len(),
    decreases set.len(),
{
    reveal(Seq::filter);
    if set.len() > 0 {
        removals_shorten(set.drop_last(), key);
    }
}

} // verus!
