//! Who belongs to a group.

use vstd::prelude::*;
use crate::bytes;
use crate::text_map::TextMap;

verus! {

/// The inboxes of a group, each with the sequence id of its identity updates that the group has
/// taken in, and the installations that could not be added.
pub struct GroupMembership {
    pub members: TextMap<u64>,
    pub failed_installations: Vec<Vec<u8>>,
}

impl GroupMembership {
    /// A group without members.
    pub fn new() -> (r: Self)
        ensures
            r.members@ == Map::<Seq<char>, u64>::empty(),
            r.failed_installations@.len() == 0,
    {
        GroupMembership { members: TextMap::new(), failed_installations: Vec::new() }
    }

    /// Adds an inbox, or moves it to another sequence id.
    pub fn add(&mut self, inbox_id: String, sequence_id: u64)
        ensures
            final(self).members@ == old(self).members@.insert(inbox_id@, sequence_id),
            final(self).failed_installations == old(self).failed_installations,
    {
        self.members.insert(inbox_id, sequence_id);
    }

    /// Takes an inbox out.
    pub fn remove(&mut self, inbox_id: &str)
        ensures
            final(self).members@ == old(self).members@.remove(inbox_id@),
            final(self).failed_installations == old(self).failed_installations,
    {
        let _taken = self.members.remove(inbox_id);
    }

    /// The sequence id of an inbox.
    pub fn get(&self, inbox_id: &str) -> (r: Option<u64>)
        ensures
            r == (if self.members@.dom().contains(inbox_id@) {
                Some(self.members@[inbox_id@])
            } else {
                None
            }),
    {
        match self.members.get(inbox_id) {
            Some(v) => Some(*v),
            None => None,
        }
    }

    /// The inboxes of the group.
    pub fn inbox_ids(&self) -> (r: Vec<String>)
        ensures
            r@ == self.members.entries@.map_values(|e: (String, u64)| e.0),
    {
        let mut out: Vec<String> = Vec::new();
        let mut i: usize = 0;
        while i < self.members.entries.len()
            invariant
                i <= self.members.entries@.len(),
                out@.len() == i,
                forall|k: int| 0 <= k < i ==> out@[k] == (#[trigger] self.members.entries@[k]).0,
            decreases self.members.entries@.len() - i,
        {
            out.push(self.members.entries[i].0.clone());
            i += 1;
        }
        assert(out@ =~= self.members.entries@.map_values(|e: (String, u64)| e.0));
        out
    }

    /// A fresh copy.
    pub fn duplicate(&self) -> (r: Self)
        ensures
            r.members@ == self.members@,
            r.members.entries@ == self.members.entries@,
            bytes::byte_views(r.failed_installations@) == bytes::byte_views(self.failed_installations@),
    {
        GroupMembership {
            members: self.members.duplicate(),
            failed_installations: bytes::clone_byte_strings(self.failed_installations.as_slice()),
        }
    }
}

} // verus!
