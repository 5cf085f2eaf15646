//! What devices of the user send each other.

use vstd::prelude::*;
use crate::records::StoredGroupMessage;

verus! {

/// A request for an archive.
#[derive(Debug)]
pub struct DeviceSyncRequest {
    /// What the reply to the request will name.
    pub pin: String,
    /// What the archive should hold, as it is encoded.
    pub options: Option<Vec<u8>>,
    pub server_url: String,
}

/// An archive that is ready.
#[derive(Debug)]
pub struct DeviceSyncReply {
    /// The pin of the request.
    pub request_id: String,
    pub url: String,
    pub encryption_key: Option<Vec<u8>>,
    /// What the archive holds, as it is encoded.
    pub metadata: Option<Vec<u8>>,
    /// Whether the archive is of an earlier form, which tells a kind.
    pub has_kind: bool,
}

/// A message between devices of the user.
#[derive(Debug)]
pub enum SyncContent {
    Request(DeviceSyncRequest),
    Reply(DeviceSyncReply),
    /// Updates of preferences, as they are encoded.
    PreferenceUpdates(Vec<Vec<u8>>),
    Acknowledge,
}

/// The messages that could be read, in their order.
pub open spec fn readable(messages: Seq<(StoredGroupMessage, Option<SyncContent>)>) -> Seq<
    (StoredGroupMessage, SyncContent),
>
    decreases messages.len(),
{
    if messages.len() == 0 {
        seq![]
    } else {
        let rest = readable(messages.drop_last());
        match messages.last().1 {
            Some(content) => rest.push((messages.last().0, content)),
            None => rest,
        }
    }
}

/// What can be read of messages is what can be read of a first part of them, then of the rest.
pub proof fn lemma_readable_parts(
    first: Seq<(StoredGroupMessage, Option<SyncContent>)>,
    rest: Seq<(StoredGroupMessage, Option<SyncContent>)>,
)
    ensures
        readable(first + rest) == readable(first) + readable(rest),
    decreases rest.len(),
{
    if rest.len() == 0 {
        assert(first + rest =~= first);
        assert(readable(first) + readable(rest) =~= readable(first));
    } else {
        lemma_readable_parts(first, rest.drop_last());
        assert((first + rest).drop_last() =~= first + rest.drop_last());
        assert((first + rest).last() == rest.last());
        assert(readable(first + rest) =~= readable(first) + readable(rest));
    }
}

/// Every message that can be read is kept with its own content, and no other is.
pub proof fn all_readable_messages_are_kept(messages: Seq<(StoredGroupMessage, Option<SyncContent>)>, i: int)
    ensures
        0 <= i < messages.len() && messages[i].1 is Some ==> readable(messages).contains(
            (messages[i].0, messages[i].1->0),
        ),
        0 <= i < readable(messages).len() ==> messages.contains(
            (readable(messages)[i].0, Some(readable(messages)[i].1)),
        ),
        readable(messages).len() <= messages.len(),
    decreases messages.len(),
{
    if messages.len() > 0 {
        let init = messages.drop_last();
        all_readable_messages_are_kept(init, i);
        let kept = readable(init);
        let all = readable(messages);
        if 0 <= i < init.len() && messages[i].1 is Some {
            let k = choose|k: int| 0 <= k < kept.len() && kept[k] == (init[i].0, init[i].1->0);
            assert(all[k] == kept[k]);
        }
        if i == messages.len() - 1 && messages[i].1 is Some {
            assert(all[kept.len() as int] == (messages[i].0, messages[i].1->0));
        }
        if 0 <= i < all.len() {
            if i < kept.len() {
                assert(all[i] == kept[i]);
                let k = choose|k: int| 0 <= k < init.len() && init[k] == (kept[i].0, Some(kept[i].1));
                assert(messages[k] == init[k]);
            } else {
                assert(messages[messages.len() - 1] == (all[i].0, Some(all[i].1)));
            }
        }
    }
}

/// Messages with their contents, in their order; those that cannot be read are left out.
pub fn iter_with_content(messages: Vec<(StoredGroupMessage, Option<SyncContent>)>) -> (r: Vec<
    (StoredGroupMessage, SyncContent),
>)
    ensures
        r@ == readable(messages@),
{
    let ghost all = messages@;
    let mut rest = messages;
    let mut out: Vec<(StoredGroupMessage, SyncContent)> = Vec::new();
    let total: usize = rest.len();
    let mut i: usize = 0;
    assert(all.skip(0) =~= all);
    assert(all.take(0) =~= Seq::<(StoredGroupMessage, Option<SyncContent>)>::empty());
    while i < total
        invariant
            i <= total,
            total == all.len(),
            rest@ == all.skip(i as int),
            out@ == readable(all.take(i as int)),
        decreases total - i,
    {
        let (message, content) = rest.remove(0);
        proof {
            assert(rest@ =~= all.skip(i + 1));
            assert(all.take(i + 1).drop_last() =~= all.take(i as int));
            assert(all.take(i + 1).last() == all[i as int]);
        }
        if let Some(content) = content {
            out.push((message, content));
        }
        i += 1;
    }
    assert(all.take(i as int) =~= all);
    out
}

} // verus!
