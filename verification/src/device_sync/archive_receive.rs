//! Taking in an archive from another device.

use vstd::prelude::*;
use crate::device_sync::client::DeviceSyncClient;
use vstd::string::*;
use crate::bytes;
use crate::device_sync::catalog::ArchiveSearch;
use crate::device_sync::content::{DeviceSyncReply, DeviceSyncRequest, SyncContent};
use crate::device_sync::error::{ConversionError, DeviceSyncError};
use crate::records::StoredGroupMessage;

verus! {

/// Whether a message is this device's request with a pin.
pub open spec fn is_own_request(
    entry: (StoredGroupMessage, SyncContent),
    pin: Seq<char>,
    own_installation: Seq<u8>,
) -> bool {
    &&& entry.1 matches SyncContent::Request(request)
    &&& request.pin@ == pin
    &&& entry.0.sender_installation_id@ == own_installation
}

/// Whether this device asked for the archive of a reply.
pub open spec fn is_requested(
    messages: Seq<(StoredGroupMessage, SyncContent)>,
    reply: DeviceSyncReply,
    own_installation: Seq<u8>,
) -> bool {
    exists|i: int|
        0 <= i < messages.len() && is_own_request(#[trigger] messages[i], reply.request_id@, own_installation)
}

/// A reply is requested exactly if this device itself sent a request with its pin: a request of another device with the
/// same pin does not count, nor does one of this device with another pin.
pub proof fn replies_answer_own_requests(
    messages: Seq<(StoredGroupMessage, SyncContent)>,
    reply: DeviceSyncReply,
    own_installation: Seq<u8>,
    i: int,
    request: DeviceSyncRequest,
)
    ensures
        0 <= i < messages.len() && messages[i].1 == SyncContent::Request(request) && request.pin@ == reply.request_id@
            && messages[i].0.sender_installation_id@ == own_installation ==> is_requested(
            messages,
            reply,
            own_installation,
        ),
        (forall|k: int|
            0 <= k < messages.len() ==> (#[trigger] messages[k]).0.sender_installation_id@ != own_installation)
            ==> !is_requested(messages, reply, own_installation),
        (forall|k: int|
            0 <= k < messages.len() ==> ((#[trigger] messages[k]).1 matches SyncContent::Request(asked) ==> asked.pin@
                != reply.request_id@)) ==> !is_requested(messages, reply, own_installation),
{
    if 0 <= i < messages.len() && messages[i].1 == SyncContent::Request(request) && request.pin@ == reply.request_id@
        && messages[i].0.sender_installation_id@ == own_installation {
        assert(is_own_request(messages[i], reply.request_id@, own_installation));
    }
}

/// Whether an outcome is the archive that a search found.
pub open spec fn is_archive_of(
    search: ArchiveSearch,
    pin: Option<Seq<char>>,
    r: Result<(StoredGroupMessage, DeviceSyncReply), DeviceSyncError>,
) -> bool {
    match search {
        ArchiveSearch::Found(message, reply) => r == Ok::<_, DeviceSyncError>((message, reply)),
        _ => {
            &&& r matches Err(DeviceSyncError::MissingPayload(given))
            &&& match pin {
                Some(p) => given is Some && given->0@ == p,
                None => given is None,
            }
        },
    }
}

/// An archive that was found is handed out as it is; one that was not found is missing, under the pin that was asked for.
pub proof fn found_archives_are_handed_out(
    search: ArchiveSearch,
    pin: Option<Seq<char>>,
    r: Result<(StoredGroupMessage, DeviceSyncReply), DeviceSyncError>,
)
    requires
        is_archive_of(search, pin, r),
    ensures
        r is Ok <==> search is Found,
        search matches ArchiveSearch::Found(message, reply) ==> r == Ok::<_, DeviceSyncError>((message, reply)),
        search !is Found ==> (r matches Err(DeviceSyncError::MissingPayload(given)) && given is Some == pin is Some && (
        pin is Some ==> given->0@ == pin->0)),
{
}

impl DeviceSyncClient {
    /// Whether this device asked for the archive of a reply.
    pub fn is_reply_requested_by_installation(
        &self,
        messages: &Vec<(StoredGroupMessage, SyncContent)>,
        reply: &DeviceSyncReply,
    ) -> (r: bool)
        ensures
            r == is_requested(messages@, *reply, self.installation_id@),
    {
        let mut i: usize = 0;
        while i < messages.len()
            invariant
                i <= messages@.len(),
                forall|j: int|
                    0 <= j < i ==> !is_own_request(#[trigger] messages@[j], reply.request_id@, self.installation_id@),
            decreases messages@.len() - i,
        {
            if let SyncContent::Request(request) = &messages[i].1 {
                if bytes::text_equal(request.pin.as_str(), reply.request_id.as_str()) && bytes::bytes_equal(
                    messages[i].0.sender_installation_id.as_slice(),
                    self.installation_id.as_slice(),
                ) {
                    assert(is_own_request(messages@[i as int], reply.request_id@, self.installation_id@));
                    return true;
                }
            }
            i += 1;
        }
        false
    }
}

impl DeviceSyncClient {
    /// The archive that a search found, which must be there.
    pub fn process_archive_with_pin(&self, search: ArchiveSearch, pin: Option<&str>) -> (r: Result<
        (StoredGroupMessage, DeviceSyncReply),
        DeviceSyncError,
    >)
        ensures
            is_archive_of(
                search,
                match pin {
                    Some(p) => Some(p@),
                    None => None,
                },
                r,
            ),
    {
        match search {
            ArchiveSearch::Found(message, reply) => Ok((message, reply)),
            _ => {
                let pin: Option<String> = match pin {
                    Some(p) => Some(p.to_owned()),
                    None => None,
                };
                Err(DeviceSyncError::MissingPayload(pin))
            },
        }
    }
}

/// How far an archive has come.
#[derive(Debug)]
pub enum ArchivePhase {
    SyncingWelcomes(DeviceSyncReply),
    /// The key that opens the archive, where there is one.
    Downloading(Option<Vec<u8>>),
    Importing,
    Done,
}

/// What is to be done next outside.
#[derive(Debug)]
pub enum ArchiveAction {
    SyncWelcomes,
    Download { url: String },
    /// Open what was downloaded with a key, and import it.
    Import { key: Vec<u8> },
    Finish(Result<(), DeviceSyncError>),
    Ignore,
}

/// How the taking in of an archive begins.
pub open spec fn begins_archive(reply: DeviceSyncReply, phase: ArchivePhase, action: ArchiveAction) -> bool {
    if reply.has_kind {
        phase is Done && action == ArchiveAction::Finish(Ok(()))
    } else {
        phase == ArchivePhase::SyncingWelcomes(reply) && action is SyncWelcomes
    }
}

impl DeviceSyncClient {
    /// Begins to take in an archive. One of an earlier form is left alone.
    pub fn process_archive(&self, reply: DeviceSyncReply) -> (r: (ArchivePhase, ArchiveAction))
        ensures
            begins_archive(reply, r.0, r.1),
    {
        if reply.has_kind {
            (ArchivePhase::Done, ArchiveAction::Finish(Ok(())))
        } else {
            (ArchivePhase::SyncingWelcomes(reply), ArchiveAction::SyncWelcomes)
        }
    }
}

/// The transitions of taking in an archive: the groups are brought up to date first, and without a
/// key nothing is imported.
pub open spec fn is_archive_step(
    before: ArchivePhase,
    outcome: Result<(), DeviceSyncError>,
    after: ArchivePhase,
    action: ArchiveAction,
) -> bool {
    match (before, outcome) {
        (ArchivePhase::Done, _) => after == before && action is Ignore,
        (_, Err(e)) => after is Done && action == ArchiveAction::Finish(Err(e)),
        (ArchivePhase::SyncingWelcomes(reply), Ok(_)) => {
            &&& after == ArchivePhase::Downloading(reply.encryption_key)
            &&& action == (ArchiveAction::Download { url: reply.url })
        },
        (ArchivePhase::Downloading(key), Ok(_)) => match key {
            Some(key) => after is Importing && action == (ArchiveAction::Import { key }),
            None => {
                &&& after is Done
                &&& action matches ArchiveAction::Finish(
                    Err(DeviceSyncError::ProtoConversion(ConversionError::Unspecified(field))),
                )
                &&& field@ == "encryption_key"@
            },
        },
        (ArchivePhase::Importing, Ok(_)) => after is Done && action == ArchiveAction::Finish(Ok(())),
    }
}

/// Takes an archive one step further.
pub fn process_archive_step(phase: ArchivePhase, outcome: Result<(), DeviceSyncError>) -> (r: (
    ArchivePhase,
    ArchiveAction,
))
    ensures
        is_archive_step(phase, outcome, r.0, r.1),
{
    match (phase, outcome) {
        (ArchivePhase::Done, _) => (ArchivePhase::Done, ArchiveAction::Ignore),
        (_, Err(e)) => (ArchivePhase::Done, ArchiveAction::Finish(Err(e))),
        (ArchivePhase::SyncingWelcomes(reply), Ok(_)) => (
            ArchivePhase::Downloading(reply.encryption_key),
            ArchiveAction::Download { url: reply.url },
        ),
        (ArchivePhase::Downloading(key), Ok(_)) => match key {
            Some(key) => (ArchivePhase::Importing, ArchiveAction::Import { key }),
            None => (
                ArchivePhase::Done,
                ArchiveAction::Finish(
                    Err(
                        DeviceSyncError::ProtoConversion(ConversionError::Unspecified("encryption_key".to_owned())),
                    ),
                ),
            ),
        },
        (ArchivePhase::Importing, Ok(_)) => (ArchivePhase::Done, ArchiveAction::Finish(Ok(()))),
    }
}

/// An archive is taken in in this order: the groups are brought up to date, the archive is downloaded from where the reply
/// says, and it is opened with the key of the reply and imported. Without a key nothing is imported, and an archive of an
/// earlier form is left alone.
pub proof fn archives_are_imported_with_their_key(
    reply: DeviceSyncReply,
    phases: Seq<ArchivePhase>,
    actions: Seq<ArchiveAction>,
)
    requires
        phases.len() == 4,
        actions.len() == 4,
        begins_archive(reply, phases[0], actions[0]),
        is_archive_step(phases[0], Ok(()), phases[1], actions[1]),
        is_archive_step(phases[1], Ok(()), phases[2], actions[2]),
        is_archive_step(phases[2], Ok(()), phases[3], actions[3]),
    ensures
        reply.has_kind ==> (actions[0] matches ArchiveAction::Finish(Ok(_))),
        !reply.has_kind ==> actions[0] is SyncWelcomes && actions[1] == (ArchiveAction::Download { url: reply.url }),
        !reply.has_kind && reply.encryption_key is Some ==> actions[2] == (ArchiveAction::Import {
            key: reply.encryption_key->0,
        }) && (actions[3] matches ArchiveAction::Finish(Ok(_))),
        !reply.has_kind && reply.encryption_key is None ==> (actions[2] matches ArchiveAction::Finish(Err(_))),
{
}

/// The first failure ends the taking in of an archive and is what is reported.
pub proof fn archives_fail_as_their_steps_do(
    before: ArchivePhase,
    error: DeviceSyncError,
    after: ArchivePhase,
    action: ArchiveAction,
)
    requires
        before !is Done,
        is_archive_step(before, Err(error), after, action),
    ensures
        action == ArchiveAction::Finish(Err(error)),
        after is Done,
{
}

/// An archive that was taken in asks for nothing more.
pub proof fn imported_archives_stay_imported(
    before: ArchivePhase,
    event: Result<(), DeviceSyncError>,
    after: ArchivePhase,
    action: ArchiveAction,
)
    requires
        is_archive_step(before, event, after, action),
    ensures
        before is Done ==> action is Ignore,
        action is Ignore ==> after == before,
{
}

} // verus!
