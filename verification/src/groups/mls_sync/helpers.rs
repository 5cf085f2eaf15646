//! Pieces that several steps of synchronization share.

use vstd::prelude::*;
use crate::bytes;
use crate::error::{ExternalError, GroupMessageProcessingError};
use crate::groups::error::GroupError;
use crate::records::StoredGroupIntent;

verus! {

/// Why a credential stands for no inbox.
#[derive(Debug)]
pub enum CredentialError {
    /// The credential is of another type.
    WrongType(ExternalError),
    /// The identity inside it does not parse.
    Identity(ExternalError),
}

impl CredentialError {
    /// The error of a message from such a sender.
    pub open spec fn as_processing_error(self) -> GroupMessageProcessingError {
        match self {
            CredentialError::WrongType(e) => GroupMessageProcessingError::WrongCredentialType(e),
            CredentialError::Identity(e) => GroupMessageProcessingError::Identity(e),
        }
    }

    pub fn into_processing_error(self) -> (r: GroupMessageProcessingError)
        ensures
            r == self.as_processing_error(),
    {
        match self {
            CredentialError::WrongType(e) => GroupMessageProcessingError::WrongCredentialType(e),
            CredentialError::Identity(e) => GroupMessageProcessingError::Identity(e),
        }
    }

    /// The error of an operation that meets such a member.
    pub open spec fn as_group_error(self) -> GroupError {
        match self {
            CredentialError::WrongType(e) => GroupError::External(e),
            CredentialError::Identity(e) => GroupError::External(e),
        }
    }

    pub fn to_group_error(&self) -> (r: GroupError)
        ensures
            r == self.as_group_error(),
    {
        match self {
            CredentialError::WrongType(e) => GroupError::External(e.duplicate()),
            CredentialError::Identity(e) => GroupError::External(e.duplicate()),
        }
    }
}

/// A member of the group, as the tree of the group shows it.
#[derive(Debug)]
pub struct GroupMember {
    pub index: u32,
    /// The credential of the member, as it is encoded.
    pub credential: Vec<u8>,
    /// The inbox that the credential stands for, or why it stands for none.
    pub inbox_id: Result<String, CredentialError>,
    pub signature_key: Vec<u8>,
}

/// Who a message says that it is from.
#[derive(Clone, Copy, Debug, PartialEq, Eq, Structural)]
pub enum Sender {
    Member(u32),
    External,
    NewMember,
}

/// What a decrypted message says of its sender: the credential that it carries as it is encoded,
/// and the identity inside it, or why there is none.
#[derive(Debug)]
pub struct SenderClaim {
    pub sender: Sender,
    pub credential: Vec<u8>,
    pub identity: Result<Vec<u8>, ExternalError>,
}

/// Whether the claim of a message is borne out by a member of the group.
pub open spec fn claim_holds(claim: SenderClaim, member: Option<GroupMember>) -> bool {
    &&& claim.sender matches Sender::Member(index)
    &&& member matches Some(m) && m.index == index && m.credential@ == claim.credential@
}

/// Who sent a message, or why nobody is known to have.
pub open spec fn sender_of(claim: SenderClaim, member: Option<GroupMember>, message_created_ns: u64) -> Result<
    (String, Vec<u8>),
    GroupMessageProcessingError,
> {
    if claim_holds(claim, member) {
        match member->0.inbox_id {
            Ok(inbox_id) => Ok((inbox_id, member->0.signature_key)),
            Err(e) => Err(e.as_processing_error()),
        }
    } else {
        match claim.identity {
            Ok(identity) => Err(
                GroupMessageProcessingError::InvalidSender {
                    message_time_ns: message_created_ns,
                    credential: identity,
                },
            ),
            Err(e) => Err(GroupMessageProcessingError::WrongCredentialType(e)),
        }
    }
}

/// A message is taken to be from an inbox and installation only if the member at the very leaf that it names
/// has that inbox and that key, and carries the credential of the message; and from every such member it is.
pub proof fn senders_are_members(claim: SenderClaim, member: Option<GroupMember>, message_created_ns: u64)
    ensures
        sender_of(claim, member, message_created_ns) matches Ok((inbox_id, installation_id)) ==> {
            &&& member matches Some(m) && {
                &&& claim.sender == Sender::Member(m.index)
                &&& m.credential@ == claim.credential@
                &&& m.inbox_id == Ok::<_, CredentialError>(inbox_id)
                &&& m.signature_key == installation_id
            }
        },
        (member matches Some(m) && claim.sender == Sender::Member(m.index) && m.credential@ == claim.credential@
            && m.inbox_id is Ok) ==> sender_of(claim, member, message_created_ns) is Ok,
        (claim.sender is External || claim.sender is NewMember || member is None || member->0.credential@
            != claim.credential@ || claim.sender != Sender::Member(member->0.index)) ==> match claim.identity {
            Ok(identity) => sender_of(claim, member, message_created_ns) == Err::<(String, Vec<u8>), _>(
                GroupMessageProcessingError::InvalidSender {
                    message_time_ns: message_created_ns,
                    credential: identity,
                },
            ),
            Err(e) => sender_of(claim, member, message_created_ns) == Err::<(String, Vec<u8>), _>(
                GroupMessageProcessingError::WrongCredentialType(e),
            ),
        },
{
}

/// Who sent a message: the member at the leaf that the message names, if that member carries the
/// credential of the message. Any other sender is invalid.
///
/// `member` is the member at the leaf that the message names, if there is one.
pub fn extract_message_sender(claim: SenderClaim, member: Option<GroupMember>, message_created_ns: u64) -> (r: Result<
    (String, Vec<u8>),
    GroupMessageProcessingError,
>)
    ensures
        r == sender_of(claim, member, message_created_ns),
{
    if let Sender::Member(index) = claim.sender {
        if let Some(member) = member {
            if member.index == index && bytes::bytes_equal(
                member.credential.as_slice(),
                claim.credential.as_slice(),
            ) {
                return match member.inbox_id {
                    Ok(inbox_id) => Ok((inbox_id, member.signature_key)),
                    Err(e) => Err(e.into_processing_error()),
                };
            }
        }
    }
    match claim.identity {
        Ok(identity) => Err(
            GroupMessageProcessingError::InvalidSender {
                message_time_ns: message_created_ns,
                credential: identity,
            },
        ),
        Err(e) => Err(GroupMessageProcessingError::WrongCredentialType(e)),
    }
}

/// How the savepoint in which a commit was made ended.
#[derive(Debug)]
pub enum SavepointEnd {
    /// It was rolled back on purpose.
    IntentionalRollback,
    /// The store failed.
    Failed(ExternalError),
}

/// What comes of making a commit inside a savepoint.
pub open spec fn commit_outcome<R>(
    savepoint: SavepointEnd,
    reloaded: Result<(), GroupError>,
    operation: Result<R, GroupError>,
    staged_commit: Option<Vec<u8>>,
    group_epoch: u64,
) -> Result<(R, Option<Vec<u8>>, u64), GroupError> {
    match savepoint {
        SavepointEnd::Failed(e) => Err(GroupError::External(e)),
        SavepointEnd::IntentionalRollback => match reloaded {
            Err(e) => Err(e),
            Ok(_) => match operation {
                Err(e) => Err(e),
                Ok(value) => Ok((value, staged_commit, group_epoch)),
            },
        },
    }
}

/// A commit comes out exactly if the store, the loading and the operation all went well, and then with what
/// the operation gave, what it left pending and the epoch; any error is one of those that occurred.
pub proof fn commits_need_all_to_go_well<R>(
    savepoint: SavepointEnd,
    reloaded: Result<(), GroupError>,
    operation: Result<R, GroupError>,
    staged_commit: Option<Vec<u8>>,
    group_epoch: u64,
)
    ensures
        commit_outcome(savepoint, reloaded, operation, staged_commit, group_epoch) is Ok <==> savepoint
            is IntentionalRollback && reloaded is Ok && operation is Ok,
        commit_outcome(savepoint, reloaded, operation, staged_commit, group_epoch) matches Ok((value, staged, epoch))
            ==> operation == Ok::<_, GroupError>(value) && staged == staged_commit && epoch == group_epoch,
        commit_outcome(savepoint, reloaded, operation, staged_commit, group_epoch) matches Err(e) ==> (
        savepoint matches SavepointEnd::Failed(store) && e == GroupError::External(store)) || reloaded == Err::<(), _>(
            e,
        ) || operation == Err::<R, _>(e),
        savepoint matches SavepointEnd::Failed(store) ==> commit_outcome(
            savepoint,
            reloaded,
            operation,
            staged_commit,
            group_epoch,
        ) == Err::<(R, Option<Vec<u8>>, u64), _>(GroupError::External(store)),
{
}

/// What comes of making a commit inside a savepoint that is rolled back: the outcome of the
/// operation with the commit that it left pending and the epoch in which it was made. A failure of
/// the store counts first, then one of loading the group again, then one of the operation.
pub fn generate_commit_with_rollback<R>(
    savepoint: SavepointEnd,
    reloaded: Result<(), GroupError>,
    operation: Result<R, GroupError>,
    staged_commit: Option<Vec<u8>>,
    group_epoch: u64,
) -> (r: Result<(R, Option<Vec<u8>>, u64), GroupError>)
    ensures
        r == commit_outcome(savepoint, reloaded, operation, staged_commit, group_epoch),
{
    match savepoint {
        SavepointEnd::Failed(e) => Err(GroupError::External(e)),
        SavepointEnd::IntentionalRollback => match reloaded {
            Err(e) => Err(e),
            Ok(_) => match operation {
                Err(e) => Err(e),
                Ok(value) => Ok((value, staged_commit, group_epoch)),
            },
        },
    }
}

/// What is recorded of an attempt to publish an intent that failed.
#[derive(Clone, Copy, Debug, PartialEq, Eq, Structural)]
pub enum FailureRecord {
    /// The intent has failed for good, and so has its message.
    SetErrorAndFailMessage,
    /// One more attempt is counted; the intent is still to be published.
    IncrementAttempts,
    /// One more attempt is counted, and the intent goes back to be published.
    IncrementAttemptsAndRequeue,
}

/// Whether an attempt to publish was the last one.
pub open spec fn attempts_exhausted(publish_attempts: i32, max_attempts: usize) -> bool {
    publish_attempts + 1 < 0 || publish_attempts + 1 >= max_attempts
}

pub fn is_last_attempt(publish_attempts: i32, max_attempts: usize) -> (r: bool)
    requires
        publish_attempts < i32::MAX,
    ensures
        r == attempts_exhausted(publish_attempts, max_attempts),
{
    let next: i32 = publish_attempts + 1;
    next < 0 || next as u64 >= max_attempts as u64
}

/// What is recorded where an intent could not be sent.
pub open spec fn send_failure(publish_attempts: i32, is_retryable: bool, max_attempts: usize) -> FailureRecord {
    if !is_retryable || attempts_exhausted(publish_attempts, max_attempts) {
        FailureRecord::SetErrorAndFailMessage
    } else {
        FailureRecord::IncrementAttemptsAndRequeue
    }
}

/// An intent that could not be sent goes back to be published as long as trying again can help and an
/// attempt is left after this one; else it has failed for good.
pub proof fn attempts_run_out(publish_attempts: i32, is_retryable: bool, max_attempts: usize)
    requires
        publish_attempts >= 0,
    ensures
        send_failure(publish_attempts, is_retryable, max_attempts) == FailureRecord::IncrementAttemptsAndRequeue <==> (
        is_retryable && max_attempts - publish_attempts > 1),
        send_failure(publish_attempts, is_retryable, max_attempts) == FailureRecord::SetErrorAndFailMessage <==> (
        !is_retryable || max_attempts - publish_attempts <= 1),
        attempts_exhausted(publish_attempts, max_attempts) <==> max_attempts - publish_attempts <= 1,
{
}

/// What is recorded of a published intent that could not be sent. It goes back to be published, so
/// that the next attempt encrypts at the latest epoch; where trying again cannot help, or the
/// attempts are used up, it has failed for good.
pub fn handle_published_intent_send_failure(intent: &StoredGroupIntent, is_retryable: bool, max_attempts: usize) -> (r:
    FailureRecord)
    requires
        intent.publish_attempts < i32::MAX,
    ensures
        r == send_failure(intent.publish_attempts, is_retryable, max_attempts),
{
    if !is_retryable || is_last_attempt(intent.publish_attempts, max_attempts) {
        FailureRecord::SetErrorAndFailMessage
    } else {
        FailureRecord::IncrementAttemptsAndRequeue
    }
}

} // verus!
