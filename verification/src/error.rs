//! The errors that the rules of the client give and pass on.

use vstd::prelude::*;
use crate::groups::error::{GroupMutableMetadataError, MetadataPermissionsError};
use crate::records::{CommitResult, Cursor};

verus! {

/// An error of the store, the network or the MLS engine. Of such an error the rules only ask
/// whether trying again can help.
#[derive(Debug)]
pub struct ExternalError {
    pub retryable: bool,
    pub message: String,
}

impl ExternalError {
    /// A fresh copy.
    pub fn duplicate(&self) -> (r: Self)
        ensures
            r == *self,
    {
        ExternalError { retryable: self.retryable, message: self.message.clone() }
    }
}

/// Why a commit or a proposal is not accepted.
#[derive(Debug)]
pub enum CommitValidationError {
    /// The commit demands a newer version of this client.
    ProtocolVersionTooLow(String),
    /// The group does not take proposals.
    ProposalsNotEnabled,
    /// The permissions or the fixed metadata of the group cannot be had.
    MetadataPermissions(MetadataPermissionsError),
    /// The mutable metadata of the group cannot be had.
    GroupMutableMetadata(GroupMutableMetadataError),
    /// Any other reason.
    Other(ExternalError),
}

impl CommitValidationError {
    /// Whether validating again can help.
    pub open spec fn retryable(self) -> bool {
        self matches CommitValidationError::Other(e) && e.retryable
    }

    pub fn is_retryable(&self) -> (r: bool)
        ensures
            r == self.retryable(),
    {
        match self {
            CommitValidationError::Other(e) => e.retryable,
            _ => false,
        }
    }
}

/// An outcome of processing one message.
#[derive(Debug)]
pub struct MessageIdentifier {
    pub cursor: Cursor,
    pub group_id: Vec<u8>,
    pub created_ns: i64,
    /// The message that was stored for it, if one was.
    pub internal_id: Option<Vec<u8>>,
    /// The intent of this client that it completes, if it does.
    pub intent_kind: Option<crate::records::IntentKind>,
    /// The group context that a commit leads to, as it is encoded.
    pub group_context: Option<Vec<u8>>,
    pub previously_processed: bool,
}

/// Why a message could not be processed.
#[derive(Debug)]
pub enum GroupMessageProcessingError {
    IntentAlreadyProcessed,
    MessageAlreadyProcessed(MessageIdentifier),
    MessageIdentifierNotFound,
    WelcomeAlreadyProcessed(u64),
    InvalidSender { message_time_ns: u64, credential: Vec<u8> },
    InvalidPayload,
    Storage(ExternalError),
    Identity(ExternalError),
    /// The MLS engine refused the message; `wrong_epoch` tells whether its epoch was the reason.
    OpenMlsProcessMessage { wrong_epoch: bool, error: ExternalError },
    MergeStagedCommit(ExternalError),
    TlsError(ExternalError),
    UnsupportedMessageType(ExternalError),
    CommitValidation(CommitValidationError),
    EpochIncrementNotAllowed,
    ClearPendingCommit(ExternalError),
    Serde(ExternalError),
    IntentMissingStagedCommit,
    EncodeProto(ExternalError),
    DecodeProto(ExternalError),
    Intent(ExternalError),
    Codec(ExternalError),
    WrongCredentialType(ExternalError),
    ProcessIntent(ExternalError),
    AssociationDeserialization(ExternalError),
    Client(ExternalError),
    GroupPaused,
    OldEpoch(u64, u64),
    FutureEpoch(u64, u64),
    Db(ExternalError),
    Builder(ExternalError),
    Diesel(ExternalError),
    EnrichMessage(ExternalError),
    PreCommitProposalPhaseComplete,
}

impl GroupMessageProcessingError {
    /// The error of the store, the network or the engine that decides whether trying again can help.
    pub open spec fn cause(self) -> Option<ExternalError> {
        match self {
            GroupMessageProcessingError::Storage(e) => Some(e),
            GroupMessageProcessingError::Diesel(e) => Some(e),
            GroupMessageProcessingError::Identity(e) => Some(e),
            GroupMessageProcessingError::OpenMlsProcessMessage { wrong_epoch: _, error } => Some(error),
            GroupMessageProcessingError::MergeStagedCommit(e) => Some(e),
            GroupMessageProcessingError::ProcessIntent(e) => Some(e),
            GroupMessageProcessingError::ClearPendingCommit(e) => Some(e),
            GroupMessageProcessingError::Client(e) => Some(e),
            GroupMessageProcessingError::Db(e) => Some(e),
            GroupMessageProcessingError::EnrichMessage(e) => Some(e),
            _ => None,
        }
    }

    /// Whether trying the message again can help.
    pub open spec fn retryable(self) -> bool {
        ||| self.cause() is Some && self.cause()->0.retryable
        ||| self matches GroupMessageProcessingError::CommitValidation(e) && e.retryable()
    }

    /// Whether trying the message again can help. What the message itself got wrong stays wrong.
    pub fn is_retryable(&self) -> (r: bool)
        ensures
            r == self.retryable(),
    {
        match self {
            GroupMessageProcessingError::Storage(e) => e.retryable,
            GroupMessageProcessingError::Diesel(e) => e.retryable,
            GroupMessageProcessingError::Identity(e) => e.retryable,
            GroupMessageProcessingError::OpenMlsProcessMessage { wrong_epoch: _, error } => error.retryable,
            GroupMessageProcessingError::MergeStagedCommit(e) => e.retryable,
            GroupMessageProcessingError::ProcessIntent(e) => e.retryable,
            GroupMessageProcessingError::CommitValidation(e) => e.is_retryable(),
            GroupMessageProcessingError::ClearPendingCommit(e) => e.retryable,
            GroupMessageProcessingError::Client(e) => e.retryable,
            GroupMessageProcessingError::Db(e) => e.retryable,
            GroupMessageProcessingError::EnrichMessage(e) => e.retryable,
            _ => false,
        }
    }

    /// How a commit that met this error is entered in the log of commits.
    pub open spec fn logged_as(self) -> CommitResult {
        match self {
            GroupMessageProcessingError::OpenMlsProcessMessage { wrong_epoch, error: _ } => if wrong_epoch {
                CommitResult::WrongEpoch
            } else {
                CommitResult::Undecryptable
            },
            GroupMessageProcessingError::OldEpoch(_, _) => CommitResult::WrongEpoch,
            GroupMessageProcessingError::FutureEpoch(_, _) => CommitResult::WrongEpoch,
            GroupMessageProcessingError::CommitValidation(_) => CommitResult::Invalid,
            _ => CommitResult::Unknown,
        }
    }

    /// How a commit that met this error is entered in the log of commits.
    pub fn commit_result(&self) -> (r: CommitResult)
        ensures
            r == self.logged_as(),
    {
        match self {
            GroupMessageProcessingError::OpenMlsProcessMessage { wrong_epoch, error: _ } => {
                if *wrong_epoch {
                    CommitResult::WrongEpoch
                } else {
                    CommitResult::Undecryptable
                }
            },
            GroupMessageProcessingError::OldEpoch(_, _) => CommitResult::WrongEpoch,
            GroupMessageProcessingError::FutureEpoch(_, _) => CommitResult::WrongEpoch,
            GroupMessageProcessingError::CommitValidation(_) => CommitResult::Invalid,
            _ => CommitResult::Unknown,
        }
    }
}

/// What a lookup did not find.
#[derive(Debug)]
pub enum NotFound {
    GroupById(Vec<u8>),
    MessageById(Vec<u8>),
    SyncGroup(Vec<u8>),
}

/// An error of the store, the network or the engine can be mended by trying again exactly if that error can;
/// what the message itself got wrong, and that the group is paused, cannot; nor can a commit that its group
/// does not take or that needs a newer client.
pub proof fn only_outside_errors_are_tried_again(e: GroupMessageProcessingError, outside: ExternalError)
    ensures
        e == GroupMessageProcessingError::Storage(outside) ==> (e.retryable() <==> outside.retryable),
        e == GroupMessageProcessingError::Diesel(outside) ==> (e.retryable() <==> outside.retryable),
        e == GroupMessageProcessingError::Identity(outside) ==> (e.retryable() <==> outside.retryable),
        e == GroupMessageProcessingError::MergeStagedCommit(outside) ==> (e.retryable() <==> outside.retryable),
        e == GroupMessageProcessingError::ProcessIntent(outside) ==> (e.retryable() <==> outside.retryable),
        e == GroupMessageProcessingError::ClearPendingCommit(outside) ==> (e.retryable() <==> outside.retryable),
        e == GroupMessageProcessingError::Client(outside) ==> (e.retryable() <==> outside.retryable),
        e == GroupMessageProcessingError::Db(outside) ==> (e.retryable() <==> outside.retryable),
        e == GroupMessageProcessingError::EnrichMessage(outside) ==> (e.retryable() <==> outside.retryable),
        (e matches GroupMessageProcessingError::OpenMlsProcessMessage { wrong_epoch: _, error } && error == outside)
            ==> (e.retryable() <==> outside.retryable),
        e matches GroupMessageProcessingError::CommitValidation(CommitValidationError::ProtocolVersionTooLow(_))
            ==> !e.retryable(),
        e matches GroupMessageProcessingError::CommitValidation(CommitValidationError::ProposalsNotEnabled)
            ==> !e.retryable(),
        e == GroupMessageProcessingError::CommitValidation(CommitValidationError::Other(outside)) ==> (e.retryable()
            <==> outside.retryable),
        (e is OldEpoch || e is FutureEpoch || e is GroupPaused || e is InvalidPayload || e is InvalidSender || e
            is IntentAlreadyProcessed || e is IntentMissingStagedCommit || e is EpochIncrementNotAllowed || e is DecodeProto
            || e is EncodeProto || e is TlsError || e is UnsupportedMessageType || e is WrongCredentialType || e is Serde || e
            is Codec || e is Intent || e is AssociationDeserialization || e is Builder || e
            is PreCommitProposalPhaseComplete) ==> !e.retryable(),
{
}

/// A commit is logged as made in the wrong epoch exactly if that is what it failed over, as undecryptable if the engine
/// could not process it for another reason, and as invalid if it did not validate. None that failed is logged as a
/// success.
pub proof fn failed_commits_are_logged_by_their_reason(e: GroupMessageProcessingError)
    ensures
        e.logged_as() == CommitResult::WrongEpoch <==> e is OldEpoch || e is FutureEpoch || (e matches
            GroupMessageProcessingError::OpenMlsProcessMessage { wrong_epoch, error: _ } && wrong_epoch),
        e.logged_as() == CommitResult::Undecryptable <==> (e matches GroupMessageProcessingError::OpenMlsProcessMessage {
            wrong_epoch,
            error: _,
        } && !wrong_epoch),
        e.logged_as() == CommitResult::Invalid <==> e is CommitValidation,
        e.logged_as() != CommitResult::Success,
{
}

} // verus!
