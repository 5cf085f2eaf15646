//! The errors of keeping devices in step.

use vstd::prelude::*;
use crate::error::ExternalError;
use crate::groups::error::GroupError;
use crate::groups::summary::SyncSummary;
use crate::subscriptions::error::SubscribeError;

verus! {

/// A field that is missing.
#[derive(Clone, Copy, Debug, PartialEq, Eq, Structural)]
pub enum MissingField {
    Conversation(ConversationField),
}

/// A field of a conversation.
#[derive(Clone, Copy, Debug, PartialEq, Eq, Structural)]
pub enum ConversationField {
    DmId,
}

/// Why a message could not be converted.
#[derive(Debug)]
pub enum ConversionError {
    /// A field is not set.
    Unspecified(String),
    Other(ExternalError),
}

/// Why the client failed.
#[derive(Debug)]
pub enum ClientError {
    Group(GroupError),
    /// A message could not be encoded.
    Generic(String),
}

/// Why keeping devices in step failed.
#[derive(Debug)]
pub enum DeviceSyncError {
    IO(ExternalError),
    Serde(ExternalError),
    ProtoConversion(ConversionError),
    AesGcm,
    Storage(ExternalError),
    Reqwest(ExternalError),
    Conversion,
    UTF8(ExternalError),
    /// The client failed; `db_needs_connection` tells whether its store has to be opened anew.
    Client { error: ExternalError, db_needs_connection: bool },
    Group(Box<GroupError>),
    NoPendingRequest,
    InvalidPayload,
    UnspecifiedDeviceSyncKind,
    SyncPayloadTooOld,
    Subscribe(Box<SubscribeError>),
    Bincode(ExternalError),
    Archive(ExternalError),
    Decode(ExternalError),
    Deserialization(ExternalError),
    AlreadyAcknowledged,
    MissingOptions,
    MissingSyncServerUrl,
    MissingSyncGroup,
    Db(ExternalError),
    Sync(Box<SyncSummary>),
    MlsStore(ExternalError),
    Recv(ExternalError),
    MissingField(MissingField, String),
    MissingPayload(Option<String>),
}

/// The store is opened anew only where the client says so. Trying again helps but for four errors, which no other attempt
/// can mend.
pub proof fn most_errors_are_tried_again(error: DeviceSyncError)
    ensures
        error.needs_reconnect() ==> error is Client,
        error matches DeviceSyncError::Client { error: _, db_needs_connection } ==> error.needs_reconnect()
            == db_needs_connection,
        error is AlreadyAcknowledged || error is MissingSyncGroup || error is MissingSyncServerUrl || error
            is UnspecifiedDeviceSyncKind ==> !error.retryable(),
        !error.retryable() ==> error is AlreadyAcknowledged || error is MissingSyncGroup || error is MissingSyncServerUrl
            || error is UnspecifiedDeviceSyncKind,
{
}

impl DeviceSyncError {
    /// Whether the store has to be opened anew.
    pub open spec fn needs_reconnect(self) -> bool {
        self matches DeviceSyncError::Client { error: _, db_needs_connection: true }
    }

    /// Whether trying again can help.
    pub open spec fn retryable(self) -> bool {
        !(self is AlreadyAcknowledged || self is MissingSyncGroup || self is MissingSyncServerUrl
            || self is UnspecifiedDeviceSyncKind)
    }

    /// Whether the store has to be opened anew.
    pub fn needs_db_reconnect(&self) -> (r: bool)
        ensures
            r == self.needs_reconnect(),
    {
        match self {
            DeviceSyncError::Client { error: _, db_needs_connection } => *db_needs_connection,
            _ => false,
        }
    }

    /// Whether trying again can help: always, unless another device was faster or this one is not set
    /// up for it.
    pub fn is_retryable(&self) -> (r: bool)
        ensures
            r == self.retryable(),
    {
        match self {
            DeviceSyncError::AlreadyAcknowledged => false,
            DeviceSyncError::MissingSyncGroup => false,
            DeviceSyncError::MissingSyncServerUrl => false,
            DeviceSyncError::UnspecifiedDeviceSyncKind => false,
            _ => true,
        }
    }
}

} // verus!
