//! The errors of group operations.

use vstd::prelude::*;
use crate::device_sync::error::DeviceSyncError;
use crate::error::{CommitValidationError, ExternalError, NotFound};
use crate::groups::app_data::component_source::ComponentSourceError;
use crate::groups::summary::SyncSummary;

verus! {

/// Why mutable metadata cannot be used.
#[derive(Debug)]
pub enum GroupMutableMetadataError {
    MissingExtension,
    MissingMetadataField,
    Malformed(ExternalError),
}

/// Why a direct conversation is not accepted.
#[derive(Clone, Copy, Debug, PartialEq, Eq, Structural)]
pub enum DmValidationError {
    InvalidConversationType,
    MustHaveMembersSet,
    OurInboxMustBeMember,
    ExpectedInboxesDoNotMatch,
    MustHaveEmptyAdminAndSuperAdmin,
    InvalidPermissions,
}

/// Why metadata or permissions of a group cannot be read or changed.
#[derive(Debug)]
pub enum MetadataPermissionsError {
    /// The permissions are missing from the group.
    MissingPermissions,
    Permissions(ExternalError),
    /// The fixed metadata is missing from the group.
    MissingMetadata,
    Metadata(ExternalError),
    Mutable(GroupMutableMetadataError),
    DmValidation(DmValidationError),
    DmGroupMetadataForbidden,
    InvalidPermissionUpdate,
}

/// Why a message is not deleted.
#[derive(Debug)]
pub enum DeleteMessageError {
    MessageNotFound(String),
    NotAuthorized,
    MessageAlreadyDeleted,
    NonDeletableMessage,
}

/// Why an operation on a group failed.
#[derive(Debug)]
pub enum GroupError {
    NotFound(NotFound),
    /// An error of the store, the network or the engine.
    External(ExternalError),
    CommitValidation(CommitValidationError),
    MetadataPermissions(MetadataPermissionsError),
    DeleteMessage(DeleteMessageError),
    ComponentSource(ComponentSourceError),
    MissingSequenceId,
    FailedToVerifyInstallations,
    UninitializedResult,
    MissingPendingCommit,
    NoWelcomesToSend,
    GroupInactive,
    GroupPausedUntilUpdate(String),
    ProposalsNotSupported(String),
    TooManyCharacters { length: usize },
    /// Two extensions of a group's context have the same type.
    DuplicateExtension,
    InvalidGroupMembership,
    LockUnavailable,
    Sync(Box<SyncSummary>),
    SyncFailedToWait(Box<SyncSummary>),
    DeviceSync(Box<DeviceSyncError>),
}

} // verus!
