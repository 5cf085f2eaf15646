//! The errors of streams.

use vstd::prelude::*;
use crate::error::{ExternalError, GroupMessageProcessingError, NotFound};
use crate::groups::error::GroupError;

verus! {

/// What a stream carries.
#[derive(Clone, Copy, Debug, PartialEq, Eq, Structural)]
pub enum StreamKind {
    All,
    Conversations,
    Messages,
}

/// Why a stream of conversations failed.
#[derive(Clone, Copy, Debug, PartialEq, Eq, Structural)]
pub enum ConversationStreamError {
    /// The type of a message in a welcome is not the expected one.
    InvalidPayload,
    /// The conversation is of a type that was not asked for.
    InvalidConversationType,
    /// The welcome that a pointer leads to is not there.
    WelcomePointerNotFound,
}

impl ConversationStreamError {
    /// Whether trying again can help: what a pointer leads to may still come.
    pub fn is_retryable(&self) -> (r: bool)
        ensures
            r == (*self == ConversationStreamError::WelcomePointerNotFound),
    {
        match self {
            ConversationStreamError::InvalidPayload => false,
            ConversationStreamError::InvalidConversationType => false,
            ConversationStreamError::WelcomePointerNotFound => true,
        }
    }
}

/// Why a stream of messages failed.
#[derive(Debug)]
pub enum MessageStreamError {
    /// The stream does not follow the group.
    NotSubscribed(Vec<u8>),
    InvalidPayload,
}

impl MessageStreamError {
    /// Whether trying again can help.
    pub fn is_retryable(&self) -> (r: bool)
        ensures
            !r,
    {
        match self {
            MessageStreamError::NotSubscribed(_) => false,
            MessageStreamError::InvalidPayload => false,
        }
    }
}

/// Why a subscription failed.
#[derive(Debug)]
pub enum SubscribeError {
    /// An operation on a group failed; `retryable` tells whether trying it again can help.
    Group { error: Box<GroupError>, retryable: bool },
    /// What is subscribed to is not there. Trying again can help.
    NotFound(NotFound),
    /// A message that should be stored is not. Trying again can help.
    GroupMessageNotFound,
    /// A streamed message could not be processed.
    ReceiveGroup(Box<GroupMessageProcessingError>),
    Storage(ExternalError),
    /// A message could not be decoded. Trying again does not help.
    Decode(ExternalError),
    /// A stream of messages failed. Trying again can help.
    MessageStream(MessageStreamError),
    /// A stream of conversations failed. Trying again can help.
    ConversationStream(ConversationStreamError),
    /// A request failed. Trying again can help.
    ApiClient(ExternalError),
    /// Any other error.
    BoxError(ExternalError),
    /// The store could not be reached. Trying again can help.
    Db(ExternalError),
    /// A message could not be converted. Trying again does not help.
    Conversion(ExternalError),
    Envelope(ExternalError),
}

impl SubscribeError {
    /// An error that has no variant of its own.
    pub fn dyn_err(other: ExternalError) -> (r: Self)
        ensures
            r == SubscribeError::BoxError(other),
    {
        SubscribeError::BoxError(other)
    }

    /// Whether trying again can help.
    pub open spec fn retryable(self) -> bool {
        match self {
            SubscribeError::Group { error: _, retryable } => retryable,
            SubscribeError::NotFound(_) => true,
            SubscribeError::GroupMessageNotFound => true,
            SubscribeError::ReceiveGroup(e) => e.retryable(),
            SubscribeError::Storage(e) => e.retryable,
            SubscribeError::Decode(_) => false,
            SubscribeError::MessageStream(_) => true,
            SubscribeError::ConversationStream(_) => true,
            SubscribeError::ApiClient(_) => true,
            SubscribeError::BoxError(e) => e.retryable,
            SubscribeError::Db(_) => true,
            SubscribeError::Conversion(_) => false,
            SubscribeError::Envelope(e) => e.retryable,
        }
    }

    /// Whether trying again can help.
    pub fn is_retryable(&self) -> (r: bool)
        ensures
            r == self.retryable(),
    {
        match self {
            SubscribeError::Group { error: _, retryable } => *retryable,
            SubscribeError::NotFound(_) => true,
            SubscribeError::GroupMessageNotFound => true,
            SubscribeError::ReceiveGroup(e) => e.is_retryable(),
            SubscribeError::Storage(e) => e.retryable,
            SubscribeError::Decode(_) => false,
            SubscribeError::MessageStream(_) => true,
            SubscribeError::ConversationStream(_) => true,
            SubscribeError::ApiClient(_) => true,
            SubscribeError::BoxError(e) => e.retryable,
            SubscribeError::Db(_) => true,
            SubscribeError::Conversion(_) => false,
            SubscribeError::Envelope(e) => e.retryable,
        }
    }
}

/// Trying again can help where something may still come or may be reached later; it never helps where a message could not
/// be decoded or converted. An error from outside says for itself whether it does.
pub proof fn decoding_is_never_tried_again(error: SubscribeError)
    ensures
        error is Decode || error is Conversion ==> !error.retryable(),
        error is NotFound || error is GroupMessageNotFound || error is MessageStream || error is ConversationStream
            || error is ApiClient || error is Db ==> error.retryable(),
        error matches SubscribeError::Storage(e) ==> error.retryable() == e.retryable,
        error matches SubscribeError::BoxError(e) ==> error.retryable() == e.retryable,
        error matches SubscribeError::Envelope(e) ==> error.retryable() == e.retryable,
        error matches SubscribeError::Group { error: _, retryable } ==> error.retryable() == retryable,
        error matches SubscribeError::ReceiveGroup(e) ==> error.retryable() == e.retryable(),
{
}

} // verus!
