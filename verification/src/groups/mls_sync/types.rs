//! What the steps of synchronization hand to each other.

use vstd::prelude::*;
use crate::bytes;
use crate::error::GroupMessageProcessingError;
use crate::records::IntentState;

verus! {

/// Why an intent was not resolved by the message that came back for it.
#[derive(Debug)]
pub struct IntentResolutionError {
    pub processing_error: GroupMessageProcessingError,
    /// The state that the intent takes if trying again cannot help.
    pub next_intent_state: IntentState,
}

impl IntentResolutionError {
    pub fn is_retryable(&self) -> (r: bool)
        ensures
            r == self.processing_error.retryable(),
    {
        self.processing_error.is_retryable()
    }
}

/// What is published for an intent, and what has to happen when it comes back.
#[derive(Debug)]
pub struct PublishIntentData {
    pub staged_commit: Option<Vec<u8>>,
    pub post_commit_action: Option<Vec<u8>>,
    /// Most intents have one payload; proposals have one each.
    pub payloads_to_publish: Vec<Vec<u8>>,
    pub should_send_push_notification: bool,
    pub group_epoch: u64,
}

/// The contents of an optional byte string.
pub open spec fn optional_bytes(b: Option<Vec<u8>>) -> Option<Seq<u8>> {
    match b {
        Some(b) => Some(b@),
        None => None,
    }
}

fn clone_optional(b: &Option<Vec<u8>>) -> (r: Option<Vec<u8>>)
    ensures
        optional_bytes(r) == optional_bytes(*b),
{
    match b {
        Some(b) => Some(bytes::clone_bytes(b.as_slice())),
        None => None,
    }
}

impl PublishIntentData {
    /// What has to happen once the commit is in.
    pub fn post_commit_data(&self) -> (r: Option<Vec<u8>>)
        ensures
            optional_bytes(r) == optional_bytes(self.post_commit_action),
    {
        clone_optional(&self.post_commit_action)
    }

    /// The commit that was staged for the intent.
    pub fn staged_commit(&self) -> (r: Option<Vec<u8>>)
        ensures
            optional_bytes(r) == optional_bytes(self.staged_commit),
    {
        clone_optional(&self.staged_commit)
    }
}

/// What has to happen after a commit, and the commit that was staged, are there exactly if they were given, as they were
/// given.
pub proof fn given_data_are_kept(given: Option<Vec<u8>>, kept: Option<Vec<u8>>)
    requires
        optional_bytes(kept) == optional_bytes(given),
    ensures
        kept is Some <==> given is Some,
        given matches Some(b) ==> kept is Some && kept->0@ == b@,
{
}

} // verus!
