//! What came of a pass of synchronization.

use vstd::prelude::*;
use crate::error::{GroupMessageProcessingError, MessageIdentifier};
use crate::groups::error::GroupError;
use crate::records::Cursor;

verus! {

/// What came of the messages of one pass.
#[derive(Debug)]
pub struct ProcessSummary {
    /// Every message that was tried.
    pub total_messages: Vec<Cursor>,
    /// The messages that went through.
    pub new_messages: Vec<MessageIdentifier>,
    /// The messages that failed.
    pub errored: Vec<(Cursor, GroupMessageProcessingError)>,
}

impl ProcessSummary {
    /// A pass without messages.
    pub fn new() -> (r: Self)
        ensures
            r.total_messages@.len() == 0,
            r.new_messages@.len() == 0,
            r.errored@.len() == 0,
    {
        ProcessSummary { total_messages: Vec::new(), new_messages: Vec::new(), errored: Vec::new() }
    }

    /// Notes that a message is tried.
    pub fn add_id(&mut self, cursor: Cursor)
        ensures
            final(self).total_messages@ == old(self).total_messages@.push(cursor),
            final(self).new_messages == old(self).new_messages,
            final(self).errored == old(self).errored,
    {
        self.total_messages.push(cursor);
    }

    /// Notes that a message went through.
    pub fn add(&mut self, message: MessageIdentifier)
        ensures
            final(self).new_messages@ == old(self).new_messages@.push(message),
            final(self).total_messages == old(self).total_messages,
            final(self).errored == old(self).errored,
    {
        self.new_messages.push(message);
    }

    /// Notes that a message failed.
    pub fn errored(&mut self, cursor: Cursor, error: GroupMessageProcessingError)
        ensures
            final(self).errored@ == old(self).errored@.push((cursor, error)),
            final(self).total_messages == old(self).total_messages,
            final(self).new_messages == old(self).new_messages,
    {
        self.errored.push((cursor, error));
    }

    /// Whether some message failed.
    pub fn is_errored(&self) -> (r: bool)
        ensures
            r == (self.errored@.len() > 0),
    {
        self.errored.len() > 0
    }

    /// Takes in what came of a later pass.
    pub fn extend(&mut self, other: ProcessSummary)
        ensures
            final(self).total_messages@ == old(self).total_messages@ + other.total_messages@,
            final(self).new_messages@ == old(self).new_messages@ + other.new_messages@,
            final(self).errored@ == old(self).errored@ + other.errored@,
    {
        let mut other = other;
        self.total_messages.append(&mut other.total_messages);
        self.new_messages.append(&mut other.new_messages);
        self.errored.append(&mut other.errored);
    }
}

/// What came of a whole pass: publishing, receiving and the work after a commit.
#[derive(Debug)]
pub struct SyncSummary {
    pub publish_errors: Vec<GroupError>,
    pub process: ProcessSummary,
    pub post_commit_errors: Vec<GroupError>,
    pub other: Vec<GroupError>,
}

impl SyncSummary {
    /// Whether anything of the pass failed.
    pub open spec fn failed(self) -> bool {
        ||| self.publish_errors@.len() > 0
        ||| self.process.errored@.len() > 0
        ||| self.post_commit_errors@.len() > 0
        ||| self.other@.len() > 0
    }

    /// Whether nothing at all is recorded.
    pub open spec fn empty(self) -> bool {
        &&& !self.failed()
        &&& self.process.total_messages@.len() == 0
        &&& self.process.new_messages@.len() == 0
    }

    /// A pass in which nothing has happened.
    pub fn new() -> (r: Self)
        ensures
            r.empty(),
    {
        SyncSummary {
            publish_errors: Vec::new(),
            process: ProcessSummary::new(),
            post_commit_errors: Vec::new(),
            other: Vec::new(),
        }
    }

    /// A pass that failed before it began.
    pub fn other(error: GroupError) -> (r: Self)
        ensures
            r.publish_errors@.len() == 0,
            r.post_commit_errors@.len() == 0,
            r.process.total_messages@.len() == 0,
            r.process.new_messages@.len() == 0,
            r.process.errored@.len() == 0,
            r.other@ == seq![error],
    {
        let mut summary = SyncSummary::new();
        summary.other.push(error);
        assert(summary.other@ =~= seq![error]);
        summary
    }

    pub fn add_publish_err(&mut self, error: GroupError)
        ensures
            *final(self) == (SyncSummary { publish_errors: final(self).publish_errors, ..*old(self) }),
            final(self).publish_errors@ == old(self).publish_errors@.push(error),
    {
        self.publish_errors.push(error);
    }

    pub fn add_post_commit_err(&mut self, error: GroupError)
        ensures
            *final(self) == (SyncSummary { post_commit_errors: final(self).post_commit_errors, ..*old(self) }),
            final(self).post_commit_errors@ == old(self).post_commit_errors@.push(error),
    {
        self.post_commit_errors.push(error);
    }

    pub fn add_other(&mut self, error: GroupError)
        ensures
            *final(self) == (SyncSummary { other: final(self).other, ..*old(self) }),
            final(self).other@ == old(self).other@.push(error),
    {
        self.other.push(error);
    }

    /// Takes in what came of the messages.
    pub fn add_process(&mut self, process: ProcessSummary)
        ensures
            *final(self) == (SyncSummary { process: final(self).process, ..*old(self) }),
            final(self).process.total_messages@ == old(self).process.total_messages@ + process.total_messages@,
            final(self).process.new_messages@ == old(self).process.new_messages@ + process.new_messages@,
            final(self).process.errored@ == old(self).process.errored@ + process.errored@,
    {
        self.process.extend(process);
    }

    /// Whether anything of the pass failed.
    pub fn is_errored(&self) -> (r: bool)
        ensures
            r == self.failed(),
    {
        self.publish_errors.len() > 0 || self.process.is_errored() || self.post_commit_errors.len() > 0
            || self.other.len() > 0
    }

    /// Takes in what came of a later pass.
    pub fn extend(&mut self, later: SyncSummary)
        ensures
            final(self).publish_errors@ == old(self).publish_errors@ + later.publish_errors@,
            final(self).post_commit_errors@ == old(self).post_commit_errors@ + later.post_commit_errors@,
            final(self).other@ == old(self).other@ + later.other@,
            final(self).process.total_messages@ == old(self).process.total_messages@
                + later.process.total_messages@,
            final(self).process.new_messages@ == old(self).process.new_messages@ + later.process.new_messages@,
            final(self).process.errored@ == old(self).process.errored@ + later.process.errored@,
    {
        let mut later = later;
        self.publish_errors.append(&mut later.publish_errors);
        self.post_commit_errors.append(&mut later.post_commit_errors);
        self.other.append(&mut later.other);
        self.process.extend(later.process);
    }
}

} // verus!
