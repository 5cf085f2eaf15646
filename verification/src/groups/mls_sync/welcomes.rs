//! Welcomes for installations that join a group, and the keys by which push servers filter.

use vstd::prelude::*;
use crate::groups::group::MlsGroup;
use crate::bytes;
use crate::crypto;
use crate::groups::error::GroupError;

verus! {

/// An installation that joins.
#[derive(Debug)]
pub struct Installation {
    pub installation_key: Vec<u8>,
    pub hpke_public_key: Vec<u8>,
    pub welcome_wrapper_algorithm: i32,
    /// Whether the installation can follow a pointer to a welcome.
    pub follows_pointers: bool,
}

/// How many installations can follow a pointer.
pub open spec fn followers(installations: Seq<Installation>) -> nat
    decreases installations.len(),
{
    if installations.len() == 0 {
        0
    } else {
        followers(installations.drop_last()) + (if installations.last().follows_pointers {
            1nat
        } else {
            0
        })
    }
}

/// How an installation is welcomed.
#[derive(Clone, Copy, Debug, PartialEq, Eq, Structural)]
pub enum WelcomeForm {
    /// With a pointer to the welcome that all share.
    Pointer,
    /// With a welcome of its own.
    Direct,
}

/// How an installation is welcomed, where a shared welcome is or is not sent.
pub open spec fn form_of(installation: Installation, uses_pointer: bool) -> WelcomeForm {
    if uses_pointer && installation.follows_pointers {
        WelcomeForm::Pointer
    } else {
        WelcomeForm::Direct
    }
}

fn count_followers(installations: &Vec<Installation>) -> (n: usize)
    ensures
        n == followers(installations@),
        n <= installations@.len(),
{
    let mut n: usize = 0;
    let mut i: usize = 0;
    assert(installations@.take(0) =~= Seq::<Installation>::empty());
    while i < installations.len()
        invariant
            i <= installations@.len(),
            n <= i,
            n == followers(installations@.take(i as int)),
        decreases installations@.len() - i,
    {
        assert(installations@.take(i + 1).drop_last() =~= installations@.take(i as int));
        assert(installations@.take(i + 1).last() == installations@[i as int]);
        if installations[i].follows_pointers {
            n += 1;
        }
        i += 1;
    }
    assert(installations@.take(i as int) =~= installations@);
    n
}

/// What a welcome tells about the state that it leads to.
#[derive(Clone, Copy, Debug, PartialEq, Eq, Structural)]
pub struct WelcomeMetadata {
    pub message_cursor: u64,
    pub added_by_inbox_is_pending_remove: bool,
}

/// A welcome, ready to be sent.
#[derive(Debug)]
pub enum WelcomeMessageInput {
    V1 {
        installation_key: Vec<u8>,
        data: Vec<u8>,
        hpke_public_key: Vec<u8>,
        wrapper_algorithm: i32,
        welcome_metadata: Vec<u8>,
    },
    WelcomePointer {
        installation_key: Vec<u8>,
        welcome_pointer: Vec<u8>,
        hpke_public_key: Vec<u8>,
        wrapper_algorithm: i32,
    },
    /// A welcome without content.
    Unversioned,
}

/// How many bytes a welcome takes, but for its framing.
pub open spec fn welcome_size(w: WelcomeMessageInput, fallback: int) -> int {
    match w {
        WelcomeMessageInput::V1 { installation_key, data, hpke_public_key, wrapper_algorithm: _, welcome_metadata } => (
        installation_key@.len() + data@.len() + hpke_public_key@.len() + welcome_metadata@.len()) as int,
        WelcomeMessageInput::WelcomePointer {
            installation_key,
            welcome_pointer,
            hpke_public_key,
            wrapper_algorithm: _,
        } => (installation_key@.len() + welcome_pointer@.len() + hpke_public_key@.len()) as int,
        WelcomeMessageInput::Unversioned => fallback,
    }
}

/// How many welcomes go into one request: as many of the size of the first as fit, at least one and
/// at most fifty.
pub open spec fn welcome_chunk_size(size: int, payload_limit: int) -> int {
    let fitting = payload_limit / (if size < 1 {
        1
    } else {
        size
    });
    if fitting < 1 {
        1
    } else if fitting > 50 {
        50
    } else {
        fitting
    }
}

/// How many welcomes go into one request.
fn chunk_size_of(first: &WelcomeMessageInput, payload_limit: usize, max_group_size: usize) -> (n: usize)
    requires
        max_group_size > 0,
    ensures
        n == welcome_chunk_size(
            welcome_size(*first, payload_limit as int / max_group_size as int),
            payload_limit as int,
        ),
        n > 0,
{
    let size: u128 = match first {
        WelcomeMessageInput::V1 { installation_key, data, hpke_public_key, wrapper_algorithm: _, welcome_metadata } => {
            installation_key.len() as u128 + data.len() as u128 + hpke_public_key.len() as u128
                + welcome_metadata.len() as u128
        },
        WelcomeMessageInput::WelcomePointer {
            installation_key,
            welcome_pointer,
            hpke_public_key,
            wrapper_algorithm: _,
        } => installation_key.len() as u128 + welcome_pointer.len() as u128 + hpke_public_key.len() as u128,
        WelcomeMessageInput::Unversioned => (payload_limit / max_group_size) as u128,
    };
    let per_welcome: u128 = if size < 1 {
        1
    } else {
        size
    };
    let fitting: u128 = payload_limit as u128 / per_welcome;
    if fitting < 1 {
        1
    } else if fitting > 50 {
        50
    } else {
        fitting as usize
    }
}

/// The requests that welcomes are sent in.
pub open spec fn are_chunks(chunks: Seq<Vec<WelcomeMessageInput>>, welcomes: Seq<WelcomeMessageInput>, size: int) -> bool {
    &&& flattened(chunks) == welcomes
    &&& forall|i: int| 0 <= i < chunks.len() ==> 1 <= (#[trigger] chunks[i])@.len() <= size
    &&& forall|i: int| 0 <= i < chunks.len() - 1 ==> (#[trigger] chunks[i])@.len() == size
}

/// The welcomes of requests, one after the other.
pub open spec fn flattened(chunks: Seq<Vec<WelcomeMessageInput>>) -> Seq<WelcomeMessageInput>
    decreases chunks.len(),
{
    if chunks.len() == 0 {
        seq![]
    } else {
        flattened(chunks.drop_last()) + chunks.last()@
    }
}

/// Sorts welcomes into requests: each welcome is in exactly one, in their order, and all requests
/// but the last are full.
fn chunk_welcomes(welcomes: Vec<WelcomeMessageInput>, size: usize) -> (r: Vec<Vec<WelcomeMessageInput>>)
    requires
        size > 0,
    ensures
        are_chunks(r@, welcomes@, size as int),
{
    let ghost all = welcomes@;
    let mut rest = welcomes;
    let mut chunks: Vec<Vec<WelcomeMessageInput>> = Vec::new();
    assert(flattened(chunks@) + rest@ =~= all);
    while rest.len() > 0
        invariant
            size > 0,
            flattened(chunks@) + rest@ == all,
            forall|i: int| 0 <= i < chunks@.len() ==> 1 <= (#[trigger] chunks@[i])@.len() <= size,
            forall|i: int|
                0 <= i < chunks@.len() && (i < chunks@.len() - 1 || rest@.len() > 0) ==> (#[trigger] chunks@[i])@.len()
                    == size,
        decreases rest@.len(),
    {
        let ghost before = chunks@;
        let ghost left = rest@;
        let take: usize = if rest.len() < size {
            rest.len()
        } else {
            size
        };
        let tail = rest.split_off(take);
        let ghost head = rest@;
        chunks.push(rest);
        rest = tail;
        proof {
            assert(chunks@.drop_last() =~= before);
            assert(head + rest@ =~= left);
            assert(flattened(chunks@) + rest@ =~= flattened(before) + (head + rest@));
        }
    }
    assert(flattened(chunks@) =~= all);
    chunks
}

/// The welcome of an installation. `wrapped` is what was wrapped for it: the pointer, or the welcome
/// and what it tells.
pub open spec fn welcome_of(installation: Installation, form: WelcomeForm, wrapped: (Vec<u8>, Vec<u8>)) ->
    WelcomeMessageInput {
    match form {
        WelcomeForm::Pointer => WelcomeMessageInput::WelcomePointer {
            installation_key: installation.installation_key,
            welcome_pointer: wrapped.0,
            hpke_public_key: installation.hpke_public_key,
            wrapper_algorithm: installation.welcome_wrapper_algorithm,
        },
        WelcomeForm::Direct => WelcomeMessageInput::V1 {
            installation_key: installation.installation_key,
            data: wrapped.0,
            hpke_public_key: installation.hpke_public_key,
            wrapper_algorithm: installation.welcome_wrapper_algorithm,
            welcome_metadata: wrapped.1,
        },
    }
}

fn welcome_for(installation: Installation, form: WelcomeForm, wrapped: (Vec<u8>, Vec<u8>)) -> (r: WelcomeMessageInput)
    ensures
        r == welcome_of(installation, form, wrapped),
{
    match form {
        WelcomeForm::Pointer => WelcomeMessageInput::WelcomePointer {
            installation_key: installation.installation_key,
            welcome_pointer: wrapped.0,
            hpke_public_key: installation.hpke_public_key,
            wrapper_algorithm: installation.welcome_wrapper_algorithm,
        },
        WelcomeForm::Direct => WelcomeMessageInput::V1 {
            installation_key: installation.installation_key,
            data: wrapped.0,
            hpke_public_key: installation.hpke_public_key,
            wrapper_algorithm: installation.welcome_wrapper_algorithm,
            welcome_metadata: wrapped.1,
        },
    }
}

/// Whether a welcome is the one that pointers lead to. It is addressed to a random place, and only the
/// symmetric key in the pointers opens it.
pub open spec fn is_shared_welcome(w: WelcomeMessageInput, shared: SharedWelcome, symmetric_algorithm: i32) -> bool {
    &&& w matches WelcomeMessageInput::V1 {
        installation_key,
        data,
        hpke_public_key,
        wrapper_algorithm,
        welcome_metadata,
    }
    &&& installation_key == shared.destination
    &&& data == shared.data
    &&& hpke_public_key@.len() == 0
    &&& wrapper_algorithm == symmetric_algorithm
    &&& welcome_metadata == shared.welcome_metadata
}

/// A welcome that was encrypted with a symmetric key, with the place that it is left at.
#[derive(Debug)]
pub struct SharedWelcome {
    pub destination: Vec<u8>,
    pub data: Vec<u8>,
    pub welcome_metadata: Vec<u8>,
}

/// The limits that welcomes are sent within.
#[derive(Clone, Copy, Debug, PartialEq, Eq, Structural)]
pub struct WelcomeLimits {
    /// A shared welcome is used where more installations than this can follow pointers.
    pub pointer_threshold: usize,
    /// How many bytes a request can take.
    pub payload_limit: usize,
    pub max_group_size: usize,
    /// The number of the wrapping with a symmetric key.
    pub symmetric_algorithm: i32,
}

/// What sending welcomes waits for.
#[derive(Debug)]
pub enum WelcomePhase {
    /// Whether the own inbox is about to leave the group.
    CheckingRemoval,
    /// A fresh key, two nonces and a place for a shared welcome.
    Drawing,
    /// Another second nonce, where both were the same.
    RedrawingNonce { data_nonce: Vec<u8> },
    /// The shared welcome encrypted.
    WrappingShared,
    /// What an installation gets wrapped for it.
    Wrapping,
    Sending,
    Done,
}

/// Welcomes that are being sent.
#[derive(Debug)]
pub struct WelcomePass {
    pub phase: WelcomePhase,
    pub limits: WelcomeLimits,
    /// What the welcomes tell.
    pub metadata: WelcomeMetadata,
    /// Whether a shared welcome is used.
    pub uses_pointer: bool,
    /// The installations that are still to be welcomed.
    pub rest: Vec<Installation>,
    /// The welcomes that are ready.
    pub welcomes: Vec<WelcomeMessageInput>,
}

impl WelcomePass {
    /// Whether the limits of a pass make sense.
    pub open spec fn wf(self) -> bool {
        self.limits.max_group_size > 0
    }
}

/// What has happened outside.
#[derive(Debug)]
pub enum WelcomeEvent {
    RemovalChecked(Result<bool, GroupError>),
    SecretsDrawn { data_nonce: Vec<u8>, metadata_nonce: Vec<u8> },
    NonceDrawn(Vec<u8>),
    SharedWrapped(Result<SharedWelcome, GroupError>),
    /// The pointer, or the welcome and what it tells, wrapped for an installation.
    Wrapped(Result<(Vec<u8>, Vec<u8>), GroupError>),
    Sent(Result<(), GroupError>),
}

/// What is to be done next outside.
#[derive(Debug)]
pub enum WelcomeAction {
    CheckRemoval,
    DrawSecrets,
    RedrawNonce,
    /// Encrypt the welcome and what it tells with the symmetric key, each with its own nonce.
    WrapShared,
    /// Wrap the pointer to the shared welcome, or the welcome itself, for a public key.
    Wrap { form: WelcomeForm, hpke_public_key: Vec<u8>, algorithm: i32 },
    /// Send all requests at once.
    Send(Vec<Vec<WelcomeMessageInput>>),
    Finish(Result<(), GroupError>),
    Ignore,
}

/// Whether sending welcomes ends.
pub open spec fn welcome_ends(
    before: WelcomePass,
    result: Result<(), GroupError>,
    after: WelcomePass,
    action: WelcomeAction,
) -> bool {
    &&& after == (WelcomePass { phase: WelcomePhase::Done, ..before })
    &&& action == WelcomeAction::Finish(result)
}

/// Whether the next installation has its welcome wrapped, or all welcomes are sent after the last, in
/// requests of the right size.
pub open spec fn wraps_next(
    before: WelcomePass,
    rest: Seq<Installation>,
    welcomes: Seq<WelcomeMessageInput>,
    after: WelcomePass,
    action: WelcomeAction,
) -> bool {
    &&& after.limits == before.limits
    &&& after.metadata == before.metadata
    &&& after.uses_pointer == before.uses_pointer
    &&& if rest.len() > 0 {
        &&& after.phase is Wrapping
        &&& after.rest@ == rest
        &&& after.welcomes@ == welcomes
        &&& action matches WelcomeAction::Wrap { form, hpke_public_key, algorithm }
        &&& form == form_of(rest[0], before.uses_pointer)
        &&& hpke_public_key@ == rest[0].hpke_public_key@
        &&& algorithm == rest[0].welcome_wrapper_algorithm
    } else if welcomes.len() == 0 {
        after.phase is Done && action == WelcomeAction::Finish(Err(GroupError::NoWelcomesToSend))
    } else {
        &&& after.phase is Sending
        &&& action matches WelcomeAction::Send(chunks)
        &&& are_chunks(
            chunks@,
            welcomes,
            welcome_chunk_size(
                welcome_size(
                    welcomes[0],
                    before.limits.payload_limit as int / before.limits.max_group_size as int,
                ),
                before.limits.payload_limit as int,
            ),
        )
    }
}

/// Whether a second nonce is taken: it must differ from the first, as both go with one key.
pub open spec fn takes_nonce(
    before: WelcomePass,
    data_nonce: Vec<u8>,
    metadata_nonce: Vec<u8>,
    after: WelcomePass,
    action: WelcomeAction,
) -> bool {
    if data_nonce@ == metadata_nonce@ {
        &&& after == (WelcomePass { phase: WelcomePhase::RedrawingNonce { data_nonce }, ..before })
        &&& action is RedrawNonce
    } else {
        &&& after == (WelcomePass { phase: WelcomePhase::WrappingShared, ..before })
        &&& action is WrapShared
    }
}

/// The transitions of sending welcomes.
pub open spec fn is_welcome_step(
    before: WelcomePass,
    event: WelcomeEvent,
    after: WelcomePass,
    action: WelcomeAction,
) -> bool {
    match (before.phase, event) {
        (WelcomePhase::CheckingRemoval, WelcomeEvent::RemovalChecked(outcome)) => match outcome {
            Err(e) => welcome_ends(before, Err(e), after, action),
            Ok(pending) => {
                let told = WelcomePass {
                    metadata: WelcomeMetadata { added_by_inbox_is_pending_remove: pending, ..before.metadata },
                    ..before
                };
                if before.uses_pointer {
                    &&& after == (WelcomePass { phase: WelcomePhase::Drawing, ..told })
                    &&& action is DrawSecrets
                } else {
                    wraps_next(told, before.rest@, before.welcomes@, after, action)
                }
            },
        },
        (WelcomePhase::Drawing, WelcomeEvent::SecretsDrawn { data_nonce, metadata_nonce }) => takes_nonce(
            before,
            data_nonce,
            metadata_nonce,
            after,
            action,
        ),
        (WelcomePhase::RedrawingNonce { data_nonce }, WelcomeEvent::NonceDrawn(metadata_nonce)) => takes_nonce(
            before,
            data_nonce,
            metadata_nonce,
            after,
            action,
        ),
        (WelcomePhase::WrappingShared, WelcomeEvent::SharedWrapped(outcome)) => match outcome {
            Err(e) => welcome_ends(before, Err(e), after, action),
            Ok(shared) => exists|w: WelcomeMessageInput|
                #[trigger] is_shared_welcome(w, shared, before.limits.symmetric_algorithm) && wraps_next(
                    before,
                    before.rest@,
                    before.welcomes@.push(w),
                    after,
                    action,
                ),
        },
        (WelcomePhase::Wrapping, WelcomeEvent::Wrapped(outcome)) => match outcome {
            Err(e) => welcome_ends(before, Err(e), after, action),
            Ok(wrapped) => if before.rest@.len() > 0 {
                wraps_next(
                    before,
                    before.rest@.skip(1),
                    before.welcomes@.push(
                        welcome_of(before.rest@[0], form_of(before.rest@[0], before.uses_pointer), wrapped),
                    ),
                    after,
                    action,
                )
            } else {
                after == before && action is Ignore
            },
        },
        (WelcomePhase::Sending, WelcomeEvent::Sent(outcome)) => welcome_ends(before, outcome, after, action),
        _ => after == before && action is Ignore,
    }
}

fn wrap_next(pass: WelcomePass) -> (r: (WelcomePass, WelcomeAction))
    requires
        pass.wf(),
    ensures
        wraps_next(pass, pass.rest@, pass.welcomes@, r.0, r.1),
{
    let WelcomePass { phase: _, limits, metadata, uses_pointer, rest, welcomes } = pass;
    if rest.len() > 0 {
        let form = if uses_pointer && rest[0].follows_pointers {
            WelcomeForm::Pointer
        } else {
            WelcomeForm::Direct
        };
        let hpke_public_key = bytes::clone_bytes(rest[0].hpke_public_key.as_slice());
        let algorithm: i32 = rest[0].welcome_wrapper_algorithm;
        return (
            WelcomePass { phase: WelcomePhase::Wrapping, limits, metadata, uses_pointer, rest, welcomes },
            WelcomeAction::Wrap { form, hpke_public_key, algorithm },
        );
    }
    if welcomes.len() == 0 {
        return (
            WelcomePass { phase: WelcomePhase::Done, limits, metadata, uses_pointer, rest, welcomes },
            WelcomeAction::Finish(Err(GroupError::NoWelcomesToSend)),
        );
    }
    let size: usize = chunk_size_of(&welcomes[0], limits.payload_limit, limits.max_group_size);
    let chunks = chunk_welcomes(welcomes, size);
    (
        WelcomePass { phase: WelcomePhase::Sending, limits, metadata, uses_pointer, rest, welcomes: Vec::new() },
        WelcomeAction::Send(chunks),
    )
}

fn take_nonce(pass: WelcomePass, data_nonce: Vec<u8>, metadata_nonce: Vec<u8>) -> (r: (WelcomePass, WelcomeAction))
    ensures
        takes_nonce(pass, data_nonce, metadata_nonce, r.0, r.1),
{
    if bytes::bytes_equal(data_nonce.as_slice(), metadata_nonce.as_slice()) {
        (
            WelcomePass { phase: WelcomePhase::RedrawingNonce { data_nonce }, ..pass },
            WelcomeAction::RedrawNonce,
        )
    } else {
        (WelcomePass { phase: WelcomePhase::WrappingShared, ..pass }, WelcomeAction::WrapShared)
    }
}

fn welcome_end(pass: WelcomePass, result: Result<(), GroupError>) -> (r: (WelcomePass, WelcomeAction))
    ensures
        welcome_ends(pass, result, r.0, r.1),
{
    (WelcomePass { phase: WelcomePhase::Done, ..pass }, WelcomeAction::Finish(result))
}

/// Whether the sending of welcomes begins.
pub open spec fn begins_welcomes(
    installations: Vec<Installation>,
    message_cursor: Option<i64>,
    limits: WelcomeLimits,
    pass: WelcomePass,
    action: WelcomeAction,
) -> bool {
    &&& pass.phase is CheckingRemoval
    &&& pass.limits == limits
    &&& pass.metadata.message_cursor == (match message_cursor {
        Some(c) => c as u64,
        None => 0u64,
    })
    &&& pass.uses_pointer == (followers(installations@) > limits.pointer_threshold)
    &&& pass.rest == installations
    &&& pass.welcomes@.len() == 0
    &&& action is CheckRemoval
}

impl MlsGroup {
    /// Begins to send welcomes to installations. Without a cursor the welcomes tell the start. A shared
    /// welcome with pointers to it is worth it only where more installations than a threshold can follow
    /// pointers; the others get welcomes of their own.
    pub fn send_welcomes(
        &self,
        installations: Vec<Installation>,
        message_cursor: Option<i64>,
        limits: WelcomeLimits,
    ) -> (r: (WelcomePass, WelcomeAction))
        requires
            limits.max_group_size > 0,
        ensures
            r.0.wf(),
            begins_welcomes(installations, message_cursor, limits, r.0, r.1),
    {
        let cursor: i64 = match message_cursor {
            Some(c) => c,
            None => 0,
        };
        let uses_pointer: bool = count_followers(&installations) > limits.pointer_threshold;
        (
            WelcomePass {
                phase: WelcomePhase::CheckingRemoval,
                limits,
                metadata: WelcomeMetadata {
                    message_cursor: cursor as u64,
                    added_by_inbox_is_pending_remove: false,
                },
                uses_pointer,
                rest: installations,
                welcomes: Vec::new(),
            },
            WelcomeAction::CheckRemoval,
        )
    }
}

/// Takes sending welcomes one step further. One that cannot be wrapped keeps all from being sent.
pub fn send_welcomes_step(pass: WelcomePass, event: WelcomeEvent) -> (r: (WelcomePass, WelcomeAction))
    requires
        pass.wf(),
    ensures
        is_welcome_step(pass, event, r.0, r.1),
        r.0.wf(),
{
    let WelcomePass { phase, limits, metadata, uses_pointer, rest, welcomes } = pass;
    match (phase, event) {
        (WelcomePhase::CheckingRemoval, WelcomeEvent::RemovalChecked(outcome)) => match outcome {
            Err(e) => welcome_end(
                WelcomePass { phase: WelcomePhase::Done, limits, metadata, uses_pointer, rest, welcomes },
                Err(e),
            ),
            Ok(pending) => {
                let metadata = WelcomeMetadata { added_by_inbox_is_pending_remove: pending, ..metadata };
                let told = WelcomePass { phase: WelcomePhase::Drawing, limits, metadata, uses_pointer, rest, welcomes };
                if uses_pointer {
                    (told, WelcomeAction::DrawSecrets)
                } else {
                    wrap_next(told)
                }
            },
        },
        (WelcomePhase::Drawing, WelcomeEvent::SecretsDrawn { data_nonce, metadata_nonce }) => take_nonce(
            WelcomePass { phase: WelcomePhase::Drawing, limits, metadata, uses_pointer, rest, welcomes },
            data_nonce,
            metadata_nonce,
        ),
        (WelcomePhase::RedrawingNonce { data_nonce }, WelcomeEvent::NonceDrawn(metadata_nonce)) => take_nonce(
            WelcomePass { phase: WelcomePhase::Drawing, limits, metadata, uses_pointer, rest, welcomes },
            data_nonce,
            metadata_nonce,
        ),
        (WelcomePhase::WrappingShared, WelcomeEvent::SharedWrapped(outcome)) => match outcome {
            Err(e) => welcome_end(
                WelcomePass { phase: WelcomePhase::Done, limits, metadata, uses_pointer, rest, welcomes },
                Err(e),
            ),
            Ok(shared) => {
                let mut welcomes = welcomes;
                let w = WelcomeMessageInput::V1 {
                    installation_key: shared.destination,
                    data: shared.data,
                    hpke_public_key: Vec::new(),
                    wrapper_algorithm: limits.symmetric_algorithm,
                    welcome_metadata: shared.welcome_metadata,
                };
                assert(is_shared_welcome(w, shared, limits.symmetric_algorithm));
                welcomes.push(w);
                wrap_next(WelcomePass { phase: WelcomePhase::Wrapping, limits, metadata, uses_pointer, rest, welcomes })
            },
        },
        (WelcomePhase::Wrapping, WelcomeEvent::Wrapped(outcome)) => match outcome {
            Err(e) => welcome_end(
                WelcomePass { phase: WelcomePhase::Done, limits, metadata, uses_pointer, rest, welcomes },
                Err(e),
            ),
            Ok(wrapped) => {
                let mut rest = rest;
                let mut welcomes = welcomes;
                if rest.len() == 0 {
                    return (
                        WelcomePass { phase: WelcomePhase::Wrapping, limits, metadata, uses_pointer, rest, welcomes },
                        WelcomeAction::Ignore,
                    );
                }
                let ghost all = rest@;
                let installation = rest.remove(0);
                assert(rest@ =~= all.skip(1));
                let form = if uses_pointer && installation.follows_pointers {
                    WelcomeForm::Pointer
                } else {
                    WelcomeForm::Direct
                };
                welcomes.push(welcome_for(installation, form, wrapped));
                wrap_next(WelcomePass { phase: WelcomePhase::Wrapping, limits, metadata, uses_pointer, rest, welcomes })
            },
        },
        (WelcomePhase::Sending, WelcomeEvent::Sent(outcome)) => welcome_end(
            WelcomePass { phase: WelcomePhase::Done, limits, metadata, uses_pointer, rest, welcomes },
            outcome,
        ),
        (phase, _) => (
            WelcomePass { phase, limits, metadata, uses_pointer, rest, welcomes },
            WelcomeAction::Ignore,
        ),
    }
}

/// Whom a welcome is addressed to.
pub open spec fn addressee(w: WelcomeMessageInput) -> Seq<u8> {
    match w {
        WelcomeMessageInput::V1 {
            installation_key,
            data: _,
            hpke_public_key: _,
            wrapper_algorithm: _,
            welcome_metadata: _,
        } => installation_key@,
        WelcomeMessageInput::WelcomePointer {
            installation_key,
            welcome_pointer: _,
            hpke_public_key: _,
            wrapper_algorithm: _,
        } => installation_key@,
        WelcomeMessageInput::Unversioned => seq![],
    }
}

/// How many shared welcomes are sent.
pub open spec fn shared_count(uses_pointer: bool) -> int {
    if uses_pointer {
        1
    } else {
        0
    }
}

/// Whether welcomes are those of the first installations, in their order, behind the shared one where
/// there is one.
pub open spec fn are_welcomes_of(
    welcomes: Seq<WelcomeMessageInput>,
    installations: Seq<Installation>,
    n: int,
    uses_pointer: bool,
) -> bool {
    &&& 0 <= n <= installations.len()
    &&& welcomes.len() == shared_count(uses_pointer) + n
    &&& forall|i: int|
        0 <= i < n ==> addressee(welcomes[shared_count(uses_pointer) + i]) == (
        #[trigger] installations[i]).installation_key@
}

/// Whether a pass stands where the welcomes of some installations are ready and the others are still to
/// come.
pub open spec fn is_on_course(pass: WelcomePass, installations: Seq<Installation>) -> bool {
    let n = installations.len() - pass.rest@.len();
    &&& 0 <= n <= installations.len()
    &&& pass.rest@ == installations.skip(n)
    &&& are_welcomes_of(pass.welcomes@, installations, n, pass.uses_pointer)
}

/// Every installation is welcomed exactly once, in their order, and beside them only the shared welcome is
/// sent, where one is used: a pass that wraps welcomes stays on course, and sends the welcomes of all
/// installations.
pub proof fn every_installation_is_welcomed(
    installations: Seq<Installation>,
    before: WelcomePass,
    event: WelcomeEvent,
    after: WelcomePass,
    action: WelcomeAction,
)
    requires
        before.phase is Wrapping,
        is_on_course(before, installations),
        is_welcome_step(before, event, after, action),
    ensures
        after.phase is Wrapping ==> is_on_course(after, installations),
        action matches WelcomeAction::Send(chunks) ==> are_welcomes_of(
            flattened(chunks@),
            installations,
            installations.len() as int,
            before.uses_pointer,
        ),
{
    if before.rest@.len() > 0 {
        let n = installations.len() - before.rest@.len();
        assert(before.rest@.skip(1) =~= installations.skip(n + 1));
        assert(before.rest@[0] == installations[n]);
        if let WelcomeEvent::Wrapped(Ok(wrapped)) = event {
            let ready = before.welcomes@.push(
                welcome_of(before.rest@[0], form_of(before.rest@[0], before.uses_pointer), wrapped),
            );
            assert(are_welcomes_of(ready, installations, n + 1, before.uses_pointer));
        }
    }
}

/// Wrapping begins on course: with the shared welcome alone, where one is used, and else with none.
pub proof fn wrapping_begins_on_course(
    installations: Seq<Installation>,
    before: WelcomePass,
    event: WelcomeEvent,
    after: WelcomePass,
    action: WelcomeAction,
)
    requires
        before.rest@ == installations,
        before.welcomes@.len() == 0,
        before.phase is CheckingRemoval || (before.phase is WrappingShared && before.uses_pointer),
        is_welcome_step(before, event, after, action),
        after.phase is Wrapping,
    ensures
        is_on_course(after, installations),
{
    assert(installations.skip(0) =~= installations);
}

/// As many installations can follow a pointer as there are that can: one more for each, wherever it stands.
pub proof fn followers_are_counted(a: Seq<Installation>, b: Seq<Installation>)
    ensures
        followers(a + b) == followers(a) + followers(b),
        followers(a) <= a.len(),
        (forall|i: int| 0 <= i < a.len() ==> (#[trigger] a[i]).follows_pointers) ==> followers(a) == a.len(),
        (forall|i: int| 0 <= i < a.len() ==> !(#[trigger] a[i]).follows_pointers) ==> followers(a) == 0,
    decreases a.len() + b.len(),
{
    if b.len() > 0 {
        assert((a + b).drop_last() =~= a + b.drop_last());
        assert((a + b).last() == b.last());
        followers_are_counted(a, b.drop_last());
    } else {
        assert(a + b =~= a);
        if a.len() > 0 {
            let init = a.drop_last();
            followers_are_counted(init, b);
            assert(init + b =~= init);
            if forall|i: int| 0 <= i < a.len() ==> (#[trigger] a[i]).follows_pointers {
                assert(forall|i: int| 0 <= i < init.len() ==> #[trigger] init[i] == a[i]);
                assert(a[a.len() - 1].follows_pointers);
            }
            if forall|i: int| 0 <= i < a.len() ==> !(#[trigger] a[i]).follows_pointers {
                assert(forall|i: int| 0 <= i < init.len() ==> #[trigger] init[i] == a[i]);
                assert(!a[a.len() - 1].follows_pointers);
            }
        }
    }
}

/// Sending welcomes begins by seeing whether who adds is about to leave, and the welcomes tell that and the cursor
/// of the commit. Secrets for a shared welcome are drawn exactly if more installations than the threshold can
/// follow pointers; else the first installation has its own welcome wrapped for it.
pub proof fn welcomes_begin(
    installations: Vec<Installation>,
    message_cursor: Option<i64>,
    limits: WelcomeLimits,
    pending: bool,
    p: Seq<WelcomePass>,
    a: Seq<WelcomeAction>,
)
    requires
        p.len() == 2,
        a.len() == 2,
        installations@.len() > 0,
        begins_welcomes(installations, message_cursor, limits, p[0], a[0]),
        is_welcome_step(p[0], WelcomeEvent::RemovalChecked(Ok(pending)), p[1], a[1]),
    ensures
        a[0] is CheckRemoval,
        p[1].metadata.added_by_inbox_is_pending_remove == pending,
        message_cursor matches Some(c) ==> p[1].metadata.message_cursor == c as u64,
        message_cursor is None ==> p[1].metadata.message_cursor == 0,
        a[1] is DrawSecrets <==> followers(installations@) > limits.pointer_threshold,
        followers(installations@) <= limits.pointer_threshold ==> (a[1] matches WelcomeAction::Wrap {
            form,
            hpke_public_key,
            algorithm,
        } && form == WelcomeForm::Direct && hpke_public_key@ == installations@[0].hpke_public_key@ && algorithm
            == installations@[0].welcome_wrapper_algorithm),
        p[1].rest@ == installations@,
{
}

/// The key of a shared welcome is used with two different nonces: a second one that equals the first is drawn
/// again, however often it does.
pub proof fn nonces_differ(before: WelcomePass, event: WelcomeEvent, after: WelcomePass, action: WelcomeAction)
    requires
        is_welcome_step(before, event, after, action),
    ensures
        action is WrapShared ==> match (before.phase, event) {
            (_, WelcomeEvent::SecretsDrawn { data_nonce, metadata_nonce }) => data_nonce@ != metadata_nonce@,
            (WelcomePhase::RedrawingNonce { data_nonce }, WelcomeEvent::NonceDrawn(metadata_nonce)) => data_nonce@
                != metadata_nonce@,
            _ => false,
        },
        (before.phase is Drawing && (event matches WelcomeEvent::SecretsDrawn { data_nonce, metadata_nonce }
            && data_nonce@ == metadata_nonce@)) ==> action is RedrawNonce && (
        event matches WelcomeEvent::SecretsDrawn { data_nonce, metadata_nonce: _ } && after.phase
            == (WelcomePhase::RedrawingNonce { data_nonce })),
        (before.phase is Drawing && (event matches WelcomeEvent::SecretsDrawn { data_nonce, metadata_nonce }
            && data_nonce@ != metadata_nonce@)) ==> action is WrapShared,
        after.phase is WrappingShared && before.phase !is WrappingShared ==> action is WrapShared,
{
}

/// What was wrapped for an installation becomes the welcome of that very installation, behind those that are
/// ready: a pointer to the shared welcome exactly if one is sent and the installation can follow it, and else the
/// welcome with what it tells. Then the next one has its welcome wrapped, for its own key.
pub proof fn installations_get_what_was_wrapped_for_them(
    before: WelcomePass,
    data: Vec<u8>,
    told: Vec<u8>,
    after: WelcomePass,
    action: WelcomeAction,
)
    requires
        before.phase is Wrapping,
        before.rest@.len() > 0,
        is_welcome_step(before, WelcomeEvent::Wrapped(Ok((data, told))), after, action),
    ensures
        ({
            let ready = if before.rest@.len() > 1 {
                after.welcomes@
            } else {
                flattened(action->Send_0@)
            };
            let installation = before.rest@[0];
            &&& before.rest@.len() == 1 ==> action is Send
            &&& ready.len() == before.welcomes@.len() + 1
            &&& ready.take(before.welcomes@.len() as int) == before.welcomes@
            &&& if before.uses_pointer && installation.follows_pointers {
                ready.last() == (WelcomeMessageInput::WelcomePointer {
                    installation_key: installation.installation_key,
                    welcome_pointer: data,
                    hpke_public_key: installation.hpke_public_key,
                    wrapper_algorithm: installation.welcome_wrapper_algorithm,
                })
            } else {
                ready.last() == (WelcomeMessageInput::V1 {
                    installation_key: installation.installation_key,
                    data,
                    hpke_public_key: installation.hpke_public_key,
                    wrapper_algorithm: installation.welcome_wrapper_algorithm,
                    welcome_metadata: told,
                })
            }
        }),
        before.rest@.len() > 1 ==> (action matches WelcomeAction::Wrap { form, hpke_public_key, algorithm } && {
            let next = before.rest@[1];
            &&& hpke_public_key@ == next.hpke_public_key@
            &&& algorithm == next.welcome_wrapper_algorithm
            &&& form == WelcomeForm::Pointer <==> before.uses_pointer && next.follows_pointers
            &&& after.rest@ == before.rest@.skip(1)
        }),
{
    let installation = before.rest@[0];
    let w = welcome_of(installation, form_of(installation, before.uses_pointer), (data, told));
    let ready = before.welcomes@.push(w);
    assert(ready.take(before.welcomes@.len() as int) =~= before.welcomes@);
}

/// Welcomes are sent in requests of at most fifty, none of them empty, and a request of more than one never takes
/// more bytes than allowed, counted by the first welcome.
pub proof fn requests_keep_to_their_limits(
    chunks: Seq<Vec<WelcomeMessageInput>>,
    welcomes: Seq<WelcomeMessageInput>,
    size: int,
    payload_limit: int,
    i: int,
)
    requires
        are_chunks(chunks, welcomes, welcome_chunk_size(size, payload_limit)),
        0 <= payload_limit,
        0 <= i < chunks.len(),
    ensures
        1 <= chunks[i]@.len() <= 50,
        chunks[i]@.len() == 1 || chunks[i]@.len() * size <= payload_limit,
        flattened(chunks) == welcomes,
        i < chunks.len() - 1 && size >= 1 ==> chunks[i]@.len() == 50 || chunks[i]@.len() == 1 || (chunks[i]@.len() + 1)
            * size > payload_limit,
{
    let n = chunks[i]@.len() as int;
    let per = if size < 1 {
        1
    } else {
        size
    };
    let fitting = payload_limit / per;
    vstd::arithmetic::div_mod::lemma_fundamental_div_mod(payload_limit, per);
    vstd::arithmetic::div_mod::lemma_mod_bound(payload_limit, per);
    if n > 1 {
        assert(n <= fitting);
        vstd::arithmetic::mul::lemma_mul_inequality(n, fitting, per);
        vstd::arithmetic::mul::lemma_mul_is_commutative(fitting, per);
        if size < 1 {
            vstd::arithmetic::mul::lemma_mul_inequality(size, 1, n);
            vstd::arithmetic::mul::lemma_mul_is_commutative(size, n);
        }
    }
    if i < chunks.len() - 1 && n != 50 && n != 1 && size >= 1 {
        assert(n == fitting);
        vstd::arithmetic::mul::lemma_mul_is_distributive_add_other_way(per, fitting, 1);
        vstd::arithmetic::mul::lemma_mul_is_commutative(fitting, per);
        assert((n + 1) * size > payload_limit) by (nonlinear_arith)
            requires
                n == fitting,
                per == size,
                payload_limit == per * fitting + payload_limit % per,
                payload_limit % per < per,
        ;
    }
}

/// A failure while welcomes are sent is what sending them fails with, and it ends well exactly if the requests
/// were sent well.
pub proof fn welcome_failures_are_reported(
    before: WelcomePass,
    event: WelcomeEvent,
    after: WelcomePass,
    action: WelcomeAction,
)
    requires
        is_welcome_step(before, event, after, action),
        action !is Ignore,
    ensures
        event matches WelcomeEvent::RemovalChecked(Err(e)) ==> action == WelcomeAction::Finish(Err(e)),
        event matches WelcomeEvent::SharedWrapped(Err(e)) ==> action == WelcomeAction::Finish(Err(e)),
        event matches WelcomeEvent::Wrapped(Err(e)) ==> action == WelcomeAction::Finish(Err(e)),
        event matches WelcomeEvent::Sent(outcome) ==> action == WelcomeAction::Finish(outcome),
        action == WelcomeAction::Finish(Ok(())) ==> event is Sent,
{
}

/// A shared welcome is sent first, left at its own place under the symmetric key, with no public key.
pub proof fn the_shared_welcome_is_sent_first(
    before: WelcomePass,
    shared: SharedWelcome,
    after: WelcomePass,
    action: WelcomeAction,
)
    requires
        before.phase is WrappingShared,
        before.rest@.len() > 0,
        before.welcomes@.len() == 0,
        is_welcome_step(before, WelcomeEvent::SharedWrapped(Ok(shared)), after, action),
    ensures
        after.welcomes@.len() == 1,
        after.welcomes@[0] matches WelcomeMessageInput::V1 {
            installation_key,
            data,
            hpke_public_key,
            wrapper_algorithm,
            welcome_metadata,
        } && installation_key == shared.destination && data == shared.data && hpke_public_key@.len() == 0
            && wrapper_algorithm == before.limits.symmetric_algorithm && welcome_metadata == shared.welcome_metadata,
        action is Wrap,
{
}

/// A key by which a push server recognises messages of one's own, for one epoch.
#[derive(Clone, Copy, Debug)]
pub struct HmacKey {
    pub key: [u8; 42],
    pub epoch: i64,
}

/// What the keys of a group are derived from: the user's key and the id of the group.
pub open spec fn hmac_material(user_key: Seq<u8>, group_id: Seq<u8>) -> Seq<u8> {
    user_key + group_id
}

/// What sets the keys of epochs apart: the id of the group and the epoch, as eight bytes from the
/// lowest to the highest.
pub open spec fn hmac_info(group_id: Seq<u8>, epoch: i64) -> Seq<u8> {
    group_id + little_endian(epoch as u64)
}

/// The eight bytes of a number, from the lowest to the highest.
pub open spec fn little_endian(n: u64) -> Seq<u8> {
    Seq::new(8, |i: int| byte_of(n, i))
}

/// One of the bytes of a number.
pub open spec fn byte_of(n: u64, i: int) -> u8 {
    (n >> ((8 * i) as u64)) as u8
}

/// The key of a group for an epoch.
pub open spec fn hmac_key_of(salt: Seq<u8>, user_key: Seq<u8>, group_id: Seq<u8>, epoch: i64) -> Seq<u8> {
    crypto::hkdf_sha256(salt, hmac_material(user_key, group_id), hmac_info(group_id, epoch))
}

fn push_little_endian(out: &mut Vec<u8>, n: u64)
    ensures
        final(out)@ == old(out)@ + little_endian(n),
{
    let ghost before = out@;
    let mut i: usize = 0;
    while i < 8
        invariant
            i <= 8,
            out@ == before + Seq::new(i as nat, |j: int| byte_of(n, j)),
        decreases 8 - i,
    {
        let shift: u64 = 8 * i as u64;
        out.push((n >> shift) as u8);
        assert(out@ =~= before + Seq::new((i + 1) as nat, |j: int| byte_of(n, j)));
        i += 1;
    }
    assert(out@ =~= before + little_endian(n));
}

/// The user's key, and whether it is to be stored.
pub open spec fn user_key_of(stored: Option<Vec<u8>>, fresh: Vec<u8>) -> (Vec<u8>, bool) {
    match stored {
        Some(key) => (key, false),
        None => (fresh, true),
    }
}

/// A stored key is used and never replaced; a fresh one is used only where none is stored, and is then to be stored, so
/// that it is the key from then on.
pub proof fn the_user_key_stays_the_same(stored: Option<Vec<u8>>, fresh: Vec<u8>, later: Vec<u8>)
    ensures
        stored matches Some(key) ==> user_key_of(stored, fresh) == (key, false),
        stored is None ==> user_key_of(stored, fresh) == (fresh, true),
        user_key_of(Some(user_key_of(stored, fresh).0), later) == (user_key_of(stored, fresh).0, false),
{
}

/// The user's key: the stored one, or a fresh one that is to be stored.
pub fn hmac_user_key(stored: Option<Vec<u8>>, fresh: Vec<u8>) -> (r: (Vec<u8>, bool))
    ensures
        r == user_key_of(stored, fresh),
{
    match stored {
        Some(key) => (key, false),
        None => (fresh, true),
    }
}

/// Whether keys are those of a group for the epochs around the current one.
pub open spec fn are_hmac_keys(
    salt: Seq<u8>,
    user_key: Seq<u8>,
    group_id: Seq<u8>,
    current_epoch: i64,
    first_delta: i64,
    last_delta: i64,
    keys: Seq<HmacKey>,
) -> bool {
    &&& keys.len() == (if first_delta <= last_delta {
        last_delta - first_delta + 1
    } else {
        0
    })
    &&& forall|i: int|
        0 <= i < keys.len() ==> (#[trigger] keys[i]).epoch == current_epoch + first_delta + i && keys[i].key@
            == hmac_key_of(salt, user_key, group_id, (current_epoch + first_delta + i) as i64)
}

/// The keys of a range are those of its epochs, one for each, from the first to the last; and the key of an epoch
/// is the same in whatever range and at whatever time it is asked for.
pub proof fn keys_belong_to_their_epochs(
    salt: Seq<u8>,
    user_key: Seq<u8>,
    group_id: Seq<u8>,
    now: i64,
    from: i64,
    to: i64,
    keys: Seq<HmacKey>,
    later: i64,
    later_from: i64,
    later_to: i64,
    later_keys: Seq<HmacKey>,
    i: int,
    j: int,
)
    requires
        from <= to,
        later_from <= later_to,
        i64::MIN <= now + from && now + to <= i64::MAX,
        i64::MIN <= later + later_from && later + later_to <= i64::MAX,
        are_hmac_keys(salt, user_key, group_id, now, from, to, keys),
        are_hmac_keys(salt, user_key, group_id, later, later_from, later_to, later_keys),
        0 <= i < keys.len(),
        0 <= j < later_keys.len(),
    ensures
        keys.len() == to - from + 1,
        keys[0].epoch == now + from,
        keys[keys.len() - 1].epoch == now + to,
        i + 1 < keys.len() ==> keys[i + 1].epoch == keys[i].epoch + 1,
        keys[i].epoch == later_keys[j].epoch ==> keys[i].key@ == later_keys[j].key@,
        keys[i].key@ == crypto::hkdf_sha256(
            salt,
            user_key + group_id,
            group_id + little_endian(keys[i].epoch as u64),
        ),
{
    assert((now + from + i) as i64 == keys[i].epoch);
    assert((later + later_from + j) as i64 == later_keys[j].epoch);
}

/// What sets the keys of two epochs apart differs.
pub proof fn epochs_have_their_own_keys(group_id: Seq<u8>, a: i64, b: i64)
    ensures
        hmac_info(group_id, a) == hmac_info(group_id, b) ==> a == b,
        hmac_info(group_id, a).len() == group_id.len() + 8,
        hmac_info(group_id, a).take(group_id.len() as int) == group_id,
{
    let x = a as u64;
    let y = b as u64;
    assert(hmac_info(group_id, a).take(group_id.len() as int) =~= group_id);
    if hmac_info(group_id, a) == hmac_info(group_id, b) {
        assert forall|i: int| 0 <= i < 8 implies #[trigger] byte_of(x, i) == byte_of(y, i) by {
            assert(hmac_info(group_id, a)[group_id.len() + i] == little_endian(x)[i]);
            assert(hmac_info(group_id, b)[group_id.len() + i] == little_endian(y)[i]);
        }
        assert(byte_of(x, 0) == byte_of(y, 0) && byte_of(x, 1) == byte_of(y, 1) && byte_of(x, 2) == byte_of(y, 2)
            && byte_of(x, 3) == byte_of(y, 3) && byte_of(x, 4) == byte_of(y, 4) && byte_of(x, 5) == byte_of(y, 5)
            && byte_of(x, 6) == byte_of(y, 6) && byte_of(x, 7) == byte_of(y, 7));
        assert((x >> 0u64) as u8 == (y >> 0u64) as u8 && (x >> 8u64) as u8 == (y >> 8u64) as u8 && (x >> 16u64) as u8
            == (y >> 16u64) as u8 && (x >> 24u64) as u8 == (y >> 24u64) as u8 && (x >> 32u64) as u8 == (y
            >> 32u64) as u8 && (x >> 40u64) as u8 == (y >> 40u64) as u8 && (x >> 48u64) as u8 == (y >> 48u64) as u8 && (x
            >> 56u64) as u8 == (y >> 56u64) as u8 ==> x == y) by (bit_vector);
        assert(a as u64 == b as u64 ==> a == b) by (bit_vector);
    }
}

/// The number that a byte string is the low-first form of has its lowest byte first.
pub proof fn low_bytes_come_first(n: u64)
    ensures
        little_endian(n).len() == 8,
        little_endian(n)[0] == n % 256,
        little_endian(n)[1] == (n / 256) % 256,
        little_endian(n)[7] == n / 0x100_0000_0000_0000,
{
    assert((n >> 0u64) as u8 == n % 256) by (bit_vector);
    assert((n >> 8u64) as u8 == (n / 256) % 256) by (bit_vector);
    assert((n >> 56u64) as u8 == n / 0x100_0000_0000_0000) by (bit_vector);
}

impl MlsGroup {
    /// The keys of a group for the epochs around the current one, from the first to the last.
    pub fn hmac_keys(
        &self,
        salt: &[u8],
        user_key: &[u8],
        current_epoch: i64,
        first_delta: i64,
        last_delta: i64,
    ) -> (r: Vec<HmacKey>)
        requires
            first_delta <= last_delta ==> i64::MIN <= current_epoch + first_delta && current_epoch + last_delta
                <= i64::MAX && last_delta - first_delta < usize::MAX,
        ensures
            are_hmac_keys(salt@, user_key@, self.group_id@, current_epoch, first_delta, last_delta, r@),
    {
        let mut keys: Vec<HmacKey> = Vec::new();
        if first_delta > last_delta {
            return keys;
        }
        let mut ikm = bytes::clone_bytes(user_key);
        ikm.extend_from_slice(self.group_id.as_slice());
        assert(ikm@ =~= hmac_material(user_key@, self.group_id@));
        let first: i64 = current_epoch + first_delta;
        let last: i64 = current_epoch + last_delta;
        let mut epoch: i64 = first;
        let mut done: bool = false;
        while !done
            invariant
                first == current_epoch + first_delta,
                last == current_epoch + last_delta,
                first <= epoch <= last,
                ikm@ == hmac_material(user_key@, self.group_id@),
                !done ==> keys@.len() == epoch - first,
                done ==> epoch == last && keys@.len() == last - first + 1,
                forall|i: int|
                    0 <= i < keys@.len() ==> (#[trigger] keys@[i]).epoch == current_epoch + first_delta + i
                        && keys@[i].key@ == hmac_key_of(
                        salt@,
                        user_key@,
                        self.group_id@,
                        (current_epoch + first_delta + i) as i64,
                    ),
            decreases last - epoch, (if done { 0int } else { 1int }),
        {
            let mut info = bytes::clone_bytes(self.group_id.as_slice());
            push_little_endian(&mut info, epoch as u64);
            let key = crypto::hkdf_expand(salt, ikm.as_slice(), info.as_slice());
            keys.push(HmacKey { key, epoch });
            if epoch == last {
                done = true;
            } else {
                epoch += 1;
            }
        }
        keys
    }
}

/// The keys of a range of epochs that holds the current one hold the key of the current epoch, at
/// its place.
pub proof fn current_key_is_among_its_neighbours(
    salt: Seq<u8>,
    user_key: Seq<u8>,
    group_id: Seq<u8>,
    current_epoch: i64,
    first_delta: i64,
    last_delta: i64,
    keys: Seq<HmacKey>,
    current: Seq<HmacKey>,
)
    requires
        first_delta <= 0 <= last_delta,
        are_hmac_keys(salt, user_key, group_id, current_epoch, first_delta, last_delta, keys),
        are_hmac_keys(salt, user_key, group_id, current_epoch, 0, 0, current),
    ensures
        keys[-first_delta].epoch == current[0].epoch,
        keys[-first_delta].key@ == current[0].key@,
{
    assert((current_epoch + first_delta + (-first_delta)) as i64 == current_epoch);
}

/// A message for a group, ready to be sent.
#[derive(Debug)]
pub struct GroupMessageInput {
    pub data: Vec<u8>,
    pub sender_hmac: Vec<u8>,
    pub should_push: bool,
}

/// Whether a message is a payload with the code of its sender.
pub open spec fn is_group_message(m: GroupMessageInput, payload: (Vec<u8>, bool), key: Seq<u8>) -> bool {
    &&& m.data@ == payload.0@
    &&& m.sender_hmac@ == crypto::hmac_sha256(key, payload.0@)
    &&& m.should_push == payload.1
}

/// Whether messages are payloads with the code of their sender.
pub open spec fn are_group_messages(
    salt: Seq<u8>,
    user_key: Seq<u8>,
    group_id: Seq<u8>,
    current_epoch: i64,
    payloads: Seq<(Vec<u8>, bool)>,
    messages: Seq<GroupMessageInput>,
) -> bool {
    &&& messages.len() == payloads.len()
    &&& forall|i: int|
        0 <= i < messages.len() ==> is_group_message(
            #[trigger] messages[i],
            payloads[i],
            hmac_key_of(salt, user_key, group_id, current_epoch),
        )
}

/// Every payload becomes one message, in their order, with its data and its push as they were; its code is made
/// under the very key that the group has for the current epoch, so that who holds that key recognises it.
pub proof fn messages_carry_the_code_of_their_epoch(
    salt: Seq<u8>,
    user_key: Seq<u8>,
    group_id: Seq<u8>,
    current_epoch: i64,
    payloads: Seq<(Vec<u8>, bool)>,
    messages: Seq<GroupMessageInput>,
    keys: Seq<HmacKey>,
    first_delta: i64,
    last_delta: i64,
    i: int,
)
    requires
        first_delta <= 0 <= last_delta,
        i64::MIN <= current_epoch + first_delta && current_epoch + last_delta <= i64::MAX,
        are_group_messages(salt, user_key, group_id, current_epoch, payloads, messages),
        are_hmac_keys(salt, user_key, group_id, current_epoch, first_delta, last_delta, keys),
        0 <= i < payloads.len(),
    ensures
        messages.len() == payloads.len(),
        messages[i].data@ == payloads[i].0@,
        messages[i].should_push == payloads[i].1,
        messages[i].sender_hmac@ == crypto::hmac_sha256(keys[-first_delta].key@, payloads[i].0@),
        keys[-first_delta].epoch == current_epoch,
{
    assert((current_epoch + first_delta + (-first_delta)) as i64 == current_epoch);
    assert(is_group_message(messages[i], payloads[i], hmac_key_of(salt, user_key, group_id, current_epoch)));
}

impl MlsGroup {
    /// Payloads with the code of their sender under the key of the current epoch, in their order. With
    /// each payload comes whether it is to be pushed.
    pub fn prepare_group_messages(
        &self,
        payloads: &Vec<(Vec<u8>, bool)>,
        salt: &[u8],
        user_key: &[u8],
        current_epoch: i64,
    ) -> (r: Vec<GroupMessageInput>)
        ensures
            are_group_messages(salt@, user_key@, self.group_id@, current_epoch, payloads@, r@),
    {
        let keys = self.hmac_keys(salt, user_key, current_epoch, 0, 0);
        let mut out: Vec<GroupMessageInput> = Vec::new();
        let mut i: usize = 0;
        while i < payloads.len()
            invariant
                i <= payloads@.len(),
                out@.len() == i,
                keys@.len() == 1,
                keys@[0].key@ == hmac_key_of(salt@, user_key@, self.group_id@, current_epoch),
                forall|j: int|
                    0 <= j < i ==> is_group_message(
                        #[trigger] out@[j],
                        payloads@[j],
                        hmac_key_of(salt@, user_key@, self.group_id@, current_epoch),
                    ),
            decreases payloads@.len() - i,
        {
            let payload = payloads[i].0.as_slice();
            let sender_hmac = crypto::hmac_code(keys[0].key.as_slice(), payload);
            out.push(GroupMessageInput { data: bytes::clone_bytes(payload), sender_hmac, should_push: payloads[i].1 });
            i += 1;
        }
        out
    }
}

/// An installation gets a pointer exactly if a shared welcome is sent and it can follow one.
pub proof fn pointers_go_to_those_who_follow_them(installation: Installation, uses_pointer: bool)
    ensures
        form_of(installation, uses_pointer) == WelcomeForm::Pointer <==> uses_pointer && installation.follows_pointers,
        form_of(installation, uses_pointer) == WelcomeForm::Direct <==> !uses_pointer || !installation.follows_pointers,
{
}

/// Welcomes that were sent ask for nothing more, and what does not fit the step that is waited for changes nothing.
pub proof fn sent_welcomes_stay_sent(
    before: WelcomePass,
    event: WelcomeEvent,
    after: WelcomePass,
    action: WelcomeAction,
)
    requires
        is_welcome_step(before, event, after, action),
    ensures
        before.phase is Done ==> action is Ignore,
        action is Ignore ==> after == before,
{
}

} // verus!
