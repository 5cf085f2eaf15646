//! What is kept of a message's content so that messages can be found by it.

use vstd::prelude::*;
use vstd::string::*;
use crate::codec;
use crate::records::{ContentType, ContentTypeId};

verus! {

/// What is kept of a message's content so that messages can be found by it.
#[derive(Debug)]
pub struct QueryableContentFields {
    pub content_type: ContentType,
    pub version_major: i32,
    pub version_minor: i32,
    pub authority_id: String,
    /// The message that this one refers to.
    pub reference_id: Option<Vec<u8>>,
}

impl Default for QueryableContentFields {
    /// What is kept of a content that cannot be read.
    fn default() -> (r: Self)
        ensures
            r.content_type == ContentType::Unknown,
            r.version_major == 0,
            r.version_minor == 0,
            r.authority_id@.len() == 0,
            r.reference_id is None,
    {
        proof {
            reveal_strlit("");
        }
        QueryableContentFields {
            content_type: ContentType::Unknown,
            version_major: 0,
            version_minor: 0,
            authority_id: "".to_owned(),
            reference_id: None,
        }
    }
}

/// How the reference of a content is read.
#[derive(Clone, Copy, Debug, PartialEq, Eq, Structural)]
pub enum ReferenceCodec {
    Reply,
    ReactionV2,
    LegacyReaction,
    DeleteMessage,
}

/// How the reference of a content of some type and version is read, if it has one.
pub open spec fn codec_of(content_type: ContentType, version_major: u32, delete_version: u32) -> Option<ReferenceCodec> {
    if content_type == ContentType::Reply && version_major == 1 {
        Some(ReferenceCodec::Reply)
    } else if content_type == ContentType::Reaction {
        if version_major >= 2 {
            Some(ReferenceCodec::ReactionV2)
        } else {
            Some(ReferenceCodec::LegacyReaction)
        }
    } else if content_type == ContentType::DeleteMessage && version_major == delete_version {
        Some(ReferenceCodec::DeleteMessage)
    } else {
        None
    }
}

/// How the reference of a content is read, if it has one. `delete_version` is the version of
/// deletions that this client knows.
pub fn reference_codec(content_type: &Option<ContentTypeId>, delete_version: u32) -> (r: Option<ReferenceCodec>)
    ensures
        r == (match *content_type {
            Some(t) => codec_of(t.content_type, t.version_major, delete_version),
            None => None,
        }),
{
    let t = match content_type {
        Some(t) => t,
        None => return None,
    };
    match t.content_type {
        ContentType::Reply => {
            if t.version_major == 1 {
                Some(ReferenceCodec::Reply)
            } else {
                None
            }
        },
        ContentType::Reaction => {
            if t.version_major >= 2 {
                Some(ReferenceCodec::ReactionV2)
            } else {
                Some(ReferenceCodec::LegacyReaction)
            }
        },
        ContentType::DeleteMessage => {
            if t.version_major == delete_version {
                Some(ReferenceCodec::DeleteMessage)
            } else {
                None
            }
        },
        _ => None,
    }
}

/// The message id that a reference stands for, if it is a hexadecimal text.
pub open spec fn is_reference_id(reference: Option<String>, id: Option<Vec<u8>>) -> bool {
    match reference {
        Some(text) => {
            let t = vstd::utf8::encode_utf8(text@);
            match id {
                Some(b) => t.len() % 2 == 0 && codec::all_hex(t) && b@ == codec::hex_bytes(t),
                None => t.len() % 2 != 0 || !codec::all_hex(t),
            }
        },
        None => id is None,
    }
}

fn reference_id_of(reference: Option<String>) -> (r: Option<Vec<u8>>)
    ensures
        is_reference_id(reference, r),
{
    let text = match reference {
        Some(text) => text,
        None => return None,
    };
    match codec::hex_decode(text.as_str()) {
        Ok(id) => Some(id),
        Err(_) => {
            proof {
                let t = vstd::utf8::encode_utf8(text@);
                if t.len() % 2 == 0 {
                    assert(!codec::all_hex(t));
                }
            }
            None
        },
    }
}

/// Whether fields are what is kept of a content.
pub open spec fn are_fields_of(
    content_type: Option<ContentTypeId>,
    reference: Option<String>,
    delete_version: u32,
    r: QueryableContentFields,
) -> bool {
    match content_type {
        Some(t) => {
            &&& r.content_type == t.content_type
            &&& r.version_major == t.version_major as i32
            &&& r.version_minor == t.version_minor as i32
            &&& r.authority_id == t.authority_id
            &&& is_reference_id(
                if codec_of(t.content_type, t.version_major, delete_version) is Some {
                    reference
                } else {
                    None
                },
                r.reference_id,
            )
        },
        None => {
            &&& r.content_type == ContentType::Unknown
            &&& r.version_major == 0
            &&& r.version_minor == 0
            &&& r.authority_id@.len() == 0
            &&& r.reference_id is None
        },
    }
}

/// Whether fields are what is kept of a message.
pub open spec fn are_fields_of_content(
    content: Option<(Option<ContentTypeId>, Option<String>)>,
    delete_version: u32,
    r: QueryableContentFields,
) -> bool {
    match content {
        Some((content_type, reference)) => are_fields_of(content_type, reference, delete_version, r),
        None => are_fields_of(None, None, delete_version, r),
    }
}

/// A message is found by the type of its content. The message that a reply, a reaction or a deletion refers to is kept
/// wherever its id can be read: a reply and a deletion need a version that is known, a reaction does not. Nothing else
/// refers to a message, and of what cannot be read nothing is kept.
pub proof fn messages_are_found_by_what_they_refer_to(
    t: ContentTypeId,
    reference: Option<String>,
    id: Seq<u8>,
    delete_version: u32,
    r: QueryableContentFields,
    unread: QueryableContentFields,
)
    requires
        are_fields_of_content(Some((Some(t), reference)), delete_version, r),
        are_fields_of_content(None, delete_version, unread),
    ensures
        r.content_type == t.content_type,
        r.authority_id == t.authority_id,
        t.version_major < 0x8000_0000 ==> r.version_major == t.version_major,
        t.version_minor < 0x8000_0000 ==> r.version_minor == t.version_minor,
        reference is Some && reference->0@ == codec::hex_text(id) && (t.content_type == ContentType::Reaction || (
        t.content_type == ContentType::Reply && t.version_major == 1) || (t.content_type == ContentType::DeleteMessage
            && t.version_major == delete_version)) ==> r.reference_id is Some && r.reference_id->0@ == id,
        r.reference_id is Some ==> reference is Some && (t.content_type == ContentType::Reaction || (t.content_type
            == ContentType::Reply && t.version_major == 1) || (t.content_type == ContentType::DeleteMessage
            && t.version_major == delete_version)),
        unread.content_type == ContentType::Unknown && unread.reference_id is None && unread.authority_id@.len() == 0
            && unread.version_major == 0 && unread.version_minor == 0,
{
    codec::hex_round_trip(id);
}

/// A reaction of a first version is read in the old way, and of any later one in the new; no other content is read as a
/// reaction.
pub proof fn reactions_are_read_by_their_version(content_type: ContentType, version_major: u32, delete_version: u32)
    ensures
        codec_of(content_type, version_major, delete_version) == Some(ReferenceCodec::LegacyReaction) <==> content_type
            == ContentType::Reaction && version_major < 2,
        codec_of(content_type, version_major, delete_version) == Some(ReferenceCodec::ReactionV2) <==> content_type
            == ContentType::Reaction && version_major >= 2,
        codec_of(content_type, version_major, delete_version) == Some(ReferenceCodec::Reply) <==> content_type
            == ContentType::Reply && version_major == 1,
        codec_of(content_type, version_major, delete_version) == Some(ReferenceCodec::DeleteMessage) <==> content_type
            == ContentType::DeleteMessage && version_major == delete_version,
{
}

impl QueryableContentFields {
    /// What is kept of a content. `reference` is the reference that its codec read, if it has one
    /// and could be read; a reference that is no hexadecimal text is dropped.
    pub fn try_from(content_type: Option<ContentTypeId>, reference: Option<String>, delete_version: u32) -> (r: Self)
        ensures
            are_fields_of(content_type, reference, delete_version, r),
    {
        let codec = reference_codec(&content_type, delete_version);
        let t = match content_type {
            Some(t) => t,
            None => return QueryableContentFields::default(),
        };
        let reference_id: Option<Vec<u8>> = if codec.is_some() {
            reference_id_of(reference)
        } else {
            None
        };
        QueryableContentFields {
            content_type: t.content_type,
            version_major: t.version_major as i32,
            version_minor: t.version_minor as i32,
            authority_id: t.authority_id,
            reference_id,
        }
    }
}

/// What is kept of a message; `content` is its type and the reference that its codec read, where the
/// message is an encoded content at all.
pub fn extract_queryable_content_fields(
    content: Option<(Option<ContentTypeId>, Option<String>)>,
    delete_version: u32,
) -> (r: QueryableContentFields)
    ensures
        are_fields_of_content(content, delete_version, r),
{
    match content {
        Some((content_type, reference)) => QueryableContentFields::try_from(content_type, reference, delete_version),
        None => QueryableContentFields::default(),
    }
}

} // verus!
