//! Verified core of a messaging client built on MLS groups.
//!
//! The modules hold the rules of the client: what is published, accepted, stored and streamed, and
//! in which order. Everything here works on plain values; storage, networking and the MLS engine
//! are driven from outside by the actions that these rules hand back.

pub mod bindings;
pub mod byte_map;
pub mod bytes;
pub mod codec;
pub mod text_map;
pub mod crypto;
pub mod device_sync;
pub mod error;
pub mod records;
pub mod groups;
pub mod messages;
pub mod numbers;
pub mod subscriptions;
