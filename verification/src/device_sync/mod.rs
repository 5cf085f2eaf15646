//! Keeping the devices of the user in step: archives that one device sends another, and preferences.

pub mod archive_receive;
pub mod catalog;
pub mod client;
pub mod content;
pub mod error;
pub mod inbound;
pub mod lifecycle;
pub mod outbound;
pub mod sync_group;
