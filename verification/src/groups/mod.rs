//! Groups: their metadata, members and rules, and the way they are kept in step with the network.

pub mod app_data;
pub mod creation;
pub mod error;
pub mod extensions;
pub mod group;
pub mod group_config;
pub mod group_membership;
pub mod message_fields;
pub mod message_ops;
pub mod metadata_ops;
pub mod mls_sync;
pub mod proposal_ops;
pub mod state_ops;
pub mod summary;
