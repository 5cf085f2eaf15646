//! Keeping a group in step with the network: what is published, how what comes back is taken in,
//! and what is kept of it.

pub mod derive;
pub mod events;
pub mod helpers;
pub mod membership;
pub mod persistence;
pub mod processing;
pub mod publish;
pub mod publish_data;
pub mod receive;
pub mod resolution;
pub mod orchestration;
pub mod types;
pub mod welcomes;
