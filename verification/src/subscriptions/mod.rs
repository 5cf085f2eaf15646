//! Streams: what the user is told of new conversations, messages and preferences, and when.

pub mod error;
pub mod events;
pub mod facade;
pub mod process_welcome;
pub mod stream_all;
pub mod stream_conversations;
pub mod stream_messages;
