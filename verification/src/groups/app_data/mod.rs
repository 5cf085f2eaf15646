//! Group data that is updated piece by piece.

pub mod component_source;
pub mod tls_set;
