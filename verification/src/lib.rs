//! Ingestion of relay events into a normalized record of identities,
//! the verified addresses they claim, and direct-message metadata.

pub mod codec;
pub mod error;
pub mod event;
pub mod http;
pub mod laws;
pub mod pipeline;
pub mod session;
pub mod store;
