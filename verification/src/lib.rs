//! Deterministic HTTP protocol twins: the verified core of two local services
//! that answer the way two model providers would, from scripts and recordings.

pub mod anthropic;
pub mod codec;
pub mod credentials;
pub mod hash;
pub mod headers;
pub mod json;
pub mod laws;
pub mod openai;
pub mod recorder;
pub mod reply;
pub mod settings;
pub mod sse;
pub mod text;
pub mod transport;
