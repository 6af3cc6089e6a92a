//! The Anthropic Messages twin.

pub mod auth;
pub mod config;
pub mod engine;
pub mod exchange;
pub mod exchange_laws;
pub mod laws;
pub mod logs;
pub mod models;
mod names;
pub mod proxy;
pub mod record;
pub mod recording_laws;
pub mod sse;
pub mod state;
pub mod stream_laws;
