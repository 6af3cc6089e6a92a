//! The OpenAI Responses and Chat Completions twin.

pub mod auth;
pub mod chat_completions;
pub mod config;
pub mod failures;
pub mod input_tokens;
pub mod laws;
pub mod model_catalog;
mod names;
pub mod plan;
pub mod proxy;
pub mod record;
pub mod recording_laws;
pub mod replay;
pub mod sse;
