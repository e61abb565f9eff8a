//! A typed client library for two generative-AI HTTP APIs.
//!
//! The heart of the crate is an incremental decoder for Server-Sent-Events
//! (SSE) byte streams: raw transport chunks are reassembled into event
//! blocks, `data:` payloads are extracted, the `[DONE]` sentinel is
//! filtered out, and malformed payloads are surfaced as in-stream error
//! items instead of tearing the stream down. Around it sit the request
//! and response schemas of the two providers, per-model capability
//! tables, and the request-sanitisation rules that depend on them.

pub mod error;
pub mod gemini;
pub mod openai;
pub mod prelude;
pub mod sse;
pub mod utils;
