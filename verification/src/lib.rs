//! Streaming response decoder and accumulator for a generative-text service.
//!
//! The service answers a request with a stream of raw JSON values. Each value
//! is either a `Chunk` (one generation step, carrying zero or more candidates
//! with text deltas) or an `Error` (a terminal failure report). This crate
//! turns that stream, one value at a time, into typed events, accumulates the
//! produced text in arrival order, and keeps a faithful transcript of every
//! raw item for later persistence.

pub mod accum;
pub mod decode;
pub mod encode;
pub mod json;
pub mod lossless;
pub mod session;
pub mod transcript;
pub mod wire;

pub use accum::{classify, extract_text};
pub use decode::decode;
pub use encode::{encode_item, encode_request};
pub use json::Json;
pub use session::Session;
pub use transcript::Transcript;
pub use wire::{Event, ResponseItem};
