//! The request engine of a multi-tenant gateway for chat completions.
//!
//! Clients speak the OpenAI chat-completions protocol or the Anthropic
//! messages protocol.  For each request the engine resolves the candidate
//! upstreams, rewrites the request for the upstream's protocol, reads the
//! answer back into the client's protocol, whether it comes in one piece or
//! as a stream of server-sent events, and says what to report to the business
//! backend.
//!
//! The engine computes and decides; it does no I/O of its own.  Every
//! function states what it returns in its contract, and the contracts are
//! proved.  What is taken on trust is marked: the calls into `serde_json`,
//! `dashmap`, `chrono` and a few functions of the standard library.

pub mod cache;
mod clock;
pub mod config;
pub mod error;
pub mod json;
pub mod models;
pub mod pipeline;
pub mod protocol;
pub mod proxy;
pub mod router;
pub mod sse;
pub mod telemetry;
pub mod text;
pub mod usage_collector;

pub use error::Error;
