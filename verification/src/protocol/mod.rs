//! The two chat protocols and the adapters between them.

pub mod adapter;
pub mod anthropic;
pub mod detector;
pub mod fields;
pub mod openai;
pub mod to_anthropic;
pub mod to_openai;

use crate::error::Error;
use crate::models::{ClientProtocol, TargetProtocol};
use crate::protocol::adapter::StreamAdapter;
use vstd::prelude::*;

verus! {

/// What the pipeline asks of an adapter between the protocols.
pub trait ProtocolAdapter {
    /// Rewrites a request body of a client for an upstream.
    fn transform_request(
        &self,
        source_protocol: &ClientProtocol,
        target_protocol: &TargetProtocol,
        target_model: &str,
        request_body: &[u8],
    ) -> Result<Vec<u8>, Error>;

    /// Rewrites a response body of an upstream for the client.
    fn transform_response(
        &self,
        source_protocol: &TargetProtocol,
        target_protocol: &ClientProtocol,
        response_body: &[u8],
    ) -> Result<Vec<u8>, Error>;

    /// The adapter for a stream from an upstream to the client.
    fn transform_stream_chunk(
        &self,
        source_protocol: &TargetProtocol,
        target_protocol: &ClientProtocol,
    ) -> StreamAdapter;
}

} // verus!
