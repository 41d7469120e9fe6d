//! Telling the client's protocol from a request, and whether the client asks
//! for a stream.

use crate::error::Error;
use crate::json::{parsed_json, Json, JsonValue};
use crate::models::{ClientProtocol, ProtocolView};
use crate::text::{starts_with, starts_with_text};
use vstd::prelude::*;

verus! {

/// The protocol of a request: by its path where that names an API, else by
/// the look of its `authorization` header, else OpenAI.
pub open spec fn detected(path: Seq<char>, authorization: Option<Seq<char>>) -> ProtocolView {
    if starts_with(path, "/v1/chat/completions"@) {
        ProtocolView::OpenAI
    } else if starts_with(path, "/v1/messages"@) {
        ProtocolView::Anthropic
    } else if starts_with(path, "/v1/responses"@) {
        ProtocolView::OpenAI
    } else {
        match authorization {
            Some(auth) => if starts_with(auth, "Bearer sk-"@) {
                ProtocolView::OpenAI
            } else if starts_with(auth, "x-api-key"@) {
                ProtocolView::Anthropic
            } else {
                ProtocolView::OpenAI
            },
            None => ProtocolView::OpenAI,
        }
    }
}

/// Whether a request document asks for a stream: its `stream` member is
/// `true`.
pub open spec fn wants_stream(j: JsonValue) -> bool {
    j.member("stream"@).as_bool() == Some(true)
}

/// Whether a request body asks for a stream; a body that is no JSON does
/// not.
pub open spec fn body_wants_stream(body: Seq<u8>) -> bool {
    match parsed_json(body) {
        Ok(j) => wants_stream(j),
        Err(_) => false,
    }
}

/// Classifies inbound requests.
#[derive(Debug, Clone, Copy)]
pub struct ProtocolDetector;

impl ProtocolDetector {
    /// The protocol of a request with the given path and `authorization`
    /// header.
    pub fn detect_from_request(path: &str, authorization: Option<&str>) -> (r: Result<
        ClientProtocol,
        Error,
    >)
        ensures
            r is Ok,
            r->Ok_0@ == detected(
                path@,
                match authorization {
                    Some(a) => Some(a@),
                    None => None,
                },
            ),
    {
        if starts_with_text(path, "/v1/chat/completions") {
            return Ok(ClientProtocol::OpenAI);
        }
        if starts_with_text(path, "/v1/messages") {
            return Ok(ClientProtocol::Anthropic);
        }
        if starts_with_text(path, "/v1/responses") {
            return Ok(ClientProtocol::OpenAI);
        }
        match authorization {
            Some(auth) => {
                if starts_with_text(auth, "Bearer sk-") {
                    return Ok(ClientProtocol::OpenAI);
                }
                if starts_with_text(auth, "x-api-key") {
                    return Ok(ClientProtocol::Anthropic);
                }
            },
            None => {},
        }
        Ok(ClientProtocol::OpenAI)
    }

    /// Whether a request document asks for a stream.
    pub fn stream_flag(request: &Json) -> (r: bool)
        ensures
            r == wants_stream(request@),
    {
        match request.get("stream") {
            Some(Json::Bool(b)) => *b,
            _ => false,
        }
    }

    /// Whether a request body asks for a stream.
    pub fn is_stream_request(req: &[u8]) -> (r: bool)
        ensures
            r == body_wants_stream(req@),
    {
        match Json::parse(req) {
            Ok(j) => ProtocolDetector::stream_flag(&j),
            Err(_) => false,
        }
    }
}

} // verus!
