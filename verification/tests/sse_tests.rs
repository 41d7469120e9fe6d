use ai_gateway_engine::protocol::adapter::UniversalAdapter;
use ai_gateway_engine::sse::{format_sse, parse_sse_line};

fn pair(a: &str, b: &str) -> Option<(String, String)> {
    Some((a.to_string(), b.to_string()))
}

#[test]
fn parse_sse_line_splits_at_the_first_colon() {
    assert_eq!(parse_sse_line("data: {\"a\":1}"), pair("data", "{\"a\":1}"));
    assert_eq!(parse_sse_line("event: message_start"), pair("event", "message_start"));
    assert_eq!(parse_sse_line("data:[DONE]"), pair("data", "[DONE]"));
    assert_eq!(parse_sse_line(" data :  x  "), pair("data", "x"));
}

#[test]
fn parse_sse_line_drops_repeated_colons() {
    assert_eq!(parse_sse_line("data::: x"), pair("data", "x"));
    assert_eq!(parse_sse_line(": comment"), pair("", "comment"));
}

#[test]
fn parse_sse_line_needs_a_colon() {
    assert_eq!(parse_sse_line("no colon here"), None);
    assert_eq!(parse_sse_line(""), None);
}

#[test]
fn format_sse_frames_an_event() {
    assert_eq!(format_sse(Some("ping"), "{}"), "event: ping\ndata: {}\n\n");
    assert_eq!(format_sse(None, "[DONE]"), "data: [DONE]\n\n");
}

#[test]
fn the_adapter_offers_the_same_framing() {
    assert_eq!(UniversalAdapter::parse_sse_line("data: x"), pair("data", "x"));
    assert_eq!(UniversalAdapter::format_sse(None, "x"), "data: x\n\n");
    assert_eq!(UniversalAdapter::format_sse(Some("e"), "x"), "event: e\ndata: x\n\n");
}
