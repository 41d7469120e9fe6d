use ai_gateway_engine::json::Json;
use ai_gateway_engine::models::ClientProtocol;
use ai_gateway_engine::protocol::detector::ProtocolDetector;

fn detect(path: &str, auth: Option<&str>) -> ClientProtocol {
    ProtocolDetector::detect_from_request(path, auth).unwrap()
}

#[test]
fn the_path_decides_first() {
    assert!(matches!(detect("/v1/chat/completions", None), ClientProtocol::OpenAI));
    assert!(matches!(detect("/v1/messages", Some("Bearer sk-x")), ClientProtocol::Anthropic));
    assert!(matches!(detect("/v1/messages/batches", None), ClientProtocol::Anthropic));
    assert!(matches!(detect("/v1/responses", Some("x-api-key abc")), ClientProtocol::OpenAI));
    assert!(matches!(detect("/v1/chat/completions", Some("x-api-key abc")), ClientProtocol::OpenAI));
}

#[test]
fn the_authorization_header_decides_next() {
    assert!(matches!(detect("/other", Some("Bearer sk-abc")), ClientProtocol::OpenAI));
    assert!(matches!(detect("/other", Some("x-api-key abc")), ClientProtocol::Anthropic));
    assert!(matches!(detect("/other", Some("Bearer abc")), ClientProtocol::OpenAI));
}

#[test]
fn openai_is_the_default() {
    assert!(matches!(detect("/other", None), ClientProtocol::OpenAI));
    assert!(matches!(detect("", Some("")), ClientProtocol::OpenAI));
}

#[test]
fn a_stream_is_asked_for_with_stream_true() {
    assert!(ProtocolDetector::is_stream_request(b"{\"stream\":true}"));
    assert!(ProtocolDetector::is_stream_request(b" {\"model\":\"m\", \"stream\" : true } "));
    assert!(!ProtocolDetector::is_stream_request(b"{\"stream\":false}"));
    assert!(!ProtocolDetector::is_stream_request(b"{\"stream\":\"true\"}"));
    assert!(!ProtocolDetector::is_stream_request(b"{\"stream\":1}"));
    assert!(!ProtocolDetector::is_stream_request(b"{}"));
    assert!(!ProtocolDetector::is_stream_request(b"[true]"));
}

#[test]
fn a_body_that_is_no_json_asks_for_no_stream() {
    assert!(!ProtocolDetector::is_stream_request(b"stream=true"));
    assert!(!ProtocolDetector::is_stream_request(b""));
    assert!(!ProtocolDetector::is_stream_request(b"{\"stream\":true"));
}

#[test]
fn the_flag_is_read_from_a_document() {
    assert!(ProtocolDetector::stream_flag(&Json::parse(b"{\"stream\":true}").unwrap()));
    assert!(!ProtocolDetector::stream_flag(&Json::parse(b"{\"stream\":null}").unwrap()));
    assert!(!ProtocolDetector::stream_flag(&Json::Bool(true)));
}
