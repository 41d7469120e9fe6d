use ai_gateway_engine::json::Json;
use ai_gateway_engine::models::{RouteConfig, TargetProtocol};
use ai_gateway_engine::usage_collector::{
    data_of_event, usage_from_anthropic, usage_from_openai, StreamUsageCollector, TokenCounts,
    MAX_BUFFER,
};

fn route(protocol: TargetProtocol) -> RouteConfig {
    RouteConfig {
        token: "sk-up".into(),
        model: "n".into(),
        api_endpoint: "https://up.example".into(),
        protocol,
        model_id: "mid".into(),
        provider_id: "pid".into(),
        provider_token_id: "ptid".into(),
    }
}

fn collector(protocol: TargetProtocol) -> StreamUsageCollector {
    StreamUsageCollector::new("req-1".into(), "user-token".into(), route(protocol))
}

const NONE: TokenCounts = TokenCounts { input: None, output: None };

#[test]
fn an_anthropic_stream_reports_at_message_stop() {
    let mut c = collector(TargetProtocol::Anthropic);
    assert!(c.process_chunk(b"event: message_start\ndata: {\"type\":\"message_start\",\"message\":{\"usage\":{\"input_tokens\":12}}}\n\n").is_none());
    assert_eq!(c.counts(), TokenCounts { input: Some(12), output: None });
    assert!(c.process_chunk(b"event: message_delta\ndata: {\"type\":\"message_delta\",\"usage\":{\"output_tokens\":3}}\n\n").is_none());
    assert!(c.process_chunk(b"event: message_delta\ndata: {\"type\":\"message_delta\",\"usage\":{\"output_tokens\":5}}\n\n").is_none());
    assert_eq!(c.counts(), TokenCounts { input: Some(12), output: Some(5) });
    let e = c.process_chunk(b"event: message_stop\ndata: {\"type\":\"message_stop\"}\n\n").unwrap();
    assert_eq!(e.request_id, "req-1");
    assert_eq!(e.token, "user-token");
    assert_eq!(e.model, "n");
    assert_eq!(e.api, "https://up.example");
    assert_eq!(e.input_tokens, 12);
    assert_eq!(e.output_tokens, 5);
    assert_eq!(e.model_id, "mid");
    assert_eq!(e.provider_id, "pid");
    assert_eq!(e.provider_token_id, "ptid");
}

#[test]
fn at_most_one_event_per_stream() {
    let mut c = collector(TargetProtocol::OpenAI);
    let usage = b"data: {\"usage\":{\"prompt_tokens\":1,\"completion_tokens\":2}}\n\n";
    assert!(c.process_chunk(usage).is_some());
    assert!(c.process_chunk(usage).is_none());
    assert!(c.process_chunk(b"data: {\"usage\":{\"prompt_tokens\":7,\"completion_tokens\":8}}\n\n").is_none());
    assert!(c.report_usage().is_none());
    assert!(c.report_usage().is_none());
}

#[test]
fn the_end_of_the_stream_reports_what_is_known() {
    let mut c = collector(TargetProtocol::Anthropic);
    c.process_chunk(b"data: {\"type\":\"message_start\",\"message\":{\"usage\":{\"input_tokens\":1}}}\n\n");
    assert!(c.report_usage().is_none());
    c.process_chunk(b"data: {\"type\":\"message_delta\",\"usage\":{\"output_tokens\":2}}\n\n");
    let e = c.report_usage().unwrap();
    assert_eq!((e.input_tokens, e.output_tokens), (1, 2));
    assert!(c.report_usage().is_none());
}

#[test]
fn an_openai_chunk_with_usage_reports() {
    let mut c = collector(TargetProtocol::OpenAI);
    assert!(c.process_chunk(b"data: {\"choices\":[{\"delta\":{\"content\":\"x\"}}]}\n\n").is_none());
    let e = c.process_chunk(b"data: {\"choices\":[],\"usage\":{\"prompt_tokens\":10,\"completion_tokens\":5,\"total_tokens\":15}}\n\ndata: [DONE]\n\n").unwrap();
    assert_eq!((e.input_tokens, e.output_tokens), (10, 5));
}

#[test]
fn a_custom_upstream_is_read_like_openai() {
    let mut c = collector(TargetProtocol::Custom("x".into()));
    let e = c.process_chunk(b"data: {\"usage\":{\"input_tokens\":4,\"output_tokens\":6}}\n\n").unwrap();
    assert_eq!((e.input_tokens, e.output_tokens), (4, 6));
}

#[test]
fn the_responses_api_reports_on_completion() {
    let mut c = collector(TargetProtocol::OpenAI);
    let e = c.process_chunk(b"event: response.completed\ndata: {\"type\":\"response.completed\",\"response\":{\"usage\":{\"input_tokens\":8,\"output_tokens\":9}}}\n\n").unwrap();
    assert_eq!((e.input_tokens, e.output_tokens), (8, 9));
    let mut c = collector(TargetProtocol::OpenAI);
    assert!(c.process_chunk(b"data: {\"type\":\"response.done\",\"usage\":{\"prompt_tokens\":1,\"completion_tokens\":1}}\n\n").is_none());
    assert_eq!(c.counts(), NONE);
}

#[test]
fn events_may_be_split_over_chunks() {
    let mut c = collector(TargetProtocol::OpenAI);
    assert!(c.process_chunk(b"data: {\"usage\":{\"prompt_to").is_none());
    assert!(c.process_chunk(b"kens\":1,\"completion_tokens\":2}}\n").is_none());
    assert_eq!(c.buffered(), 58);
    let e = c.process_chunk(b"\n").unwrap();
    assert_eq!((e.input_tokens, e.output_tokens), (1, 2));
    assert_eq!(c.buffered(), 0);
}

#[test]
fn a_single_json_document_yields_no_event() {
    let mut c = collector(TargetProtocol::OpenAI);
    assert!(c.process_chunk(b"{\"id\":\"x\",\"usage\":{\"prompt_tokens\":1,\"completion_tokens\":1}}").is_none());
    assert_eq!(c.counts(), NONE);
    assert!(c.report_usage().is_none());
}

#[test]
fn a_chunk_that_is_no_utf8_is_passed_over() {
    let mut c = collector(TargetProtocol::OpenAI);
    c.process_chunk(b"data: {\"usage\":");
    assert!(c.process_chunk(&[0xff, 0xfe, b'\n', b'\n']).is_none());
    assert_eq!(c.buffered(), 15);
    let e = c.process_chunk(b"{\"prompt_tokens\":1,\"completion_tokens\":2}}\n\n").unwrap();
    assert_eq!((e.input_tokens, e.output_tokens), (1, 2));
}

#[test]
fn a_buffer_above_one_mebibyte_is_dropped_and_collection_goes_on() {
    let mut c = collector(TargetProtocol::OpenAI);
    let big = vec![b'x'; MAX_BUFFER];
    assert!(c.process_chunk(&big).is_none());
    assert_eq!(c.buffered(), MAX_BUFFER);
    assert!(c.process_chunk(b"y").is_none());
    assert_eq!(c.buffered(), 0);
    let e = c.process_chunk(b"data: {\"usage\":{\"prompt_tokens\":1,\"completion_tokens\":2}}\n\n").unwrap();
    assert_eq!((e.input_tokens, e.output_tokens), (1, 2));
}

#[test]
fn data_lines_are_joined_by_newlines() {
    assert_eq!(data_of_event(b"event: x\ndata: {\"a\":\ndata: 1}"), Some(b" {\"a\":\n 1}".to_vec()));
    assert_eq!(data_of_event(b"data:x"), Some(b"x".to_vec()));
    assert_eq!(data_of_event(b"data:"), Some(Vec::new()));
    assert_eq!(data_of_event(b"event: x\n: comment"), None);
    assert_eq!(data_of_event(b""), None);
    assert_eq!(data_of_event(b" data: x"), None);
    let mut c = collector(TargetProtocol::OpenAI);
    let e = c.parse_and_process_sse_event(b"data: {\"usage\":\ndata: {\"prompt_tokens\":1,\ndata: \"completion_tokens\":2}}").unwrap();
    assert_eq!((e.input_tokens, e.output_tokens), (1, 2));
}

#[test]
fn the_done_marker_and_bad_json_change_nothing() {
    let mut c = collector(TargetProtocol::OpenAI);
    assert!(c.process_chunk(b"data: [DONE]\n\ndata: {oops\n\n: ping\n\n").is_none());
    assert_eq!(c.counts(), NONE);
}

#[test]
fn anthropic_documents_are_read_by_type() {
    let d = Json::parse(b"{\"type\":\"message_start\",\"message\":{\"usage\":{\"input_tokens\":3}}}").unwrap();
    assert_eq!(usage_from_anthropic(NONE, &d), (TokenCounts { input: Some(3), output: None }, false));
    let d = Json::parse(b"{\"type\":\"message_start\",\"message\":{}}").unwrap();
    let t = TokenCounts { input: Some(1), output: Some(2) };
    assert_eq!(usage_from_anthropic(t, &d), (t, false));
    let d = Json::parse(b"{\"type\":\"message_stop\"}").unwrap();
    assert_eq!(usage_from_anthropic(t, &d), (t, true));
    let d = Json::parse(b"{\"usage\":{\"output_tokens\":9}}").unwrap();
    assert_eq!(usage_from_anthropic(t, &d), (t, false));
    let d = Json::parse(b"{\"type\":\"ping\"}").unwrap();
    assert_eq!(usage_from_anthropic(t, &d), (t, false));
}

#[test]
fn openai_documents_accept_both_sets_of_names() {
    let d = Json::parse(b"{\"usage\":{\"prompt_tokens\":3}}").unwrap();
    assert_eq!(usage_from_openai(NONE, &d), (TokenCounts { input: Some(3), output: None }, false));
    let d = Json::parse(b"{\"usage\":{\"output_tokens\":4}}").unwrap();
    assert_eq!(usage_from_openai(NONE, &d), (TokenCounts { input: None, output: Some(4) }, true));
    let d = Json::parse(b"{\"usage\":{\"prompt_tokens\":null,\"input_tokens\":4}}").unwrap();
    assert_eq!(usage_from_openai(NONE, &d), (NONE, false));
    let d = Json::parse(b"{\"usage\":null}").unwrap();
    assert_eq!(usage_from_openai(NONE, &d), (NONE, false));
    let d = Json::parse(b"{\"type\":\"response.done\",\"response\":{\"usage\":{}}}").unwrap();
    assert_eq!(usage_from_openai(NONE, &d), (NONE, true));
}

#[test]
fn an_incomplete_report_sends_nothing() {
    let mut c = collector(TargetProtocol::Anthropic);
    assert!(c.process_chunk(b"data: {\"type\":\"message_delta\",\"usage\":{\"output_tokens\":2}}\n\ndata: {\"type\":\"message_stop\"}\n\n").is_none());
    assert!(c.report_usage().is_none());
    let e = c.process_chunk(b"data: {\"type\":\"message_start\",\"message\":{\"usage\":{\"input_tokens\":1}}}\n\ndata: {\"type\":\"message_stop\"}\n\n").unwrap();
    assert_eq!((e.input_tokens, e.output_tokens), (1, 2));
}
