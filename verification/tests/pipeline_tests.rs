use ai_gateway_engine::cache::Cache;
use ai_gateway_engine::config::{BusinessApiConfig, ProxyConfig};
use ai_gateway_engine::error::Error;
use ai_gateway_engine::json::Json;
use ai_gateway_engine::models::{ClientProtocol, RouteConfig, TargetProtocol};
use ai_gateway_engine::pipeline::{
    create_error_response, error_response, extract_model, extract_token,
    extract_usage_from_response, find_header, handle_request, health, model_of, no_routes,
    usage_of, Action, Failover, GatewayResponse, InboundRequest, Outcome, Report, RequestContext,
    UpstreamEvent,
};
use ai_gateway_engine::protocol::adapter::{StreamAdapter, UniversalAdapter};
use ai_gateway_engine::proxy::ProxyForwarder;
use ai_gateway_engine::router::{Lookup, Router};

const CHAT: &str = "{\"model\":\"m\",\"messages\":[{\"role\":\"user\",\"content\":\"hi\"}],\"stream\":false}";
const CHAT_STREAM: &str = "{\"model\":\"m\",\"messages\":[{\"role\":\"user\",\"content\":\"hi\"}],\"stream\":true}";

fn h(pairs: &[(&str, &str)]) -> Vec<(String, String)> {
    pairs.iter().map(|(a, b)| (a.to_string(), b.to_string())).collect()
}

fn inbound(path: &str, body: &str) -> InboundRequest {
    InboundRequest {
        path: path.into(),
        headers: h(&[("Authorization", "Bearer user-token"), ("Host", "gateway"), ("x-trace", "1")]),
        body: body.as_bytes().to_vec(),
    }
}

fn context(path: &str, body: &str) -> RequestContext {
    handle_request(inbound(path, body), "req-1".into()).unwrap()
}

fn route(name: &str, protocol: TargetProtocol) -> RouteConfig {
    RouteConfig {
        token: format!("sk-{}", name),
        model: "n".into(),
        api_endpoint: format!("https://{}.example", name),
        protocol,
        model_id: format!("mid-{}", name),
        provider_id: format!("pid-{}", name),
        provider_token_id: format!("ptid-{}", name),
    }
}

struct Gateway {
    adapter: UniversalAdapter,
    forwarder: ProxyForwarder,
    router: Router,
}

fn gateway(cached: &[RouteConfig]) -> Gateway {
    let mut router = Router::new(
        Cache::new(60_000, 600_000),
        BusinessApiConfig { base_url: "http://backend".into(), timeout: 5000, retry_attempts: 3 },
    );
    router.store_routes_at("user-token", "m", &cached.to_vec(), 0);
    Gateway {
        adapter: UniversalAdapter::new(),
        forwarder: ProxyForwarder::new(&ProxyConfig { timeout: 30_000, max_connections: 500, keep_alive: true, retry_attempts: 3 }),
        router,
    }
}

fn step(g: &mut Gateway, f: &mut Failover, event: UpstreamEvent) -> Outcome {
    f.advance_at(event, 77, &g.adapter, &g.forwarder, &mut g.router)
}

fn answer(status: u16, reason: &str, body: &str) -> UpstreamEvent {
    UpstreamEvent::Answer { status, reason: reason.into(), body: body.as_bytes().to_vec() }
}

fn cached(g: &mut Gateway) -> Vec<String> {
    match g.router.resolve_route_at("user-token", "m", 1) {
        Lookup::Cached(list) => list.iter().map(|c| c.token.clone()).collect(),
        Lookup::Fetch(_) => Vec::new(),
    }
}

fn body_text(r: &GatewayResponse) -> String {
    String::from_utf8(r.body.clone()).unwrap()
}

#[test]
fn the_health_check_answers_healthy() {
    let r = health();
    assert_eq!(r.status, 200);
    assert_eq!(r.headers, h(&[("content-type", "application/json")]));
    assert_eq!(body_text(&r), "{\"status\":\"healthy\"}");
}

#[test]
fn gateway_errors_have_one_shape() {
    let r = error_response(503, "All routes failed");
    assert_eq!(r.status, 503);
    assert_eq!(r.headers, h(&[("content-type", "application/json")]));
    assert_eq!(body_text(&r), "{\"error\":{\"message\":\"All routes failed\",\"type\":\"gateway_error\"}}");
    assert_eq!(body_text(&no_routes()), "{\"error\":{\"message\":\"No available routes\",\"type\":\"gateway_error\"}}");
    assert_eq!(no_routes().status, 503);
}

#[test]
fn a_request_without_a_bearer_token_is_refused() {
    let mut req = inbound("/v1/chat/completions", CHAT);
    req.headers = h(&[("x-trace", "1")]);
    let r = handle_request(req, "id".into()).unwrap_err();
    assert_eq!(r.status, 401);
    assert_eq!(body_text(&r), "{\"error\":{\"message\":\"Missing authorization\",\"type\":\"gateway_error\"}}");
    let mut req = inbound("/v1/chat/completions", CHAT);
    req.headers = h(&[("authorization", "Basic abc")]);
    assert_eq!(handle_request(req, "id".into()).unwrap_err().status, 401);
    let mut req = inbound("/v1/chat/completions", "not json");
    req.headers = h(&[]);
    assert_eq!(handle_request(req, "id".into()).unwrap_err().status, 401);
}

#[test]
fn a_request_without_a_model_is_refused() {
    for body in ["{}", "not json", "{\"model\":7}", ""] {
        let r = handle_request(inbound("/v1/chat/completions", body), "id".into()).unwrap_err();
        assert_eq!(r.status, 400, "{}", body);
        assert_eq!(body_text(&r), "{\"error\":{\"message\":\"Missing model field\",\"type\":\"gateway_error\"}}");
    }
}

#[test]
fn a_request_is_read_into_its_context() {
    let ctx = context("/v1/chat/completions", CHAT);
    assert!(matches!(ctx.client_protocol, ClientProtocol::OpenAI));
    assert_eq!(ctx.user_token, "user-token");
    assert_eq!(ctx.requested_model, "m");
    assert_eq!(ctx.client_headers, h(&[("x-trace", "1")]));
    assert_eq!(ctx.body, CHAT.as_bytes());
    assert!(!ctx.is_stream);
    assert_eq!(ctx.custom_path, None);
    assert_eq!(ctx.request_id, "req-1");
    let ctx = context("/v1/messages", CHAT_STREAM);
    assert!(matches!(ctx.client_protocol, ClientProtocol::Anthropic));
    assert!(ctx.is_stream);
    let ctx = context("/v1/responses", CHAT);
    assert!(matches!(ctx.client_protocol, ClientProtocol::OpenAI));
    assert_eq!(ctx.custom_path.as_deref(), Some("/v1/responses"));
    let ctx = context("/v1/responses/", CHAT);
    assert_eq!(ctx.custom_path, None);
}

#[test]
fn the_small_readers() {
    assert_eq!(extract_token(Some("Bearer abc")).as_deref(), Some("abc"));
    assert_eq!(extract_token(Some("bearer abc")), None);
    assert_eq!(extract_token(None), None);
    assert_eq!(extract_model(b"{\"model\":\"m\"}").as_deref(), Some("m"));
    assert_eq!(extract_model(b"{\"model\":null}"), None);
    assert_eq!(model_of(&Json::parse(b"{\"model\":\"x\"}").unwrap()).as_deref(), Some("x"));
    let headers = h(&[("A", "1"), ("a", "2"), ("b", "3")]);
    assert_eq!(find_header(&headers, "a").map(|s| s.as_str()), Some("1"));
    assert_eq!(find_header(&headers, "B").map(|s| s.as_str()), Some("3"));
    assert_eq!(find_header(&headers, "c"), None);
}

#[test]
fn usage_is_read_under_the_names_of_the_protocol() {
    let openai = b"{\"usage\":{\"prompt_tokens\":1,\"completion_tokens\":2,\"input_tokens\":8,\"output_tokens\":9}}";
    assert_eq!(extract_usage_from_response(&TargetProtocol::OpenAI, openai), Some((1, 2)));
    assert_eq!(extract_usage_from_response(&TargetProtocol::Custom("c".into()), openai), Some((1, 2)));
    assert_eq!(extract_usage_from_response(&TargetProtocol::Anthropic, openai), Some((8, 9)));
    assert_eq!(extract_usage_from_response(&TargetProtocol::Anthropic, b"{\"usage\":{\"input_tokens\":8}}"), None);
    assert_eq!(extract_usage_from_response(&TargetProtocol::OpenAI, b"{\"usage\":{\"prompt_tokens\":1.5,\"completion_tokens\":2}}"), None);
    assert_eq!(extract_usage_from_response(&TargetProtocol::OpenAI, b"{}"), None);
    assert_eq!(extract_usage_from_response(&TargetProtocol::OpenAI, b""), None);
    assert_eq!(usage_of(&TargetProtocol::OpenAI, &Json::parse(b"{\"usage\":{\"prompt_tokens\":4294967297,\"completion_tokens\":2}}").unwrap()), Some((1, 2)));
}

#[test]
fn failures_are_answered_by_their_status() {
    let e = Error::Proxy("Upstream returned error status 401 Unauthorized: {\"error\":\"bad key\"}".into());
    let r = create_error_response(&e);
    assert_eq!(r.status, 401);
    assert_eq!(r.headers, h(&[("content-type", "application/json")]));
    assert_eq!(body_text(&r), "{\"error\":\"bad key\"}");
    for (code, status) in [("400", 400), ("403", 403), ("404", 404), ("422", 422), ("429", 429)] {
        let r = create_error_response(&Error::Proxy(format!("Upstream returned error status {} X: up: stream", code)));
        assert_eq!(r.status, status);
        assert_eq!(body_text(&r), "up: stream");
    }
    let r = create_error_response(&Error::Proxy("Upstream returned error status 500 Internal Server Error: boom".into()));
    assert_eq!(r.status, 500);
    assert_eq!(body_text(&r), "{\"error\":{\"message\":\"Upstream returned error status 500 Internal Server Error: boom\",\"type\":\"gateway_error\"}}");
    let r = create_error_response(&Error::Proxy("429".into()));
    assert_eq!(r.status, 429);
    assert_eq!(body_text(&r), "{\"error\":{\"message\":\"429\",\"type\":\"gateway_error\"}}");
    let r = create_error_response(&Error::Http("timed out after 401 ms".into()));
    assert_eq!(r.status, 500);
    assert_eq!(body_text(&r), "{\"error\":{\"message\":\"HTTP error: timed out after 401 ms\",\"type\":\"gateway_error\"}}");
    let r = create_error_response(&Error::Proxy("see 404 and 400".into()));
    assert_eq!(r.status, 400);
}

#[test]
fn an_openai_request_to_an_openai_route_is_answered_with_the_upstream_body() {
    let routes = vec![route("a", TargetProtocol::OpenAI)];
    let mut g = gateway(&routes);
    let mut f = Failover::new(context("/v1/chat/completions", CHAT), routes);
    assert!(!f.is_stream());
    let o = step(&mut g, &mut f, UpstreamEvent::Start);
    assert!(o.reports.is_empty());
    match o.action {
        Action::Send(req) => {
            assert_eq!(req.url, "https://a.example/v1/chat/completions");
            assert_eq!(req.headers, h(&[("x-trace", "1"), ("authorization", "Bearer sk-a"), ("content-type", "application/json")]));
            assert_eq!(String::from_utf8(req.body).unwrap(), "{\"messages\":[{\"content\":\"hi\",\"role\":\"user\"}],\"model\":\"n\",\"stream\":false}");
        }
        _ => panic!("no request"),
    }
    let upstream = "{\"id\":\"x\",\"choices\":[{\"message\":{\"role\":\"assistant\",\"content\":\"hello\"},\"finish_reason\":\"stop\"}],\"usage\":{\"prompt_tokens\":1,\"completion_tokens\":1}}";
    let o = step(&mut g, &mut f, answer(200, "OK", upstream));
    assert_eq!(o.reports.len(), 1);
    match &o.reports[0] {
        Report::Usage(u) => {
            assert_eq!(u.request_id, "req-1");
            assert_eq!(u.token, "user-token");
            assert_eq!(u.model, "m");
            assert_eq!(u.api, "https://a.example");
            assert_eq!((u.input_tokens, u.output_tokens), (1, 1));
            assert_eq!((u.model_id.as_str(), u.provider_id.as_str(), u.provider_token_id.as_str()), ("mid-a", "pid-a", "ptid-a"));
        }
        other => panic!("unexpected {:?}", other),
    }
    match o.action {
        Action::Respond(r) => {
            assert_eq!(r.status, 200);
            assert_eq!(r.headers, h(&[("content-type", "application/json")]));
            assert_eq!(Json::parse(&r.body).unwrap().to_text(), Json::parse(upstream.as_bytes()).unwrap().to_text());
        }
        _ => panic!("no answer"),
    }
    assert_eq!(cached(&mut g), vec!["sk-a"]);
}

#[test]
fn an_openai_request_to_an_anthropic_route_is_rewritten_both_ways() {
    let routes = vec![route("a", TargetProtocol::Anthropic)];
    let mut g = gateway(&routes);
    let mut f = Failover::new(context("/v1/chat/completions", CHAT), routes);
    match step(&mut g, &mut f, UpstreamEvent::Start).action {
        Action::Send(req) => {
            assert_eq!(req.url, "https://a.example/v1/messages");
            assert_eq!(req.headers, h(&[("x-trace", "1"), ("x-api-key", "sk-a"), ("content-type", "application/json")]));
            let body = Json::parse(&req.body).unwrap();
            assert_eq!(body.get_i64("max_tokens"), Some(1024));
            assert_eq!(body.get_str("model").map(|s| s.as_str()), Some("n"));
            assert_eq!(body.get("messages").unwrap().to_text(), "[{\"content\":\"hi\",\"role\":\"user\"}]");
        }
        _ => panic!("no request"),
    }
    let upstream = "{\"id\":\"a\",\"content\":[{\"type\":\"text\",\"text\":\"hello\"}],\"model\":\"n\",\"stop_reason\":\"end_turn\",\"usage\":{\"input_tokens\":2,\"output_tokens\":3}}";
    let o = step(&mut g, &mut f, answer(200, "OK", upstream));
    assert!(matches!(&o.reports[..], [Report::Usage(u)] if (u.input_tokens, u.output_tokens) == (2, 3)));
    match o.action {
        Action::Respond(r) => {
            assert_eq!(r.status, 200);
            let body = Json::parse(&r.body).unwrap();
            let usage = body.get("usage").unwrap();
            assert_eq!(usage.get_i64("prompt_tokens"), Some(2));
            assert_eq!(usage.get_i64("completion_tokens"), Some(3));
            assert_eq!(usage.get_i64("total_tokens"), Some(5));
            let choice = body.get("choices").unwrap().at(0).unwrap();
            assert_eq!(choice.get_str("finish_reason").map(|s| s.as_str()), Some("end_turn"));
            assert_eq!(choice.get("message").unwrap().get_str("content").map(|s| s.as_str()), Some("hello"));
            assert_eq!(body.get_i64("created"), Some(77));
        }
        _ => panic!("no answer"),
    }
}

#[test]
fn a_same_protocol_stream_is_piped_through() {
    let routes = vec![route("a", TargetProtocol::OpenAI)];
    let mut g = gateway(&routes);
    let mut f = Failover::new(context("/v1/chat/completions", CHAT_STREAM), routes);
    assert!(f.is_stream());
    assert!(matches!(step(&mut g, &mut f, UpstreamEvent::Start).action, Action::Send(_)));
    let o = step(&mut g, &mut f, UpstreamEvent::StreamOpened);
    assert!(o.reports.is_empty());
    let mut plan = match o.action {
        Action::Stream(plan) => plan,
        _ => panic!("no stream"),
    };
    assert_eq!(plan.response.status, 200);
    assert_eq!(
        plan.response.headers,
        h(&[("content-type", "text/event-stream"), ("cache-control", "no-cache"), ("connection", "keep-alive"), ("x-accel-buffering", "no")])
    );
    assert!(matches!(plan.adapter, StreamAdapter::Passthrough));
    let events: [&[u8]; 3] = [
        b"data: {\"id\":\"c\",\"model\":\"m\",\"choices\":[{\"delta\":{\"role\":\"assistant\",\"content\":\"\"}}]}\n\n",
        b"data: {\"id\":\"c\",\"model\":\"m\",\"choices\":[{\"delta\":{\"content\":\"hi\"}}]}\n\n",
        b"data: [DONE]\n\n",
    ];
    for e in events {
        assert!(plan.collector.process_chunk(e).is_none());
        assert_eq!(plan.adapter.push(e), e);
    }
    assert!(plan.collector.report_usage().is_none());
}

#[test]
fn an_anthropic_stream_reaches_an_openai_client_as_openai_chunks() {
    let routes = vec![route("a", TargetProtocol::Anthropic)];
    let mut g = gateway(&routes);
    let mut f = Failover::new(context("/v1/chat/completions", CHAT_STREAM), routes);
    match step(&mut g, &mut f, UpstreamEvent::Start).action {
        Action::Send(req) => {
            assert_eq!(req.url, "https://a.example/v1/messages");
            assert_eq!(Json::parse(&req.body).unwrap().get("stream").and_then(|s| s.as_bool()), Some(true));
        }
        _ => panic!("no request"),
    }
    let mut plan = match step(&mut g, &mut f, UpstreamEvent::StreamOpened).action {
        Action::Stream(plan) => plan,
        _ => panic!("no stream"),
    };
    let upstream: [&str; 4] = [
        "event: message_start\ndata: {\"type\":\"message_start\",\"message\":{\"id\":\"a\",\"model\":\"n\",\"usage\":{\"input_tokens\":2}}}\n\n",
        "event: content_block_delta\ndata: {\"type\":\"content_block_delta\",\"delta\":{\"type\":\"text_delta\",\"text\":\"hi\"}}\n\n",
        "event: message_delta\ndata: {\"type\":\"message_delta\",\"delta\":{\"stop_reason\":\"end_turn\"},\"usage\":{\"output_tokens\":5}}\n\n",
        "event: message_stop\ndata: {\"type\":\"message_stop\"}\n\n",
    ];
    let mut sent = String::new();
    let mut usage = Vec::new();
    for chunk in upstream {
        usage.extend(plan.collector.process_chunk(chunk.as_bytes()));
        sent.push_str(&String::from_utf8(plan.adapter.push_at(chunk.as_bytes(), 77)).unwrap());
    }
    usage.extend(plan.collector.report_usage());
    let events: Vec<&str> = sent.split("\n\n").filter(|e| !e.is_empty()).collect();
    assert_eq!(events.len(), 5);
    let docs: Vec<Json> = events[..4].iter().map(|e| Json::parse(e.trim_start_matches("data: ").as_bytes()).unwrap()).collect();
    let delta = |j: &Json| j.get("choices").unwrap().at(0).unwrap().get("delta").unwrap().to_text();
    assert_eq!(delta(&docs[0]), "{\"content\":\"\",\"role\":\"assistant\"}");
    assert_eq!(delta(&docs[1]), "{\"content\":\"hi\"}");
    assert_eq!(delta(&docs[2]), "{\"content\":\"\"}");
    assert_eq!(docs[2].get("choices").unwrap().at(0).unwrap().get_str("finish_reason").map(|s| s.as_str()), Some("end_turn"));
    assert_eq!(docs[3].get("choices").unwrap().to_text(), "[]");
    assert_eq!(docs[3].get("usage").unwrap().to_text(), "{\"completion_tokens\":5,\"prompt_tokens\":0,\"total_tokens\":5}");
    assert_eq!(events[4], "data: [DONE]");
    assert_eq!(usage.len(), 1);
    assert_eq!((usage[0].input_tokens, usage[0].output_tokens), (2, 5));
    assert_eq!(usage[0].request_id, "req-1");
    assert_eq!(usage[0].model, "n");
}

#[test]
fn a_server_error_evicts_the_candidate_and_the_next_one_is_tried() {
    let routes = vec![route("a", TargetProtocol::OpenAI), route("b", TargetProtocol::OpenAI)];
    let mut g = gateway(&routes);
    let mut f = Failover::new(context("/v1/chat/completions", CHAT), routes);
    assert!(matches!(step(&mut g, &mut f, UpstreamEvent::Start).action, Action::Send(_)));
    assert_eq!(f.current_index(), 0);
    let o = step(&mut g, &mut f, answer(500, "Internal Server Error", "boom"));
    assert_eq!(o.reports.len(), 1);
    match &o.reports[0] {
        Report::Error(e) => {
            assert_eq!(e.token, "sk-a");
            assert_eq!(e.model, "n");
            assert_eq!(e.api, "https://a.example");
            assert_eq!(e.msg, "Proxy error: Upstream returned error status 500 Internal Server Error: boom");
            assert_eq!(e.provider_token_id.as_deref(), Some("ptid-a"));
        }
        other => panic!("unexpected {:?}", other),
    }
    match o.action {
        Action::Send(req) => assert_eq!(req.url, "https://b.example/v1/chat/completions"),
        _ => panic!("no second request"),
    }
    assert_eq!(f.current_index(), 1);
    assert_eq!(f.current_route().unwrap().token, "sk-b");
    assert_eq!(cached(&mut g), vec!["sk-b"]);
    let o = step(&mut g, &mut f, answer(200, "OK", "{\"id\":\"from-b\"}"));
    assert!(o.reports.is_empty());
    match o.action {
        Action::Respond(r) => {
            assert_eq!(r.status, 200);
            assert_eq!(body_text(&r), "{\"id\":\"from-b\"}");
        }
        _ => panic!("no answer"),
    }
}

#[test]
fn a_client_error_stops_the_walk_and_evicts_nothing() {
    let routes = vec![route("a", TargetProtocol::OpenAI), route("b", TargetProtocol::OpenAI)];
    let mut g = gateway(&routes);
    let mut f = Failover::new(context("/v1/chat/completions", CHAT), routes);
    step(&mut g, &mut f, UpstreamEvent::Start);
    let o = step(&mut g, &mut f, answer(401, "Unauthorized", "{\"error\":\"bad key\"}"));
    assert!(matches!(&o.reports[..], [Report::Error(e)] if e.token == "sk-a" && e.msg.contains("401")));
    match o.action {
        Action::Respond(r) => {
            assert_eq!(r.status, 401);
            assert_eq!(body_text(&r), "{\"error\":\"bad key\"}");
        }
        _ => panic!("no answer"),
    }
    assert_eq!(f.current_index(), 0);
    assert_eq!(cached(&mut g), vec!["sk-a", "sk-b"]);
}

#[test]
fn the_only_candidate_failing_gives_one_report_an_eviction_and_a_503() {
    let routes = vec![route("a", TargetProtocol::OpenAI)];
    let mut g = gateway(&routes);
    let mut f = Failover::new(context("/v1/chat/completions", CHAT), routes);
    step(&mut g, &mut f, UpstreamEvent::Start);
    let o = step(&mut g, &mut f, answer(502, "Bad Gateway", ""));
    assert_eq!(o.reports.len(), 1);
    assert!(matches!(&o.reports[0], Report::Error(e) if e.token == "sk-a"));
    match o.action {
        Action::Respond(r) => {
            assert_eq!(r.status, 503);
            assert_eq!(body_text(&r), "{\"error\":{\"message\":\"All routes failed\",\"type\":\"gateway_error\"}}");
        }
        _ => panic!("no answer"),
    }
    assert!(cached(&mut g).is_empty());
    assert!(g.router.cache().entry("user-token", "m").is_none());
    assert!(f.current_route().is_none());
}

#[test]
fn a_transport_error_is_a_failure_of_the_endpoint() {
    let routes = vec![route("a", TargetProtocol::OpenAI), route("b", TargetProtocol::Anthropic)];
    let mut g = gateway(&routes);
    let mut f = Failover::new(context("/v1/chat/completions", CHAT_STREAM), routes);
    step(&mut g, &mut f, UpstreamEvent::Start);
    let o = step(&mut g, &mut f, UpstreamEvent::TransportError("connection refused (os error 400)".into()));
    assert!(matches!(&o.reports[..], [Report::Error(e)] if e.msg == "HTTP error: connection refused (os error 400)"));
    assert!(matches!(o.action, Action::Send(ref req) if req.url == "https://b.example/v1/messages"));
    assert_eq!(cached(&mut g), vec!["sk-b"]);
    let o = step(&mut g, &mut f, UpstreamEvent::TransportError("reset".into()));
    match o.action {
        Action::Respond(r) => {
            assert_eq!(r.status, 503);
            assert_eq!(body_text(&r), "{\"error\":{\"message\":\"All stream routes failed\",\"type\":\"gateway_error\"}}");
        }
        _ => panic!("no answer"),
    }
}

#[test]
fn an_empty_body_on_a_success_is_a_failure_without_eviction() {
    let routes = vec![route("a", TargetProtocol::OpenAI), route("b", TargetProtocol::OpenAI)];
    let mut g = gateway(&routes);
    let mut f = Failover::new(context("/v1/chat/completions", CHAT), routes);
    step(&mut g, &mut f, UpstreamEvent::Start);
    let o = step(&mut g, &mut f, answer(200, "OK", ""));
    assert!(o.reports.is_empty());
    assert!(matches!(o.action, Action::Send(ref req) if req.url == "https://b.example/v1/chat/completions"));
    assert_eq!(cached(&mut g), vec!["sk-a", "sk-b"]);
    let o = step(&mut g, &mut f, answer(204, "No Content", ""));
    assert!(matches!(o.action, Action::Respond(ref r) if r.status == 503));
}

#[test]
fn an_answer_that_cannot_be_rewritten_passes_the_walk_on() {
    let routes = vec![route("a", TargetProtocol::Anthropic), route("b", TargetProtocol::Anthropic)];
    let mut g = gateway(&routes);
    let mut f = Failover::new(context("/v1/chat/completions", CHAT), routes);
    step(&mut g, &mut f, UpstreamEvent::Start);
    let o = step(&mut g, &mut f, answer(200, "OK", "{\"usage\":{\"input_tokens\":1,\"output_tokens\":2}}"));
    assert!(matches!(&o.reports[..], [Report::Usage(u)] if u.api == "https://a.example"));
    assert!(matches!(o.action, Action::Send(ref req) if req.url == "https://b.example/v1/messages"));
    let o = step(&mut g, &mut f, answer(200, "OK", "<html>"));
    assert!(o.reports.is_empty());
    assert!(matches!(o.action, Action::Respond(ref r) if r.status == 503));
}

#[test]
fn candidates_that_cannot_be_asked_are_passed_over() {
    let mut bad_token = route("b", TargetProtocol::OpenAI);
    bad_token.token = "line\nbreak".into();
    let routes = vec![route("a", TargetProtocol::Custom("x".into())), bad_token, route("c", TargetProtocol::OpenAI)];
    let mut g = gateway(&routes);
    let mut f = Failover::new(context("/v1/chat/completions", CHAT), routes);
    let o = step(&mut g, &mut f, UpstreamEvent::Start);
    assert_eq!(o.reports.len(), 1);
    assert!(matches!(&o.reports[0], Report::Error(e) if e.msg == "Proxy error: Invalid token format" && e.api == "https://b.example"));
    assert!(matches!(o.action, Action::Send(ref req) if req.url == "https://c.example/v1/chat/completions"));
    assert_eq!(f.current_index(), 2);
    assert_eq!(cached(&mut g), vec!["sk-a", "sk-c"]);
}

#[test]
fn no_candidates_means_a_503() {
    let mut g = gateway(&[]);
    let mut f = Failover::new(context("/v1/chat/completions", CHAT), Vec::new());
    let o = step(&mut g, &mut f, UpstreamEvent::Start);
    assert!(o.reports.is_empty());
    assert!(matches!(o.action, Action::Respond(ref r) if r.status == 503));
    let o = step(&mut g, &mut f, UpstreamEvent::StreamOpened);
    assert!(matches!(o.action, Action::Respond(ref r) if r.status == 503));
    let o = step(&mut g, &mut f, answer(200, "OK", "{}"));
    assert!(matches!(o.action, Action::Respond(ref r) if r.status == 503));
}

#[test]
fn the_responses_api_keeps_its_path() {
    let routes = vec![route("a", TargetProtocol::OpenAI)];
    let mut g = gateway(&routes);
    let mut f = Failover::new(context("/v1/responses", CHAT), routes);
    assert!(matches!(step(&mut g, &mut f, UpstreamEvent::Start).action, Action::Send(ref req) if req.url == "https://a.example/v1/responses"));
    assert_eq!(f.context().custom_path.as_deref(), Some("/v1/responses"));
}

#[test]
fn the_walk_reads_the_clock_itself() {
    let routes = vec![route("a", TargetProtocol::Anthropic)];
    let mut g = gateway(&routes);
    let mut f = Failover::new(context("/v1/chat/completions", CHAT), routes);
    assert!(matches!(f.advance(UpstreamEvent::Start, &g.adapter, &g.forwarder, &mut g.router).action, Action::Send(_)));
    let upstream = "{\"id\":\"a\",\"content\":[],\"model\":\"n\",\"usage\":{\"input_tokens\":2,\"output_tokens\":3}}";
    match f.advance(answer(200, "OK", upstream), &g.adapter, &g.forwarder, &mut g.router).action {
        Action::Respond(r) => assert!(Json::parse(&r.body).unwrap().get_i64("created").unwrap() > 1_600_000_000),
        _ => panic!("no answer"),
    }
}
