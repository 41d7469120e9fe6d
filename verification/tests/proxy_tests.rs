use ai_gateway_engine::config::ProxyConfig;
use ai_gateway_engine::error::Error;
use ai_gateway_engine::models::{RouteConfig, TargetProtocol};
use ai_gateway_engine::proxy::{
    blocked_header, filter_client_headers, header_value_ok, same_header_name, set_header,
    ClientSettings, ProxyForwarder,
};

fn forwarder() -> ProxyForwarder {
    ProxyForwarder::new(&ProxyConfig { timeout: 30_000, max_connections: 500, keep_alive: true, retry_attempts: 3 })
}

fn route(api: &str, protocol: TargetProtocol) -> RouteConfig {
    RouteConfig {
        token: "sk-up".into(),
        model: "n".into(),
        api_endpoint: api.into(),
        protocol,
        model_id: "mid".into(),
        provider_id: "pid".into(),
        provider_token_id: "ptid".into(),
    }
}

fn h(pairs: &[(&str, &str)]) -> Vec<(String, String)> {
    pairs.iter().map(|(a, b)| (a.to_string(), b.to_string())).collect()
}

#[test]
fn the_two_clients_differ_in_the_timeout_only() {
    let f = forwarder();
    assert_eq!(
        f.unary,
        ClientSettings { timeout: Some(30_000), pool_max_idle_per_host: 500, pool_idle_timeout: 60_000, tcp_keepalive: Some(30_000) }
    );
    assert_eq!(
        f.streaming,
        ClientSettings { timeout: None, pool_max_idle_per_host: 500, pool_idle_timeout: 60_000, tcp_keepalive: Some(30_000) }
    );
    let f = ProxyForwarder::new(&ProxyConfig { timeout: 1, max_connections: 2, keep_alive: false, retry_attempts: 0 });
    assert_eq!(f.unary.tcp_keepalive, None);
    assert_eq!(f.streaming.tcp_keepalive, None);
    assert_eq!(f.unary.timeout, Some(1));
}

#[test]
fn the_url_follows_protocol_and_base() {
    let f = forwarder();
    let cases = [
        ("https://h", TargetProtocol::OpenAI, None, "https://h/v1/chat/completions"),
        ("https://h/", TargetProtocol::OpenAI, None, "https://h/v1/chat/completions"),
        ("https://h/v1", TargetProtocol::OpenAI, None, "https://h/v1/chat/completions"),
        ("https://h/v1/", TargetProtocol::OpenAI, None, "https://h/v1/chat/completions"),
        ("https://h", TargetProtocol::Anthropic, None, "https://h/v1/messages"),
        ("https://h/v1", TargetProtocol::Anthropic, None, "https://h/v1/messages"),
        ("https://h", TargetProtocol::Custom("x".into()), None, "https://h/v1/chat/completions"),
        ("https://h/v1", TargetProtocol::Custom("x".into()), None, "https://h/v1/chat/completions"),
        ("https://h", TargetProtocol::Anthropic, Some("/v1/responses"), "https://h/v1/responses"),
        ("https://h/v1", TargetProtocol::OpenAI, Some("/v1/responses"), "https://h/v1/responses"),
        ("https://h/v1/", TargetProtocol::OpenAI, Some("/v1/responses"), "https://h/v1/responses"),
        ("https://h/v1", TargetProtocol::OpenAI, Some("/other"), "https://h/v1/other"),
        ("https://h", TargetProtocol::OpenAI, Some("/other"), "https://h/other"),
        ("", TargetProtocol::OpenAI, None, "/v1/chat/completions"),
    ];
    for (api, protocol, custom, want) in cases {
        assert_eq!(f.url_for(&route(api, protocol), custom), want, "{} {:?}", api, custom);
    }
}

#[test]
fn only_one_trailing_slash_is_trimmed() {
    let f = forwarder();
    assert_eq!(f.url_for(&route("https://h//", TargetProtocol::OpenAI), None), "https://h//v1/chat/completions");
}

#[test]
fn client_headers_are_filtered_whatever_the_case() {
    let got = filter_client_headers(&h(&[
        ("Authorization", "Bearer user"),
        ("x-trace", "1"),
        ("HOST", "gateway"),
        ("content-length", "12"),
        ("Transfer-Encoding", "chunked"),
        ("accept", "*/*"),
        ("Connection", "close"),
        ("x-host", "kept"),
    ]));
    assert_eq!(got, h(&[("x-trace", "1"), ("accept", "*/*"), ("x-host", "kept")]));
    assert!(blocked_header("AUTHORIZATION"));
    assert!(!blocked_header("authorization2"));
    assert!(same_header_name("Content-Type", "content-type"));
    assert!(!same_header_name("content-type", "content_type"));
}

#[test]
fn an_openai_upstream_gets_a_bearer_token() {
    let f = forwarder();
    let got = f.headers_for(&route("https://h", TargetProtocol::OpenAI), &h(&[("x-trace", "1")])).unwrap();
    assert_eq!(got, h(&[("x-trace", "1"), ("authorization", "Bearer sk-up"), ("content-type", "application/json")]));
    let got = f.headers_for(&route("https://h", TargetProtocol::Custom("c".into())), &h(&[])).unwrap();
    assert_eq!(got, h(&[("authorization", "Bearer sk-up"), ("content-type", "application/json")]));
}

#[test]
fn an_anthropic_upstream_gets_an_api_key() {
    let f = forwarder();
    let got = f
        .headers_for(
            &route("https://h", TargetProtocol::Anthropic),
            &h(&[("X-Api-Key", "from-client"), ("Content-Type", "text/plain"), ("anthropic-version", "2023-06-01")]),
        )
        .unwrap();
    assert_eq!(got, h(&[("anthropic-version", "2023-06-01"), ("x-api-key", "sk-up"), ("content-type", "application/json")]));
}

#[test]
fn set_header_replaces_every_header_of_the_name() {
    let got = set_header(&h(&[("A", "1"), ("b", "2"), ("a", "3")]), "a", "4".to_string());
    assert_eq!(got, h(&[("b", "2"), ("a", "4")]));
}

#[test]
fn a_token_that_cannot_stand_in_a_header_is_refused() {
    let f = forwarder();
    let mut r = route("https://h", TargetProtocol::OpenAI);
    r.token = "bad\ntoken".into();
    match f.headers_for(&r, &h(&[])) {
        Err(Error::Proxy(msg)) => assert_eq!(msg, "Invalid token format"),
        other => panic!("unexpected {:?}", other),
    }
    assert!(matches!(f.send_request(&r, b"{}".to_vec(), None, &h(&[])), Err(Error::Proxy(_))));
    assert!(header_value_ok("tab\tand space \u{e9}"));
    assert!(!header_value_ok("del\u{7f}"));
    assert!(!header_value_ok("nul\u{0}"));
    assert!(header_value_ok(""));
}

#[test]
fn send_request_puts_url_headers_and_body_together() {
    let f = forwarder();
    let req = f
        .send_request(&route("https://h/", TargetProtocol::Anthropic), b"{\"a\":1}".to_vec(), None, &h(&[("x-trace", "1")]))
        .unwrap();
    assert_eq!(req.url, "https://h/v1/messages");
    assert_eq!(req.headers, h(&[("x-trace", "1"), ("x-api-key", "sk-up"), ("content-type", "application/json")]));
    assert_eq!(req.body, b"{\"a\":1}");
}

#[test]
fn a_success_gives_the_body() {
    let f = forwarder();
    assert_eq!(f.process_response(200, "OK", b"body".to_vec()).unwrap(), b"body");
    assert_eq!(f.process_response(299, "", Vec::new()).unwrap(), b"");
    assert_eq!(f.process_response(204, "No Content", Vec::new()).unwrap(), b"");
}

#[test]
fn a_failure_carries_status_and_body() {
    let f = forwarder();
    match f.process_response(500, "Internal Server Error", b"boom".to_vec()) {
        Err(Error::Proxy(msg)) => assert_eq!(msg, "Upstream returned error status 500 Internal Server Error: boom"),
        other => panic!("unexpected {:?}", other),
    }
    match f.process_response(401, "Unauthorized", vec![b'{', 0xff, b'}']) {
        Err(Error::Proxy(msg)) => assert_eq!(msg, "Upstream returned error status 401 Unauthorized: {\u{fffd}}"),
        other => panic!("unexpected {:?}", other),
    }
    assert!(f.process_response(199, "x", Vec::new()).is_err());
    assert!(f.process_response(300, "x", Vec::new()).is_err());
}

#[test]
fn the_failure_text_names_status_reason_and_body() {
    match ProxyForwarder::upstream_failure(429, "Too Many Requests", "slow down") {
        Error::Proxy(msg) => assert_eq!(msg, "Upstream returned error status 429 Too Many Requests: slow down"),
        other => panic!("unexpected {:?}", other),
    }
    match ProxyForwarder::upstream_failure(0, "", "") {
        Error::Proxy(msg) => assert_eq!(msg, "Upstream returned error status 0 : "),
        other => panic!("unexpected {:?}", other),
    }
}

#[test]
fn client_errors_are_told_by_the_status_in_the_text() {
    let f = forwarder();
    for code in ["400", "401", "403", "404", "422", "429"] {
        assert!(f.is_client_error(&Error::Proxy(format!("Upstream returned error status {} X: b", code))), "{}", code);
    }
    for code in ["500", "502", "503", "408", "402"] {
        assert!(!f.is_client_error(&Error::Proxy(format!("Upstream returned error status {} X: b", code))), "{}", code);
    }
    assert!(!f.is_client_error(&Error::Proxy("Invalid token format".into())));
    assert!(!f.is_client_error(&Error::Http("status 401".into())));
    assert!(!f.is_client_error(&Error::Routing("404".into())));
    assert!(f.is_client_error(&Error::Proxy("Upstream returned error status 500 X: see 404".into())));
}
