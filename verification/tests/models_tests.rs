use ai_gateway_engine::config::{default_max_lifetime, CacheType, Config};
use ai_gateway_engine::error::{Error, ErrorKind};
use ai_gateway_engine::json::Json;
use ai_gateway_engine::models::{
    clone_routes, routes_from_json, ClientProtocol, ErrorEvent, RouteConfig, RouteRequest,
    RouteResponse, TargetProtocol, UsageEvent,
};
use ai_gateway_engine::telemetry::{TelemetryModule, TELEMETRY_TIMEOUT_MS};

fn route() -> RouteConfig {
    RouteConfig {
        token: "sk".into(),
        model: "n".into(),
        api_endpoint: "https://up".into(),
        protocol: TargetProtocol::Custom("c".into()),
        model_id: "1".into(),
        provider_id: "2".into(),
        provider_token_id: "3".into(),
    }
}

#[test]
fn the_default_configuration() {
    let c = Config::default();
    assert_eq!(c.server.host, "0.0.0.0");
    assert_eq!(c.server.port, 8080);
    assert_eq!(c.server.workers, 4);
    assert_eq!(c.business_api.base_url, "http://localhost:3000");
    assert_eq!(c.business_api.timeout, 5_000);
    assert_eq!(c.business_api.retry_attempts, 3);
    assert_eq!(c.cache.cache_type, CacheType::Memory);
    assert_eq!(c.cache.ttl, 300_000);
    assert_eq!(c.cache.max_lifetime, 86_400_000);
    assert_eq!(c.cache.max_size, 10_000);
    assert_eq!(c.proxy.timeout, 30_000);
    assert_eq!(c.proxy.max_connections, 500);
    assert!(c.proxy.keep_alive);
    assert_eq!(c.proxy.retry_attempts, 3);
    assert_eq!(default_max_lifetime(), 24 * 3600 * 1000);
}

#[test]
fn errors_say_their_kind_and_detail() {
    let cases = [
        (Error::Config("c".into()), ErrorKind::Config, "Configuration error: c"),
        (Error::Protocol("c".into()), ErrorKind::Protocol, "Protocol error: c"),
        (Error::Routing("c".into()), ErrorKind::Routing, "Routing error: c"),
        (Error::Proxy("c".into()), ErrorKind::Proxy, "Proxy error: c"),
        (Error::Cache("c".into()), ErrorKind::Cache, "Cache error: c"),
        (Error::Telemetry("c".into()), ErrorKind::Telemetry, "Telemetry error: c"),
        (Error::Http("c".into()), ErrorKind::Http, "HTTP error: c"),
        (Error::Serialization("c".into()), ErrorKind::Serialization, "Serialization error: c"),
        (Error::Io("c".into()), ErrorKind::Io, "IO error: c"),
        (Error::Unknown("c".into()), ErrorKind::Unknown, "Unknown error: c"),
    ];
    for (e, kind, message) in cases {
        assert_eq!(e.kind(), kind);
        assert_eq!(e.detail(), "c");
        assert_eq!(e.message(), message);
    }
}

#[test]
fn routes_compare_by_token_and_endpoint() {
    let a = route();
    let mut b = route();
    b.model_id = "other".into();
    b.model = "other".into();
    b.protocol = TargetProtocol::OpenAI;
    assert!(a.same_upstream(&b));
    b.token = "sk2".into();
    assert!(!a.same_upstream(&b));
    let mut c = route();
    c.api_endpoint = "https://up/".into();
    assert!(!a.same_upstream(&c));
}

#[test]
fn clones_are_equal_field_by_field() {
    let a = route();
    let b = a.clone();
    assert_eq!(format!("{:?}", a), format!("{:?}", b));
    let list = clone_routes(&vec![route(), route()]);
    assert_eq!(list.len(), 2);
    assert_eq!(format!("{:?}", list[1]), format!("{:?}", a));
    assert!(matches!(ClientProtocol::Custom("x".into()).clone(), ClientProtocol::Custom(n) if n == "x"));
    assert!(matches!(TargetProtocol::Anthropic.clone(), TargetProtocol::Anthropic));
}

#[test]
fn protocols_are_read_from_their_tags() {
    let read = |s: &str| TargetProtocol::from_json(&Json::parse(s.as_bytes()).unwrap());
    assert!(matches!(read("\"openai\""), Some(TargetProtocol::OpenAI)));
    assert!(matches!(read("\"anthropic\""), Some(TargetProtocol::Anthropic)));
    assert!(matches!(read("{\"custom\":\"mine\"}"), Some(TargetProtocol::Custom(n)) if n == "mine"));
    assert!(read("\"OpenAI\"").is_none());
    assert!(read("\"custom\"").is_none());
    assert!(read("{\"custom\":1}").is_none());
    assert!(read("{\"custom\":\"a\",\"x\":1}").is_none());
    assert!(read("{}").is_none());
    assert!(read("null").is_none());
}

#[test]
fn a_route_needs_all_its_members() {
    let full = "{\"token\":\"t\",\"model\":\"m\",\"api\":\"a\",\"protocol\":\"openai\",\"model_id\":\"1\",\"provider_id\":\"2\",\"provider_token_id\":\"3\"}";
    let r = RouteConfig::from_json(&Json::parse(full.as_bytes()).unwrap()).unwrap();
    assert_eq!((r.token.as_str(), r.model.as_str(), r.api_endpoint.as_str()), ("t", "m", "a"));
    assert_eq!((r.model_id.as_str(), r.provider_id.as_str(), r.provider_token_id.as_str()), ("1", "2", "3"));
    for key in ["token", "model", "api", "protocol", "model_id", "provider_id", "provider_token_id"] {
        let mut j = Json::parse(full.as_bytes()).unwrap();
        j.set(key, Json::Null);
        assert!(RouteConfig::from_json(&j).is_none(), "{}", key);
    }
    assert!(routes_from_json(&Json::parse(b"{}").unwrap()).is_none());
    assert_eq!(routes_from_json(&Json::parse(b"[]").unwrap()).unwrap().len(), 0);
    assert!(routes_from_json(&Json::parse(format!("[{},1]", full).as_bytes()).unwrap()).is_none());
    assert_eq!(routes_from_json(&Json::parse(format!("[{0},{0}]", full).as_bytes()).unwrap()).unwrap().len(), 2);
}

#[test]
fn the_backend_answer_needs_all_its_members() {
    let full = "{\"code\":0,\"success\":true,\"message\":\"ok\",\"data\":[]}";
    let r = RouteResponse::from_json(&Json::parse(full.as_bytes()).unwrap()).unwrap();
    assert_eq!((r.code, r.success, r.message.as_str(), r.data.len()), (0, true, "ok", 0));
    for key in ["code", "success", "message", "data"] {
        let mut j = Json::parse(full.as_bytes()).unwrap();
        j.set(key, Json::Null);
        assert!(RouteResponse::from_json(&j).is_none(), "{}", key);
    }
}

#[test]
fn reports_are_written_as_json() {
    let lookup = RouteRequest { token: "u".into(), model: "m".into() };
    assert_eq!(lookup.to_json().to_text(), "{\"model\":\"m\",\"token\":\"u\"}");
    let mut e = ErrorEvent { token: "t".into(), model: "m".into(), api: "a".into(), msg: "boom".into(), provider_token_id: Some("3".into()) };
    assert_eq!(e.to_json().to_text(), "{\"api\":\"a\",\"model\":\"m\",\"msg\":\"boom\",\"provider_token_id\":\"3\",\"token\":\"t\"}");
    e.provider_token_id = None;
    assert_eq!(e.to_json().to_text(), "{\"api\":\"a\",\"model\":\"m\",\"msg\":\"boom\",\"token\":\"t\"}");
    let u = UsageEvent {
        request_id: "r".into(),
        token: "t".into(),
        model: "m".into(),
        api: "a".into(),
        input_tokens: 1,
        output_tokens: -2,
        model_id: "1".into(),
        provider_id: "2".into(),
        provider_token_id: "3".into(),
    };
    assert_eq!(u.to_json().to_text(), "{\"api\":\"a\",\"input_tokens\":1,\"model\":\"m\",\"model_id\":\"1\",\"output_tokens\":-2,\"provider_id\":\"2\",\"provider_token_id\":\"3\",\"request_id\":\"r\",\"token\":\"t\"}");
}

#[test]
fn reports_go_to_the_telemetry_endpoints() {
    let t = TelemetryModule::new("http://backend".into());
    let e = ErrorEvent { token: "t".into(), model: "m".into(), api: "a".into(), msg: "boom".into(), provider_token_id: None };
    let post = t.report_error(&e);
    assert_eq!(post.url, "http://backend/v1/telemetry/errors");
    assert_eq!(String::from_utf8(post.body).unwrap(), "{\"api\":\"a\",\"model\":\"m\",\"msg\":\"boom\",\"token\":\"t\"}");
    let u = UsageEvent {
        request_id: "r".into(),
        token: "t".into(),
        model: "m".into(),
        api: "a".into(),
        input_tokens: 1,
        output_tokens: 2,
        model_id: "1".into(),
        provider_id: "2".into(),
        provider_token_id: "3".into(),
    };
    let post = t.report_usage(&u);
    assert_eq!(post.url, "http://backend/v1/telemetry/usage");
    assert!(String::from_utf8(post.body).unwrap().contains("\"request_id\":\"r\""));
    assert_eq!(TELEMETRY_TIMEOUT_MS, 5000);
}
