use ai_gateway_engine::cache::Cache;
use ai_gateway_engine::config::BusinessApiConfig;
use ai_gateway_engine::error::Error;
use ai_gateway_engine::models::{RouteConfig, RouteResponse, TargetProtocol};
use ai_gateway_engine::router::{BackendReply, FetchStep, Lookup, Router};

fn router(retries: u32) -> Router {
    Router::new(
        Cache::new(1000, 10_000),
        BusinessApiConfig { base_url: "http://backend:3000".into(), timeout: 5000, retry_attempts: retries },
    )
}

fn route(token: &str, api: &str) -> RouteConfig {
    RouteConfig {
        token: token.into(),
        model: "n".into(),
        api_endpoint: api.into(),
        protocol: TargetProtocol::OpenAI,
        model_id: "mid".into(),
        provider_id: "pid".into(),
        provider_token_id: "ptid".into(),
    }
}

fn answer(status: u16, reason: &str, body: &str) -> BackendReply {
    BackendReply::Answer { status, reason: reason.into(), body: body.as_bytes().to_vec() }
}

const GOOD: &str = "{\"code\":0,\"success\":true,\"message\":\"ok\",\"data\":[{\"token\":\"sk-a\",\"model\":\"gpt\",\"api\":\"https://a\",\"protocol\":\"openai\",\"model_id\":\"1\",\"provider_id\":\"2\",\"provider_token_id\":\"3\"},{\"token\":\"sk-b\",\"model\":\"large\",\"api\":\"https://b\",\"protocol\":\"anthropic\",\"model_id\":\"4\",\"provider_id\":\"5\",\"provider_token_id\":\"6\"},{\"token\":\"sk-c\",\"model\":\"x\",\"api\":\"https://c\",\"protocol\":{\"custom\":\"mine\"},\"model_id\":\"7\",\"provider_id\":\"8\",\"provider_token_id\":\"9\"}]}";

#[test]
fn a_miss_asks_the_backend() {
    let mut r = router(3);
    match r.resolve_route_at("user", "gpt", 0) {
        Lookup::Fetch(call) => {
            assert_eq!(call.url, "http://backend:3000/v1/route/resolve");
            assert_eq!(String::from_utf8(call.body).unwrap(), "{\"model\":\"gpt\",\"token\":\"user\"}");
        }
        other => panic!("unexpected {:?}", other),
    }
    assert_eq!(r.timeout(), 5000);
}

#[test]
fn a_hit_answers_from_the_cache() {
    let mut r = router(3);
    r.store_routes_at("user", "gpt", &vec![route("a", "x"), route("b", "y")], 0);
    match r.resolve_route_at("user", "gpt", 10) {
        Lookup::Cached(list) => {
            assert_eq!(list.len(), 2);
            assert_eq!(list[0].token, "a");
            assert_eq!(list[1].token, "b");
        }
        other => panic!("unexpected {:?}", other),
    }
    assert!(matches!(r.resolve_route_at("user", "gpt", 5000), Lookup::Fetch(_)));
}

#[test]
fn an_empty_list_is_not_kept() {
    let mut r = router(3);
    r.store_routes_at("user", "gpt", &vec![], 0);
    assert!(r.cache().entry("user", "gpt").is_none());
    assert!(matches!(r.resolve_route_at("user", "gpt", 1), Lookup::Fetch(_)));
}

#[test]
fn a_good_answer_gives_the_routes() {
    let r = router(3);
    match r.fetch_from_business_api(0, answer(200, "OK", GOOD)) {
        FetchStep::Done(Ok(routes)) => {
            assert_eq!(routes.len(), 3);
            assert_eq!(routes[0].token, "sk-a");
            assert_eq!(routes[0].model, "gpt");
            assert_eq!(routes[0].api_endpoint, "https://a");
            assert!(matches!(routes[0].protocol, TargetProtocol::OpenAI));
            assert_eq!((routes[0].model_id.as_str(), routes[0].provider_id.as_str(), routes[0].provider_token_id.as_str()), ("1", "2", "3"));
            assert!(matches!(routes[1].protocol, TargetProtocol::Anthropic));
            assert!(matches!(&routes[2].protocol, TargetProtocol::Custom(n) if n == "mine"));
        }
        other => panic!("unexpected {:?}", other),
    }
}

#[test]
fn success_false_is_a_routing_error_and_not_retried() {
    let r = router(3);
    match r.fetch_from_business_api(0, answer(200, "OK", "{\"code\":7,\"success\":false,\"message\":\"no such user\",\"data\":[]}")) {
        FetchStep::Done(Err(Error::Routing(msg))) => assert_eq!(msg, "Business API returned error: no such user"),
        other => panic!("unexpected {:?}", other),
    }
}

#[test]
fn an_unreadable_answer_is_an_http_error() {
    let r = router(3);
    for body in ["", "not json", "{\"success\":true}", "{\"code\":0,\"success\":true,\"message\":\"ok\",\"data\":[{\"token\":\"t\"}]}", "{\"code\":0,\"success\":true,\"message\":\"ok\",\"data\":[{\"token\":\"sk-a\",\"model\":\"gpt\",\"api\":\"https://a\",\"protocol\":\"grpc\",\"model_id\":\"1\",\"provider_id\":\"2\",\"provider_token_id\":\"3\"}]}"] {
        match r.fetch_from_business_api(0, answer(200, "OK", body)) {
            FetchStep::Done(Err(Error::Http(msg))) => assert_eq!(msg, "error decoding response body"),
            other => panic!("unexpected {:?} for {}", other, body),
        }
    }
}

#[test]
fn a_server_error_is_retried_with_a_growing_pause() {
    let r = router(3);
    assert!(matches!(r.fetch_from_business_api(0, answer(500, "Internal Server Error", "")), FetchStep::Retry { retry_count: 1, delay_ms: 100 }));
    assert!(matches!(r.fetch_from_business_api(1, answer(503, "Service Unavailable", "")), FetchStep::Retry { retry_count: 2, delay_ms: 200 }));
    assert!(matches!(r.fetch_from_business_api(2, answer(599, "", "")), FetchStep::Retry { retry_count: 3, delay_ms: 300 }));
    match r.fetch_from_business_api(3, answer(502, "Bad Gateway", "")) {
        FetchStep::Done(Err(Error::Routing(msg))) => assert_eq!(msg, "Business API returned status: 502 Bad Gateway"),
        other => panic!("unexpected {:?}", other),
    }
}

#[test]
fn a_client_error_is_not_retried() {
    let r = router(3);
    match r.fetch_from_business_api(0, answer(404, "Not Found", "{}")) {
        FetchStep::Done(Err(Error::Routing(msg))) => assert_eq!(msg, "Business API returned status: 404 Not Found"),
        other => panic!("unexpected {:?}", other),
    }
    assert!(matches!(r.fetch_from_business_api(0, answer(301, "Moved Permanently", "")), FetchStep::Done(Err(Error::Routing(_)))));
}

#[test]
fn a_transport_error_is_retried_until_the_retries_run_out() {
    let r = router(2);
    assert!(matches!(r.fetch_from_business_api(0, BackendReply::TransportError("refused".into())), FetchStep::Retry { retry_count: 1, delay_ms: 100 }));
    assert!(matches!(r.fetch_from_business_api(1, BackendReply::TransportError("refused".into())), FetchStep::Retry { retry_count: 2, delay_ms: 200 }));
    match r.fetch_from_business_api(2, BackendReply::TransportError("refused".into())) {
        FetchStep::Done(Err(Error::Http(msg))) => assert_eq!(msg, "refused"),
        other => panic!("unexpected {:?}", other),
    }
    let none = router(0);
    assert!(matches!(none.fetch_from_business_api(0, answer(500, "x", "")), FetchStep::Done(Err(_))));
}

#[test]
fn an_evicted_route_is_not_in_the_next_lookup() {
    let mut r = router(3);
    r.store_routes_at("user", "gpt", &vec![route("a", "x"), route("b", "y")], 0);
    r.remove_failed_route("user", "gpt", &route("a", "x"));
    match r.resolve_route_at("user", "gpt", 1) {
        Lookup::Cached(list) => {
            assert_eq!(list.len(), 1);
            assert_eq!(list[0].token, "b");
        }
        other => panic!("unexpected {:?}", other),
    }
    r.remove_failed_route("user", "gpt", &route("b", "y"));
    assert!(matches!(r.resolve_route_at("user", "gpt", 2), Lookup::Fetch(_)));
    r.store_routes_at("user", "gpt", &vec![route("a", "x")], 3);
    assert!(matches!(r.resolve_route_at("user", "gpt", 4), Lookup::Cached(_)));
}

#[test]
fn the_router_reads_the_clock_of_its_cache() {
    let mut r = router(3);
    assert!(matches!(r.resolve_route("user", "gpt"), Lookup::Fetch(_)));
    r.store_routes("user", "gpt", &vec![route("a", "x")]);
    assert!(matches!(r.resolve_route("user", "gpt"), Lookup::Cached(_)));
}

#[test]
fn the_parsed_answer_decides() {
    let ok = RouteResponse { code: 0, success: true, message: "m".into(), data: vec![route("a", "x")] };
    assert_eq!(Router::read_route_response(Some(ok)).unwrap().len(), 1);
    let no = RouteResponse { code: 1, success: false, message: "m".into(), data: vec![route("a", "x")] };
    assert!(matches!(Router::read_route_response(Some(no)), Err(Error::Routing(_))));
    assert!(matches!(Router::read_route_response(None), Err(Error::Http(_))));
}
