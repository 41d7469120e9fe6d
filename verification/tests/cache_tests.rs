use ai_gateway_engine::cache::{retain_other_upstreams, Cache};
use ai_gateway_engine::models::{RouteConfig, TargetProtocol};

fn route(token: &str, api: &str, id: &str) -> RouteConfig {
    RouteConfig {
        token: token.into(),
        model: "m".into(),
        api_endpoint: api.into(),
        protocol: TargetProtocol::OpenAI,
        model_id: id.into(),
        provider_id: "p".into(),
        provider_token_id: "t".into(),
    }
}

fn ids(list: &[RouteConfig]) -> Vec<String> {
    list.iter().map(|c| c.model_id.clone()).collect()
}

#[test]
fn get_gives_what_set_stored() {
    let mut c = Cache::new(1000, 10_000);
    c.set_at("u", "m", vec![route("a", "x", "1"), route("b", "y", "2")], 5);
    let got = c.get_at("u", "m", 500).unwrap();
    assert_eq!(ids(&got), vec!["1", "2"]);
    assert_eq!(got[0].token, "a");
    assert_eq!(got[1].api_endpoint, "y");
    assert!(c.get_at("u", "other", 500).is_none());
    assert!(c.get_at("other", "m", 500).is_none());
}

#[test]
fn the_later_set_wins() {
    let mut c = Cache::new(1000, 10_000);
    c.set_at("u", "m", vec![route("a", "x", "1")], 5);
    c.set_at("u", "m", vec![route("b", "y", "2"), route("c", "z", "3")], 6);
    assert_eq!(ids(&c.get_at("u", "m", 7).unwrap()), vec!["2", "3"]);
}

#[test]
fn set_fixes_the_three_instants() {
    let mut c = Cache::new(1000, 10_000);
    c.set_at("u", "m", vec![route("a", "x", "1")], 5);
    let e = c.entry("u", "m").unwrap();
    assert_eq!((e.created_at, e.expires_at, e.hard_expires_at), (5, 1005, 10_005));
    let mut c = Cache::new(1000, 300);
    c.set_at("u", "m", vec![route("a", "x", "1")], 5);
    let e = c.entry("u", "m").unwrap();
    assert_eq!((e.created_at, e.expires_at, e.hard_expires_at), (5, 305, 305));
}

#[test]
fn a_hit_slides_the_expiry_but_never_past_the_hard_one() {
    let mut c = Cache::new(1000, 2500);
    c.set_at("u", "m", vec![route("a", "x", "1")], 0);
    assert!(c.get_at("u", "m", 900).is_some());
    assert_eq!(c.entry("u", "m").unwrap().expires_at, 1900);
    assert!(c.get_at("u", "m", 901).is_some());
    assert_eq!(c.entry("u", "m").unwrap().expires_at, 1901);
    assert!(c.get_at("u", "m", 1800).is_some());
    let e = c.entry("u", "m").unwrap();
    assert_eq!((e.created_at, e.expires_at, e.hard_expires_at), (0, 2500, 2500));
    assert!(c.get_at("u", "m", 2499).is_some());
    assert!(c.get_at("u", "m", 2500).is_none());
    assert!(c.entry("u", "m").is_none());
}

#[test]
fn an_entry_that_is_not_read_expires_after_the_ttl() {
    let mut c = Cache::new(1000, 10_000);
    c.set_at("u", "m", vec![route("a", "x", "1")], 0);
    assert!(c.get_at("u", "m", 1000).is_none());
    assert!(c.entry("u", "m").is_none());
    assert!(c.get_at("u", "m", 1).is_none());
}

#[test]
fn the_clock_never_runs_backwards() {
    let mut c = Cache::new(1000, 10_000);
    c.set_at("u", "m", vec![route("a", "x", "1")], 500);
    assert!(c.get_at("u", "m", 100).is_some());
    let e = c.entry("u", "m").unwrap();
    assert_eq!((e.created_at, e.expires_at), (500, 1500));
    c.set_at("u", "n", vec![route("a", "x", "1")], 0);
    assert_eq!(c.entry("u", "n").unwrap().created_at, 500);
}

#[test]
fn times_near_the_end_of_the_clock_are_capped() {
    let mut c = Cache::new(1000, 10_000);
    c.set_at("u", "m", vec![route("a", "x", "1")], u64::MAX - 10);
    let e = c.entry("u", "m").unwrap();
    assert_eq!((e.expires_at, e.hard_expires_at), (u64::MAX, u64::MAX));
    assert!(c.get_at("u", "m", u64::MAX - 1).is_some());
    assert!(c.get_at("u", "m", u64::MAX).is_none());
}

#[test]
fn remove_config_goes_by_token_and_endpoint() {
    let mut c = Cache::new(1000, 10_000);
    c.set_at("u", "m", vec![route("a", "x", "1"), route("b", "y", "2"), route("a", "x", "3"), route("a", "y", "4")], 0);
    c.remove_config("u", "m", &route("a", "x", "other-id"));
    assert_eq!(ids(&c.get_at("u", "m", 1).unwrap()), vec!["2", "4"]);
    c.remove_config("u", "m", &route("zz", "zz", "1"));
    assert_eq!(ids(&c.get_at("u", "m", 1).unwrap()), vec!["2", "4"]);
    c.remove_config("u", "none", &route("b", "y", "2"));
    assert_eq!(ids(&c.get_at("u", "m", 1).unwrap()), vec!["2", "4"]);
}

#[test]
fn remove_config_keeps_the_instants() {
    let mut c = Cache::new(1000, 10_000);
    c.set_at("u", "m", vec![route("a", "x", "1"), route("b", "y", "2")], 7);
    c.remove_config("u", "m", &route("a", "x", "1"));
    let e = c.entry("u", "m").unwrap();
    assert_eq!((e.created_at, e.expires_at, e.hard_expires_at), (7, 1007, 10_007));
}

#[test]
fn an_entry_without_candidates_is_deleted() {
    let mut c = Cache::new(1000, 10_000);
    c.set_at("u", "m", vec![route("a", "x", "1")], 0);
    c.remove_config("u", "m", &route("a", "x", "1"));
    assert!(c.entry("u", "m").is_none());
    assert!(c.get_at("u", "m", 1).is_none());
}

#[test]
fn clear_drops_everything() {
    let mut c = Cache::new(1000, 10_000);
    c.set_at("u", "m", vec![route("a", "x", "1")], 0);
    c.set_at("v", "m", vec![route("a", "x", "1")], 0);
    c.clear();
    assert!(c.get_at("u", "m", 1).is_none());
    assert!(c.get_at("v", "m", 1).is_none());
}

#[test]
fn the_snapshot_is_not_touched_by_later_changes() {
    let mut c = Cache::new(1000, 10_000);
    c.set_at("u", "m", vec![route("a", "x", "1"), route("b", "y", "2")], 0);
    let snapshot = c.get_at("u", "m", 1).unwrap();
    c.remove_config("u", "m", &route("a", "x", "1"));
    assert_eq!(ids(&snapshot), vec!["1", "2"]);
}

#[test]
fn the_key_joins_token_and_model_with_a_colon() {
    assert_eq!(Cache::make_key("tok", "gpt"), "tok:gpt");
    assert_eq!(Cache::make_key("", ""), ":");
}

#[test]
fn the_cache_reads_its_own_clock() {
    let mut c = Cache::new(60_000, 120_000);
    c.set("u", "m", vec![route("a", "x", "1")]);
    assert_eq!(ids(&c.get("u", "m").unwrap()), vec!["1"]);
    let e = c.entry("u", "m").unwrap();
    assert!(e.created_at <= e.expires_at && e.expires_at <= e.hard_expires_at);
    assert!(c.now() < 60_000);
    let mut z = Cache::new(0, 120_000);
    z.set("u", "m", vec![route("a", "x", "1")]);
    assert!(z.get("u", "m").is_none());
}

#[test]
fn retain_keeps_the_order() {
    let list = vec![route("a", "x", "1"), route("b", "y", "2"), route("c", "x", "3")];
    assert_eq!(ids(&retain_other_upstreams(&list, &route("b", "y", "9"))), vec!["1", "3"]);
    assert_eq!(ids(&retain_other_upstreams(&list, &route("b", "x", "9"))), vec!["1", "2", "3"]);
}
