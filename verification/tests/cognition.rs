//! Classification, routing and what is around them.

use itsy::bonescript::{get_bonescript_guide, should_use_bonescript};
use itsy::cognition::budget::{budget_enforced, Budget};
use itsy::cognition::policy::is_enabled;
use itsy::cognition::registry::{CheckpointStore, ExtensionRegistry, FlowRegistry, Metrics};
use itsy::cognition::repair::repair_json;
use itsy::cognition::retriever::{pick_within_budget, Candidate};
use itsy::cognition::retry::{next_pause, pause_with, should_continue, FixAttempt, RetryConfig};
use itsy::cognition::router::{
    coding_router_escalate, coding_router_route, get_router, read_complexity, route_fallback,
    route_to_tier, Level, Reading,
};
use itsy::cognition::templates::render;
use itsy::cognition::traces::TraceBuffer;
use itsy::cognition::validate::{require_fields, validate_type};
use itsy::cognition::{
    classify_task_compiled, estimate_complexity, get_compiled_provider,
    is_compiled_cognition_available,
};
use itsy::features::parse_fenced;
use itsy::json::Json;

fn json(s: &str) -> Json {
    parse_fenced(s).expect("valid JSON")
}

fn complexity(message: &str) -> f64 {
    estimate_complexity(message) as f64 / 10.0
}

#[test]
fn empty_message_defaults_to_05() {
    assert_eq!(complexity(""), 0.5);
}

#[test]
fn refactor_signals_high_complexity() {
    assert_eq!(complexity("refactor the auth module"), 0.8);
    assert_eq!(complexity("rewrite the parser in TypeScript"), 0.8);
    assert_eq!(complexity("migrate to a new database"), 0.8);
}

#[test]
fn multi_file_signals_high_complexity() {
    assert_eq!(complexity("change this across files"), 0.8);
    assert_eq!(complexity("multi-file edit"), 0.8);
}

#[test]
fn long_message_signals_high_complexity() {
    let msg = "x".repeat(600);
    assert_eq!(complexity(&msg), 0.8);
}

#[test]
fn fast_intents_score_low_complexity() {
    assert_eq!(complexity("fix typo in readme"), 0.2);
    assert_eq!(complexity("explain this"), 0.2);
    assert_eq!(complexity("rename foo"), 0.2);
}

#[test]
fn long_fast_keyword_message_is_default() {
    let msg = format!("explain in detail: {}", "more context ".repeat(20));
    assert_eq!(complexity(&msg), 0.5);
}

#[test]
fn neutral_message_is_default() {
    assert_eq!(complexity("add a function"), 0.5);
}

#[test]
fn route_to_tier_dispatches_to_router() {
    let r = route_to_tier(2);
    assert_eq!(r.tier, "trivial");
    let r = route_to_tier(5);
    assert_eq!(r.tier, "simple");
    let r = route_to_tier(9);
    assert_eq!(r.tier, "complex");
}

#[test]
fn route_fallback_is_medium() {
    let r = route_fallback();
    assert_eq!(r.tier, "fallback");
    assert_eq!(r.model_id, "MediumCoder");
}

#[test]
fn compiled_cognition_is_available_in_rust_port() {
    assert!(is_compiled_cognition_available());
}

#[test]
fn get_compiled_provider_is_none() {
    assert!(get_compiled_provider().is_none());
}

#[test]
fn routes_by_what_is_known() {
    assert!(matches!(
        read_complexity(&json("{\"complexity\":0}")),
        Reading::Known(Level::Low)
    ));
    assert!(matches!(
        read_complexity(&json("{\"complexity\":-2}")),
        Reading::Known(Level::Low)
    ));
    assert!(matches!(
        read_complexity(&json("{\"complexity\":[1]}")),
        Reading::Known(Level::High)
    ));
    assert!(matches!(read_complexity(&json("{\"complexity\":0.4}")), Reading::Text(s) if s == "0.4"));
    assert!(matches!(read_complexity(&json("{\"complexity\":true}")), Reading::Missing));
    assert!(matches!(read_complexity(&json("{}")), Reading::Missing));
    assert_eq!(coding_router_route(None).tier, "complex");
    assert_eq!(coding_router_route(Some(Level::Middle)).model_id, "SmallCoder");
    assert_eq!(coding_router_escalate("trivial").unwrap().tier, "simple");
    assert_eq!(coding_router_escalate("simple").unwrap().model_id, "MediumCoder");
    assert!(coding_router_escalate("complex").is_none());
    assert!(get_router("coding_router").is_some());
    assert!(get_router("other").is_none());
}

#[test]
fn labels_are_cleaned() {
    assert_eq!(classify_task_compiled(&Some(" Debugging.\n".to_string()), "coding"), "debugging");
    assert_eq!(classify_task_compiled(&Some("poetry".to_string()), "coding"), "coding");
    assert_eq!(classify_task_compiled(&None, "shell"), "shell");
}

#[test]
fn bonescript_is_for_node_backends() {
    assert!(get_bonescript_guide().starts_with("BoneScript Quick Reference:\n- system:"));
    assert!(get_bonescript_guide().ends_with("prisma, sqlite"));
    assert!(should_use_bonescript("build a REST api"));
    assert!(should_use_bonescript("use bonescript with python"));
    assert!(!should_use_bonescript("build a REST api in python"));
    assert!(!should_use_bonescript("write a poem"));
}

#[test]
fn budgets_are_kept() {
    let mut b = Budget::new("t".to_string(), Some(100));
    assert!(b.assert_can_spend(100).is_ok());
    b.charge(60);
    assert_eq!(b.tokens(), 60);
    let e = b.assert_can_spend(41).unwrap_err();
    assert_eq!(e.limit, 100);
    assert_eq!(e.observed, 101);
    assert_eq!(e.kind, "tokens");
    assert!(b.assert_can_spend(u64::MAX).is_err());
    b.refund(10);
    assert_eq!(b.tokens(), 50);
    b.refund(1000);
    assert_eq!(b.tokens(), 0);
    assert!(budget_enforced(None, true));
    assert!(!budget_enforced(None, false));
}

#[test]
fn pauses_have_jitter() {
    let cfg = RetryConfig::default();
    assert_eq!(pause_with(&cfg, 0, 1234), Some(250 + 1234 % 50));
    assert_eq!(pause_with(&cfg, 2, 7), None);
    let none = RetryConfig { max_attempts: 3, backoff_ms: 10, jitter_ms: 0 };
    assert_eq!(pause_with(&none, 0, 99), Some(10));
    for _ in 0..20 {
        let ms = next_pause(&cfg, 1).unwrap();
        assert!(250 <= ms && ms < 300);
    }
    let a = FixAttempt { attempt: 1, errors: vec!["e".to_string()] };
    assert!(should_continue(&a, 2));
    assert!(!should_continue(&a, 1));
    assert!(!should_continue(&FixAttempt { attempt: 0, errors: vec![] }, 2));
}

#[test]
fn json_is_repaired() {
    assert_eq!(repair_json("```json\n{name: \"x\", n: 1}\n```"), "{\"n\":1,\"name\":\"x\"}");
    assert_eq!(
        repair_json("```\n{\"b\": [1, 2.5, null], \"a\": true}\n```"),
        "{\"a\":true,\"b\":[1,2.5,null]}"
    );
    assert_eq!(
        repair_json("```json\n{\"a\": \"x, b: c\"}```"),
        "{\"a\":\"x, b: c\"}"
    );
    assert_eq!(repair_json("{\"a\":\"x, b: c\"}"), "{\"a\":\"x, b: c\"}");
    assert_eq!(repair_json(" {\"b\": 1, \"a\": 2} "), " {\"b\": 1, \"a\": 2} ");
    assert_eq!(repair_json("{ name : 1 }"), "{\"name\":1}");
    assert_eq!(repair_json("{ name : oops }"), "{ \"name\": oops }");
    assert_eq!(repair_json("  "), "  ");
    assert_eq!(repair_json(" not json "), " not json ");
    assert_eq!(repair_json("```\nnot json\n```"), "not json");
}

#[test]
fn templates_are_filled() {
    let vars = json("{\"name\":\"Ann\",\"n\":3,\"deep\":{\"list\":[\"x\",\"y\"]},\"a/b\":1}");
    assert_eq!(render("Hi {{ name }}: {{n}}!", &vars), "Hi Ann: 3!");
    assert_eq!(render("{{deep/list/1}}", &vars), "y");
    assert_eq!(render("{{deep}}", &vars), "{\"list\":[\"x\",\"y\"]}");
    assert_eq!(render("[{{missing}}]", &vars), "[]");
    assert_eq!(render("{single} {{name", &vars), "{single} Ann");
    assert_eq!(render("{{a/b}}", &vars), "1");
    assert_eq!(render("{{a~1b}}", &vars), "1");
    assert_eq!(render("no places", &vars), "no places");
}

#[test]
fn shapes_are_validated() {
    assert!(validate_type(&json("\"s\""), "string", "p").is_ok());
    assert!(validate_type(&json("1.5"), "number", "p").is_ok());
    assert!(validate_type(&json("null"), "anything", "p").is_ok());
    let e = validate_type(&json("[1]"), "object", "p.q").unwrap_err();
    assert_eq!(e.path, "p.q");
    assert_eq!(e.reason, "expected object, got [1]");
    let fields = vec!["a".to_string(), "b".to_string()];
    assert!(require_fields(&json("{\"a\":1,\"b\":null}"), &fields, "p").is_ok());
    let e = require_fields(&json("{\"a\":1}"), &fields, "p").unwrap_err();
    assert_eq!(e.path, "p.b");
    assert_eq!(e.reason, "missing required field");
    assert_eq!(require_fields(&json("[]"), &fields, "p").unwrap_err().reason, "expected object");
}

#[test]
fn traces_drop_the_oldest() {
    let mut t = TraceBuffer::new(2);
    for i in 0..3 {
        t.record(&format!("t{i}"), "now".to_string(), "k", Json::Null);
    }
    let v = t.dump();
    assert_eq!(v.len(), 2);
    assert_eq!(v[0].trace_id, "t1");
    let mut none = TraceBuffer::new(0);
    none.record("a", String::new(), "k", Json::Null);
    none.record("b", String::new(), "k", Json::Null);
    assert_eq!(none.dump().len(), 1);
    assert_eq!(none.dump()[0].trace_id, "b");
    assert_eq!(TraceBuffer::default().capacity, 1024);
}

#[test]
fn things_are_kept_by_name() {
    let mut c = CheckpointStore::new();
    assert!(c.get("a").is_none());
    c.record("a", Json::Unsigned(1));
    c.record("b", Json::Unsigned(2));
    c.record("a", Json::Unsigned(3));
    assert_eq!(c.get("a").unwrap().as_u64(), Some(3));
    assert_eq!(c.get("b").unwrap().as_u64(), Some(2));
    let mut m = Metrics::new();
    m.inc("x");
    m.inc("x");
    m.inc("y");
    assert_eq!(m.get("x"), 2);
    assert_eq!(m.get("y"), 1);
    assert_eq!(m.get("z"), 0);
    assert!(FlowRegistry::new().flows.get("f").is_none());
    assert!(ExtensionRegistry::new().extensions.get("e").is_none());
}

#[test]
fn policies_follow_the_environment() {
    assert!(is_enabled("write_guard", "").enabled);
    assert!(!is_enabled("write_guard", "false").enabled);
    assert!(!is_enabled("web_browse", "").enabled);
    assert!(is_enabled("web_browse", "true").enabled);
    let u = is_enabled("flying", "true");
    assert!(!u.enabled);
    assert_eq!(u.feature, "unknown");
    assert_eq!(u.reason, "no policy registered");
}

fn candidate(key: &str, rank: i64, tokens: usize) -> Candidate {
    Candidate { key: key.to_string(), text: String::new(), rank, tokens }
}

#[test]
fn best_snippets_that_fit_are_picked() {
    let v = vec![
        candidate("a", 1, 10),
        candidate("b", 5, 60),
        candidate("c", 5, 50),
        candidate("d", 3, 30),
    ];
    let keys: Vec<String> = pick_within_budget(v, 100).into_iter().map(|c| c.key).collect();
    assert_eq!(keys, vec!["b".to_string(), "d".to_string(), "a".to_string()]);
    assert!(pick_within_budget(vec![candidate("x", 1, usize::MAX)], 10).is_empty());
}
