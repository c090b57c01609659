//! The line protocol that editors speak.

use itsy::acp::{
    from_assistant_text, from_error, from_metadata, from_tool_call, from_tool_result, AcpAdapter,
    AcpCapabilities, AgentLoop, PromptResult,
};
use itsy::features::parse_fenced;
use itsy::json::Json;

fn json(s: &str) -> Json {
    parse_fenced(s).expect("valid JSON")
}

fn lines(s: &str) -> Vec<String> {
    s.lines().map(|l| l.to_string()).collect()
}

fn output(frames: &Vec<Json>) -> String {
    frames.iter().map(|f| f.write() + "\n").collect()
}

#[test]
fn tool_call_event_shape() {
    let ev = from_tool_call("bash", &json("{\"command\":\"ls\"}"));
    assert_eq!(ev.kind, "tool_call");
    assert_eq!(ev.data.get_str("name").unwrap(), "bash");
    assert_eq!(ev.data.pointer("arguments/command").unwrap().as_str().unwrap(), "ls");
}

#[test]
fn tool_result_event_shape() {
    let ev = from_tool_result("bash", &json("{\"stdout\":\"hi\"}"));
    assert_eq!(ev.kind, "tool_result");
    assert_eq!(ev.data.get_str("name").unwrap(), "bash");
    assert_eq!(ev.data.pointer("result/stdout").unwrap().as_str().unwrap(), "hi");
}

#[test]
fn assistant_text_event_shape() {
    let ev = from_assistant_text("hello world");
    assert_eq!(ev.kind, "assistant_text");
    assert_eq!(ev.data.get_str("text").unwrap(), "hello world");
}

#[test]
fn error_event_shape() {
    let ev = from_error("oops");
    assert_eq!(ev.kind, "error");
    assert_eq!(ev.data.get_str("message").unwrap(), "oops");
}

#[test]
fn metadata_event_preserves_payload() {
    let meta = json("{\"foo\":\"bar\",\"count\":3}");
    let ev = from_metadata(&meta);
    assert_eq!(ev.kind, "metadata");
    assert_eq!(ev.data.write(), meta.write());
}

#[test]
fn default_capabilities_enable_all_features() {
    let c = AcpCapabilities::default();
    assert!(c.edit);
    assert!(c.command);
    assert!(c.chat);
    assert!(c.diagnostics);
}

struct EchoAgent;

impl AgentLoop for EchoAgent {
    fn run_prompt(&mut self, text: &str, _ctx: Option<&Json>) -> PromptResult {
        PromptResult { actions: vec![], message: format!("echo: {text}") }
    }
}

struct CaptureAgent {
    captured: String,
}

impl AgentLoop for CaptureAgent {
    fn run_prompt(&mut self, text: &str, _ctx: Option<&Json>) -> PromptResult {
        self.captured = text.to_string();
        PromptResult { actions: vec![], message: String::new() }
    }
}

#[test]
fn adapter_responds_to_prompt_and_shutdown() {
    let input = "{\"type\":\"prompt\",\"id\":\"1\",\"text\":\"hello\"}\n{\"type\":\"shutdown\"}\n";
    let mut a = AcpAdapter::new(EchoAgent, json("{}"), "1.0.0");
    let s = output(&a.run(&lines(input)));
    assert!(s.contains("agent.capabilities"));
    assert!(s.contains("itsy"));
    assert!(s.contains("\"type\":\"response\""));
    assert!(s.contains("echo: hello"));
}

#[test]
fn adapter_recovers_from_malformed_json() {
    let input = "not json {{\n{\"type\":\"shutdown\"}\n";
    let mut a = AcpAdapter::new(EchoAgent, json("{}"), "1.0.0");
    let s = output(&a.run(&lines(input)));
    assert!(s.contains("agent.capabilities"));
    assert!(s.contains("\"type\":\"error\""), "must emit error on bad JSON; got: {s}");
}

#[test]
fn adapter_reports_unknown_message_type() {
    let input = "{\"type\":\"frobnicate\"}\n{\"type\":\"shutdown\"}\n";
    let mut a = AcpAdapter::new(EchoAgent, json("{}"), "1.0.0");
    let s = output(&a.run(&lines(input)));
    assert!(s.contains("Unknown message type: frobnicate"));
}

#[test]
fn context_update_then_prompt_augments_text() {
    let input = concat_lines(&[
        "{\"type\":\"prompt\",\"id\":\"1\",\"text\":\"fix the bug\",\"context\":{\"file\":{\"path\":\"src/foo.rs\"}}}",
        "{\"type\":\"shutdown\"}",
        "",
    ]);
    let mut a = AcpAdapter::new(CaptureAgent { captured: String::new() }, json("{}"), "1.0.0");
    a.run(&lines(&input));
    let augmented = &a.agent_loop.captured;
    assert!(augmented.contains("fix the bug"));
    assert!(
        augmented.contains("src/foo.rs"),
        "augmented text must include file path; got {augmented:?}"
    );
}

fn concat_lines(v: &[&str]) -> String {
    v.iter().map(|l| format!("{l}\n")).collect()
}

#[test]
fn stored_context_is_used_by_later_prompts() {
    let input = concat_lines(&[
        "{\"type\":\"context.update\",\"file\":{\"path\":\"src/foo.rs\"}}",
        "{\"type\":\"prompt\",\"id\":\"1\",\"text\":\"fix the bug\"}",
    ]);
    let mut a = AcpAdapter::new(CaptureAgent { captured: String::new() }, json("{}"), "1.0.0");
    let frames = a.run(&lines(&input));
    assert_eq!(frames.len(), 2, "the update itself gets no reply");
    assert!(a.agent_loop.captured.contains("src/foo.rs"));
}

#[test]
fn diagnostics_are_folded_into_prompt() {
    let input = concat_lines(&[
        "{\"type\":\"prompt\",\"id\":\"1\",\"text\":\"fix\",\"context\":{\"diagnostics\":[{\"severity\":\"error\",\"file\":\"x.rs\",\"line\":42,\"message\":\"type mismatch\"}]}}",
        "{\"type\":\"shutdown\"}",
    ]);
    let mut a = AcpAdapter::new(CaptureAgent { captured: String::new() }, json("{}"), "1.0.0");
    a.run(&lines(&input));
    let augmented = &a.agent_loop.captured;
    assert!(augmented.contains("IDE diagnostics:"));
    assert!(augmented.contains("type mismatch"));
    assert!(augmented.contains("x.rs:42"));
}

#[test]
fn adapter_skips_empty_lines() {
    let input = "\n\n   \n{\"type\":\"shutdown\"}\n";
    let mut a = AcpAdapter::new(EchoAgent, json("{}"), "1.0.0");
    let s = output(&a.run(&lines(input)));
    assert!(s.contains("agent.capabilities"));
    assert!(!s.contains("\"type\":\"error\""));
}

#[test]
fn nothing_is_answered_after_shutdown() {
    let input = "{\"type\":\"shutdown\"}\n{\"type\":\"prompt\",\"text\":\"late\"}\n";
    let mut a = AcpAdapter::new(EchoAgent, json("{}"), "1.0.0");
    assert_eq!(a.run(&lines(input)).len(), 1);
}

struct Witness(Vec<(String, Option<String>)>);

impl AgentLoop for Witness {
    fn run_prompt(&mut self, text: &str, context: Option<&Json>) -> PromptResult {
        self.0.push((text.to_string(), context.map(|c| c.write())));
        PromptResult { actions: vec![], message: "done".to_string() }
    }
}

#[test]
fn the_agent_is_handed_the_prompt_and_its_place() {
    let mut a = AcpAdapter::new(Witness(vec![]), Json::Null, "1");
    let lines: Vec<String> = [
        "{\"type\":\"prompt\",\"text\":\"one\"}",
        "",
        "nonsense",
        "{\"type\":\"prompt\",\"text\":\"two\",\"context\":{\"file\":{\"path\":\"a.rs\"}}}",
        "{\"type\":\"shutdown\"}",
        "{\"type\":\"prompt\",\"text\":\"late\"}",
    ]
    .iter()
    .map(|s| s.to_string())
    .collect();
    let out = a.run(&lines);
    assert_eq!(out.len(), 4);
    assert_eq!(a.agent_loop.0.len(), 2);
    assert_eq!(a.agent_loop.0[0], ("one".to_string(), None));
    assert!(a.agent_loop.0[1].0.starts_with("two"));
    assert_eq!(a.agent_loop.0[1].1.as_deref(), Some("{\"file\":{\"path\":\"a.rs\"}}"));
}
