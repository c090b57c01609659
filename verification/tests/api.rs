//! Running the agent from a program.

use itsy::api::{
    permitted_tools, AgentEvent, Completion, ItsyApi, Run, RunAction, RunEvent, RunOptions,
    RunResult, RunStep, TokenUsage,
};
use itsy::config::Config;
use itsy::features::parse_fenced;
use itsy::json::Json;

fn json(s: &str) -> Json {
    parse_fenced(s).expect("valid JSON")
}

fn empty_result() -> RunResult {
    RunResult {
        response: String::new(),
        tool_calls: vec![],
        files_created: vec![],
        files_modified: vec![],
        tokens_used: TokenUsage::default(),
        elapsed_ms: 0,
        success: false,
        error: None,
    }
}

#[test]
fn new_uses_default_options() {
    let api = ItsyApi::new(Config::default(), 300_000, false, None);
    assert!(api.history.is_empty());
    assert!(api.options.tools.is_none());
}

#[test]
fn run_result_serialises_camel_case() {
    let r = RunResult {
        response: "hi".into(),
        tool_calls: vec![],
        files_created: vec!["a.rs".into()],
        files_modified: vec!["b.rs".into()],
        tokens_used: TokenUsage { input: 10, output: 5, total: 15 },
        elapsed_ms: 123,
        success: true,
        error: None,
    };
    let j = json(&r.to_value().write());
    assert_eq!(j.get_str("response").unwrap(), "hi");
    assert!(j.get("toolCalls").is_some(), "JSON key must be toolCalls");
    assert!(j.get("filesCreated").is_some());
    assert!(j.get("filesModified").is_some());
    assert!(j.get("tokensUsed").is_some());
    assert!(j.get("elapsedMs").is_some());
    assert!(j.get("error").is_none(), "error must be omitted when None");
}

#[test]
fn run_result_includes_error_when_some() {
    let mut r = empty_result();
    r.error = Some("timeout".into());
    let j = json(&r.to_value().write());
    assert_eq!(j.get_str("error").unwrap(), "timeout");
    assert_eq!(j.get_bool("success"), Some(false));
}

#[test]
fn token_usage_serialises_camel_case() {
    let t = TokenUsage { input: 100, output: 50, total: 150 };
    let j = json(&t.to_value().write());
    assert_eq!(j.get_u64("input"), Some(100));
    assert_eq!(j.get_u64("output"), Some(50));
    assert_eq!(j.get_u64("total"), Some(150));
}

#[test]
fn agent_event_is_externally_tagged() {
    let ev = AgentEvent::ToolStart { name: "bash".into(), args: json("{\"command\":\"ls\"}") };
    let j = json(&ev.to_value().write());
    assert_eq!(j.get_str("type").unwrap(), "tool_start");
    assert_eq!(j.get_str("name").unwrap(), "bash");

    let ev = AgentEvent::Token { chunk: "hello".into() };
    let j = json(&ev.to_value().write());
    assert_eq!(j.get_str("type").unwrap(), "token");
    assert_eq!(j.get_str("chunk").unwrap(), "hello");

    let ev = AgentEvent::Error { message: "boom".into() };
    let j = json(&ev.to_value().write());
    assert_eq!(j.get_str("type").unwrap(), "error");
    assert_eq!(j.get_str("message").unwrap(), "boom");
}

#[test]
fn run_options_default_sane() {
    let opts = RunOptions::usual(300_000, false, None);
    assert!(opts.tools.is_none(), "default allows all tools");
    assert!(opts.timeout_ms > 0, "timeout must be positive");
    assert_eq!(opts.cwd, ".");
}

#[test]
fn with_options_retains_user_options() {
    let whitelist = vec!["read_file".to_string()];
    let opts = RunOptions {
        timeout_ms: 10_000,
        tools: Some(whitelist.clone()),
        verbose: true,
        cwd: "/tmp".to_string(),
    };
    let api = ItsyApi::with_options(Config::default(), opts);
    assert_eq!(api.options.timeout_ms, 10_000);
    assert_eq!(api.options.tools.as_ref().unwrap(), &whitelist);
    assert!(api.options.verbose);
}

#[test]
fn a_run_calls_tools_and_answers() {
    let mut api = ItsyApi::new(Config::default(), 1000, false, None);
    let mut run = api.begin("make a.rs");
    assert!(api.history.is_empty());
    assert!(matches!(run.advance(&RunEvent::Started, &None, 2), RunAction::Ask));
    let answer = json(
        "{\"usage\":{\"prompt_tokens\":7,\"completion_tokens\":3},\"choices\":[{\"message\":{\"role\":\"assistant\",\
         \"tool_calls\":[{\"id\":\"c1\",\"function\":{\"name\":\"write_file\",\"arguments\":\"{\\\"path\\\":\\\"a.rs\\\"}\"}},\
         {\"id\":\"c2\",\"function\":{\"name\":\"patch\",\"arguments\":\"broken\"}},\
         {\"id\":\"c3\",\"function\":{\"name\":\"bash\"}}]}}]}",
    );
    match run.advance(&RunEvent::Answered(Completion::Answer(answer)), &None, 2) {
        RunAction::Call { name, args } => {
            assert_eq!(name, "write_file");
            assert_eq!(args.get_str("path").unwrap(), "a.rs");
        }
        other => panic!("expected a call, got {other:?}"),
    }
    let answer = json("{\"action\":\"Created\",\"result\":\"ok\"}");
    match run.advance(&RunEvent::Done { answer, ms: 5 }, &None, 2) {
        RunAction::Call { name, args } => {
            assert_eq!(name, "patch");
            assert_eq!(args.write(), "{}");
        }
        other => panic!("expected a call, got {other:?}"),
    }
    let answer = json("{\"error\":\"not found\"}");
    match run.advance(&RunEvent::Done { answer, ms: 6 }, &None, 2) {
        RunAction::Judge(note) => assert!(!note.ok),
        other => panic!("expected a patch, got {other:?}"),
    }
    let told = RunEvent::Judged(Some("stop patching".to_string()));
    assert!(matches!(run.advance(&told, &None, 2), RunAction::Over));
    assert!(run.pending.is_empty());
    assert_eq!(run.history.len(), 5);
    assert_eq!(run.history[4].get_str("content").unwrap(), "stop patching");
    let r = api.end(run, 99);
    assert_eq!(api.history.len(), 5);
    assert_eq!(r.files_created, vec!["a.rs".to_string()]);
    assert_eq!(r.tokens_used, TokenUsage { input: 7, output: 3, total: 10 });
    assert_eq!(r.tool_calls.len(), 2);
    assert_eq!(r.tool_calls[1].get_str("error").unwrap(), "not found");
    assert_eq!(r.elapsed_ms, 99);
    assert!(r.success);
}

#[test]
fn a_run_ends_in_words_or_errors() {
    let mut run = Run::begin(vec![], "hi");
    let answer = json("{\"choices\":[{\"message\":{\"role\":\"assistant\",\"content\":\"hello\"}}]}");
    assert!(matches!(run.take_answer(&Completion::Answer(answer)), RunStep::Said(s) if s == "hello"));
    run.finish(1);
    assert_eq!(run.result.response, "hello");
    assert!(run.result.success);
    let mut run = Run::begin(vec![json("{\"role\":\"assistant\",\"content\":\"before\"}")], "hi");
    assert!(matches!(run.take_answer(&Completion::Nothing), RunStep::Stop));
    run.finish(1);
    assert_eq!(run.result.error.as_deref(), Some("No response from model"));
    assert_eq!(run.result.response, "before");
    assert!(!run.result.success);
    let mut run = Run::begin(vec![], "hi");
    run.take_answer(&Completion::TimedOut);
    assert_eq!(run.result.error.as_deref(), Some("model request timed out"));
}

#[test]
fn only_listed_tools_are_called() {
    let some = Some(vec!["patch".to_string()]);
    let mut run = Run::begin(vec![], "hi");
    let answer = json(
        "{\"choices\":[{\"message\":{\"role\":\"assistant\",\"tool_calls\":[\
         {\"id\":\"c1\",\"function\":{\"name\":\"bash\"}},\
         {\"id\":\"c2\",\"function\":{\"name\":\"patch\"}}]}}]}",
    );
    match run.advance(&RunEvent::Answered(Completion::Answer(answer)), &some, 9) {
        RunAction::Call { name, .. } => assert_eq!(name, "patch"),
        other => panic!("expected a call, got {other:?}"),
    }
    assert_eq!(run.calls, 2);
    assert_eq!(run.history[2].get_str("tool_call_id").unwrap(), "c1");
    assert_eq!(run.history[2].get_str("content").unwrap(), "Unknown tool: bash");
    let answer = json("{\"result\":\"ok\"}");
    match run.advance(&RunEvent::Done { answer, ms: 1 }, &some, 9) {
        RunAction::Judge(note) => assert!(note.ok),
        other => panic!("expected a patch, got {other:?}"),
    }
    assert!(matches!(run.advance(&RunEvent::Judged(None), &some, 9), RunAction::Ask));
    assert_eq!(run.result.tool_calls.len(), 1);
    assert_eq!(run.result.tool_calls[0].get_str("name").unwrap(), "patch");
    let call = json("{\"id\":\"c3\",\"function\":{\"name\":\"bash\"}}");
    assert!(!run.take_call(&call, &some, 9));
    assert!(run.take_result(&json("{}"), 1).is_none());
    assert_eq!(run.result.tool_calls.len(), 1);
    assert!(run.take_call(&call, &None, 9));
    assert!(!run.take_call(&call, &None, 4));
}

#[test]
fn only_listed_tools_are_offered() {
    let tools = vec![
        json("{\"function\":{\"name\":\"bash\"}}"),
        json("{\"function\":{}}"),
        json("{\"function\":{\"name\":\"patch\"}}"),
    ];
    assert_eq!(permitted_tools(&tools, &None).len(), 3);
    let some = permitted_tools(&tools, &Some(vec!["patch".to_string()]));
    assert_eq!(some.len(), 1);
    assert_eq!(some[0].pointer("function/name").unwrap().as_str().unwrap(), "patch");
}
