//! A turn of the agent.

use itsy::agent::aftermath::{exit_code_of, file_to_check, patch_success, semantic_review, CommandStep, Outcome, Verdict};
use itsy::agent::calls::{call_of, outcome_of, read_arguments, repaired_arguments};
use itsy::agent::contract::{Assertion, AssertionState, Check, Contract};
use itsy::agent::evaluator::{
    add_answers, after_text, emit_result, evaluator_prompt, evaluator_tools, find_verdict,
    format_bash_result, format_file_result, inconclusive, parse_findings, read_call, read_failed, run_failed,
    EvalAction, EvalCall, TextOnly,
};
use itsy::agent::gate::{count_misnamed, repeat_key_of, Admission, Call, Session, Surroundings, Turn};
use itsy::agent::history::{
    copy_message, estimate_history_tokens, estimate_message_tokens, history_cost, maybe_compact,
    message_cost, message_of, mid_turn_evict, minimise_arguments, reply_of, Calls, CompactBudget, Content, Message,
    ToolCall,
};
use itsy::agent::launch::{
    apply_overrides, choose_mode, commit_line, eval_exit_code, eval_head, first_tool_of, flags_of,
    knowledge_query, plan_line, probe_url, read_setting, record_usage, report_tool, runs_setup,
    single_prompt, window_of, LineStep, Mode, Overrides, ToolReport,
};
use itsy::agent::mcp::{
    bash_answer, error_answer, format_memories, format_memory, is_destructive, list_tools,
    memory_answer, method_of, patch_answer, patch_content, plan_call, remember_answer,
    search_answer, MemoryItem, Method, Served,
};
use itsy::agent::prompts::{
    build_contract_active_prompt, build_contract_proposal_prompt, build_full_system_prompt,
    contract_verification_guidance, get_memory_context, get_plugin_prompts, get_skill_context,
    prompt_kind, wants_code, PromptKind,
};
use itsy::agent::reply::{calls_for_action, TextStep, EMPTY_DEMAND, NO_REPLY, STREAK_CONTRACT, STREAK_PLAIN, USE_TOOLS};
use itsy::agent::tally::{Tally, TextSet};
use itsy::agent::tools::{
    cap_tool_result, first_n_lines, recency_tool_hint, select_tool_skill_cards, tool_skill_card,
    truncate_short, Pressure,
};
use itsy::agent::turn::{
    align_task_type, assistant_asked_question, augment_request, begin_clarifier, end_clarifier,
    is_affirmation, latest_text_of, looks_like_option_ref, looks_like_path, next_step, offer_tools,
    route_category, talks, wants_clarifier, LoopStep,
};
use itsy::code_graph::SymbolHit;
use itsy::config::Config;
use itsy::features::parse_fenced;
use itsy::json::Json;

fn json(s: &str) -> Json {
    parse_fenced(s).expect("valid JSON")
}

fn words(s: &str) -> Vec<String> {
    s.split_whitespace().map(|w| w.to_string()).collect()
}

fn say(role: &str, content: &str) -> Message {
    Message::plain(role, content.to_string())
}

fn tool_call(id: &str, name: &str, arguments: &str) -> ToolCall {
    ToolCall {
        id: Some(id.to_string()),
        name: Some(name.to_string()),
        arguments: Some(arguments.to_string()),
    }
}

fn calling(calls: Vec<ToolCall>) -> Message {
    Message {
        role: Some("assistant".to_string()),
        content: Content::Missing,
        calls: Calls::List(calls),
        tool_call_id: None,
        extra: None,
    }
}

fn text_of(m: &Message) -> String {
    m.text().cloned().unwrap_or_default()
}

fn call(name: &str, arguments: &str) -> Call {
    Call {
        name: name.to_string(),
        id: "c".to_string(),
        path: Some("a.rs".to_string()),
        arguments: arguments.to_string(),
        write_key: arguments.to_string(),
        assertion: String::new(),
        state: String::new(),
    }
}

fn free() -> Surroundings {
    Surroundings {
        contract_on: false,
        has_contract: false,
        talk: false,
        bash_read_only: false,
        patch_blocked: None,
    }
}

fn fine(result: &str) -> Outcome {
    Outcome { failed: false, error: None, result: Some(result.to_string()), category: None }
}

fn broken(error: &str) -> Outcome {
    Outcome { failed: true, error: Some(error.to_string()), result: None, category: None }
}

fn turn() -> Turn {
    Turn::open(Session::new())
}

// Counting
// ---------------------------------------------------------------------------

#[test]
fn tallies_count() {
    let mut t = Tally::new();
    assert_eq!(t.get("a"), 0);
    assert_eq!(t.bump("a"), 1);
    assert_eq!(t.bump("a"), 2);
    t.set("b", 7);
    t.remove("a");
    assert_eq!(t.get("a"), 0);
    assert_eq!(t.get("b"), 7);
    let mut s = TextSet::new();
    assert!(s.insert("b"));
    assert!(!s.insert("b"));
    t.remove_all(&s);
    assert_eq!(t.get("b"), 0);
    assert!(s.remove("b"));
    assert!(!s.contains("b"));
}

// The conversation
// ---------------------------------------------------------------------------

#[test]
fn tokens_are_estimated() {
    let m = say("user", &"x".repeat(40));
    let n = estimate_message_tokens(&m);
    assert_eq!(message_cost(&m, 1000), Some(n));
    assert_eq!(message_cost(&m, n - 1), None);
    let h = vec![m, say("user", "")];
    assert_eq!(estimate_history_tokens(&h), n + estimate_message_tokens(&h[1]));
    assert_eq!(history_cost(&h, u64::MAX), Some(estimate_history_tokens(&h)));
    let long = estimate_message_tokens(&say("user", &"x".repeat(80)));
    assert_eq!(long, n + 10);
}

#[test]
fn conversations_are_compacted() {
    let mut h = vec![say("system", "rules")];
    for i in 0..10 {
        h.push(say("user", &format!("{i}{}", "x".repeat(400))));
    }
    let budget = CompactBudget { soft_limit: 500, target: 10, shown: 700 };
    let before = estimate_history_tokens(&h);
    assert!(maybe_compact(&mut h, budget));
    assert!(estimate_history_tokens(&h) < before);
    assert_eq!(h.len(), 7);
    assert_eq!(text_of(&h[0]), "[Context compacted to fit 700 token budget]");
    assert_eq!(text_of(&h[1]), "rules");
    assert!(text_of(&h[6]).starts_with("9"));
    let mut short = vec![say("user", "hi")];
    assert!(!maybe_compact(&mut short, CompactBudget { soft_limit: 500, target: 10, shown: 7 }));
    assert_eq!(short.len(), 1);
}

#[test]
fn old_results_are_evicted() {
    let big = format!("{{\"path\":\"a\",\"content\":\"{}\"}}", "x".repeat(300));
    let mut h = vec![
        calling(vec![tool_call("1", "write_file", &big)]),
        Message::tool_reply("1", "y".repeat(400)),
        calling(vec![tool_call("2", "write_file", &big)]),
        Message::tool_reply("2", "z".repeat(400)),
    ];
    assert_eq!(mid_turn_evict(&mut h, 10_000, 5), 0);
    assert_eq!(mid_turn_evict(&mut h, 10, 5), 1);
    assert_eq!(h.len(), 4);
    assert_eq!(text_of(&h[1]), "[evicted: 100 tokens]");
    assert_eq!(text_of(&h[3]).len(), 400);
    match &h[0].calls {
        Calls::List(v) => assert_eq!(
            v[0].arguments.as_deref().unwrap(),
            format!("{{\"content\":\"{}…\",\"path\":\"a\"}}", "x".repeat(80))
        ),
        other => panic!("expected calls, got {other:?}"),
    }
    match &h[2].calls {
        Calls::List(v) => assert_eq!(v[0].arguments.as_deref().unwrap(), big),
        other => panic!("expected calls, got {other:?}"),
    }
    assert_eq!(minimise_arguments(&None), "{}");
    assert_eq!(text_of(&copy_message(&h[1])), "[evicted: 100 tokens]");
}

// Before the loop
// ---------------------------------------------------------------------------

#[test]
fn requests_are_read() {
    assert!(looks_like_path("src/main.rs"));
    assert!(looks_like_path("main.rs"));
    assert!(!looks_like_path("fix it"));
    assert!(looks_like_option_ref("option 2"));
    assert!(!looks_like_option_ref("write a parser"));
    assert!(is_affirmation("Yes"));
    assert!(is_affirmation("go ahead"));
    assert!(is_affirmation(" ok. "));
    assert!(!is_affirmation("yes, but not now"));
    let h = vec![say("assistant", "Which one?"), say("user", "hm")];
    assert!(assistant_asked_question(&h));
    assert_eq!(latest_text_of(&h, "user").unwrap(), "hm");
    assert!(wants_clarifier(true, "fix it", &vec![]));
    assert!(!wants_clarifier(false, "fix it", &vec![]));
    assert!(!wants_clarifier(true, "fix it", &h));
    assert!(!wants_clarifier(true, "yes", &vec![]));
}

#[test]
fn clarifying_leaves_no_trace() {
    let mut h = vec![say("user", "old")];
    let at = begin_clarifier(&mut h, "fix it", "The request is vague: ask one question");
    assert_eq!(h.len(), 3);
    h.push(say("assistant", "Which file?"));
    end_clarifier(&mut h, at);
    let shown: Vec<String> = h.iter().map(text_of).collect();
    assert_eq!(shown, vec!["old", "fix it", "Which file?"]);
}

#[test]
fn requests_are_prepared() {
    assert_eq!(augment_request("do", "", "", false, false, false), "do");
    assert!(augment_request("do", "REFS", "", false, false, false).contains("REFS"));
    assert_eq!(route_category(true, &Some("write".to_string()), false), Some("write".to_string()));
    assert_eq!(route_category(false, &None, true), Some("respond".to_string()));
    assert_eq!(align_task_type(&Some("respond".to_string()), "coding"), "explanation");
    assert_eq!(align_task_type(&None, "coding"), "coding");
    assert!(talks("explanation"));
    assert!(!talks("coding"));
    assert!(matches!(next_step(5, 5, 0), LoopStep::LimitReached));
    assert!(matches!(next_step(0, 5, 1), LoopStep::Interrupted));
    assert!(matches!(next_step(0, 5, 0), LoopStep::Ask { evict: false }));
    assert!(matches!(next_step(3, 5, 0), LoopStep::Ask { .. }));
    let tools = words("bash write_file propose_contract read_file");
    assert_eq!(offer_tools(&tools, false, false, "coding"), tools);
    assert_eq!(
        offer_tools(&tools, true, false, "coding"),
        words("bash propose_contract read_file")
    );
    assert_eq!(offer_tools(&tools, true, true, "coding"), tools);
}

// Calls
// ---------------------------------------------------------------------------

#[test]
fn wrong_names_are_corrected_twice() {
    let mut t = turn();
    let calls = vec![tool_call("1", "fly", "{}"), tool_call("2", "bash", "{}"), tool_call("3", "", "{}")];
    let known = words("patch bash");
    assert_eq!(count_misnamed(&calls, &known), 2);
    assert!(t.check_names(&calls, &known));
    let shown: Vec<String> = t.session.history.iter().map(text_of).collect();
    assert_eq!(
        shown,
        vec![
            "Error: `fly` is not a valid tool. Available tools: bash, patch.",
            "Error: tool name is empty. Available tools: bash, patch.",
            "[SYSTEM] One or more tool calls used an invalid tool name. Call tools by their exact name. Available: bash, patch."
        ]
    );
    assert!(t.check_names(&calls, &known));
    assert!(!t.check_names(&calls, &known));
    assert!(!turn().check_names(&vec![tool_call("2", "bash", "{}")], &known));
}

#[test]
fn arguments_are_read_and_repaired() {
    let c = tool_call("1", "bash", "{\"command\":\"ls\"}");
    assert_eq!(read_arguments(&c).unwrap().get_str("command").unwrap(), "ls");
    assert!(read_arguments(&tool_call("1", "bash", "{broken")).is_none());
    assert_eq!(repaired_arguments(&Some("{\"a\":1}".to_string())).get_u64("a"), Some(1));
    assert_eq!(repaired_arguments(&None).write(), "{}");
    let k = call_of(&c, &json("{\"path\":\"a.rs\",\"command\":\"ls\"}"), "key".to_string());
    assert_eq!(k.name, "bash");
    assert_eq!(k.path.as_deref(), Some("a.rs"));
    assert_eq!(k.write_key, "key");
    let o = outcome_of(&json("{\"error\":\"no\",\"result\":\"r\"}"));
    assert!(o.failed);
    assert_eq!(o.error.as_deref(), Some("no"));
    assert!(!outcome_of(&json("{\"result\":\"r\"}")).failed);
}

#[test]
fn the_fourth_repeat_is_blocked() {
    let mut t = turn();
    let c = call("search", "{\"pattern\":\"x\"}");
    for _ in 0..3 {
        assert_eq!(t.screen(&c, &free()), Admission::Run { unguarded: false });
    }
    assert_eq!(t.screen(&c, &free()), Admission::Blocked { stop: false });
    assert!(text_of(t.session.history.last().unwrap()).contains("[LOOP DETECTED] You have called `search` with these exact arguments 4 time(s)."));
    assert_eq!(t.screen(&c, &free()), Admission::Blocked { stop: true });
    assert_eq!(t.screen(&c, &free()), Admission::Blocked { stop: true });
    assert!(text_of(t.session.history.last().unwrap()).starts_with("[SYSTEM] You are stuck in a loop calling `search`."));
    assert_eq!(t.screen(&call("search", "{}"), &free()), Admission::Run { unguarded: false });
    assert_eq!(t.calls, 7);
    let key = repeat_key_of("search", "{}");
    assert_eq!(key.len(), "__tool_repeat_".len() + 16);
    assert_eq!(repeat_key_of("", "abc"), "__tool_repeat_ba7816bf8f01cfea");
}

#[test]
fn a_change_allows_reading_again() {
    let mut t = turn();
    let read = call("read_file", "{\"path\":\"a.rs\"}");
    for _ in 0..3 {
        t.screen(&read, &free());
    }
    t.note(&call("write_file", "{}"), &fine("ok"));
    assert_eq!(t.edited, words("a.rs"));
    assert!(t.changed);
    assert_eq!(t.screen(&read, &free()), Admission::Run { unguarded: false });
    let run = call("bash", "{\"command\":\"make\"}");
    for _ in 0..3 {
        t.screen(&run, &free());
    }
    t.note(&call("patch", "{}"), &fine("ok"));
    assert_eq!(t.screen(&run, &free()), Admission::Run { unguarded: false });
}

#[test]
fn nothing_is_changed_before_a_contract() {
    let mut t = turn();
    let held = Surroundings { contract_on: true, ..free() };
    let c = call("write_file", "{}");
    for _ in 0..3 {
        assert_eq!(t.screen(&c, &held), Admission::Refused);
    }
    assert!(text_of(&t.session.history[0]).starts_with("[BLOCKED] No contract yet."));
    assert_eq!(t.screen(&c, &held), Admission::Run { unguarded: true });
    let mut t = turn();
    assert_eq!(t.screen(&call("read_file", "{}"), &held), Admission::Run { unguarded: false });
    assert_eq!(t.screen(&call("propose_contract", "{}"), &held), Admission::Run { unguarded: false });
    assert!(t.batch.contract);
    let looking = Surroundings { contract_on: true, bash_read_only: true, ..free() };
    assert_eq!(t.screen(&call("bash", "{}"), &looking), Admission::Run { unguarded: false });
    assert_eq!(t.screen(&call("bash", "{}"), &held), Admission::Refused);
}

#[test]
fn marks_are_not_repeated() {
    let mut t = turn();
    let mut c = call("mark_assertion", "{\"id\":\"A\"}");
    c.assertion = "A".to_string();
    c.state = "passed".to_string();
    assert_eq!(t.screen(&c, &free()), Admission::Run { unguarded: false });
    assert_eq!(t.screen(&c, &free()), Admission::Duplicate);
    assert!(text_of(t.session.history.last().unwrap()).contains("[DUPLICATE] mark_assertion for `A` as `passed` was already called this turn."));
    let guarded = Surroundings { patch_blocked: Some("stop \"now\"".to_string()), ..free() };
    assert_eq!(t.screen(&call("patch", "{}"), &guarded), Admission::Blocked { stop: false });
    assert_eq!(text_of(t.session.history.last().unwrap()), "{\"result\":\"stop \\\"now\\\"\"}");
}

// Results
// ---------------------------------------------------------------------------

#[test]
fn results_are_noted() {
    let mut t = turn();
    t.note(&call("select_category", "{}"), &Outcome { category: Some("edit".to_string()), ..fine("ok") });
    assert_eq!(t.session.category.as_deref(), Some("edit"));
    t.note(&call("patch", "{}"), &broken("old_str not found"));
    assert!(text_of(t.session.history.last().unwrap()).starts_with("[SYSTEM] patch failed: old_str not found in a.rs. The file content has changed"));
    t.note(&call("read_file", "{}"), &fine("unchanged since last read"));
    assert!(!t.batch.fresh_read);
    t.note(&call("read_file", "{}"), &fine("text"));
    assert!(t.batch.fresh_read);
    t.redirect("think again".to_string());
    assert_eq!(text_of(t.session.history.last().unwrap()), "think again");
    assert!(patch_success(&fine("ok")));
    assert!(!patch_success(&broken("old_str not found")));
    assert_eq!(file_to_check(&call("write_file", "{}"), &fine("ok")).as_deref(), Some("a.rs"));
    assert_eq!(file_to_check(&call("write_file", "{}"), &broken("no")), None);
    assert_eq!(file_to_check(&call("bash", "{}"), &fine("ok")), None);
}

#[test]
fn results_are_answered_and_failures_counted() {
    let mut t = turn();
    let c = call("patch", "{}");
    t.reply(&c, &broken("no"), Pressure::Low);
    assert_eq!(t.session.history.len(), 1);
    t.reply(&c, &broken("no"), Pressure::Low);
    assert_eq!(t.session.history.len(), 3);
    assert!(text_of(&t.session.history[2]).starts_with("[SYSTEM] `patch` has failed 2 times in a row. "));
    t.reply(&c, &fine("yes"), Pressure::Low);
    t.reply(&c, &broken("no"), Pressure::Low);
    assert_eq!(t.session.history.len(), 5);
    let b = call("bash", "{}");
    t.reply(&b, &broken("Exit code 1"), Pressure::Low);
    t.reply(&b, &broken("Exit code 1"), Pressure::Low);
    assert_eq!(t.session.history.len(), 7);
}

#[test]
fn checks_lead_to_fixes() {
    let mut t = turn();
    let bad = Verdict::Retry { errors: words("e1 e2") };
    assert_eq!(t.verify("a.rs", &bad, true), 0);
    assert_eq!(
        text_of(&t.session.history[0]),
        "[AUTO-VALIDATE] Errors in a.rs (attempt 1/4):\ne1\ne2\n\nAfter fixing, run the project test command to verify.\n\nFix these errors. Do NOT repeat the same approach that failed before."
    );
    assert_eq!(t.verify("a.rs", &bad, false), 1);
    let d = Verdict::Decompose { instruction: "split".to_string(), lines: 12 };
    assert_eq!(t.verify("a.rs", &d, false), 2);
    assert_eq!(
        text_of(&t.session.history[2]),
        "[DECOMPOSE] After 4 failed fix attempts, changing strategy.\n\nsplit\n\nFile length: 12 lines."
    );
    assert_eq!(t.verify("a.rs", &Verdict::Accept, false), 0);
    assert_eq!(t.session.history.len(), 3);
    assert_eq!(
        semantic_review("a.rs", &words("x y")),
        "[SEMANTIC-REVIEW] The edit to a.rs may need follow-up:\n  - x\n  - y"
    );
}

#[test]
fn failing_commands_are_rethought() {
    let mut t = turn();
    let c = call("bash", "{}");
    let bad = Outcome { result: Some("boom".to_string()), ..broken("Exit code 2") };
    assert_eq!(t.note_command(&c, &bad), CommandStep::Done);
    assert_eq!(
        text_of(&t.session.history[0]),
        "[AUTO-FIX] The command FAILED (attempt 1/2). Do NOT claim success. The error was:\nboom\n\nRead the error, identify the bug, and fix it."
    );
    assert_eq!(t.note_command(&c, &bad), CommandStep::Done);
    assert_eq!(t.note_command(&c, &bad), CommandStep::Rethink);
    t.rethink("other way");
    assert!(text_of(t.session.history.last().unwrap()).ends_with("STOP retrying the same approach.\n\nother way"));
    assert_eq!(t.note_command(&c, &bad), CommandStep::Done);
    assert_eq!(t.note_command(&c, &fine("ok")), CommandStep::Done);
    assert_eq!(t.attempts.get("__bash"), 0);
    assert_eq!(exit_code_of(&broken("Exit code 7")), 7);
    assert_eq!(exit_code_of(&broken("Exit code -9")), -9);
    assert_eq!(exit_code_of(&broken("Exit code 1")), 0);
    assert_eq!(exit_code_of(&broken("gone")), 2);
    assert_eq!(exit_code_of(&fine("ok")), 0);
}

#[test]
fn idle_rounds_are_nudged() {
    let mut t = turn();
    assert_eq!(t.end_round(), None);
    assert_eq!(t.end_round(), Some(2));
    assert!(text_of(&t.session.history[0]).starts_with("[SYSTEM] You have spent 2 consecutive rounds reading files"));
    t.note(&call("patch", "{}"), &fine("ok"));
    assert_eq!(t.end_round(), None);
    let s = t.close();
    assert_eq!(s.readonly_rounds, 0);
    let mut t = Turn::open(s);
    for _ in 0..5 {
        assert_eq!(t.end_round(), None);
    }
    assert_eq!(t.end_round(), Some(6));
    assert_eq!(t.close().readonly_rounds, 1);
}

// Answers in words
// ---------------------------------------------------------------------------

#[test]
fn empty_answers_are_asked_for_again() {
    let mut t = turn();
    assert_eq!(t.note_text(&None, true, &None), TextStep::Retry { n: 1 });
    assert!(t.thinking_off);
    assert_eq!(text_of(t.session.history.last().unwrap()), EMPTY_DEMAND);
    t.settle_retry(0, "here");
    assert!(t.session.history.is_empty());
    assert_eq!(t.note_text(&Some(" ".to_string()), true, &None), TextStep::Retry { n: 2 });
    assert_eq!(t.note_text(&None, true, &None), TextStep::GiveUp { n: 3 });
    assert_eq!(text_of(t.session.history.last().unwrap()), NO_REPLY);
}

#[test]
fn talk_is_badgered() {
    let mut t = turn();
    let said = Some("I would edit it".to_string());
    assert!(calls_for_action("coding"));
    assert!(!calls_for_action("search"));
    assert_eq!(t.note_text(&said, true, &None), TextStep::Badger);
    assert_eq!(text_of(t.session.history.last().unwrap()), USE_TOOLS);
    assert_eq!(t.note_text(&said, false, &None), TextStep::Accept { exhausted: false });
    assert_eq!(t.note_text(&said, false, &None), TextStep::Accept { exhausted: false });
    assert_eq!(t.note_text(&said, false, &None), TextStep::ForceTools { n: 3 });
    assert_eq!(text_of(t.session.history.last().unwrap()), STREAK_PLAIN);
    t.object("done", "not yet");
    assert_eq!(text_of(t.session.history.last().unwrap()), "not yet");
    let mut t = turn();
    t.open_batch("bash", calling(vec![]));
    assert_eq!(t.session.category.as_deref(), Some("plan"));
}

fn assertion(id: &str, state: AssertionState) -> Assertion {
    Assertion { id: id.to_string(), text: format!("{id} works"), state, evidence: None, last_check: None }
}

fn contract(assertions: Vec<Assertion>) -> Contract {
    Contract {
        id: "k".to_string(),
        title: "t".to_string(),
        brief: "b".to_string(),
        active: true,
        assertions,
    }
}

#[test]
fn contracts_are_finished() {
    let mut failed = assertion("B", AssertionState::Failed);
    failed.last_check =
        Some(Check { command: "make".to_string(), exit_code: 2, observation: "boom".to_string() });
    let c = contract(vec![assertion("A", AssertionState::Passed), failed, assertion("C", AssertionState::Pending)]);
    let n = c.counts();
    assert_eq!((n.total, n.passed, n.failed, n.pending, n.skipped), (3, 1, 1, 1, 0));
    assert_eq!(c.ids(AssertionState::Pending), words("C"));
    assert!(c.needs_more_work());
    assert!(c.has_unverified());
    assert!(!c.may_close());
    assert!(contract(vec![assertion("A", AssertionState::Passed)]).may_close());
    assert!(!contract(vec![assertion("A", AssertionState::Skipped)]).may_close());
    let d = c.demand();
    assert!(d.contains("make"));
    assert!(d.contains("boom"));
    let mut t = turn();
    let said = Some("x".repeat(300));
    assert_eq!(
        t.note_text(&said, false, &Some(contract(vec![assertion("C", AssertionState::Pending)]))),
        TextStep::FinishContract { n: 1 }
    );
    t.contract_rounds = 12;
    t.text_streak = 0;
    assert_eq!(
        t.note_text(&said, false, &Some(contract(vec![assertion("C", AssertionState::Pending)]))),
        TextStep::Accept { exhausted: true }
    );
    t.text_streak = 2;
    assert_eq!(
        t.note_text(&said, false, &Some(contract(vec![assertion("C", AssertionState::Pending)]))),
        TextStep::ForceTools { n: 3 }
    );
    assert_eq!(text_of(t.session.history.last().unwrap()), STREAK_CONTRACT);
}

// The evaluator
// ---------------------------------------------------------------------------

#[test]
fn the_evaluator_only_looks() {
    assert!(evaluator_prompt("T", "/w").contains("TASK:\nT\n\nWorking directory: /w\n\n"));
    let names: Vec<String> = evaluator_tools()
        .iter()
        .map(|t| t.pointer("function/name").unwrap().as_str().unwrap())
        .collect();
    assert_eq!(names, words("bash read_file evaluator_verdict"));
    match read_call(&tool_call("1", "write_file", "{}")) {
        EvalCall::Other { name } => assert_eq!(name, "write_file"),
        other => panic!("expected another tool, got {other:?}"),
    }
    let b = read_call(&tool_call("1", "bash", "{\"command\":\"ls\"}"));
    assert!(matches!(itsy::agent::evaluator::plan_call(&b), EvalAction::Run(s) if s == "ls"));
    let v = read_call(&tool_call("1", "evaluator_verdict", "{\"passed\":false,\"findings\":\"- a\\n-- b\\n\\n\"}"));
    assert!(matches!(itsy::agent::evaluator::plan_call(&v), EvalAction::Answer(s) if s == "verdict recorded: passed=false"));
    assert_eq!(find_verdict(&vec![b, v]), Some((false, words("a b"))));
    assert_eq!(find_verdict(&vec![]), None);
    assert_eq!(parse_findings("- x\n\n y "), words("x y"));
}

#[test]
fn the_evaluator_is_told_what_came_out() {
    assert_eq!(format_bash_result(-1, "out\n", "err "), "exit_code=-1\nstdout:\nout\nstderr:\nerr");
    assert_eq!(format_bash_result(0, "", ""), "exit_code=0");
    let long = format_bash_result(0, &"x".repeat(3000), "");
    assert_eq!(long.len(), 2000 + "\n[output truncated]".len());
    assert_eq!(format_file_result(&"x".repeat(3001)).len(), 3000 + "\n[file truncated at 3000 chars]".len());
    let mut h = vec![];
    assert!(matches!(after_text(&mut h, 1), TextOnly::Nudge));
    assert!(matches!(after_text(&mut h, 50), TextOnly::OutOfTurns));
    let mut h = vec![];
    add_answers(&mut h, &vec![("1".to_string(), "r".to_string())], 1, false);
    assert_eq!(h.len(), 1);
    assert_eq!(text_of(&h[0]), "r");
    add_answers(&mut h, &vec![("2".to_string(), "s".to_string())], 47, false);
    assert!(text_of(&h[1]).starts_with("s\n\n[SYSTEM] 2 turn(s) remaining. Call evaluator_verdict NOW"));
    let mut h = vec![];
    emit_result(&mut h, true, &words("a b"));
    assert!(h.is_empty());
    emit_result(&mut h, false, &words("a b"));
    assert!(text_of(&h[0]).starts_with("[EVALUATOR] Independent verification found issues:\n  · a\n  · b\n\nThese assertions"));
    assert!(!inconclusive().0);
}

// Tools
// ---------------------------------------------------------------------------

#[test]
fn results_are_capped() {
    assert_eq!(first_n_lines("a\nb\nc", 2), "a\nb");
    assert_eq!(truncate_short("abc", 5), "abc");
    assert_eq!(truncate_short(&"x".repeat(20), 5), "xxxxx…");
    let long = "x".repeat(100_000);
    let tail = "\n\n[Output truncated — 100000 chars total. Use bash+grep or read_file with offset/limit to target a specific range. Do not re-read the full result.]";
    for (p, n) in [(Pressure::Low, 16_000), (Pressure::Medium, 8_000), (Pressure::High, 4_000)] {
        assert_eq!(cap_tool_result(&long, p), format!("{}{tail}", "x".repeat(n)));
    }
    assert_eq!(cap_tool_result("short", Pressure::High), "short");
    assert!(recency_tool_hint("read_file").contains("Verify the path exists"));
    assert!(!tool_skill_card("patch").is_empty());
    assert_eq!(tool_skill_card("nothing"), "");
    let cards = select_tool_skill_cards(&vec![say("user", "please fix the bug")]);
    assert!(cards.contains(tool_skill_card("patch")));
    assert_eq!(select_tool_skill_cards(&vec![]), "");
}

// Serving tools
// ---------------------------------------------------------------------------

fn item() -> MemoryItem {
    MemoryItem {
        id: "i".to_string(),
        kind: "k".to_string(),
        title: "t".to_string(),
        content: "c".to_string(),
    }
}

#[test]
fn served_tools() {
    assert!(matches!(method_of("initialize"), Method::Initialize));
    assert!(matches!(method_of("tools/list"), Method::ListTools));
    assert!(matches!(method_of("tools/call"), Method::CallTool));
    assert!(matches!(method_of("x"), Method::Unknown(s) if s == "Unknown method: x"));
    assert_eq!(list_tools().len(), 7);
    assert_eq!(list_tools()[2].params, vec!["path", "old_str", "new_str"]);
    assert!(is_destructive("rm  -rf /usr"));
    assert!(is_destructive("FORMAT C:"));
    assert!(!is_destructive("rm -rf ./x"));
    match plan_call("itsy_bash", &json("{\"command\":\"rm -rf /usr\"}")) {
        Served::Answer(s) => assert_eq!(s, "Error: destructive command blocked"),
        other => panic!("expected a refusal, got {other:?}"),
    }
    assert_eq!(patch_content("a b", "a", "x"), Ok("x b".to_string()));
    assert_eq!(
        patch_content("a a", "a", "x"),
        Err("Error: old_str matches multiple locations".to_string())
    );
    assert_eq!(patch_content("b", "a", "x"), Err("Error: old_str not found".to_string()));
    assert_eq!(patch_answer("p"), "Patched p");
    assert_eq!(error_answer("why"), "Error: why");
    assert_eq!(bash_answer("out", "err"), "outerr");
    assert_eq!(bash_answer(&"x".repeat(5000), "").len(), 4000);
    assert_eq!(search_answer(&None), "No matches");
    assert_eq!(search_answer(&Some(String::new())), "No matches");
    assert_eq!(search_answer(&Some("x".repeat(5000))).len(), 3000);
    let line = format_memory(&item());
    assert_eq!(line, "[k] t: c");
    assert_eq!(format_memories(&vec![item(), item()]), vec![line.clone(), line]);
    assert_eq!(memory_answer(&vec![item(), item()]), "[k] t: c\n\n[k] t: c");
    assert_eq!(memory_answer(&vec![]), "No relevant memory found.");
    assert_eq!(remember_answer(&item()), "Remembered: [k] t (i)");
    assert!(matches!(plan_call("itsy_search", &json("{}")), Served::Search { pattern, path } if pattern.is_empty() && path == "."));
    assert!(matches!(plan_call("nope", &json("{}")), Served::Answer(s) if s == "Unknown tool: nope"));
}

// Prompts
// ---------------------------------------------------------------------------

#[test]
fn prompts_are_put_together() {
    let h = vec![say("user", "task")];
    assert_eq!(get_memory_context(&h, &vec![]), "");
    assert_eq!(
        get_memory_context(&h, &vec![item()]),
        "\n\nRelevant project memory:\n[k] t: c\n"
    );
    assert_eq!(get_memory_context(&vec![], &vec![item()]), "");
    assert_eq!(get_skill_context(&h, ""), "");
    assert_eq!(get_skill_context(&h, "SKILL"), "SKILL");
    assert_eq!(
        get_skill_context(&h, &"s".repeat(5000)),
        format!("{}\n... (skills truncated to fit context)", "s".repeat(4000))
    );
    assert_eq!(get_plugin_prompts(""), "");
    assert_eq!(get_plugin_prompts("x"), "\n\nx");
    assert!(wants_code(true, &h).is_none());
    let long = vec![say("user", &"t".repeat(201))];
    assert_eq!(wants_code(true, &long).unwrap(), "t".repeat(201));
    assert!(wants_code(false, &long).is_none());
    assert!(matches!(prompt_kind(true, "coding", false), PromptKind::Proposal));
    assert!(matches!(prompt_kind(true, "coding", true), PromptKind::Contract));
    assert!(matches!(prompt_kind(false, "coding", true), PromptKind::General));
    let hit = SymbolHit {
        name: "add".to_string(),
        kind: "function".to_string(),
        file: "lib.rs".to_string(),
        line: 3,
        signature: None,
        snippet: None,
        repo: "r".to_string(),
    };
    let p = build_full_system_prompt("BASE", "", true, &vec![hit], "", &long);
    assert_eq!(
        p,
        "BASE\n\nRelevant code from the project:\n- add (function at lib.rs:3)\n"
    );
    assert_eq!(contract_verification_guidance(&None), "");
    assert_eq!(contract_verification_guidance(&Some("v".to_string())), "\nv\n");
    assert!(build_contract_proposal_prompt("/w", "m", "VER\n").starts_with(
        "You are itsy, working in CONTRACT mode. Working directory: /w.\nModel: m\n\nYOUR FIRST ACTION"
    ));
    assert!(build_contract_active_prompt("/w", "", "BODY", "VER").starts_with(
        "You are itsy, working under an active contract. Working directory: /w.\n\nBODY\nVER\nHow to work:\n"
    ));
}

// Starting up
// ---------------------------------------------------------------------------

#[test]
fn settings_are_overridden() {
    let mut c = Config::default();
    let o = Overrides {
        second_opinion_model: Some("other".to_string()),
        second_opinion_endpoint: None,
        auto_approve: true,
        max_tool_calls_per_turn: Some(3),
        max_output_tokens: None,
        thinking_budget: None,
        request_timeout_ms: None,
        bash_timeout: Some(9),
        tool_routing: None,
        allow_outside_paths: None,
        web_browse: Some(true),
        shell_persist: None,
    };
    apply_overrides(&mut c, &o);
    assert_eq!(c.second_opinion.model.as_deref(), Some("other"));
    assert!(c.tui.auto_approve);
    assert_eq!(c.limits.max_tool_calls_per_turn, 3);
    assert_eq!(c.tools.bash_timeout, 9);
    assert!(c.tools.web_browse);
    assert!(c.tools.shell_persist);
    assert_eq!(read_setting("a=b=c"), Ok(("a".to_string(), "b=c".to_string())));
    assert!(read_setting("plain").is_err());
    let f = flags_of(Some("m".to_string()), None, None, true, false);
    assert_eq!(f.model.as_deref(), Some("m"));
    assert!(f.classic);
}

#[test]
fn modes_are_chosen() {
    assert!(matches!(choose_mode(true, false, None, &vec![], false, true), Mode::Server));
    match choose_mode(false, true, None, &words("fix it"), false, true) {
        Mode::Single(Some(s)) => assert_eq!(s, "fix it"),
        other => panic!("expected one prompt, got {other:?}"),
    }
    assert!(matches!(choose_mode(false, false, None, &vec![], false, true), Mode::Fullscreen));
    assert!(matches!(choose_mode(false, false, None, &vec![], true, true), Mode::Classic));
    assert!(runs_setup(true, false, true, false));
    assert!(!runs_setup(false, true, true, true));
    assert_eq!(single_prompt(Some("p".to_string()), "in").unwrap(), "p");
    assert_eq!(single_prompt(None, " in \n").unwrap(), "in");
    assert!(single_prompt(None, " \n").is_none());
    assert!(matches!(plan_line("\n", false), LineStep::Skip));
    assert!(matches!(plan_line("  ", true), LineStep::Quit));
    assert!(matches!(plan_line("  ", false), LineStep::Turn(s) if s == "  "));
    assert!(matches!(plan_line("/help", false), LineStep::Command(s) if s == "/help"));
    assert!(matches!(plan_line("do it", false), LineStep::Turn(s) if s == "do it"));
}

#[test]
fn answers_are_reported() {
    assert_eq!(probe_url("http://h:1/v1"), "http://h:1/props");
    assert_eq!(window_of(&json("{\"default_generation_settings\":{\"n_ctx\":4096}}")), Some(4096));
    assert_eq!(
        record_usage(&json("{\"usage\":{\"prompt_tokens\":3,\"completion_tokens\":4}}")),
        Some((3, 4))
    );
    assert_eq!(record_usage(&json("{}")), None);
    assert_eq!(
        first_tool_of(&json("{\"choices\":[{\"message\":{\"tool_calls\":[{\"function\":{\"name\":\"bash\"}}]}}]}")).unwrap(),
        "bash"
    );
    assert_eq!(eval_exit_code(&None), 2);
    match report_tool("bash", &json("{\"error\":\"no\"}"), false) {
        ToolReport::Error(s) => assert!(s.contains("no")),
        other => panic!("expected an error, got {other:?}"),
    }
    match report_tool("write_file", &json("{\"action\":\"Created\",\"path\":\"a\",\"lines\":3}"), false) {
        ToolReport::Created { path, lines } => assert_eq!((path.as_str(), lines), ("a", 3)),
        other => panic!("expected a new file, got {other:?}"),
    }
    assert_eq!(commit_line("feat: x"), "  \x1b[32m✓ git commit: feat: x\x1b[0m");
    assert_eq!(
        knowledge_query(&vec![say("user", "what is x")], 32_768),
        Some(("what is x".to_string(), 1310))
    );
    assert_eq!(knowledge_query(&vec![say("user", "x")], 100).unwrap().1, 200);
    assert_eq!(knowledge_query(&vec![say("user", "x")], 1_000_000).unwrap().1, 1500);
    assert!(knowledge_query(&vec![], 32_768).is_none());
    assert!(eval_head("classify_accuracy").is_ok());
    assert!(eval_head("none").is_err());
}

#[test]
fn memory_and_guidance_are_bounded() {
    let h = vec![say("user", "fix, write, read and run it")];
    let many: Vec<MemoryItem> = (0..100)
        .map(|i| MemoryItem { title: format!("{i}"), content: "c".repeat(100), ..item() })
        .collect();
    let shown = get_memory_context(&h, &many);
    assert!(shown.len() <= 3200);
    assert!(shown.len() > 3000);
    let cards = select_tool_skill_cards(&h);
    assert!(cards.len() <= 1200);
    assert!(cards.contains(tool_skill_card("patch")));
    assert!(cards.contains(tool_skill_card("write_file")));
    assert!(!cards.contains(tool_skill_card("bash")));
}

#[test]
fn guidance_puts_failures_first() {
    let h = vec![
        calling(vec![tool_call("1", "bash", "{}")]),
        Message::tool_reply("1", "Error: no such file".to_string()),
        say("user", "please read it"),
    ];
    let cards = select_tool_skill_cards(&h);
    assert!(cards.starts_with(&format!("\n\n## Tool guidance\n{}", tool_skill_card("bash"))));
    assert!(cards.contains(tool_skill_card("read_file")));
}

#[test]
fn replies_are_read_from_answers() {
    let a = json(
        "{\"choices\":[{\"message\":{\"role\":\"assistant\",\"content\":null,\"reasoning_content\":\"hm\",\
         \"tool_calls\":[{\"id\":\"1\",\"function\":{\"name\":\"bash\",\"arguments\":\"{}\"}},{\"id\":2}]}}]}",
    );
    let m = reply_of(&a).unwrap();
    assert!(m.has_role("assistant") && m.text().is_none());
    assert!(matches!(m.content, Content::Missing));
    assert_eq!(m.extra.as_deref(), Some("hm"));
    match &m.calls {
        Calls::List(v) => {
            assert_eq!(v[0].name.as_deref(), Some("bash"));
            assert_eq!(v[0].arguments.as_deref(), Some("{}"));
            assert!(v[1].id.is_none() && v[1].name.is_none());
        }
        other => panic!("expected calls, got {other:?}"),
    }
    let m = message_of(&json("{\"content\":[1],\"tool_calls\":null,\"tool_call_id\":\"x\"}"));
    assert!(matches!(&m.content, Content::Other(s) if s == "[1]"));
    assert!(matches!(m.calls, Calls::Malformed));
    assert_eq!(m.tool_call_id.as_deref(), Some("x"));
    assert!(reply_of(&json("{\"choices\":[]}")).is_none());
}

#[test]
fn the_evaluator_hears_of_failures() {
    assert_eq!(run_failed("no bash"), "error: no bash");
    assert_eq!(read_failed("/w/a", "gone"), "error reading /w/a: gone");
}
