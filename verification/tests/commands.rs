//! Slash commands.

use itsy::agent::history::{Calls, Content, Message};
use itsy::agent::mcp::MemoryItem;
use itsy::commands::lists::{
    cmd_diff, cmd_files, cmd_plan, cmd_plugin, cmd_profile, git_failed, git_overview, git_ran,
    list_names, lsp_reply, memory_cleared, memory_dropped, memory_kept, memory_list, memory_stats,
    plan_lsp, plan_memory, plan_trace, trace_list, trace_replay, trace_started, trace_stopped,
    trace_test_path, trace_tested, LspCommand, MemoryCommand, PluginInfo, Profile, TraceCommand, TraceEntry,
    TraceRecord, TraceStep,
};
use itsy::commands::sessions::{
    checkpoint_label, checkpoint_set, disable_skill, enable_skill, format_age, gist_reply,
    parallel_begun, parallel_killed, parallel_list, parallel_switched, plan_session, plan_sessions,
    plan_share, plan_skill, plan_undo, resumed, rollback_reason, rolled_back, sessions_list,
    refuse_share, share_file, share_reply, share_title, skill_added, skill_list, skill_missing, skill_removed, undo_all_reply,
    undo_list, undo_reply, ParallelSession, Rollback, SavedSession, SessionCommand,
    SessionsCommand, ShareCommand, SkillCommand, SkillEntry, UndoCommand, UndoEntry, Undone,
};
use itsy::commands::{
    absent, cleared, cmd_auto_approve, cmd_budget, cmd_compact, cmd_endpoint, cmd_escalation, cmd_stats,
    cmd_tokens, cmd_web, help_text, indent, list_models, models_url, parse_command, plan_eval,
    read_toggle, switch_model, unknown_command, Command, EvalPlan, ModelsAnswer, Store,
    Toggle, Usage,
};
use itsy::config::Config;
use itsy::escalation::{EscalationEngine, EscalationOptions};
use itsy::features::parse_fenced;
use itsy::json::Json;

fn json(s: &str) -> Json {
    parse_fenced(s).expect("valid JSON")
}

fn words(s: &str) -> Vec<String> {
    s.split_whitespace().map(|w| w.to_string()).collect()
}

fn message(role: &str, content: &str) -> Message {
    Message {
        role: Some(role.to_string()),
        content: Content::Text(content.to_string()),
        calls: Calls::Absent,
        tool_call_id: None,
        extra: None,
    }
}

#[test]
fn commands_are_recognised() {
    let p = parse_command("  /memory  remember  gotcha  x ");
    assert_eq!(p.command, Command::Memory);
    assert_eq!(p.head, "/memory");
    assert_eq!(p.rest, words("remember gotcha x"));
    assert_eq!(parse_command("/q").command, Command::Quit);
    assert_eq!(parse_command("/exit").command, Command::Quit);
    assert_eq!(parse_command("/multi").command, Command::Session);
    assert_eq!(parse_command("/skills").command, Command::Skill);
    assert_eq!(parse_command("/?").command, Command::Help);
    assert_eq!(parse_command("").command, Command::Unknown);
    assert_eq!(unknown_command("/fly"), "  Unknown command: /fly. Try /help\n\n");
    assert_eq!(cleared(), "  ✓ Session cleared.\n\n");
    assert!(help_text().contains("/rollback [reason]   Restore last snapshot\n"));
}

#[test]
fn models_are_listed_and_switched() {
    assert_eq!(models_url("http://h/v1//"), "http://h/v1/models");
    let out = list_models(
        "b",
        "http://h",
        &ModelsAnswer::List(json("{\"models\":[{\"name\":\"a\"},{\"id\":\"b\"},{}]}")),
    );
    assert_eq!(
        out,
        "  Current: b\n  Endpoint: http://h\n\n  Fetching available models... 3 found\n\n    a\n    b ← active\n    \n\n  Switch: /model <name>\n\n"
    );
    assert!(list_models("b", "h", &ModelsAnswer::Status(404)).ends_with("failed (HTTP 404)\n\n"));
    assert!(list_models("b", "h", &ModelsAnswer::Error("no".to_string())).ends_with("error: no\n\n"));
    let mut c = Config::default();
    assert_eq!(switch_model(&mut c, &words("my model")), "  ✓ Switched to my model\n\n");
    assert_eq!(c.model.name, "my model");
    assert_eq!(
        cmd_endpoint(&mut c, &vec![]),
        "  Current: http://localhost:1234/v1\n  Switch: /endpoint http://host:port/v1\n\n"
    );
    assert_eq!(cmd_endpoint(&mut c, &words("http://x y")), "  ✓ Endpoint: http://x\n\n");
    assert_eq!(c.model.base_url, "http://x");
}

#[test]
fn usage_is_shown() {
    let u = Usage { prompt: 10, completion: 5, total: 15, calls: 2, cost: "0.0012".to_string() };
    let mut c = Config::default();
    c.model.name = "m".to_string();
    let s = cmd_stats(&c, 4, "/work", &u, &Some("short".to_string()));
    assert_eq!(
        s,
        "  Model:    m\n  Endpoint: http://localhost:1234/v1\n  History:  4 messages\n  Dir:      /work\n  Tokens:   10 prompt + 5 completion = 15 total\n  Monitor:  short\n\n"
    );
    assert_eq!(
        cmd_tokens(&u, &None),
        "  prompt: 10 | completion: 5 | total: 15 | calls: 2 | cost: $0.0012\n\n"
    );
    assert_eq!(cmd_tokens(&u, &Some("a\nb".to_string())), "  a\n  b\n\n");
    assert_eq!(indent("a\nb", "> "), "> a\n> b");
}

#[test]
fn budget_is_shown() {
    let mut c = Config::default();
    c.context.detected_window = 1000;
    c.context.max_budget_pct = 50;
    let h = vec![
        json(&format!("{{\"content\":\"{}\"}}", "x".repeat(401))),
        json("{\"content\":[1]}"),
        json("{}"),
    ];
    let out = cmd_budget(&c, &h, Some((1, 2)));
    assert_eq!(
        out,
        "  Context Budget\n  Window:    1000 tokens\n  Budget:    500 tokens (50%)\n  Used:      102 tokens (~20%)\n  [████░░░░░░░░░░░░░░░░]\n  Compacts:  1 | Evictions: 2\n\n"
    );
    c.context.max_budget_pct = 0;
    assert!(cmd_budget(&c, &vec![], None).contains("Budget:    700 tokens (70%)"));
}

#[test]
fn history_is_compacted() {
    let mut h: Vec<u32> = (0..12).collect();
    assert_eq!(cmd_compact(&mut h), "  ✓ Removed 6 old messages, kept last 6.\n\n");
    assert_eq!(h, vec![6, 7, 8, 9, 10, 11]);
    assert_eq!(cmd_compact(&mut h), "  Short history (6 msgs), nothing to compact.\n\n");
}

#[test]
fn escalation_is_toggled() {
    let mut e =
        EscalationEngine::new(&EscalationOptions::default(), &vec![None, Some("k".to_string()), None]);
    assert_eq!(
        cmd_escalation(&mut e, &vec![]),
        "  ⬆ Escalation: enabled\n  OpenAI (gpt-5.4-mini) — 0/5 used\n  Confirm: yes (will ask)\n\n"
    );
    assert_eq!(cmd_escalation(&mut e, &words("off")), "  ✓ Escalation disabled.\n\n");
    assert!(!e.enabled);
    assert!(cmd_escalation(&mut e, &vec![]).starts_with("  Escalation: disabled\n"));
    assert!(cmd_escalation(&mut e, &words("enable")).starts_with("  ✓ Escalation enabled. OpenAI"));
    assert!(e.enabled);
}

#[test]
fn switches_are_read() {
    assert_eq!(read_toggle(&words("on")), Toggle::On);
    assert_eq!(read_toggle(&words("disable")), Toggle::Off);
    assert_eq!(read_toggle(&vec![]), Toggle::Show);
    assert_eq!(
        cmd_web(Toggle::On, ""),
        "  ✓ Web browsing enabled (ITSY_WEB_BROWSE=true).\n\n"
    );
    assert_eq!(cmd_web(Toggle::Show, "false"), "  Web browsing: false\n  /web on | /web off\n\n");
    assert_eq!(cmd_auto_approve(Toggle::Off, ""), "  ✓ Auto-approve disabled.\n\n");
    assert!(matches!(plan_eval(&vec![]), EvalPlan::Classify));
    match plan_eval(&words("tool_selection")) {
        EvalPlan::Say(s) => assert_eq!(
            s,
            "  Suite 'tool_selection' requires model integration.\n  Currently available offline: classify_accuracy.\n\n"
        ),
        other => panic!("expected words, got {other:?}"),
    }
    assert!(matches!(plan_eval(&words("nope")), EvalPlan::Say(s) if s.starts_with("  Unknown suite: nope")));
}

fn item(kind: &str, title: &str, id: &str) -> MemoryItem {
    MemoryItem {
        id: id.to_string(),
        kind: kind.to_string(),
        title: title.to_string(),
        content: "c".to_string(),
    }
}

#[test]
fn memory_commands() {
    assert!(matches!(plan_memory(&vec![]), MemoryCommand::List));
    assert!(matches!(plan_memory(&words("clear")), MemoryCommand::Clear));
    assert!(matches!(plan_memory(&words("stats")), MemoryCommand::Stats));
    assert!(matches!(plan_memory(&words("forget i")), MemoryCommand::Forget(s) if s == "i"));
    match plan_memory(&words("remember k t a b")) {
        MemoryCommand::Remember { kind, title, content } => {
            assert_eq!((kind.as_str(), title.as_str(), content.as_str()), ("k", "t", "a b"));
        }
        other => panic!("expected a memory, got {other:?}"),
    }
    assert!(matches!(plan_memory(&words("remember k t")), MemoryCommand::Say(s) if s.starts_with("  Usage: /memory remember")));
    assert!(matches!(plan_memory(&words("dance")), MemoryCommand::Say(s) if s.starts_with("  Unknown subcommand: dance\n")));
    assert_eq!(
        memory_list(&vec![item("k", "t", "i")]),
        "  Project memory (1 objects):\n    [k] t (i)\n\n"
    );
    assert!(memory_list(&vec![]).starts_with("  No memory stored."));
    assert_eq!(memory_cleared(), "  ✓ Memory cleared.\n\n");
    assert_eq!(memory_kept(&item("k", "t", "i")), "  ✓ Remembered [k] t (i)\n\n");
    assert_eq!(memory_dropped("i", true), "  ✓ Forgot i\n\n");
    assert_eq!(memory_dropped("i", false), "  Memory i not found.\n\n");
    assert_eq!(
        memory_stats(3, &vec![("a".to_string(), 2), ("b".to_string(), 1)]),
        "  Memory: 3 objects\n    a: 2\n    b: 1\n\n"
    );
}

#[test]
fn profiles_are_shown() {
    let p = Profile {
        matched_key: None,
        context_length: 8192,
        max_output: 1024,
        tool_format: "openai".to_string(),
        strengths: words("fast small"),
        weaknesses: vec![],
    };
    assert_eq!(
        cmd_profile("m", &p, "auto"),
        "  Model Profile\n  Model:     m\n  Matched:   none (using defaults)\n  Context:   8192 tokens\n  Max out:   1024 tokens\n  Tools:     openai\n  Routing:   auto\n  Strengths: fast, small\n\n"
    );
}

#[test]
fn traces_are_listed_and_replayed() {
    assert!(matches!(plan_trace(&words("start a b")), TraceCommand::Start(s) if s == "a b"));
    assert!(matches!(plan_trace(&words("start")), TraceCommand::Start(s) if s.is_empty()));
    assert!(matches!(plan_trace(&vec![]), TraceCommand::List));
    assert!(matches!(plan_trace(&words("show x")), TraceCommand::Replay(s) if s == "x"));
    assert!(matches!(plan_trace(&words("test")), TraceCommand::Say(s) if s == "  Usage: /trace test <id>\n\n"));
    assert_eq!(trace_started("t"), "  ✓ Trace started: t\n\n");
    assert_eq!(trace_stopped(&None), "  No active trace.\n\n");
    assert_eq!(trace_stopped(&Some(("t".to_string(), 3))), "  ✓ Trace stopped: t (3 steps)\n\n");
    let many: Vec<TraceEntry> = (0..20)
        .map(|i| TraceEntry {
            id: format!("t{i}"),
            prompt: "p".to_string(),
            steps: 2,
            prompt_tokens: 3,
            completion_tokens: 4,
            duration_ms: None,
        })
        .collect();
    let out = trace_list(&many);
    assert!(out.starts_with("  Traces (20):\n    t0 p (2 steps, 7 tok, 0ms)\n"));
    assert_eq!(out.lines().count(), 17);
    let t = TraceRecord {
        id: "t".to_string(),
        prompt: "p".repeat(100),
        model: "m".to_string(),
        prompt_tokens: 1,
        completion_tokens: 2,
        steps: vec![
            TraceStep::ToolCall { name: "bash".to_string(), duration_ms: 9 },
            TraceStep::Validation { file_path: "a.rs".to_string(), passed: false },
            TraceStep::ModelResponse { tool_calls: 2 },
            TraceStep::ChatRequest { message_count: 3, tool_count: 4 },
            TraceStep::Classification {
                task_type: "coding".to_string(),
                tool_category: None,
                confidence: "0.90".to_string(),
            },
            TraceStep::Error { scope: "s".to_string(), message: "e".to_string() },
        ],
    };
    let want = format!(
        "  Trace t\n  Prompt: {}\n  Model:  m\n  Tokens: 1p + 2c\n  Steps:\n    ⚙ bash (9ms)\n    ✗ validate a.rs\n    ✎ model response (2 tool calls)\n    → chat request (3 msgs, 4 tools)\n    🧭 routed → task=coding cat=· (conf 0.90)\n    ✗ error [s]: e\n\n",
        "p".repeat(80)
    );
    assert_eq!(trace_replay("t", &Some(t)), want);
    assert_eq!(trace_replay("t", &None), "  Trace t not found.\n\n");
    assert_eq!(trace_tested("t", &None), "  Cannot generate test from trace t.\n\n");
    assert_eq!(trace_tested("t", &Some(Ok("p.js".to_string()))), "  ✓ Generated p.js\n\n");
    assert_eq!(trace_tested("t", &Some(Err("e".to_string()))), "  ✗ Failed to write: e\n\n");
}

#[test]
fn files_and_changes_are_listed() {
    assert_eq!(cmd_diff(&None), "  Not a git repo.\n\n");
    assert_eq!(cmd_diff(&Some(" \n".to_string())), "  No uncommitted changes.\n\n");
    assert_eq!(cmd_diff(&Some(" a | 1\n b | 2\n".to_string())), "  Changes:\n  a | 1\n   b | 2\n\n");
    assert!(git_overview(&None).starts_with("  /git status"));
    assert_eq!(git_overview(&Some("block".to_string())), "block\n");
    assert_eq!(git_ran("out", "err", false), "outerr\n");
    assert_eq!(git_ran("out\n", "err", true), "out\n");
    assert_eq!(git_failed("gone"), "  git error: gone\n\n");
    let listing: String = (0..32).map(|i| format!("f{i}\n")).collect();
    let out = cmd_files(&listing);
    assert!(out.starts_with("  Project files (32):\n    f0\n"));
    assert!(out.ends_with("    f29\n    ... (2 more)\n\n"));
    assert_eq!(list_names(&words("a b")), "    a\n    b\n\n");
    assert_eq!(cmd_plan(&None), "  No active plan.\n\n");
    assert_eq!(cmd_plan(&Some("a\nb".to_string())), "  Plan:\n    a\n    b\n\n");
}

#[test]
fn servers_and_plugins() {
    assert!(matches!(plan_lsp(&vec![]), LspCommand::Status));
    assert!(matches!(plan_lsp(&words("start")), LspCommand::Start));
    assert_eq!(lsp_reply(LspCommand::Start, true), "  ✓ LSP started.\n\n");
    assert_eq!(lsp_reply(LspCommand::Status, false), "  LSP: not initialized. Use /lsp start.\n\n");
    let p = PluginInfo {
        name: "p".to_string(),
        version: "1".to_string(),
        description: "d".to_string(),
        tools: words("a b"),
        commands: vec![],
    };
    assert_eq!(
        cmd_plugin(&vec![], &vec![p]),
        "  Plugins (1):\n    p v1 — d\n      Tools: a, b\n\n"
    );
    assert_eq!(cmd_plugin(&words("what"), &vec![]), "  /plugin list   Show installed plugins\n\n");
}

#[test]
fn a_session_can_be_without_its_stores() {
    assert_eq!(absent(Store::Undo), "  Undo stack not available in this session.\n\n");
    assert_eq!(absent(Store::Sessions), "  Session store not wired up.\n\n");
    assert_eq!(absent(Store::Parallel), "  Multi-session not wired up.\n\n");
    assert_eq!(absent(Store::Lsp), "  LSP client not wired up.\n\n");
    assert_eq!(absent(Store::Snapshots), "  Snapshot manager not wired up.\n\n");
}

#[test]
fn edits_are_undone() {
    assert!(matches!(plan_undo(&words("list")), UndoCommand::List));
    assert!(matches!(plan_undo(&words("all")), UndoCommand::All));
    assert!(matches!(plan_undo(&words("12")), UndoCommand::Edit(12)));
    assert!(matches!(plan_undo(&words("99999999999999999999999")), UndoCommand::Edit(0)));
    assert!(matches!(plan_undo(&words("x")), UndoCommand::Last));
    let e = UndoEntry { id: 4, path: "a".to_string(), kind: "Write".to_string(), age_secs: 9 };
    assert!(undo_list(&vec![e]).starts_with("  Recent edits:\n    #4 a (Write, 9s ago)\n\n"));
    assert_eq!(undo_list(&vec![]), "  No edits to undo.\n\n");
    let ok = Undone { reverted: Some("a".to_string()), action: "restored".to_string(), error: None };
    assert_eq!(undo_reply(&Some(ok), true), "  ✓ Reverted a: restored\n\n");
    let bad = Undone { reverted: None, action: String::new(), error: Some("gone".to_string()) };
    assert_eq!(undo_reply(&Some(bad), false), "  gone\n\n");
    assert_eq!(undo_reply(&None, false), "  Edit not found.\n\n");
    assert_eq!(undo_reply(&None, true), "  No edits to undo. Use /undo all for git revert.\n\n");
    assert_eq!(undo_all_reply(&Ok(true)), "  ✓ Reverted all uncommitted changes.\n\n");
    assert_eq!(undo_all_reply(&Ok(false)), "  Not a git repo (or git checkout failed).\n\n");
    assert_eq!(undo_all_reply(&Err("e".to_string())), "  ✗ e\n\n");
}

#[test]
fn sessions_are_shared() {
    assert!(matches!(plan_share(&vec![]), ShareCommand::Plain));
    assert!(matches!(plan_share(&words("md")), ShareCommand::Markdown));
    assert!(matches!(plan_share(&words("gist")), ShareCommand::Gist));
    assert!(matches!(plan_share(&words("out.html")), ShareCommand::Path(s) if s == "out.html"));
    let h = vec![message("system", "s"), message("user", &"u".repeat(50))];
    assert_eq!(share_title(&h), "u".repeat(40));
    assert_eq!(refuse_share(&h), None);
    assert_eq!(refuse_share(&vec![]), Some("  No session to share.\n\n"));
    assert_eq!(share_file(&ShareCommand::Plain, 12).as_deref(), Some("itsy-session-12.md"));
    assert_eq!(share_file(&ShareCommand::Markdown, 12).as_deref(), Some("itsy-session-12.md"));
    assert_eq!(share_file(&ShareCommand::Json, 12).as_deref(), Some("itsy-session-12.json"));
    assert_eq!(share_file(&ShareCommand::Html, 12).as_deref(), Some("itsy-session-12.html"));
    assert_eq!(share_file(&ShareCommand::Path("x.md".to_string()), 12).as_deref(), Some("x.md"));
    assert_eq!(share_file(&ShareCommand::Gist, 12), None);
    assert_eq!(trace_test_path("7"), ".test-workspace/trace_7.test.js");
    assert_eq!(share_reply(&Ok("p".to_string())), "  ✓ Exported to p\n\n");
    assert_eq!(gist_reply(true, &None, &None), "  ✓ Shared: <no url>\n\n");
    assert_eq!(gist_reply(false, &None, &None), "  Failed: unknown\n\n");
}

#[test]
fn saved_sessions_are_listed() {
    assert!(matches!(plan_sessions(&words("load x")), SessionsCommand::Resume(s) if s == "x"));
    assert!(matches!(plan_sessions(&words("resume")), SessionsCommand::Say(_)));
    assert!(matches!(plan_sessions(&words("new")), SessionsCommand::New));
    assert!(matches!(plan_sessions(&words("any")), SessionsCommand::List));
    assert_eq!(resumed("x", &Some((None, 3))), "  ✓ Resumed \"untitled\" (3 msgs)\n\n");
    assert_eq!(resumed("x", &None), "  Session x not found.\n\n");
    assert_eq!(format_age(0, 59 * 60_000), "59m ago");
    assert_eq!(format_age(0, 60 * 60_000), "1h ago");
    assert_eq!(format_age(0, 3 * 1440 * 60_000), "3d ago");
    assert_eq!(format_age(10, 0), "0m ago");
    let s = SavedSession {
        id: "0123456789".to_string(),
        title: None,
        messages: 2,
        updated_at: "1970-01-01T00:00:00Z".to_string(),
    };
    let odd = SavedSession {
        id: "9".to_string(),
        title: Some("t".to_string()),
        messages: 0,
        updated_at: "long ago".to_string(),
    };
    assert!(sessions_list(&vec![odd], 120_000).contains("    9 t (0 msgs · 0m ago)\n"));
    assert_eq!(
        sessions_list(&vec![s], 120_000),
        "  Sessions (1):\n    01234567 untitled (2 msgs · 2m ago)\n\n  Resume: /sessions resume <id>\n  New:    /sessions new\n\n"
    );
    assert_eq!(sessions_list(&vec![], 0), "  No saved sessions.\n\n");
}

#[test]
fn parallel_sessions_are_managed() {
    assert!(matches!(plan_session(&vec![]), SessionCommand::List));
    assert!(matches!(plan_session(&words("new a b")), SessionCommand::New(Some(s)) if s == "a b"));
    assert!(matches!(plan_session(&words("new")), SessionCommand::New(None)));
    assert!(matches!(plan_session(&words("switch 1")), SessionCommand::Switch(s) if s == "1"));
    assert!(matches!(plan_session(&words("kill")), SessionCommand::Say(_)));
    let s = ParallelSession {
        id: "1".to_string(),
        title: "t".to_string(),
        messages: 2,
        age_secs: 3,
        active: true,
    };
    assert_eq!(parallel_list(&vec![s]), "  Parallel sessions (1):\n   ● 1 t (2 msgs, 3s)\n\n");
    assert_eq!(parallel_begun("1", "t"), "  ✓ New session 1: t\n\n");
    assert_eq!(
        parallel_switched("1", &Some(("1".to_string(), "t".to_string()))),
        "  ✓ Switched to 1: t\n\n"
    );
    assert_eq!(parallel_switched("1", &None), "  Session 1 not found.\n\n");
    assert_eq!(parallel_killed("1", true), "  ✓ Killed 1\n\n");
    assert_eq!(parallel_killed("1", false), "  Not found: 1\n\n");
}

#[test]
fn skills_come_and_go() {
    assert!(matches!(plan_skill(&words("use s")), SkillCommand::Enable(s) if s == "s"));
    match plan_skill(&words("add s")) {
        SkillCommand::Add { content, .. } => assert_eq!(content, "Describe the skill behavior here."),
        other => panic!("expected an addition, got {other:?}"),
    }
    assert!(matches!(plan_skill(&words("remove")), SkillCommand::Say(_)));
    let mut h = vec![message("user", "u")];
    assert_eq!(
        enable_skill(&mut h, "s", "do"),
        "  ✓ Skill \"s\" activated for this conversation.\n\n"
    );
    assert_eq!(h.len(), 2);
    let (h, said) = disable_skill(h, "s");
    assert_eq!(said, "  ✓ Skill \"s\" disabled in this session.\n\n");
    assert_eq!(h.len(), 1);
    let (h, said) = disable_skill(h, "s");
    assert_eq!(said, "  Skill \"s\" was not active.\n\n");
    assert_eq!(h.len(), 1);
    let e = SkillEntry { name: "s".to_string(), trigger: "manual".to_string(), preview: "p".to_string() };
    assert_eq!(skill_list(&vec![e]), "  Skills (1):\n    s [manual] p\n\n");
    assert_eq!(skill_missing("s"), "  Skill \"s\" not found.\n\n");
    assert_eq!(skill_removed("s"), "  ✓ Removed \"s\"\n\n");
    assert_eq!(skill_added("s", &Err("e".to_string())), "  ✗ Failed: e\n\n");
}

#[test]
fn checkpoints_are_reported() {
    assert_eq!(checkpoint_label(&vec![]), "manual");
    assert_eq!(checkpoint_set(&Some("c".to_string()), "a b"), "  ✓ Checkpoint c (a b)\n\n");
    assert_eq!(checkpoint_set(&None, "x"), "  Snapshots disabled (ITSY_SNAPSHOT=false).\n\n");
    assert_eq!(rollback_reason(&words("a b")), "a b");
    let mut s = Rollback {
        checkpoint_id: String::new(),
        label: "l".to_string(),
        restored: 1,
        deleted: 2,
        errors: 1,
        skipped: 0,
    };
    assert_eq!(rolled_back(&s), "  No active checkpoint to roll back.\n\n");
    s.checkpoint_id = "c".to_string();
    assert_eq!(
        rolled_back(&s),
        "  ✓ Rolled back checkpoint c (l): restored 1, deleted 2\n  Errors: 1\n\n"
    );
}
