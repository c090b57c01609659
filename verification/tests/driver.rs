//! Turns, evaluations and requests as a whole.

use itsy::agent::aftermath::{Outcome, Verdict};
use itsy::agent::contract::{Assertion, AssertionState, Contract};
use itsy::agent::driver::{begin, Action, Driver, Ending, Event, Opening, Phase, Rules};
use itsy::agent::evaluator::{Evaluation, ReplyStep, ResultStep};
use itsy::agent::gate::{Call, Session, Surroundings, Turn};
use itsy::agent::history::{Calls, CompactBudget, Content, Message, ToolCall};
use itsy::agent::reply::TextStep;
use itsy::agent::server::{call_answer, take_line, ServerStep};
use itsy::agent::tools::Pressure;
use itsy::code_graph::indexer::{summarise, IndexStats};
use itsy::executor::contracts::contract_status;
use itsy::features::parse_fenced;

const RULES: Rules = Rules { limit: 10, action_task: false, has_tests: false };

fn say(content: &str) -> Message {
    Message::plain("assistant", content.to_string())
}

fn calling(names: &[&str]) -> Message {
    Message {
        role: Some("assistant".to_string()),
        content: Content::Missing,
        calls: Calls::List(
            names
                .iter()
                .map(|n| ToolCall {
                    id: Some(format!("id-{n}")),
                    name: Some(n.to_string()),
                    arguments: Some("{}".to_string()),
                })
                .collect(),
        ),
        tool_call_id: None,
        extra: None,
    }
}

fn known() -> Vec<String> {
    ["bash", "patch", "write_file", "read_file"].iter().map(|s| s.to_string()).collect()
}

fn reply(m: Message) -> Event {
    Event::Reply { reply: m, known: known(), contract: None }
}

fn read(name: &str) -> Event {
    Event::Read {
        call: Call {
            name: name.to_string(),
            id: format!("id-{name}"),
            path: Some("a.rs".to_string()),
            arguments: "{}".to_string(),
            write_key: String::new(),
            assertion: String::new(),
            state: String::new(),
        },
        around: Surroundings {
            contract_on: false,
            has_contract: false,
            talk: false,
            bash_read_only: true,
            patch_blocked: None,
        },
    }
}

fn result(failed: bool, text: &str) -> Event {
    Event::Result {
        outcome: Outcome {
            failed,
            error: if failed { Some(text.to_string()) } else { None },
            result: Some(text.to_string()),
            category: None,
        },
        pressure: Pressure::Low,
    }
}

fn asked() -> Driver {
    let d = Driver::start(Turn::open(Session::new()));
    let (d, a) = d.advance(Event::Ready { interrupts: 0 }, &RULES);
    assert!(matches!(a, Action::Ask { evict: false }));
    d
}

#[test]
fn a_turn_runs_calls_and_ends_in_words() {
    let (d, a) = asked().advance(reply(calling(&["write_file", "bash"])), &RULES);
    assert!(matches!(a, Action::Read));
    let (d, a) = d.advance(read("write_file"), &RULES);
    assert!(matches!(a, Action::Run { unguarded: false }));
    let (d, a) = d.advance(result(false, "ok"), &RULES);
    assert!(matches!(a, Action::Check { path } if path == "a.rs"));
    let (d, a) = d.advance(
        Event::Checked { verdict: Verdict::Accept, issues: vec!["slow".to_string()] },
        &RULES,
    );
    assert!(matches!(a, Action::Read));
    let (d, a) = d.advance(read("bash"), &RULES);
    assert!(matches!(a, Action::Run { .. }));
    let (d, a) = d.advance(result(true, "Exit code 3"), &RULES);
    assert!(matches!(a, Action::WatchCommand { exit_code: 3 }));
    let (d, a) = d.advance(Event::Signal(None), &RULES);
    assert!(matches!(a, Action::AfterCalls { nudged: None }));
    let shown: Vec<String> = d
        .turn
        .session
        .history
        .iter()
        .map(|m| m.text().cloned().unwrap_or_default())
        .collect();
    assert_eq!(shown.len(), 5);
    assert_eq!(shown[1], "ok");
    assert!(shown[2].starts_with("[SEMANTIC-REVIEW] The edit to a.rs"));
    assert_eq!(shown[3], "Exit code 3");
    assert!(shown[4].starts_with("[AUTO-FIX]"));
    let (d, _) = d.advance(Event::Ready { interrupts: 0 }, &RULES);
    let (d, a) = d.advance(reply(say("done")), &RULES);
    assert!(matches!(a, Action::WatchWords));
    let (d, a) = d.advance(Event::Signal(None), &RULES);
    assert!(matches!(a, Action::End(Ending::Said)));
    assert_eq!(d.turn.calls, 2);
    assert_eq!(d.turn.session.history.last().unwrap().text().unwrap(), "done");
    let (d, a) = d.advance(Event::Ready { interrupts: 0 }, &RULES);
    assert!(matches!(a, Action::Ignore));
    assert!(matches!(d.phase, Phase::Over));
}

#[test]
fn watchers_break_off_the_calls() {
    let (d, _) = asked().advance(reply(calling(&["patch", "bash"])), &RULES);
    let (d, _) = d.advance(read("patch"), &RULES);
    let (d, a) = d.advance(result(true, "call read_file first"), &RULES);
    assert!(matches!(a, Action::WatchPatch { success: true }));
    let (d, a) = d.advance(Event::Signal(Some("stop patching".to_string())), &RULES);
    assert!(matches!(a, Action::AfterCalls { .. }));
    assert!(matches!(d.phase, Phase::Open));
    assert_eq!(d.turn.session.history.last().unwrap().text().unwrap(), "stop patching");
}

#[test]
fn failing_commands_lead_to_another_strategy() {
    let (d, _) = asked().advance(reply(calling(&["bash", "bash", "bash"])), &RULES);
    let mut d = d;
    for i in 0..3 {
        let (next, _) = d.advance(read("bash"), &RULES);
        let (next, a) = next.advance(result(true, "Exit code 1"), &RULES);
        if i < 2 {
            assert!(matches!(a, Action::WatchCommand { .. }));
            let (next, _) = next.advance(Event::Signal(None), &RULES);
            d = next;
        } else {
            assert!(matches!(a, Action::Rethink));
            let (next, a) = next.advance(Event::Strategy("other way".to_string()), &RULES);
            assert!(matches!(a, Action::WatchCommand { .. }));
            d = next;
        }
    }
    assert!(d.turn.session.history.last().unwrap().text().unwrap().ends_with("other way"));
}

#[test]
fn turns_are_stopped() {
    let d = Driver::start(Turn::open(Session::new()));
    let (_, a) = d.advance(Event::Ready { interrupts: 1 }, &RULES);
    assert!(matches!(a, Action::End(Ending::Interrupted)));
    let none = Rules { limit: 0, ..RULES };
    let d = Driver::start(Turn::open(Session::new()));
    let (_, a) = d.advance(Event::Ready { interrupts: 0 }, &none);
    assert!(matches!(a, Action::End(Ending::Limit)));
    let (_, a) = asked().advance(Event::Silence, &RULES);
    assert!(matches!(a, Action::End(Ending::NoReply)));
    let (d, a) = asked().advance(reply(calling(&["fly"])), &RULES);
    assert!(matches!(a, Action::AfterCorrection));
    assert_eq!(d.turn.session.history.len(), 3);
    let (d, a) = asked().advance(Event::Streamed(None), &RULES);
    assert!(matches!(a, Action::Ignore));
    assert!(matches!(d.phase, Phase::Asked));
}

#[test]
fn an_empty_reply_leaves_no_trace() {
    let (d, a) = asked().advance(reply(say("")), &RULES);
    assert!(matches!(a, Action::AfterWords(TextStep::Retry { n: 1 })));
    assert_eq!(d.turn.session.history.len(), 2);
    let (d, _) = d.advance(Event::Ready { interrupts: 0 }, &RULES);
    let (d, a) = d.advance(reply(say("here it is, with a question?")), &RULES);
    assert!(matches!(a, Action::End(Ending::Said)));
    assert_eq!(d.turn.session.history.len(), 1);
}

#[test]
fn evaluations_end_in_a_verdict() {
    let mut e = Evaluation::begin();
    assert_eq!(e.history.len(), 1);
    assert!(matches!(e.take_reply(say("thinking aloud")), ReplyStep::Again));
    assert_eq!(e.turn, 1);
    let m = Message {
        calls: Calls::List(vec![ToolCall {
            id: Some("v".to_string()),
            name: Some("evaluator_verdict".to_string()),
            arguments: Some("{\"passed\":false,\"findings\":\"- broken\"}".to_string()),
        }]),
        ..say("")
    };
    let calls = match e.take_reply(m) {
        ReplyStep::Calls(v) => v,
        other => panic!("expected calls, got {other:?}"),
    };
    match e.take_results(&calls, &vec![("v".to_string(), "noted".to_string())]) {
        ResultStep::Verdict { passed, findings } => {
            assert!(!passed);
            assert_eq!(findings, vec!["broken".to_string()]);
        }
        other => panic!("expected a verdict, got {other:?}"),
    }
}

#[test]
fn evaluations_run_out_of_turns() {
    let mut e = Evaluation::begin();
    for i in 0..50 {
        let calls = match e.take_reply(calling(&["bash"])) {
            ReplyStep::Calls(v) => v,
            other => panic!("expected calls, got {other:?}"),
        };
        let step = e.take_results(&calls, &vec![("id-bash".to_string(), "out".to_string())]);
        if i < 49 {
            assert!(matches!(step, ResultStep::Again));
        } else {
            assert!(matches!(step, ResultStep::Inconclusive));
        }
    }
    let last = e.history.last().unwrap().text().unwrap();
    assert!(last.starts_with("out\n\n[SYSTEM] 0 turn(s) remaining."));
    let mut e = Evaluation::begin();
    for _ in 0..49 {
        assert!(matches!(e.take_reply(say("hm")), ReplyStep::Again));
    }
    assert!(matches!(e.take_reply(say("hm")), ReplyStep::OutOfTurns));
}

fn answer(line: &str) -> String {
    match take_line(line, "1.2.3") {
        ServerStep::Answer(j) => j.write(),
        other => panic!("expected an answer, got {other:?}"),
    }
}

#[test]
fn requests_are_answered() {
    assert_eq!(
        answer("nonsense"),
        "{\"error\":{\"code\":-32700,\"message\":\"Parse error\"},\"id\":null,\"jsonrpc\":\"2.0\"}"
    );
    assert_eq!(
        answer("{\"id\":1,\"method\":\"fly\"}"),
        "{\"error\":{\"code\":-32601,\"message\":\"Unknown method: fly\"},\"id\":1,\"jsonrpc\":\"2.0\"}"
    );
    assert_eq!(
        answer("{\"id\":\"a\",\"method\":\"initialize\"}"),
        "{\"id\":\"a\",\"jsonrpc\":\"2.0\",\"result\":{\"capabilities\":{\"tools\":{}},\"protocolVersion\":\"2024-11-05\",\"serverInfo\":{\"name\":\"itsy\",\"version\":\"1.2.3\"}}}"
    );
    let tools = parse_fenced(&answer("{\"id\":2,\"method\":\"tools/list\"}")).unwrap();
    assert_eq!(
        tools.pointer("result/tools/1").unwrap().write(),
        "{\"description\":\"Search code with regex\",\"inputSchema\":{\"properties\":{\"path\":{\"type\":\"string\"},\"pattern\":{\"type\":\"string\"}},\"required\":[\"pattern\"],\"type\":\"object\"},\"name\":\"itsy_search\"}"
    );
    match take_line("{\"id\":3,\"method\":\"tools/call\",\"params\":{\"name\":\"itsy_bash\"}}", "1") {
        ServerStep::Call { id, name, arguments } => {
            assert_eq!(name, "itsy_bash");
            assert_eq!(arguments.write(), "{}");
            assert_eq!(
                call_answer(&id, "out").write(),
                "{\"id\":3,\"jsonrpc\":\"2.0\",\"result\":{\"content\":[{\"text\":\"out\",\"type\":\"text\"}]}}"
            );
        }
        other => panic!("expected a call, got {other:?}"),
    }
}

#[test]
fn summaries_are_given() {
    let stats = IndexStats { files_indexed: 2, symbols_inserted: 3, ..IndexStats::default() };
    let s = summarise("r".to_string(), "/r".to_string(), &stats, vec!["rust".to_string()]);
    assert_eq!((s.file_count, s.symbol_count), (2, 3));
    let c = Contract {
        id: "k".to_string(),
        title: String::new(),
        brief: String::new(),
        active: true,
        assertions: vec![Assertion {
            id: "A".to_string(),
            text: String::new(),
            state: AssertionState::Pending,
            evidence: None,
            last_check: None,
        }],
    };
    assert_eq!(
        contract_status("shown", "active", &c).write(),
        "{\"contract_id\":\"k\",\"counts\":{\"failed\":0,\"passed\":0,\"pending\":1,\"skipped\":0,\"total\":1},\"result\":\"shown\",\"status\":\"active\"}"
    );
}

fn opening(request: &str) -> Opening {
    Opening {
        request: request.to_string(),
        references: " @refs".to_string(),
        diff: String::new(),
        contract_on: true,
        has_contract: false,
        chatty: false,
        talk: false,
        label: "coding".to_string(),
        budget: CompactBudget { soft_limit: 100, target: 50, shown: 120 },
    }
}

#[test]
fn turns_are_opened() {
    let (d, task, compacted) = begin(Session::new(), &opening("fix it"));
    assert_eq!(task, "coding");
    assert!(!compacted);
    assert_eq!(d.turn.session.category, None);
    let said = d.turn.session.history[0].text().unwrap();
    assert!(said.starts_with("Define what 'done' means"));
    assert!(said.ends_with("TASK:\nfix it @refs"));
    let chat = Opening { chatty: true, talk: true, ..opening("hello") };
    let (d, task, _) = begin(Session::new(), &chat);
    assert_eq!(task, "explanation");
    assert_eq!(d.turn.session.category.as_deref(), Some("respond"));
    let (d, _, _) = begin(d.turn.close(), &opening("yes"));
    assert_eq!(d.turn.session.category.as_deref(), Some("plan"));
    let mut s = Session::new();
    for i in 0..20 {
        s.history.push(Message::plain("user", format!("{i} {}", "x".repeat(80))));
    }
    let (d, _, compacted) = begin(s, &Opening { has_contract: true, ..opening("go on") });
    assert!(compacted);
    assert_eq!(d.turn.session.history.last().unwrap().text().unwrap(), "go on @refs");
    assert_eq!(
        d.turn.session.history[0].text().unwrap(),
        "[Context compacted to fit 120 token budget]"
    );
    assert_eq!(d.turn.session.history.len(), 7);
}
