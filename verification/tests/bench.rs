//! The board of a benchmark job.

use itsy::bench::log::{load_rich_log, parse_contract, read_contract, read_log, tool_arg_hint, LogKind, LogLine};
use itsy::bench::view::{
    assertion_label, assertion_mark, elapsed, fit, footer, left_heights, log_color, log_position,
    log_title, model_short, shown_log, shows_message, status_icon, status_mark, task_label,
    trials_title, Rgb, KEYS_TEXT,
};
use itsy::bench::{
    containers_of, count_trials, detect_model, find_trial, harbor_arguments, job_name, key_of,
    kill_report, list_failed, read_model, seconds_since, settle_start, status_of, task_of, Board, BoardKey, Trial, TrialStatus,
};
use itsy::features::parse_fenced;
use itsy::json::Json;

fn json(s: &str) -> Json {
    parse_fenced(s).expect("valid JSON")
}

fn words(s: &str) -> Vec<String> {
    s.split_whitespace().map(|w| w.to_string()).collect()
}

fn trial(name: &str, status: TrialStatus) -> Trial {
    Trial {
        name: name.to_string(),
        task: task_of(name).unwrap_or_default(),
        status,
        reward: None,
        contract: vec![],
    }
}

fn board(names: &[&str]) -> Board {
    let mut b = Board::new("job".to_string(), "org/model".to_string());
    b.take_trials(names.iter().map(|n| trial(n, TrialStatus::Pending)).collect());
    b
}

fn log(n: usize) -> Vec<LogLine> {
    (0..n).map(|i| LogLine { kind: LogKind::Text, text: format!("l{i}") }).collect()
}

#[test]
fn trials_are_told_by_their_files() {
    assert_eq!(task_of("a__b__xyz").unwrap(), "a__b");
    assert!(task_of("plain").is_none());
    assert_eq!(status_of(true, true, false), TrialStatus::Passed);
    assert_eq!(status_of(true, false, true), TrialStatus::Failed);
    assert_eq!(status_of(false, false, true), TrialStatus::Running);
    assert_eq!(status_of(false, false, false), TrialStatus::Pending);
}

#[test]
fn trials_are_sorted_and_the_selection_follows() {
    let mut b = board(&["b__1", "a__1"]);
    assert_eq!(b.trials[0].name, "a__1");
    assert_eq!(b.selected, Some(0));
    b.scroll_down();
    assert_eq!(b.selected_trial().unwrap().name, "b__1");
    b.scroll_down();
    assert_eq!(b.selected, Some(1));
    b.take_trials(vec![
        trial("b__1", TrialStatus::Passed),
        trial("a__1", TrialStatus::Failed),
        trial("ab__1", TrialStatus::Passed),
    ]);
    assert_eq!(b.selected, Some(2));
    assert_eq!(b.selected_trial().unwrap().name, "b__1");
    assert_eq!(count_trials(&b.trials, TrialStatus::Passed), 2);
    assert_eq!(find_trial(&b.trials, "ab__1"), Some(1));
    assert_eq!(find_trial(&b.trials, "zz"), None);
    b.scroll_up();
    b.scroll_up();
    b.scroll_up();
    assert_eq!(b.selected, Some(0));
    let mut empty = Board::new("j".to_string(), "m".to_string());
    empty.scroll_down();
    assert_eq!(empty.selected, None);
    empty.scroll_up();
    assert_eq!(empty.selected, Some(0));
    assert!(empty.selected_trial().is_none());
}

#[test]
fn the_log_scrolls_and_follows() {
    let mut b = board(&["a__1"]);
    assert!(b.log_changed("a__1", 1));
    b.take_log(log(30), "a__1", 1);
    assert!(!b.log_changed("a__1", 1));
    assert_eq!(b.log_scroll, 29);
    b.log_scroll_down();
    assert_eq!(b.log_scroll, 29);
    b.log_page_up();
    assert_eq!(b.log_scroll, 19);
    b.take_log(log(40), "a__1", 2);
    assert_eq!(b.log_scroll, 19);
    b.log_page_down();
    b.log_page_down();
    assert_eq!(b.log_scroll, 39);
    b.log_page_down();
    assert_eq!(b.log_scroll, 39);
    b.take_log(log(50), "a__1", 3);
    assert_eq!(b.log_scroll, 49);
    b.log_top();
    assert_eq!(b.log_scroll, 0);
    b.log_scroll_up();
    assert_eq!(b.log_scroll, 0);
    b.log_bottom();
    assert_eq!(b.log_scroll, 49);
    assert_eq!(shown_log(&b, 12), (40, 50));
    assert_eq!(log_position(&b, 12), " 50/50 ");
    assert_eq!(log_position(&b, 60), "");
    assert_eq!(log_title(&b), " a__1 ");
}

#[test]
fn keys_of_the_board() {
    assert_eq!(key_of('q', false), BoardKey::Quit);
    assert_eq!(key_of('c', true), BoardKey::Quit);
    assert_eq!(key_of('c', false), BoardKey::Other);
    assert_eq!(key_of('j', false), BoardKey::Down);
    assert_eq!(key_of('k', true), BoardKey::Up);
    assert_eq!(key_of('d', true), BoardKey::PageDown);
    assert_eq!(key_of('u', false), BoardKey::Other);
    assert_eq!(key_of('g', false), BoardKey::Top);
    assert_eq!(key_of('G', false), BoardKey::Bottom);
    assert_eq!(key_of('r', false), BoardKey::Reload);
    assert_eq!(key_of('K', false), BoardKey::Kill);
}

#[test]
fn conversations_become_logs() {
    let chat = json(
        "{\"request\":{\"messages\":[\
         {\"role\":\"user\",\"content\":\"the whole task\"},\
         {\"role\":\"user\",\"content\":\"[SYSTEM] hurry\"},\
         {\"role\":\"assistant\",\"reasoning_content\":\" one\\n\\n two \",\"content\":\"say\\nmore\",\"tool_calls\":[\
           {\"function\":{\"name\":\"bash\",\"arguments\":\"{\\\"command\\\":\\\"ls\\\\npwd\\\"}\"}},\
           {\"function\":{\"name\":\"read_file\",\"arguments\":\"{\\\"path\\\":\\\"a/b.rs\\\"}\"}},\
           {\"function\":{\"name\":\"other\"}}]},\
         {\"role\":\"tool\",\"content\":\"{\\\"result\\\":\\\"a\\\\nb\\\\n\\\\nd\\\\ne\\\\nf\\\"}\"},\
         {\"role\":\"tool\",\"content\":\"Error: no\"}]}}",
    );
    let lines = load_rich_log(&chat);
    let shown: Vec<&str> = lines.iter().map(|l| l.text.as_str()).collect();
    assert_eq!(
        shown,
        vec![
            "◆ hurry",
            "~ one two",
            "▷ say",
            "▷ more",
            "⚙ bash $ ls",
            "⚙ read_file (b.rs)",
            "⚙ other",
            "✓ a",
            "  b",
            "  d",
            "  … +2 lines",
            "✗ Error: no"
        ]
    );
    assert_eq!(lines[11].kind, LogKind::ToolErr);
    assert_eq!(lines[0].kind, LogKind::Nudge);
    assert!(read_log("nonsense").is_empty());
    assert!(read_log("{}").is_empty());
    assert_eq!(tool_arg_hint(&json("{\"function\":{\"name\":\"bash\",\"arguments\":\"x\"}}")), "");
    let long = json(&format!(
        "{{\"request\":{{\"messages\":[{{\"role\":\"assistant\",\"reasoning_content\":\"{}\"}}]}}}}",
        "t".repeat(200)
    ));
    assert_eq!(load_rich_log(&long)[0].text, format!("~ {}…", "t".repeat(120)));
}

#[test]
fn contracts_are_found_in_conversations() {
    let source = "{\"request\":{\"messages\":[{\"role\":\"assistant\",\"tool_calls\":[\
         {\"function\":{\"name\":\"propose_contract\",\"arguments\":\"{\\\"assertions\\\":[{\\\"id\\\":\\\"A\\\",\\\"text\\\":\\\"works\\\"},{}]}\"}}]}]}}";
    let c = read_contract(source).unwrap();
    assert_eq!(c.len(), 2);
    assert_eq!(c[0].text, "works");
    assert_eq!(c[1].id, "?");
    assert!(parse_contract(&json("{\"request\":{\"messages\":[]}}")).is_none());
    assert!(read_contract("nonsense").is_none());
}

#[test]
fn containers_belong_to_trials() {
    assert_eq!(
        containers_of("My__Trial", "my__trial-main-1\nMY__TRIAL-2\nother\nmy__trial"),
        vec!["my__trial-main-1".to_string(), "MY__TRIAL-2".to_string()]
    );
    assert_eq!(kill_report("t", &vec![], &vec![]), "no containers found for t");
}

#[test]
fn jobs_are_named_and_started() {
    assert_eq!(job_name(&vec![], 2, "101112"), "all-2x-101112");
    assert_eq!(job_name(&words("a"), 1, "t"), "a-1x-t");
    assert_eq!(job_name(&words("a b"), 1, "t"), "2-tasks-1x-t");
    let a = harbor_arguments(&words("x y"), "m", 3, 4, "/jobs", "n");
    assert_eq!(&a[0..5], &words("run --with harbor harbor run")[..]);
    assert_eq!(&a[a.len() - 4..], &words("--include-task-name x --include-task-name y")[..]);
    assert_eq!(a.len(), 23);
}

#[test]
fn the_model_is_read_from_the_result() {
    assert_eq!(read_model("{\"n_total_trials\":\"5\",\"stats\":{\"evals\":{\"a__m__b\":{}}}}"), "m");
    assert_eq!(read_model("{\"stats\":{\"evals\":{\"agent__model\":1}}}"), "model");
    assert_eq!(read_model("{\"stats\":{\"evals\":{\"agent\":{}}}}"), "unknown");
    assert_eq!(read_model("{\"stats\":{\"evals\":{}}}"), "unknown");
    assert_eq!(read_model("{\"stats\":{\"evals\":[\"a__m__b\"]}}"), "unknown");
    assert_eq!(read_model("no json"), "unknown");
    assert_eq!(detect_model(&json("{\"stats\":{\"evals\":{\"z__z\":1,\"a__first\":2}}}")), "first");
}

#[test]
fn containers_that_cannot_be_listed_are_reported() {
    assert_eq!(list_failed("no docker"), "docker ps failed: no docker");
}

#[test]
fn jobs_are_timed() {
    let started = Some("1970-01-01T01:00:01.500+01:00".to_string());
    assert_eq!(settle_start(None, &started), Some(1500));
    assert_eq!(settle_start(Some(7), &started), Some(7));
    assert_eq!(settle_start(None, &Some("yesterday".to_string())), None);
    assert_eq!(settle_start(None, &None), None);
    assert_eq!(seconds_since(1500, 4499), 2);
    assert_eq!(seconds_since(4499, 1500), -2);
    assert_eq!(seconds_since(i64::MIN, i64::MAX), 18_446_744_073_709_551);
}

#[test]
fn labels_fit() {
    assert_eq!(fit("abc", 3), "abc");
    assert_eq!(fit("abcd", 3), "ab…");
    assert_eq!(fit("日本", 4), "日…");
    assert_eq!(task_label(&trial("abcdefghij__1", TrialStatus::Passed), 13), "abcd…");
    assert_eq!(assertion_label("abcdefg", 10), "abc…");
    assert_eq!(elapsed(Some(3661), None), "01:01:01");
    assert_eq!(elapsed(Some(-5), Some(9)), "00:00:00");
    assert_eq!(elapsed(None, Some(360_000)), "100:00:00");
    assert_eq!(elapsed(None, None), "00:00:00");
    assert_eq!(model_short("a/b/c"), "c");
    assert_eq!(model_short("plain"), "plain");
    assert_eq!(status_icon(true), "✓ done");
    assert_eq!(left_heights(0, 40), (40, 0));
    assert_eq!(left_heights(4, 40), (33, 7));
    assert_eq!(left_heights(50, 40), (20, 20));
    assert_eq!(status_mark(TrialStatus::Passed), ("✅", Rgb { r: 100, g: 200, b: 100 }));
    assert_eq!(assertion_mark(None).0, "○");
    assert_eq!(log_color(LogKind::Nudge), Rgb { r: 200, g: 160, b: 80 });
}

#[test]
fn the_footer_counts() {
    let mut b = Board::new("j".to_string(), "m".to_string());
    b.take_trials(vec![trial("a__1", TrialStatus::Passed), trial("b__1", TrialStatus::Running)]);
    b.stats.completed = 1;
    b.stats.total = 2;
    let f = footer(&b, &Some("0.500".to_string()));
    assert_eq!(f.done, "1/2 done");
    assert_eq!(f.passed, "1✅");
    assert_eq!(f.failed, "0❌");
    assert_eq!(f.running, "1⏳");
    assert_eq!(f.mean, "  │  mean 0.500");
    assert_eq!(footer(&b, &None).mean, "");
    assert_eq!(trials_title(&b.stats), " Trials (1/2) ");
    assert!(shows_message(Some(3999)));
    assert!(!shows_message(Some(4000)));
    assert!(!shows_message(None));
    assert!(KEYS_TEXT.starts_with("[q]uit"));
}
