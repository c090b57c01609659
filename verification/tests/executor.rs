//! The built-in tools.

use itsy::agent::contract::{Assertion, AssertionState, Contract, Counts};
use itsy::agent::mcp::MemoryItem;
use itsy::code_graph::{RepoSummary, SymbolExplanation, SymbolHit};
use itsy::edit::{count_hits, count_lines, find_line, replace_first};
use itsy::executor::contracts::{
    close_doubted, closed, doubted, feature_marked, marked, marked_value, no_contract, passed_of, proposed,
    read_feature_mark, read_mark, read_proposal, refuse_close, refuse_empty, said_by, store_error,
    wants_second_opinion, FeatureState, Proposed,
};
use itsy::executor::files::{
    append_content, append_reply, merge_reply, not_found, number_lines, path_of, plan_patch,
    plan_read_and_patch, read_file_reply, read_lines, read_original_reply, read_range,
    refuse_append, refuse_write, rejected, wants_summary, write_reply, PatchStep, Record, Summary,
};
use itsy::executor::lookup::{
    check_symbol, content_text, file_search_reply, files_reply, find_and_read_reply, find_reply, format_explanation,
    format_hits, lines_to_read, listed_files, listed_projects_reply, memory_forget_reply,
    memory_list_reply, memory_load_reply, memory_remember_reply, nothing_found, plan_find,
    projects_reply, read_context, references_text, refuse_web, remembrance_of,
    graph_search_reply, graph_tokens, read_listed_projects, search_and_read_reply, search_reply, web_fetch_reply, web_search_reply, FindPlan, WebHit,
};
use itsy::executor::shell::{
    command_of, created_and_run, end_of_run, failure_reply, is_grep_command, leading_script_of,
    not_run, prepend_error_diagnosis, refuse_blocking, refuse_create, refuse_interactive,
    refuse_run, rtk_rewrite, run_reply, run_timeout, runs_created, script_of, settle_once,
    settle_shell, trim_output, truncate, BashStep, ShellRun,
};
use itsy::executor::{answered, failed, foreign_reply, select_category, tool_of, Reply, Tool};
use itsy::features::{parse_fenced, ErrorDiagnosis};
use itsy::json::Json;

fn json(s: &str) -> Json {
    parse_fenced(s).expect("valid JSON")
}

fn words(s: &str) -> Vec<String> {
    s.split_whitespace().map(|w| w.to_string()).collect()
}

fn result(r: &Reply) -> &str {
    r.result.as_deref().unwrap_or("")
}

fn error(r: &Reply) -> &str {
    r.error.as_deref().unwrap_or("")
}

#[test]
fn tools_are_dispatched() {
    assert_eq!(tool_of("patch"), Tool::ReadAndPatch);
    assert_eq!(tool_of("read_and_patch"), Tool::ReadAndPatch);
    assert_eq!(tool_of("memory_forget"), Tool::Memory);
    assert_eq!(tool_of("fly"), Tool::Foreign);
    let r = select_category(&json("{}"));
    assert_eq!(result(&r), "Category: read. Proceed with your tool call.");
    assert_eq!(r.category.as_deref(), Some("read"));
    assert_eq!(error(&foreign_reply("fly", None)), "Unknown tool: fly");
    assert_eq!(result(&foreign_reply("fly", Some(Ok("v".to_string())))), "v");
    assert_eq!(error(&foreign_reply("fly", Some(Err("e".to_string())))), "e");
}

// Edits
// ---------------------------------------------------------------------------

#[test]
fn texts_are_replaced() {
    assert_eq!(count_hits("aaaa", "aa"), 2);
    assert_eq!(count_hits("abc", ""), 4);
    assert_eq!(count_hits("日本日", "日"), 2);
    assert_eq!(replace_first("a b a", "a", "x"), "x b a");
    assert_eq!(replace_first("abc", "z", "x"), "abc");
    assert_eq!(count_lines(""), 1);
    assert_eq!(count_lines("a\nb\n"), 3);
    assert_eq!(find_line("a\nb\nc", "c"), 3);
    assert_eq!(find_line("a\nb", "zz"), 2);
}

// Files
// ---------------------------------------------------------------------------

#[test]
fn files_are_read() {
    assert_eq!(error(&path_of("read_file", &json("{}")).unwrap_err()), "read_file rejected: path missing");
    assert_eq!(path_of("read_file", &json("{\"path\":\"a\"}")).unwrap(), "a");
    assert_eq!(error(&rejected("search", "outside")), "search rejected: outside");
    assert_eq!(error(&not_found("a")), "File not found: a");
    let args = json("{\"start_line\":2,\"end_line\":3}");
    assert_eq!(read_range(&args, 10), (1, 3));
    assert_eq!(read_range(&json("{\"start_line\":0,\"end_line\":99}"), 10), (0, 10));
    let lines = read_lines("a\nb\nc\nd", &args);
    assert_eq!(lines, words("b c"));
    assert_eq!(number_lines(&lines, 1, "│ "), "   2│ b\n   3│ c");
    let r = read_file_reply("f", &args, 4, &Record::Unchanged, &None, "BODY");
    assert_eq!(result(&r), "f (4 lines):\nBODY");
    let whole = json("{}");
    let r = read_file_reply("f", &whole, 4, &Record::Unchanged, &None, "BODY");
    assert_eq!(result(&r), "f (4 lines — unchanged since last read, no diff)");
    let diff = Record::Changed { diff: "D".to_string(), full_length: 5 };
    let r = read_file_reply("f", &whole, 4, &diff, &None, "BODY");
    assert_eq!(result(&r), "f changes since last read (5 lines total):\nD");
    assert!(wants_summary(&whole, 201, &Record::Fresh));
    assert!(!wants_summary(&whole, 200, &Record::Fresh));
    assert!(!wants_summary(&args, 201, &Record::Fresh));
    let s = Some(Summary { bytes: 51, shown: "S".to_string() });
    let r = read_file_reply("f", &whole, 201, &Record::Fresh, &s, "BODY");
    assert_eq!(result(&r), "f (201 lines — summarized):\nS");
    let s = Some(Summary { bytes: 50, shown: "S".to_string() });
    let r = read_file_reply("f", &whole, 201, &Record::Fresh, &s, "BODY");
    assert_eq!(result(&r), "f (201 lines):\nBODY");
    let r = read_original_reply("f", &Some(words("a b")));
    assert_eq!(result(&r), "f (original, 2 lines):\n   1│ a\n   2│ b");
    assert!(error(&read_original_reply("f", &None)).starts_with("No original content recorded for f. read_original only"));
}

#[test]
fn files_are_written() {
    assert!(refuse_write("f", false, "x").is_none());
    let r = refuse_write("f", true, "x").unwrap();
    assert!(error(&r).starts_with("write_file rejected: 'f' already exists. Use read_and_patch"));
    let big = "x\n".repeat(4097);
    let r = refuse_write("f", false, &big).unwrap();
    assert_eq!(
        error(&r),
        "write_file: content too large (4098 lines / 8KB). Keep each write_file under 60 lines; use append_file for additional sections."
    );
    let r = write_reply("f", "a\nb");
    assert_eq!(result(&r), "Created f (2 lines)");
    assert_eq!(r.action.as_deref(), Some("Created"));
    assert_eq!(r.lines, Some(2));
    assert!(refuse_append("f", true, "x").is_none());
    assert_eq!(
        error(&refuse_append("f", false, "x").unwrap()),
        "append_file: file not found: f. Create it first with write_file."
    );
    assert_eq!(
        error(&refuse_append("f", false, &big).unwrap()),
        "append_file: chunk too large (8 KB). Keep each append under 60 lines."
    );
    assert_eq!(append_content("a", "b"), "a\nb");
    assert_eq!(append_content("a\n", "b"), "a\nb");
    assert_eq!(append_content("", "b"), "b");
    let r = append_reply("f", "b", "a\nb");
    assert_eq!(result(&r), "Appended 1 lines to f (now 2 lines total)");
}

#[test]
fn files_are_patched() {
    let args = json("{\"old_str\":\"b\",\"new_str\":\"x\\ny\"}");
    match plan_patch("f", &args, "a\nb\nc", false) {
        PatchStep::Write { content, line, reply } => {
            assert_eq!(content, "a\nx\ny\nc");
            assert_eq!(line, 2);
            assert_eq!(result(&reply), "Patched f: replaced 1 lines with 2 lines at line 2");
        }
        other => panic!("expected a write, got {other:?}"),
    }
    match plan_patch("f", &args, "b b", true) {
        PatchStep::Refused(r) => {
            assert_eq!(error(&r), "old_str matches 2 locations. Include more context.")
        }
        other => panic!("expected a refusal, got {other:?}"),
    }
    match plan_patch("f", &args, "none", false) {
        PatchStep::Refused(r) => assert_eq!(error(&r), "old_str not found in f"),
        other => panic!("expected a refusal, got {other:?}"),
    }
    assert!(matches!(plan_patch("f", &args, "none", true), PatchStep::Merge));
    match plan_patch("f", &json("{}"), "none", true) {
        PatchStep::Refused(r) => assert_eq!(error(&r), "patch: old_str is empty"),
        other => panic!("expected a refusal, got {other:?}"),
    }
    let r = merge_reply("f", "a\nb", &Some("a".to_string()));
    assert_eq!(result(&r), "Patched f via semantic merge (2 → 1 lines)");
    assert_eq!(error(&merge_reply("f", "a", &None)), "old_str not found in f");
    match plan_read_and_patch("f", &args, "a\nb") {
        PatchStep::Write { content, reply, .. } => {
            assert_eq!(content, "a\nx\ny");
            assert_eq!(result(&reply), "Read and patched f at line 2");
        }
        other => panic!("expected a write, got {other:?}"),
    }
    match plan_read_and_patch("f", &args, "bb") {
        PatchStep::Refused(r) => {
            assert_eq!(error(&r), "old_str matches 2 locations. Be more specific.")
        }
        other => panic!("expected a refusal, got {other:?}"),
    }
}

// Commands
// ---------------------------------------------------------------------------

#[test]
fn commands_are_rewritten() {
    assert_eq!(error(&command_of("bash", &json("{}")).unwrap_err()), "bash: command missing");
    assert_eq!(rtk_rewrite("  git status -s", true, true), "rtk git status -s");
    assert_eq!(rtk_rewrite("git stash", true, true), "git stash");
    assert_eq!(rtk_rewrite("rtk git status", true, true), "rtk git status");
    assert_eq!(rtk_rewrite("git status", false, true), "git status");
    assert_eq!(rtk_rewrite("git status", true, false), "git status");
    assert_eq!(rtk_rewrite("cargo test", true, true), "rtk cargo test");
    assert_eq!(rtk_rewrite("docker ps", true, true), "rtk docker ps");
    assert_eq!(rtk_rewrite("kubectl logs x", true, true), "rtk kubectl logs x");
    assert_eq!(rtk_rewrite("npm list", true, true), "rtk npm list");
    assert_eq!(rtk_rewrite("ls", true, true), "rtk ls");
    assert_eq!(rtk_rewrite("tsc", true, true), "rtk tsc");
}

#[test]
fn blocking_commands_are_refused() {
    let r = refuse_blocking("node src/server.js").unwrap();
    assert_eq!(error(&r), "Blocking command detected");
    assert!(result(&r).starts_with("Refused: \"node src/server.js\" would start a long-running server"));
    assert!(refuse_blocking("npm start").is_some());
    assert!(refuse_blocking("node --check server.js").is_none());
    assert!(refuse_blocking("ls").is_none());
    assert_eq!(script_of("cd x && python3 'a.py' -v").unwrap(), "a.py");
    assert!(script_of("ls").is_none());
    assert!(leading_script_of("cd x && python3 a.py").is_none());
    assert_eq!(leading_script_of("ruby a.rb").unwrap(), "a.rb");
    assert!(refuse_interactive("python a.py", "a.py", "x = input()").is_some());
    assert!(refuse_interactive("python -m a.py", "a.py", "x = input()").is_none());
    assert!(refuse_interactive("python a.py", "a.py", "x = 1").is_none());
    assert_eq!(error(&refuse_run("node a.js", "process.stdin").unwrap()), "Interactive script");
    assert!(refuse_run("node a.js", "1").is_none());
}

#[test]
fn output_is_cut() {
    let s: String = (0..400).map(|i| format!("{i:09}\n")).collect();
    let t = trim_output(&s, 3000);
    assert!(t.starts_with(&s[..2500]));
    assert!(t.ends_with(&s[s.len() - 300..]));
    assert_eq!(t.len(), 2500 + "\n...(truncated)...\n".len() + 300);
    assert_eq!(trim_output("abc", 3), "abc");
    assert_eq!(truncate("日本", 4), "日");
}

#[test]
fn searches_are_no_failures() {
    assert!(is_grep_command("cd /app && grep -n x f"));
    assert!(is_grep_command("make; rg x"));
    assert!(is_grep_command("cat f | egrep x"));
    assert!(!is_grep_command("grep x | wc -l"));
    let run = |code: i32, out: &str| ShellRun {
        stdout: out.to_string(),
        timed_out: false,
        error: None,
        exit_code: code,
    };
    match settle_shell("grep x f", &run(1, ""), 128_000) {
        BashStep::Done(r) => {
            assert_eq!(result(&r), "(no matches found)");
            assert!(r.error.is_none());
        }
        other => panic!("expected an end, got {other:?}"),
    }
    match settle_shell("make", &run(2, ""), 128_000) {
        BashStep::Diagnose { body, exit_code } => {
            assert_eq!(body, "(no output)");
            assert_eq!(exit_code, 2);
        }
        other => panic!("expected a failure, got {other:?}"),
    }
    match settle_shell("ls", &run(0, ""), 128_000) {
        BashStep::Done(r) => assert_eq!(result(&r), "(no output)"),
        other => panic!("expected an end, got {other:?}"),
    }
    let late = ShellRun { timed_out: true, ..run(0, "") };
    match settle_shell("sleep 99", &late, 128_000) {
        BashStep::Done(r) => {
            assert_eq!(result(&r), "(no output before timeout)");
            assert_eq!(error(&r), "Timed out (killed after 30s)");
        }
        other => panic!("expected an end, got {other:?}"),
    }
    match settle_once("x", "out", false, None) {
        BashStep::Diagnose { exit_code, .. } => assert_eq!(exit_code, -1),
        other => panic!("expected a failure, got {other:?}"),
    }
    assert_eq!(error(&not_run("x", "shown", "why")), "why");
    match settle_shell("x", &run(0, &"y".repeat(2000)), 32_000) {
        BashStep::Done(r) => {
            assert_eq!(result(&r).len(), 1000 + "\n...(truncated)...\n".len() + 300)
        }
        other => panic!("expected an end, got {other:?}"),
    }
}

#[test]
fn failures_carry_a_hint() {
    let d = ErrorDiagnosis {
        kind: "syntax".to_string(),
        file: Some("a.py".to_string()),
        line: Some(3),
        suggestion: "close it".to_string(),
    };
    assert_eq!(
        prepend_error_diagnosis("out", &Some(d)),
        "[ERROR-DIAGNOSIS] Type: syntax in a.py:3. Fix: close it\n\nout"
    );
    assert_eq!(prepend_error_diagnosis("out", &None), "out");
    let r = failure_reply("make", "out", 2, &None);
    assert_eq!(error(&r), "Exit code 2");
    assert_eq!(r.command.as_deref(), Some("make"));
}

#[test]
fn scripts_are_run() {
    assert_eq!(run_timeout(&json("{}")), 30);
    assert_eq!(run_timeout(&json("{\"timeout\":5}")), 5);
    assert_eq!(end_of_run("a", "b", true, Some(0)), Ok("ab".to_string()));
    assert_eq!(end_of_run("a", "b", false, None), Err(("ab".to_string(), -1)));
    assert_eq!(result(&run_reply("c", &Ok("out".to_string()))), "out");
    let r = run_reply("c", &Err(("out".to_string(), 3)));
    assert_eq!(result(&r), "EXIT 3: out");
    assert_eq!(error(&r), "Exit 3");
    assert!(refuse_create(&"x".repeat(8001)).is_some());
    assert!(refuse_create(&"x".repeat(8000)).is_none());
    let args = json("{\"command\":\"python a.py\"}");
    assert_eq!(runs_created(&args, "print(1)").unwrap(), "python a.py");
    assert!(runs_created(&args, "input()").is_none());
    assert!(runs_created(&json("{}"), "print(1)").is_none());
    let r = created_and_run("a.py", "print(1)", &args, &Ok("1".to_string()));
    assert_eq!(result(&r), "Created a.py (1 lines)\n$ python a.py\n1");
    let r = created_and_run("a.py", "print(1)", &args, &Err("boom".to_string()));
    assert_eq!(result(&r), "Created a.py (1 lines)\n$ python a.py\nFAILED:\nboom");
    assert_eq!(error(&r), "Command failed");
    let r = created_and_run("a.py", "input()", &args, &Ok(String::new()));
    assert!(result(&r).ends_with("\n⚠ File contains interactive input calls. Skipping execution."));
}

// Looking things up
// ---------------------------------------------------------------------------

fn hit(name: &str) -> SymbolHit {
    SymbolHit {
        name: name.to_string(),
        kind: "function".to_string(),
        file: "lib.rs".to_string(),
        line: 5,
        signature: Some(format!("fn {name}()")),
        snippet: Some("body".to_string()),
        repo: "r".to_string(),
    }
}

#[test]
fn files_are_found() {
    assert!(matches!(plan_find(&json("{\"pattern\":\"**\",\"hint\":\"h\"}")), FindPlan::Overview(h) if h == "h"));
    assert!(matches!(plan_find(&json("{\"pattern\":\"*.rs\"}")), FindPlan::Match(p) if p == "*.rs"));
    let many: String = (0..40).map(|i| format!("f{i}\n")).collect();
    assert!(result(&find_reply(&Some(many))).starts_with("Found 30 files:\nf0\n"));
    assert_eq!(result(&find_reply(&None)), "No files found.");
    assert_eq!(result(&find_reply(&Some("\n".to_string()))), "No files found.");
    assert_eq!(result(&nothing_found("x")), "No files found matching: x");
    assert_eq!(listed_files("a\n\nb\n"), words("a b"));
    assert_eq!(lines_to_read(&json("{}")), 50);
    let r = find_and_read_reply(&words("a b c d e f"), 9, &words("x y"));
    assert_eq!(
        result(&r),
        "Found 6 files. Reading a (9 lines):\n   1| x\n   2| y\n\nOther matches: b, c, d, e"
    );
    assert_eq!(read_context(&json("{\"read_context\":200}")), 10);
    assert_eq!(read_context(&json("{\"read_context\":199}")), 199);
    assert_eq!(result(&search_and_read_reply(" \n")), "No matches.");
    assert_eq!(result(&search_and_read_reply(&"x".repeat(5000))).len(), 4000);
    assert_eq!(result(&search_reply(&"x".repeat(5000))).len(), 3000);
    assert_eq!(result(&files_reply("/w", "a\n")), "Files in /w:\na\n");
    assert_eq!(result(&file_search_reply(&None)), "No matches found.");
    assert_eq!(result(&file_search_reply(&Some("a:1".to_string()))), "a:1");
    assert_eq!(result(&graph_search_reply(&None)), "No matches found in code graph or files.");
    assert_eq!(graph_tokens(&json("{}")), 4000);
    assert_eq!(graph_tokens(&json("{\"max_tokens\":4294967297}")), 1);
}

#[test]
fn projects_are_listed() {
    let r = RepoSummary {
        name: "r".to_string(),
        path: "/r".to_string(),
        file_count: 2,
        symbol_count: 3,
        languages: words("a b c d e"),
    };
    assert_eq!(
        result(&projects_reply(&vec![r]).unwrap()),
        "Workspace: 1 indexed projects\n\n• r — 2 files, 3 symbols, a, b, c, d\n"
    );
    assert!(projects_reply(&vec![]).is_none());
    let r = listed_projects_reply(&json("{\"repos\":[{\"name\":\"x\",\"file_count\":1}]}"));
    assert_eq!(result(&r), "Workspace: 1 indexed projects\n\n• x — 1 files, ? symbols, ?\n");
    assert_eq!(
        result(&read_listed_projects("{\"repos\":[]}").unwrap()),
        "No projects indexed yet. The code graph is empty."
    );
    assert!(result(&read_listed_projects("{\"repos\":[{\"name\":\"x\"}]}").unwrap())
        .ends_with("• x — ? files, ? symbols, ?\n"));
    assert!(read_listed_projects("nothing").is_none());
    assert_eq!(
        result(&listed_projects_reply(&json("{}"))),
        "No projects indexed yet. The code graph is empty."
    );
}

#[test]
fn symbols_are_shown() {
    assert_eq!(
        format_hits(&vec![hit("add")]),
        "add (function, lib.rs:5)\n  fn add()\nbody\n\n"
    );
    let e = SymbolExplanation {
        name: "add".to_string(),
        kind: "function".to_string(),
        file: "lib.rs".to_string(),
        line: 1,
        signature: None,
        callers: vec![],
        callees: vec![hit("helper")],
        snippet: Some("s\n".to_string()),
    };
    assert_eq!(
        format_explanation(&e),
        "add (function) at lib.rs:1\nCallers: (none)\nCallees:\n  - helper (lib.rs:5)\nSnippet:\ns\n"
    );
    assert_eq!(content_text(&vec![json("{\"text\":\"a\"}"), json("{}"), json("{\"text\":\"b\"}")]), "a\nb");
    assert!(check_symbol("a::b.c").is_none());
    assert_eq!(
        result(&check_symbol("1x").unwrap()),
        "Symbol \"1x\" is not a valid identifier."
    );
    assert_eq!(references_text("s", "out"), "References to s:\nout");
}

#[test]
fn memories_are_kept() {
    let m = MemoryItem {
        id: "i".to_string(),
        kind: "k".to_string(),
        title: "t".to_string(),
        content: "c".to_string(),
    };
    assert_eq!(result(&memory_remember_reply(&m)), "Remembered [k] \"t\" (i)");
    let v = vec![m];
    assert_eq!(result(&memory_load_reply(&v)), "Loaded 1 memories (50 tokens):\n\n[k] t: c");
    assert_eq!(result(&memory_load_reply(&vec![])), "No relevant memory found.");
    assert_eq!(result(&memory_list_reply(&v)), "[i] (k) t");
    assert_eq!(result(&memory_list_reply(&vec![])), "No memory stored.");
    assert_eq!(result(&memory_forget_reply("i", false)), "Not found: i");
    let r = remembrance_of(&json("{\"title\":\"t\",\"tags\":[\"a\",1,\"b\"]}"));
    assert_eq!(r.kind, "context");
    assert_eq!(r.tags, words("a b"));
}

#[test]
fn the_web_is_asked() {
    assert!(refuse_web(true).is_none());
    assert!(error(&refuse_web(false).unwrap()).starts_with("Web browsing disabled."));
    let h = WebHit { title: "t".to_string(), url: "u".to_string(), snippet: "s".to_string() };
    assert_eq!(result(&web_search_reply(&Ok(vec![h]))), "1. t\n   u\n   s");
    assert_eq!(result(&web_search_reply(&Ok(vec![]))), "No results found.");
    assert_eq!(error(&web_search_reply(&Err("e".to_string()))), "e");
    assert_eq!(result(&web_fetch_reply(Ok("page".to_string()))), "page");
}

// Contracts
// ---------------------------------------------------------------------------

fn proposal(assertions: &str) -> Json {
    json(&format!(
        "{{\"title\":\"t\",\"brief\":\"twenty characters at least\",\"assertions\":{assertions}}}"
    ))
}

#[test]
fn proposals_are_read() {
    let p = read_proposal(&proposal("[{\"id\":\" A \",\"text\":\" it works \"}]")).unwrap();
    assert_eq!(p.assertions, vec![("A".to_string(), "it works".to_string())]);
    assert!(p.features.is_empty());
    let err = |a: &str| read_proposal(&proposal(a)).unwrap_err();
    assert_eq!(read_proposal(&json("{}")).unwrap_err(), "missing `title`");
    assert_eq!(read_proposal(&json("{\"title\":\" \"}")).unwrap_err(), "title must be 1-200 chars");
    assert_eq!(read_proposal(&json("{\"title\":\"t\"}")).unwrap_err(), "missing `brief`");
    assert!(read_proposal(&json("{\"title\":\"t\",\"brief\":\"short\"}")).unwrap_err().starts_with("`brief` must be at least 20"));
    assert_eq!(err("1"), "missing `assertions` array (need at least one)");
    assert_eq!(err("[]"), "`assertions` must contain at least one item");
    assert_eq!(err("[{\"id\":\"\"}]"), "assertions[0]: missing or empty `id`");
    assert_eq!(err("[{\"id\":\"A\"}]"), "assertions[0]: missing `text`");
    assert!(err("[{\"id\":\"A\",\"text\":\"x\"}]").starts_with("assertions[0].text must be 5-200 chars"));
    assert_eq!(
        err("[{\"id\":\"A\",\"text\":\"it works\"},{\"id\":\"A\",\"text\":\"it works\"}]"),
        "duplicate assertion id `A`"
    );
    let many: Vec<String> = (0..25).map(|i| format!("{{\"id\":\"A{i}\",\"text\":\"it works\"}}")).collect();
    assert!(err(&format!("[{}]", many.join(","))).starts_with("more than 24 assertions"));
    assert!(refuse_empty(&vec![]).is_some());
    assert_eq!(store_error("mark_feature", "e"), "mark_feature: e");
}

fn contract() -> Contract {
    Contract {
        id: "k".to_string(),
        title: "t".to_string(),
        brief: "b".to_string(),
        active: true,
        assertions: vec![Assertion {
            id: "A".to_string(),
            text: "it works".to_string(),
            state: AssertionState::Passed,
            evidence: None,
            last_check: None,
        }],
    }
}

#[test]
fn marks_are_backed() {
    let err = |s: &str| read_mark(&json(s)).unwrap_err();
    assert_eq!(err("{}"), "missing assertion `id`");
    assert_eq!(err("{\"id\":\"A\"}"), "missing `state` (passed | failed)");
    assert!(err("{\"id\":\"A\",\"state\":\"skipped\"}").starts_with("`skipped` is not allowed"));
    assert_eq!(err("{\"id\":\"A\",\"state\":\"x\"}"), "`state` must be `passed` or `failed`");
    assert!(err("{\"id\":\"A\",\"state\":\"failed\",\"evidence\":\"short\"}").starts_with("`evidence` must be at least 10 chars"));
    assert!(err("{\"id\":\"A\",\"state\":\"passed\",\"evidence\":\"ten chars!\"}").starts_with("marking `passed` without a verification command"));
    assert_eq!(
        err("{\"id\":\"A\",\"state\":\"passed\",\"evidence\":\"ten chars!\",\"command\":\"c\",\"exit_code\":0,\"observation\":\"Success\"}"),
        "observation \"Success\" is too vague — write the specific output you saw"
    );
    let m = read_mark(&json(
        "{\"id\":\"A\",\"state\":\"passed\",\"evidence\":\" ten chars! \",\"command\":\"c\",\"exit_code\":0,\"observation\":\"5 tests ok\"}",
    ))
    .unwrap();
    assert_eq!(m.evidence, "ten chars!");
    assert_eq!(m.check, Some(("c".to_string(), 0, "5 tests ok".to_string())));
    let c = contract();
    assert_eq!(said_by(&c, "A"), "it works");
    assert_eq!(said_by(&c, "B"), "");
    assert!(wants_second_opinion(&m, "it works"));
    assert!(!wants_second_opinion(&m, ""));
    assert!(doubted("A", "why").starts_with("[SECOND OPINION] Assertion A may not be passed: why. "));
    let n = Counts { total: 3, passed: 1, failed: 1, pending: 1, skipped: 0 };
    assert_eq!(
        marked("A", AssertionState::Passed, &n),
        "Marked A as passed (1 passed / 1 failed / 1 pending)."
    );
}

#[test]
fn contracts_are_closed() {
    let p = proposed(&contract(), true);
    assert!(p.result.starts_with("Contract `k` created with 1 assertions. Assertions were negotiated between main and second-opinion models. Work the assertions"));
    assert_eq!(p.assertion_ids, words("A"));
    assert!(read_feature_mark(&json("{\"id\":\"F\",\"state\":\"x\"}")).is_err());
    assert_eq!(
        read_feature_mark(&json("{\"id\":\"F\",\"state\":\"done\"}")).unwrap(),
        ("F".to_string(), FeatureState::Done)
    );
    assert_eq!(feature_marked("F", FeatureState::InProgress), "Feature F marked in_progress");
    assert!(refuse_close(&json("{\"status\":\"completed\"}")).is_none());
    assert_eq!(refuse_close(&json("{}")).unwrap(), "missing `status` — only `completed` is accepted");
    assert!(refuse_close(&json("{\"status\":\"aborted\"}")).unwrap().starts_with("`aborted` is not available"));
    assert_eq!(refuse_close(&json("{\"status\":\"x\"}")).unwrap(), "`status` must be `completed`");
    let v = passed_of(&contract());
    assert_eq!(v.len(), 1);
    assert_eq!(v[0].evidence, "");
    assert!(close_doubted(&words("A B")).contains("truly satisfied: A, B. Re-verify"));
    let n = Counts { total: 3, passed: 2, failed: 1, pending: 0, skipped: 0 };
    assert_eq!(
        closed("k", "completed", &n),
        "Contract `k` closed as completed — 2 passed / 1 failed / 0 skipped of 3."
    );
    assert_eq!(no_contract(), "(no active contract)");
}

#[test]
fn replies_become_values() {
    assert_eq!(answered("ok").to_value().write(), "{\"result\":\"ok\"}");
    assert_eq!(failed("no").to_value().write(), "{\"error\":\"no\"}");
    let r = Reply {
        result: Some("r".to_string()),
        error: None,
        action: Some("Edited".to_string()),
        path: Some("p".to_string()),
        lines: Some(2),
        line: Some(1),
        command: Some("c".to_string()),
        category: Some("k".to_string()),
    };
    assert_eq!(
        r.to_value().write(),
        "{\"action\":\"Edited\",\"category\":\"k\",\"command\":\"c\",\"line\":1,\"lines\":2,\"path\":\"p\",\"result\":\"r\"}"
    );
    let p = Proposed {
        result: "r".to_string(),
        contract_id: "c".to_string(),
        title: "t".to_string(),
        assertion_ids: words("A B"),
        negotiated: true,
    };
    assert_eq!(
        p.to_value().write(),
        "{\"assertion_ids\":[\"A\",\"B\"],\"contract_id\":\"c\",\"negotiated\":true,\"result\":\"r\",\"title\":\"t\"}"
    );
    let n = Counts { total: 3, passed: 1, failed: 0, pending: 2, skipped: 0 };
    let v = marked_value("A", AssertionState::Passed, &n);
    assert_eq!(v.get_u64("remaining_pending"), Some(2));
    assert_eq!(v.get_str("result").unwrap(), "Marked A as passed (1 passed / 0 failed / 2 pending).");
}
