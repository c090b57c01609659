//! The code graph.

use itsy::code_graph::indexer::{
    add_language, index_file, relative_name, snippet_around, FileStep, IndexStats,
};
use itsy::code_graph::language::{path_extension, Lang};
use itsy::code_graph::query::{
    explain_symbol, line_number, partial_pattern, plan_search, read_languages, repo_of,
    sanitize_fts_query, settle_hits, symbol_to_explain, write_languages, CalleeRow, SymbolRow,
};
use itsy::code_graph::SymbolHit;

fn names(lang: Lang, source: &str) -> Vec<String> {
    index_file(lang, source).unwrap().symbols.into_iter().map(|s| s.name).collect()
}

#[test]
fn rust_sources_are_indexed() {
    let source = "fn add(a: i32, b: i32) -> i32 {\n    helper(a);\n    a + b\n}\nfn helper(x: i32) {}\n";
    let f = index_file(Lang::Rust, source).unwrap();
    assert_eq!(f.symbols.len(), 2);
    assert_eq!(f.symbols[0].name, "add");
    assert_eq!(f.symbols[0].kind, "function");
    assert_eq!(f.symbols[0].line, 1);
    assert_eq!(
        f.symbols[0].signature.as_deref(),
        Some("fn add(a: i32, b: i32) -> i32 {")
    );
    assert!(f.symbols[0].snippet.as_ref().unwrap().contains("helper(a);"));
    assert_eq!(f.symbols[1].name, "helper");
    assert_eq!(f.symbols[1].line, 5);
    assert_eq!(f.calls.len(), 1);
    assert_eq!(f.calls[0].caller, 0);
    assert_eq!(f.calls[0].callee, "helper");
    assert_eq!(f.calls[0].line, 2);
}

#[test]
fn rust_methods_know_their_type() {
    let source = "struct S;\nimpl S {\n    fn go(&self) { self.other(); S::make(); }\n}\n";
    let f = index_file(Lang::Rust, source).unwrap();
    let go = f.symbols.iter().find(|s| s.name == "go").unwrap();
    assert_eq!(go.parent.as_deref(), Some("impl S"));
    let callees: Vec<&str> = f.calls.iter().map(|c| c.callee.as_str()).collect();
    assert!(callees.contains(&"other"));
    assert!(callees.contains(&"S::make"));
}

#[test]
fn typescript_sources_are_indexed() {
    let source = "export function greet(name: string): string {\n  return `hi ${name}`;\n}\n\
             export class Service {\n  run() { greet(\"world\"); }\n}\nconst f = () => 1;\nconst n = 2;\n";
    let f = index_file(Lang::TypeScript, source).unwrap();
    let found: Vec<&str> = f.symbols.iter().map(|s| s.name.as_str()).collect();
    assert_eq!(found, vec!["greet", "Service", "run", "f"]);
    assert_eq!(f.symbols[2].parent.as_deref(), Some("Service"));
    assert_eq!(f.calls.len(), 1);
    assert_eq!(f.calls[0].callee, "greet");
    assert_eq!(f.calls[0].caller, 2);
}

#[test]
fn python_sources_are_indexed() {
    let source = "def fib(n):\n    return n if n < 2 else fib(n - 1) + fib(n - 2)\n\nclass Calc:\n    def go(self):\n        return fib(5)\n";
    let f = index_file(Lang::Python, source).unwrap();
    assert_eq!(names(Lang::Python, source), vec!["fib", "Calc", "go"]);
    assert_eq!(f.calls.len(), 3);
    assert_eq!(f.calls[0].caller, 0);
    assert_eq!(f.calls[2].caller, 2);
}

#[test]
fn other_sources_are_indexed() {
    assert_eq!(names(Lang::Go, "package p\nfunc Run() { stop() }\n"), vec!["Run"]);
    assert_eq!(
        names(Lang::Java, "class A {\n  void go() { stop(); }\n}\n"),
        vec!["A", "go"]
    );
    assert_eq!(names(Lang::JavaScript, "function f() { g(); }\n"), vec!["f"]);
    assert_eq!(names(Lang::Tsx, "function F() { return <b>x</b>; }\n"), vec!["F"]);
    assert!(names(Lang::Rust, "").is_empty());
}

#[test]
fn languages_are_told_by_extension() {
    assert_eq!(path_extension("a/b.tar.rs").unwrap(), "rs");
    assert!(path_extension("a.b/c").is_none());
    assert!(path_extension("a/.rs").is_none());
    assert_eq!(Lang::from_path("x.tsx"), Some(Lang::Tsx));
    assert_eq!(Lang::from_path("notes.txt"), None);
    assert_eq!(Lang::Tsx.name(), "tsx");
    let mut langs: Vec<String> = vec![];
    add_language(&mut langs, Lang::Rust);
    add_language(&mut langs, Lang::Python);
    add_language(&mut langs, Lang::Rust);
    assert_eq!(langs, vec!["python".to_string(), "rust".to_string()]);
    assert_eq!(relative_name("a\\b/c.rs"), "a/b/c.rs");
}

#[test]
fn walking_is_bounded() {
    let mut s = IndexStats::default();
    assert!(matches!(s.visit("notes.txt", Some(10)), FileStep::Skip));
    assert!(matches!(s.visit("a.rs", None), FileStep::Skip));
    assert!(matches!(s.visit("a.rs", Some(1_048_577)), FileStep::TooLarge));
    assert_eq!(s.files_skipped_too_large, 1);
    assert!(matches!(s.visit("a.rs", Some(1_048_576)), FileStep::Index(Lang::Rust)));
    s.settle(Some((3, 2)));
    s.settle(None);
    assert_eq!(s.files_indexed, 1);
    assert_eq!(s.symbols_inserted, 3);
    assert_eq!(s.calls_inserted, 2);
    assert_eq!(s.parse_errors, 1);
    s.files_indexed = 5000;
    assert!(matches!(s.visit("a.rs", Some(1)), FileStep::Stop));
}

#[test]
fn snippets_are_cut_around_a_line() {
    let lines: Vec<String> = (1..=20).map(|i| format!("line {i}")).collect();
    let s = snippet_around(&lines, 10).unwrap();
    assert!(s.contains("line 10"));
    assert!(!s.contains("line 20"));
    assert!(snippet_around(&vec![], 1).is_none());
}

#[test]
fn queries_are_cleaned() {
    assert_eq!(sanitize_fts_query("add").unwrap(), "\"add\"*");
    assert_eq!(sanitize_fts_query("foo-bar!").unwrap(), "\"foo\"* \"bar!\"*");
    assert!(sanitize_fts_query("a").is_none());
    assert!(sanitize_fts_query("()*").is_none());
    assert!(plan_search("", 4000).is_none());
    assert!(plan_search("a", 4000).is_none());
    assert!(plan_search("()*", 4000).is_none());
    assert_eq!(plan_search("add", 4000).unwrap().cap, 10);
    assert_eq!(plan_search("add", 500).unwrap().cap, 2);
    assert_eq!(plan_search("add", 199).unwrap().cap, 0);
    assert_eq!(plan_search("a%dd", 0).unwrap().fallback.unwrap(), "%add%");
    assert!(settle_hits(None).is_none());
    assert!(settle_hits(Some(vec![])).is_none());
    assert_eq!(line_number(-3), 0);
    assert_eq!(line_number(7), 7);
}

fn row(name: &str) -> SymbolRow {
    SymbolRow {
        id: 1,
        name: name.to_string(),
        kind: "function".to_string(),
        file: "lib.rs".to_string(),
        line: -1,
        signature: None,
        snippet: None,
    }
}

fn hit(name: &str) -> SymbolHit {
    SymbolHit {
        name: name.to_string(),
        kind: "function".to_string(),
        file: "lib.rs".to_string(),
        line: 5,
        signature: None,
        snippet: None,
        repo: "r".to_string(),
    }
}

#[test]
fn symbols_are_explained() {
    assert!(symbol_to_explain("  ").is_none());
    assert_eq!(symbol_to_explain(" add ").unwrap(), "add");
    assert_eq!(partial_pattern("add"), "%add%");
    let callees = vec![
        CalleeRow { name: "helper".to_string(), file: "lib.rs".to_string(), line: 2, matches: vec![hit("helper")] },
        CalleeRow { name: "println".to_string(), file: "lib.rs".to_string(), line: 3, matches: vec![] },
    ];
    let e = explain_symbol(Some(row("add")), Some(row("added")), vec![hit("main")], &callees).unwrap();
    assert_eq!(e.name, "add");
    assert_eq!(e.line, 0);
    assert_eq!(e.callers.len(), 1);
    assert_eq!(e.callees.len(), 2);
    assert_eq!(e.callees[0].line, 5);
    assert_eq!(e.callees[1].name, "println");
    assert_eq!(e.callees[1].line, 3);
    let e = explain_symbol(None, Some(row("added")), vec![], &vec![]).unwrap();
    assert_eq!(e.name, "added");
    assert!(explain_symbol(None, None, vec![], &vec![]).is_none());
}

#[test]
fn long_signatures_are_cut_by_characters() {
    let source = format!("fn f(x: &str /* {} */) {{}}\n", "é".repeat(150));
    let f = index_file(Lang::Rust, &source).unwrap();
    assert_eq!(f.symbols[0].signature.as_deref(), Some(source.trim_end()));
    let source = format!("fn g(x: &str /* {} */) {{}}\n", "é".repeat(300));
    let g = index_file(Lang::Rust, &source).unwrap();
    let s = g.symbols[0].signature.clone().unwrap();
    assert_eq!(s.chars().count(), 201);
    assert!(s.starts_with("fn g(x: &str /* é") && s.ends_with("é…"));
}

#[test]
fn repositories_are_read_from_their_rows() {
    assert_eq!(read_languages("[\"rust\", \"go\"]"), vec!["rust", "go"]);
    assert_eq!(write_languages(&vec!["a\"b".to_string(), "go".to_string()]), "[\"a\\\"b\",\"go\"]");
    assert_eq!(write_languages(&vec![]), "[]");
    assert!(read_languages("[\"rust\", 1]").is_empty());
    assert!(read_languages("{}").is_empty());
    assert!(read_languages("rust").is_empty());
    let r = repo_of("r".to_string(), "/r".to_string(), 3, -1, "[\"python\"]");
    assert_eq!((r.name.as_str(), r.path.as_str(), r.file_count, r.symbol_count), ("r", "/r", 3, 0));
    assert_eq!(r.languages, vec!["python"]);
}
