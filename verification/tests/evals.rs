//! Suites of cases.

use itsy::evals::{
    format_results, known_suite, response_quality, suite_to_value, tool_selection, CaseResult,
    EvalRunner, SuiteResult,
};

#[test]
fn known_suite_recognises_canonical_names() {
    assert_eq!(known_suite("classify_accuracy"), Ok("classify_accuracy"));
    assert_eq!(known_suite("tool_selection"), Ok("tool_selection"));
    assert_eq!(known_suite("response_quality"), Ok("response_quality"));
}

#[test]
fn known_suite_lists_available_on_unknown() {
    let err = known_suite("nonexistent").unwrap_err();
    assert!(err.contains("Unknown suite: nonexistent"));
    assert!(err.contains("classify_accuracy"));
    assert!(err.contains("tool_selection"));
    assert!(err.contains("response_quality"));
}

#[test]
fn format_results_renders_pass_fail_marks() {
    let r = SuiteResult {
        suite: "test".into(),
        name: "Test Suite".into(),
        total: 2,
        passed: 1,
        failed: 1,
        score: "50.0%".into(),
        cases: vec![
            CaseResult { input: "input one".into(), passed: true, got: "ok".into(), expected: Some("ok".into()) },
            CaseResult { input: "input two".into(), passed: false, got: "wrong".into(), expected: Some("right".into()) },
        ],
    };
    let out = format_results(&r);
    assert!(out.contains("Test Suite"));
    assert!(out.contains("50.0%"));
    assert!(out.contains("✓"));
    assert!(out.contains("✗"));
    assert!(out.contains("exp: right"));
    assert!(out.contains("input one"));
    assert_eq!(out.lines().nth(2).unwrap(), format!("  {}", "─".repeat(40)));
}

#[test]
fn format_results_truncates_long_inputs() {
    let long_in = "x".repeat(500);
    let r = SuiteResult {
        suite: "t".into(),
        name: "N".into(),
        total: 1,
        passed: 1,
        failed: 0,
        score: "100%".into(),
        cases: vec![CaseResult { input: long_in, passed: true, got: "ok".into(), expected: None }],
    };
    let out = format_results(&r);
    let x_run = out.matches('x').count();
    assert!(x_run <= 60, "must truncate long input; got {x_run} xs");
}

#[test]
fn suite_to_value_round_trips() {
    let r = SuiteResult {
        suite: "test".into(),
        name: "Test".into(),
        total: 3,
        passed: 2,
        failed: 1,
        score: "66.7%".into(),
        cases: vec![],
    };
    let v = suite_to_value(&r);
    assert_eq!(v.get_str("suite").unwrap(), "test");
    assert_eq!(v.get_u64("passed"), Some(2));
    assert_eq!(v.get_u64("failed"), Some(1));
    assert_eq!(v.get_u64("total"), Some(3));
    assert_eq!(v.get_str("score").unwrap(), "66.7%");
}

#[test]
fn run_classify_returns_deterministic_results() {
    let mut r = EvalRunner::new();
    let got: Vec<String> = [
        "coding", "explanation", "search", "coding", "coding", "explanation", "coding",
        "debugging", "refactoring", "shell",
    ]
    .iter()
    .map(|s| s.to_string())
    .collect();
    let result = r.run_classify(&got);
    assert_eq!(r.results.len(), 1);
    assert_eq!(r.results[0].score, result.score);
    assert!(result.total > 0);
    assert_eq!(
        result.total,
        result.passed + result.failed,
        "total must equal passed + failed"
    );
    assert!(result.score.contains('%'));
    assert_eq!(result.score, "8/10 (80%)");
    assert!(!result.cases[2].passed);
    assert!(result.cases[8].passed);
}

#[test]
fn tools_and_answers_are_judged() {
    let mut r = EvalRunner::new();
    assert!(r.results.is_empty());
    let got: Vec<Option<String>> = (0..8).map(|_| Some("bash".to_string())).collect();
    r.run_tool_selection(&got);
    assert_eq!(r.results[0].score, "2/8 (25%)");
    let none: Vec<Option<String>> = (0..8).map(|_| None).collect();
    r.run_tool_selection(&none);
    assert_eq!(r.results[1].cases[0].got, "(no tool)");
    let answers: Vec<String> = (0..3).map(|_| "4 is the answer. ".repeat(20)).collect();
    r.run_response_quality(&answers);
    let q = &r.results[2];
    assert_eq!(q.passed, 2);
    assert_eq!(q.cases[0].got.chars().count(), 100);
    let answers = vec!["short".to_string(), "use LET".to_string(), "five".to_string()];
    r.run_response_quality(&answers);
    let q = &r.results[3];
    assert!(!q.cases[0].passed);
    assert!(q.cases[1].passed);
    assert!(!q.cases[2].passed);
}

#[test]
fn eval_runner_new_starts_empty() {
    let r = EvalRunner::new();
    assert!(r.results.is_empty());
}

#[test]
fn run_tool_selection_invokes_chat_fn() {
    let mut r = EvalRunner::new();
    let mut asked = 0;
    let mut got: Vec<Option<String>> = Vec::new();
    for _case in tool_selection() {
        asked += 1;
        got.push(Some("bash".to_string()));
    }
    let result = r.run_tool_selection(&got);
    assert!(result.total > 0);
    assert_eq!(asked, result.total, "one answer must be asked for per test case");
}

#[test]
fn run_response_quality_evaluates_checks() {
    let mut r = EvalRunner::new();
    let answers: Vec<String> =
        response_quality().iter().map(|_| "4 is the answer. ".repeat(20)).collect();
    let result = r.run_response_quality(&answers);
    assert!(result.total > 0);
    assert_eq!(result.total, result.passed + result.failed);
}
