//! What is asked of models, and what is made of the answers.

use itsy::features::negotiation::{
    begin, merge_assertions, normalize_for_dedup, parse_assertion_array, review_assertions,
    settle_round, write_assertions, NegotiationStep, Review,
};
use itsy::features::second_opinion;
use itsy::features::{
    check_needs_clarification, decompose_task, diagnose_error, generate_commit_message,
    is_features_available, parse_fenced, repair_tool_call, second_instruction, semantic_merge,
    settle_checkpoint, strip_fences, summary_input, truncate, validate_edit_compiled,
    CheckpointDecision,
};

fn pair(id: &str, text: &str) -> (String, String) {
    (id.to_string(), text.to_string())
}

#[test]
fn strip_fences_handles_json_fence() {
    assert_eq!(strip_fences("```json\n{\"a\":1}\n```"), "{\"a\":1}");
}

#[test]
fn strip_fences_handles_bare_fence() {
    assert_eq!(strip_fences("```\ndata\n```"), "data");
}

#[test]
fn strip_fences_passes_through_unfenced() {
    assert_eq!(strip_fences("plain text"), "plain text");
    assert_eq!(strip_fences("{\"a\":1}"), "{\"a\":1}");
}

#[test]
fn strip_fences_handles_empty() {
    assert_eq!(strip_fences(""), "");
    assert_eq!(strip_fences("   "), "");
}

#[test]
fn truncate_short_strings_pass_through() {
    assert_eq!(truncate("hello", 10), "hello");
}

#[test]
fn truncate_long_strings_cap_at_n() {
    let s = "x".repeat(100);
    assert_eq!(truncate(&s, 20).len(), 20);
}

#[test]
fn truncate_respects_utf8_boundaries() {
    let r = truncate("héllo wörld", 5);
    assert!(r.len() <= 5);
    assert!(r.chars().count() > 0);
}

#[test]
fn merge_assertions_concatenates_unique_ids() {
    let a = vec![pair("A.001", "first")];
    let b = vec![pair("A.002", "second")];
    let merged = merge_assertions(a, b);
    assert_eq!(merged.len(), 2);
    assert_eq!(merged[0].0, "A.001");
    assert_eq!(merged[1].0, "A.002");
}

#[test]
fn merge_assertions_renames_collisions() {
    let a = vec![pair("A.001", "from a")];
    let b = vec![pair("A.001", "from b")];
    let merged = merge_assertions(a, b);
    assert_eq!(merged.len(), 2, "no assertion may be silently dropped");
    assert_eq!(merged[0].0, "A.001");
    assert_eq!(merged[1].0, "A.001_2", "duplicate ID must be renumbered, not collapsed");
    assert_eq!(merged[0].1, "from a");
    assert_eq!(merged[1].1, "from b");
}

#[test]
fn merge_assertions_handles_triple_collision() {
    let a = vec![pair("X", "a"), pair("X", "b")];
    let b = vec![pair("X", "c")];
    let merged = merge_assertions(a, b);
    assert_eq!(merged.len(), 3);
    let ids: Vec<&str> = merged.iter().map(|(id, _)| id.as_str()).collect();
    assert_eq!(ids, vec!["X", "X_2", "X_3"]);
}

#[test]
fn merge_assertions_empty_inputs() {
    assert!(merge_assertions(vec![], vec![]).is_empty());
    let a = vec![pair("A.001", "x")];
    assert_eq!(merge_assertions(a.clone(), vec![]), a);
    assert_eq!(merge_assertions(vec![], a.clone()), a);
}

#[test]
fn merge_assertions_dedupes_identical_text() {
    let a = vec![
        pair("A1", "pdflatex compiles main.tex successfully"),
        pair("A2", "no overfull hbox warnings"),
    ];
    let b = vec![
        pair("B1", "pdflatex compiles main.tex successfully"),
        pair("B2", "synonyms.txt is unchanged"),
    ];
    let merged = merge_assertions(a, b);
    assert_eq!(merged.len(), 3, "duplicate text must collapse");
    let texts: Vec<&str> = merged.iter().map(|(_, t)| t.as_str()).collect();
    assert!(texts.contains(&"pdflatex compiles main.tex successfully"));
    assert!(texts.contains(&"no overfull hbox warnings"));
    assert!(texts.contains(&"synonyms.txt is unchanged"));
}

#[test]
fn merge_assertions_dedupes_phrasing_variants() {
    let a = vec![pair("A1", "pdflatex compiles main.tex successfully (exit code 0)")];
    let b = vec![pair("B1", "pdflatex   compiles main.tex successfully, exit code 0.")];
    let merged = merge_assertions(a, b);
    assert_eq!(
        merged.len(),
        1,
        "casing/punctuation/whitespace differences must not bypass dedup"
    );
}

#[test]
fn merge_assertions_preserves_distinct_texts_under_same_id() {
    let a = vec![pair("A.001", "first thing")];
    let b = vec![pair("A.001", "totally different thing")];
    let merged = merge_assertions(a, b);
    assert_eq!(merged.len(), 2, "different text must not be deduped");
}

#[test]
fn normalize_strips_case_and_punctuation() {
    assert_eq!(normalize_for_dedup("Hello, World!"), "hello world");
    assert_eq!(normalize_for_dedup("  HELLO   world  "), "hello world");
    assert_eq!(normalize_for_dedup("foo.bar:baz"), "foo bar baz");
}

#[test]
fn normalize_collapses_whitespace() {
    assert_eq!(normalize_for_dedup("a\n\tb  c"), "a b c");
}

#[test]
fn normalize_empty_is_empty() {
    assert_eq!(normalize_for_dedup(""), "");
    assert_eq!(normalize_for_dedup("...  ,, !!"), "");
}

#[test]
fn normalize_drops_symbols_and_keeps_letters() {
    assert_eq!(normalize_for_dedup("É😀a-ß"), "éa ß");
}

#[test]
fn parse_assertions_valid_array() {
    let raw = r#"[{"id":"A.001","text":"hello world"},{"id":"A.002","text":"goodbye"}]"#;
    let r = parse_assertion_array(raw).unwrap();
    assert_eq!(r.len(), 2);
    assert_eq!(r[0], pair("A.001", "hello world"));
    assert_eq!(r[1], pair("A.002", "goodbye"));
}

#[test]
fn parse_assertions_strips_fences_first() {
    let raw = "```json\n[{\"id\":\"A.001\",\"text\":\"hello world\"}]\n```";
    let r = parse_assertion_array(raw).unwrap();
    assert_eq!(r.len(), 1);
}

#[test]
fn parse_assertions_drops_invalid_items() {
    let raw = r#"[
            {"id":"A.001","text":"valid one"},
            {"id":"","text":"empty id"},
            {"text":"missing id"},
            {"id":"A.002","text":"x"}
        ]"#;
    let r = parse_assertion_array(raw).unwrap();
    assert!(r.iter().any(|(id, _)| id == "A.001"));
    assert!(!r.iter().any(|(id, _)| id.is_empty()));
    assert!(
        !r.iter().any(|(id, _)| id == "A.002"),
        "text shorter than 5 chars must be dropped; got {r:?}"
    );
}

#[test]
fn parse_assertions_rejects_non_array() {
    assert!(parse_assertion_array("not json").is_none());
    assert!(parse_assertion_array("{\"obj\":true}").is_none());
    assert!(parse_assertion_array("[]").is_none(), "empty array → None");
}

#[test]
fn assertions_are_written_as_json() {
    let v = vec![pair("A", "say \"hi\""), pair("B", "x")];
    assert_eq!(
        write_assertions(&v),
        r#"[{"id":"A","text":"say \"hi\""},{"id":"B","text":"x"}]"#
    );
    assert_eq!(write_assertions(&vec![]), "[]");
}

#[test]
fn negotiation_ends_after_three_rounds() {
    let step = begin(vec![pair("A", "main one")], Some(vec![pair("A", "second one")]));
    let mut n = match step {
        NegotiationStep::Review(n) => n,
        other => panic!("expected a review, got {other:?}"),
    };
    assert_eq!(n.current.len(), 2);
    for round in 0..3 {
        let step = settle_round(n, Review::Revise(vec![pair("R", "revised")]), Review::Accept);
        match step {
            NegotiationStep::Review(next) => {
                assert!(round < 2);
                n = next;
            }
            NegotiationStep::Settled(v, both) => {
                assert_eq!(round, 2);
                assert!(both);
                assert_eq!(v, vec![pair("R", "revised")]);
                return;
            }
        }
    }
    unreachable!();
}

#[test]
fn negotiation_without_a_second_model() {
    match begin(vec![pair("A", "main one")], None) {
        NegotiationStep::Settled(v, both) => {
            assert!(!both);
            assert_eq!(v.len(), 1);
        }
        other => panic!("expected an end, got {other:?}"),
    }
    match begin(vec![pair("A", "main one")], Some(vec![])) {
        NegotiationStep::Settled(_, both) => assert!(!both),
        other => panic!("expected an end, got {other:?}"),
    }
}

#[test]
fn negotiation_caps_the_assertions() {
    let many: Vec<(String, String)> =
        (0..30).map(|i| pair(&format!("A{i}"), &format!("assertion {i}"))).collect();
    let n = match begin(many, Some(vec![pair("Z", "the last one")])) {
        NegotiationStep::Review(n) => n,
        other => panic!("expected a review, got {other:?}"),
    };
    match settle_round(n, Review::Accept, Review::Accept) {
        NegotiationStep::Settled(v, both) => {
            assert!(both);
            assert_eq!(v.len(), 24);
            assert_eq!(v[23].0, "A23");
        }
        other => panic!("expected an end, got {other:?}"),
    }
}

#[test]
fn a_failed_review_leaves_the_first_proposal() {
    let n = match begin(vec![pair("A", "main one")], Some(vec![pair("B", "second one")])) {
        NegotiationStep::Review(n) => n,
        other => panic!("expected a review, got {other:?}"),
    };
    let n = match settle_round(n, Review::Accept, Review::Revise(vec![pair("C", "third one")])) {
        NegotiationStep::Review(n) => n,
        other => panic!("expected a review, got {other:?}"),
    };
    match settle_round(n, Review::Failed, Review::Accept) {
        NegotiationStep::Settled(v, both) => {
            assert!(!both);
            assert_eq!(v, vec![pair("A", "main one")]);
        }
        other => panic!("expected an end, got {other:?}"),
    }
}

#[test]
fn reviews_revise_only_on_a_plain_no() {
    let no = r#"{"accept":false,"revised":[{"id":"A","text":"revised"}]}"#.to_string();
    assert!(matches!(review_assertions(&Some(no)), Review::Revise(v) if v == vec![pair("A", "revised")]));
    let yes = r#"{"accept":true,"revised":[{"id":"A","text":"revised"}]}"#.to_string();
    assert!(matches!(review_assertions(&Some(yes)), Review::Accept));
    assert!(matches!(review_assertions(&Some("{\"accept\":false}".to_string())), Review::Accept));
    assert!(matches!(review_assertions(&Some("nonsense".to_string())), Review::Failed));
    assert!(matches!(review_assertions(&None), Review::Failed));
}

#[test]
fn commit_messages_are_brought_into_form() {
    let files = Some("\"fix(parser): handle empty input.\"".to_string());
    assert_eq!(generate_commit_message("t", &files), "fix(parser): handle empty input");
    let bare = Some("Handle empty input".to_string());
    assert_eq!(generate_commit_message("t", &bare), "chore: Handle empty input");
    assert_eq!(generate_commit_message("say \"$x\"\nnow", &None), "itsy: say   x  now");
    let long = Some("y".repeat(200));
    assert_eq!(generate_commit_message("t", &long).len(), 72);
}

#[test]
fn edits_are_validated() {
    let r = validate_edit_compiled(&Some("There is an ERROR in line 3".to_string()));
    assert!(!r.ok);
    assert_eq!(r.issues, vec!["There is an ERROR in line 3".to_string()]);
    assert!(validate_edit_compiled(&Some("Looks good".to_string())).ok);
    assert!(validate_edit_compiled(&None).ok);
}

#[test]
fn vague_requests_are_seen() {
    assert!(check_needs_clarification(&Some("  VAGUE: what?".to_string()), false));
    assert!(!check_needs_clarification(&Some("clear".to_string()), true));
    assert!(check_needs_clarification(&None, true));
}

#[test]
fn failures_are_diagnosed() {
    let d = diagnose_error(
        "```json\n{\"type\":\"syntax\",\"file\":\"a.py\",\"line\":7,\"suggestion\":\"close it\"}\n```",
    )
    .unwrap();
    assert_eq!(d.kind, "syntax");
    assert_eq!(d.file.unwrap(), "a.py");
    assert_eq!(d.line, Some(7));
    assert_eq!(d.suggestion, "close it");
    let d = diagnose_error("{}").unwrap();
    assert_eq!(d.kind, "unknown");
    assert!(d.file.is_none());
    assert!(diagnose_error("nope").is_none());
    let d = diagnose_error("{\"line\":4294967303}").unwrap();
    assert_eq!(d.line, Some(7));
}

#[test]
fn strategies_fall_back() {
    let s = decompose_task("{\"strategy\":\"split_file\",\"instruction\":\"do it\"}").unwrap();
    assert_eq!(s.strategy, "split_file");
    let t = decompose_task("{\"strategy\":\"magic\"}").unwrap();
    assert_eq!(t.strategy, "rewrite_section");
    let other = Some("{\"strategy\":\"extract_function\",\"instruction\":\"pull it out\"}".to_string());
    assert_eq!(
        second_instruction(&s, &other),
        "do it\n[Second opinion — extract_function]: pull it out"
    );
    let same = Some("{\"strategy\":\"split_file\",\"instruction\":\"twice\"}".to_string());
    assert_eq!(second_instruction(&s, &same), "do it twice");
    assert_eq!(second_instruction(&s, &Some("junk".to_string())), "do it");
    assert_eq!(second_instruction(&s, &None), "do it");
}

#[test]
fn small_decisions() {
    assert!(is_features_available("m"));
    assert!(!is_features_available(""));
    assert_eq!(semantic_merge("```\nx\n```").unwrap(), "x");
    assert!(semantic_merge("```\n```").is_none());
    assert_eq!(settle_checkpoint(None), CheckpointDecision::Approve);
    assert_eq!(settle_checkpoint(Some(CheckpointDecision::Reject)), CheckpointDecision::Reject);
    assert!(repair_tool_call(Ok("x".to_string())).ok);
    let bad = repair_tool_call(Err("e".to_string()));
    assert_eq!(bad.error.unwrap(), "e");
    assert!(summary_input(&"l\n".repeat(50)).is_none());
    assert!(summary_input(&"l\n".repeat(99)).is_some());
}

#[test]
fn second_opinions_doubt_only_plainly() {
    let no = Some("{\"verified\":false}".to_string());
    assert_eq!(
        second_opinion::verify_assertion_passed(&no).unwrap(),
        "insufficient evidence"
    );
    assert!(second_opinion::verify_assertion_passed(&Some("{}".to_string())).is_none());
    assert!(second_opinion::verify_assertion_passed(&None).is_none());
    let doubt = Some("{\"accept\":false,\"disputed\":[\"A1\",2]}".to_string());
    assert_eq!(
        second_opinion::verify_contract_complete(&doubt).unwrap(),
        vec!["A1".to_string()]
    );
    let empty = Some("{\"accept\":false,\"disputed\":[]}".to_string());
    assert!(second_opinion::verify_contract_complete(&empty).is_none());
}

#[test]
fn questions_are_put_as_json() {
    let q = second_opinion::chat_request("why?", "m1");
    assert_eq!(q.get_str("model").unwrap(), "m1");
    assert_eq!(q.get_u64("max_tokens"), Some(6144));
    assert_eq!(q.pointer("messages/0/content").unwrap().as_str().unwrap(), "why?");
    assert_eq!(second_opinion::chat_url("http://h/v1"), "http://h/v1/chat/completions");
    let a = parse_fenced("{\"choices\":[{\"message\":{\"content\":\"so\"}}]}").unwrap();
    assert_eq!(second_opinion::direct_chat(&a).unwrap(), "so");
    let none = parse_fenced("{\"choices\":[]}").unwrap();
    assert_eq!(second_opinion::direct_chat(&none).unwrap_err(), "empty response");
    assert_eq!(second_opinion::api_error(500, &"b".repeat(300)).len(), 9 + 200);
    assert_eq!(
        second_opinion::choose_key(None, Some("k".to_string()), None).unwrap(),
        "k"
    );
    assert!(second_opinion::choose_key(Some(String::new()), Some("k".to_string()), None).is_none());
    let p = second_opinion::assertion_prompt("A", "seen", &Some(("ls".to_string(), -1, "x".to_string())));
    assert!(p.contains("Description: seen\nCommand: ls\nExit code: -1\nOutput: x"));
}

#[test]
fn what_a_text_says_is_plain() {
    for s in ["Hello, World!", "  A.b--C  ", "x\u{7}y", "42 Is_the Answer?", ""] {
        let r = normalize_for_dedup(s);
        assert_eq!(normalize_for_dedup(&r), r);
        assert_eq!(normalize_for_dedup(&s.to_ascii_uppercase()), r);
        assert!(r.chars().all(|c| c == ' ' || c.is_ascii_lowercase() || c.is_ascii_digit()));
        assert!(!r.contains("  ") && r.trim() == r);
    }
    assert_eq!(normalize_for_dedup("42 Is_the Answer?"), "42 is the answer");
}
