//! How tasks are classified and routed, and the small machinery around it.

use vstd::prelude::*;

use crate::json::Json;
use crate::outside;
use crate::text;

pub mod budget;
pub mod policy;
pub mod registry;
pub mod repair;
pub mod retriever;
pub mod retry;
pub mod router;
pub mod templates;
pub mod traces;
pub mod validate;

verus! {

// ---------------------------------------------------------------------------
// Classification
// ---------------------------------------------------------------------------

/// Whether a text names a kind of task.
pub open spec fn is_label(s: Seq<char>) -> bool {
    s == "coding"@ || s == "editing"@ || s == "search"@ || s == "shell"@ || s == "explanation"@ || s
        == "multi_step"@ || s == "debugging"@ || s == "backend"@
}

/// The kind of task that a text in lower case names, or the one that the rules
/// give.
pub fn pick_label(lowered: &str, by_rules: &'static str) -> (r: &'static str)
    ensures
        ({
            let s = text::stripped_end(lowered@, ".,!?"@);
            r@ == (if is_label(s) {
                s
            } else {
                by_rules@
            })
        }),
{
    let s = text::trim_end_set(lowered, ".,!?");
    if text::same(&s, "coding") {
        "coding"
    } else if text::same(&s, "editing") {
        "editing"
    } else if text::same(&s, "search") {
        "search"
    } else if text::same(&s, "shell") {
        "shell"
    } else if text::same(&s, "explanation") {
        "explanation"
    } else if text::same(&s, "multi_step") {
        "multi_step"
    } else if text::same(&s, "debugging") {
        "debugging"
    } else if text::same(&s, "backend") {
        "backend"
    } else {
        by_rules
    }
}

/// The kind of task that a model named, or, where it named none, the one that
/// the rules give.
pub fn classify_task_compiled(answer: &Option<String>, by_rules: &'static str) -> (r: &'static str)
    ensures
        r@ == match *answer {
            Some(a) => {
                let s = text::stripped_end(outside::lowered(text::trimmed(a@)), ".,!?"@);
                if is_label(s) {
                    s
                } else {
                    by_rules@
                }
            },
            None => by_rules@,
        },
{
    match answer {
        Some(a) => {
            let l = outside::to_lowercase(&text::trim(a));
            pick_label(&l, by_rules)
        },
        None => by_rules,
    }
}

// ---------------------------------------------------------------------------
// Complexity
// ---------------------------------------------------------------------------

pub const REWRITE_PATTERN: &'static str =
    r"(?i)\b(refactor|redesign|architect|rewrite|migrate|convert)\b";

pub const MANY_FILES_PATTERN: &'static str =
    r"(?i)\b(multi.?file|multiple files|across files|all files)\b";

pub const SYSTEM_PATTERN: &'static str = r"(?i)\b(system|framework|infrastructure|full.?stack)\b";

pub const SUITE_PATTERN: &'static str = r"(?i)\b(test suite|integration test|e2e)\b";

pub const STEPS_PATTERN: &'static str = r"(?i)\b(and then|step \d|first.*then.*finally)\b";

pub const TOUCH_PATTERN: &'static str = r"(?i)\b(fix typo|rename|add comment|format|lint)\b";

pub const ASK_PATTERN: &'static str = r"(?i)\b(what is|explain|show me|read)\b";

pub const SMALL_PATTERN: &'static str = r"(?i)\b(simple|quick|small|minor)\b";

/// Whether a message in lower case asks for something large.
pub open spec fn asks_much(l: Seq<char>) -> bool {
    ||| outside::regex_matches(REWRITE_PATTERN@, l)
    ||| outside::regex_matches(MANY_FILES_PATTERN@, l)
    ||| outside::regex_matches(SYSTEM_PATTERN@, l)
    ||| outside::regex_matches(SUITE_PATTERN@, l)
    ||| outside::regex_matches(STEPS_PATTERN@, l)
}

/// Whether a message in lower case asks for something small.
pub open spec fn asks_little(l: Seq<char>) -> bool {
    ||| outside::regex_matches(TOUCH_PATTERN@, l)
    ||| outside::regex_matches(ASK_PATTERN@, l)
    ||| outside::regex_matches(SMALL_PATTERN@, l)
}

/// How complex a task is, in tenths.
pub open spec fn complexity(bytes: nat, much: bool, little: bool) -> u32 {
    if bytes == 0 {
        5
    } else if much || bytes > 500 {
        8
    } else if bytes < 100 && little {
        2
    } else {
        5
    }
}

/// How complex a task is, in tenths, by the length of the message and what it
/// asks for.
pub fn rate(bytes: usize, much: bool, little: bool) -> (r: u32)
    ensures
        r == complexity(bytes as nat, much, little),
{
    if bytes == 0 {
        5
    } else if much || bytes > 500 {
        8
    } else if bytes < 100 && little {
        2
    } else {
        5
    }
}

/// How complex a task is, in tenths.
pub fn estimate_complexity(message: &str) -> (r: u32)
    ensures
        r == complexity(
            text::utf8_len(message@),
            asks_much(outside::lowered(message@)),
            asks_little(outside::lowered(message@)),
        ),
{
    let l = outside::to_lowercase(message);
    let much = outside::regex_is_match(REWRITE_PATTERN, &l) || outside::regex_is_match(
        MANY_FILES_PATTERN,
        &l,
    ) || outside::regex_is_match(SYSTEM_PATTERN, &l) || outside::regex_is_match(SUITE_PATTERN, &l)
        || outside::regex_is_match(STEPS_PATTERN, &l);
    let little = outside::regex_is_match(TOUCH_PATTERN, &l) || outside::regex_is_match(
        ASK_PATTERN,
        &l,
    ) || outside::regex_is_match(SMALL_PATTERN, &l);
    rate(text::byte_len(message), much, little)
}

/// Whether messages can be classified by a model: they always can.
pub fn is_compiled_cognition_available() -> (r: bool)
    ensures
        r,
{
    true
}

/// The provider that is asked directly: there is none, since each provider has
/// a type of its own.
pub fn get_compiled_provider() -> (r: Option<Json>)
    ensures
        r is None,
{
    None
}

/// The eight kinds of task are known by their names; a model's answer counts
/// where it names one of them, and only there.
pub proof fn law_labels(s: Seq<char>, answer: &Option<String>, by_rules: &'static str, r: &'static str)
    requires
        call_ensures(classify_task_compiled, (answer, by_rules), r),
    ensures
        is_label(s) <==> seq![
            "coding"@,
            "editing"@,
            "search"@,
            "shell"@,
            "explanation"@,
            "multi_step"@,
            "debugging"@,
            "backend"@,
        ].contains(s),
        *answer is None ==> r@ == by_rules@,
        *answer matches Some(a) ==> {
            let named = text::stripped_end(outside::lowered(text::trimmed(a@)), ".,!?"@);
            &&& r@ == named || r@ == by_rules@
            &&& is_label(named) ==> r@ == named
            &&& !is_label(named) ==> r@ == by_rules@
        },
{
    let v = seq![
        "coding"@,
        "editing"@,
        "search"@,
        "shell"@,
        "explanation"@,
        "multi_step"@,
        "debugging"@,
        "backend"@,
    ];
    assert(v[0] == "coding"@ && v[1] == "editing"@ && v[2] == "search"@ && v[3] == "shell"@);
    assert(v[4] == "explanation"@ && v[5] == "multi_step"@ && v[6] == "debugging"@ && v[7] == "backend"@);
}

/// A task that asks for much, or at length, is complex; a short one that asks
/// for little is not; any other stands between.
pub proof fn law_complexity(bytes: nat, much: bool, little: bool)
    ensures
        bytes > 0 && much ==> complexity(bytes, much, little) == 8,
        bytes > 500 ==> complexity(bytes, much, little) == 8,
        0 < bytes < 100 && little && !much ==> complexity(bytes, much, little) == 2,
        !much && bytes <= 500 && (!little || bytes >= 100) ==> complexity(bytes, much, little) == 5,
        bytes == 0 ==> complexity(bytes, much, little) == 5,
        complexity(bytes, false, little) <= complexity(bytes, true, little),
        complexity(bytes, much, true) <= complexity(bytes, much, false),
{
}

} // verus!
