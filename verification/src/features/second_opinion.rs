//! What a second model is asked, and how it is asked.

use vstd::prelude::*;

use crate::features;
use crate::json;
use crate::json::Json;
use crate::outside;
use crate::text;

verus! {

// ---------------------------------------------------------------------------
// Questions
// ---------------------------------------------------------------------------

/// The evidence for an assertion.
pub open spec fn evidence_text(
    evidence: Seq<char>,
    check: Option<(Seq<char>, i64, Seq<char>)>,
) -> Seq<char> {
    "Description: "@ + evidence + (match check {
        Some((command, code, observation)) => "\nCommand: "@ + command + "\nExit code: "@
            + text::decimal_int(code as int) + "\nOutput: "@ + observation,
        None => Seq::empty(),
    })
}

/// Whether an assertion is passed: the question.
pub open spec fn assertion_question(assertion: Seq<char>, evidence: Seq<char>) -> Seq<char> {
    "You are an independent verifier checking whether a software task assertion was correctly verified.\n\nAssertion: "@
        + assertion + "\n\nEvidence:\n"@ + evidence
        + "\n\nIs this assertion ACTUALLY passed based on the evidence?\n- Return {\"verified\":true} if the evidence clearly and specifically confirms it.\n- Return {\"verified\":false,\"reason\":\"...\"} if the evidence is insufficient, vague, or contradicts the assertion.\n\nReturn ONLY JSON."@
}

pub open spec fn check_text(check: Option<(String, i64, String)>) -> Option<
    (Seq<char>, i64, Seq<char>),
> {
    match check {
        Some((command, code, observation)) => Some((command@, code, observation@)),
        None => None,
    }
}

/// Whether an assertion is passed: the question.
pub fn assertion_prompt(
    assertion: &str,
    evidence: &str,
    check: &Option<(String, i64, String)>,
) -> (r: String)
    ensures
        r@ == assertion_question(assertion@, evidence_text(evidence@, check_text(*check))),
{
    let mut shown = text::cat2("Description: ", evidence);
    match check {
        Some((command, code, observation)) => {
            let n = text::signed_number(*code);
            let more = text::cat6(
                "\nCommand: ",
                command,
                "\nExit code: ",
                &n,
                "\nOutput: ",
                observation,
            );
            shown.push_str(&more);
        },
        None => {
            assert(shown@ + Seq::<char>::empty() =~= shown@);
        },
    }
    text::cat5(
        "You are an independent verifier checking whether a software task assertion was correctly verified.\n\nAssertion: ",
        assertion,
        "\n\nEvidence:\n",
        &shown,
        "\n\nIs this assertion ACTUALLY passed based on the evidence?\n- Return {\"verified\":true} if the evidence clearly and specifically confirms it.\n- Return {\"verified\":false,\"reason\":\"...\"} if the evidence is insufficient, vague, or contradicts the assertion.\n\nReturn ONLY JSON.",
    )
}

/// Why an assertion may not be passed, by the value that an answer holds; only
/// a plain no counts.
pub open spec fn dispute_in(j: Option<json::JsonText>) -> Option<Seq<char>> {
    match j {
        Some(j) => if j.member_boolean("verified"@) == Some(false) {
            Some(j.member_text_or("reason"@, "insufficient evidence"@))
        } else {
            None
        },
        None => None,
    }
}

/// Why an assertion may not be passed, by the value that an answer holds.
pub fn dispute_of(j: &Option<Json>) -> (r: Option<String>)
    ensures
        text::opt_text(r) == dispute_in(json::opt_value(*j)),
{
    match j {
        Some(j) => match j.get_bool("verified") {
            Some(false) => Some(j.get_str_or("reason", "insufficient evidence")),
            _ => None,
        },
        None => None,
    }
}

/// Why an assertion may not be passed, by an answer, if one came.
pub fn verify_assertion_passed(answer: &Option<String>) -> (r: Option<String>)
    ensures
        text::opt_text(r) == match *answer {
            Some(a) => dispute_in(outside::json_value(features::unfenced(a@))),
            None => None,
        },
{
    match answer {
        Some(a) => {
            let j = features::parse_fenced(a);
            dispute_of(&j)
        },
        None => None,
    }
}

/// An assertion that is passed: its identifier, what it says, and the evidence.
#[derive(Debug)]
pub struct PassedAssertion {
    pub id: String,
    pub text: String,
    pub evidence: String,
}

pub open spec fn passed_line(a: PassedAssertion) -> Seq<char> {
    "["@ + a.id@ + "] "@ + a.text@ + "\n       evidence: "@ + a.evidence@
}

pub open spec fn passed_lines(v: Seq<PassedAssertion>) -> Seq<Seq<char>> {
    v.map_values(|a: PassedAssertion| passed_line(a))
}

/// Whether a contract is complete: the question.
pub open spec fn contract_question(brief: Seq<char>, list: Seq<char>) -> Seq<char> {
    "You are doing a final review before a software task is marked complete.\n\nTask brief: "@
        + brief + "\n\nAssertions marked passed:\n"@ + list
        + "\n\nAre you confident ALL assertions are genuinely satisfied and the solution is complete?\n- Return {\"accept\":true} if yes.\n- Return {\"accept\":false,\"disputed\":[\"A1\"],\"reason\":\"...\"} if you doubt any.\n\nReturn ONLY JSON."@
}

/// Whether a contract is complete: the question.
pub fn contract_prompt(brief: &str, v: &Vec<PassedAssertion>) -> (r: String)
    ensures
        r@ == contract_question(brief@, text::join(passed_lines(v@), "\n"@)),
{
    let mut lines: Vec<String> = Vec::new();
    let mut i: usize = 0;
    while i < v.len()
        invariant
            i <= v.len(),
            lines.len() == i,
            forall|j: int| 0 <= j < i ==> (#[trigger] lines@[j])@ == passed_line(v@[j]),
        decreases v.len() - i,
    {
        lines.push(
            text::cat6("[", &v[i].id, "] ", &v[i].text, "\n       evidence: ", &v[i].evidence),
        );
        i = i + 1;
    }
    assert(text::texts(lines@) =~= passed_lines(v@));
    let list = text::join_with(&lines, "\n");
    text::cat5(
        "You are doing a final review before a software task is marked complete.\n\nTask brief: ",
        brief,
        "\n\nAssertions marked passed:\n",
        &list,
        "\n\nAre you confident ALL assertions are genuinely satisfied and the solution is complete?\n- Return {\"accept\":true} if yes.\n- Return {\"accept\":false,\"disputed\":[\"A1\"],\"reason\":\"...\"} if you doubt any.\n\nReturn ONLY JSON.",
    )
}

/// Which assertions are in doubt, by the value that an answer holds: only a
/// plain no that names some counts.
pub open spec fn disputed_in(j: Option<json::JsonText>) -> Option<Seq<Seq<char>>> {
    match j {
        Some(j) => if j.member_boolean("accept"@) == Some(false) {
            match j.member_items("disputed"@) {
                Some(v) => if json::strings_in(v).len() > 0 {
                    Some(json::strings_in(v))
                } else {
                    None
                },
                None => None,
            }
        } else {
            None
        },
        None => None,
    }
}

pub open spec fn opt_texts(o: Option<Vec<String>>) -> Option<Seq<Seq<char>>> {
    match o {
        Some(v) => Some(text::texts(v@)),
        None => None,
    }
}

/// Which assertions are in doubt, by the value that an answer holds.
pub fn disputed_of(j: &Option<Json>) -> (r: Option<Vec<String>>)
    ensures
        opt_texts(r) == disputed_in(json::opt_value(*j)),
{
    match j {
        Some(j) => match j.get_bool("accept") {
            Some(false) => match j.get_array("disputed") {
                Some(v) => {
                    let found = json::strings_of(v);
                    assert(text::texts(found@).len() == found@.len());
                    if found.len() == 0 {
                        None
                    } else {
                        Some(found)
                    }
                },
                None => None,
            },
            _ => None,
        },
        None => None,
    }
}

/// Which assertions are in doubt, by an answer, if one came.
pub fn verify_contract_complete(answer: &Option<String>) -> (r: Option<Vec<String>>)
    ensures
        opt_texts(r) == match *answer {
            Some(a) => disputed_in(outside::json_value(features::unfenced(a@))),
            None => None,
        },
{
    match answer {
        Some(a) => {
            let j = features::parse_fenced(a);
            disputed_of(&j)
        },
        None => None,
    }
}

// ---------------------------------------------------------------------------
// Asking
// ---------------------------------------------------------------------------

/// A model may think for so many tokens.
pub const THINKING_BUDGET: u64 = 2048;

/// A model may write so many tokens, thoughts and answer together.
pub const ANSWER_TOKENS: u64 = 6144;

/// The first of some keys that is set, unless it is empty.
pub open spec fn chosen_key(
    first: Option<Seq<char>>,
    second: Option<Seq<char>>,
    third: Option<Seq<char>>,
) -> Option<Seq<char>> {
    let key = if first is Some {
        first
    } else if second is Some {
        second
    } else {
        third
    };
    match key {
        Some(k) => if k.len() > 0 {
            Some(k)
        } else {
            None
        },
        None => None,
    }
}

/// The first of some keys that is set, unless it is empty.
pub fn choose_key(first: Option<String>, second: Option<String>, third: Option<String>) -> (r:
    Option<String>)
    ensures
        text::opt_text(r) == chosen_key(
            text::opt_text(first),
            text::opt_text(second),
            text::opt_text(third),
        ),
{
    let key = match first {
        Some(k) => Some(k),
        None => match second {
            Some(k) => Some(k),
            None => third,
        },
    };
    match key {
        Some(k) => if k.as_str().is_empty() {
            None
        } else {
            Some(k)
        },
        None => None,
    }
}

/// Where a question is sent.
pub fn chat_url(base_url: &str) -> (r: String)
    ensures
        r@ == base_url@ + "/chat/completions"@,
{
    text::cat2(base_url, "/chat/completions")
}

/// A question as it is sent to a model.
pub open spec fn chat_request_text(prompt: Seq<char>, model: Seq<char>) -> json::JsonText {
    json::JsonText::Table(
        seq![
            ("model"@, json::JsonText::Text(model)),
            (
                "messages"@,
                json::JsonText::List(
                    seq![
                        json::JsonText::Table(
                            seq![
                                ("role"@, json::JsonText::Text("user"@)),
                                ("content"@, json::JsonText::Text(prompt)),
                            ],
                        ),
                    ],
                ),
            ),
            ("temperature"@, json::JsonText::Float("0.2"@)),
            ("max_tokens"@, json::JsonText::Unsigned(ANSWER_TOKENS)),
            ("enable_thinking"@, json::JsonText::Bool(true)),
            ("thinking_budget"@, json::JsonText::Unsigned(THINKING_BUDGET)),
            (
                "chat_template_kwargs"@,
                json::JsonText::Table(
                    seq![
                        ("enable_thinking"@, json::JsonText::Bool(true)),
                        ("thinking_budget"@, json::JsonText::Unsigned(THINKING_BUDGET)),
                    ],
                ),
            ),
            (
                "thinking"@,
                json::JsonText::Table(
                    seq![
                        ("type"@, json::JsonText::Text("enabled"@)),
                        ("budget_tokens"@, json::JsonText::Unsigned(THINKING_BUDGET)),
                    ],
                ),
            ),
        ],
    )
}

/// A question as it is sent to a model, with room for its thoughts.
pub fn chat_request(prompt: &str, model: &str) -> (r: Json)
    ensures
        r@ == chat_request_text(prompt@, model@),
{
    let message = json::table2("role", json::word("user"), "content", json::word(prompt));
    let template = json::table2(
        "enable_thinking",
        Json::Bool(true),
        "thinking_budget",
        Json::Unsigned(THINKING_BUDGET),
    );
    let thinking = json::table2(
        "type",
        json::word("enabled"),
        "budget_tokens",
        Json::Unsigned(THINKING_BUDGET),
    );
    let messages = json::list(vec![message]);
    let members = vec![
        ("model".to_owned(), json::word(model)),
        ("messages".to_owned(), messages),
        ("temperature".to_owned(), Json::Float("0.2".to_owned())),
        ("max_tokens".to_owned(), Json::Unsigned(ANSWER_TOKENS)),
        ("enable_thinking".to_owned(), Json::Bool(true)),
        ("thinking_budget".to_owned(), Json::Unsigned(THINKING_BUDGET)),
        ("chat_template_kwargs".to_owned(), template),
        ("thinking".to_owned(), thinking),
    ];
    let r = json::table(members);
    assert(r@->Table_0 =~= chat_request_text(prompt@, model@)->Table_0) by {
        assert(messages@->List_0 =~= seq![message@]);
    }
    r
}

/// What a model answered.
pub open spec fn answer_in(j: json::JsonText) -> Option<Seq<char>> {
    match j.member_items("choices"@) {
        Some(v) => if v.len() > 0 {
            match v[0].member("message"@) {
                Some(m) => m.member_text("content"@),
                None => None,
            }
        } else {
            None
        },
        None => None,
    }
}

/// What a model answered.
pub fn answer_of(j: &Json) -> (r: Option<String>)
    ensures
        text::opt_text(r) == answer_in(j@),
{
    match j.get_array("choices") {
        Some(v) => {
            assert(json::values(v@).len() == v@.len());
            if v.len() > 0 {
                assert(json::values(v@)[0] == v@[0]@);
                match v[0].get("message") {
                    Some(m) => m.get_str("content"),
                    None => None,
                }
            } else {
                None
            }
        },
        None => None,
    }
}

/// What a model answered, or why there is no answer.
pub fn direct_chat(answer: &Json) -> (r: Result<String, String>)
    ensures
        match answer_in(answer@) {
            Some(s) => r matches Ok(t) && t@ == s,
            None => r matches Err(e) && e@ == "empty response"@,
        },
{
    match answer_of(answer) {
        Some(s) => Ok(s),
        None => Err("empty response".to_owned()),
    }
}

/// Why a request was refused.
pub fn api_error(status: u16, body: &str) -> (r: String)
    ensures
        r@ == "API "@ + text::decimal(status as nat) + ": "@ + text::clip(body@, 200),
{
    let n = text::number(status as u64);
    let shown = text::clip_bytes(body, 200);
    text::cat4("API ", &n, ": ", &shown)
}

// ---------------------------------------------------------------------------
// Laws
// ---------------------------------------------------------------------------

/// The question whether an assertion holds names it, and all the evidence for
/// it.
pub proof fn law_evidence_is_shown(
    assertion: Seq<char>,
    evidence: Seq<char>,
    command: Seq<char>,
    code: i64,
    seen: Seq<char>,
)
    ensures
        text::has(evidence_text(evidence, None), evidence),
        text::has(evidence_text(evidence, Some((command, code, seen))), evidence),
        text::has(
            evidence_text(evidence, Some((command, code, seen))),
            "\nCommand: "@ + command + "\nExit code: "@ + text::decimal_int(code as int)
                + "\nOutput: "@ + seen,
        ),
        text::has(assertion_question(assertion, evidence), assertion),
        text::has(assertion_question(assertion, evidence), evidence),
{
    let d = "Description: "@;
    let run = "\nCommand: "@ + command + "\nExit code: "@ + text::decimal_int(code as int)
        + "\nOutput: "@ + seen;
    text::law_affixes(evidence, d, Seq::empty());
    text::law_affixes(evidence, d, run);
    text::law_affixes(run, d + evidence, Seq::empty());
    assert(d + evidence + run + Seq::<char>::empty() =~= d + evidence + run);
    let q = assertion_question(assertion, evidence);
    let a = "You are an independent verifier checking whether a software task assertion was correctly verified.\n\nAssertion: "@;
    let b = "\n\nEvidence:\n"@;
    let c = q.skip((a + assertion + b + evidence).len() as int);
    assert(q =~= a + assertion + (b + evidence + c));
    text::law_affixes(assertion, a, b + evidence + c);
    assert(q =~= (a + assertion + b) + evidence + c);
    text::law_affixes(evidence, a + assertion + b, c);
}

/// An assertion is doubted where the second model says that it is not verified,
/// with its reason; no other answer doubts it.
pub proof fn law_doubts(j: json::JsonText, s: Seq<char>)
    ensures
        j.member_boolean("verified"@) == Some(false) && j.member_text("reason"@) == Some(s)
            ==> dispute_in(Some(j)) == Some(s),
        j.member_boolean("verified"@) == Some(false) ==> dispute_in(Some(j)) is Some,
        j.member_boolean("verified"@) == Some(true) ==> dispute_in(Some(j)) is None,
        j.member_boolean("verified"@) is None ==> dispute_in(Some(j)) is None,
        dispute_in(None) is None,
{
}

/// The question whether a contract is done names the task, and each assertion
/// with what it says and its evidence.
pub proof fn law_contract_is_shown(brief: &str, v: &Vec<PassedAssertion>, r: String, i: int)
    requires
        call_ensures(contract_prompt, (brief, v), r),
    ensures
        text::has(r@, brief@),
        0 <= i < v@.len() ==> text::has(
            r@,
            "["@ + v@[i].id@ + "] "@ + v@[i].text@ + "\n       evidence: "@ + v@[i].evidence@,
        ),
{
    let lines = passed_lines(v@);
    let list = text::join(lines, "\n"@);
    let a = "You are doing a final review before a software task is marked complete.\n\nTask brief: "@;
    let b = "\n\nAssertions marked passed:\n"@;
    let c = r@.skip((a + brief@ + b + list).len() as int);
    assert(r@ =~= a + brief@ + (b + list + c));
    text::law_affixes(brief@, a, b + list + c);
    if 0 <= i < v@.len() {
        assert(lines[i] == passed_line(v@[i]));
        text::lemma_joined_part(lines, "\n"@, i);
        assert(r@ =~= (a + brief@ + b) + list + c);
        text::lemma_has_within(r@, a + brief@ + b, list, c, lines[i]);
    }
}

/// A contract is doubted where the second model does not accept it and names
/// what it disputes.
pub proof fn law_disputes(j: json::JsonText, v: Seq<json::JsonText>, i: int)
    ensures
        disputed_in(None) is None,
        j.member_boolean("accept"@) != Some(false) ==> disputed_in(Some(j)) is None,
        j.member_boolean("accept"@) == Some(false) && j.member_items("disputed"@) == Some(v) && 0
            <= i < v.len() && v[i] is Text ==> (disputed_in(Some(j)) matches Some(d) && d.contains(
            v[i]->Text_0,
        )),
        j.member_items("disputed"@) is None ==> disputed_in(Some(j)) is None,
{
    if 0 <= i < v.len() && v[i] is Text {
        json::lemma_string_in(v, i);
    }
}

/// The first key that is set counts, and an empty one is none.
pub proof fn law_keys(
    a: Seq<char>,
    first: Option<Seq<char>>,
    second: Option<Seq<char>>,
    third: Option<Seq<char>>,
)
    requires
        a.len() > 0,
    ensures
        chosen_key(Some(a), second, third) == Some(a),
        chosen_key(None, Some(a), third) == Some(a),
        chosen_key(None, None, Some(a)) == Some(a),
        chosen_key(None, None, None) is None,
        chosen_key(first, second, third) matches Some(k) ==> k.len() > 0 && (first == Some(k)
            || second == Some(k) || third == Some(k)),
{
}

/// A request asks the model with the prompt as the user's words; the answer is
/// what its first choice says.
pub proof fn law_chat(prompt: Seq<char>, model: Seq<char>, j: json::JsonText, v: Seq<json::JsonText>)
    ensures
        chat_request_text(prompt, model).member_text("model"@) == Some(model),
        chat_request_text(prompt, model).member_items("messages"@) matches Some(m) && m.len() == 1
            && m[0].member_text("role"@) == Some("user"@) && m[0].member_text("content"@) == Some(
            prompt,
        ),
        chat_request_text(prompt, model).member_unsigned("max_tokens"@) == Some(6144u64),
        chat_request_text(prompt, model).member_unsigned("thinking_budget"@) == Some(2048u64),
        j.member_items("choices"@) == Some(v) && v.len() > 0 ==> (v[0].member(
            "message"@,
        ) matches Some(m) ==> answer_in(j) == m.member_text("content"@)),
        j.member_items("choices"@) is None ==> answer_in(j) is None,
{
    reveal_strlit("model");
    reveal_strlit("messages");
    reveal_strlit("temperature");
    reveal_strlit("max_tokens");
    reveal_strlit("enable_thinking");
    reveal_strlit("thinking_budget");
    reveal_strlit("chat_template_kwargs");
    reveal_strlit("thinking");
    reveal_strlit("role");
    reveal_strlit("content");
    assert("model"@.len() == 5 && "messages"@.len() == 8 && "temperature"@.len() == 11 && "max_tokens"@.len() == 10 && "enable_thinking"@.len() == 15 && "thinking_budget"@.len() == 15 && "chat_template_kwargs"@.len() == 20 && "thinking"@.len() == 8 && "role"@.len() == 4 && "content"@.len() == 7);
    assert("messages"@[0] == 'm' && "thinking"@[0] == 't' && "enable_thinking"@[0] == 'e' && "thinking_budget"@[0] == 't');
    let t = chat_request_text(prompt, model)->Table_0;
    assert(t[0].0 == "model"@);
    assert(t[1].0 == "messages"@);
    assert(t[2].0 == "temperature"@);
    assert(t[3].0 == "max_tokens"@);
    assert(t[4].0 == "enable_thinking"@);
    assert(t[5].0 == "thinking_budget"@);
    assert(t[6].0 == "chat_template_kwargs"@);
    assert(t[7].0 == "thinking"@);
    json::law_lookup(t, "model"@, 0);
    json::law_lookup(t, "messages"@, 1);
    json::law_lookup(t, "temperature"@, 2);
    json::law_lookup(t, "max_tokens"@, 3);
    json::law_lookup(t, "enable_thinking"@, 4);
    json::law_lookup(t, "thinking_budget"@, 5);
    json::law_lookup(t, "chat_template_kwargs"@, 6);
    json::law_lookup(t, "thinking"@, 7);
    let m = (t[1].1->List_0)[0]->Table_0;
    assert(m[0].0 == "role"@);
    assert(m[1].0 == "content"@);
    json::law_lookup(m, "role"@, 0);
    json::law_lookup(m, "content"@, 1);
}

} // verus!
