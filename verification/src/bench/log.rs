//! The log of a trial, made of the conversation of its agent.

use vstd::prelude::*;

use crate::bench::ContractAssertion;
use crate::json;
use crate::json::Json;
use crate::outside;
use crate::text;

verus! {

#[derive(Debug, Clone, Copy, PartialEq, Eq, Structural)]
pub enum LogKind {
    Thinking,
    Text,
    ToolCall,
    ToolOk,
    ToolErr,
    /// A further line of what a tool answered.
    ToolBody,
    /// A hint that the model got.
    Nudge,
    Tokens,
}

#[derive(Debug)]
pub struct LogLine {
    pub kind: LogKind,
    pub text: String,
}

pub ghost struct LogText {
    pub kind: LogKind,
    pub text: Seq<char>,
}

impl View for LogLine {
    type V = LogText;

    open spec fn view(&self) -> LogText {
        LogText { kind: self.kind, text: self.text@ }
    }
}

pub open spec fn log_texts(v: Seq<LogLine>) -> Seq<LogText> {
    v.map_values(|l: LogLine| l@)
}

pub open spec fn line(kind: LogKind, text: Seq<char>) -> LogText {
    LogText { kind, text }
}

fn add_line(out: &mut Vec<LogLine>, kind: LogKind, s: String)
    ensures
        log_texts(final(out)@) == log_texts(old(out)@).push(line(kind, s@)),
{
    let ghost before = log_texts(out@);
    let l = LogLine { kind, text: s };
    out.push(l);
    assert(log_texts(out@) =~= before.push(l@));
}

// ---------------------------------------------------------------------------
// Calls
// ---------------------------------------------------------------------------

/// A text of the function that is called.
pub open spec fn called(call: json::JsonText, key: Seq<char>) -> Option<Seq<char>> {
    match call.member("function"@) {
        Some(f) => f.member_text(key),
        None => None,
    }
}

fn called_text(call: &Json, key: &str) -> (r: Option<String>)
    ensures
        text::opt_text(r) == called(call@, key@),
{
    match call.get("function") {
        Some(f) => f.get_str(key),
        None => None,
    }
}

pub open spec fn called_or(call: json::JsonText, key: Seq<char>, default: Seq<char>) -> Seq<char> {
    match called(call, key) {
        Some(s) => s,
        None => default,
    }
}

fn called_text_or(call: &Json, key: &str, default: &str) -> (r: String)
    ensures
        r@ == called_or(call@, key@, default@),
{
    match called_text(call, key) {
        Some(s) => s,
        None => default.to_owned(),
    }
}

/// The first line of a text; all of it when it has no lines.
pub open spec fn first_line(s: Seq<char>) -> Seq<char> {
    if text::lines(s).len() > 0 {
        text::lines(s)[0]
    } else {
        s
    }
}

/// What a call is about, in few words, by the name of the tool and its
/// arguments.
pub open spec fn hint(name: Seq<char>, args: json::JsonText) -> Seq<char> {
    if name == "read_file"@ || name == "write_file"@ || name == "patch_file"@ || name
        == "read_and_patch"@ {
        match args.member_text("path"@) {
            Some(p) => "("@ + text::behind_last(p, "/"@) + ")"@,
            None => Seq::empty(),
        }
    } else if name == "bash"@ {
        match args.member_text("command"@) {
            Some(c) => "$ "@ + text::head(first_line(c), 50),
            None => Seq::empty(),
        }
    } else {
        Seq::empty()
    }
}

/// What a call is about, in few words; nothing when its arguments cannot be
/// read.
pub open spec fn call_hint(call: json::JsonText) -> Seq<char> {
    match outside::json_value(called_or(call, "arguments"@, "{}"@)) {
        Some(args) => hint(called_or(call, "name"@, ""@), args),
        None => Seq::empty(),
    }
}

fn nothing() -> (r: String)
    ensures
        r@ == Seq::<char>::empty(),
{
    let r = String::new();
    assert(r@ =~= Seq::<char>::empty());
    r
}

fn first_line_of(s: &str) -> (r: String)
    ensures
        r@ == first_line(s@),
{
    let lines = text::lines_of(s);
    assert(text::texts(lines@).len() == lines@.len());
    if lines.len() > 0 {
        assert(text::texts(lines@)[0] == lines@[0]@);
        lines[0].clone()
    } else {
        s.to_owned()
    }
}

/// What a call is about, in few words, by the name of the tool and its
/// arguments.
pub fn hint_of(name: &str, args: &Json) -> (r: String)
    ensures
        r@ == hint(name@, args@),
{
    if text::same(name, "read_file") || text::same(name, "write_file") || text::same(
        name,
        "patch_file",
    ) || text::same(name, "read_and_patch") {
        match args.get_str("path") {
            Some(p) => {
                let short = text::after_last(&p, "/");
                text::cat3("(", &short, ")")
            },
            None => nothing(),
        }
    } else if text::same(name, "bash") {
        match args.get_str("command") {
            Some(c) => {
                let first = first_line_of(&c);
                let short = text::take_chars(&first, 50);
                text::cat2("$ ", &short)
            },
            None => nothing(),
        }
    } else {
        nothing()
    }
}

/// What a call is about, in few words.
pub fn tool_arg_hint(call: &Json) -> (r: String)
    ensures
        r@ == call_hint(call@),
{
    let raw = called_text_or(call, "arguments", "{}");
    match outside::json_parse(&raw) {
        Some(args) => {
            let name = called_text_or(call, "name", "");
            hint_of(&name, &args)
        },
        None => nothing(),
    }
}

// ---------------------------------------------------------------------------
// What the model says
// ---------------------------------------------------------------------------

/// The lines of a text, without blanks around them, that hold anything.
pub open spec fn solid_lines(v: Seq<Seq<char>>) -> Seq<Seq<char>>
    decreases v.len(),
{
    if v.len() == 0 {
        Seq::empty()
    } else if text::trimmed(v.last()).len() > 0 {
        solid_lines(v.drop_last()).push(text::trimmed(v.last()))
    } else {
        solid_lines(v.drop_last())
    }
}

/// A text in one line of at most a hundred and twenty characters.
pub open spec fn preview(s: Seq<char>) -> Seq<char> {
    let p = text::join(solid_lines(text::lines(text::trimmed(s))), " "@);
    if p.len() > 120 {
        text::head(p, 120) + "…"@
    } else {
        p
    }
}

/// What a model thought, as it is shown.
pub open spec fn thought_lines(m: json::JsonText) -> Seq<LogText> {
    match m.member_text("reasoning_content"@) {
        Some(s) => if text::trimmed(s).len() > 0 {
            seq![line(LogKind::Thinking, "~ "@ + preview(s))]
        } else {
            Seq::empty()
        },
        None => Seq::empty(),
    }
}

/// What a model said, as it is shown.
pub open spec fn said_lines(m: json::JsonText) -> Seq<LogText> {
    match m.member_text("content"@) {
        Some(s) => if text::trimmed(s).len() > 0 {
            text::lines(text::trimmed(s)).map_values(
                |l: Seq<char>| line(LogKind::Text, "▷ "@ + l),
            )
        } else {
            Seq::empty()
        },
        None => Seq::empty(),
    }
}

pub open spec fn call_line(call: json::JsonText) -> LogText {
    let name = called_or(call, "name"@, "?"@);
    let h = call_hint(call);
    line(
        LogKind::ToolCall,
        if h.len() == 0 {
            "⚙ "@ + name
        } else {
            "⚙ "@ + name + " "@ + h
        },
    )
}

/// What a model called, as it is shown.
pub open spec fn call_lines(m: json::JsonText) -> Seq<LogText> {
    match m.member_items("tool_calls"@) {
        Some(v) => v.map_values(|c: json::JsonText| call_line(c)),
        None => Seq::empty(),
    }
}

// ---------------------------------------------------------------------------
// What tools and users say
// ---------------------------------------------------------------------------

/// What a tool answered: its result when the answer is a value with one, and
/// the answer itself otherwise.
pub open spec fn result_in(raw: Seq<char>, value: Option<json::JsonText>) -> Seq<char> {
    match value {
        Some(j) => match j.member_text("result"@) {
            Some(s) => s,
            None => raw,
        },
        None => raw,
    }
}

/// Whether an answer tells of a failure.
pub open spec fn is_failure(s: Seq<char>) -> bool {
    ||| text::starts(s, "Error"@)
    ||| text::has(s, "Exit code"@)
    ||| text::starts(s, "[LOOP"@)
    ||| text::starts(s, "[SYSTEM]"@)
}

/// Up to three further lines of an answer, from the `i`th on, that hold
/// anything.
pub open spec fn body_lines(v: Seq<Seq<char>>, i: int) -> Seq<LogText>
    decreases 4 - i,
{
    if i < 1 || i >= 4 || i >= v.len() {
        Seq::empty()
    } else if text::trimmed(v[i]).len() > 0 {
        seq![line(LogKind::ToolBody, "  "@ + v[i])] + body_lines(v, i + 1)
    } else {
        body_lines(v, i + 1)
    }
}

/// An answer, as it is shown.
pub open spec fn answer_lines(s: Seq<char>) -> Seq<LogText> {
    let v = text::lines(s);
    let first = if v.len() > 0 {
        v[0]
    } else {
        ""@
    };
    seq![
        if is_failure(s) {
            line(LogKind::ToolErr, "✗ "@ + first)
        } else {
            line(LogKind::ToolOk, "✓ "@ + first)
        },
    ] + body_lines(v, 1) + (if v.len() > 4 {
        seq![line(LogKind::ToolBody, "  … +"@ + text::decimal((v.len() - 4) as nat) + " lines"@)]
    } else {
        Seq::empty()
    })
}

/// A hint of the system, as it is shown; nothing of anything else that a user
/// says.
pub open spec fn nudge_lines(m: json::JsonText) -> Seq<LogText> {
    match m.member_text("content"@) {
        Some(s) => if text::starts(s, "[SYSTEM]"@) {
            seq![
                line(
                    LogKind::Nudge,
                    "◆ "@ + text::head(text::trimmed(text::unprefixed(s, "[SYSTEM]"@)), 100),
                ),
            ]
        } else {
            Seq::empty()
        },
        None => Seq::empty(),
    }
}

/// A message, as it is shown.
pub open spec fn message_lines(m: json::JsonText) -> Seq<LogText> {
    let role = m.member_text_or("role"@, ""@);
    if role == "assistant"@ {
        thought_lines(m) + said_lines(m) + call_lines(m)
    } else if role == "tool"@ {
        match m.member_text("content"@) {
            Some(raw) => answer_lines(result_in(raw, outside::json_value(raw))),
            None => Seq::empty(),
        }
    } else if role == "user"@ {
        nudge_lines(m)
    } else {
        Seq::empty()
    }
}

/// A conversation, as it is shown.
pub open spec fn conversation_lines(v: Seq<json::JsonText>) -> Seq<LogText>
    decreases v.len(),
{
    if v.len() == 0 {
        Seq::empty()
    } else {
        conversation_lines(v.drop_last()) + message_lines(v.last())
    }
}

/// The messages of the request that a chat records.
pub open spec fn messages_in(chat: json::JsonText) -> Option<Seq<json::JsonText>> {
    match chat.member("request"@) {
        Some(r) => r.member_items("messages"@),
        None => None,
    }
}

fn preview_of(s: &str) -> (r: String)
    ensures
        r@ == preview(s@),
{
    let bare = text::trim(s);
    let lines = text::lines_of(&bare);
    let ghost all = text::texts(lines@);
    let mut kept: Vec<String> = Vec::new();
    let mut i: usize = 0;
    assert(text::texts(kept@) =~= solid_lines(all.take(0)));
    while i < lines.len()
        invariant
            i <= lines.len(),
            all == text::texts(lines@),
            text::texts(kept@) == solid_lines(all.take(i as int)),
        decreases lines.len() - i,
    {
        assert(all.take(i + 1).drop_last() =~= all.take(i as int));
        assert(all.take(i + 1).last() == lines@[i as int]@);
        let l = text::trim(&lines[i]);
        if !l.as_str().is_empty() {
            proof {
                text::lemma_texts_push(kept@, l);
            }
            kept.push(l);
        }
        i = i + 1;
    }
    assert(all.take(i as int) =~= all);
    let p = text::join_with(&kept, " ");
    let v = text::chars(&p);
    if v.len() > 120 {
        let short = text::take_chars(&p, 120);
        text::cat2(&short, "…")
    } else {
        p
    }
}

fn add_thought(out: &mut Vec<LogLine>, m: &Json)
    ensures
        log_texts(final(out)@) == log_texts(old(out)@) + thought_lines(m@),
{
    let ghost start = log_texts(out@);
    match m.get_str("reasoning_content") {
        Some(s) => {
            let bare = text::trim(&s);
            if !bare.as_str().is_empty() {
                let p = preview_of(&s);
                add_line(out, LogKind::Thinking, text::cat2("~ ", &p));
                assert(log_texts(out@) =~= start + thought_lines(m@));
            } else {
                assert(start + thought_lines(m@) =~= start);
            }
        },
        None => {
            assert(start + thought_lines(m@) =~= start);
        },
    }
}

fn add_said(out: &mut Vec<LogLine>, m: &Json)
    ensures
        log_texts(final(out)@) == log_texts(old(out)@) + said_lines(m@),
{
    let ghost start = log_texts(out@);
    let ghost wanted = said_lines(m@);
    match m.get_str("content") {
        Some(s) => {
            let bare = text::trim(&s);
            if bare.as_str().is_empty() {
                assert(start + wanted =~= start);
                return;
            }
            let lines = text::lines_of(&bare);
            assert(text::texts(lines@).len() == lines@.len());
            let mut i: usize = 0;
            assert(start + wanted.take(0) =~= start);
            while i < lines.len()
                invariant
                    i <= lines.len(),
                    text::texts(lines@) == text::lines(bare@),
                    lines@.len() == wanted.len(),
                    wanted == text::lines(bare@).map_values(
                        |l: Seq<char>| line(LogKind::Text, "▷ "@ + l),
                    ),
                    log_texts(out@) == start + wanted.take(i as int),
                decreases lines.len() - i,
            {
                assert(text::texts(lines@)[i as int] == lines@[i as int]@);
                add_line(out, LogKind::Text, text::cat2("▷ ", &lines[i]));
                assert(start + wanted.take(i + 1) =~= (start + wanted.take(i as int)).push(
                    wanted[i as int],
                ));
                i = i + 1;
            }
            assert(wanted.take(i as int) =~= wanted);
        },
        None => {
            assert(start + wanted =~= start);
        },
    }
}

fn add_calls(out: &mut Vec<LogLine>, m: &Json)
    ensures
        log_texts(final(out)@) == log_texts(old(out)@) + call_lines(m@),
{
    let ghost start = log_texts(out@);
    let ghost wanted = call_lines(m@);
    match m.get_array("tool_calls") {
        Some(v) => {
            assert(json::values(v@).len() == v@.len());
            let mut i: usize = 0;
            assert(start + wanted.take(0) =~= start);
            while i < v.len()
                invariant
                    i <= v.len(),
                    v@.len() == wanted.len(),
                    wanted == json::values(v@).map_values(|c: json::JsonText| call_line(c)),
                    log_texts(out@) == start + wanted.take(i as int),
                decreases v.len() - i,
            {
                assert(json::values(v@)[i as int] == v@[i as int]@);
                let name = called_text_or(&v[i], "name", "?");
                let h = tool_arg_hint(&v[i]);
                let s = if h.as_str().is_empty() {
                    text::cat2("⚙ ", &name)
                } else {
                    text::cat4("⚙ ", &name, " ", &h)
                };
                add_line(out, LogKind::ToolCall, s);
                assert(start + wanted.take(i + 1) =~= (start + wanted.take(i as int)).push(
                    wanted[i as int],
                ));
                i = i + 1;
            }
            assert(wanted.take(i as int) =~= wanted);
        },
        None => {
            assert(start + wanted =~= start);
        },
    }
}

/// What a tool answered, when the value that the answer holds is known.
pub fn result_of(raw: String, value: &Option<Json>) -> (r: String)
    ensures
        r@ == result_in(raw@, json::opt_value(*value)),
{
    match value {
        Some(j) => match j.get_str("result") {
            Some(s) => s,
            None => raw,
        },
        None => raw,
    }
}

fn add_body(out: &mut Vec<LogLine>, lines: &Vec<String>)
    ensures
        log_texts(final(out)@) == log_texts(old(out)@) + body_lines(text::texts(lines@), 1),
{
    let ghost start = log_texts(out@);
    let ghost all = text::texts(lines@);
    assert(all.len() == lines@.len());
    let mut i: usize = 1;
    assert(start + body_lines(all, 1) =~= log_texts(out@) + body_lines(all, 1));
    while i < 4 && i < lines.len()
        invariant
            1 <= i <= 4,
            all == text::texts(lines@),
            all.len() == lines@.len(),
            log_texts(out@) + body_lines(all, i as int) == start + body_lines(all, 1),
        decreases 4 - i,
    {
        assert(all[i as int] == lines@[i as int]@);
        let ghost before = log_texts(out@);
        let bare = text::trim(&lines[i]);
        if !bare.as_str().is_empty() {
            add_line(out, LogKind::ToolBody, text::cat2("  ", &lines[i]));
            assert(before.push(line(LogKind::ToolBody, "  "@ + all[i as int])) + body_lines(
                all,
                i + 1,
            ) =~= before + body_lines(all, i as int));
        }
        i = i + 1;
    }
    assert(body_lines(all, i as int) =~= Seq::<LogText>::empty());
    assert(log_texts(out@) + body_lines(all, i as int) =~= log_texts(out@));
}

/// Adds an answer, as it is shown.
pub fn add_answer(out: &mut Vec<LogLine>, s: &str)
    ensures
        log_texts(final(out)@) == log_texts(old(out)@) + answer_lines(s@),
{
    let ghost start = log_texts(out@);
    let lines = text::lines_of(s);
    let ghost all = text::texts(lines@);
    assert(all.len() == lines@.len());
    let first: String = if lines.len() > 0 {
        assert(all[0] == lines@[0]@);
        lines[0].clone()
    } else {
        "".to_owned()
    };
    let failure = text::starts_with(s, "Error") || text::contains(s, "Exit code")
        || text::starts_with(s, "[LOOP") || text::starts_with(s, "[SYSTEM]");
    if failure {
        add_line(out, LogKind::ToolErr, text::cat2("✗ ", &first));
    } else {
        add_line(out, LogKind::ToolOk, text::cat2("✓ ", &first));
    }
    add_body(out, &lines);
    if lines.len() > 4 {
        let n = text::number((lines.len() - 4) as u64);
        add_line(out, LogKind::ToolBody, text::cat3("  … +", &n, " lines"));
    }
    assert(log_texts(out@) =~= start + answer_lines(s@));
}

fn add_nudge(out: &mut Vec<LogLine>, m: &Json)
    ensures
        log_texts(final(out)@) == log_texts(old(out)@) + nudge_lines(m@),
{
    let ghost start = log_texts(out@);
    match m.get_str("content") {
        Some(s) => {
            if text::starts_with(&s, "[SYSTEM]") {
                proof {
                    reveal_strlit("[SYSTEM]");
                }
                let short = text::trim(&text::trim_start_text(&s, "[SYSTEM]"));
                let p = text::take_chars(&short, 100);
                add_line(out, LogKind::Nudge, text::cat2("◆ ", &p));
                assert(log_texts(out@) =~= start + nudge_lines(m@));
            } else {
                assert(start + nudge_lines(m@) =~= start);
            }
        },
        None => {
            assert(start + nudge_lines(m@) =~= start);
        },
    }
}

fn add_message(out: &mut Vec<LogLine>, m: &Json)
    ensures
        log_texts(final(out)@) == log_texts(old(out)@) + message_lines(m@),
{
    let ghost start = log_texts(out@);
    let role = m.get_str_or("role", "");
    if text::same(&role, "assistant") {
        add_thought(out, m);
        add_said(out, m);
        add_calls(out, m);
        assert(log_texts(out@) =~= start + message_lines(m@));
    } else if text::same(&role, "tool") {
        match m.get_str("content") {
            Some(raw) => {
                let value = outside::json_parse(&raw);
                let s = result_of(raw, &value);
                add_answer(out, &s);
            },
            None => {
                assert(start + Seq::<LogText>::empty() =~= start);
            },
        }
    } else if text::same(&role, "user") {
        add_nudge(out, m);
    } else {
        assert(start + Seq::<LogText>::empty() =~= start);
    }
}

fn messages_of(chat: &Json) -> (r: Option<&Vec<Json>>)
    ensures
        match r {
            Some(v) => messages_in(chat@) == Some(json::values(v@)),
            None => messages_in(chat@) is None,
        },
{
    match chat.get("request") {
        Some(q) => q.get_array("messages"),
        None => None,
    }
}

/// The log of the conversation that a chat records.
pub fn load_rich_log(chat: &Json) -> (r: Vec<LogLine>)
    ensures
        log_texts(r@) == match messages_in(chat@) {
            Some(v) => conversation_lines(v),
            None => Seq::empty(),
        },
{
    let mut out: Vec<LogLine> = Vec::new();
    match messages_of(chat) {
        Some(v) => {
            let ghost all = json::values(v@);
            let mut i: usize = 0;
            assert(log_texts(out@) =~= conversation_lines(all.take(0)));
            while i < v.len()
                invariant
                    i <= v.len(),
                    all == json::values(v@),
                    log_texts(out@) == conversation_lines(all.take(i as int)),
                decreases v.len() - i,
            {
                assert(all.take(i + 1).drop_last() =~= all.take(i as int));
                assert(all.take(i + 1).last() == v@[i as int]@);
                add_message(&mut out, &v[i]);
                i = i + 1;
            }
            assert(all.take(i as int) =~= all);
        },
        None => {
            assert(log_texts(out@) =~= Seq::<LogText>::empty());
        },
    }
    out
}

/// The log of a chat by its text; an empty one when it cannot be read.
pub fn read_log(source: &str) -> (r: Vec<LogLine>)
    ensures
        log_texts(r@) == match outside::json_value(source@) {
            Some(chat) => match messages_in(chat) {
                Some(v) => conversation_lines(v),
                None => Seq::empty(),
            },
            None => Seq::empty(),
        },
{
    match outside::json_parse(source) {
        Some(chat) => load_rich_log(&chat),
        None => {
            let out: Vec<LogLine> = Vec::new();
            assert(log_texts(out@) =~= Seq::<LogText>::empty());
            out
        },
    }
}

/// What comes later in a conversation changes nothing of the log of what came
/// before.
pub proof fn law_log_grows(v: Seq<json::JsonText>, m: json::JsonText)
    ensures
        conversation_lines(v.push(m)) == conversation_lines(v) + message_lines(m),
{
    assert(v.push(m).drop_last() =~= v);
}

// ---------------------------------------------------------------------------
// The contract
// ---------------------------------------------------------------------------

pub open spec fn assertion_texts(v: Seq<json::JsonText>) -> Seq<(Seq<char>, Seq<char>)> {
    v.map_values(
        |a: json::JsonText| (a.member_text_or("id"@, "?"@), a.member_text_or("text"@, "?"@)),
    )
}

pub open spec fn contract_texts(v: Seq<ContractAssertion>) -> Seq<(Seq<char>, Seq<char>)> {
    v.map_values(|a: ContractAssertion| (a.id@, a.text@))
}

/// The contract that a call proposes, when it is one and its arguments can be
/// read.
pub open spec fn proposed_by(call: json::JsonText) -> Option<Seq<(Seq<char>, Seq<char>)>> {
    if called(call, "name"@) == Some("propose_contract"@) {
        match called(call, "arguments"@) {
            Some(raw) => match outside::json_value(raw) {
                Some(args) => match args.member_items("assertions"@) {
                    Some(v) => Some(assertion_texts(v)),
                    None => None,
                },
                None => None,
            },
            None => None,
        }
    } else {
        None
    }
}

/// The first contract that some calls propose, from the `i`th on.
pub open spec fn proposed_in(calls: Seq<json::JsonText>, i: int) -> Option<
    Seq<(Seq<char>, Seq<char>)>,
>
    decreases calls.len() - i,
{
    if i < 0 || i >= calls.len() {
        None
    } else {
        match proposed_by(calls[i]) {
            Some(c) => Some(c),
            None => proposed_in(calls, i + 1),
        }
    }
}

/// The contract that a message proposes.
pub open spec fn proposed_with(m: json::JsonText) -> Option<Seq<(Seq<char>, Seq<char>)>> {
    if m.member_text("role"@) == Some("assistant"@) {
        match m.member_items("tool_calls"@) {
            Some(calls) => proposed_in(calls, 0),
            None => None,
        }
    } else {
        None
    }
}

/// The first contract that is proposed in a conversation, from the `i`th
/// message on.
pub open spec fn first_contract(v: Seq<json::JsonText>, i: int) -> Option<
    Seq<(Seq<char>, Seq<char>)>,
>
    decreases v.len() - i,
{
    if i < 0 || i >= v.len() {
        None
    } else {
        match proposed_with(v[i]) {
            Some(c) => Some(c),
            None => first_contract(v, i + 1),
        }
    }
}

/// The contract in a chat.
pub open spec fn contract_in(chat: json::JsonText) -> Option<Seq<(Seq<char>, Seq<char>)>> {
    match messages_in(chat) {
        Some(v) => first_contract(v, 0),
        None => None,
    }
}

pub open spec fn opt_contract(o: Option<Vec<ContractAssertion>>) -> Option<
    Seq<(Seq<char>, Seq<char>)>,
> {
    match o {
        Some(v) => Some(contract_texts(v@)),
        None => None,
    }
}

fn read_assertions(v: &Vec<Json>) -> (r: Vec<ContractAssertion>)
    ensures
        contract_texts(r@) == assertion_texts(json::values(v@)),
{
    let ghost wanted = assertion_texts(json::values(v@));
    let mut r: Vec<ContractAssertion> = Vec::new();
    let mut i: usize = 0;
    while i < v.len()
        invariant
            i <= v.len(),
            r.len() == i,
            wanted == assertion_texts(json::values(v@)),
            forall|k: int|
                0 <= k < i ==> ((#[trigger] r@[k]).id@, r@[k].text@) == wanted[k],
        decreases v.len() - i,
    {
        assert(json::values(v@)[i as int] == v@[i as int]@);
        let a = ContractAssertion {
            id: v[i].get_str_or("id", "?"),
            text: v[i].get_str_or("text", "?"),
        };
        assert((a.id@, a.text@) == wanted[i as int]);
        r.push(a);
        i = i + 1;
    }
    assert(contract_texts(r@) =~= wanted);
    r
}

fn proposal_of(call: &Json) -> (r: Option<Vec<ContractAssertion>>)
    ensures
        opt_contract(r) == proposed_by(call@),
{
    let proposes = match called_text(call, "name") {
        Some(n) => text::same(&n, "propose_contract"),
        None => false,
    };
    if !proposes {
        return None;
    }
    match called_text(call, "arguments") {
        Some(raw) => match outside::json_parse(&raw) {
            Some(args) => match args.get_array("assertions") {
                Some(v) => Some(read_assertions(v)),
                None => None,
            },
            None => None,
        },
        None => None,
    }
}

fn proposal_in_calls(calls: &Vec<Json>) -> (r: Option<Vec<ContractAssertion>>)
    ensures
        opt_contract(r) == proposed_in(json::values(calls@), 0),
{
    let ghost all = json::values(calls@);
    let mut i: usize = 0;
    while i < calls.len()
        invariant
            i <= calls.len(),
            all == json::values(calls@),
            all.len() == calls@.len(),
            proposed_in(all, 0) == proposed_in(all, i as int),
        decreases calls.len() - i,
    {
        assert(all[i as int] == calls@[i as int]@);
        let p = proposal_of(&calls[i]);
        if p.is_some() {
            return p;
        }
        i = i + 1;
    }
    None
}

fn proposal_in_message(m: &Json) -> (r: Option<Vec<ContractAssertion>>)
    ensures
        opt_contract(r) == proposed_with(m@),
{
    let by_model = match m.get_str("role") {
        Some(role) => text::same(&role, "assistant"),
        None => false,
    };
    if !by_model {
        return None;
    }
    match m.get_array("tool_calls") {
        Some(calls) => proposal_in_calls(calls),
        None => None,
    }
}

/// The first contract that is proposed in a chat, if one is.
pub fn parse_contract(chat: &Json) -> (r: Option<Vec<ContractAssertion>>)
    ensures
        opt_contract(r) == contract_in(chat@),
{
    match messages_of(chat) {
        Some(v) => {
            let ghost all = json::values(v@);
            let mut i: usize = 0;
            while i < v.len()
                invariant
                    i <= v.len(),
                    all == json::values(v@),
                    all.len() == v@.len(),
                    messages_in(chat@) == Some(all),
                    first_contract(all, 0) == first_contract(all, i as int),
                decreases v.len() - i,
            {
                assert(all[i as int] == v@[i as int]@);
                let p = proposal_in_message(&v[i]);
                if p.is_some() {
                    return p;
                }
                i = i + 1;
            }
            None
        },
        None => None,
    }
}

/// The first contract in a chat by its text.
pub fn read_contract(source: &str) -> (r: Option<Vec<ContractAssertion>>)
    ensures
        opt_contract(r) == match outside::json_value(source@) {
            Some(chat) => contract_in(chat),
            None => None,
        },
{
    match outside::json_parse(source) {
        Some(chat) => parse_contract(&chat),
        None => None,
    }
}

/// A reply is shown as its thoughts, its words and its calls, in this order; the
/// user's own words are not shown.
pub proof fn law_messages_are_shown(m: json::JsonText, s: Seq<char>, i: int)
    ensures
        m.member_text("role"@) == Some("assistant"@) ==> message_lines(m) == thought_lines(m)
            + said_lines(m) + call_lines(m),
        m.member_text("content"@) == Some(s) && text::trimmed(s).len() > 0 && 0 <= i
            < text::lines(text::trimmed(s)).len() ==> said_lines(m).len() == text::lines(
            text::trimmed(s),
        ).len() && said_lines(m)[i].kind is Text && text::ends(
            said_lines(m)[i].text,
            text::lines(text::trimmed(s))[i],
        ),
        m.member_text("content"@) == Some(s) && text::trimmed(s).len() == 0 ==> said_lines(m).len()
            == 0,
        m.member_text("role"@) == Some("user"@) && m.member_text("content"@) == Some(s)
            && !text::starts(s, "[SYSTEM]"@) ==> message_lines(m).len() == 0,
        m.member_text("role"@) == Some("user"@) && m.member_text("content"@) == Some(s)
            && text::starts(s, "[SYSTEM]"@) ==> message_lines(m).len() == 1 && message_lines(
            m,
        )[0].kind is Nudge,
        m.member_text("role"@) == Some("system"@) ==> message_lines(m).len() == 0,
{
    reveal_strlit("assistant");
    reveal_strlit("tool");
    reveal_strlit("user");
    reveal_strlit("system");
    assert("assistant"@.len() == 9 && "tool"@.len() == 4 && "user"@.len() == 4 && "system"@.len() == 6);
    assert("tool"@[0] == 't' && "user"@[0] == 'u');
    if 0 <= i < text::lines(text::trimmed(s)).len() {
        text::law_affixes(text::lines(text::trimmed(s))[i], "▷ "@, Seq::empty());
    }
}

/// Each call is shown with the name of its tool.
pub proof fn law_calls_are_shown(m: json::JsonText, v: Seq<json::JsonText>, i: int, f: json::JsonText, n: Seq<char>)
    requires
        m.member_items("tool_calls"@) == Some(v),
        0 <= i < v.len(),
        v[i].member("function"@) == Some(f),
        f.member_text("name"@) == Some(n),
    ensures
        call_lines(m).len() == v.len(),
        call_lines(m)[i].kind is ToolCall,
        text::starts(call_lines(m)[i].text, "⚙ "@ + n),
{
    let h = call_hint(v[i]);
    let a = "⚙ "@ + n;
    assert(a + " "@ + h =~= a + (" "@ + h));
    text::law_affixes(a, " "@ + h, Seq::empty());
    text::law_affixes(a, Seq::empty(), Seq::empty());
    assert(a + Seq::<char>::empty() =~= a);
}

/// A call on a file shows the file's name, and a command its first line.
pub proof fn law_hints(args: json::JsonText, dir: Seq<char>, file: Seq<char>, c: Seq<char>, name: Seq<char>)
    ensures
        args.member_text("path"@) == Some(file) && !file.contains('/') ==> hint("read_file"@, args)
            == "("@ + file + ")"@,
        args.member_text("path"@) is Some && (name == "read_file"@ || name == "write_file"@ || name
            == "patch_file"@ || name == "read_and_patch"@) ==> hint(name, args) == "("@
            + text::behind_last(args.member_text("path"@)->0, "/"@) + ")"@,
        args.member_text("command"@) == Some(c) ==> hint("bash"@, args) == "$ "@ + text::head(
            first_line(c),
            50,
        ),
        name != "read_file"@ && name != "write_file"@ && name != "patch_file"@ && name
            != "read_and_patch"@ && name != "bash"@ ==> hint(name, args).len() == 0,
{
    reveal_strlit("read_file");
    reveal_strlit("write_file");
    reveal_strlit("patch_file");
    reveal_strlit("read_and_patch");
    reveal_strlit("bash");
    assert("read_file"@.len() == 9 && "write_file"@.len() == 10 && "patch_file"@.len() == 10 && "read_and_patch"@.len() == 14 && "bash"@.len() == 4);
    assert("write_file"@[0] == 'w' && "patch_file"@[0] == 'p');
    if !file.contains('/') {
        reveal_strlit("/");
        assert("/"@.len() == 1 && "/"@[0] == '/');
        text::lemma_last_at(file, "/"@, file.len() as int);
        match text::last_at(file, "/"@, file.len() as int) {
            Some(i) => {
                assert(file.subrange(i, i + 1)[0] == file[i]);
                assert(file.contains('/'));
            },
            None => {},
        }
    }
}

/// An answer is shown with a mark for how it went, and its first line behind it.
pub proof fn law_answers_are_marked(s: Seq<char>)
    ensures
        answer_lines(s).len() >= 1,
        text::starts(s, "Error"@) || text::has(s, "Exit code"@) || text::starts(s, "[LOOP"@)
            || text::starts(s, "[SYSTEM]"@) <==> answer_lines(s)[0].kind is ToolErr,
        answer_lines(s)[0].kind is ToolErr || answer_lines(s)[0].kind is ToolOk,
        text::lines(s).len() > 0 ==> text::ends(answer_lines(s)[0].text, text::lines(s)[0]),
{
    let v = text::lines(s);
    if v.len() > 0 {
        lemma_behind("✗ "@, v[0]);
        lemma_behind("✓ "@, v[0]);
    }
}

proof fn lemma_behind(a: Seq<char>, b: Seq<char>)
    ensures
        text::ends(a + b, b),
{
    let t = a + b;
    assert(t.subrange(t.len() - b.len(), t.len() as int) =~= b);
}

/// Of a longer answer three more lines are shown, and how many there are behind
/// them.
pub proof fn law_longer_answers(s: Seq<char>)
    ensures
        text::lines(s).len() > 4 ==> answer_lines(s).last().text == "  … +"@ + text::decimal(
            (text::lines(s).len() - 4) as nat,
        ) + " lines"@,
        text::lines(s).len() == 1 ==> answer_lines(s).len() == 1,
{
    let v = text::lines(s);
    if v.len() == 1 {
        assert(body_lines(v, 1).len() == 0);
    }
}

/// The contract of a chat is the first that was proposed in it, with what each
/// assertion says.
pub proof fn law_contract_of_a_chat(
    v: Seq<json::JsonText>,
    k: int,
    a: Seq<json::JsonText>,
    i: int,
)
    ensures
        0 <= k < v.len() && proposed_with(v[k]) is Some && (forall|m: int|
            0 <= m < k ==> proposed_with(#[trigger] v[m]) is None) ==> first_contract(v, 0)
            == proposed_with(v[k]),
        (forall|m: int| 0 <= m < v.len() ==> proposed_with(#[trigger] v[m]) is None)
            ==> first_contract(v, 0) is None,
        0 <= i < a.len() ==> assertion_texts(a)[i].0 == a[i].member_text_or("id"@, "?"@)
            && assertion_texts(a)[i].1 == a[i].member_text_or("text"@, "?"@),
{
    if 0 <= k < v.len() && proposed_with(v[k]) is Some && (forall|m: int|
        0 <= m < k ==> proposed_with(#[trigger] v[m]) is None) {
        lemma_first_contract(v, 0, k);
    }
    if forall|m: int| 0 <= m < v.len() ==> proposed_with(#[trigger] v[m]) is None {
        lemma_no_contract(v, 0);
    }
}

proof fn lemma_first_contract(v: Seq<json::JsonText>, i: int, k: int)
    requires
        0 <= i <= k < v.len(),
        proposed_with(v[k]) is Some,
        forall|m: int| 0 <= m < k ==> proposed_with(#[trigger] v[m]) is None,
    ensures
        first_contract(v, i) == proposed_with(v[k]),
    decreases k - i,
{
    if i < k {
        assert(proposed_with(v[i]) is None);
        lemma_first_contract(v, i + 1, k);
    }
}

proof fn lemma_no_contract(v: Seq<json::JsonText>, i: int)
    requires
        0 <= i <= v.len(),
        forall|m: int| 0 <= m < v.len() ==> proposed_with(#[trigger] v[m]) is None,
    ensures
        first_contract(v, i) is None,
    decreases v.len() - i,
{
    if i < v.len() {
        lemma_no_contract(v, i + 1);
    }
}

/// Lines that say nothing are left out of a preview.
pub proof fn law_solid_lines(v: Seq<Seq<char>>, l: Seq<char>)
    ensures
        text::trimmed(l).len() > 0 ==> solid_lines(v.push(l)) == solid_lines(v).push(
            text::trimmed(l),
        ),
        text::trimmed(l).len() == 0 ==> solid_lines(v.push(l)) == solid_lines(v),
        solid_lines(Seq::empty()).len() == 0,
{
    assert(v.push(l).drop_last() =~= v);
}

} // verus!
