//! Running the agent from another program: what one run keeps, and what comes
//! next in it.

use vstd::prelude::*;

use crate::config::Config;
use crate::json;
use crate::json::Json;
use crate::outside;
use crate::text;

verus! {

/// How a run is done.
#[derive(Debug)]
pub struct RunOptions {
    pub timeout_ms: u64,
    /// The tools that are allowed; all when nothing is said.
    pub tools: Option<Vec<String>>,
    pub verbose: bool,
    pub cwd: String,
}

impl RunOptions {
    /// The usual way: all tools, with the timeout and the talkativeness that
    /// are set, in the directory at hand or, without one, in the current one.
    pub fn usual(timeout_ms: u64, verbose: bool, cwd: Option<String>) -> (r: RunOptions)
        ensures
            r.timeout_ms == timeout_ms,
            r.tools is None,
            r.verbose == verbose,
            r.cwd@ == match cwd {
                Some(d) => d@,
                None => "."@,
            },
    {
        let cwd = match cwd {
            Some(d) => d,
            None => ".".to_owned(),
        };
        RunOptions { timeout_ms, tools: None, verbose, cwd }
    }
}

/// What a run used.
#[derive(Debug, Clone, Copy, PartialEq, Eq, Structural)]
pub struct TokenUsage {
    pub input: u64,
    pub output: u64,
    pub total: u64,
}

impl Default for TokenUsage {
    fn default() -> (r: TokenUsage)
        ensures
            r == (TokenUsage { input: 0, output: 0, total: 0 }),
    {
        TokenUsage { input: 0, output: 0, total: 0 }
    }
}

pub open spec fn capped(n: int) -> u64 {
    if n < u64::MAX {
        n as u64
    } else {
        u64::MAX
    }
}

/// What was used after so many tokens more; a count stops at what sixty-four
/// bits hold.
pub open spec fn used_more(u: TokenUsage, input: u64, output: u64) -> TokenUsage {
    let i = capped(u.input + input);
    let o = capped(u.output + output);
    TokenUsage { input: i, output: o, total: capped(i + o) }
}

fn plus(a: u64, b: u64) -> (r: u64)
    ensures
        r == capped(a + b),
{
    if a < u64::MAX - b {
        a + b
    } else {
        u64::MAX
    }
}

impl TokenUsage {
    /// As a value.
    pub fn to_value(&self) -> (r: Json)
        ensures
            r@ == usage_value(*self),
    {
        json::table3(
            "input",
            Json::Unsigned(self.input),
            "output",
            Json::Unsigned(self.output),
            "total",
            Json::Unsigned(self.total),
        )
    }
}

pub open spec fn usage_value(u: TokenUsage) -> json::JsonText {
    json::JsonText::Table(
        seq![
            ("input"@, json::JsonText::Unsigned(u.input)),
            ("output"@, json::JsonText::Unsigned(u.output)),
            ("total"@, json::JsonText::Unsigned(u.total)),
        ],
    )
}

/// Something that happens in a run.
#[derive(Debug)]
pub enum AgentEvent {
    ToolStart { name: String, args: Json },
    ToolEnd { name: String, result: Json, ms: u64 },
    EarlyStop { signal: Json },
    Token { chunk: String },
    Error { message: String },
}

/// An event as a value, named by its type.
pub open spec fn event_value(e: AgentEvent) -> json::JsonText {
    match e {
        AgentEvent::ToolStart { name, args } => json::JsonText::Table(
            seq![
                ("args"@, args@),
                ("name"@, json::JsonText::Text(name@)),
                ("type"@, json::JsonText::Text("tool_start"@)),
            ],
        ),
        AgentEvent::ToolEnd { name, result, ms } => json::JsonText::Table(
            seq![
                ("ms"@, json::JsonText::Unsigned(ms)),
                ("name"@, json::JsonText::Text(name@)),
                ("result"@, result@),
                ("type"@, json::JsonText::Text("tool_end"@)),
            ],
        ),
        AgentEvent::EarlyStop { signal } => json::JsonText::Table(
            seq![("signal"@, signal@), ("type"@, json::JsonText::Text("early_stop"@))],
        ),
        AgentEvent::Token { chunk } => json::JsonText::Table(
            seq![
                ("chunk"@, json::JsonText::Text(chunk@)),
                ("type"@, json::JsonText::Text("token"@)),
            ],
        ),
        AgentEvent::Error { message } => json::JsonText::Table(
            seq![
                ("message"@, json::JsonText::Text(message@)),
                ("type"@, json::JsonText::Text("error"@)),
            ],
        ),
    }
}

impl AgentEvent {
    /// As a value, named by its type.
    pub fn to_value(&self) -> (r: Json)
        ensures
            r@ == event_value(*self),
    {
        match self {
            AgentEvent::ToolStart { name, args } => json::table3(
                "args",
                args.copy(),
                "name",
                json::word(name),
                "type",
                json::word("tool_start"),
            ),
            AgentEvent::ToolEnd { name, result, ms } => json::table4(
                "ms",
                Json::Unsigned(*ms),
                "name",
                json::word(name),
                "result",
                result.copy(),
                "type",
                json::word("tool_end"),
            ),
            AgentEvent::EarlyStop { signal } => json::table2(
                "signal",
                signal.copy(),
                "type",
                json::word("early_stop"),
            ),
            AgentEvent::Token { chunk } => json::table2(
                "chunk",
                json::word(chunk),
                "type",
                json::word("token"),
            ),
            AgentEvent::Error { message } => json::table2(
                "message",
                json::word(message),
                "type",
                json::word("error"),
            ),
        }
    }
}

/// What came of a run.
#[derive(Debug)]
pub struct RunResult {
    pub response: String,
    pub tool_calls: Vec<Json>,
    pub files_created: Vec<String>,
    pub files_modified: Vec<String>,
    pub tokens_used: TokenUsage,
    pub elapsed_ms: u64,
    pub success: bool,
    pub error: Option<String>,
}

pub ghost struct ResultText {
    pub response: Seq<char>,
    pub tool_calls: Seq<json::JsonText>,
    pub files_created: Seq<Seq<char>>,
    pub files_modified: Seq<Seq<char>>,
    pub tokens_used: TokenUsage,
    pub elapsed_ms: u64,
    pub success: bool,
    pub error: Option<Seq<char>>,
}

impl View for RunResult {
    type V = ResultText;

    open spec fn view(&self) -> ResultText {
        ResultText {
            response: self.response@,
            tool_calls: json::values(self.tool_calls@),
            files_created: text::texts(self.files_created@),
            files_modified: text::texts(self.files_modified@),
            tokens_used: self.tokens_used,
            elapsed_ms: self.elapsed_ms,
            success: self.success,
            error: text::opt_text(self.error),
        }
    }
}

pub open spec fn text_values(v: Seq<Seq<char>>) -> Seq<json::JsonText> {
    v.map_values(|s: Seq<char>| json::JsonText::Text(s))
}

/// What came of a run, as a value. There is an error only when there was one.
pub open spec fn result_value(r: ResultText) -> json::JsonText {
    let end = seq![
        ("filesCreated"@, json::JsonText::List(text_values(r.files_created))),
        ("filesModified"@, json::JsonText::List(text_values(r.files_modified))),
        ("response"@, json::JsonText::Text(r.response)),
        ("success"@, json::JsonText::Bool(r.success)),
        ("tokensUsed"@, usage_value(r.tokens_used)),
        ("toolCalls"@, json::JsonText::List(r.tool_calls)),
    ];
    json::JsonText::Table(
        seq![("elapsedMs"@, json::JsonText::Unsigned(r.elapsed_ms))] + (match r.error {
            Some(e) => seq![("error"@, json::JsonText::Text(e))],
            None => Seq::empty(),
        }) + end,
    )
}

fn words(v: &Vec<String>) -> (r: Json)
    ensures
        r@ == json::JsonText::List(text_values(text::texts(v@))),
{
    let ghost wanted = text_values(text::texts(v@));
    let mut out: Vec<Json> = Vec::new();
    let mut i: usize = 0;
    while i < v.len()
        invariant
            i <= v.len(),
            out.len() == i,
            wanted == text_values(text::texts(v@)),
            forall|k: int| 0 <= k < i ==> (#[trigger] out@[k])@ == wanted[k],
        decreases v.len() - i,
    {
        assert(text::texts(v@)[i as int] == v@[i as int]@);
        let w = json::word(&v[i]);
        assert(w@ == wanted[i as int]);
        out.push(w);
        i = i + 1;
    }
    assert(json::values(out@) =~= wanted);
    json::list(out)
}

impl RunResult {
    /// As a value. There is an error only when there was one.
    pub fn to_value(&self) -> (r: Json)
        ensures
            r@ == result_value(self@),
    {
        let mut calls: Vec<Json> = Vec::new();
        json::add_copies(&mut calls, &self.tool_calls);
        assert(json::values(calls@) =~= json::values(self.tool_calls@));
        let mut v = vec![("elapsedMs".to_owned(), Json::Unsigned(self.elapsed_ms))];
        match &self.error {
            Some(e) => {
                v.push(("error".to_owned(), json::word(e)));
            },
            None => {},
        }
        v.push(("filesCreated".to_owned(), words(&self.files_created)));
        v.push(("filesModified".to_owned(), words(&self.files_modified)));
        v.push(("response".to_owned(), json::word(&self.response)));
        v.push(("success".to_owned(), Json::Bool(self.success)));
        v.push(("tokensUsed".to_owned(), self.tokens_used.to_value()));
        v.push(("toolCalls".to_owned(), json::list(calls)));
        let r = json::table(v);
        assert(r@->Table_0 =~= result_value(self@)->Table_0);
        r
    }
}

// ---------------------------------------------------------------------------
// A run
// ---------------------------------------------------------------------------

/// A run that is under way.
#[derive(Debug)]
pub struct Run {
    pub history: Vec<Json>,
    pub result: RunResult,
    /// How many calls of tools the model made that were looked at.
    pub calls: u32,
    /// The calls of the last answer that were not looked at yet.
    pub pending: Vec<Json>,
    /// The call that is being made.
    pub current: Option<Json>,
}

pub ghost struct RunText {
    pub history: Seq<json::JsonText>,
    pub result: ResultText,
    pub calls: u32,
    pub pending: Seq<json::JsonText>,
    pub current: Option<json::JsonText>,
}

impl View for Run {
    type V = RunText;

    open spec fn view(&self) -> RunText {
        RunText {
            history: json::values(self.history@),
            result: self.result@,
            calls: self.calls,
            pending: json::values(self.pending@),
            current: json::opt_value(self.current),
        }
    }
}

pub open spec fn empty_result() -> ResultText {
    ResultText {
        response: Seq::empty(),
        tool_calls: Seq::empty(),
        files_created: Seq::empty(),
        files_modified: Seq::empty(),
        tokens_used: TokenUsage { input: 0, output: 0, total: 0 },
        elapsed_ms: 0,
        success: false,
        error: None,
    }
}

/// A message of a role, as a value.
pub open spec fn said(role: Seq<char>, content: Seq<char>) -> json::JsonText {
    json::JsonText::Table(
        seq![
            ("content"@, json::JsonText::Text(content)),
            ("role"@, json::JsonText::Text(role)),
        ],
    )
}

fn say(role: &str, content: &str) -> (r: Json)
    ensures
        r@ == said(role@, content@),
{
    json::table2("content", json::word(content), "role", json::word(role))
}

/// Whether a tool is allowed.
pub open spec fn is_permitted(tool: json::JsonText, allowed: Seq<Seq<char>>) -> bool {
    match tool.member("function"@) {
        Some(f) => match f.member_text("name"@) {
            Some(n) => allowed.contains(n),
            None => false,
        },
        None => false,
    }
}

/// The tools that are allowed.
pub open spec fn permitted(tools: Seq<json::JsonText>, allowed: Seq<Seq<char>>) -> Seq<
    json::JsonText,
>
    decreases tools.len(),
{
    if tools.len() == 0 {
        Seq::empty()
    } else if is_permitted(tools.last(), allowed) {
        permitted(tools.drop_last(), allowed).push(tools.last())
    } else {
        permitted(tools.drop_last(), allowed)
    }
}

fn check_tool(tool: &Json, allowed: &Vec<String>) -> (r: bool)
    ensures
        r == is_permitted(tool@, text::texts(allowed@)),
{
    match tool.get("function") {
        Some(f) => match f.get_str("name") {
            Some(n) => text::is_among(&n, allowed),
            None => false,
        },
        None => false,
    }
}

/// The tools that a model is offered: those that are allowed.
pub fn permitted_tools(tools: &Vec<Json>, allowed: &Option<Vec<String>>) -> (r: Vec<Json>)
    ensures
        json::values(r@) == match *allowed {
            Some(a) => permitted(json::values(tools@), text::texts(a@)),
            None => json::values(tools@),
        },
{
    let mut r: Vec<Json> = Vec::new();
    match allowed {
        None => {
            json::add_copies(&mut r, tools);
            assert(json::values(r@) =~= json::values(tools@));
            r
        },
        Some(a) => {
            let ghost all = json::values(tools@);
            let mut i: usize = 0;
            assert(json::values(r@) =~= permitted(all.take(0), text::texts(a@)));
            while i < tools.len()
                invariant
                    i <= tools.len(),
                    all == json::values(tools@),
                    json::values(r@) == permitted(all.take(i as int), text::texts(a@)),
                decreases tools.len() - i,
            {
                assert(all.take(i + 1).drop_last() =~= all.take(i as int));
                assert(all.take(i + 1).last() == tools@[i as int]@);
                if check_tool(&tools[i], a) {
                    let ghost before = json::values(r@);
                    let t = tools[i].copy();
                    r.push(t);
                    assert(json::values(r@) =~= before.push(t@));
                }
                i = i + 1;
            }
            assert(all.take(i as int) =~= all);
            r
        },
    }
}

pub open spec fn allowed_names(allowed: Option<Vec<String>>) -> Option<Seq<Seq<char>>> {
    match allowed {
        Some(a) => Some(text::texts(a@)),
        None => None,
    }
}

/// Whether a tool of this name may be called; every one, when nothing is said.
pub open spec fn is_allowed(name: Seq<char>, allowed: Option<Seq<Seq<char>>>) -> bool {
    match allowed {
        Some(a) => a.contains(name),
        None => true,
    }
}

/// Whether a tool of this name may be called; every one, when nothing is said.
pub fn check_allowed(name: &str, allowed: &Option<Vec<String>>) -> (r: bool)
    ensures
        r == is_allowed(name@, allowed_names(*allowed)),
{
    match allowed {
        Some(a) => text::is_among(name, a),
        None => true,
    }
}

/// What a model answered.
#[derive(Debug)]
pub enum Completion {
    Answer(Json),
    Nothing,
    TimedOut,
}

/// What an answer comes to.
#[derive(Debug)]
pub enum RunStep {
    /// Tools are to be called, one after the other.
    Calls,
    /// The model is done; it said this.
    Said(String),
    /// The run is over.
    Stop,
}

pub ghost enum StepText {
    Calls,
    Said(Seq<char>),
    Stop,
}

impl View for RunStep {
    type V = StepText;

    open spec fn view(&self) -> StepText {
        match self {
            RunStep::Calls => StepText::Calls,
            RunStep::Said(s) => StepText::Said(s@),
            RunStep::Stop => StepText::Stop,
        }
    }
}

/// Something that a run waited for.
#[derive(Debug)]
pub enum RunEvent {
    Started,
    /// The model was asked.
    Answered(Completion),
    /// The call was made; it took so many milliseconds.
    Done { answer: Json, ms: u64 },
    /// The patch was looked at; the model is to be told this.
    Judged(Option<String>),
}

/// What a run waits for next.
#[derive(Debug)]
pub enum RunAction {
    /// The model is to be asked.
    Ask,
    /// A tool is to be called.
    Call { name: String, args: Json },
    /// A patch is to be looked at.
    Judge(PatchNote),
    /// The run is over, with these words.
    Say(String),
    Over,
}

pub ghost enum ActionText {
    Ask,
    Call { name: Seq<char>, args: json::JsonText },
    Judge(PatchText),
    Say(Seq<char>),
    Over,
}

impl View for RunAction {
    type V = ActionText;

    open spec fn view(&self) -> ActionText {
        match self {
            RunAction::Ask => ActionText::Ask,
            RunAction::Call { name, args } => ActionText::Call { name: name@, args: args@ },
            RunAction::Judge(p) => ActionText::Judge(p@),
            RunAction::Say(s) => ActionText::Say(s@),
            RunAction::Over => ActionText::Over,
        }
    }
}

pub open spec fn unsigned_or_zero(j: json::JsonText, key: Seq<char>) -> u64 {
    match j.member_unsigned(key) {
        Some(n) => n,
        None => 0,
    }
}

/// A run after a model failed to answer.
pub open spec fn failed(r: RunText, error: Seq<char>) -> RunText {
    RunText { result: ResultText { error: Some(error), ..r.result }, ..r }
}

/// A run after what an answer used was counted.
pub open spec fn counted(r: RunText, answer: json::JsonText) -> RunText {
    match answer.member("usage"@) {
        Some(u) => RunText {
            result: ResultText {
                tokens_used: used_more(
                    r.result.tokens_used,
                    unsigned_or_zero(u, "prompt_tokens"@),
                    unsigned_or_zero(u, "completion_tokens"@),
                ),
                ..r.result
            },
            ..r
        },
        None => r,
    }
}

/// A run after an answer, and what comes next.
pub open spec fn answered(r: RunText, answer: json::JsonText) -> (RunText, StepText) {
    let c = counted(r, answer);
    match json::pointed(answer, "choices/0/message"@) {
        None => (c, StepText::Stop),
        Some(m) => {
            let h = RunText { history: c.history.push(m), ..c };
            match m.member_items("tool_calls"@) {
                Some(calls) => if calls.len() > 0 {
                    (RunText { pending: calls, ..h }, StepText::Calls)
                } else {
                    concluded(h, m)
                },
                None => concluded(h, m),
            }
        },
    }
}

/// A run in which a model calls no tool, and what comes next.
pub open spec fn concluded(h: RunText, m: json::JsonText) -> (RunText, StepText) {
    match m.member_text("content"@) {
        Some(s) => (
            RunText { result: ResultText { response: s, ..h.result }, ..h },
            StepText::Said(s),
        ),
        None => (h, StepText::Stop),
    }
}

/// A run after a model was asked, and what comes next.
pub open spec fn completed(r: RunText, c: Completion) -> (RunText, StepText) {
    match c {
        Completion::Answer(j) => answered(r, j@),
        Completion::Nothing => (failed(r, "No response from model"@), StepText::Stop),
        Completion::TimedOut => (failed(r, "model request timed out"@), StepText::Stop),
    }
}

/// A call of a tool: its name and its arguments.
pub open spec fn call_name(call: json::JsonText) -> Seq<char> {
    match call.member("function"@) {
        Some(f) => f.member_text_or("name"@, ""@),
        None => ""@,
    }
}

pub open spec fn call_arguments(call: json::JsonText) -> json::JsonText {
    let raw = match call.member("function"@) {
        Some(f) => f.member_text_or("arguments"@, "{}"@),
        None => "{}"@,
    };
    match outside::json_value(raw) {
        Some(j) => j,
        None => json::JsonText::Table(Seq::empty()),
    }
}

/// The file that a tool answers for: by its answer, or else by the arguments.
pub open spec fn touched(args: json::JsonText, answer: json::JsonText) -> Option<Seq<char>> {
    match answer.member_text("path"@) {
        Some(p) => Some(p),
        None => args.member_text("path"@),
    }
}

/// What a tool says: its result, or else its error, or else all of its answer.
pub open spec fn tool_text(answer: json::JsonText) -> Seq<char> {
    match answer.member_text("result"@) {
        Some(s) => s,
        None => match answer.member_text("error"@) {
            Some(e) => e,
            None => json::written(answer),
        },
    }
}

/// The files that were made and changed, after a tool.
pub open spec fn filed(r: ResultText, args: json::JsonText, answer: json::JsonText) -> ResultText {
    match (answer.member_text("action"@), touched(args, answer)) {
        (Some(a), Some(p)) => if a == "Created"@ {
            ResultText { files_created: r.files_created.push(p), ..r }
        } else if a == "Updated"@ || a == "Edited"@ {
            ResultText { files_modified: r.files_modified.push(p), ..r }
        } else {
            r
        },
        _ => r,
    }
}

/// What is kept of a call.
pub open spec fn call_record(
    name: Seq<char>,
    args: json::JsonText,
    answer: json::JsonText,
    ms: u64,
) -> json::JsonText {
    json::JsonText::Table(
        seq![
            ("args"@, args),
            ("durationMs"@, json::JsonText::Unsigned(ms)),
            (
                "error"@,
                match answer.member_text("error"@) {
                    Some(e) => json::JsonText::Text(e),
                    None => json::JsonText::Null,
                },
            ),
            ("name"@, json::JsonText::Text(name)),
            ("result"@, json::JsonText::Text(tool_text(answer))),
        ],
    )
}

/// The message with which a tool answers the model.
pub open spec fn tool_message(id: Seq<char>, content: Seq<char>) -> json::JsonText {
    json::JsonText::Table(
        seq![
            ("content"@, json::JsonText::Text(content)),
            ("role"@, json::JsonText::Text("tool"@)),
            ("tool_call_id"@, json::JsonText::Text(id)),
        ],
    )
}

/// A run after a tool answered.
pub open spec fn noted(
    r: RunText,
    call: json::JsonText,
    args: json::JsonText,
    answer: json::JsonText,
    ms: u64,
) -> RunText {
    let f = filed(r.result, args, answer);
    RunText {
        history: r.history.push(
            tool_message(call.member_text_or("id"@, ""@), tool_text(answer)),
        ),
        result: ResultText {
            tool_calls: f.tool_calls.push(call_record(call_name(call), args, answer, ms)),
            ..f
        },
        ..r
    }
}

/// The last thing the model said.
pub open spec fn last_reply(h: Seq<json::JsonText>) -> Option<Seq<char>>
    decreases h.len(),
{
    if h.len() == 0 {
        None
    } else if h.last().member_text("role"@) == Some("assistant"@) {
        match h.last().member("content"@) {
            Some(j) => match j.text() {
                Some(s) => Some(s),
                None => Some(json::written(j)),
            },
            None => None,
        }
    } else {
        last_reply(h.drop_last())
    }
}

/// What came of a run that is over: without a response, the last thing the
/// model said takes its place.
pub open spec fn finished(r: RunText, elapsed_ms: u64) -> ResultText {
    let response = if r.result.response.len() == 0 {
        match last_reply(r.history) {
            Some(s) => s,
            None => r.result.response,
        }
    } else {
        r.result.response
    };
    ResultText { response, success: r.result.error is None, elapsed_ms, ..r.result }
}

/// A patch that is to be looked at: file, what was to go and to come, and
/// whether it worked.
#[derive(Debug)]
pub struct PatchNote {
    pub path: String,
    pub old_str: String,
    pub new_str: String,
    pub ok: bool,
}

pub ghost struct PatchText {
    pub path: Seq<char>,
    pub old_str: Seq<char>,
    pub new_str: Seq<char>,
    pub ok: bool,
}

impl View for PatchNote {
    type V = PatchText;

    open spec fn view(&self) -> PatchText {
        PatchText {
            path: self.path@,
            old_str: self.old_str@,
            new_str: self.new_str@,
            ok: self.ok,
        }
    }
}

/// The patch that a call made, when it made one.
pub open spec fn patch_of(call: json::JsonText, answer: json::JsonText) -> Option<PatchText> {
    if call_name(call) == "patch"@ || call_name(call) == "read_and_patch"@ {
        let args = call_arguments(call);
        Some(
            PatchText {
                path: args.member_text_or("path"@, ""@),
                old_str: args.member_text_or("old_str"@, ""@),
                new_str: args.member_text_or("new_str"@, ""@),
                ok: answer.member_text("error"@) is None,
            },
        )
    } else {
        None
    }
}

pub open spec fn opt_patch(o: Option<PatchNote>) -> Option<PatchText> {
    match o {
        Some(p) => Some(p@),
        None => None,
    }
}

/// A run after a call of the model was looked at: it is made, when one more may
/// be made and its tool is allowed. A tool that is not allowed is unknown to
/// the model.
pub open spec fn called(
    r: RunText,
    call: json::JsonText,
    allowed: Option<Seq<Seq<char>>>,
    max_calls: u32,
) -> RunText {
    if r.calls >= max_calls {
        RunText { current: None, ..r }
    } else if is_allowed(call_name(call), allowed) {
        RunText { calls: (r.calls + 1) as u32, current: Some(call), ..r }
    } else {
        RunText {
            history: r.history.push(
                tool_message(call.member_text_or("id"@, ""@), "Unknown tool: "@ + call_name(call)),
            ),
            calls: (r.calls + 1) as u32,
            current: None,
            ..r
        }
    }
}

/// A run after the call that is being made was answered; without such a call
/// nothing is kept.
pub open spec fn done(r: RunText, answer: json::JsonText, ms: u64) -> RunText {
    match r.current {
        Some(call) => RunText {
            current: None,
            ..noted(r, call, call_arguments(call), answer, ms)
        },
        None => r,
    }
}

/// A run after the model was told to change course. The other calls of its last
/// answer are dropped.
pub open spec fn signalled(r: RunText, injection: Seq<char>) -> RunText {
    RunText { history: r.history.push(said("user"@, injection)), pending: Seq::empty(), ..r }
}

/// A run on its way to the next call, or to the next question; and which it is.
pub open spec fn moved_on(
    r: RunText,
    allowed: Option<Seq<Seq<char>>>,
    max_calls: u32,
) -> (RunText, ActionText)
    decreases r.pending.len(),
{
    if r.pending.len() == 0 {
        (
            r,
            if r.calls < max_calls {
                ActionText::Ask
            } else {
                ActionText::Over
            },
        )
    } else {
        let call = r.pending[0];
        let c = called(RunText { pending: r.pending.skip(1), ..r }, call, allowed, max_calls);
        if r.calls >= max_calls {
            (c, ActionText::Over)
        } else if is_allowed(call_name(call), allowed) {
            (c, ActionText::Call { name: call_name(call), args: call_arguments(call) })
        } else {
            moved_on(c, allowed, max_calls)
        }
    }
}

/// A run after something that it waited for, and what it waits for next.
pub open spec fn advanced(
    r: RunText,
    e: RunEvent,
    allowed: Option<Seq<Seq<char>>>,
    max_calls: u32,
) -> (RunText, ActionText) {
    match e {
        RunEvent::Started => moved_on(r, allowed, max_calls),
        RunEvent::Answered(c) => {
            let (next, step) = completed(r, c);
            match step {
                StepText::Calls => moved_on(next, allowed, max_calls),
                StepText::Said(s) => (next, ActionText::Say(s)),
                StepText::Stop => (next, ActionText::Over),
            }
        },
        RunEvent::Done { answer, ms } => {
            let next = done(r, answer@, ms);
            match r.current {
                Some(call) => match patch_of(call, answer@) {
                    Some(p) => (next, ActionText::Judge(p)),
                    None => moved_on(next, allowed, max_calls),
                },
                None => moved_on(next, allowed, max_calls),
            }
        },
        RunEvent::Judged(Some(injection)) => moved_on(
            signalled(r, injection@),
            allowed,
            max_calls,
        ),
        RunEvent::Judged(None) => moved_on(r, allowed, max_calls),
    }
}

fn add_text(v: &mut Vec<String>, s: String)
    ensures
        text::texts(final(v)@) == text::texts(old(v)@).push(s@),
{
    proof {
        text::lemma_texts_push(v@, s);
    }
    v.push(s);
}

fn add_value(v: &mut Vec<Json>, j: Json)
    ensures
        json::values(final(v)@) == json::values(old(v)@).push(j@),
{
    let ghost before = json::values(v@);
    v.push(j);
    assert(json::values(v@) =~= before.push(j@));
}

/// What a tool says.
pub fn text_of_answer(answer: &Json) -> (r: String)
    ensures
        r@ == tool_text(answer@),
{
    match answer.get_str("result") {
        Some(s) => s,
        None => match answer.get_str("error") {
            Some(e) => e,
            None => answer.write(),
        },
    }
}

/// The name of the tool that is called.
pub fn name_of_call(call: &Json) -> (r: String)
    ensures
        r@ == call_name(call@),
{
    match call.get("function") {
        Some(f) => f.get_str_or("name", ""),
        None => "".to_owned(),
    }
}

/// The arguments of a call; none when they cannot be read.
pub fn arguments_of_call(call: &Json) -> (r: Json)
    ensures
        r@ == call_arguments(call@),
{
    let raw = match call.get("function") {
        Some(f) => f.get_str_or("arguments", "{}"),
        None => "{}".to_owned(),
    };
    match outside::json_parse(&raw) {
        Some(j) => j,
        None => {
            let none: Vec<(String, Json)> = Vec::new();
            assert(json::members(none@) =~= Seq::<(Seq<char>, json::JsonText)>::empty());
            json::table(none)
        },
    }
}

fn record_of(name: &str, args: &Json, answer: &Json, ms: u64) -> (r: Json)
    ensures
        r@ == call_record(name@, args@, answer@, ms),
{
    let error = match answer.get_str("error") {
        Some(e) => Json::Text(e),
        None => Json::Null,
    };
    let v = vec![
        ("args".to_owned(), args.copy()),
        ("durationMs".to_owned(), Json::Unsigned(ms)),
        ("error".to_owned(), error),
        ("name".to_owned(), json::word(name)),
        ("result".to_owned(), Json::Text(text_of_answer(answer))),
    ];
    let r = json::table(v);
    assert(r@->Table_0 =~= call_record(name@, args@, answer@, ms)->Table_0);
    r
}

impl RunResult {
    fn empty() -> (r: RunResult)
        ensures
            r@ == empty_result(),
    {
        let r = RunResult {
            response: String::new(),
            tool_calls: Vec::new(),
            files_created: Vec::new(),
            files_modified: Vec::new(),
            tokens_used: TokenUsage { input: 0, output: 0, total: 0 },
            elapsed_ms: 0,
            success: false,
            error: None,
        };
        assert(r@.response =~= Seq::<char>::empty());
        assert(r@.tool_calls =~= Seq::<json::JsonText>::empty());
        assert(r@.files_created =~= Seq::<Seq<char>>::empty());
        assert(r@.files_modified =~= Seq::<Seq<char>>::empty());
        r
    }

    fn file(&mut self, args: &Json, answer: &Json)
        ensures
            final(self)@ == filed(old(self)@, args@, answer@),
    {
        let path = match answer.get_str("path") {
            Some(p) => Some(p),
            None => args.get_str("path"),
        };
        match answer.get_str("action") {
            Some(a) => match path {
                Some(p) => {
                    if text::same(&a, "Created") {
                        add_text(&mut self.files_created, p);
                    } else if text::same(&a, "Updated") || text::same(&a, "Edited") {
                        add_text(&mut self.files_modified, p);
                    }
                },
                None => {},
            },
            None => {},
        }
    }
}

impl Run {
    /// Begins a run with a prompt, behind what was said before.
    pub fn begin(history: Vec<Json>, prompt: &str) -> (r: Run)
        ensures
            r@ == (RunText {
                history: json::values(history@).push(said("user"@, prompt@)),
                result: empty_result(),
                calls: 0,
                pending: Seq::empty(),
                current: None,
            }),
    {
        let mut history = history;
        let m = say("user", prompt);
        add_value(&mut history, m);
        let pending: Vec<Json> = Vec::new();
        assert(json::values(pending@) =~= Seq::<json::JsonText>::empty());
        Run { history, result: RunResult::empty(), calls: 0, pending, current: None }
    }

    fn count(&mut self, answer: &Json)
        ensures
            final(self)@ == counted(old(self)@, answer@),
    {
        match answer.get("usage") {
            Some(u) => {
                let input: u64 = match u.get_u64("prompt_tokens") {
                    Some(n) => n,
                    None => 0,
                };
                let output: u64 = match u.get_u64("completion_tokens") {
                    Some(n) => n,
                    None => 0,
                };
                let t = self.result.tokens_used;
                let i = plus(t.input, input);
                let o = plus(t.output, output);
                self.result.tokens_used = TokenUsage { input: i, output: o, total: plus(i, o) };
            },
            None => {},
        }
    }

    fn conclude(&mut self, m: &Json) -> (r: RunStep)
        ensures
            (final(self)@, r@) == concluded(old(self)@, m@),
    {
        match m.get_str("content") {
            Some(s) => {
                self.result.response = s.clone();
                RunStep::Said(s)
            },
            None => RunStep::Stop,
        }
    }

    /// Takes what a model answered, and says what comes next.
    pub fn take_answer(&mut self, c: &Completion) -> (r: RunStep)
        ensures
            (final(self)@, r@) == completed(old(self)@, *c),
    {
        match c {
            Completion::Nothing => {
                self.result.error = Some("No response from model".to_owned());
                RunStep::Stop
            },
            Completion::TimedOut => {
                self.result.error = Some("model request timed out".to_owned());
                RunStep::Stop
            },
            Completion::Answer(answer) => {
                self.count(answer);
                match answer.pointer("choices/0/message") {
                    None => RunStep::Stop,
                    Some(m) => {
                        add_value(&mut self.history, m.copy());
                        match m.get_array("tool_calls") {
                            Some(calls) => {
                                assert(json::values(calls@).len() == calls@.len());
                                if calls.len() > 0 {
                                    let mut v: Vec<Json> = Vec::new();
                                    json::add_copies(&mut v, calls);
                                    assert(json::values(v@) =~= json::values(calls@));
                                    self.pending = v;
                                    RunStep::Calls
                                } else {
                                    self.conclude(m)
                                }
                            },
                            None => self.conclude(m),
                        }
                    },
                }
            },
        }
    }

    fn hear(&mut self, id: String, content: String)
        ensures
            final(self)@ == (RunText {
                history: old(self)@.history.push(tool_message(id@, content@)),
                ..old(self)@
            }),
    {
        let message = json::table3(
            "content",
            Json::Text(content),
            "role",
            json::word("tool"),
            "tool_call_id",
            Json::Text(id),
        );
        add_value(&mut self.history, message);
    }

    /// Looks at a call of the model, and says whether it is made: one more may
    /// be made, and its tool is allowed.
    pub fn take_call(&mut self, call: &Json, allowed: &Option<Vec<String>>, max_calls: u32) -> (r:
        bool)
        ensures
            r == (old(self).calls < max_calls && is_allowed(
                call_name(call@),
                allowed_names(*allowed),
            )),
            final(self)@ == called(old(self)@, call@, allowed_names(*allowed), max_calls),
    {
        self.current = None;
        if self.calls >= max_calls {
            return false;
        }
        self.calls = self.calls + 1;
        let name = name_of_call(call);
        if check_allowed(&name, allowed) {
            self.current = Some(call.copy());
            true
        } else {
            let content = text::cat2("Unknown tool: ", &name);
            self.hear(call.get_str_or("id", ""), content);
            false
        }
    }

    /// Takes what the call that is being made was answered. A patch is handed
    /// on to be looked at.
    pub fn take_result(&mut self, answer: &Json, ms: u64) -> (r: Option<PatchNote>)
        ensures
            final(self)@ == done(old(self)@, answer@, ms),
            opt_patch(r) == match old(self)@.current {
                Some(call) => patch_of(call, answer@),
                None => None,
            },
    {
        let mut current: Option<Json> = None;
        std::mem::swap(&mut current, &mut self.current);
        match current {
            Some(call) => {
                let name = name_of_call(&call);
                let args = arguments_of_call(&call);
                self.result.file(&args, answer);
                let record = record_of(&name, &args, answer, ms);
                add_value(&mut self.result.tool_calls, record);
                self.hear(call.get_str_or("id", ""), text_of_answer(answer));
                if text::same(&name, "patch") || text::same(&name, "read_and_patch") {
                    Some(
                        PatchNote {
                            path: args.get_str_or("path", ""),
                            old_str: args.get_str_or("old_str", ""),
                            new_str: args.get_str_or("new_str", ""),
                            ok: answer.get_str("error").is_none(),
                        },
                    )
                } else {
                    None
                }
            },
            None => None,
        }
    }

    /// Tells the model to change course.
    pub fn take_signal(&mut self, injection: &str)
        ensures
            final(self)@ == signalled(old(self)@, injection@),
    {
        let m = say("user", injection);
        add_value(&mut self.history, m);
        self.pending = Vec::new();
        assert(json::values(self.pending@) =~= Seq::<json::JsonText>::empty());
    }

    fn move_on(&mut self, allowed: &Option<Vec<String>>, max_calls: u32) -> (r: RunAction)
        ensures
            (final(self)@, r@) == moved_on(old(self)@, allowed_names(*allowed), max_calls),
    {
        let ghost names = allowed_names(*allowed);
        let ghost whole = moved_on(self@, names, max_calls);
        while self.pending.len() > 0
            invariant
                names == allowed_names(*allowed),
                whole == moved_on(old(self)@, names, max_calls),
                whole == moved_on(self@, names, max_calls),
            decreases self.pending.len(),
        {
            let ghost before = self@;
            let call = self.pending.remove(0);
            assert(json::values(self.pending@) =~= before.pending.skip(1));
            assert(before.pending[0] == call@);
            let full = self.calls >= max_calls;
            if self.take_call(&call, allowed, max_calls) {
                return RunAction::Call {
                    name: name_of_call(&call),
                    args: arguments_of_call(&call),
                };
            }
            if full {
                return RunAction::Over;
            }
            assert(json::values(self.pending@).len() == self.pending@.len());
        }
        assert(json::values(self.pending@).len() == 0);
        if self.calls < max_calls {
            RunAction::Ask
        } else {
            RunAction::Over
        }
    }

    /// Takes something that the run waited for, and says what it waits for next.
    pub fn advance(&mut self, e: &RunEvent, allowed: &Option<Vec<String>>, max_calls: u32) -> (r:
        RunAction)
        ensures
            (final(self)@, r@) == advanced(old(self)@, *e, allowed_names(*allowed), max_calls),
    {
        match e {
            RunEvent::Started => self.move_on(allowed, max_calls),
            RunEvent::Answered(c) => match self.take_answer(c) {
                RunStep::Calls => self.move_on(allowed, max_calls),
                RunStep::Said(s) => RunAction::Say(s),
                RunStep::Stop => RunAction::Over,
            },
            RunEvent::Done { answer, ms } => match self.take_result(answer, *ms) {
                Some(p) => RunAction::Judge(p),
                None => self.move_on(allowed, max_calls),
            },
            RunEvent::Judged(j) => match j {
                Some(injection) => {
                    self.take_signal(injection);
                    self.move_on(allowed, max_calls)
                },
                None => self.move_on(allowed, max_calls),
            },
        }
    }

    fn reply(&self) -> (r: Option<String>)
        ensures
            text::opt_text(r) == last_reply(self@.history),
    {
        let ghost all = json::values(self.history@);
        let mut i: usize = self.history.len();
        assert(all.take(i as int) =~= all);
        while i > 0
            invariant
                i <= self.history.len(),
                all == json::values(self.history@),
                last_reply(all) == last_reply(all.take(i as int)),
            decreases i,
        {
            assert(all.take(i as int).drop_last() =~= all.take(i - 1));
            assert(all.take(i as int).last() == self.history@[i - 1]@);
            i = i - 1;
            let by_model = match self.history[i].get_str("role") {
                Some(role) => text::same(&role, "assistant"),
                None => false,
            };
            if by_model {
                return match self.history[i].get("content") {
                    Some(j) => match j.as_str() {
                        Some(s) => Some(s),
                        None => Some(j.write()),
                    },
                    None => None,
                };
            }
        }
        None
    }

    /// Ends a run after a time.
    pub fn finish(&mut self, elapsed_ms: u64)
        ensures
            final(self)@ == (RunText {
                result: finished(old(self)@, elapsed_ms),
                ..old(self)@
            }),
    {
        if self.result.response.as_str().is_empty() {
            match self.reply() {
                Some(s) => {
                    self.result.response = s;
                },
                None => {},
            }
        }
        self.result.success = self.result.error.is_none();
        self.result.elapsed_ms = elapsed_ms;
    }
}

// ---------------------------------------------------------------------------
// The agent
// ---------------------------------------------------------------------------

/// An agent that another program runs, with the conversation so far.
#[derive(Debug)]
pub struct ItsyApi {
    pub config: Config,
    pub options: RunOptions,
    pub history: Vec<Json>,
}

impl ItsyApi {
    /// An agent with the usual options and no conversation yet.
    pub fn new(config: Config, timeout_ms: u64, verbose: bool, cwd: Option<String>) -> (r: ItsyApi)
        ensures
            r.config == config,
            r.options.timeout_ms == timeout_ms,
            r.options.tools is None,
            r.options.verbose == verbose,
            r.options.cwd@ == match cwd {
                Some(d) => d@,
                None => "."@,
            },
            json::values(r.history@) == Seq::<json::JsonText>::empty(),
    {
        ItsyApi::with_options(config, RunOptions::usual(timeout_ms, verbose, cwd))
    }

    /// An agent with options of its own and no conversation yet.
    pub fn with_options(config: Config, options: RunOptions) -> (r: ItsyApi)
        ensures
            r.config == config,
            r.options == options,
            json::values(r.history@) == Seq::<json::JsonText>::empty(),
    {
        let history: Vec<Json> = Vec::new();
        assert(json::values(history@) =~= Seq::<json::JsonText>::empty());
        ItsyApi { config, options, history }
    }

    /// Begins a run on a prompt. The run holds the conversation until it is
    /// over.
    pub fn begin(&mut self, prompt: &str) -> (r: Run)
        ensures
            r@ == (RunText {
                history: json::values(old(self).history@).push(said("user"@, prompt@)),
                result: empty_result(),
                calls: 0,
                pending: Seq::empty(),
                current: None,
            }),
            json::values(final(self).history@) == Seq::<json::JsonText>::empty(),
            final(self).config == old(self).config,
            final(self).options == old(self).options,
    {
        let mut history: Vec<Json> = Vec::new();
        assert(json::values(history@) =~= Seq::<json::JsonText>::empty());
        std::mem::swap(&mut history, &mut self.history);
        Run::begin(history, prompt)
    }

    /// Ends a run: the conversation is kept, and its result handed out.
    pub fn end(&mut self, run: Run, elapsed_ms: u64) -> (r: RunResult)
        ensures
            r@ == finished(run@, elapsed_ms),
            json::values(final(self).history@) == run@.history,
            final(self).config == old(self).config,
            final(self).options == old(self).options,
    {
        let mut run = run;
        run.finish(elapsed_ms);
        self.history = run.history;
        run.result
    }
}

proof fn lemma_moved_on(r: RunText, allowed: Option<Seq<Seq<char>>>, max_calls: u32)
    ensures
        ({
            let (next, action) = moved_on(r, allowed, max_calls);
            &&& next.result == r.result
            &&& r.calls <= next.calls
            &&& r.calls <= max_calls ==> next.calls <= max_calls
            &&& r.pending.len() > 0 && r.calls < max_calls ==> r.calls < next.calls
            &&& action matches ActionText::Call { name, args } ==> is_allowed(name, allowed)
            &&& next.current is Some ==> next.current == r.current || is_allowed(
                call_name(next.current->0),
                allowed,
            )
        }),
    decreases r.pending.len(),
{
    if r.pending.len() > 0 {
        let c = called(
            RunText { pending: r.pending.skip(1), ..r },
            r.pending[0],
            allowed,
            max_calls,
        );
        lemma_moved_on(c, allowed, max_calls);
    }
}

/// A run looks at no more calls of tools than it may, whatever happens in it.
pub proof fn law_calls_are_bounded(
    r: RunText,
    e: RunEvent,
    allowed: Option<Seq<Seq<char>>>,
    max_calls: u32,
)
    requires
        r.calls <= max_calls,
    ensures
        r.calls <= advanced(r, e, allowed, max_calls).0.calls <= max_calls,
{
    lemma_advanced(r, e, allowed, max_calls);
}

/// A run ends: an answer that does not end it has at least one more of the
/// calls looked at.
pub proof fn law_run_ends(
    r: RunText,
    c: Completion,
    allowed: Option<Seq<Seq<char>>>,
    max_calls: u32,
)
    requires
        r.calls < max_calls,
    ensures
        ({
            let (next, action) = advanced(r, RunEvent::Answered(c), allowed, max_calls);
            action is Say || action is Over || r.calls < next.calls
        }),
{
    lemma_moved_on(completed(r, c).0, allowed, max_calls);
}

proof fn lemma_advanced(
    r: RunText,
    e: RunEvent,
    allowed: Option<Seq<Seq<char>>>,
    max_calls: u32,
)
    ensures
        ({
            let next = advanced(r, e, allowed, max_calls).0;
            &&& r.calls <= next.calls
            &&& r.calls <= max_calls ==> next.calls <= max_calls
        }),
{
    match e {
        RunEvent::Started => lemma_moved_on(r, allowed, max_calls),
        RunEvent::Answered(c) => lemma_moved_on(completed(r, c).0, allowed, max_calls),
        RunEvent::Done { answer, ms } => lemma_moved_on(done(r, answer@, ms), allowed, max_calls),
        RunEvent::Judged(Some(i)) => lemma_moved_on(signalled(r, i@), allowed, max_calls),
        RunEvent::Judged(None) => lemma_moved_on(r, allowed, max_calls),
    }
}

/// Whether every call that was made, or is being made, is of a tool that is
/// allowed.
pub open spec fn keeps_to(r: RunText, allowed: Option<Seq<Seq<char>>>) -> bool {
    &&& forall|i: int|
        0 <= i < r.result.tool_calls.len() ==> (#[trigger] r.result.tool_calls[i]).member_text(
            "name"@,
        ) is Some && is_allowed(r.result.tool_calls[i].member_text("name"@)->0, allowed)
    &&& r.current matches Some(call) ==> is_allowed(call_name(call), allowed)
}

/// Only tools that are allowed are called, whatever the model asks for: a run
/// begins without a call, and whatever happens in it, each call that it makes
/// and each one in its result names an allowed tool.
pub proof fn law_only_allowed_tools_are_called(
    r: RunText,
    e: RunEvent,
    allowed: Option<Seq<Seq<char>>>,
    max_calls: u32,
    elapsed_ms: u64,
)
    ensures
        r.result == empty_result() && r.current is None ==> keeps_to(r, allowed),
        keeps_to(r, allowed) ==> {
            let (next, action) = advanced(r, e, allowed, max_calls);
            &&& keeps_to(next, allowed)
            &&& action matches ActionText::Call { name, args } ==> is_allowed(name, allowed)
        },
        finished(r, elapsed_ms).tool_calls == r.result.tool_calls,
{
    if keeps_to(r, allowed) {
        match e {
            RunEvent::Started => lemma_moved_on(r, allowed, max_calls),
            RunEvent::Answered(c) => {
                lemma_moved_on(completed(r, c).0, allowed, max_calls);
            },
            RunEvent::Done { answer, ms } => {
                let next = done(r, answer@, ms);
                if r.current is Some {
                    lemma_recorded(r, r.current->0, answer@, ms);
                }
                assert(keeps_to(next, allowed));
                lemma_moved_on(next, allowed, max_calls);
            },
            RunEvent::Judged(Some(i)) => lemma_moved_on(signalled(r, i@), allowed, max_calls),
            RunEvent::Judged(None) => lemma_moved_on(r, allowed, max_calls),
        }
    }
}

proof fn lemma_recorded(r: RunText, call: json::JsonText, answer: json::JsonText, ms: u64)
    ensures
        ({
            let record = call_record(call_name(call), call_arguments(call), answer, ms);
            &&& noted(r, call, call_arguments(call), answer, ms).result.tool_calls
                == r.result.tool_calls.push(record)
            &&& record.member_text("name"@) == Some(call_name(call))
        }),
{
    reveal_strlit("name");
    reveal_strlit("result");
    let record = call_record(call_name(call), call_arguments(call), answer, ms);
    let v = record->Table_0;
    assert("result"@.len() != "name"@.len());
    assert(v.drop_last().last() == v[3]);
    assert(json::lookup(v.drop_last(), "name"@) == Some(v[3].1));
    assert(json::lookup(v, "name"@) == Some(v[3].1));
}

/// A run succeeds exactly when nothing went wrong, and the conversation is left
/// as it was.
pub proof fn law_success_means_no_error(r: RunText, elapsed_ms: u64)
    ensures
        finished(r, elapsed_ms).success == (finished(r, elapsed_ms).error is None),
        finished(r, elapsed_ms).error == r.result.error,
{
}

/// Every call that a model makes and that is looked at is answered by exactly
/// one message, which names the call: a call that is made by what the tool
/// answers, and another at once.
pub proof fn law_calls_are_answered(
    r: RunText,
    call: json::JsonText,
    allowed: Option<Seq<Seq<char>>>,
    max_calls: u32,
    answer: json::JsonText,
    ms: u64,
)
    requires
        r.calls < max_calls,
    ensures
        ({
            let c = called(r, call, allowed, max_calls);
            let next = if is_allowed(call_name(call), allowed) {
                done(c, answer, ms)
            } else {
                c
            };
            &&& next.history.len() == r.history.len() + 1
            &&& next.history.drop_last() == r.history
            &&& next.history.last().member_text("tool_call_id"@) == Some(
                call.member_text_or("id"@, ""@),
            )
            &&& next.current is None
            &&& next.result.tool_calls.len() == r.result.tool_calls.len() + (if is_allowed(
                call_name(call),
                allowed,
            ) {
                1int
            } else {
                0
            })
        }),
{
    lemma_told(r, call.member_text_or("id"@, ""@), tool_text(answer));
    lemma_told(r, call.member_text_or("id"@, ""@), "Unknown tool: "@ + call_name(call));
}

proof fn lemma_told(r: RunText, id: Seq<char>, content: Seq<char>)
    ensures
        r.history.push(tool_message(id, content)).drop_last() == r.history,
        tool_message(id, content).member_text("tool_call_id"@) == Some(id),
{
    let m = tool_message(id, content);
    assert(r.history.push(m).drop_last() =~= r.history);
    let v = m->Table_0;
    assert(v.last().0 == "tool_call_id"@);
    assert(json::lookup(v, "tool_call_id"@) == Some(v.last().1));
}

/// Tokens are added up, those that went in and those that came out, as far as
/// the numbers go.
pub proof fn law_tokens_add_up(u: TokenUsage, input: u64, output: u64)
    ensures
        u.input + input + u.output + output < u64::MAX ==> {
            let n = used_more(u, input, output);
            &&& n.input == u.input + input
            &&& n.output == u.output + output
            &&& n.total == n.input + n.output
        },
        used_more(u, input, output).input >= u.input,
        used_more(u, input, output).output >= u.output,
        u.input + input >= u64::MAX ==> used_more(u, input, output).input == u64::MAX,
{
}

/// What an answer says of its tokens is counted, and nothing else is changed.
pub proof fn law_usage_is_counted(r: RunText, answer: json::JsonText, u: json::JsonText)
    ensures
        counted(r, answer).history == r.history && counted(r, answer).calls == r.calls && counted(
            r,
            answer,
        ).pending == r.pending && counted(r, answer).result.error == r.result.error && counted(
            r,
            answer,
        ).result.response == r.result.response,
        answer.member("usage"@) is None ==> counted(r, answer) == r,
        answer.member("usage"@) == Some(u) ==> (u.member_unsigned("prompt_tokens"@) matches Some(n)
            ==> (r.result.tokens_used.input + n < u64::MAX ==> counted(
            r,
            answer,
        ).result.tokens_used.input == r.result.tokens_used.input + n)),
        answer.member("usage"@) == Some(u) ==> (u.member_unsigned(
            "completion_tokens"@,
        ) matches Some(n) ==> (r.result.tokens_used.output + n < u64::MAX ==> counted(
            r,
            answer,
        ).result.tokens_used.output == r.result.tokens_used.output + n)),
{
}

/// Each event is told with its kind and what belongs to it.
pub proof fn law_events_are_told(name: String, args: Json, result: Json, ms: u64, chunk: String)
    ensures
        ({
            let v = event_value(AgentEvent::ToolStart { name, args });
            v.member_text("type"@) == Some("tool_start"@) && v.member_text("name"@) == Some(name@)
                && v.member("args"@) == Some(args@)
        }),
        ({
            let v = event_value(AgentEvent::ToolEnd { name, result, ms });
            v.member_text("type"@) == Some("tool_end"@) && v.member_text("name"@) == Some(name@)
                && v.member("result"@) == Some(result@) && v.member_unsigned("ms"@) == Some(ms)
        }),
        ({
            let v = event_value(AgentEvent::EarlyStop { signal: args });
            v.member_text("type"@) == Some("early_stop"@) && v.member("signal"@) == Some(args@)
        }),
        ({
            let v = event_value(AgentEvent::Token { chunk });
            v.member_text("type"@) == Some("token"@) && v.member_text("chunk"@) == Some(chunk@)
        }),
        ({
            let v = event_value(AgentEvent::Error { message: chunk });
            v.member_text("type"@) == Some("error"@) && v.member_text("message"@) == Some(chunk@)
        }),
{
    reveal_strlit("type");
    reveal_strlit("name");
    reveal_strlit("args");
    reveal_strlit("result");
    reveal_strlit("ms");
    reveal_strlit("signal");
    reveal_strlit("chunk");
    reveal_strlit("message");
    assert("type"@.len() == 4 && "name"@.len() == 4 && "args"@.len() == 4 && "result"@.len() == 6 && "ms"@.len() == 2 && "signal"@.len() == 6 && "chunk"@.len() == 5 && "message"@.len() == 7);
    assert("type"@[0] == 't' && "name"@[0] == 'n' && "args"@[0] == 'a' && "result"@[0] == 'r');
    assert("signal"@[0] == 's');
    let a = event_value(AgentEvent::ToolStart { name, args })->Table_0;
    assert(a[0].0 == "args"@);
    assert(a[1].0 == "name"@);
    assert(a[2].0 == "type"@);
    json::law_lookup(a, "args"@, 0);
    json::law_lookup(a, "name"@, 1);
    json::law_lookup(a, "type"@, 2);
    let b = event_value(AgentEvent::ToolEnd { name, result, ms })->Table_0;
    assert(b[0].0 == "ms"@);
    assert(b[1].0 == "name"@);
    assert(b[2].0 == "result"@);
    assert(b[3].0 == "type"@);
    json::law_lookup(b, "ms"@, 0);
    json::law_lookup(b, "name"@, 1);
    json::law_lookup(b, "result"@, 2);
    json::law_lookup(b, "type"@, 3);
    let c = event_value(AgentEvent::EarlyStop { signal: args })->Table_0;
    assert(c[0].0 == "signal"@);
    assert(c[1].0 == "type"@);
    json::law_lookup(c, "signal"@, 0);
    json::law_lookup(c, "type"@, 1);
    let d = event_value(AgentEvent::Token { chunk })->Table_0;
    assert(d[0].0 == "chunk"@);
    assert(d[1].0 == "type"@);
    json::law_lookup(d, "chunk"@, 0);
    json::law_lookup(d, "type"@, 1);
    let e = event_value(AgentEvent::Error { message: chunk })->Table_0;
    assert(e[0].0 == "message"@);
    assert(e[1].0 == "type"@);
    json::law_lookup(e, "message"@, 0);
    json::law_lookup(e, "type"@, 1);
}

/// A result is told with its parts, and with an error only where there is one.
pub proof fn law_results_are_told(r: ResultText, i: int)
    ensures
        ({
            let v = result_value(r);
            &&& v.member_text("response"@) == Some(r.response)
            &&& v.member_boolean("success"@) == Some(r.success)
            &&& v.member_unsigned("elapsedMs"@) == Some(r.elapsed_ms)
            &&& v.member_text("error"@) == r.error
            &&& v.member_items("toolCalls"@) == Some(r.tool_calls)
            &&& v.member_items("filesCreated"@) matches Some(w) && w.len() == r.files_created.len()
                && (0 <= i < w.len() ==> w[i] == json::JsonText::Text(r.files_created[i]))
            &&& v.member_items("filesModified"@) matches Some(w) && w.len() == r.files_modified.len()
                && (0 <= i < w.len() ==> w[i] == json::JsonText::Text(r.files_modified[i]))
            &&& v.member("tokensUsed"@) matches Some(u) && u.member_unsigned("input"@) == Some(
                r.tokens_used.input,
            ) && u.member_unsigned("output"@) == Some(r.tokens_used.output) && u.member_unsigned(
                "total"@,
            ) == Some(r.tokens_used.total)
        }),
{
    reveal_strlit("elapsedMs");
    reveal_strlit("error");
    reveal_strlit("filesCreated");
    reveal_strlit("filesModified");
    reveal_strlit("response");
    reveal_strlit("success");
    reveal_strlit("tokensUsed");
    reveal_strlit("toolCalls");
    reveal_strlit("input");
    reveal_strlit("output");
    reveal_strlit("total");
    assert("elapsedMs"@.len() == 9 && "error"@.len() == 5 && "filesCreated"@.len() == 12 && "filesModified"@.len() == 13 && "response"@.len() == 8 && "success"@.len() == 7 && "tokensUsed"@.len() == 10 && "toolCalls"@.len() == 9 && "input"@.len() == 5 && "output"@.len() == 6 && "total"@.len() == 5);
    assert("elapsedMs"@[0] == 'e' && "toolCalls"@[0] == 't' && "error"@[0] == 'e' && "input"@[0] == 'i');
    assert("total"@[0] == 't');
    let t = result_value(r)->Table_0;
    if r.error is Some {
        assert(t[0].0 == "elapsedMs"@);
        assert(t[1].0 == "error"@);
        assert(t[2].0 == "filesCreated"@);
        assert(t[3].0 == "filesModified"@);
        assert(t[4].0 == "response"@);
        assert(t[5].0 == "success"@);
        assert(t[6].0 == "tokensUsed"@);
        assert(t[7].0 == "toolCalls"@);
        json::law_lookup(t, "elapsedMs"@, 0);
        json::law_lookup(t, "error"@, 1);
        json::law_lookup(t, "filesCreated"@, 2);
        json::law_lookup(t, "filesModified"@, 3);
        json::law_lookup(t, "response"@, 4);
        json::law_lookup(t, "success"@, 5);
        json::law_lookup(t, "tokensUsed"@, 6);
        json::law_lookup(t, "toolCalls"@, 7);
    } else {
        assert(t[0].0 == "elapsedMs"@);
        assert(t[1].0 == "filesCreated"@);
        assert(t[2].0 == "filesModified"@);
        assert(t[3].0 == "response"@);
        assert(t[4].0 == "success"@);
        assert(t[5].0 == "tokensUsed"@);
        assert(t[6].0 == "toolCalls"@);
        json::law_lookup(t, "elapsedMs"@, 0);
        json::law_lookup(t, "filesCreated"@, 1);
        json::law_lookup(t, "filesModified"@, 2);
        json::law_lookup(t, "response"@, 3);
        json::law_lookup(t, "success"@, 4);
        json::law_lookup(t, "tokensUsed"@, 5);
        json::law_lookup(t, "toolCalls"@, 6);
        json::law_lookup(t, "error"@, 0);
    }
    let u = usage_value(r.tokens_used)->Table_0;
    assert(u[0].0 == "input"@);
    assert(u[1].0 == "output"@);
    assert(u[2].0 == "total"@);
    json::law_lookup(u, "input"@, 0);
    json::law_lookup(u, "output"@, 1);
    json::law_lookup(u, "total"@, 2);
}

/// Of the tools those stay whose names are allowed, in their order.
pub proof fn law_tools_are_permitted(
    tools: Seq<json::JsonText>,
    t: json::JsonText,
    allowed: Seq<Seq<char>>,
    name: Seq<char>,
)
    ensures
        permitted(Seq::empty(), allowed).len() == 0,
        (t.member("function"@) matches Some(f) && f.member_text("name"@) == Some(name))
            && allowed.contains(name) ==> permitted(tools.push(t), allowed) == permitted(
            tools,
            allowed,
        ).push(t),
        (t.member("function"@) matches Some(f) && f.member_text("name"@) == Some(name))
            && !allowed.contains(name) ==> permitted(tools.push(t), allowed) == permitted(
            tools,
            allowed,
        ),
        t.member("function"@) is None ==> permitted(tools.push(t), allowed) == permitted(
            tools,
            allowed,
        ),
        is_allowed(name, None),
        is_allowed(name, Some(allowed)) <==> allowed.contains(name),
{
    assert(tools.push(t).drop_last() =~= tools);
}

/// Words without calls end a run: they are its response and are said. The
/// message they came in stays in the conversation.
pub proof fn law_words_end_a_run(
    r: RunText,
    answer: Json,
    m: json::JsonText,
    s: Seq<char>,
    allowed: Option<Seq<Seq<char>>>,
    max_calls: u32,
)
    requires
        json::pointed(answer@, "choices/0/message"@) == Some(m),
        m.member_items("tool_calls"@) is None || m.member_items("tool_calls"@)->0.len() == 0,
        m.member_text("content"@) == Some(s),
    ensures
        ({
            let (next, action) = advanced(
                r,
                RunEvent::Answered(Completion::Answer(answer)),
                allowed,
                max_calls,
            );
            &&& action == ActionText::Say(s)
            &&& next.result.response == s
            &&& next.history == r.history.push(m)
            &&& next.result.error == r.result.error
            &&& next.calls == r.calls
        }),
{
}

/// A model that does not answer in time, or not at all, ends a run with an
/// error.
pub proof fn law_silence_ends_a_run(r: RunText, allowed: Option<Seq<Seq<char>>>, max_calls: u32, ms: u64)
    ensures
        ({
            let (next, action) = advanced(
                r,
                RunEvent::Answered(Completion::Nothing),
                allowed,
                max_calls,
            );
            action is Over && next.result.error == Some("No response from model"@) && !finished(
                next,
                ms,
            ).success
        }),
        ({
            let (next, action) = advanced(
                r,
                RunEvent::Answered(Completion::TimedOut),
                allowed,
                max_calls,
            );
            action is Over && next.result.error == Some("model request timed out"@) && !finished(
                next,
                ms,
            ).success
        }),
{
}

/// The calls of an answer are made in their order: the first one at once, if it
/// may be made, with its name and its arguments; the others wait.
pub proof fn law_calls_are_made_in_order(
    r: RunText,
    answer: Json,
    m: json::JsonText,
    calls: Seq<json::JsonText>,
    allowed: Option<Seq<Seq<char>>>,
    max_calls: u32,
)
    requires
        json::pointed(answer@, "choices/0/message"@) == Some(m),
        m.member_items("tool_calls"@) == Some(calls),
        calls.len() > 0,
        r.calls < max_calls,
        is_allowed(call_name(calls[0]), allowed),
    ensures
        ({
            let (next, action) = advanced(
                r,
                RunEvent::Answered(Completion::Answer(answer)),
                allowed,
                max_calls,
            );
            &&& action == ActionText::Call {
                name: call_name(calls[0]),
                args: call_arguments(calls[0]),
            }
            &&& next.current == Some(calls[0])
            &&& next.pending == calls.skip(1)
            &&& next.calls == r.calls + 1
            &&& next.history == r.history.push(m)
        }),
{
}

/// When no call is left, the model is asked again, while calls may be made.
pub proof fn law_model_is_asked_again(r: RunText, allowed: Option<Seq<Seq<char>>>, max_calls: u32)
    requires
        r.pending.len() == 0,
    ensures
        r.calls < max_calls ==> moved_on(r, allowed, max_calls) == (r, ActionText::Ask),
        r.calls >= max_calls ==> moved_on(r, allowed, max_calls) == (r, ActionText::Over),
{
}

/// A call says which tool it means and with which arguments; without any it
/// means none, with none.
pub proof fn law_calls_are_read(call: json::JsonText, f: json::JsonText, n: Seq<char>)
    ensures
        call.member("function"@) == Some(f) && f.member_text("name"@) == Some(n) ==> call_name(call)
            == n,
        call.member("function"@) is None ==> call_name(call).len() == 0,
        call.member("function"@) == Some(f) && f.member_text("arguments"@) == Some(n) ==> (
        outside::json_value(n) matches Some(j) ==> call_arguments(call) == j),
        call.member("function"@) == Some(f) && f.member_text("arguments"@) == Some(n) ==> (
        outside::json_value(n) is None ==> call_arguments(call) == json::JsonText::Table(
            Seq::empty(),
        )),
{
    reveal_strlit("");
}

/// What a tool answered is told to the model, its result before its error, and
/// both stand in the record of the call with its name and its arguments.
pub proof fn law_answers_are_recorded(
    r: RunText,
    call: json::JsonText,
    answer: json::JsonText,
    ms: u64,
    s: Seq<char>,
)
    requires
        r.current == Some(call),
    ensures
        answer.member_text("result"@) == Some(s) ==> tool_text(answer) == s,
        answer.member_text("result"@) is None && answer.member_text("error"@) == Some(s)
            ==> tool_text(answer) == s,
        ({
            let next = done(r, answer, ms);
            let told = next.history.last();
            let record = next.result.tool_calls.last();
            &&& told.member_text("role"@) == Some("tool"@)
            &&& told.member_text("content"@) == Some(tool_text(answer))
            &&& next.result.tool_calls.drop_last() == r.result.tool_calls
            &&& record.member_text("name"@) == Some(call_name(call))
            &&& record.member("args"@) == Some(call_arguments(call))
            &&& record.member_text("result"@) == Some(tool_text(answer))
            &&& record.member_text("error"@) == answer.member_text("error"@)
            &&& record.member_unsigned("durationMs"@) == Some(ms)
            &&& next.pending == r.pending
        }),
{
    reveal_strlit("args");
    reveal_strlit("durationMs");
    reveal_strlit("error");
    reveal_strlit("name");
    reveal_strlit("result");
    reveal_strlit("content");
    reveal_strlit("role");
    reveal_strlit("tool_call_id");
    assert("args"@.len() == 4 && "durationMs"@.len() == 10 && "error"@.len() == 5 && "name"@.len() == 4 && "result"@.len() == 6 && "content"@.len() == 7 && "role"@.len() == 4 && "tool_call_id"@.len() == 12);
    assert("args"@[0] == 'a' && "name"@[0] == 'n' && "role"@[0] == 'r');
    let next = done(r, answer, ms);
    let t = next.history.last()->Table_0;
    let p = next.result.tool_calls.last()->Table_0;
    assert(t[0].0 == "content"@);
    assert(t[1].0 == "role"@);
    assert(t[2].0 == "tool_call_id"@);
    json::law_lookup(t, "content"@, 0);
    json::law_lookup(t, "role"@, 1);
    json::law_lookup(t, "tool_call_id"@, 2);
    assert(p[0].0 == "args"@);
    assert(p[1].0 == "durationMs"@);
    assert(p[2].0 == "error"@);
    assert(p[3].0 == "name"@);
    assert(p[4].0 == "result"@);
    json::law_lookup(p, "args"@, 0);
    json::law_lookup(p, "durationMs"@, 1);
    json::law_lookup(p, "error"@, 2);
    json::law_lookup(p, "name"@, 3);
    json::law_lookup(p, "result"@, 4);
    assert(next.result.tool_calls.drop_last() =~= r.result.tool_calls);
}

/// A file that a tool made is among those made, and one that it changed among
/// those changed; the tool's answer says which, or else the call does.
pub proof fn law_files_are_noted(r: ResultText, args: json::JsonText, answer: json::JsonText, p: Seq<char>)
    requires
        answer.member_text("path"@) == Some(p) || (answer.member_text("path"@) is None
            && args.member_text("path"@) == Some(p)),
    ensures
        answer.member_text("action"@) == Some("Created"@) ==> filed(r, args, answer).files_created
            == r.files_created.push(p) && filed(r, args, answer).files_modified == r.files_modified,
        answer.member_text("action"@) == Some("Updated"@) || answer.member_text("action"@) == Some(
            "Edited"@,
        ) ==> filed(r, args, answer).files_modified == r.files_modified.push(p) && filed(
            r,
            args,
            answer,
        ).files_created == r.files_created,
        answer.member_text("action"@) is None ==> filed(r, args, answer) == r,
{
    reveal_strlit("Created");
    reveal_strlit("Updated");
    reveal_strlit("Edited");
    assert("Created"@.len() == 7 && "Updated"@.len() == 7 && "Edited"@.len() == 6);
    assert("Created"@[0] == 'C' && "Updated"@[0] == 'U');
}

/// A patch is judged: which file, what for what, and whether it went well. No
/// other call is.
pub proof fn law_patches_are_judged(call: json::JsonText, answer: json::JsonText)
    ensures
        call_name(call) == "patch"@ || call_name(call) == "read_and_patch"@ ==> {
            let args = call_arguments(call);
            &&& patch_of(call, answer) is Some
            &&& patch_of(call, answer)->0.ok <==> answer.member_text("error"@) is None
            &&& args.member_text("path"@) matches Some(s) ==> patch_of(call, answer)->0.path == s
            &&& args.member_text("old_str"@) matches Some(s) ==> patch_of(call, answer)->0.old_str
                == s
            &&& args.member_text("new_str"@) matches Some(s) ==> patch_of(call, answer)->0.new_str
                == s
        },
        call_name(call) != "patch"@ && call_name(call) != "read_and_patch"@ ==> patch_of(
            call,
            answer,
        ) is None,
{
}

/// A signal to stop is put to the model as the user's words, and the calls that
/// waited are dropped.
pub proof fn law_signals_stop_calls(r: RunText, injection: Seq<char>)
    ensures
        signalled(r, injection).pending.len() == 0,
        signalled(r, injection).history.drop_last() == r.history,
        signalled(r, injection).history.last().member_text("role"@) == Some("user"@),
        signalled(r, injection).history.last().member_text("content"@) == Some(injection),
        signalled(r, injection).result == r.result,
{
    reveal_strlit("content");
    reveal_strlit("role");
    assert("content"@.len() == 7 && "role"@.len() == 4);
    let t = said("user"@, injection)->Table_0;
    assert(t[0].0 == "content"@);
    assert(t[1].0 == "role"@);
    json::law_lookup(t, "content"@, 0);
    json::law_lookup(t, "role"@, 1);
    assert(signalled(r, injection).history.drop_last() =~= r.history);
}

/// A run without a response of its own responds with the last thing that the
/// assistant said.
pub proof fn law_last_reply_is_the_response(r: RunText, ms: u64, m: json::JsonText, s: Seq<char>)
    ensures
        finished(r, ms).elapsed_ms == ms,
        r.result.response.len() > 0 ==> finished(r, ms).response == r.result.response,
        r.result.response.len() == 0 ==> (last_reply(r.history) matches Some(t) ==> finished(
            r,
            ms,
        ).response == t),
        m.member_text("role"@) == Some("assistant"@) && m.member("content"@) == Some(
            json::JsonText::Text(s),
        ) ==> last_reply(r.history.push(m)) == Some(s),
        m.member_text("role"@) != Some("assistant"@) ==> last_reply(r.history.push(m)) == last_reply(
            r.history,
        ),
{
    assert(r.history.push(m).drop_last() =~= r.history);
}

} // verus!
