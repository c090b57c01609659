//! The agent as a partner of an editor: frames of JSON, one on each line.

use vstd::prelude::*;

use crate::json;
use crate::json::Json;
use crate::outside;
use crate::text;

verus! {

// ---------------------------------------------------------------------------
// Events
// ---------------------------------------------------------------------------

/// Something that the editor is told.
#[derive(Debug)]
pub struct AcpEvent {
    pub kind: String,
    pub data: Json,
}

/// A tool is called.
pub fn from_tool_call(name: &str, args: &Json) -> (r: AcpEvent)
    ensures
        r.kind@ == "tool_call"@,
        r.data@ == json::JsonText::Table(
            seq![("arguments"@, args@), ("name"@, json::JsonText::Text(name@))],
        ),
{
    AcpEvent {
        kind: "tool_call".to_owned(),
        data: json::table2("arguments", args.copy(), "name", json::word(name)),
    }
}

/// A tool answered.
pub fn from_tool_result(name: &str, result: &Json) -> (r: AcpEvent)
    ensures
        r.kind@ == "tool_result"@,
        r.data@ == json::JsonText::Table(
            seq![("name"@, json::JsonText::Text(name@)), ("result"@, result@)],
        ),
{
    AcpEvent {
        kind: "tool_result".to_owned(),
        data: json::table2("name", json::word(name), "result", result.copy()),
    }
}

/// The model said something.
pub fn from_assistant_text(said: &str) -> (r: AcpEvent)
    ensures
        r.kind@ == "assistant_text"@,
        r.data@ == json::JsonText::Table(seq![("text"@, json::JsonText::Text(said@))]),
{
    AcpEvent {
        kind: "assistant_text".to_owned(),
        data: json::table1("text", json::word(said)),
    }
}

/// Something went wrong.
pub fn from_error(message: &str) -> (r: AcpEvent)
    ensures
        r.kind@ == "error"@,
        r.data@ == json::JsonText::Table(seq![("message"@, json::JsonText::Text(message@))]),
{
    AcpEvent {
        kind: "error".to_owned(),
        data: json::table1("message", json::word(message)),
    }
}

/// Something else is to be known.
pub fn from_metadata(metadata: &Json) -> (r: AcpEvent)
    ensures
        r.kind@ == "metadata"@,
        r.data@ == metadata@,
{
    AcpEvent { kind: "metadata".to_owned(), data: metadata.copy() }
}

// ---------------------------------------------------------------------------
// Frames
// ---------------------------------------------------------------------------

/// What the agent can do for an editor.
#[derive(Debug, Clone, Copy, PartialEq, Eq, Structural)]
pub struct AcpCapabilities {
    pub edit: bool,
    pub command: bool,
    pub chat: bool,
    pub diagnostics: bool,
}

impl Default for AcpCapabilities {
    fn default() -> (r: AcpCapabilities)
        ensures
            r == (AcpCapabilities { edit: true, command: true, chat: true, diagnostics: true }),
    {
        AcpCapabilities { edit: true, command: true, chat: true, diagnostics: true }
    }
}

/// The frame with which the agent introduces itself.
pub open spec fn capabilities_value(
    c: AcpCapabilities,
    name: Seq<char>,
    version: Seq<char>,
) -> json::JsonText {
    json::JsonText::Table(
        seq![
            (
                "capabilities"@,
                json::JsonText::Table(
                    seq![
                        ("chat"@, json::JsonText::Bool(c.chat)),
                        ("command"@, json::JsonText::Bool(c.command)),
                        ("diagnostics"@, json::JsonText::Bool(c.diagnostics)),
                        ("edit"@, json::JsonText::Bool(c.edit)),
                    ],
                ),
            ),
            ("name"@, json::JsonText::Text(name)),
            ("type"@, json::JsonText::Text("agent.capabilities"@)),
            ("version"@, json::JsonText::Text(version)),
        ],
    )
}

fn capabilities_frame(c: &AcpCapabilities, name: &str, version: &str) -> (r: Json)
    ensures
        r@ == capabilities_value(*c, name@, version@),
{
    let inner = json::table4(
        "chat",
        Json::Bool(c.chat),
        "command",
        Json::Bool(c.command),
        "diagnostics",
        Json::Bool(c.diagnostics),
        "edit",
        Json::Bool(c.edit),
    );
    json::table4(
        "capabilities",
        inner,
        "name",
        json::word(name),
        "type",
        json::word("agent.capabilities"),
        "version",
        json::word(version),
    )
}

pub open spec fn error_value(message: Seq<char>) -> json::JsonText {
    json::JsonText::Table(
        seq![
            ("message"@, json::JsonText::Text(message)),
            ("type"@, json::JsonText::Text("error"@)),
        ],
    )
}

fn error_frame(message: &str) -> (r: Json)
    ensures
        r@ == error_value(message@),
{
    json::table2("message", json::word(message), "type", json::word("error"))
}

// ---------------------------------------------------------------------------
// Prompts
// ---------------------------------------------------------------------------

/// What the editor says of the file that is open.
pub open spec fn file_text(file: json::JsonText) -> Seq<char> {
    (match file.member_text("path"@) {
        Some(p) => "\n\nCurrent file: "@ + p,
        None => Seq::empty(),
    }) + (match file.member("selection"@) {
        Some(s) => "\nSelected text (lines "@ + text::decimal_int(
            signed_or_zero(s, "start"@) as int,
        ) + "-"@ + text::decimal_int(signed_or_zero(s, "end"@) as int) + "):\n"@
            + s.member_text_or("text"@, ""@),
        None => Seq::empty(),
    })
}

pub open spec fn signed_or_zero(j: json::JsonText, key: Seq<char>) -> i64 {
    match j.member_signed(key) {
        Some(n) => n,
        None => 0,
    }
}

/// What the editor complains of.
pub open spec fn diagnostic_line(d: json::JsonText) -> Seq<char> {
    "\n  "@ + d.member_text_or("severity"@, "info"@) + " "@ + d.member_text_or("file"@, ""@) + ":"@
        + text::decimal_int(signed_or_zero(d, "line"@) as int) + ": "@ + d.member_text_or(
        "message"@,
        ""@,
    )
}

pub open spec fn diagnostic_lines(v: Seq<json::JsonText>) -> Seq<Seq<char>> {
    v.map_values(|d: json::JsonText| diagnostic_line(d))
}

/// What the editor says of the place from which a prompt comes.
pub open spec fn context_text(context: Option<json::JsonText>) -> Seq<char> {
    match context {
        Some(c) => (match c.member("file"@) {
            Some(f) => file_text(f),
            None => Seq::empty(),
        }) + (match c.member_items("diagnostics"@) {
            Some(v) => if v.len() > 0 {
                "\n\nIDE diagnostics:"@ + text::join(diagnostic_lines(v), ""@)
            } else {
                Seq::empty()
            },
            None => Seq::empty(),
        }),
        None => Seq::empty(),
    }
}

/// A prompt with what the editor says of the place from which it comes.
pub open spec fn augmented(prompt: Seq<char>, context: Option<json::JsonText>) -> Seq<char> {
    prompt + context_text(context)
}

fn nothing() -> (r: String)
    ensures
        r@ == Seq::<char>::empty(),
{
    let r = String::new();
    assert(r@ =~= Seq::<char>::empty());
    r
}

fn number_of(j: &Json, key: &str) -> (r: String)
    ensures
        r@ == text::decimal_int(signed_or_zero(j@, key@) as int),
{
    match j.get_i64(key) {
        Some(n) => text::signed_number(n),
        None => text::signed_number(0),
    }
}

fn format_file(file: &Json) -> (r: String)
    ensures
        r@ == file_text(file@),
{
    let a = match file.get_str("path") {
        Some(p) => text::cat2("\n\nCurrent file: ", &p),
        None => nothing(),
    };
    let b = match file.get("selection") {
        Some(s) => {
            let start = number_of(s, "start");
            let end = number_of(s, "end");
            let said = s.get_str_or("text", "");
            text::cat6("\nSelected text (lines ", &start, "-", &end, "):\n", &said)
        },
        None => nothing(),
    };
    text::cat2(&a, &b)
}

fn format_diagnostics(v: &Vec<Json>) -> (r: String)
    ensures
        r@ == text::join(diagnostic_lines(json::values(v@)), ""@),
{
    let ghost wanted = diagnostic_lines(json::values(v@));
    let mut lines: Vec<String> = Vec::new();
    let mut i: usize = 0;
    while i < v.len()
        invariant
            i <= v.len(),
            lines.len() == i,
            wanted == diagnostic_lines(json::values(v@)),
            forall|k: int| 0 <= k < i ==> (#[trigger] lines@[k])@ == wanted[k],
        decreases v.len() - i,
    {
        assert(json::values(v@)[i as int] == v@[i as int]@);
        let severity = v[i].get_str_or("severity", "info");
        let file = v[i].get_str_or("file", "");
        let line = number_of(&v[i], "line");
        let message = v[i].get_str_or("message", "");
        let s = text::cat8("\n  ", &severity, " ", &file, ":", &line, ": ", &message);
        assert(s@ == wanted[i as int]);
        lines.push(s);
        i = i + 1;
    }
    assert(text::texts(lines@) =~= wanted);
    text::join_with(&lines, "")
}

pub open spec fn ref_value(o: Option<&Json>) -> Option<json::JsonText> {
    match o {
        Some(j) => Some(j@),
        None => None,
    }
}

/// A prompt with what the editor says of the place from which it comes.
pub fn augment(prompt: &str, context: Option<&Json>) -> (r: String)
    ensures
        r@ == augmented(prompt@, ref_value(context)),
{
    let rest = match context {
        Some(c) => {
            let a = match c.get("file") {
                Some(f) => format_file(f),
                None => nothing(),
            };
            let b = match c.get_array("diagnostics") {
                Some(v) => {
                    assert(json::values(v@).len() == v@.len());
                    if v.len() > 0 {
                        let lines = format_diagnostics(v);
                        text::cat2("\n\nIDE diagnostics:", &lines)
                    } else {
                        nothing()
                    }
                },
                None => nothing(),
            };
            text::cat2(&a, &b)
        },
        None => nothing(),
    };
    text::cat2(prompt, &rest)
}

// ---------------------------------------------------------------------------
// Messages
// ---------------------------------------------------------------------------

/// What came of a prompt.
#[derive(Debug)]
pub struct PromptResult {
    pub actions: Vec<Json>,
    pub message: String,
}

pub ghost struct PromptText {
    pub actions: Seq<json::JsonText>,
    pub message: Seq<char>,
}

impl View for PromptResult {
    type V = PromptText;

    open spec fn view(&self) -> PromptText {
        PromptText { actions: json::values(self.actions@), message: self.message@ }
    }
}

/// Who takes the prompts.
pub trait AgentLoop {
    fn run_prompt(&mut self, prompt: &str, context: Option<&Json>) -> (r: PromptResult);
}

/// What a message asks for.
#[derive(Debug)]
pub enum Request {
    /// The message is kept as what is known of the editor.
    Context,
    /// A prompt is to be taken.
    Prompt { prompt: String },
    Nothing,
    /// The conversation is over.
    Shutdown,
    Unknown(String),
}

pub ghost enum RequestText {
    Context,
    Prompt { prompt: Seq<char> },
    Nothing,
    Shutdown,
    Unknown(Seq<char>),
}

impl View for Request {
    type V = RequestText;

    open spec fn view(&self) -> RequestText {
        match self {
            Request::Context => RequestText::Context,
            Request::Prompt { prompt } => RequestText::Prompt { prompt: prompt@ },
            Request::Nothing => RequestText::Nothing,
            Request::Shutdown => RequestText::Shutdown,
            Request::Unknown(s) => RequestText::Unknown(s@),
        }
    }
}

/// The place from which a prompt comes: the one that it names, or the last one
/// that the editor told of.
pub open spec fn place_of(m: json::JsonText, kept: Option<json::JsonText>) -> Option<
    json::JsonText,
> {
    match m.member("context"@) {
        Some(c) => Some(c),
        None => kept,
    }
}

/// What a message asks for, when this is the last thing that the editor told of
/// itself. A prompt is brought together with its context.
pub open spec fn requested(m: json::JsonText, kept: Option<json::JsonText>) -> RequestText {
    let kind = m.member_text_or("type"@, ""@);
    if kind == "context.update"@ {
        RequestText::Context
    } else if kind == "prompt"@ {
        RequestText::Prompt {
            prompt: augmented(m.member_text_or("text"@, ""@), place_of(m, kept)),
        }
    } else if kind == "action.confirm"@ {
        RequestText::Nothing
    } else if kind == "shutdown"@ {
        RequestText::Shutdown
    } else {
        RequestText::Unknown(kind)
    }
}

fn place<'a>(m: &'a Json, kept: &'a Option<Json>) -> (r: Option<&'a Json>)
    ensures
        ref_value(r) == place_of(m@, json::opt_value(*kept)),
{
    match m.get("context") {
        Some(c) => Some(c),
        None => match kept {
            Some(k) => Some(k),
            None => None,
        },
    }
}

/// What a message asks for, when this is the last thing that the editor told of
/// itself.
pub fn request_of(m: &Json, kept: &Option<Json>) -> (r: Request)
    ensures
        r@ == requested(m@, json::opt_value(*kept)),
{
    let kind = m.get_str_or("type", "");
    if text::same(&kind, "context.update") {
        Request::Context
    } else if text::same(&kind, "prompt") {
        let said = m.get_str_or("text", "");
        Request::Prompt { prompt: augment(&said, place(m, kept)) }
    } else if text::same(&kind, "action.confirm") {
        Request::Nothing
    } else if text::same(&kind, "shutdown") {
        Request::Shutdown
    } else {
        Request::Unknown(kind)
    }
}

/// The frame that answers a prompt.
pub open spec fn response_value(id: json::JsonText, r: PromptText) -> json::JsonText {
    json::JsonText::Table(
        seq![
            ("actions"@, json::JsonText::List(r.actions)),
            ("id"@, id),
            ("message"@, json::JsonText::Text(r.message)),
            ("ok"@, json::JsonText::Bool(true)),
            ("type"@, json::JsonText::Text("response"@)),
        ],
    )
}

/// The frame that answers a prompt.
pub fn response_frame(m: &Json, r: PromptResult) -> (f: Json)
    ensures
        f@ == response_value(m@.member_or_null("id"@), r@),
{
    let ghost said = r@;
    let v = vec![
        ("actions".to_owned(), json::list(r.actions)),
        ("id".to_owned(), m.get_or_null("id")),
        ("message".to_owned(), Json::Text(r.message)),
        ("ok".to_owned(), Json::Bool(true)),
        ("type".to_owned(), json::word("response")),
    ];
    let f = json::table(v);
    assert(f@->Table_0 =~= response_value(m@.member_or_null("id"@), said)->Table_0);
    f
}

/// The partner of an editor.
#[derive(Debug)]
pub struct AcpAdapter<L> {
    pub agent_loop: L,
    pub config: Json,
    pub capabilities: AcpCapabilities,
    pub name: String,
    pub version: String,
    pub context: Option<Json>,
}

/// Where a conversation stands.
pub ghost struct Exchange {
    pub frames: Seq<json::JsonText>,
    /// How many prompts were put to the agent.
    pub used: nat,
    pub over: bool,
    /// The last thing that the editor told of itself.
    pub kept: Option<json::JsonText>,
}

/// What one message comes to, when the agent makes this of a prompt in it.
pub open spec fn message_answered(
    m: json::JsonText,
    outcome: PromptText,
    kept: Option<json::JsonText>,
) -> Exchange {
    match requested(m, kept) {
        RequestText::Context => Exchange {
            frames: Seq::empty(),
            used: 0,
            over: false,
            kept: Some(m),
        },
        RequestText::Prompt { .. } => Exchange {
            frames: seq![response_value(m.member_or_null("id"@), outcome)],
            used: 1,
            over: false,
            kept,
        },
        RequestText::Unknown(kind) => Exchange {
            frames: seq![error_value("Unknown message type: "@ + kind)],
            used: 0,
            over: false,
            kept,
        },
        RequestText::Shutdown => Exchange { frames: Seq::empty(), used: 0, over: true, kept },
        RequestText::Nothing => Exchange { frames: Seq::empty(), used: 0, over: false, kept },
    }
}

/// What one line comes to.
pub open spec fn line_answered(
    line: Seq<char>,
    outcome: PromptText,
    kept: Option<json::JsonText>,
) -> Exchange {
    if text::trimmed(line).len() == 0 {
        Exchange { frames: Seq::empty(), used: 0, over: false, kept }
    } else {
        match outside::json_value(line) {
            Some(m) => message_answered(m, outcome, kept),
            None => Exchange {
                frames: seq![
                    error_value(
                        match outside::json_fault_of(line) {
                            Some(e) => e,
                            None => Seq::empty(),
                        },
                    ),
                ],
                used: 0,
                over: false,
                kept,
            },
        }
    }
}

/// The frames that some lines are answered with, one line after the other, when
/// the agent makes something of the prompts in turn; and how many of the
/// outcomes were used. Nothing comes after the end of the conversation.
pub open spec fn answered(
    lines: Seq<Seq<char>>,
    outcomes: Seq<PromptText>,
    kept: Option<json::JsonText>,
) -> Exchange
    decreases lines.len(),
{
    if lines.len() == 0 {
        Exchange { frames: Seq::empty(), used: 0, over: false, kept }
    } else {
        let before = answered(lines.drop_last(), outcomes, kept);
        if before.over {
            before
        } else {
            let last = line_answered(lines.last(), outcomes[before.used as int], before.kept);
            Exchange {
                frames: before.frames + last.frames,
                used: before.used + last.used,
                over: last.over,
                kept: last.kept,
            }
        }
    }
}

proof fn lemma_outcomes(
    lines: Seq<Seq<char>>,
    a: Seq<PromptText>,
    b: Seq<PromptText>,
    kept: Option<json::JsonText>,
)
    requires
        answered(lines, a, kept).used <= a.len(),
        a.is_prefix_of(b),
    ensures
        answered(lines, a, kept) == answered(lines, b, kept),
    decreases lines.len(),
{
    if lines.len() > 0 {
        let before = answered(lines.drop_last(), a, kept);
        lemma_outcomes(lines.drop_last(), a, b, kept);
        if before.used < a.len() {
            assert(a[before.used as int] == b[before.used as int]);
        }
    }
}

proof fn lemma_over(
    lines: Seq<Seq<char>>,
    i: int,
    a: Seq<PromptText>,
    kept: Option<json::JsonText>,
)
    requires
        0 <= i <= lines.len(),
        answered(lines.take(i), a, kept).over,
    ensures
        answered(lines, a, kept) == answered(lines.take(i), a, kept),
    decreases lines.len() - i,
{
    if i < lines.len() {
        assert(lines.take(i + 1).drop_last() =~= lines.take(i));
        lemma_over(lines, i + 1, a, kept);
    } else {
        assert(lines.take(i) =~= lines);
    }
}

proof fn lemma_used(
    lines: Seq<Seq<char>>,
    k: int,
    i: int,
    a: Seq<PromptText>,
    kept: Option<json::JsonText>,
)
    requires
        0 <= k <= i <= lines.len(),
    ensures
        answered(lines.take(k), a, kept).used <= answered(lines.take(i), a, kept).used,
        k < i && !answered(lines.take(k), a, kept).over && put_by(
            lines[k],
            answered(lines.take(k), a, kept).kept,
        ) is Some ==> answered(lines.take(k), a, kept).used < answered(lines.take(i), a, kept).used,
    decreases i,
{
    if k < i {
        lemma_used(lines, k, i - 1, a, kept);
        assert(lines.take(i).drop_last() =~= lines.take(i - 1));
        assert(lines.take(i).last() == lines[i - 1]);
    }
}

pub open spec fn opt_frame(o: Option<Json>) -> Seq<json::JsonText> {
    match o {
        Some(f) => seq![f@],
        None => Seq::empty(),
    }
}

/// The prompt that a line puts to the agent, and the place from which it comes.
pub open spec fn put_by(line: Seq<char>, kept: Option<json::JsonText>) -> Option<
    (Seq<char>, Option<json::JsonText>),
> {
    if text::trimmed(line).len() == 0 {
        None
    } else {
        match outside::json_value(line) {
            Some(m) => match requested(m, kept) {
                RequestText::Prompt { prompt } => Some((prompt, place_of(m, kept))),
                _ => None,
            },
            None => None,
        }
    }
}

impl<L: AgentLoop> AcpAdapter<L> {
    pub fn new(agent_loop: L, config: Json, version: &str) -> (r: AcpAdapter<L>)
        ensures
            r.agent_loop == agent_loop,
            r.config == config,
            r.capabilities == (AcpCapabilities {
                edit: true,
                command: true,
                chat: true,
                diagnostics: true,
            }),
            r.name@ == "itsy"@,
            r.version@ == version@,
            r.context is None,
    {
        AcpAdapter {
            agent_loop,
            config,
            capabilities: AcpCapabilities {
                edit: true,
                command: true,
                chat: true,
                diagnostics: true,
            },
            name: "itsy".to_owned(),
            version: version.to_owned(),
            context: None,
        }
    }

    /// The frame that introduces the agent.
    pub fn introduction(&self) -> (r: Json)
        ensures
            r@ == capabilities_value(self.capabilities, self.name@, self.version@),
    {
        capabilities_frame(&self.capabilities, &self.name, &self.version)
    }

    fn answer(&mut self, line: &str) -> (r: (Option<Json>, bool, Ghost<PromptText>))
        ensures
            final(self).capabilities == old(self).capabilities,
            final(self).name == old(self).name,
            final(self).version == old(self).version,
            ({
                let x = line_answered(line@, r.2@, json::opt_value(old(self).context));
                &&& opt_frame(r.0) == x.frames
                &&& r.1 == x.over
                &&& json::opt_value(final(self).context) == x.kept
            }),
            match put_by(line@, json::opt_value(old(self).context)) {
                Some((prompt, place)) => exists|
                    l: &mut L,
                    p: &str,
                    c: Option<&Json>,
                    said: PromptResult,
                |
                    {
                        &&& #[trigger] call_ensures(L::run_prompt, (l, p, c), said)
                        &&& *l == old(self).agent_loop
                        &&& *final(l) == final(self).agent_loop
                        &&& p@ == prompt
                        &&& ref_value(c) == place
                        &&& said@ == r.2@
                    },
                None => final(self).agent_loop == old(self).agent_loop,
            },
    {
        let ghost kept = json::opt_value(self.context);
        let ghost nobody = PromptText { actions: Seq::empty(), message: Seq::empty() };
        let ghost x = line_answered(line@, nobody, kept);
        let bare = text::trim(line);
        if bare.as_str().is_empty() {
            assert(opt_frame(None) == x.frames);
            return (None, false, Ghost(nobody));
        }
        match outside::json_parse(line) {
            Some(m) => match request_of(&m, &self.context) {
                Request::Context => {
                    self.context = Some(m);
                    assert(opt_frame(None) == x.frames);
                    (None, false, Ghost(nobody))
                },
                Request::Prompt { prompt } => {
                    let r = self.agent_loop.run_prompt(&prompt, place(&m, &self.context));
                    let ghost said = r@;
                    let frame = response_frame(&m, r);
                    let out = Some(frame);
                    assert(opt_frame(out) == line_answered(line@, said, kept).frames);
                    (out, false, Ghost(said))
                },
                Request::Nothing => {
                    assert(opt_frame(None) == x.frames);
                    (None, false, Ghost(nobody))
                },
                Request::Shutdown => {
                    assert(opt_frame(None) == x.frames);
                    (None, true, Ghost(nobody))
                },
                Request::Unknown(kind) => {
                    let message = text::cat2("Unknown message type: ", &kind);
                    let out = Some(error_frame(&message));
                    assert(opt_frame(out) == x.frames);
                    (out, false, Ghost(nobody))
                },
            },
            None => {
                let message = match outside::json_fault(line) {
                    Some(e) => e,
                    None => nothing(),
                };
                let out = Some(error_frame(&message));
                assert(opt_frame(out) == x.frames);
                (out, false, Ghost(nobody))
            },
        }
    }

    /// Answers one line of an editor, with a frame if one is due; the flag says
    /// whether the conversation is over. The agent is
    /// handed the prompt in the line and its place, and nothing else; whatever it
    /// makes of it, the frame follows from that.
    pub fn handle_message(&mut self, line: &str) -> (r: (Option<Json>, bool))
        ensures
            final(self).capabilities == old(self).capabilities,
            final(self).name == old(self).name,
            final(self).version == old(self).version,
            exists|outcome: PromptText|
                {
                    let x = #[trigger] line_answered(
                        line@,
                        outcome,
                        json::opt_value(old(self).context),
                    );
                    &&& opt_frame(r.0) == x.frames
                    &&& r.1 == x.over
                    &&& json::opt_value(final(self).context) == x.kept
                    &&& match put_by(line@, json::opt_value(old(self).context)) {
                        Some((prompt, place)) => exists|
                            l: &mut L,
                            p: &str,
                            c: Option<&Json>,
                            said: PromptResult,
                        |
                            {
                                &&& #[trigger] call_ensures(L::run_prompt, (l, p, c), said)
                                &&& *l == old(self).agent_loop
                                &&& *final(l) == final(self).agent_loop
                                &&& p@ == prompt
                                &&& ref_value(c) == place
                                &&& said@ == outcome
                            },
                        None => final(self).agent_loop == old(self).agent_loop,
                    }
                },
    {
        let (frame, over, Ghost(outcome)) = self.answer(line);
        assert(opt_frame(frame) == line_answered(
            line@,
            outcome,
            json::opt_value(old(self).context),
        ).frames);
        (frame, over)
    }

    /// Answers the lines of an editor: with the frame that introduces the
    /// agent, and then one after the other, until the conversation is over.
    /// The agent is handed the prompt in each line and its place, one after the
    /// other, and nothing else; whatever it makes of them, the frames follow from
    /// that.
    pub fn run(&mut self, lines: &Vec<String>) -> (out: Vec<Json>)
        ensures
            exists|outcomes: Seq<PromptText>, loops: Seq<L>|
                {
                    let x = #[trigger] answered(
                        text::texts(lines@),
                        outcomes,
                        json::opt_value(old(self).context),
                    );
                    let n = loops.len() - 1;
                    &&& 0 <= n <= lines.len()
                    &&& n == lines.len() || answered(
                        text::texts(lines@).take(n),
                        outcomes,
                        json::opt_value(old(self).context),
                    ).over
                    &&& loops[0] == old(self).agent_loop
                    &&& #[trigger] loops.last() == final(self).agent_loop
                    &&& forall|k: int|
                        0 <= k < n ==> {
                            let before = #[trigger] answered(
                                text::texts(lines@).take(k),
                                outcomes,
                                json::opt_value(old(self).context),
                            );
                            &&& !before.over
                            &&& match put_by(text::texts(lines@)[k], before.kept) {
                                Some((prompt, place)) => exists|
                                    l: &mut L,
                                    p: &str,
                                    c: Option<&Json>,
                                    said: PromptResult,
                                |
                                    {
                                        &&& #[trigger] call_ensures(L::run_prompt, (l, p, c), said)
                                        &&& *l == loops[k]
                                        &&& *final(l) == loops[k + 1]
                                        &&& p@ == prompt
                                        &&& ref_value(c) == place
                                        &&& said@ == outcomes[before.used as int]
                                    },
                                None => loops[k + 1] == loops[k],
                            }
                        }
                    &&& x.used == outcomes.len()
                    &&& json::values(out@) == seq![
                        capabilities_value(old(self).capabilities, old(self).name@, old(self).version@),
                    ] + x.frames
                    &&& json::opt_value(final(self).context) == x.kept
                },
    {
        let ghost all = text::texts(lines@);
        let ghost kept = json::opt_value(self.context);
        let ghost first = capabilities_value(self.capabilities, self.name@, self.version@);
        let init = self.introduction();
        let mut out = vec![init];
        let ghost mut outcomes: Seq<PromptText> = Seq::empty();
        let ghost mut loops: Seq<L> = seq![self.agent_loop];
        let mut i: usize = 0;
        proof {
            assert(all.take(0) =~= Seq::<Seq<char>>::empty());
            assert(json::values(out@) =~= seq![first] + answered(all.take(0), outcomes, kept).frames);
        }
        while i < lines.len()
            invariant
                i <= lines.len(),
                all == text::texts(lines@),
                kept == json::opt_value(old(self).context),
                first == capabilities_value(
                    old(self).capabilities,
                    old(self).name@,
                    old(self).version@,
                ),
                json::opt_value(self.context) == answered(
                    all.take(i as int),
                    outcomes,
                    kept,
                ).kept,
                answered(all.take(i as int), outcomes, kept).used == outcomes.len(),
                !answered(all.take(i as int), outcomes, kept).over,
                json::values(out@) == seq![first] + answered(all.take(i as int), outcomes, kept).frames,
                loops.len() == i + 1,
                loops[0] == old(self).agent_loop,
                loops.last() == self.agent_loop,
                forall|k: int|
                    0 <= k < i ==> {
                        let before = #[trigger] answered(all.take(k), outcomes, kept);
                        &&& !before.over
                        &&& match put_by(all[k], before.kept) {
                            Some((prompt, place)) => exists|
                                l: &mut L,
                                p: &str,
                                c: Option<&Json>,
                                said: PromptResult,
                            |
                                {
                                    &&& #[trigger] call_ensures(L::run_prompt, (l, p, c), said)
                                    &&& *l == loops[k]
                                    &&& *final(l) == loops[k + 1]
                                    &&& p@ == prompt
                                    &&& ref_value(c) == place
                                    &&& said@ == outcomes[before.used as int]
                                },
                            None => loops[k + 1] == loops[k],
                        }
                    },
            decreases lines.len() - i,
        {
            let ghost before = answered(all.take(i as int), outcomes, kept);
            let ghost frames = json::values(out@);
            let ghost heard = outcomes;
            let ghost agents = loops;
            proof {
                assert(all.take(i + 1).drop_last() =~= all.take(i as int));
                assert(all.take(i + 1).last() == lines@[i as int]@);
            }
            let (frame, over, Ghost(outcome)) = self.answer(&lines[i]);
            let ghost line = lines@[i as int]@;
            proof {
                let last = line_answered(line, outcome, before.kept);
                if last.used == 1 {
                    let more = outcomes.push(outcome);
                    assert(outcomes.is_prefix_of(more));
                    assert forall|k: int| 0 <= k <= i implies #[trigger] answered(
                        all.take(k),
                        outcomes,
                        kept,
                    ) == answered(all.take(k), more, kept) && (k < i && put_by(
                        all[k],
                        answered(all.take(k), outcomes, kept).kept,
                    ) is Some ==> outcomes[answered(all.take(k), outcomes, kept).used as int]
                        == more[answered(all.take(k), outcomes, kept).used as int]) by {
                        lemma_used(all, k, i as int, outcomes, kept);
                        lemma_outcomes(all.take(k), outcomes, more, kept);
                    }
                    outcomes = more;
                } else {
                    assert(last == line_answered(line, outcomes[before.used as int], before.kept));
                }
                loops = loops.push(self.agent_loop);
                assert(answered(all.take(i as int), outcomes, kept) == before);
                assert forall|k: int| 0 <= k < i + 1 implies {
                    let before = #[trigger] answered(all.take(k), outcomes, kept);
                    &&& !before.over
                    &&& match put_by(all[k], before.kept) {
                        Some((prompt, place)) => exists|
                            l: &mut L,
                            p: &str,
                            c: Option<&Json>,
                            said: PromptResult,
                        |
                            {
                                &&& #[trigger] call_ensures(L::run_prompt, (l, p, c), said)
                                &&& *l == loops[k]
                                &&& *final(l) == loops[k + 1]
                                &&& p@ == prompt
                                &&& ref_value(c) == place
                                &&& said@ == outcomes[before.used as int]
                            },
                        None => loops[k + 1] == loops[k],
                    }
                } by {
                    if k < i {
                        assert(answered(all.take(k), heard, kept) == answered(
                            all.take(k),
                            outcomes,
                            kept,
                        ));
                        assert(loops[k] == agents[k] && loops[k + 1] == agents[k + 1]);
                    } else {
                        assert(loops[k] == agents.last());
                        assert(all[k] == line);
                    }
                }
                assert(answered(all.take(i + 1), outcomes, kept) == (Exchange {
                    frames: before.frames + last.frames,
                    used: before.used + last.used,
                    over: last.over,
                    kept: last.kept,
                }));
                assert(opt_frame(frame) == last.frames);
            }
            match frame {
                Some(f) => {
                    out.push(f);
                    assert(json::values(out@) =~= frames + opt_frame(frame));
                },
                None => {
                    assert(frames + opt_frame(frame) =~= frames);
                },
            }
            i = i + 1;
            assert(json::values(out@) =~= seq![first] + answered(
                all.take(i as int),
                outcomes,
                kept,
            ).frames);
            if over {
                proof {
                    lemma_over(all, i as int, outcomes, kept);
                    assert(loops.last() == self.agent_loop);
                }
                return out;
            }
        }
        assert(all.take(i as int) =~= all);
        assert(loops.last() == self.agent_loop);
        out
    }
}

/// A line that holds no JSON does not end a conversation, and a blank one
/// changes nothing.
pub proof fn law_conversation_goes_on(
    lines: Seq<Seq<char>>,
    line: Seq<char>,
    outcomes: Seq<PromptText>,
    kept: Option<json::JsonText>,
)
    requires
        outside::json_value(line) is None || text::trimmed(line).len() == 0,
    ensures
        answered(lines.push(line), outcomes, kept).over == answered(lines, outcomes, kept).over,
        text::trimmed(line).len() == 0 ==> answered(lines.push(line), outcomes, kept) == answered(
            lines,
            outcomes,
            kept,
        ),
{
    assert(lines.push(line).drop_last() =~= lines);
}

/// What the editor told of itself stays known until it tells otherwise, and a
/// later prompt without a place of its own comes from there.
pub proof fn law_context_is_kept(
    lines: Seq<Seq<char>>,
    line: Seq<char>,
    m: json::JsonText,
    prompt: json::JsonText,
    outcomes: Seq<PromptText>,
    kept: Option<json::JsonText>,
)
    requires
        !answered(lines, outcomes, kept).over,
        text::trimmed(line).len() > 0,
        outside::json_value(line) == Some(m),
        m.member_text_or("type"@, ""@) == "context.update"@,
        prompt.member_text_or("type"@, ""@) == "prompt"@,
        prompt.member("context"@) is None,
    ensures
        answered(lines.push(line), outcomes, kept).kept == Some(m),
        requested(prompt, answered(lines.push(line), outcomes, kept).kept) == (
        RequestText::Prompt {
            prompt: augmented(prompt.member_text_or("text"@, ""@), Some(m)),
        }),
{
    assert(lines.push(line).drop_last() =~= lines);
    reveal_strlit("context.update");
    reveal_strlit("prompt");
    assert("context.update"@.len() != "prompt"@.len());
}

/// The editor is told what the agent can do, who it is and which version.
pub proof fn law_introduction(c: AcpCapabilities, name: Seq<char>, version: Seq<char>)
    ensures
        ({
            let v = capabilities_value(c, name, version);
            &&& v.member_text("type"@) == Some("agent.capabilities"@)
            &&& v.member_text("name"@) == Some(name)
            &&& v.member_text("version"@) == Some(version)
            &&& v.member("capabilities"@) matches Some(x) && x.member_boolean("chat"@) == Some(c.chat)
                && x.member_boolean("command"@) == Some(c.command) && x.member_boolean(
                "diagnostics"@,
            ) == Some(c.diagnostics) && x.member_boolean("edit"@) == Some(c.edit)
        }),
{
    reveal_strlit("capabilities");
    reveal_strlit("name");
    reveal_strlit("type");
    reveal_strlit("version");
    reveal_strlit("chat");
    reveal_strlit("command");
    reveal_strlit("diagnostics");
    reveal_strlit("edit");
    assert("capabilities"@.len() == 12 && "name"@.len() == 4 && "type"@.len() == 4 && "version"@.len() == 7 && "chat"@.len() == 4 && "command"@.len() == 7 && "diagnostics"@.len() == 11 && "edit"@.len() == 4);
    assert("name"@[0] == 'n' && "type"@[0] == 't' && "chat"@[0] == 'c' && "edit"@[0] == 'e');
    assert("version"@[0] == 'v' && "command"@[0] == 'c');
    let t = capabilities_value(c, name, version)->Table_0;
    assert(t[0].0 == "capabilities"@);
    assert(t[1].0 == "name"@);
    assert(t[2].0 == "type"@);
    assert(t[3].0 == "version"@);
    json::law_lookup(t, "capabilities"@, 0);
    json::law_lookup(t, "name"@, 1);
    json::law_lookup(t, "type"@, 2);
    json::law_lookup(t, "version"@, 3);
    let x = t[0].1->Table_0;
    assert(x[0].0 == "chat"@);
    assert(x[1].0 == "command"@);
    assert(x[2].0 == "diagnostics"@);
    assert(x[3].0 == "edit"@);
    json::law_lookup(x, "chat"@, 0);
    json::law_lookup(x, "command"@, 1);
    json::law_lookup(x, "diagnostics"@, 2);
    json::law_lookup(x, "edit"@, 3);
}

/// A message to the agent stands first in what it is asked, and alone where
/// nothing is known of the editor.
pub proof fn law_message_stands_first(prompt: Seq<char>, c: json::JsonText)
    ensures
        augmented(prompt, None) == prompt,
        text::starts(augmented(prompt, Some(c)), prompt),
{
    assert(prompt + Seq::<char>::empty() =~= prompt);
    text::law_affixes(prompt, context_text(Some(c)), Seq::empty());
}

/// The file that the editor is in is told behind the message.
pub proof fn law_file_is_told(prompt: Seq<char>, c: json::JsonText, file: json::JsonText, p: Seq<char>)
    requires
        c.member("file"@) == Some(file),
        file.member_text("path"@) == Some(p),
    ensures
        text::has(augmented(prompt, Some(c)), "\n\nCurrent file: "@ + p),
{
    let x = "\n\nCurrent file: "@ + p;
    let a = file_text(file);
    let rest = a.skip(x.len() as int);
    assert(a =~= x + rest);
    let t = augmented(prompt, Some(c));
    let tail = t.skip((prompt + x).len() as int);
    assert(t.subrange(0, (prompt + x).len() as int) =~= prompt + x);
    assert(t =~= prompt + x + tail);
    text::law_affixes(x, prompt, tail);
}

/// Each diagnostic of the editor is told behind the message.
pub proof fn law_diagnostics_are_told(
    prompt: Seq<char>,
    c: json::JsonText,
    v: Seq<json::JsonText>,
    i: int,
)
    requires
        c.member_items("diagnostics"@) == Some(v),
        0 <= i < v.len(),
    ensures
        text::has(augmented(prompt, Some(c)), diagnostic_line(v[i])),
{
    let lines = diagnostic_lines(v);
    let list = text::join(lines, ""@);
    assert(lines[i] == diagnostic_line(v[i]));
    text::lemma_joined_part(lines, ""@, i);
    let t = augmented(prompt, Some(c));
    let head = t.take(t.len() - list.len());
    assert(t.skip(t.len() - list.len()) =~= list);
    assert(t =~= head + list + Seq::empty());
    text::lemma_has_within(t, head, list, Seq::empty(), lines[i]);
}

/// A diagnostic is told with its severity, its file, its line and what it says.
pub proof fn law_diagnostics(d: json::JsonText, s: Seq<char>, f: Seq<char>, n: i64, m: Seq<char>)
    requires
        d.member_text("severity"@) == Some(s),
        d.member_text("file"@) == Some(f),
        d.member_signed("line"@) == Some(n),
        d.member_text("message"@) == Some(m),
    ensures
        diagnostic_line(d) == "\n  "@ + s + " "@ + f + ":"@ + text::decimal_int(n as int) + ": "@ + m,
{
}

/// Messages are known by their kinds. A prompt brings its own context along, or
/// is put in the one that was kept; another kind is answered with an error that
/// names it.
pub proof fn law_requests(
    m: json::JsonText,
    kept: Option<json::JsonText>,
    said: Seq<char>,
    c: json::JsonText,
    kind: Seq<char>,
    outcome: PromptText,
)
    ensures
        m.member_text("type"@) == Some("prompt"@) && m.member_text("text"@) == Some(said)
            && m.member("context"@) == Some(c) ==> requested(m, kept) == (RequestText::Prompt {
            prompt: augmented(said, Some(c)),
        }),
        m.member_text("type"@) == Some("prompt"@) && m.member_text("text"@) == Some(said)
            && m.member("context"@) is None ==> requested(m, kept) == (RequestText::Prompt {
            prompt: augmented(said, kept),
        }),
        m.member_text("type"@) == Some("shutdown"@) ==> message_answered(m, outcome, kept).over
            && message_answered(m, outcome, kept).frames.len() == 0,
        m.member_text("type"@) == Some("context.update"@) ==> message_answered(m, outcome, kept).kept
            == Some(m) && message_answered(m, outcome, kept).frames.len() == 0,
        m.member_text("type"@) == Some("action.confirm"@) ==> message_answered(
            m,
            outcome,
            kept,
        ).frames.len() == 0 && message_answered(m, outcome, kept).kept == kept,
        m.member_text("type"@) == Some(kind) && kind != "prompt"@ && kind != "shutdown"@ && kind
            != "context.update"@ && kind != "action.confirm"@ ==> message_answered(
            m,
            outcome,
            kept,
        ).frames.len() == 1 && (message_answered(m, outcome, kept).frames[0].member_text(
            "message"@,
        ) matches Some(e) && text::ends(e, kind)),
        m.member_text("type"@) != Some("shutdown"@) ==> !message_answered(m, outcome, kept).over,
{
    reveal_strlit("prompt");
    reveal_strlit("shutdown");
    reveal_strlit("context.update");
    reveal_strlit("action.confirm");
    reveal_strlit("message");
    reveal_strlit("type");
    reveal_strlit("");
    assert("prompt"@.len() == 6 && "shutdown"@.len() == 8 && "context.update"@.len() == 14 && "action.confirm"@.len() == 14 && "message"@.len() == 7 && "type"@.len() == 4 && ""@.len() == 0);
    assert("context.update"@[0] == 'c' && "action.confirm"@[0] == 'a');
    text::law_affixes(kind, "Unknown message type: "@, Seq::empty());
    let t = error_value("Unknown message type: "@ + kind)->Table_0;
    assert(t[0].0 == "message"@);
    assert(t[1].0 == "type"@);
    json::law_lookup(t, "message"@, 0);
    json::law_lookup(t, "type"@, 1);
}

/// The answer to a prompt has the prompt's identifier, what the agent said and
/// what it did.
pub proof fn law_prompts_are_answered(m: json::JsonText, r: PromptText, kept: Option<json::JsonText>, id: json::JsonText)
    requires
        m.member_text("type"@) == Some("prompt"@),
        m.member("id"@) == Some(id),
    ensures
        message_answered(m, r, kept).used == 1,
        message_answered(m, r, kept).frames.len() == 1,
        ({
            let f = message_answered(m, r, kept).frames[0];
            &&& f.member("id"@) == Some(id)
            &&& f.member_text("message"@) == Some(r.message)
            &&& f.member_items("actions"@) == Some(r.actions)
            &&& f.member_boolean("ok"@) == Some(true)
            &&& f.member_text("type"@) == Some("response"@)
        }),
{
    reveal_strlit("actions");
    reveal_strlit("id");
    reveal_strlit("message");
    reveal_strlit("ok");
    reveal_strlit("type");
    reveal_strlit("prompt");
    reveal_strlit("context.update");
    assert("actions"@.len() == 7 && "id"@.len() == 2 && "message"@.len() == 7 && "ok"@.len() == 2 && "type"@.len() == 4 && "prompt"@.len() == 6 && "context.update"@.len() == 14);
    assert("actions"@[0] == 'a' && "message"@[0] == 'm' && "id"@[0] == 'i' && "ok"@[0] == 'o');
    let t = response_value(id, r)->Table_0;
    assert(t[0].0 == "actions"@);
    assert(t[1].0 == "id"@);
    assert(t[2].0 == "message"@);
    assert(t[3].0 == "ok"@);
    assert(t[4].0 == "type"@);
    json::law_lookup(t, "actions"@, 0);
    json::law_lookup(t, "id"@, 1);
    json::law_lookup(t, "message"@, 2);
    json::law_lookup(t, "ok"@, 3);
    json::law_lookup(t, "type"@, 4);
}

/// Frames are answered line by line, in order, and nothing is answered behind
/// the end.
pub proof fn law_lines_are_answered_in_order(
    lines: Seq<Seq<char>>,
    line: Seq<char>,
    outcomes: Seq<PromptText>,
    kept: Option<json::JsonText>,
)
    ensures
        answered(lines.push(line), outcomes, kept).frames.subrange(
            0,
            answered(lines, outcomes, kept).frames.len() as int,
        ) == answered(lines, outcomes, kept).frames,
        answered(lines, outcomes, kept).over ==> answered(lines.push(line), outcomes, kept)
            == answered(lines, outcomes, kept),
{
    assert(lines.push(line).drop_last() =~= lines);
    let before = answered(lines, outcomes, kept).frames;
    assert(answered(lines.push(line), outcomes, kept).frames.subrange(0, before.len() as int)
        =~= before);
}

/// Each event has its kind and what belongs to it.
pub proof fn law_events(
    name: &str,
    args: &Json,
    a: AcpEvent,
    b: AcpEvent,
    said: &str,
    c: AcpEvent,
    d: AcpEvent,
)
    requires
        call_ensures(from_tool_call, (name, args), a),
        call_ensures(from_tool_result, (name, args), b),
        call_ensures(from_assistant_text, (said,), c),
        call_ensures(from_error, (said,), d),
    ensures
        a.kind@ == "tool_call"@ && a.data@.member_text("name"@) == Some(name@) && a.data@.member(
            "arguments"@,
        ) == Some(args@),
        b.kind@ == "tool_result"@ && b.data@.member_text("name"@) == Some(name@) && b.data@.member(
            "result"@,
        ) == Some(args@),
        c.kind@ == "assistant_text"@ && c.data@.member_text("text"@) == Some(said@),
        d.kind@ == "error"@ && d.data@.member_text("message"@) == Some(said@),
{
    reveal_strlit("arguments");
    reveal_strlit("name");
    reveal_strlit("result");
    reveal_strlit("text");
    reveal_strlit("message");
    assert("arguments"@.len() == 9 && "name"@.len() == 4 && "result"@.len() == 6 && "text"@.len() == 4 && "message"@.len() == 7);
    assert("name"@[0] == 'n' && "text"@[0] == 't');
    let x = a.data@->Table_0;
    assert(x[0].0 == "arguments"@);
    assert(x[1].0 == "name"@);
    json::law_lookup(x, "arguments"@, 0);
    json::law_lookup(x, "name"@, 1);
    let y = b.data@->Table_0;
    assert(y[0].0 == "name"@);
    assert(y[1].0 == "result"@);
    json::law_lookup(y, "name"@, 0);
    json::law_lookup(y, "result"@, 1);
    let z = c.data@->Table_0;
    assert(z[0].0 == "text"@);
    json::law_lookup(z, "text"@, 0);
    let w = d.data@->Table_0;
    assert(w[0].0 == "message"@);
    json::law_lookup(w, "message"@, 0);
}

} // verus!
