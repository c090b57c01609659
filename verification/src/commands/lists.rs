//! The answers of commands that list or look up.

use vstd::prelude::*;

use crate::agent::mcp::MemoryItem;
use crate::agent::mcp;
use crate::commands::{indent, indent_lines, word, word_else, words_after};
use crate::commands;
use crate::text;

verus! {

// ---------------------------------------------------------------------------
// Memory
// ---------------------------------------------------------------------------

/// What is asked for of the memory.
#[derive(Debug)]
pub enum MemoryCommand {
    List,
    Clear,
    Remember { kind: String, title: String, content: String },
    Forget(String),
    Stats,
    /// Nothing can be done; this is why.
    Say(String),
}

pub ghost enum MemoryPlan {
    List,
    Clear,
    Remember { kind: Seq<char>, title: Seq<char>, content: Seq<char> },
    Forget(Seq<char>),
    Stats,
    Say(Seq<char>),
}

impl View for MemoryCommand {
    type V = MemoryPlan;

    open spec fn view(&self) -> MemoryPlan {
        match self {
            MemoryCommand::List => MemoryPlan::List,
            MemoryCommand::Clear => MemoryPlan::Clear,
            MemoryCommand::Remember { kind, title, content } => MemoryPlan::Remember {
                kind: kind@,
                title: title@,
                content: content@,
            },
            MemoryCommand::Forget(id) => MemoryPlan::Forget(id@),
            MemoryCommand::Stats => MemoryPlan::Stats,
            MemoryCommand::Say(s) => MemoryPlan::Say(s@),
        }
    }
}

/// What is asked for of the memory.
pub open spec fn memory_plan(rest: Seq<Seq<char>>) -> MemoryPlan {
    let sub = commands::word_or(rest, 0, "list"@);
    if sub == "list"@ || sub == ""@ {
        MemoryPlan::List
    } else if sub == "clear"@ {
        MemoryPlan::Clear
    } else if sub == "remember"@ {
        if rest.len() < 4 {
            MemoryPlan::Say("  Usage: /memory remember <type> <title> <content>\n\n"@)
        } else {
            MemoryPlan::Remember {
                kind: rest[1],
                title: rest[2],
                content: commands::words_from(rest, 3),
            }
        }
    } else if sub == "forget"@ {
        if rest.len() < 2 {
            MemoryPlan::Say("  Usage: /memory forget <id>\n\n"@)
        } else {
            MemoryPlan::Forget(rest[1])
        }
    } else if sub == "stats"@ {
        MemoryPlan::Stats
    } else {
        MemoryPlan::Say(
            "  Unknown subcommand: "@ + sub
                + "\n  /memory [list|clear|stats]\n  /memory remember <type> <title> <content>\n  /memory forget <id>\n\n"@,
        )
    }
}

/// What is asked for of the memory.
pub fn plan_memory(rest: &Vec<String>) -> (r: MemoryCommand)
    ensures
        r@ == memory_plan(text::texts(rest@)),
{
    let ghost all = text::texts(rest@);
    assert(all.len() == rest@.len());
    let sub = word_else(rest, 0, "list");
    if text::same(&sub, "list") || text::same(&sub, "") {
        MemoryCommand::List
    } else if text::same(&sub, "clear") {
        MemoryCommand::Clear
    } else if text::same(&sub, "remember") {
        if rest.len() < 4 {
            MemoryCommand::Say(
                "  Usage: /memory remember <type> <title> <content>\n\n".to_owned(),
            )
        } else {
            assert(all[1] == rest@[1]@ && all[2] == rest@[2]@);
            MemoryCommand::Remember {
                kind: rest[1].clone(),
                title: rest[2].clone(),
                content: words_after(rest, 3),
            }
        }
    } else if text::same(&sub, "forget") {
        if rest.len() < 2 {
            MemoryCommand::Say("  Usage: /memory forget <id>\n\n".to_owned())
        } else {
            assert(all[1] == rest@[1]@);
            MemoryCommand::Forget(rest[1].clone())
        }
    } else if text::same(&sub, "stats") {
        MemoryCommand::Stats
    } else {
        MemoryCommand::Say(
            text::cat3(
                "  Unknown subcommand: ",
                &sub,
                "\n  /memory [list|clear|stats]\n  /memory remember <type> <title> <content>\n  /memory forget <id>\n\n",
            ),
        )
    }
}

pub open spec fn memory_lines(v: Seq<mcp::MemoryText>) -> Seq<Seq<char>> {
    v.map_values(
        |m: mcp::MemoryText| "    ["@ + m.kind + "] "@ + m.title + " ("@ + m.id + ")\n"@,
    )
}

/// What is remembered.
pub fn memory_list(v: &Vec<MemoryItem>) -> (r: String)
    ensures
        r@ == (if v@.len() == 0 {
            "  No memory stored. The model will save decisions/workflows/gotchas as it works.\n\n"@
        } else {
            "  Project memory ("@ + text::decimal(v@.len()) + " objects):\n"@ + text::join(
                memory_lines(mcp::memory_texts(v@)),
                ""@,
            ) + "\n"@
        }),
{
    if v.len() == 0 {
        return "  No memory stored. The model will save decisions/workflows/gotchas as it works.\n\n".to_owned();
    }
    let ghost wanted = memory_lines(mcp::memory_texts(v@));
    let mut lines: Vec<String> = Vec::new();
    let mut i: usize = 0;
    while i < v.len()
        invariant
            i <= v.len(),
            lines.len() == i,
            wanted == memory_lines(mcp::memory_texts(v@)),
            forall|k: int| 0 <= k < i ==> (#[trigger] lines@[k])@ == wanted[k],
        decreases v.len() - i,
    {
        assert(mcp::memory_texts(v@)[i as int] == v@[i as int]@);
        let line = text::cat7("    [", &v[i].kind, "] ", &v[i].title, " (", &v[i].id, ")\n");
        assert(line@ == wanted[i as int]);
        lines.push(line);
        i = i + 1;
    }
    assert(text::texts(lines@) =~= wanted);
    let n = text::number(v.len() as u64);
    let body = text::join_with(&lines, "");
    text::cat5("  Project memory (", &n, " objects):\n", &body, "\n")
}

/// The answer when all was forgotten.
pub fn memory_cleared() -> (r: &'static str)
    ensures
        r@ == "  ✓ Memory cleared.\n\n"@,
{
    "  ✓ Memory cleared.\n\n"
}

/// The answer when something was remembered.
pub fn memory_kept(m: &MemoryItem) -> (r: String)
    ensures
        r@ == "  ✓ Remembered ["@ + m@.kind + "] "@ + m@.title + " ("@ + m@.id + ")\n\n"@,
{
    text::cat7("  ✓ Remembered [", &m.kind, "] ", &m.title, " (", &m.id, ")\n\n")
}

/// The answer when something was forgotten, or was not there.
pub fn memory_dropped(id: &str, found: bool) -> (r: String)
    ensures
        r@ == (if found {
            "  ✓ Forgot "@ + id@ + "\n\n"@
        } else {
            "  Memory "@ + id@ + " not found.\n\n"@
        }),
{
    if found {
        text::cat3("  ✓ Forgot ", id, "\n\n")
    } else {
        text::cat3("  Memory ", id, " not found.\n\n")
    }
}

pub open spec fn count_lines(v: Seq<(String, usize)>) -> Seq<Seq<char>> {
    v.map_values(
        |p: (String, usize)| "    "@ + p.0@ + ": "@ + text::decimal(p.1 as nat) + "\n"@,
    )
}

/// How much is remembered, in all and of each kind.
pub fn memory_stats(total: usize, kinds: &Vec<(String, usize)>) -> (r: String)
    ensures
        r@ == "  Memory: "@ + text::decimal(total as nat) + " objects\n"@ + text::join(
            count_lines(kinds@),
            ""@,
        ) + "\n"@,
{
    let ghost wanted = count_lines(kinds@);
    let mut lines: Vec<String> = Vec::new();
    let mut i: usize = 0;
    while i < kinds.len()
        invariant
            i <= kinds.len(),
            lines.len() == i,
            wanted == count_lines(kinds@),
            forall|k: int| 0 <= k < i ==> (#[trigger] lines@[k])@ == wanted[k],
        decreases kinds.len() - i,
    {
        let n = text::number(kinds[i].1 as u64);
        let line = text::cat5("    ", &kinds[i].0, ": ", &n, "\n");
        assert(line@ == wanted[i as int]);
        lines.push(line);
        i = i + 1;
    }
    assert(text::texts(lines@) =~= wanted);
    let n = text::number(total as u64);
    let body = text::join_with(&lines, "");
    text::cat5("  Memory: ", &n, " objects\n", &body, "\n")
}

// ---------------------------------------------------------------------------
// The profile of a model
// ---------------------------------------------------------------------------

/// What is known of a model.
#[derive(Debug)]
pub struct Profile {
    pub matched_key: Option<String>,
    pub context_length: u64,
    pub max_output: u64,
    pub tool_format: String,
    pub strengths: Vec<String>,
    pub weaknesses: Vec<String>,
}

/// A line with a list, unless the list is empty.
pub open spec fn list_line(title: Seq<char>, v: Seq<Seq<char>>) -> Seq<char> {
    if v.len() == 0 {
        Seq::empty()
    } else {
        title + text::join(v, ", "@) + "\n"@
    }
}

/// What is known of a model.
pub open spec fn profile_text(name: Seq<char>, p: Profile, routing: Seq<char>) -> Seq<char> {
    "  Model Profile\n  Model:     "@ + name + "\n  Matched:   "@ + (match p.matched_key {
        Some(k) => k@,
        None => "none (using defaults)"@,
    }) + "\n  Context:   "@ + text::decimal(p.context_length as nat) + " tokens\n  Max out:   "@
        + text::decimal(p.max_output as nat) + " tokens\n  Tools:     "@ + p.tool_format@
        + "\n  Routing:   "@ + routing + "\n"@ + list_line(
        "  Strengths: "@,
        text::texts(p.strengths@),
    ) + list_line("  Weak:      "@, text::texts(p.weaknesses@)) + "\n"@
}

pub(crate) fn format_list(title: &str, v: &Vec<String>) -> (r: String)
    ensures
        r@ == list_line(title@, text::texts(v@)),
{
    assert(text::texts(v@).len() == v@.len());
    if v.len() == 0 {
        let r = String::new();
        assert(r@ =~= Seq::<char>::empty());
        r
    } else {
        let list = text::join_with(v, ", ");
        text::cat3(title, &list, "\n")
    }
}

/// What is known of a model.
pub fn cmd_profile(name: &str, p: &Profile, routing: &str) -> (r: String)
    ensures
        r@ == profile_text(name@, *p, routing@),
{
    let matched: String = match &p.matched_key {
        Some(k) => k.clone(),
        None => "none (using defaults)".to_owned(),
    };
    let a = text::number(p.context_length);
    let b = text::number(p.max_output);
    let head = text::cat8(
        "  Model Profile\n  Model:     ",
        name,
        "\n  Matched:   ",
        &matched,
        "\n  Context:   ",
        &a,
        " tokens\n  Max out:   ",
        &b,
    );
    let middle = text::cat6(
        &head,
        " tokens\n  Tools:     ",
        &p.tool_format,
        "\n  Routing:   ",
        routing,
        "\n",
    );
    let strengths = format_list("  Strengths: ", &p.strengths);
    let weaknesses = format_list("  Weak:      ", &p.weaknesses);
    text::cat4(&middle, &strengths, &weaknesses, "\n")
}

// ---------------------------------------------------------------------------
// Traces
// ---------------------------------------------------------------------------

/// What is asked for of the traces.
#[derive(Debug)]
pub enum TraceCommand {
    Start(String),
    Stop,
    List,
    Replay(String),
    Test(String),
    Say(String),
}

pub ghost enum TracePlan {
    Start(Seq<char>),
    Stop,
    List,
    Replay(Seq<char>),
    Test(Seq<char>),
    Say(Seq<char>),
}

impl View for TraceCommand {
    type V = TracePlan;

    open spec fn view(&self) -> TracePlan {
        match self {
            TraceCommand::Start(s) => TracePlan::Start(s@),
            TraceCommand::Stop => TracePlan::Stop,
            TraceCommand::List => TracePlan::List,
            TraceCommand::Replay(s) => TracePlan::Replay(s@),
            TraceCommand::Test(s) => TracePlan::Test(s@),
            TraceCommand::Say(s) => TracePlan::Say(s@),
        }
    }
}

pub const TRACE_HELP: &'static str =
    "  /trace list           List recorded traces\n  /trace replay <id>    Show trace details\n  /trace test <id>      Generate test from trace\n  /trace start [prompt] Begin recording\n  /trace stop           Stop and save\n\n";

/// What is asked for of the traces.
pub open spec fn trace_plan(rest: Seq<Seq<char>>) -> TracePlan {
    let sub = commands::word_or(rest, 0, "list"@);
    if sub == "start"@ {
        TracePlan::Start(commands::words_from(rest, 1))
    } else if sub == "stop"@ {
        TracePlan::Stop
    } else if sub == "list"@ || sub == ""@ {
        TracePlan::List
    } else if sub == "replay"@ || sub == "show"@ {
        match commands::word_at(rest, 1) {
            Some(id) => TracePlan::Replay(id),
            None => TracePlan::Say("  Usage: /trace replay <id>\n\n"@),
        }
    } else if sub == "test"@ {
        match commands::word_at(rest, 1) {
            Some(id) => TracePlan::Test(id),
            None => TracePlan::Say("  Usage: /trace test <id>\n\n"@),
        }
    } else {
        TracePlan::Say(TRACE_HELP@)
    }
}

/// What is asked for of the traces.
pub fn plan_trace(rest: &Vec<String>) -> (r: TraceCommand)
    ensures
        r@ == trace_plan(text::texts(rest@)),
{
    let sub = word_else(rest, 0, "list");
    if text::same(&sub, "start") {
        TraceCommand::Start(words_after(rest, 1))
    } else if text::same(&sub, "stop") {
        TraceCommand::Stop
    } else if text::same(&sub, "list") || text::same(&sub, "") {
        TraceCommand::List
    } else if text::same(&sub, "replay") || text::same(&sub, "show") {
        match word(rest, 1) {
            Some(id) => TraceCommand::Replay(id),
            None => TraceCommand::Say("  Usage: /trace replay <id>\n\n".to_owned()),
        }
    } else if text::same(&sub, "test") {
        match word(rest, 1) {
            Some(id) => TraceCommand::Test(id),
            None => TraceCommand::Say("  Usage: /trace test <id>\n\n".to_owned()),
        }
    } else {
        TraceCommand::Say(TRACE_HELP.to_owned())
    }
}

/// The answer when a trace was started.
pub fn trace_started(id: &str) -> (r: String)
    ensures
        r@ == "  ✓ Trace started: "@ + id@ + "\n\n"@,
{
    text::cat3("  ✓ Trace started: ", id, "\n\n")
}

/// The answer when a trace was stopped, with its name and its steps.
pub fn trace_stopped(trace: &Option<(String, usize)>) -> (r: String)
    ensures
        r@ == match *trace {
            Some((id, steps)) => "  ✓ Trace stopped: "@ + id@ + " ("@ + text::decimal(steps as nat)
                + " steps)\n\n"@,
            None => "  No active trace.\n\n"@,
        },
{
    match trace {
        Some((id, steps)) => {
            let n = text::number(*steps as u64);
            text::cat5("  ✓ Trace stopped: ", id, " (", &n, " steps)\n\n")
        },
        None => "  No active trace.\n\n".to_owned(),
    }
}

/// A trace in a list.
#[derive(Debug)]
pub struct TraceEntry {
    pub id: String,
    pub prompt: String,
    pub steps: usize,
    pub prompt_tokens: u32,
    pub completion_tokens: u32,
    pub duration_ms: Option<u64>,
}

pub open spec fn trace_line(t: TraceEntry) -> Seq<char> {
    "    "@ + t.id@ + " "@ + t.prompt@ + " ("@ + text::decimal(t.steps as nat) + " steps, "@
        + text::decimal((t.prompt_tokens + t.completion_tokens) as nat) + " tok, "@ + text::decimal(
        match t.duration_ms {
            Some(n) => n as nat,
            None => 0,
        },
    ) + "ms)\n"@
}

pub open spec fn trace_lines(v: Seq<TraceEntry>) -> Seq<Seq<char>> {
    v.map_values(|t: TraceEntry| trace_line(t))
}

fn format_trace(t: &TraceEntry) -> (r: String)
    ensures
        r@ == trace_line(*t),
{
    let a = text::number(t.steps as u64);
    let b = text::number(t.prompt_tokens as u64 + t.completion_tokens as u64);
    let c = text::number(
        match t.duration_ms {
            Some(n) => n,
            None => 0,
        },
    );
    let head = text::cat5("    ", &t.id, " ", &t.prompt, " (");
    text::cat7(&head, &a, " steps, ", &b, " tok, ", &c, "ms)\n")
}

/// The first traces.
pub fn trace_list(v: &Vec<TraceEntry>) -> (r: String)
    ensures
        r@ == (if v@.len() == 0 {
            "  No traces recorded yet.\n  Traces are recorded automatically for each turn.\n\n"@
        } else {
            "  Traces ("@ + text::decimal(v@.len()) + "):\n"@ + text::join(
                trace_lines(text::leading(v@, 15)),
                ""@,
            ) + "\n"@
        }),
{
    if v.len() == 0 {
        return "  No traces recorded yet.\n  Traces are recorded automatically for each turn.\n\n".to_owned();
    }
    let ghost wanted = trace_lines(text::leading(v@, 15));
    let mut lines: Vec<String> = Vec::new();
    let mut i: usize = 0;
    while i < v.len() && i < 15
        invariant
            i <= v.len(),
            i <= 15,
            lines.len() == i,
            wanted == trace_lines(text::leading(v@, 15)),
            forall|k: int| 0 <= k < i ==> (#[trigger] lines@[k])@ == wanted[k],
        decreases v.len() - i,
    {
        let line = format_trace(&v[i]);
        assert(line@ == wanted[i as int]);
        lines.push(line);
        i = i + 1;
    }
    assert(text::texts(lines@) =~= wanted);
    let n = text::number(v.len() as u64);
    let body = text::join_with(&lines, "");
    text::cat5("  Traces (", &n, "):\n", &body, "\n")
}

/// A step of a trace.
#[derive(Debug)]
pub enum TraceStep {
    ToolCall { name: String, duration_ms: u64 },
    Validation { file_path: String, passed: bool },
    ModelResponse { tool_calls: usize },
    ChatRequest { message_count: usize, tool_count: usize },
    /// The confidence with two digits behind the point.
    Classification { task_type: String, tool_category: Option<String>, confidence: String },
    Error { scope: String, message: String },
}

pub open spec fn step_line(s: TraceStep) -> Seq<char> {
    match s {
        TraceStep::ToolCall { name, duration_ms } => "    ⚙ "@ + name@ + " ("@ + text::decimal(
            duration_ms as nat,
        ) + "ms)\n"@,
        TraceStep::Validation { file_path, passed } => "    "@ + (if passed {
            "✓"@
        } else {
            "✗"@
        }) + " validate "@ + file_path@ + "\n"@,
        TraceStep::ModelResponse { tool_calls } => "    ✎ model response ("@ + text::decimal(
            tool_calls as nat,
        ) + " tool calls)\n"@,
        TraceStep::ChatRequest { message_count, tool_count } => "    → chat request ("@
            + text::decimal(message_count as nat) + " msgs, "@ + text::decimal(tool_count as nat)
            + " tools)\n"@,
        TraceStep::Classification { task_type, tool_category, confidence } =>
            "    🧭 routed → task="@ + task_type@ + " cat="@ + (match tool_category {
            Some(c) => c@,
            None => "·"@,
        }) + " (conf "@ + confidence@ + ")\n"@,
        TraceStep::Error { scope, message } => "    ✗ error ["@ + scope@ + "]: "@ + message@
            + "\n"@,
    }
}

pub open spec fn step_lines(v: Seq<TraceStep>) -> Seq<Seq<char>> {
    v.map_values(|s: TraceStep| step_line(s))
}

fn format_step(s: &TraceStep) -> (r: String)
    ensures
        r@ == step_line(*s),
{
    match s {
        TraceStep::ToolCall { name, duration_ms } => {
            let n = text::number(*duration_ms);
            text::cat5("    ⚙ ", name, " (", &n, "ms)\n")
        },
        TraceStep::Validation { file_path, passed } => {
            let mark = if *passed {
                "✓"
            } else {
                "✗"
            };
            text::cat5("    ", mark, " validate ", file_path, "\n")
        },
        TraceStep::ModelResponse { tool_calls } => {
            let n = text::number(*tool_calls as u64);
            text::cat3("    ✎ model response (", &n, " tool calls)\n")
        },
        TraceStep::ChatRequest { message_count, tool_count } => {
            let a = text::number(*message_count as u64);
            let b = text::number(*tool_count as u64);
            text::cat5("    → chat request (", &a, " msgs, ", &b, " tools)\n")
        },
        TraceStep::Classification { task_type, tool_category, confidence } => {
            let category: String = match tool_category {
                Some(c) => c.clone(),
                None => "·".to_owned(),
            };
            text::cat7(
                "    🧭 routed → task=",
                task_type,
                " cat=",
                &category,
                " (conf ",
                confidence,
                ")\n",
            )
        },
        TraceStep::Error { scope, message } => text::cat5(
            "    ✗ error [",
            scope,
            "]: ",
            message,
            "\n",
        ),
    }
}

/// A trace as it was kept.
#[derive(Debug)]
pub struct TraceRecord {
    pub id: String,
    pub prompt: String,
    pub model: String,
    pub prompt_tokens: u32,
    pub completion_tokens: u32,
    pub steps: Vec<TraceStep>,
}

/// A trace, step by step.
pub fn trace_replay(id: &str, trace: &Option<TraceRecord>) -> (r: String)
    ensures
        r@ == match *trace {
            Some(t) => "  Trace "@ + t.id@ + "\n  Prompt: "@ + text::head(t.prompt@, 80)
                + "\n  Model:  "@ + t.model@ + "\n  Tokens: "@ + text::decimal(
                t.prompt_tokens as nat,
            ) + "p + "@ + text::decimal(t.completion_tokens as nat) + "c\n  Steps:\n"@ + text::join(
                step_lines(t.steps@),
                ""@,
            ) + "\n"@,
            None => "  Trace "@ + id@ + " not found.\n\n"@,
        },
{
    match trace {
        Some(t) => {
            let ghost wanted = step_lines(t.steps@);
            let mut lines: Vec<String> = Vec::new();
            let mut i: usize = 0;
            while i < t.steps.len()
                invariant
                    i <= t.steps.len(),
                    lines.len() == i,
                    wanted == step_lines(t.steps@),
                    forall|k: int| 0 <= k < i ==> (#[trigger] lines@[k])@ == wanted[k],
                decreases t.steps.len() - i,
            {
                let line = format_step(&t.steps[i]);
                assert(line@ == wanted[i as int]);
                lines.push(line);
                i = i + 1;
            }
            assert(text::texts(lines@) =~= wanted);
            let short = text::take_chars(&t.prompt, 80);
            let a = text::number(t.prompt_tokens as u64);
            let b = text::number(t.completion_tokens as u64);
            let body = text::join_with(&lines, "");
            let head = text::cat8(
                "  Trace ",
                &t.id,
                "\n  Prompt: ",
                &short,
                "\n  Model:  ",
                &t.model,
                "\n  Tokens: ",
                &a,
            );
            text::cat6(&head, "p + ", &b, "c\n  Steps:\n", &body, "\n")
        },
        None => text::cat3("  Trace ", id, " not found.\n\n"),
    }
}

/// The file to which the test that is made of a trace is written.
pub fn trace_test_path(id: &str) -> (r: String)
    ensures
        r@ == ".test-workspace/trace_"@ + id@ + ".test.js"@,
{
    text::cat3(".test-workspace/trace_", id, ".test.js")
}

/// The answer when a test was to be made of a trace; where it was written, or
/// why it was not.
pub fn trace_tested(id: &str, outcome: &Option<Result<String, String>>) -> (r: String)
    ensures
        r@ == match *outcome {
            Some(Ok(path)) => "  ✓ Generated "@ + path@ + "\n\n"@,
            Some(Err(e)) => "  ✗ Failed to write: "@ + e@ + "\n\n"@,
            None => "  Cannot generate test from trace "@ + id@ + ".\n\n"@,
        },
{
    match outcome {
        Some(Ok(path)) => text::cat3("  ✓ Generated ", path, "\n\n"),
        Some(Err(e)) => text::cat3("  ✗ Failed to write: ", e, "\n\n"),
        None => text::cat3("  Cannot generate test from trace ", id, ".\n\n"),
    }
}

// ---------------------------------------------------------------------------
// Git and files
// ---------------------------------------------------------------------------

/// What changed, when git says so.
pub fn cmd_diff(output: &Option<String>) -> (r: String)
    ensures
        r@ == match *output {
            Some(s) => if text::trimmed(s@).len() == 0 {
                "  No uncommitted changes.\n\n"@
            } else {
                "  Changes:\n"@ + text::join(
                    commands::indented_lines(text::trimmed(s@), "  "@, "\n"@),
                    ""@,
                ) + "\n"@
            },
            None => "  Not a git repo.\n\n"@,
        },
{
    match output {
        Some(s) => {
            let bare = text::trim(s);
            if bare.as_str().is_empty() {
                "  No uncommitted changes.\n\n".to_owned()
            } else {
                let lines = indent_lines(&bare, "  ", "\n");
                let body = text::join_with(&lines, "");
                text::cat3("  Changes:\n", &body, "\n")
            }
        },
        None => "  Not a git repo.\n\n".to_owned(),
    }
}

/// What git says of the state of things, when nothing else is asked.
pub fn git_overview(block: &Option<String>) -> (r: String)
    ensures
        r@ == match *block {
            Some(b) => if text::trimmed(b@).len() > 0 {
                b@ + "\n"@
            } else {
                "  /git status │ /git log │ /git diff │ /git commit -m \"msg\"\n\n"@
            },
            None => "  /git status │ /git log │ /git diff │ /git commit -m \"msg\"\n\n"@,
        },
{
    match block {
        Some(b) => {
            let bare = text::trim(b);
            if !bare.as_str().is_empty() {
                text::cat2(b, "\n")
            } else {
                "  /git status │ /git log │ /git diff │ /git commit -m \"msg\"\n\n".to_owned()
            }
        },
        None => "  /git status │ /git log │ /git diff │ /git commit -m \"msg\"\n\n".to_owned(),
    }
}

/// What git wrote, its errors only when it failed, and the end of the last
/// line.
pub open spec fn git_output(stdout: Seq<char>, stderr: Seq<char>, success: bool) -> Seq<char> {
    let out = if success {
        stdout
    } else {
        stdout + stderr
    };
    if out.len() > 0 && out.last() == '\n' {
        out
    } else {
        out.push('\n')
    }
}

/// What git wrote.
pub fn git_ran(stdout: &str, stderr: &str, success: bool) -> (r: String)
    ensures
        r@ == git_output(stdout@, stderr@, success),
{
    let mut out: String = if success {
        stdout.to_owned()
    } else {
        text::cat2(stdout, stderr)
    };
    let v = text::chars(&out);
    let n: usize = v.len();
    if n == 0 || v[n - 1] != '\n' {
        out.push('\n');
    }
    out
}

/// The answer when git could not be run.
pub fn git_failed(reason: &str) -> (r: String)
    ensures
        r@ == "  git error: "@ + reason@ + "\n\n"@,
{
    text::cat3("  git error: ", reason, "\n\n")
}

pub open spec fn name_lines(v: Seq<Seq<char>>) -> Seq<Seq<char>> {
    v.map_values(|s: Seq<char>| "    "@ + s + "\n"@)
}

fn format_names(v: &Vec<String>) -> (r: String)
    ensures
        r@ == text::join(name_lines(text::texts(v@)), ""@),
{
    let ghost wanted = name_lines(text::texts(v@));
    assert(text::texts(v@).len() == v@.len());
    let mut lines: Vec<String> = Vec::new();
    let mut i: usize = 0;
    while i < v.len()
        invariant
            i <= v.len(),
            lines.len() == i,
            wanted == name_lines(text::texts(v@)),
            forall|k: int| 0 <= k < i ==> (#[trigger] lines@[k])@ == wanted[k],
        decreases v.len() - i,
    {
        assert(text::texts(v@)[i as int] == v@[i as int]@);
        let line = text::cat3("    ", &v[i], "\n");
        assert(line@ == wanted[i as int]);
        lines.push(line);
        i = i + 1;
    }
    assert(text::texts(lines@) =~= wanted);
    text::join_with(&lines, "")
}

/// The files of a project, when git lists them.
pub open spec fn files_text(files: Seq<Seq<char>>) -> Seq<char> {
    "  Project files ("@ + text::decimal(files.len()) + "):\n"@ + text::join(
        name_lines(text::leading(files, 30)),
        ""@,
    ) + (if files.len() > 30 {
        "    ... ("@ + text::decimal((files.len() - 30) as nat) + " more)\n"@
    } else {
        Seq::empty()
    }) + "\n"@
}

/// The files of a project, when git lists them.
pub fn cmd_files(output: &str) -> (r: String)
    ensures
        r@ == files_text(text::lines(text::trimmed(output@))),
{
    let bare = text::trim(output);
    let files = text::lines_of(&bare);
    assert(text::texts(files@).len() == files@.len());
    let n = text::number(files.len() as u64);
    let names = format_names(&text::leading_of(&files, 30));
    let mut out = text::cat4("  Project files (", &n, "):\n", &names);
    if files.len() > 30 {
        let k = text::number((files.len() - 30) as u64);
        let more = text::cat3("    ... (", &k, " more)\n");
        out.push_str(&more);
    } else {
        assert(out@ + Seq::<char>::empty() =~= out@);
    }
    out.push_str("\n");
    out
}

/// The first names in a directory.
pub fn list_names(names: &Vec<String>) -> (r: String)
    ensures
        r@ == text::join(name_lines(text::leading(text::texts(names@), 20)), ""@) + "\n"@,
{
    let body = format_names(&text::leading_of(names, 20));
    text::cat2(&body, "\n")
}

// ---------------------------------------------------------------------------
// Plans and servers
// ---------------------------------------------------------------------------

/// The plan that is followed, if any.
pub fn cmd_plan(plan: &Option<String>) -> (r: String)
    ensures
        r@ == match *plan {
            Some(body) => if body@.len() == 0 {
                "  No active plan.\n\n"@
            } else {
                "  Plan:\n"@ + text::join(
                    commands::indented_lines(body@, "    "@, ""@),
                    "\n"@,
                ) + "\n\n"@
            },
            None => "  No active plan.\n\n"@,
        },
{
    match plan {
        Some(body) => {
            if body.as_str().is_empty() {
                "  No active plan.\n\n".to_owned()
            } else {
                let lines = indent(body, "    ");
                text::cat3("  Plan:\n", &lines, "\n\n")
            }
        },
        None => "  No active plan.\n\n".to_owned(),
    }
}

/// What is asked for of the language server.
#[derive(Debug, Clone, Copy, PartialEq, Eq, Structural)]
pub enum LspCommand {
    Start,
    Stop,
    Status,
    Help,
}

/// What is asked for of the language server.
pub open spec fn lsp_plan(rest: Seq<Seq<char>>) -> LspCommand {
    let sub = commands::word_or(rest, 0, "status"@);
    if sub == "start"@ || sub == ""@ {
        LspCommand::Start
    } else if sub == "stop"@ {
        LspCommand::Stop
    } else if sub == "status"@ {
        LspCommand::Status
    } else {
        LspCommand::Help
    }
}

/// What is asked for of the language server.
pub fn plan_lsp(rest: &Vec<String>) -> (r: LspCommand)
    ensures
        r == lsp_plan(text::texts(rest@)),
{
    let sub = word_else(rest, 0, "status");
    if text::same(&sub, "start") || text::same(&sub, "") {
        LspCommand::Start
    } else if text::same(&sub, "stop") {
        LspCommand::Stop
    } else if text::same(&sub, "status") {
        LspCommand::Status
    } else {
        LspCommand::Help
    }
}

/// The answer about the language server; whether it runs now.
pub fn lsp_reply(command: LspCommand, running: bool) -> (r: &'static str)
    ensures
        r@ == match command {
            LspCommand::Start => if running {
                "  ✓ LSP started.\n\n"@
            } else {
                "  No supported language server detected for this workspace.\n\n"@
            },
            LspCommand::Stop => "  ✓ LSP stopped.\n\n"@,
            LspCommand::Status => if running {
                "  LSP: running.\n\n"@
            } else {
                "  LSP: not initialized. Use /lsp start.\n\n"@
            },
            LspCommand::Help => "  /lsp start | /lsp stop | /lsp status\n\n"@,
        },
{
    match command {
        LspCommand::Start => if running {
            "  ✓ LSP started.\n\n"
        } else {
            "  No supported language server detected for this workspace.\n\n"
        },
        LspCommand::Stop => "  ✓ LSP stopped.\n\n",
        LspCommand::Status => if running {
            "  LSP: running.\n\n"
        } else {
            "  LSP: not initialized. Use /lsp start.\n\n"
        },
        LspCommand::Help => "  /lsp start | /lsp stop | /lsp status\n\n",
    }
}

/// A plugin that is installed.
#[derive(Debug)]
pub struct PluginInfo {
    pub name: String,
    pub version: String,
    pub description: String,
    pub tools: Vec<String>,
    pub commands: Vec<String>,
}

pub open spec fn plugin_lines(v: Seq<PluginInfo>) -> Seq<Seq<char>> {
    v.map_values(
        |p: PluginInfo|
            "    "@ + p.name@ + " v"@ + p.version@ + " — "@ + p.description@ + "\n"@ + list_line(
                "      Tools: "@,
                text::texts(p.tools@),
            ) + list_line("      Commands: "@, text::texts(p.commands@)),
    )
}

/// The plugins that are installed, or what else is said of plugins.
pub fn cmd_plugin(rest: &Vec<String>, v: &Vec<PluginInfo>) -> (r: String)
    ensures
        ({
            let sub = commands::word_or(text::texts(rest@), 0, "list"@);
            r@ == (if sub == "list"@ || sub == ""@ {
                if v@.len() == 0 {
                    "  No plugins installed.\n  Drop manifests into .itsy/plugins/ to activate.\n\n"@
                } else {
                    "  Plugins ("@ + text::decimal(v@.len()) + "):\n"@ + text::join(
                        plugin_lines(v@),
                        ""@,
                    ) + "\n"@
                }
            } else if sub == "install"@ || sub == "remove"@ {
                "  /plugin "@ + sub
                    + " is unsupported — drop manifests directly into .itsy/plugins/\n\n"@
            } else {
                "  /plugin list   Show installed plugins\n\n"@
            })
        }),
{
    let sub = word_else(rest, 0, "list");
    if text::same(&sub, "list") || text::same(&sub, "") {
        if v.len() == 0 {
            return "  No plugins installed.\n  Drop manifests into .itsy/plugins/ to activate.\n\n".to_owned();
        }
        let ghost wanted = plugin_lines(v@);
        let mut lines: Vec<String> = Vec::new();
        let mut i: usize = 0;
        while i < v.len()
            invariant
                i <= v.len(),
                lines.len() == i,
                wanted == plugin_lines(v@),
                forall|k: int| 0 <= k < i ==> (#[trigger] lines@[k])@ == wanted[k],
            decreases v.len() - i,
        {
            let p = &v[i];
            let head = text::cat7("    ", &p.name, " v", &p.version, " — ", &p.description, "\n");
            let tools = format_list("      Tools: ", &p.tools);
            let own = format_list("      Commands: ", &p.commands);
            let line = text::cat3(&head, &tools, &own);
            assert(line@ == wanted[i as int]);
            lines.push(line);
            i = i + 1;
        }
        assert(text::texts(lines@) =~= wanted);
        let n = text::number(v.len() as u64);
        let body = text::join_with(&lines, "");
        text::cat5("  Plugins (", &n, "):\n", &body, "\n")
    } else if text::same(&sub, "install") || text::same(&sub, "remove") {
        text::cat3(
            "  /plugin ",
            &sub,
            " is unsupported — drop manifests directly into .itsy/plugins/\n\n",
        )
    } else {
        "  /plugin list   Show installed plugins\n\n".to_owned()
    }
}

// ---------------------------------------------------------------------------
// Laws
// ---------------------------------------------------------------------------

/// What is asked of the memory, word by word; without enough words its use is
/// told.
pub proof fn law_memory_commands(rest: Seq<Seq<char>>)
    ensures
        rest.len() == 0 ==> memory_plan(rest) is List,
        rest.len() > 0 && rest[0] == "list"@ ==> memory_plan(rest) is List,
        rest.len() > 0 && rest[0] == "clear"@ ==> memory_plan(rest) is Clear,
        rest.len() > 0 && rest[0] == "stats"@ ==> memory_plan(rest) is Stats,
        rest.len() == 4 && rest[0] == "remember"@ ==> memory_plan(rest) == (MemoryPlan::Remember {
            kind: rest[1],
            title: rest[2],
            content: rest[3],
        }),
        rest.len() > 4 && rest[0] == "remember"@ ==> memory_plan(rest) == (MemoryPlan::Remember {
            kind: rest[1],
            title: rest[2],
            content: text::join(rest.skip(3), " "@),
        }),
        0 < rest.len() < 4 && rest[0] == "remember"@ ==> memory_plan(rest) is Say,
        rest.len() >= 2 && rest[0] == "forget"@ ==> memory_plan(rest) == MemoryPlan::Forget(rest[1]),
        rest.len() == 1 && rest[0] == "forget"@ ==> memory_plan(rest) is Say,
        rest.len() > 0 && rest[0] != "list"@ && rest[0] != ""@ && rest[0] != "clear"@ && rest[0]
            != "stats"@ && rest[0] != "remember"@ && rest[0] != "forget"@ ==> (memory_plan(
            rest,
        ) matches MemoryPlan::Say(s) && text::has(s, rest[0])),
{
    reveal_strlit("list");
    reveal_strlit("clear");
    reveal_strlit("stats");
    reveal_strlit("remember");
    reveal_strlit("forget");
    reveal_strlit("");
    assert("list"@.len() == 4 && "clear"@.len() == 5 && "stats"@.len() == 5 && "remember"@.len() == 8 && "forget"@.len() == 6 && ""@.len() == 0);
    assert("clear"@[0] == 'c' && "stats"@[0] == 's');
    if rest.len() == 4 {
        commands::law_words_of_commands(rest, 3, Seq::empty());
    }
    if rest.len() > 0 {
        text::law_affixes(
            rest[0],
            "  Unknown subcommand: "@,
            "\n  /memory [list|clear|stats]\n  /memory remember <type> <title> <content>\n  /memory forget <id>\n\n"@,
        );
    }
}

/// What is asked of the traces.
pub proof fn law_trace_commands(rest: Seq<Seq<char>>)
    ensures
        rest.len() == 0 ==> trace_plan(rest) is List,
        rest.len() > 0 && rest[0] == "list"@ ==> trace_plan(rest) is List,
        rest.len() > 0 && rest[0] == "stop"@ ==> trace_plan(rest) is Stop,
        rest.len() == 2 && rest[0] == "start"@ ==> trace_plan(rest) == TracePlan::Start(rest[1]),
        rest.len() >= 2 && (rest[0] == "replay"@ || rest[0] == "show"@) ==> trace_plan(rest)
            == TracePlan::Replay(rest[1]),
        rest.len() >= 2 && rest[0] == "test"@ ==> trace_plan(rest) == TracePlan::Test(rest[1]),
        rest.len() == 1 && (rest[0] == "replay"@ || rest[0] == "show"@ || rest[0] == "test"@)
            ==> trace_plan(rest) is Say,
{
    reveal_strlit("list");
    reveal_strlit("stop");
    reveal_strlit("start");
    reveal_strlit("replay");
    reveal_strlit("show");
    reveal_strlit("test");
    reveal_strlit("");
    assert("list"@.len() == 4 && "stop"@.len() == 4 && "start"@.len() == 5 && "replay"@.len() == 6 && "show"@.len() == 4 && "test"@.len() == 4 && ""@.len() == 0);
    assert("list"@[0] == 'l' && "stop"@[0] == 's' && "show"@[0] == 's' && "test"@[0] == 't');
    assert("stop"@[1] == 't' && "show"@[1] == 'h');
    if rest.len() == 2 {
        commands::law_words_of_commands(rest, 1, Seq::empty());
    }
}

/// What is asked of the language servers.
pub proof fn law_lsp_commands(rest: Seq<Seq<char>>)
    ensures
        rest.len() == 0 ==> lsp_plan(rest) is Status,
        rest.len() > 0 && rest[0] == "status"@ ==> lsp_plan(rest) is Status,
        rest.len() > 0 && rest[0] == "start"@ ==> lsp_plan(rest) is Start,
        rest.len() > 0 && rest[0] == "stop"@ ==> lsp_plan(rest) is Stop,
        rest.len() > 0 && rest[0] != "status"@ && rest[0] != "start"@ && rest[0] != ""@ && rest[0]
            != "stop"@ ==> lsp_plan(rest) is Help,
{
    reveal_strlit("status");
    reveal_strlit("start");
    reveal_strlit("stop");
    reveal_strlit("");
    assert("status"@.len() == 6 && "start"@.len() == 5 && "stop"@.len() == 4 && ""@.len() == 0);
}

/// A list has a line where it has anything, with each of it.
pub proof fn law_list_lines(title: Seq<char>, v: Seq<Seq<char>>, i: int)
    ensures
        v.len() == 0 ==> list_line(title, v).len() == 0,
        v.len() > 0 ==> text::starts(list_line(title, v), title),
        0 <= i < v.len() ==> text::has(list_line(title, v), v[i]),
{
    let a = text::join(v, ", "@);
    assert(title + a + "\n"@ =~= title + (a + "\n"@));
    text::law_affixes(title, a + "\n"@, Seq::empty());
    if 0 <= i < v.len() {
        text::lemma_joined_part(v, ", "@, i);
        text::lemma_has_within(list_line(title, v), title, a, "\n"@, v[i]);
    }
}

/// Each file is named, up to thirty, and how many more there are is said.
pub proof fn law_files_are_named(files: Seq<Seq<char>>, i: int)
    ensures
        0 <= i < files.len() && i < 30 ==> text::has(files_text(files), "    "@ + files[i] + "\n"@),
        text::starts(files_text(files), "  Project files ("@ + text::decimal(files.len()) + ")"@),
        files.len() > 30 ==> text::has(
            files_text(files),
            "... ("@ + text::decimal((files.len() - 30) as nat) + " more)"@,
        ),
{
    let t = files_text(files);
    let lines = name_lines(text::leading(files, 30));
    let list = text::join(lines, ""@);
    let head = "  Project files ("@ + text::decimal(files.len()) + "):\n"@;
    let more = if files.len() > 30 {
        "    ... ("@ + text::decimal((files.len() - 30) as nat) + " more)\n"@
    } else {
        Seq::empty()
    };
    assert(t =~= head + list + (more + "\n"@));
    if 0 <= i < files.len() && i < 30 {
        assert(lines[i] == "    "@ + files[i] + "\n"@);
        text::lemma_joined_part(lines, ""@, i);
        text::lemma_has_within(t, head, list, more + "\n"@, lines[i]);
    }
    lemma_files_head(files);
    if files.len() > 30 {
        lemma_files_more(files, head + list);
    }
}

proof fn lemma_files_head(files: Seq<Seq<char>>)
    ensures
        text::starts(files_text(files), "  Project files ("@ + text::decimal(files.len()) + ")"@),
{
    reveal_strlit("):\n");
    reveal_strlit(")");
    let x = "  Project files ("@ + text::decimal(files.len()) + ")"@;
    let t = files_text(files);
    assert(t.subrange(0, x.len() as int) =~= x);
}

proof fn lemma_files_more(files: Seq<Seq<char>>, front: Seq<char>)
    requires
        files.len() > 30,
        files_text(files) == front + ("    ... ("@ + text::decimal((files.len() - 30) as nat)
            + " more)\n"@ + "\n"@),
    ensures
        text::has(
            files_text(files),
            "... ("@ + text::decimal((files.len() - 30) as nat) + " more)"@,
        ),
{
    reveal_strlit("    ... (");
    reveal_strlit("... (");
    reveal_strlit("    ");
    reveal_strlit(" more)\n");
    reveal_strlit(" more)");
    reveal_strlit("\n");
    let n = text::decimal((files.len() - 30) as nat);
    let x = "... ("@ + n + " more)"@;
    assert(files_text(files) =~= (front + "    "@) + x + ("\n"@ + "\n"@));
    text::law_affixes(x, front + "    "@, "\n"@ + "\n"@);
}

/// What git says is shown, its errors too where it failed, and ends its line.
pub proof fn law_git_output(stdout: Seq<char>, stderr: Seq<char>)
    ensures
        git_output(stdout, stderr, true).last() == '\n',
        git_output(stdout, stderr, false).last() == '\n',
        stdout.is_prefix_of(git_output(stdout, stderr, true)),
        git_output(stdout, stderr, true).len() <= stdout.len() + 1,
        (stdout + stderr).is_prefix_of(git_output(stdout, stderr, false)),
{
    let a = git_output(stdout, stderr, true);
    assert(a.subrange(0, stdout.len() as int) =~= stdout);
    let b = git_output(stdout, stderr, false);
    assert(b.subrange(0, (stdout + stderr).len() as int) =~= stdout + stderr);
}

/// A line for each memory, each trace and each of its steps names it.
pub proof fn law_entries(v: Seq<mcp::MemoryText>, i: int, t: TraceEntry)
    ensures
        memory_lines(v).len() == v.len(),
        0 <= i < v.len() ==> memory_lines(v)[i] == "    ["@ + v[i].kind + "] "@ + v[i].title + " ("@
            + v[i].id + ")\n"@,
        text::starts(trace_line(t), "    "@ + t.id@ + " "@ + t.prompt@),
{
    let x = "    "@ + t.id@ + " "@ + t.prompt@;
    let l = trace_line(t);
    let rest = l.skip(x.len() as int);
    assert(l =~= x + rest);
    text::law_affixes(x, rest, Seq::empty());
}

} // verus!
