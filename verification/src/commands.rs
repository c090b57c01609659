//! The commands that start with a slash: what each asks for, and how it is
//! answered.

use vstd::prelude::*;

use crate::config::Config;
use crate::escalation::EscalationEngine;
use crate::escalation;
use crate::evals;
use crate::json;
use crate::json::Json;
use crate::text;

pub mod lists;
pub mod sessions;

verus! {

#[derive(Debug)]
pub enum CommandResult {
    Continue,
    Quit,
    Print(String),
}

/// What a line asks for.
#[derive(Debug, Clone, Copy, PartialEq, Eq, Structural)]
pub enum Command {
    Quit,
    Clear,
    Model,
    Endpoint,
    Stats,
    Tokens,
    Budget,
    Memory,
    Compact,
    Escalation,
    Profile,
    Trace,
    Eval,
    Diff,
    Git,
    Files,
    Undo,
    Share,
    Sessions,
    Session,
    Skill,
    Plugin,
    Plan,
    Lsp,
    Web,
    AutoApprove,
    Checkpoint,
    Rollback,
    Help,
    Unknown,
}

/// The command with a name.
pub open spec fn command_named(head: Seq<char>) -> Command {
    if head == "/quit"@ || head == "/q"@ || head == "/exit"@ {
        Command::Quit
    } else if head == "/clear"@ {
        Command::Clear
    } else if head == "/model"@ {
        Command::Model
    } else if head == "/endpoint"@ {
        Command::Endpoint
    } else if head == "/stats"@ {
        Command::Stats
    } else if head == "/tokens"@ {
        Command::Tokens
    } else if head == "/budget"@ {
        Command::Budget
    } else if head == "/memory"@ {
        Command::Memory
    } else if head == "/compact"@ {
        Command::Compact
    } else if head == "/escalation"@ {
        Command::Escalation
    } else if head == "/profile"@ {
        Command::Profile
    } else if head == "/trace"@ {
        Command::Trace
    } else if head == "/eval"@ {
        Command::Eval
    } else if head == "/diff"@ {
        Command::Diff
    } else if head == "/git"@ {
        Command::Git
    } else if head == "/files"@ {
        Command::Files
    } else if head == "/undo"@ {
        Command::Undo
    } else if head == "/share"@ {
        Command::Share
    } else if head == "/sessions"@ {
        Command::Sessions
    } else if head == "/session"@ || head == "/multi"@ {
        Command::Session
    } else if head == "/skill"@ || head == "/skills"@ {
        Command::Skill
    } else if head == "/plugin"@ || head == "/plugins"@ {
        Command::Plugin
    } else if head == "/plan"@ {
        Command::Plan
    } else if head == "/lsp"@ {
        Command::Lsp
    } else if head == "/web"@ {
        Command::Web
    } else if head == "/auto-approve"@ {
        Command::AutoApprove
    } else if head == "/checkpoint"@ {
        Command::Checkpoint
    } else if head == "/rollback"@ {
        Command::Rollback
    } else if head == "/help"@ || head == "/?"@ {
        Command::Help
    } else {
        Command::Unknown
    }
}

fn command_of(head: &str) -> (r: Command)
    ensures
        r == command_named(head@),
{
    if text::same(head, "/quit") || text::same(head, "/q") || text::same(head, "/exit") {
        Command::Quit
    } else if text::same(head, "/clear") {
        Command::Clear
    } else if text::same(head, "/model") {
        Command::Model
    } else if text::same(head, "/endpoint") {
        Command::Endpoint
    } else if text::same(head, "/stats") {
        Command::Stats
    } else if text::same(head, "/tokens") {
        Command::Tokens
    } else if text::same(head, "/budget") {
        Command::Budget
    } else if text::same(head, "/memory") {
        Command::Memory
    } else if text::same(head, "/compact") {
        Command::Compact
    } else if text::same(head, "/escalation") {
        Command::Escalation
    } else if text::same(head, "/profile") {
        Command::Profile
    } else if text::same(head, "/trace") {
        Command::Trace
    } else if text::same(head, "/eval") {
        Command::Eval
    } else if text::same(head, "/diff") {
        Command::Diff
    } else if text::same(head, "/git") {
        Command::Git
    } else if text::same(head, "/files") {
        Command::Files
    } else if text::same(head, "/undo") {
        Command::Undo
    } else if text::same(head, "/share") {
        Command::Share
    } else if text::same(head, "/sessions") {
        Command::Sessions
    } else if text::same(head, "/session") || text::same(head, "/multi") {
        Command::Session
    } else if text::same(head, "/skill") || text::same(head, "/skills") {
        Command::Skill
    } else if text::same(head, "/plugin") || text::same(head, "/plugins") {
        Command::Plugin
    } else if text::same(head, "/plan") {
        Command::Plan
    } else if text::same(head, "/lsp") {
        Command::Lsp
    } else if text::same(head, "/web") {
        Command::Web
    } else if text::same(head, "/auto-approve") {
        Command::AutoApprove
    } else if text::same(head, "/checkpoint") {
        Command::Checkpoint
    } else if text::same(head, "/rollback") {
        Command::Rollback
    } else if text::same(head, "/help") || text::same(head, "/?") {
        Command::Help
    } else {
        Command::Unknown
    }
}

/// The first word of a line, and the others.
pub open spec fn head_of(line: Seq<char>) -> Seq<char> {
    if text::words(line).len() > 0 {
        text::words(line)[0]
    } else {
        Seq::empty()
    }
}

pub open spec fn rest_of(line: Seq<char>) -> Seq<Seq<char>> {
    if text::words(line).len() > 0 {
        text::words(line).skip(1)
    } else {
        Seq::empty()
    }
}

/// A line, taken apart.
#[derive(Debug)]
pub struct Parsed {
    pub command: Command,
    pub head: String,
    pub rest: Vec<String>,
}

/// What a line asks for, and with which words.
pub fn parse_command(line: &str) -> (r: Parsed)
    ensures
        r.head@ == head_of(line@),
        r.command == command_named(head_of(line@)),
        text::texts(r.rest@) == rest_of(line@),
{
    let mut ws = text::words_of(line);
    let ghost all = text::texts(ws@);
    assert(all.len() == ws@.len());
    if ws.len() > 0 {
        let head = ws.remove(0);
        assert(all[0] == head@);
        assert(text::texts(ws@) =~= all.skip(1));
        Parsed { command: command_of(&head), head, rest: ws }
    } else {
        let head = String::new();
        assert(head@ =~= Seq::<char>::empty());
        assert(text::texts(ws@) =~= Seq::<Seq<char>>::empty());
        Parsed { command: command_of(&head), head, rest: ws }
    }
}

/// The answer to a command that there is not.
pub fn unknown_command(head: &str) -> (r: String)
    ensures
        r@ == "  Unknown command: "@ + head@ + ". Try /help\n\n"@,
{
    text::cat3("  Unknown command: ", head, ". Try /help\n\n")
}

/// The answer when a session was cleared.
pub fn cleared() -> (r: &'static str)
    ensures
        r@ == "  ✓ Session cleared.\n\n"@,
{
    "  ✓ Session cleared.\n\n"
}

/// Something that a command works on and that a session may be without.
#[derive(Debug, Clone, Copy, PartialEq, Eq, Structural)]
pub enum Store {
    Undo,
    Sessions,
    Parallel,
    Lsp,
    Snapshots,
}

/// The answer to a command when the session is without what it works on.
pub open spec fn absence(s: Store) -> Seq<char> {
    match s {
        Store::Undo => "  Undo stack not available in this session.\n\n"@,
        Store::Sessions => "  Session store not wired up.\n\n"@,
        Store::Parallel => "  Multi-session not wired up.\n\n"@,
        Store::Lsp => "  LSP client not wired up.\n\n"@,
        Store::Snapshots => "  Snapshot manager not wired up.\n\n"@,
    }
}

/// The answer to a command when the session is without what it works on.
pub fn absent(s: Store) -> (r: &'static str)
    ensures
        r@ == absence(s),
{
    match s {
        Store::Undo => "  Undo stack not available in this session.\n\n",
        Store::Sessions => "  Session store not wired up.\n\n",
        Store::Parallel => "  Multi-session not wired up.\n\n",
        Store::Lsp => "  LSP client not wired up.\n\n",
        Store::Snapshots => "  Snapshot manager not wired up.\n\n",
    }
}

// ---------------------------------------------------------------------------
// Words
// ---------------------------------------------------------------------------

/// The `i`th word, if there is one.
pub open spec fn word_at(rest: Seq<Seq<char>>, i: int) -> Option<Seq<char>> {
    if 0 <= i < rest.len() {
        Some(rest[i])
    } else {
        None
    }
}

/// The `i`th word, or a default.
pub open spec fn word_or(rest: Seq<Seq<char>>, i: int, default: Seq<char>) -> Seq<char> {
    match word_at(rest, i) {
        Some(w) => w,
        None => default,
    }
}

/// The words from the `i`th on, as one.
pub open spec fn words_from(rest: Seq<Seq<char>>, i: int) -> Seq<char> {
    if i < rest.len() {
        text::join(rest.skip(i), " "@)
    } else {
        Seq::empty()
    }
}

pub(crate) fn word(rest: &Vec<String>, i: usize) -> (r: Option<String>)
    ensures
        text::opt_text(r) == word_at(text::texts(rest@), i as int),
{
    assert(text::texts(rest@).len() == rest@.len());
    if i < rest.len() {
        assert(text::texts(rest@)[i as int] == rest@[i as int]@);
        Some(rest[i].clone())
    } else {
        None
    }
}

pub(crate) fn word_else(rest: &Vec<String>, i: usize, default: &str) -> (r: String)
    ensures
        r@ == word_or(text::texts(rest@), i as int, default@),
{
    match word(rest, i) {
        Some(w) => w,
        None => default.to_owned(),
    }
}

pub(crate) fn words_after(rest: &Vec<String>, i: usize) -> (r: String)
    ensures
        r@ == words_from(text::texts(rest@), i as int),
{
    let ghost all = text::texts(rest@);
    assert(all.len() == rest@.len());
    let mut v: Vec<String> = Vec::new();
    if i >= rest.len() {
        let r = String::new();
        assert(r@ =~= Seq::<char>::empty());
        return r;
    }
    let mut k: usize = i;
    assert(text::texts(v@) =~= all.subrange(i as int, i as int));
    while k < rest.len()
        invariant
            i <= k <= rest.len(),
            all == text::texts(rest@),
            text::texts(v@) == all.subrange(i as int, k as int),
        decreases rest.len() - k,
    {
        let w = rest[k].clone();
        proof {
            text::lemma_texts_push(v@, w);
            assert(all[k as int] == rest@[k as int]@);
            assert(all.subrange(i as int, k + 1) =~= all.subrange(i as int, k as int).push(
                all[k as int],
            ));
        }
        v.push(w);
        k = k + 1;
    }
    assert(all.subrange(i as int, k as int) =~= all.skip(i as int));
    text::join_with(&v, " ")
}

// ---------------------------------------------------------------------------
// Model and endpoint
// ---------------------------------------------------------------------------

/// What an endpoint says of its models.
#[derive(Debug)]
pub enum ModelsAnswer {
    List(Json),
    Status(u16),
    Error(String),
}

/// The models in an answer.
pub open spec fn models_in(j: json::JsonText) -> Seq<json::JsonText> {
    let v = match j.member("data"@) {
        Some(d) => Some(d),
        None => j.member("models"@),
    };
    match v {
        Some(d) => match d.items() {
            Some(items) => items,
            None => Seq::empty(),
        },
        None => Seq::empty(),
    }
}

/// The name of a model.
pub open spec fn model_id(m: json::JsonText) -> Seq<char> {
    let v = match m.member("id"@) {
        Some(d) => Some(d),
        None => m.member("name"@),
    };
    match v {
        Some(d) => match d.text() {
            Some(s) => s,
            None => ""@,
        },
        None => ""@,
    }
}

pub open spec fn model_line(m: json::JsonText, active: Seq<char>) -> Seq<char> {
    "    "@ + model_id(m) + (if model_id(m) == active {
        " ← active"@
    } else {
        ""@
    }) + "\n"@
}

pub open spec fn model_lines(v: Seq<json::JsonText>, active: Seq<char>) -> Seq<Seq<char>> {
    v.map_values(|m: json::JsonText| model_line(m, active))
}

/// The answer to a question for the models.
pub open spec fn models_text(
    name: Seq<char>,
    base_url: Seq<char>,
    list: Option<json::JsonText>,
    trouble: Seq<char>,
) -> Seq<char> {
    "  Current: "@ + name + "\n  Endpoint: "@ + base_url
        + "\n\n  Fetching available models... "@ + (match list {
        Some(j) => text::decimal(models_in(j).len()) + " found\n\n"@ + text::join(
            model_lines(models_in(j), name),
            ""@,
        ) + "\n  Switch: /model <name>\n"@,
        None => trouble,
    }) + "\n"@
}

pub open spec fn trouble_text(a: ModelsAnswer) -> Seq<char> {
    match a {
        ModelsAnswer::List(_) => Seq::empty(),
        ModelsAnswer::Status(n) => "failed (HTTP "@ + text::decimal(n as nat) + ")\n"@,
        ModelsAnswer::Error(e) => "error: "@ + e@ + "\n"@,
    }
}

/// Where an endpoint is asked for its models.
pub fn models_url(base_url: &str) -> (r: String)
    ensures
        r@ == text::stripped_end(base_url@, "/"@) + "/models"@,
{
    let base = text::trim_end_set(base_url, "/");
    text::cat2(&base, "/models")
}

fn read_model_id(m: &Json) -> (r: String)
    ensures
        r@ == model_id(m@),
{
    let v = match m.get("id") {
        Some(d) => Some(d),
        None => m.get("name"),
    };
    match v {
        Some(d) => match d.as_str() {
            Some(s) => s,
            None => "".to_owned(),
        },
        None => "".to_owned(),
    }
}

fn format_models(v: &Vec<Json>, active: &str) -> (r: String)
    ensures
        r@ == text::join(model_lines(json::values(v@), active@), ""@),
{
    let ghost wanted = model_lines(json::values(v@), active@);
    let mut lines: Vec<String> = Vec::new();
    let mut i: usize = 0;
    while i < v.len()
        invariant
            i <= v.len(),
            lines.len() == i,
            wanted == model_lines(json::values(v@), active@),
            forall|k: int| 0 <= k < i ==> (#[trigger] lines@[k])@ == wanted[k],
        decreases v.len() - i,
    {
        assert(json::values(v@)[i as int] == v@[i as int]@);
        let id = read_model_id(&v[i]);
        let mark = if text::same(&id, active) {
            " ← active"
        } else {
            ""
        };
        let line = text::cat4("    ", &id, mark, "\n");
        assert(line@ == wanted[i as int]);
        lines.push(line);
        i = i + 1;
    }
    assert(text::texts(lines@) =~= wanted);
    text::join_with(&lines, "")
}

/// The answer to a question for the models.
pub fn list_models(name: &str, base_url: &str, answer: &ModelsAnswer) -> (r: String)
    ensures
        r@ == models_text(
            name@,
            base_url@,
            match *answer {
                ModelsAnswer::List(j) => Some(j@),
                _ => None,
            },
            trouble_text(*answer),
        ),
{
    let head = text::cat5(
        "  Current: ",
        name,
        "\n  Endpoint: ",
        base_url,
        "\n\n  Fetching available models... ",
    );
    let body = match answer {
        ModelsAnswer::List(j) => {
            let v = match j.get("data") {
                Some(d) => Some(d),
                None => j.get("models"),
            };
            let none: Vec<Json> = Vec::new();
            assert(json::values(none@) =~= Seq::<json::JsonText>::empty());
            let items = match v {
                Some(d) => match d.as_array() {
                    Some(items) => items,
                    None => &none,
                },
                None => &none,
            };
            assert(json::values(items@).len() == items@.len());
            let n = text::number(items.len() as u64);
            let lines = format_models(items, name);
            text::cat4(&n, " found\n\n", &lines, "\n  Switch: /model <name>\n")
        },
        ModelsAnswer::Status(n) => {
            let k = text::number(*n as u64);
            text::cat3("failed (HTTP ", &k, ")\n")
        },
        ModelsAnswer::Error(e) => text::cat3("error: ", e, "\n"),
    };
    text::cat3(&head, &body, "\n")
}

/// Takes another model.
pub fn switch_model(config: &mut Config, rest: &Vec<String>) -> (r: String)
    requires
        rest.len() > 0,
    ensures
        final(config).model.name@ == words_from(text::texts(rest@), 0),
        r@ == "  ✓ Switched to "@ + words_from(text::texts(rest@), 0) + "\n\n"@,
        *final(config) == (Config {
            model: (crate::config::ModelConfig {
                name: final(config).model.name,
                ..old(config).model
            }),
            ..*old(config)
        }),
{
    let name = words_after(rest, 0);
    let r = text::cat3("  ✓ Switched to ", &name, "\n\n");
    config.model.name = name;
    r
}

/// Shows the endpoint, or takes another.
pub fn cmd_endpoint(config: &mut Config, rest: &Vec<String>) -> (r: String)
    ensures
        match word_at(text::texts(rest@), 0) {
            Some(url) => final(config).model.base_url@ == url && r@ == "  ✓ Endpoint: "@ + url
                + "\n\n"@ && *final(config) == (Config {
                model: (crate::config::ModelConfig {
                    base_url: final(config).model.base_url,
                    ..old(config).model
                }),
                ..*old(config)
            }),
            None => *final(config) == *old(config) && r@ == "  Current: "@
                + old(config).model.base_url@
                + "\n  Switch: /endpoint http://host:port/v1\n\n"@,
        },
{
    match word(rest, 0) {
        Some(url) => {
            let r = text::cat3("  ✓ Endpoint: ", &url, "\n\n");
            config.model.base_url = url;
            r
        },
        None => text::cat3(
            "  Current: ",
            &config.model.base_url,
            "\n  Switch: /endpoint http://host:port/v1\n\n",
        ),
    }
}

// ---------------------------------------------------------------------------
// Figures
// ---------------------------------------------------------------------------

/// What a session has used.
#[derive(Debug)]
pub struct Usage {
    pub prompt: u64,
    pub completion: u64,
    pub total: u64,
    pub calls: u64,
    /// In dollars, with four digits behind the point.
    pub cost: String,
}

/// The figures of a session.
pub open spec fn stats_text(
    name: Seq<char>,
    base_url: Seq<char>,
    messages: nat,
    dir: Seq<char>,
    u: Usage,
    monitor: Option<Seq<char>>,
) -> Seq<char> {
    "  Model:    "@ + name + "\n  Endpoint: "@ + base_url + "\n  History:  "@ + text::decimal(
        messages,
    ) + " messages\n  Dir:      "@ + dir + "\n  Tokens:   "@ + text::decimal(u.prompt as nat)
        + " prompt + "@ + text::decimal(u.completion as nat) + " completion = "@ + text::decimal(
        u.total as nat,
    ) + " total\n"@ + (match monitor {
        Some(m) => "  Monitor:  "@ + m + "\n"@,
        None => Seq::empty(),
    }) + "\n"@
}

/// The figures of a session.
pub fn cmd_stats(
    config: &Config,
    messages: usize,
    dir: &str,
    usage: &Usage,
    monitor: &Option<String>,
) -> (r: String)
    ensures
        r@ == stats_text(
            config.model.name@,
            config.model.base_url@,
            messages as nat,
            dir@,
            *usage,
            text::opt_text(*monitor),
        ),
{
    let n = text::number(messages as u64);
    let head = text::cat8(
        "  Model:    ",
        &config.model.name,
        "\n  Endpoint: ",
        &config.model.base_url,
        "\n  History:  ",
        &n,
        " messages\n  Dir:      ",
        dir,
    );
    let a = text::number(usage.prompt);
    let b = text::number(usage.completion);
    let c = text::number(usage.total);
    let mut out = text::cat8(
        &head,
        "\n  Tokens:   ",
        &a,
        " prompt + ",
        &b,
        " completion = ",
        &c,
        " total\n",
    );
    match monitor {
        Some(m) => {
            let line = text::cat3("  Monitor:  ", m, "\n");
            out.push_str(&line);
        },
        None => {
            assert(out@ + Seq::<char>::empty() =~= out@);
        },
    }
    out.push_str("\n");
    out
}

/// A text, each of whose lines is set in.
pub open spec fn indented_lines(s: Seq<char>, prefix: Seq<char>, end: Seq<char>) -> Seq<
    Seq<char>,
> {
    text::lines(s).map_values(|l: Seq<char>| prefix + l + end)
}

pub(crate) fn indent_lines(s: &str, prefix: &str, end: &str) -> (r: Vec<String>)
    ensures
        text::texts(r@) == indented_lines(s@, prefix@, end@),
{
    let lines = text::lines_of(s);
    let ghost wanted = indented_lines(s@, prefix@, end@);
    assert(text::texts(lines@).len() == lines@.len());
    let mut r: Vec<String> = Vec::new();
    let mut i: usize = 0;
    while i < lines.len()
        invariant
            i <= lines.len(),
            r.len() == i,
            text::texts(lines@) == text::lines(s@),
            wanted == indented_lines(s@, prefix@, end@),
            forall|k: int| 0 <= k < i ==> (#[trigger] r@[k])@ == wanted[k],
        decreases lines.len() - i,
    {
        assert(text::texts(lines@)[i as int] == lines@[i as int]@);
        let line = text::cat3(prefix, &lines[i], end);
        assert(line@ == wanted[i as int]);
        r.push(line);
        i = i + 1;
    }
    assert(text::texts(r@) =~= wanted);
    r
}

/// A text, each of whose lines is set in.
pub fn indent(s: &str, prefix: &str) -> (r: String)
    ensures
        r@ == text::join(indented_lines(s@, prefix@, ""@), "\n"@),
{
    let lines = indent_lines(s, prefix, "");
    text::join_with(&lines, "\n")
}

/// What was used: the report of a monitor, or the plain figures.
pub fn cmd_tokens(usage: &Usage, report: &Option<String>) -> (r: String)
    ensures
        r@ == (match *report {
            Some(s) => text::join(indented_lines(s@, "  "@, "\n"@), ""@),
            None => "  prompt: "@ + text::decimal(usage.prompt as nat) + " | completion: "@
                + text::decimal(usage.completion as nat) + " | total: "@ + text::decimal(
                usage.total as nat,
            ) + " | calls: "@ + text::decimal(usage.calls as nat) + " | cost: $"@ + usage.cost@
                + "\n"@,
        }) + "\n"@,
{
    let body = match report {
        Some(s) => {
            let lines = indent_lines(s, "  ", "\n");
            text::join_with(&lines, "")
        },
        None => {
            let a = text::number(usage.prompt);
            let b = text::number(usage.completion);
            let c = text::number(usage.total);
            let d = text::number(usage.calls);
            let head = text::cat8(
                "  prompt: ",
                &a,
                " | completion: ",
                &b,
                " | total: ",
                &c,
                " | calls: ",
                &d,
            );
            text::cat4(&head, " | cost: $", &usage.cost, "\n")
        },
    };
    text::cat2(&body, "\n")
}

/// How many tokens a message takes, by rule of thumb.
pub open spec fn message_cost(m: json::JsonText) -> nat {
    let size = match m.member("content"@) {
        Some(json::JsonText::Text(s)) => text::utf8_len(s),
        Some(j) => text::utf8_len(json::written(j)),
        None => 0,
    };
    (size + 3) / 4
}

pub open spec fn history_cost(v: Seq<json::JsonText>) -> nat
    decreases v.len(),
{
    if v.len() == 0 {
        0
    } else {
        history_cost(v.drop_last()) + message_cost(v.last())
    }
}

fn cost_of(m: &Json) -> (r: u128)
    ensures
        r == message_cost(m@),
        r <= usize::MAX,
{
    let size: usize = match m.get("content") {
        Some(j) => match j {
            Json::Text(s) => text::byte_len(s),
            _ => {
                let w = j.write();
                text::byte_len(&w)
            },
        },
        None => 0,
    };
    (size as u128 + 3) / 4
}

fn total_cost(v: &Vec<Json>) -> (r: u128)
    ensures
        r == history_cost(json::values(v@)),
{
    let ghost all = json::values(v@);
    let mut n: u128 = 0;
    let mut i: usize = 0;
    assert(all.take(0) =~= Seq::<json::JsonText>::empty());
    while i < v.len()
        invariant
            i <= v.len(),
            all == json::values(v@),
            n == history_cost(all.take(i as int)),
            n <= i * usize::MAX,
        decreases v.len() - i,
    {
        assert(all.take(i + 1).drop_last() =~= all.take(i as int));
        assert(all.take(i + 1).last() == v@[i as int]@);
        let c = cost_of(&v[i]);
        assert(i * usize::MAX + usize::MAX == (i + 1) * usize::MAX) by (nonlinear_arith);
        assert((i + 1) * usize::MAX <= usize::MAX * usize::MAX) by (nonlinear_arith)
            requires
                i + 1 <= usize::MAX,
        ;
        assert(usize::MAX * usize::MAX < u128::MAX) by (nonlinear_arith)
            requires
                usize::MAX <= 0xffff_ffff_ffff_ffff,
        ;
        n = n + c;
        i = i + 1;
    }
    assert(all.take(i as int) =~= all);
    n
}

/// So many times a character.
pub open spec fn repeated(c: char, n: nat) -> Seq<char> {
    Seq::new(n, |i: int| c)
}

fn repeat(c: char, n: usize) -> (r: String)
    ensures
        r@ == repeated(c, n as nat),
{
    let mut r: String = String::new();
    let mut i: usize = 0;
    assert(r@ =~= repeated(c, 0));
    while i < n
        invariant
            i <= n,
            r@ == repeated(c, i as nat),
        decreases n - i,
    {
        r.push(c);
        assert(r@ =~= repeated(c, (i + 1) as nat));
        i = i + 1;
    }
    r
}

/// The context budget: window, budget, percentage, use, and use in percent.
pub open spec fn budget_text(
    window: nat,
    pct: nat,
    used: nat,
    counts: Option<(u64, u64)>,
) -> Seq<char> {
    let budget = window * pct / 100;
    let usage = if budget == 0 {
        0
    } else {
        used * 100 / budget
    };
    let filled = if usage / 5 < 20 {
        usage / 5
    } else {
        20
    };
    "  Context Budget\n  Window:    "@ + text::decimal(window) + " tokens\n  Budget:    "@
        + text::decimal(budget) + " tokens ("@ + text::decimal(pct) + "%)\n  Used:      "@
        + text::decimal(used) + " tokens (~"@ + text::decimal(usage) + "%)\n  ["@ + repeated(
        '█',
        filled,
    ) + repeated('░', (20 - filled) as nat) + "]\n"@ + (match counts {
        Some((compactions, evictions)) => "  Compacts:  "@ + text::decimal(compactions as nat)
            + " | Evictions: "@ + text::decimal(evictions as nat) + "\n"@,
        None => Seq::empty(),
    }) + "\n"@
}

/// What of the context window is used, as far as sixty-four bits tell. A window of nothing counts as one token,
/// and a share of nothing as seventy percent.
pub fn cmd_budget(
    config: &Config,
    history: &Vec<Json>,
    counts: Option<(u64, u64)>,
) -> (r: String)
    ensures
        r@ == budget_text(
            if config.context.detected_window > 1 {
                config.context.detected_window as nat
            } else {
                1
            },
            if config.context.max_budget_pct == 0 {
                70
            } else {
                config.context.max_budget_pct as nat
            },
            if history_cost(json::values(history@)) < u64::MAX {
                history_cost(json::values(history@))
            } else {
                u64::MAX as nat
            },
            counts,
        ),
{
    let window: u128 = if config.context.detected_window > 1 {
        config.context.detected_window as u128
    } else {
        1
    };
    let pct: u128 = if config.context.max_budget_pct == 0 {
        70
    } else {
        config.context.max_budget_pct as u128
    };
    assert(window * pct <= 0xffff_ffff * 0xffff_ffff) by (nonlinear_arith)
        requires
            window <= 0xffff_ffff,
            pct <= 0xffff_ffff,
    ;
    let budget: u128 = window * pct / 100;
    let cost = total_cost(history);
    let used: u128 = if cost < u64::MAX as u128 {
        cost
    } else {
        u64::MAX as u128
    };
    let usage: u128 = if budget == 0 {
        0
    } else {
        used * 100 / budget
    };
    let filled: usize = if usage / 5 < 20 {
        (usage / 5) as usize
    } else {
        20
    };
    let a = text::wide_number(window);
    let b = text::wide_number(budget);
    let c = text::wide_number(pct);
    let d = text::wide_number(used);
    let e = text::wide_number(usage);
    let full = repeat('█', filled);
    let rest = repeat('░', 20 - filled);
    let head = text::cat7(
        "  Context Budget\n  Window:    ",
        &a,
        " tokens\n  Budget:    ",
        &b,
        " tokens (",
        &c,
        "%)\n  Used:      ",
    );
    let mut out = text::cat8(&head, &d, " tokens (~", &e, "%)\n  [", &full, &rest, "]\n");
    match counts {
        Some((compactions, evictions)) => {
            let f = text::number(compactions);
            let g = text::number(evictions);
            let line = text::cat5("  Compacts:  ", &f, " | Evictions: ", &g, "\n");
            out.push_str(&line);
        },
        None => {
            assert(out@ + Seq::<char>::empty() =~= out@);
        },
    }
    out.push_str("\n");
    out
}

// ---------------------------------------------------------------------------
// The conversation
// ---------------------------------------------------------------------------

/// Keeps the last six messages of a long conversation.
pub fn cmd_compact<T>(history: &mut Vec<T>) -> (r: String)
    ensures
        ({
            let n = old(history)@.len();
            if n > 10 {
                final(history)@ == old(history)@.skip(n - 6) && r@ == "  ✓ Removed "@
                    + text::decimal((n - 6) as nat) + " old messages, kept last 6.\n\n"@
            } else {
                final(history)@ == old(history)@ && r@ == "  Short history ("@ + text::decimal(n)
                    + " msgs), nothing to compact.\n\n"@
            }
        }),
{
    let n: usize = history.len();
    let k = text::number(n as u64);
    if n > 10 {
        let ghost all = history@;
        let mut dropped: usize = 0;
        assert(all.skip(0) =~= all);
        while dropped < n - 6
            invariant
                dropped <= n - 6,
                n > 10,
                n == all.len(),
                history@ == all.skip(dropped as int),
            decreases n - dropped,
        {
            let _ = history.remove(0);
            assert(history@ =~= all.skip(dropped + 1));
            dropped = dropped + 1;
        }
        let d = text::number((n - 6) as u64);
        text::cat3("  ✓ Removed ", &d, " old messages, kept last 6.\n\n")
    } else {
        text::cat3("  Short history (", &k, " msgs), nothing to compact.\n\n")
    }
}

/// Shows whether a larger model is called in, or changes it.
pub fn cmd_escalation(engine: &mut EscalationEngine, rest: &Vec<String>) -> (r: String)
    ensures
        ({
            let sub = word_at(text::texts(rest@), 0);
            if sub == Some("on"@) || sub == Some("enable"@) {
                final(engine)@ == (escalation::EngineText { enabled: true, ..old(engine)@ }) && r@
                    == "  ✓ Escalation enabled. "@ + escalation::status_text(final(engine)@)
                    + "\n\n"@
            } else if sub == Some("off"@) || sub == Some("disable"@) {
                final(engine)@ == (escalation::EngineText { enabled: false, ..old(engine)@ }) && r@
                    == "  ✓ Escalation disabled.\n\n"@
            } else {
                *final(engine) == *old(engine) && r@ == (if old(engine).enabled {
                    "  ⬆ Escalation: enabled\n  "@ + escalation::status_text(old(engine)@)
                        + "\n  Confirm: "@ + (if old(engine).confirm {
                        "yes (will ask)"@
                    } else {
                        "no (auto)"@
                    }) + "\n\n"@
                } else {
                    "  Escalation: disabled\n  Enable: set ANTHROPIC_API_KEY or OPENAI_API_KEY (or /escalation on)\n  Or add [escalation] section to itsy.toml\n\n"@
                })
            }
        }),
{
    let sub = word_else(rest, 0, "");
    let given = rest.len() > 0;
    assert(text::texts(rest@).len() == rest@.len());
    if given && (text::same(&sub, "on") || text::same(&sub, "enable")) {
        engine.enabled = true;
        let s = engine.status();
        text::cat3("  ✓ Escalation enabled. ", &s, "\n\n")
    } else if given && (text::same(&sub, "off") || text::same(&sub, "disable")) {
        engine.enabled = false;
        "  ✓ Escalation disabled.\n\n".to_owned()
    } else if !engine.enabled {
        "  Escalation: disabled\n  Enable: set ANTHROPIC_API_KEY or OPENAI_API_KEY (or /escalation on)\n  Or add [escalation] section to itsy.toml\n\n".to_owned()
    } else {
        let s = engine.status();
        let confirm = if engine.confirm {
            "yes (will ask)"
        } else {
            "no (auto)"
        };
        text::cat5("  ⬆ Escalation: enabled\n  ", &s, "\n  Confirm: ", confirm, "\n\n")
    }
}

// ---------------------------------------------------------------------------
// Switches
// ---------------------------------------------------------------------------

/// What becomes of a switch.
#[derive(Debug, Clone, Copy, PartialEq, Eq, Structural)]
pub enum Toggle {
    On,
    Off,
    Show,
}

/// What is asked for of a switch.
pub open spec fn toggled(rest: Seq<Seq<char>>) -> Toggle {
    let sub = word_at(rest, 0);
    if sub == Some("on"@) || sub == Some("enable"@) {
        Toggle::On
    } else if sub == Some("off"@) || sub == Some("disable"@) {
        Toggle::Off
    } else {
        Toggle::Show
    }
}

/// What is asked for of a switch.
pub fn read_toggle(rest: &Vec<String>) -> (r: Toggle)
    ensures
        r == toggled(text::texts(rest@)),
{
    match word(rest, 0) {
        Some(sub) => if text::same(&sub, "on") || text::same(&sub, "enable") {
            Toggle::On
        } else if text::same(&sub, "off") || text::same(&sub, "disable") {
            Toggle::Off
        } else {
            Toggle::Show
        },
        None => Toggle::Show,
    }
}

/// The answer to a question for the web, whose switch stands at a value.
pub fn cmd_web(toggle: Toggle, current: &str) -> (r: String)
    ensures
        r@ == match toggle {
            Toggle::On => "  ✓ Web browsing enabled (ITSY_WEB_BROWSE=true).\n\n"@,
            Toggle::Off => "  ✓ Web browsing disabled.\n\n"@,
            Toggle::Show => "  Web browsing: "@ + current@ + "\n  /web on | /web off\n\n"@,
        },
{
    match toggle {
        Toggle::On => "  ✓ Web browsing enabled (ITSY_WEB_BROWSE=true).\n\n".to_owned(),
        Toggle::Off => "  ✓ Web browsing disabled.\n\n".to_owned(),
        Toggle::Show => text::cat3("  Web browsing: ", current, "\n  /web on | /web off\n\n"),
    }
}

/// The answer to a question for approval, whose switch stands at a value.
pub fn cmd_auto_approve(toggle: Toggle, current: &str) -> (r: String)
    ensures
        r@ == match toggle {
            Toggle::On => "  ✓ Auto-approve enabled (ITSY_AUTO_APPROVE=true).\n\n"@,
            Toggle::Off => "  ✓ Auto-approve disabled.\n\n"@,
            Toggle::Show => "  Auto-approve: "@ + current@
                + "\n  /auto-approve on | /auto-approve off\n\n"@,
        },
{
    match toggle {
        Toggle::On => "  ✓ Auto-approve enabled (ITSY_AUTO_APPROVE=true).\n\n".to_owned(),
        Toggle::Off => "  ✓ Auto-approve disabled.\n\n".to_owned(),
        Toggle::Show => text::cat3(
            "  Auto-approve: ",
            current,
            "\n  /auto-approve on | /auto-approve off\n\n",
        ),
    }
}

// ---------------------------------------------------------------------------
// Suites
// ---------------------------------------------------------------------------

/// What becomes of a request for a suite.
#[derive(Debug)]
pub enum EvalPlan {
    /// The suite on classification is run.
    Classify,
    /// Nothing is run, for a reason.
    Say(String),
}

/// What becomes of a request for a suite: only the one that needs no model is
/// run.
pub fn plan_eval(rest: &Vec<String>) -> (r: EvalPlan)
    ensures
        ({
            let suite = word_or(text::texts(rest@), 0, "classify_accuracy"@);
            if suite == "classify_accuracy"@ {
                r is Classify
            } else if suite == "tool_selection"@ || suite == "response_quality"@ {
                r matches EvalPlan::Say(s) && s@ == "  Suite '"@ + suite
                    + "' requires model integration.\n  Currently available offline: classify_accuracy.\n\n"@
            } else {
                r matches EvalPlan::Say(s) && s@ == "  Unknown suite: "@ + suite
                    + ". Available: classify_accuracy, tool_selection, response_quality\n\n"@
            }
        }),
{
    let suite = word_else(rest, 0, "classify_accuracy");
    match evals::known_suite(&suite) {
        Ok(_) => {
            if text::same(&suite, "classify_accuracy") {
                EvalPlan::Classify
            } else {
                EvalPlan::Say(
                    text::cat3(
                        "  Suite '",
                        &suite,
                        "' requires model integration.\n  Currently available offline: classify_accuracy.\n\n",
                    ),
                )
            }
        },
        Err(e) => {
            let s = text::cat3("  ", &e, "\n\n");
            assert(". Available: classify_accuracy, tool_selection, response_quality"@ + "\n\n"@
                =~= ". Available: classify_accuracy, tool_selection, response_quality\n\n"@) by {
                reveal_strlit(". Available: classify_accuracy, tool_selection, response_quality");
                reveal_strlit(". Available: classify_accuracy, tool_selection, response_quality\n\n");
                reveal_strlit("\n\n");
            }
            assert("  "@ + "Unknown suite: "@ =~= "  Unknown suite: "@) by {
                reveal_strlit("  ");
                reveal_strlit("Unknown suite: ");
                reveal_strlit("  Unknown suite: ");
            }
            assert(s@ =~= "  Unknown suite: "@ + suite@
                + ". Available: classify_accuracy, tool_selection, response_quality\n\n"@);
            EvalPlan::Say(s)
        },
    }
}

// ---------------------------------------------------------------------------
// Help
// ---------------------------------------------------------------------------

pub const HELP: &'static str = "
  Commands
  ─────────────────────────────────────
  /model [name]        Show or switch model (no arg → fetch list from endpoint)
  /endpoint [url]      Show or switch endpoint
  /stats               Session stats (model, history, tokens)
  /tokens              Detailed token usage report
  /budget              Show context window budget
  /memory [list|clear|stats]
  /memory remember <type> <title> <content>
  /memory forget <id>
  /compact             Trim conversation history
  /escalation [on|off] Show / toggle cloud-model fallback
  /profile             Show resolved model profile
  /trace [list|start|stop|replay <id>|test <id>]
  /eval <suite>        Run an evaluation suite (offline: classify_accuracy)
  /diff                Git diff summary
  /git <cmd...>        Run a git command
  /files               List project files
  /undo [id|list|all]  Per-edit undo stack
  /share [gist|json|html|md|<path>]
  /sessions [list|resume <id>|new]
  /session [list|new <task>|switch <id>|kill <id>]
  /skill / /skills [list|enable <name>|disable <name>|add <name>|remove <name>]
  /plugin / /plugins [list]
  /plan                Show active plan
  /lsp [start|stop|status]
  /web [on|off]        Toggle ITSY_WEB_BROWSE
  /auto-approve [on|off]   Toggle ITSY_AUTO_APPROVE
  /checkpoint [label]  Manual snapshot
  /rollback [reason]   Restore last snapshot
  /clear               Reset entire session
  /quit                Exit itsy
  /help                This screen
";

/// All commands.
pub fn help_text() -> (r: &'static str)
    ensures
        r@ == HELP@,
{
    HELP
}

// ---------------------------------------------------------------------------
// Laws
// ---------------------------------------------------------------------------

/// Each command is known by its names.
pub proof fn law_command_names()
    ensures
        command_named("/quit"@) == Command::Quit,
        command_named("/q"@) == Command::Quit,
        command_named("/exit"@) == Command::Quit,
        command_named("/clear"@) == Command::Clear,
        command_named("/model"@) == Command::Model,
        command_named("/endpoint"@) == Command::Endpoint,
        command_named("/stats"@) == Command::Stats,
        command_named("/tokens"@) == Command::Tokens,
        command_named("/budget"@) == Command::Budget,
        command_named("/memory"@) == Command::Memory,
        command_named("/compact"@) == Command::Compact,
        command_named("/escalation"@) == Command::Escalation,
        command_named("/profile"@) == Command::Profile,
        command_named("/trace"@) == Command::Trace,
        command_named("/eval"@) == Command::Eval,
        command_named("/diff"@) == Command::Diff,
        command_named("/git"@) == Command::Git,
        command_named("/files"@) == Command::Files,
        command_named("/undo"@) == Command::Undo,
        command_named("/share"@) == Command::Share,
        command_named("/sessions"@) == Command::Sessions,
        command_named("/session"@) == Command::Session,
        command_named("/multi"@) == Command::Session,
        command_named("/skill"@) == Command::Skill,
        command_named("/skills"@) == Command::Skill,
        command_named("/plugin"@) == Command::Plugin,
        command_named("/plugins"@) == Command::Plugin,
        command_named("/plan"@) == Command::Plan,
        command_named("/lsp"@) == Command::Lsp,
        command_named("/web"@) == Command::Web,
        command_named("/auto-approve"@) == Command::AutoApprove,
        command_named("/checkpoint"@) == Command::Checkpoint,
        command_named("/rollback"@) == Command::Rollback,
        command_named("/help"@) == Command::Help,
        command_named("/?"@) == Command::Help,
{
    reveal_strlit("/quit");
    reveal_strlit("/q");
    reveal_strlit("/exit");
    reveal_strlit("/clear");
    reveal_strlit("/model");
    reveal_strlit("/endpoint");
    reveal_strlit("/stats");
    reveal_strlit("/tokens");
    reveal_strlit("/budget");
    reveal_strlit("/memory");
    reveal_strlit("/compact");
    reveal_strlit("/escalation");
    reveal_strlit("/profile");
    reveal_strlit("/trace");
    reveal_strlit("/eval");
    reveal_strlit("/diff");
    reveal_strlit("/git");
    reveal_strlit("/files");
    reveal_strlit("/undo");
    reveal_strlit("/share");
    reveal_strlit("/sessions");
    reveal_strlit("/session");
    reveal_strlit("/multi");
    reveal_strlit("/skill");
    reveal_strlit("/skills");
    reveal_strlit("/plugin");
    reveal_strlit("/plugins");
    reveal_strlit("/plan");
    reveal_strlit("/lsp");
    reveal_strlit("/web");
    reveal_strlit("/auto-approve");
    reveal_strlit("/checkpoint");
    reveal_strlit("/rollback");
    reveal_strlit("/help");
    reveal_strlit("/?");
    assert("/quit"@.len() == 5 && "/q"@.len() == 2 && "/exit"@.len() == 5 && "/clear"@.len() == 6 && "/model"@.len() == 6 && "/endpoint"@.len() == 9 && "/stats"@.len() == 6 && "/tokens"@.len() == 7 && "/budget"@.len() == 7 && "/memory"@.len() == 7 && "/compact"@.len() == 8 && "/escalation"@.len() == 11 && "/profile"@.len() == 8 && "/trace"@.len() == 6 && "/eval"@.len() == 5 && "/diff"@.len() == 5 && "/git"@.len() == 4 && "/files"@.len() == 6 && "/undo"@.len() == 5 && "/share"@.len() == 6 && "/sessions"@.len() == 9 && "/session"@.len() == 8 && "/multi"@.len() == 6 && "/skill"@.len() == 6 && "/skills"@.len() == 7 && "/plugin"@.len() == 7 && "/plugins"@.len() == 8 && "/plan"@.len() == 5 && "/lsp"@.len() == 4 && "/web"@.len() == 4 && "/auto-approve"@.len() == 13 && "/checkpoint"@.len() == 11 && "/rollback"@.len() == 9 && "/help"@.len() == 5 && "/?"@.len() == 2);
    assert("/quit"@[1] == 'q' && "/exit"@[1] == 'e' && "/eval"@[1] == 'e' && "/diff"@[1] == 'd');
    assert("/undo"@[1] == 'u' && "/plan"@[1] == 'p' && "/help"@[1] == 'h' && "/q"@[1] == 'q');
    assert("/?"@[1] == '?' && "/exit"@[2] == 'x' && "/eval"@[2] == 'v' && "/clear"@[1] == 'c');
    assert("/model"@[1] == 'm' && "/stats"@[1] == 's' && "/trace"@[1] == 't' && "/files"@[1] == 'f');
    assert("/share"@[1] == 's' && "/multi"@[1] == 'm' && "/skill"@[1] == 's' && "/model"@[2] == 'o');
    assert("/multi"@[2] == 'u' && "/endpoint"@[1] == 'e' && "/sessions"@[1] == 's' && "/rollback"@[1] == 'r');
    assert("/stats"@[2] == 't' && "/share"@[2] == 'h' && "/skill"@[2] == 'k' && "/tokens"@[1] == 't');
    assert("/budget"@[1] == 'b' && "/memory"@[1] == 'm' && "/skills"@[1] == 's' && "/plugin"@[1] == 'p');
    assert("/compact"@[1] == 'c' && "/profile"@[1] == 'p' && "/session"@[1] == 's' && "/plugins"@[1] == 'p');
    assert("/escalation"@[1] == 'e' && "/checkpoint"@[1] == 'c' && "/profile"@[2] == 'r' && "/plugins"@[2] == 'l');
    assert("/git"@[1] == 'g' && "/lsp"@[1] == 'l' && "/web"@[1] == 'w');
}

/// What is no name of a command is not known.
pub proof fn law_unknown_commands(head: Seq<char>)
    requires
        head != "/quit"@,
        head != "/q"@,
        head != "/exit"@,
        head != "/clear"@,
        head != "/model"@,
        head != "/endpoint"@,
        head != "/stats"@,
        head != "/tokens"@,
        head != "/budget"@,
        head != "/memory"@,
        head != "/compact"@,
        head != "/escalation"@,
        head != "/profile"@,
        head != "/trace"@,
        head != "/eval"@,
        head != "/diff"@,
        head != "/git"@,
        head != "/files"@,
        head != "/undo"@,
        head != "/share"@,
        head != "/sessions"@,
        head != "/session"@,
        head != "/multi"@,
        head != "/skill"@,
        head != "/skills"@,
        head != "/plugin"@,
        head != "/plugins"@,
        head != "/plan"@,
        head != "/lsp"@,
        head != "/web"@,
        head != "/auto-approve"@,
        head != "/checkpoint"@,
        head != "/rollback"@,
        head != "/help"@,
        head != "/?"@,
    ensures
        command_named(head) is Unknown,
{
}

/// A line is its first word and those behind it.
pub proof fn law_lines_are_parsed(line: Seq<char>, i: int)
    ensures
        text::words(line).len() > 0 ==> head_of(line) == text::words(line)[0] && rest_of(line).len()
            == text::words(line).len() - 1,
        0 <= i < rest_of(line).len() ==> rest_of(line)[i] == text::words(line)[i + 1],
        text::words(line).len() == 0 ==> head_of(line).len() == 0 && rest_of(line).len() == 0,
{
}

/// The words behind a command, one by one and from one on.
pub proof fn law_words_of_commands(rest: Seq<Seq<char>>, i: int, d: Seq<char>)
    requires
        0 <= i,
    ensures
        i < rest.len() ==> word_at(rest, i) == Some(rest[i]) && word_or(rest, i, d) == rest[i]
            && words_from(rest, i) == text::join(rest.skip(i), " "@),
        i >= rest.len() ==> word_at(rest, i) is None && word_or(rest, i, d) == d && words_from(
            rest,
            i,
        ).len() == 0,
        i == rest.len() - 1 ==> words_from(rest, i) == rest[i],
{
    if i == rest.len() - 1 {
        assert(rest.skip(i) =~= seq![rest[i]]);
        reveal_with_fuel(text::join, 2);
        assert(text::join(seq![rest[i]], " "@) =~= rest[i]);
    }
}

/// Each model that a server offers is listed, and the one in use is marked.
pub proof fn law_models_are_listed(
    name: Seq<char>,
    url: Seq<char>,
    j: json::JsonText,
    trouble: Seq<char>,
    i: int,
)
    requires
        0 <= i < models_in(j).len(),
    ensures
        text::has(
            models_text(name, url, Some(j), trouble),
            "    "@ + model_id(models_in(j)[i]),
        ),
        model_id(models_in(j)[i]) == name ==> text::has(
            models_text(name, url, Some(j), trouble),
            "    "@ + name + " ← active"@,
        ),
        model_id(models_in(j)[i]) != name ==> text::has(
            models_text(name, url, Some(j), trouble),
            "    "@ + model_id(models_in(j)[i]) + "\n"@,
        ),
{
    let v = models_in(j);
    let lines = model_lines(v, name);
    let id = model_id(v[i]);
    let line = lines[i];
    text::lemma_joined_part(lines, ""@, i);
    let list = text::join(lines, ""@);
    let t = models_text(name, url, Some(j), trouble);
    let head = "  Current: "@ + name + "\n  Endpoint: "@ + url
        + "\n\n  Fetching available models... "@ + text::decimal(v.len()) + " found\n\n"@;
    let tail = "\n  Switch: /model <name>\n"@ + "\n"@;
    assert(t =~= head + list + tail);
    reveal_strlit("");
    let mark = if id == name {
        " ← active"@
    } else {
        ""@
    };
    assert(line =~= Seq::empty() + ("    "@ + id) + (mark + "\n"@));
    text::law_affixes("    "@ + id, Seq::empty(), mark + "\n"@);
    lemma_inside(t, head, list, tail, line, "    "@ + id);
    if id == name {
        let x = "    "@ + name + " ← active"@;
        assert(line =~= Seq::empty() + x + "\n"@);
        text::law_affixes(x, Seq::empty(), "\n"@);
        lemma_inside(t, head, list, tail, line, x);
    } else {
        let x = "    "@ + id + "\n"@;
        assert(line =~= Seq::empty() + x + Seq::empty());
        text::law_affixes(x, Seq::empty(), Seq::empty());
        lemma_inside(t, head, list, tail, line, x);
    }
}

proof fn lemma_inside(
    t: Seq<char>,
    head: Seq<char>,
    list: Seq<char>,
    tail: Seq<char>,
    line: Seq<char>,
    x: Seq<char>,
)
    requires
        t == head + list + tail,
        text::has(list, line),
        text::has(line, x),
    ensures
        text::has(t, x),
{
    let k = choose|k: int| text::at(list, line, k);
    let a = list.take(k);
    let b = list.skip(k + line.len());
    assert(list =~= a + line + b);
    text::lemma_has_within(list, a, line, b, x);
    text::lemma_has_within(t, head, list, tail, x);
}

/// The models are read from the list under either name, each by its identifier
/// or else its name.
pub proof fn law_models_are_read(j: json::JsonText, v: Seq<json::JsonText>, m: json::JsonText, s: Seq<char>)
    ensures
        j.member_items("data"@) == Some(v) ==> models_in(j) == v,
        j.member("data"@) is None && j.member_items("models"@) == Some(v) ==> models_in(j) == v,
        j.member("data"@) is None && j.member("models"@) is None ==> models_in(j).len() == 0,
        m.member_text("id"@) == Some(s) ==> model_id(m) == s,
        m.member("id"@) is None && m.member_text("name"@) == Some(s) ==> model_id(m) == s,
{
}

/// A message costs a token for each four bytes that were begun, and a
/// conversation what its messages cost.
pub proof fn law_costs(v: Seq<json::JsonText>, m: json::JsonText, s: Seq<char>)
    ensures
        history_cost(Seq::empty()) == 0,
        history_cost(v.push(m)) == history_cost(v) + message_cost(m),
        m.member("content"@) == Some(json::JsonText::Text(s)) ==> text::utf8_len(s) <= 4
            * message_cost(m) < text::utf8_len(s) + 4,
        m.member("content"@) is None ==> message_cost(m) == 0,
{
    assert(v.push(m).drop_last() =~= v);
}

/// What is left of the budget is drawn as twenty blocks.
pub proof fn law_bars(c: char, d: char, n: nat)
    requires
        n <= 20,
    ensures
        (repeated(c, n) + repeated(d, (20 - n) as nat)).len() == 20,
        forall|i: int| 0 <= i < n ==> (#[trigger] repeated(c, n)[i]) == c,
{
}

/// The words that switch something on and off; any other shows how it stands.
pub proof fn law_toggles(rest: Seq<Seq<char>>)
    ensures
        rest.len() > 0 && (rest[0] == "on"@ || rest[0] == "enable"@) ==> toggled(rest) is On,
        rest.len() > 0 && (rest[0] == "off"@ || rest[0] == "disable"@) ==> toggled(rest) is Off,
        rest.len() == 0 ==> toggled(rest) is Show,
        rest.len() > 0 && rest[0] != "on"@ && rest[0] != "enable"@ && rest[0] != "off"@ && rest[0]
            != "disable"@ ==> toggled(rest) is Show,
{
    reveal_strlit("on");
    reveal_strlit("enable");
    reveal_strlit("off");
    reveal_strlit("disable");
    assert("on"@.len() == 2 && "enable"@.len() == 6 && "off"@.len() == 3 && "disable"@.len() == 7);
}

/// An evaluation is run where it can be; a suite that cannot, or that is not
/// known, is named.
pub proof fn law_evaluations_are_planned(rest: &Vec<String>, r: EvalPlan)
    requires
        call_ensures(plan_eval, (rest,), r),
    ensures
        rest@.len() == 0 ==> r is Classify,
        rest@.len() > 0 && rest@[0]@ == "classify_accuracy"@ ==> r is Classify,
        rest@.len() > 0 && rest@[0]@ != "classify_accuracy"@ ==> (r matches EvalPlan::Say(s)
            && text::has(s@, rest@[0]@)),
{
    let v = text::texts(rest@);
    assert(v.len() == rest@.len());
    if rest@.len() > 0 {
        assert(v[0] == rest@[0]@);
        text::law_affixes(
            v[0],
            "  Suite '"@,
            "' requires model integration.\n  Currently available offline: classify_accuracy.\n\n"@,
        );
        text::law_affixes(
            v[0],
            "  Unknown suite: "@,
            ". Available: classify_accuracy, tool_selection, response_quality\n\n"@,
        );
    }
}

/// What a session works with stands first in what is shown of it.
pub proof fn law_session_is_shown(
    name: Seq<char>,
    url: Seq<char>,
    n: nat,
    dir: Seq<char>,
    u: Usage,
    monitor: Option<Seq<char>>,
)
    ensures
        text::starts(
            stats_text(name, url, n, dir, u, monitor),
            "  Model:    "@ + name + "\n  Endpoint: "@ + url + "\n  History:  "@ + text::decimal(n),
        ),
{
    let a = "  Model:    "@ + name + "\n  Endpoint: "@ + url + "\n  History:  "@ + text::decimal(n);
    let t = stats_text(name, url, n, dir, u, monitor);
    assert(t.subrange(0, a.len() as int) =~= a);
}

/// The tokens of a session are shown, those in, those out and all of them.
pub proof fn law_tokens_are_shown(
    name: Seq<char>,
    url: Seq<char>,
    n: nat,
    dir: Seq<char>,
    u: Usage,
    monitor: Option<Seq<char>>,
)
    ensures
        text::has(
            stats_text(name, url, n, dir, u, monitor),
            text::decimal(u.prompt as nat) + " prompt + "@ + text::decimal(u.completion as nat)
                + " completion = "@ + text::decimal(u.total as nat) + " total\n"@,
        ),
{
    let x = text::decimal(u.prompt as nat) + " prompt + "@ + text::decimal(u.completion as nat)
        + " completion = "@ + text::decimal(u.total as nat) + " total\n"@;
    let a = "  Model:    "@ + name + "\n  Endpoint: "@ + url + "\n  History:  "@ + text::decimal(n)
        + " messages\n  Dir:      "@ + dir + "\n  Tokens:   "@;
    let t = stats_text(name, url, n, dir, u, monitor);
    let k = a.len() as int;
    assert(t.subrange(k, k + x.len()) =~= x);
    assert(text::at(t, x, k));
}

/// Compacting by hand keeps the last six messages of a long conversation, and
/// all of a short one.
pub proof fn law_compacting_by_hand<T>()
    ensures
        forall|h: &mut Vec<T>, r: String| #[trigger]
            call_ensures(cmd_compact::<T>, (h,), r) ==> (h@.len() <= 10 ==> final(h)@ == h@) && (h@.len()
                > 10 ==> final(h)@.len() == 6 && final(h)@ == h@.subrange(
                h@.len() - 6,
                h@.len() as int,
            )),
{
    assert forall|h: &mut Vec<T>, r: String| #[trigger]
        call_ensures(cmd_compact::<T>, (h,), r) implies (h@.len() <= 10 ==> final(h)@ == h@) && (
    h@.len() > 10 ==> final(h)@.len() == 6 && final(h)@ == h@.subrange(
        h@.len() - 6,
        h@.len() as int,
    )) by {
        if h@.len() > 10 {
            assert(h@.skip(h@.len() - 6) =~= h@.subrange(h@.len() - 6, h@.len() as int));
        }
    }
}

/// Switching the model, or the endpoint, changes it to what is named and leaves
/// the other settings.
pub proof fn law_switching()
    ensures
        forall|c: &mut Config, rest: &Vec<String>, r: String| #[trigger]
            call_ensures(switch_model, (c, rest), r) && rest@.len() > 0 ==> final(c).model.name@
                == text::join(text::texts(rest@), " "@) && final(c).model.base_url
                == c.model.base_url && final(c).tools == c.tools && final(c).context == c.context,
        forall|c: &mut Config, rest: &Vec<String>, r: String| #[trigger]
            call_ensures(cmd_endpoint, (c, rest), r) ==> (rest@.len() > 0
                ==> final(c).model.base_url@ == rest@[0]@ && final(c).model.name == c.model.name) && (
            rest@.len() == 0 ==> *final(c) == *c) && final(c).tools == c.tools,
{
    assert forall|c: &mut Config, rest: &Vec<String>, r: String| #[trigger]
        call_ensures(switch_model, (c, rest), r) && rest@.len() > 0 implies final(c).model.name@
        == text::join(text::texts(rest@), " "@) && final(c).model.base_url == c.model.base_url
        && final(c).tools == c.tools && final(c).context == c.context by {
        let v = text::texts(rest@);
        assert(v.len() == rest@.len());
        assert(v.skip(0) =~= v);
    }
    assert forall|c: &mut Config, rest: &Vec<String>, r: String| #[trigger]
        call_ensures(cmd_endpoint, (c, rest), r) implies (rest@.len() > 0
        ==> final(c).model.base_url@ == rest@[0]@ && final(c).model.name == c.model.name) && (
    rest@.len() == 0 ==> *final(c) == *c) && final(c).tools == c.tools by {
        let v = text::texts(rest@);
        assert(v.len() == rest@.len());
        if rest@.len() > 0 {
            assert(v[0] == rest@[0]@);
        }
    }
}

} // verus!
