//! How the agent is started, and the small decisions around its turns.

use vstd::prelude::*;

use crate::agent::history;
use crate::agent::history::Message;
use crate::agent::tools;
use crate::agent::turn;
use crate::config::{Config, Flags};
use crate::config;
use crate::evals;
use crate::evals::SuiteResult;
use crate::json;
use crate::json::Json;
use crate::text;

verus! {

// ---------------------------------------------------------------------------
// The command line
// ---------------------------------------------------------------------------

/// Settings that the command line changes.
#[derive(Debug)]
pub struct Overrides {
    pub second_opinion_model: Option<String>,
    pub second_opinion_endpoint: Option<String>,
    pub auto_approve: bool,
    pub max_tool_calls_per_turn: Option<u32>,
    pub max_output_tokens: Option<u32>,
    pub thinking_budget: Option<u32>,
    pub request_timeout_ms: Option<u64>,
    pub bash_timeout: Option<u32>,
    pub tool_routing: Option<String>,
    pub allow_outside_paths: Option<bool>,
    pub web_browse: Option<bool>,
    pub shell_persist: Option<bool>,
}

/// A value, or another one where there is none.
pub open spec fn or<A>(o: Option<A>, default: A) -> A {
    match o {
        Some(x) => x,
        None => default,
    }
}

/// The settings after the command line changed some others.
pub open spec fn overridden(base: Config, o: Overrides) -> Config {
    Config {
        second_opinion: config::SecondOpinionConfig {
            model: if o.second_opinion_model is Some {
                o.second_opinion_model
            } else {
                base.second_opinion.model
            },
            endpoint: if o.second_opinion_endpoint is Some {
                o.second_opinion_endpoint
            } else {
                base.second_opinion.endpoint
            },
        },
        limits: config::LimitsConfig {
            max_tool_calls_per_turn: or(
                o.max_tool_calls_per_turn,
                base.limits.max_tool_calls_per_turn,
            ),
            max_output_tokens: or(o.max_output_tokens, base.limits.max_output_tokens),
            request_timeout_ms: or(o.request_timeout_ms, base.limits.request_timeout_ms),
        },
        tools: config::ToolsConfig {
            bash_timeout: or(o.bash_timeout, base.tools.bash_timeout),
            tool_routing: or(o.tool_routing, base.tools.tool_routing),
            shell_persist: or(o.shell_persist, base.tools.shell_persist),
            web_browse: or(o.web_browse, base.tools.web_browse),
            ..base.tools
        },
        tui: config::TuiConfig {
            auto_approve: o.auto_approve || base.tui.auto_approve,
            ..base.tui
        },
        security: config::SecurityConfig {
            allow_outside_paths: or(o.allow_outside_paths, base.security.allow_outside_paths),
            ..base.security
        },
        features: config::FeaturesConfig {
            thinking_budget: or(o.thinking_budget, base.features.thinking_budget),
            ..base.features
        },
        ..base
    }
}

fn over_u32(slot: &mut u32, o: Option<u32>)
    ensures
        *final(slot) == or(o, *old(slot)),
{
    match o {
        Some(n) => {
            *slot = n;
        },
        None => {},
    }
}

fn over_bool(slot: &mut bool, o: Option<bool>)
    ensures
        *final(slot) == or(o, *old(slot)),
{
    match o {
        Some(b) => {
            *slot = b;
        },
        None => {},
    }
}

fn over_text(slot: &mut Option<String>, o: &Option<String>)
    ensures
        *final(slot) == (if *o is Some {
            *o
        } else {
            *old(slot)
        }),
{
    match o {
        Some(s) => {
            *slot = Some(s.clone());
        },
        None => {},
    }
}

fn over_tools(tools: &mut config::ToolsConfig, o: &Overrides)
    ensures
        *final(tools) == (config::ToolsConfig {
            bash_timeout: or(o.bash_timeout, old(tools).bash_timeout),
            tool_routing: or(o.tool_routing, old(tools).tool_routing),
            shell_persist: or(o.shell_persist, old(tools).shell_persist),
            web_browse: or(o.web_browse, old(tools).web_browse),
            ..*old(tools)
        }),
{
    over_u32(&mut tools.bash_timeout, o.bash_timeout);
    match &o.tool_routing {
        Some(s) => {
            tools.tool_routing = s.clone();
        },
        None => {},
    }
    over_bool(&mut tools.shell_persist, o.shell_persist);
    over_bool(&mut tools.web_browse, o.web_browse);
}

fn over_limits(limits: &mut config::LimitsConfig, o: &Overrides)
    ensures
        *final(limits) == (config::LimitsConfig {
            max_tool_calls_per_turn: or(
                o.max_tool_calls_per_turn,
                old(limits).max_tool_calls_per_turn,
            ),
            max_output_tokens: or(o.max_output_tokens, old(limits).max_output_tokens),
            request_timeout_ms: or(o.request_timeout_ms, old(limits).request_timeout_ms),
        }),
{
    over_u32(&mut limits.max_tool_calls_per_turn, o.max_tool_calls_per_turn);
    over_u32(&mut limits.max_output_tokens, o.max_output_tokens);
    match o.request_timeout_ms {
        Some(n) => {
            limits.request_timeout_ms = n;
        },
        None => {},
    }
}

fn over_second(s: &mut config::SecondOpinionConfig, o: &Overrides)
    ensures
        *final(s) == (config::SecondOpinionConfig {
            model: if o.second_opinion_model is Some {
                o.second_opinion_model
            } else {
                old(s).model
            },
            endpoint: if o.second_opinion_endpoint is Some {
                o.second_opinion_endpoint
            } else {
                old(s).endpoint
            },
        }),
{
    over_text(&mut s.model, &o.second_opinion_model);
    over_text(&mut s.endpoint, &o.second_opinion_endpoint);
}

fn over_tui(t: &mut config::TuiConfig, o: &Overrides)
    ensures
        *final(t) == (config::TuiConfig {
            auto_approve: o.auto_approve || old(t).auto_approve,
            ..*old(t)
        }),
{
    if o.auto_approve {
        t.auto_approve = true;
    }
}

fn over_security(s: &mut config::SecurityConfig, o: &Overrides)
    ensures
        *final(s) == (config::SecurityConfig {
            allow_outside_paths: or(o.allow_outside_paths, old(s).allow_outside_paths),
            ..*old(s)
        }),
{
    over_bool(&mut s.allow_outside_paths, o.allow_outside_paths);
}

fn over_features(f: &mut config::FeaturesConfig, o: &Overrides)
    ensures
        *final(f) == (config::FeaturesConfig {
            thinking_budget: or(o.thinking_budget, old(f).thinking_budget),
            ..*old(f)
        }),
{
    over_u32(&mut f.thinking_budget, o.thinking_budget);
}

/// Changes settings as the command line asks.
pub fn apply_overrides(c: &mut Config, o: &Overrides)
    ensures
        *final(c) == overridden(*old(c), *o),
{
    over_second(&mut c.second_opinion, o);
    over_limits(&mut c.limits, o);
    over_tools(&mut c.tools, o);
    over_tui(&mut c.tui, o);
    over_security(&mut c.security, o);
    over_features(&mut c.features, o);
}

/// A setting by its name: what stands before and behind the first equals sign.
pub open spec fn setting_in(entry: Seq<char>) -> Option<(Seq<char>, Seq<char>)> {
    match text::first_at(entry, "="@, 0) {
        Some(i) => Some((text::trimmed(entry.take(i)), text::trimmed(entry.skip(i + 1)))),
        None => None,
    }
}

/// A setting by its name, or what is wrong with it.
pub fn read_setting(entry: &str) -> (r: Result<(String, String), String>)
    ensures
        match setting_in(entry@) {
            Some((k, v)) => r matches Ok(p) && p.0@ == k && p.1@ == v,
            None => r matches Err(e) && e@ == "  ✗ --set expects `key=value`, got `"@ + entry@
                + "`"@,
        },
{
    proof {
        reveal_strlit("=");
        text::lemma_first_at(entry@, "="@, 0);
    }
    let v = text::chars(entry);
    let p = text::chars("=");
    match text::find_from(&v, &p, 0) {
        Some(i) => {
            let n: usize = v.len();
            let a = text::string_of(&v, 0, i);
            let b = text::string_of(&v, i + 1, n);
            assert(a@ =~= entry@.take(i as int));
            assert(b@ =~= entry@.skip(i + 1));
            Ok((text::trim(&a), text::trim(&b)))
        },
        None => Err(text::cat3("  ✗ --set expects `key=value`, got `", entry, "`")),
    }
}

/// The flags that change the settings of a file.
pub fn flags_of(
    model: Option<String>,
    provider: Option<String>,
    endpoint: Option<String>,
    classic: bool,
    verbose: bool,
) -> (r: Flags)
    ensures
        r == (Flags { model, provider, endpoint, base_url: endpoint, classic, verbose }),
{
    let base_url = config::copy_text(&endpoint);
    Flags { model, provider, endpoint, base_url, classic, verbose }
}

/// How the agent is run.
#[derive(Debug)]
pub enum Mode {
    /// As a server for other tools.
    Server,
    /// With one prompt, or what comes from the input.
    Single(Option<String>),
    Fullscreen,
    Classic,
}

pub ghost enum ModeText {
    Server,
    Single(Option<Seq<char>>),
    Fullscreen,
    Classic,
}

impl View for Mode {
    type V = ModeText;

    open spec fn view(&self) -> ModeText {
        match self {
            Mode::Server => ModeText::Server,
            Mode::Single(p) => ModeText::Single(text::opt_text(*p)),
            Mode::Fullscreen => ModeText::Fullscreen,
            Mode::Classic => ModeText::Classic,
        }
    }
}

/// The prompt of the command line: the one that is named, or else the words
/// that are left over.
pub open spec fn prompt_in(prompt: Option<Seq<char>>, words: Seq<Seq<char>>) -> Option<Seq<char>> {
    match prompt {
        Some(p) => Some(p),
        None => {
            let all = text::join(words, " "@);
            if text::trimmed(all).len() == 0 {
                None
            } else {
                Some(all)
            }
        },
    }
}

/// How the agent is run.
pub open spec fn mode(
    server: bool,
    single: bool,
    prompt: Option<Seq<char>>,
    classic: bool,
    terminal: bool,
) -> ModeText {
    if server {
        ModeText::Server
    } else if single || prompt is Some {
        ModeText::Single(prompt)
    } else if !classic && terminal {
        ModeText::Fullscreen
    } else {
        ModeText::Classic
    }
}

/// How the agent is run, by the command line and whether there is a terminal.
pub fn choose_mode(
    server: bool,
    single: bool,
    prompt: Option<String>,
    words: &Vec<String>,
    classic: bool,
    terminal: bool,
) -> (r: Mode)
    ensures
        r@ == mode(
            server,
            single,
            prompt_in(text::opt_text(prompt), text::texts(words@)),
            classic,
            terminal,
        ),
{
    let prompt = match prompt {
        Some(p) => Some(p),
        None => {
            let all = text::join_with(words, " ");
            let bare = text::trim(&all);
            if bare.as_str().is_empty() {
                None
            } else {
                Some(all)
            }
        },
    };
    if server {
        Mode::Server
    } else if single || prompt.is_some() {
        Mode::Single(prompt)
    } else if !classic && terminal {
        Mode::Fullscreen
    } else {
        Mode::Classic
    }
}

/// Whether the setup is run first: when it is asked for, or at the first start
/// with someone to ask.
pub fn runs_setup(asked: bool, first: bool, scripted: bool, terminal: bool) -> (r: bool)
    ensures
        r == (asked || (first && !scripted && terminal)),
{
    asked || (first && !scripted && terminal)
}

/// The prompt of a single run: the one that is given, or what the input holds;
/// nothing when that is blank.
pub fn single_prompt(prompt: Option<String>, input: &str) -> (r: Option<String>)
    ensures
        text::opt_text(r) == match text::opt_text(prompt) {
            Some(p) => if p.len() > 0 {
                Some(p)
            } else if text::trimmed(input@).len() > 0 {
                Some(text::trimmed(input@))
            } else {
                None
            },
            None => if text::trimmed(input@).len() > 0 {
                Some(text::trimmed(input@))
            } else {
                None
            },
        },
{
    match prompt {
        Some(p) => {
            if !p.as_str().is_empty() {
                return Some(p);
            }
        },
        None => {},
    }
    let bare = text::trim(input);
    if bare.as_str().is_empty() {
        None
    } else {
        Some(bare)
    }
}

// ---------------------------------------------------------------------------
// The line at which one types
// ---------------------------------------------------------------------------

/// What becomes of a line.
#[derive(Debug)]
pub enum LineStep {
    Skip,
    Quit,
    Command(String),
    Turn(String),
}

pub ghost enum LinePlan {
    Skip,
    Quit,
    Command(Seq<char>),
    Turn(Seq<char>),
}

impl View for LineStep {
    type V = LinePlan;

    open spec fn view(&self) -> LinePlan {
        match self {
            LineStep::Skip => LinePlan::Skip,
            LineStep::Quit => LinePlan::Quit,
            LineStep::Command(s) => LinePlan::Command(s@),
            LineStep::Turn(s) => LinePlan::Turn(s@),
        }
    }
}

/// What becomes of a line. An interruption with nothing typed ends the session.
pub open spec fn line_plan(input: Seq<char>, interrupted: bool) -> LinePlan {
    let line = text::stripped_end(input, "\n"@);
    if interrupted && text::trimmed(input).len() == 0 {
        LinePlan::Quit
    } else if line.len() == 0 {
        LinePlan::Skip
    } else if text::starts(line, "/"@) {
        LinePlan::Command(line)
    } else {
        LinePlan::Turn(line)
    }
}

/// What becomes of a line.
pub fn plan_line(input: &str, interrupted: bool) -> (r: LineStep)
    ensures
        r@ == line_plan(input@, interrupted),
{
    let bare = text::trim(input);
    if interrupted && bare.as_str().is_empty() {
        return LineStep::Quit;
    }
    let line = text::trim_end_set(input, "\n");
    if line.as_str().is_empty() {
        LineStep::Skip
    } else if text::starts_with(&line, "/") {
        LineStep::Command(line)
    } else {
        LineStep::Turn(line)
    }
}

// ---------------------------------------------------------------------------
// Answers of models and servers
// ---------------------------------------------------------------------------

/// Where a server is asked for its properties.
pub open spec fn props_url(base_url: Seq<char>) -> Seq<char> {
    let bare = text::stripped_end(base_url, "/"@);
    (match text::without_suffix(bare, "/v1"@) {
        Some(root) => root,
        None => bare,
    }) + "/props"@
}

/// Where a server is asked for its properties.
pub fn probe_url(base_url: &str) -> (r: String)
    ensures
        r@ == props_url(base_url@),
{
    let bare = text::trim_end_set(base_url, "/");
    let root = match text::strip_suffix(&bare, "/v1") {
        Some(r) => r,
        None => bare,
    };
    text::cat2(&root, "/props")
}

/// The context window that the properties of a server tell of, in thirty-two
/// bits.
pub fn window_of(props: &Json) -> (r: Option<u32>)
    ensures
        match json::pointed(props@, "default_generation_settings/n_ctx"@) {
            Some(j) => match j.unsigned() {
                Some(n) => r == Some((n % 0x1_0000_0000) as u32),
                None => r is None,
            },
            None => r is None,
        },
{
    match props.pointer("default_generation_settings/n_ctx") {
        Some(j) => match j.as_u64() {
            Some(n) => Some((n % 0x1_0000_0000) as u32),
            None => None,
        },
        None => None,
    }
}

/// What an answer used: tokens of the prompt, and of the reply.
pub open spec fn usage_in(answer: json::JsonText) -> Option<(u64, u64)> {
    match answer.member("usage"@) {
        Some(u) => Some(
            (
                or(u.member_unsigned("prompt_tokens"@), 0),
                or(u.member_unsigned("completion_tokens"@), 0),
            ),
        ),
        None => None,
    }
}

/// What an answer used.
pub fn record_usage(answer: &Json) -> (r: Option<(u64, u64)>)
    ensures
        r == usage_in(answer@),
{
    match answer.get("usage") {
        Some(u) => {
            let a: u64 = match u.get_u64("prompt_tokens") {
                Some(n) => n,
                None => 0,
            };
            let b: u64 = match u.get_u64("completion_tokens") {
                Some(n) => n,
                None => 0,
            };
            Some((a, b))
        },
        None => None,
    }
}

/// The first tool that an answer calls.
pub open spec fn first_tool(answer: json::JsonText) -> Option<Seq<char>> {
    match json::pointed(answer, "choices/0/message/tool_calls/0/function/name"@) {
        Some(j) => j.text(),
        None => None,
    }
}

/// The first tool that an answer calls.
pub fn first_tool_of(answer: &Json) -> (r: Option<String>)
    ensures
        text::opt_text(r) == first_tool(answer@),
{
    match answer.pointer("choices/0/message/tool_calls/0/function/name") {
        Some(j) => j.as_str(),
        None => None,
    }
}

/// The code with which a run of a suite ends: by whether all cases passed, or
/// two when there is no such suite.
pub fn eval_exit_code(result: &Option<SuiteResult>) -> (r: i32)
    ensures
        r == match *result {
            Some(s) => if s.failed > 0 {
                1i32
            } else {
                0i32
            },
            None => 2i32,
        },
{
    match result {
        Some(s) => if s.failed > 0 {
            1
        } else {
            0
        },
        None => 2,
    }
}

// ---------------------------------------------------------------------------
// Showing what a tool did
// ---------------------------------------------------------------------------

/// How what a tool did is shown.
#[derive(Debug)]
pub enum ToolReport {
    Error(String),
    Created { path: String, lines: u32 },
    Updated { path: String, lines: u32 },
    Edited { path: String, line: u32 },
    Command(String),
    /// All that it said.
    Output(String),
    /// It worked; this is all that is said of it.
    Success(String),
}

pub ghost enum ReportText {
    Error(Seq<char>),
    Created { path: Seq<char>, lines: u32 },
    Updated { path: Seq<char>, lines: u32 },
    Edited { path: Seq<char>, line: u32 },
    Command(Seq<char>),
    Output(Seq<char>),
    Success(Seq<char>),
}

impl View for ToolReport {
    type V = ReportText;

    open spec fn view(&self) -> ReportText {
        match self {
            ToolReport::Error(s) => ReportText::Error(s@),
            ToolReport::Created { path, lines } => ReportText::Created {
                path: path@,
                lines: *lines,
            },
            ToolReport::Updated { path, lines } => ReportText::Updated {
                path: path@,
                lines: *lines,
            },
            ToolReport::Edited { path, line } => ReportText::Edited { path: path@, line: *line },
            ToolReport::Command(s) => ReportText::Command(s@),
            ToolReport::Output(s) => ReportText::Output(s@),
            ToolReport::Success(s) => ReportText::Success(s@),
        }
    }
}

/// A count under a name, in thirty-two bits.
pub open spec fn short_count(j: json::JsonText, key: Seq<char>) -> u32 {
    (or(j.member_unsigned(key), 0) % 0x1_0000_0000) as u32
}

/// The first line of what a tool said, in short.
pub open spec fn gist(s: Seq<char>) -> Seq<char> {
    let first = if text::lines(s).len() > 0 {
        text::lines(s)[0]
    } else {
        s
    };
    tools::shortened(text::stripped_end(first, ":"@), 80)
}

/// How what a tool did is shown.
pub open spec fn report(name: Seq<char>, result: json::JsonText, verbose: bool) -> ReportText {
    if result.member_text("error"@) is Some {
        ReportText::Error(result.member_text("error"@)->0)
    } else if result.member_text("action"@) is Some {
        let action = result.member_text("action"@)->0;
        let path = result.member_text_or("path"@, ""@);
        if action == "Created"@ {
            ReportText::Created { path, lines: short_count(result, "lines"@) }
        } else if action == "Updated"@ {
            ReportText::Updated { path, lines: short_count(result, "lines"@) }
        } else if action == "Edited"@ {
            ReportText::Edited { path, line: short_count(result, "line"@) }
        } else {
            ReportText::Success(name)
        }
    } else if result.member_text("command"@) is Some {
        ReportText::Command(result.member_text("command"@)->0)
    } else if result.member_text("result"@) is Some {
        let out = result.member_text("result"@)->0;
        if verbose {
            ReportText::Output(out)
        } else {
            ReportText::Success(gist(out))
        }
    } else {
        ReportText::Success(""@)
    }
}

fn count_of(j: &Json, key: &str) -> (r: u32)
    ensures
        r == short_count(j@, key@),
{
    let n: u64 = match j.get_u64(key) {
        Some(n) => n,
        None => 0,
    };
    (n % 0x1_0000_0000) as u32
}

fn gist_of(s: &str) -> (r: String)
    ensures
        r@ == gist(s@),
{
    let lines = text::lines_of(s);
    assert(text::texts(lines@).len() == lines@.len());
    let first: String = if lines.len() > 0 {
        assert(text::texts(lines@)[0] == lines@[0]@);
        lines[0].clone()
    } else {
        s.to_owned()
    };
    let bare = text::trim_end_set(&first, ":");
    tools::truncate_short(&bare, 80)
}

/// How what a tool did is shown: its error, or the file that it changed, or the
/// command that it ran, or what it said.
pub fn report_tool(name: &str, result: &Json, verbose: bool) -> (r: ToolReport)
    ensures
        r@ == report(name@, result@, verbose),
{
    match result.get_str("error") {
        Some(e) => {
            return ToolReport::Error(e);
        },
        None => {},
    }
    match result.get_str("action") {
        Some(action) => {
            let path = result.get_str_or("path", "");
            if text::same(&action, "Created") {
                return ToolReport::Created { path, lines: count_of(result, "lines") };
            } else if text::same(&action, "Updated") {
                return ToolReport::Updated { path, lines: count_of(result, "lines") };
            } else if text::same(&action, "Edited") {
                return ToolReport::Edited { path, line: count_of(result, "line") };
            } else {
                return ToolReport::Success(name.to_owned());
            }
        },
        None => {},
    }
    match result.get_str("command") {
        Some(c) => {
            return ToolReport::Command(c);
        },
        None => {},
    }
    match result.get_str("result") {
        Some(out) => {
            if verbose {
                ToolReport::Output(out)
            } else {
                ToolReport::Success(gist_of(&out))
            }
        },
        None => ToolReport::Success("".to_owned()),
    }
}

/// An error is never shown as a success.
pub proof fn law_errors_are_shown(name: Seq<char>, result: json::JsonText, verbose: bool)
    ensures
        (result.member_text("error"@) is Some) == (report(name, result, verbose) is Error),
{
}

/// What the user is told of a commit.
pub fn commit_line(message: &str) -> (r: String)
    ensures
        r@ == "  \x1b[32m✓ git commit: "@ + tools::shortened(message@, 60) + "\x1b[0m"@,
{
    let short = tools::truncate_short(message, 60);
    text::cat3("  \x1b[32m✓ git commit: ", &short, "\x1b[0m")
}

// ---------------------------------------------------------------------------
// Knowledge
// ---------------------------------------------------------------------------

/// How many tokens the documents of a project may take: a twenty-fifth of the
/// context window, within bounds.
pub open spec fn knowledge_tokens(window: u32) -> u32 {
    if window / 25 < 200 {
        200
    } else if window / 25 > 1500 {
        1500
    } else {
        window / 25
    }
}

/// What is looked for in the documents of a project, and how many tokens they
/// may take.
pub fn knowledge_query(h: &Vec<Message>, window: u32) -> (r: Option<(String, u32)>)
    ensures
        match turn::latest_text(history::messages(h@), "user"@) {
            Some(q) => r matches Some(p) && p.0@ == q && p.1 == knowledge_tokens(window),
            None => r is None,
        },
{
    match turn::latest_text_of(h, "user") {
        Some(q) => {
            let n: u32 = window / 25;
            let tokens: u32 = if n < 200 {
                200
            } else if n > 1500 {
                1500
            } else {
                n
            };
            Some((q, tokens))
        },
        None => None,
    }
}

/// The head of what is printed before a suite, or why it is not run.
pub fn eval_head(suite: &str) -> (r: Result<String, String>)
    ensures
        if suite@ == "classify_accuracy"@ || suite@ == "tool_selection"@ || suite@
            == "response_quality"@ {
            r matches Ok(s) && s@ == "\n  Running evaluation: "@ + suite@ + "\n"@
        } else {
            r matches Err(e) && e@ == "  \x1b[31m✗ "@ + ("Unknown suite: "@ + suite@
                + ". Available: classify_accuracy, tool_selection, response_quality"@)
                + "\x1b[0m"@
        },
{
    match evals::known_suite(suite) {
        Ok(name) => Ok(text::cat3("\n  Running evaluation: ", name, "\n")),
        Err(e) => Err(text::cat3("  \x1b[31m✗ ", &e, "\x1b[0m")),
    }
}

/// What the command line sets goes before what is configured, and what it does
/// not set stays.
pub proof fn law_overrides(base: Config, o: Overrides)
    ensures
        ({
            let c = overridden(base, o);
            &&& o.max_tool_calls_per_turn matches Some(n) ==> c.limits.max_tool_calls_per_turn == n
            &&& o.max_tool_calls_per_turn is None ==> c.limits.max_tool_calls_per_turn
                == base.limits.max_tool_calls_per_turn
            &&& o.max_output_tokens matches Some(n) ==> c.limits.max_output_tokens == n
            &&& o.request_timeout_ms matches Some(n) ==> c.limits.request_timeout_ms == n
            &&& o.bash_timeout matches Some(n) ==> c.tools.bash_timeout == n
            &&& o.bash_timeout is None ==> c.tools.bash_timeout == base.tools.bash_timeout
            &&& o.tool_routing matches Some(s) ==> c.tools.tool_routing == s
            &&& o.shell_persist matches Some(b) ==> c.tools.shell_persist == b
            &&& o.shell_persist is None ==> c.tools.shell_persist == base.tools.shell_persist
            &&& o.web_browse matches Some(b) ==> c.tools.web_browse == b
            &&& o.web_browse is None ==> c.tools.web_browse == base.tools.web_browse
            &&& o.allow_outside_paths matches Some(b) ==> c.security.allow_outside_paths == b
            &&& o.allow_outside_paths is None ==> c.security == base.security
            &&& o.thinking_budget matches Some(n) ==> c.features.thinking_budget == n
            &&& o.second_opinion_model matches Some(m) ==> c.second_opinion.model == Some(m)
            &&& o.second_opinion_model is None ==> c.second_opinion.model
                == base.second_opinion.model
            &&& o.second_opinion_endpoint matches Some(m) ==> c.second_opinion.endpoint == Some(m)
            &&& o.auto_approve ==> c.tui.auto_approve
            &&& !o.auto_approve ==> c.tui == base.tui
            &&& c.model == base.model && c.context == base.context && c.git == base.git
                && c.dedup == base.dedup
        }),
{
}

/// A setting is a name and a value on the two sides of the first equals sign,
/// without the white space around them.
pub proof fn law_settings(name: Seq<char>, value: Seq<char>, entry: Seq<char>)
    ensures
        !name.contains('=') ==> setting_in(name.push('=') + value) == Some(
            (text::trimmed(name), text::trimmed(value)),
        ),
        !entry.contains('=') ==> setting_in(entry) is None,
{
    reveal_strlit("=");
    let p = "="@;
    assert(p.len() == 1 && p[0] == '=');
    let e = name.push('=') + value;
    text::lemma_first_at(e, p, 0);
    text::lemma_first_at(entry, p, 0);
    if !name.contains('=') {
        let n = name.len() as int;
        assert(e[n] == '=');
        assert(e.subrange(n, n + 1) =~= p);
        assert(text::at(e, p, n));
        match text::first_at(e, p, 0) {
            Some(i) => {
                assert(e.subrange(i, i + 1)[0] == e[i]);
                if i < n {
                    assert(name[i] == e[i]);
                    assert(name.contains('='));
                }
                assert(i == n);
                assert(e.take(n) =~= name);
                assert(e.skip(n + 1) =~= value);
            },
            None => {},
        }
    }
    if !entry.contains('=') {
        match text::first_at(entry, p, 0) {
            Some(i) => {
                assert(entry.subrange(i, i + 1)[0] == entry[i]);
                assert(entry.contains('='));
            },
            None => {},
        }
    }
}

/// The server goes before all; a prompt, or the wish for one answer, means a
/// single turn; else the screen is taken where there is one.
pub proof fn law_modes(single: bool, p: Option<Seq<char>>, s: Seq<char>, classic: bool, terminal: bool)
    ensures
        mode(true, single, p, classic, terminal) is Server,
        mode(false, single, Some(s), classic, terminal) == ModeText::Single(Some(s)),
        mode(false, true, p, classic, terminal) == ModeText::Single(p),
        mode(false, false, None, false, true) is Fullscreen,
        mode(false, false, None, true, terminal) is Classic,
        mode(false, false, None, classic, false) is Classic,
{
}

/// A prompt is taken as it is given, or else the words of the command line are,
/// with blanks between them; words that say nothing are none.
pub proof fn law_prompts(s: Seq<char>, words: Seq<Seq<char>>, a: Seq<char>, b: Seq<char>)
    ensures
        prompt_in(Some(s), words) == Some(s),
        prompt_in(None, Seq::empty()) is None,
        text::trimmed(a + " "@ + b).len() > 0 ==> prompt_in(None, seq![a, b]) == Some(a + " "@ + b),
        text::trimmed(text::join(words, " "@)).len() == 0 ==> prompt_in(None, words) is None,
{
    reveal_with_fuel(text::join, 3);
    assert(text::join(seq![a, b], " "@) =~= a + " "@ + b) by {
        assert(seq![a, b].drop_last() =~= seq![a]);
    }
    text::law_trimmed(Seq::empty());
    assert(text::join(Seq::empty(), " "@) =~= Seq::<char>::empty());
}

/// A line that starts with a slash is a command, an empty one is passed over,
/// and any other is said; the end of the input, and an interruption with nothing
/// written, end the session.
pub proof fn law_lines(line: Seq<char>, interrupted: bool)
    requires
        line.len() > 0,
        line.last() != '\n',
        text::trimmed(line.push('\n')).len() > 0,
    ensures
        line[0] == '/' ==> line_plan(line.push('\n'), interrupted) == LinePlan::Command(line),
        line[0] != '/' ==> line_plan(line.push('\n'), interrupted) == LinePlan::Turn(line),
        line_plan(seq!['\n'], false) is Skip,
        line_plan(Seq::empty(), true) is Quit,
{
    reveal_strlit("\n");
    reveal_strlit("/");
    let set = "\n"@;
    assert(set.len() == 1 && set[0] == '\n' && set.contains('\n'));
    assert(!set.contains(line.last())) by {
        if set.contains(line.last()) {
            let k = choose|k: int| 0 <= k < set.len() && set[k] == line.last();
        }
    }
    text::law_stripped(line, set, '\n');
    assert(text::stripped_end(line, set) == line);
    text::law_stripped(Seq::empty(), set, '\n');
    assert(Seq::<char>::empty().push('\n') =~= seq!['\n']);
    assert(line.subrange(0, 1)[0] == line[0]);
    if line[0] == '/' {
        assert(line.subrange(0, 1) =~= "/"@);
    }
    assert("/"@.len() == 1 && "/"@[0] == '/');
    text::law_trimmed(Seq::empty());
}

/// The server's properties stand beside the protocol's address.
pub proof fn law_property_addresses(root: Seq<char>)
    requires
        root.len() > 0,
        root.last() != '/',
        !text::ends(root, "/v1"@),
    ensures
        props_url(root) == root + "/props"@,
        props_url(root + "/v1"@) == root + "/props"@,
        props_url(root.push('/')) == root + "/props"@,
{
    reveal_strlit("/");
    reveal_strlit("/v1");
    let set = "/"@;
    let v = "/v1"@;
    assert(set.len() == 1 && set[0] == '/' && set.contains('/'));
    assert(v.len() == 3 && v[2] == '1');
    assert forall|c: char| c != '/' implies !set.contains(c) by {
        if set.contains(c) {
            let k = choose|k: int| 0 <= k < set.len() && set[k] == c;
        }
    }
    text::law_stripped(root, set, '/');
    assert(text::stripped_end(root, set) == root);
    let r = root + v;
    assert(r.last() == '1');
    assert(text::stripped_end(r, set) == r);
    text::law_affixes(v, root, Seq::empty());
}

/// What a tool did is shown: an error before all, then what was made or changed,
/// then the command, then the output.
pub proof fn law_reports(name: Seq<char>, j: json::JsonText, verbose: bool, s: Seq<char>, p: Seq<char>)
    ensures
        j.member_text("error"@) == Some(s) ==> report(name, j, verbose) == ReportText::Error(s),
        j.member_text("error"@) is None && j.member_text("path"@) == Some(p) ==> {
            &&& j.member_text("action"@) == Some("Created"@) ==> (report(
                name,
                j,
                verbose,
            ) matches ReportText::Created { path, lines } && path == p)
            &&& j.member_text("action"@) == Some("Updated"@) ==> (report(
                name,
                j,
                verbose,
            ) matches ReportText::Updated { path, lines } && path == p)
            &&& j.member_text("action"@) == Some("Edited"@) ==> (report(
                name,
                j,
                verbose,
            ) matches ReportText::Edited { path, line } && path == p)
        },
        j.member_text("error"@) is None && j.member_text("action"@) is None && j.member_text(
            "command"@,
        ) == Some(s) ==> report(name, j, verbose) == ReportText::Command(s),
        j.member_text("error"@) is None && j.member_text("action"@) is None && j.member_text(
            "command"@,
        ) is None && j.member_text("result"@) == Some(s) ==> (verbose ==> report(name, j, verbose)
            == ReportText::Output(s)) && (!verbose ==> report(name, j, verbose) is Success),
        (j.member_unsigned("lines"@) matches Some(n) && n <= u32::MAX) ==> short_count(j, "lines"@)
            == j.member_unsigned("lines"@)->0,
{
    reveal_strlit("Created");
    reveal_strlit("Updated");
    reveal_strlit("Edited");
    assert("Created"@.len() == 7 && "Updated"@.len() == 7 && "Edited"@.len() == 6);
    assert("Created"@[0] == 'C' && "Updated"@[0] == 'U');
}

/// What an answer says of its tokens, and which tool it calls first.
pub proof fn law_answers_are_read(answer: json::JsonText, u: json::JsonText, a: u64, b: u64)
    ensures
        answer.member("usage"@) is None ==> usage_in(answer) is None,
        answer.member("usage"@) == Some(u) && u.member_unsigned("prompt_tokens"@) == Some(a)
            && u.member_unsigned("completion_tokens"@) == Some(b) ==> usage_in(answer) == Some((a, b)),
{
}

/// An evaluation ends well where nothing failed; one that could not be run ends
/// otherwise.
pub proof fn law_exit_codes(result: &Option<SuiteResult>, r: i32)
    requires
        call_ensures(eval_exit_code, (result,), r),
    ensures
        *result matches Some(s) ==> (s.failed == 0 ==> r == 0) && (s.failed > 0 ==> r == 1),
        *result is None ==> r == 2,
{
}

/// A single turn takes the prompt, or else what was piped in; setting up is done
/// when it is asked for, or at the first start before a person.
pub proof fn law_starts(
    prompt: Option<String>,
    input: &str,
    r: Option<String>,
    asked: bool,
    first: bool,
    scripted: bool,
    terminal: bool,
    b: bool,
)
    requires
        call_ensures(single_prompt, (prompt, input), r),
        call_ensures(runs_setup, (asked, first, scripted, terminal), b),
    ensures
        prompt matches Some(p) ==> (p@.len() > 0 ==> (r matches Some(s) && s@ == p@)),
        prompt is None && text::trimmed(input@).len() > 0 ==> (r matches Some(s) && s@
            == text::trimmed(input@)),
        prompt is None && text::trimmed(input@).len() == 0 ==> r is None,
        asked ==> b,
        !asked && !first ==> !b,
        !asked && scripted ==> !b,
        !asked && !terminal ==> !b,
        first && !scripted && terminal ==> b,
{
}

/// What is looked up grows with the window, between two hundred and fifteen
/// hundred tokens.
pub proof fn law_knowledge(a: u32, b: u32)
    requires
        a <= b,
    ensures
        200 <= knowledge_tokens(a) <= knowledge_tokens(b) <= 1500,
        5000 <= a <= 37_500 ==> knowledge_tokens(a) == a / 25,
{
}

} // verus!
