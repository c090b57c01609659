//! The evaluator: an independent check of a finished contract, with its own
//! conversation and its own few tools.

use vstd::prelude::*;

use crate::agent::history::{Message, ToolCall};
use crate::agent::history;
use crate::json;
use crate::json::Json;
use crate::outside;
use crate::text;

verus! {

/// How many replies the evaluator gets.
pub const MAX_TURNS: u32 = 50;

pub const PROMPT_HEAD: &'static str =
    "You are an adversarial evaluator. A code generator claimed to have completed the \
     following task — your job is to independently verify whether it actually did.\n\n\
     TASK:\n";

pub const PROMPT_TAIL: &'static str =
    "\n\n\
     You have no knowledge of what the generator did or claimed. Devise your own \
     verification strategy from the task description alone. Use `bash` to run commands \
     and observe real output. Use `read_file` to inspect files.\n\n\
     When you have enough evidence, call `evaluator_verdict` with:\n\
     - passed=true if the task is genuinely complete\n\
     - passed=false + findings describing what is wrong or missing\n\n\
     Be terse and direct. If the first check reveals a clear failure, call \
     evaluator_verdict immediately.";

/// The system prompt of the evaluator.
pub open spec fn prompt(task: Seq<char>, cwd: Seq<char>) -> Seq<char> {
    PROMPT_HEAD@ + task + "\n\nWorking directory: "@ + cwd + PROMPT_TAIL@
}

pub fn evaluator_prompt(task: &str, cwd: &str) -> (r: String)
    ensures
        r@ == prompt(task@, cwd@),
{
    let mut s: String = PROMPT_HEAD.to_owned();
    s.push_str(task);
    s.push_str("\n\nWorking directory: ");
    s.push_str(cwd);
    s.push_str(PROMPT_TAIL);
    s
}

// ---------------------------------------------------------------------------
// Tool results
// ---------------------------------------------------------------------------

pub open spec fn bash_report(code: int, stdout: Seq<char>, stderr: Seq<char>) -> Seq<char> {
    let head = "exit_code="@ + text::decimal_int(code);
    let with_out = if stdout.len() > 0 {
        head + "\nstdout:\n"@ + text::trimmed_end(stdout)
    } else {
        head
    };
    let whole = if stderr.len() > 0 {
        with_out + "\nstderr:\n"@ + text::trimmed_end(stderr)
    } else {
        with_out
    };
    if text::utf8_len(whole) > 2000 {
        text::clip(whole, 2000) + "\n[output truncated]"@
    } else {
        whole
    }
}

/// What the evaluator sees of a command: its exit code and its output, held to
/// two thousand bytes.
pub fn format_bash_result(code: i32, stdout: &str, stderr: &str) -> (r: String)
    ensures
        r@ == bash_report(code as int, stdout@, stderr@),
{
    let mut s: String = "exit_code=".to_owned();
    s.push_str(&text::signed_number(code as i64));
    if !stdout.is_empty() {
        s.push_str("\nstdout:\n");
        s.push_str(&text::trim_end(stdout));
    }
    if !stderr.is_empty() {
        s.push_str("\nstderr:\n");
        s.push_str(&text::trim_end(stderr));
    }
    if text::byte_len(&s) > 2000 {
        let mut t = text::clip_bytes(&s, 2000);
        t.push_str("\n[output truncated]");
        t
    } else {
        s
    }
}

/// What the evaluator sees of a command that could not be run.
pub fn run_failed(reason: &str) -> (r: String)
    ensures
        r@ == "error: "@ + reason@,
{
    text::cat2("error: ", reason)
}

/// What the evaluator sees of a file that could not be read.
pub fn read_failed(path: &str, reason: &str) -> (r: String)
    ensures
        r@ == "error reading "@ + path@ + ": "@ + reason@,
{
    text::cat4("error reading ", path, ": ", reason)
}

pub open spec fn file_report(content: Seq<char>) -> Seq<char> {
    if text::utf8_len(content) > 3000 {
        text::clip(content, 3000) + "\n[file truncated at 3000 chars]"@
    } else {
        content
    }
}

/// What the evaluator sees of a file: at most three thousand bytes.
pub fn format_file_result(content: &str) -> (r: String)
    ensures
        r@ == file_report(content@),
{
    if text::byte_len(content) > 3000 {
        let mut t = text::clip_bytes(content, 3000);
        t.push_str("\n[file truncated at 3000 chars]");
        t
    } else {
        content.to_owned()
    }
}

// ---------------------------------------------------------------------------
// Verdicts
// ---------------------------------------------------------------------------

/// One line of the findings, without dashes in front and white space around.
pub open spec fn finding(line: Seq<char>) -> Seq<char> {
    text::trimmed(text::stripped_start(line, "-"@))
}

pub open spec fn findings_in(lines: Seq<Seq<char>>) -> Seq<Seq<char>>
    decreases lines.len(),
{
    if lines.len() == 0 {
        Seq::empty()
    } else {
        let before = findings_in(lines.drop_last());
        let f = finding(lines.last());
        if f.len() > 0 {
            before.push(f)
        } else {
            before
        }
    }
}

/// The findings that a verdict lists, one for each line that is not empty.
pub fn parse_findings(raw: &str) -> (r: Vec<String>)
    ensures
        text::texts(r@) == findings_in(text::lines(raw@)),
{
    let lines = text::lines_of(raw);
    let ghost all = text::texts(lines@);
    let mut r: Vec<String> = Vec::new();
    let mut i: usize = 0;
    assert(text::texts(r@) =~= findings_in(all.take(0)));
    while i < lines.len()
        invariant
            i <= lines.len(),
            all == text::texts(lines@),
            text::texts(r@) == findings_in(all.take(i as int)),
        decreases lines.len() - i,
    {
        assert(all.take(i + 1).drop_last() =~= all.take(i as int));
        assert(all.take(i + 1).last() == lines@[i as int]@);
        let bare = text::trim_start_set(&lines[i], "-");
        let f = text::trim(&bare);
        if !f.as_str().is_empty() {
            proof {
                text::lemma_texts_push(r@, f);
            }
            r.push(f);
        }
        i = i + 1;
    }
    assert(all.take(i as int) =~= all);
    r
}

/// What one of the evaluator's calls asks for.
#[derive(Debug)]
pub enum EvalCall {
    Bash { command: String },
    ReadFile { path: String },
    Verdict { passed: bool, findings: String },
    Other { name: String },
}

/// What is to be done about a call.
#[derive(Debug)]
pub enum EvalAction {
    /// Run a command and report it.
    Run(String),
    /// Read a file and report it.
    Read(String),
    /// Answer at once.
    Answer(String),
}

pub open spec fn verdict_reply(passed: bool) -> Seq<char> {
    "verdict recorded: passed="@ + (if passed {
        "true"@
    } else {
        "false"@
    })
}

pub open spec fn unavailable(name: Seq<char>) -> Seq<char> {
    "tool `"@ + name + "` not available in evaluator"@
}

/// What is to be done about a call: only commands and reads are run.
pub fn plan_call(c: &EvalCall) -> (r: EvalAction)
    ensures
        match c {
            EvalCall::Bash { command } => r matches EvalAction::Run(s) && s@ == command@,
            EvalCall::ReadFile { path } => r matches EvalAction::Read(s) && s@ == path@,
            EvalCall::Verdict { passed, findings } => r matches EvalAction::Answer(s) && s@
                == verdict_reply(*passed),
            EvalCall::Other { name } => r matches EvalAction::Answer(s) && s@ == unavailable(
                name@,
            ),
        },
{
    match c {
        EvalCall::Bash { command } => EvalAction::Run(command.clone()),
        EvalCall::ReadFile { path } => EvalAction::Read(path.clone()),
        EvalCall::Verdict { passed, findings: _ } => {
            let mut s: String = "verdict recorded: passed=".to_owned();
            if *passed {
                s.push_str("true");
            } else {
                s.push_str("false");
            }
            EvalAction::Answer(s)
        },
        EvalCall::Other { name } => {
            let mut s: String = "tool `".to_owned();
            s.push_str(name);
            s.push_str("` not available in evaluator");
            EvalAction::Answer(s)
        },
    }
}

/// The verdict of a reply's calls: the last one given, with its findings.
pub open spec fn last_verdict(calls: Seq<EvalCall>) -> Option<(bool, Seq<Seq<char>>)>
    decreases calls.len(),
{
    if calls.len() == 0 {
        None
    } else {
        match calls.last() {
            EvalCall::Verdict { passed, findings } => Some(
                (passed, findings_in(text::lines(findings@))),
            ),
            _ => last_verdict(calls.drop_last()),
        }
    }
}

/// The verdict of a reply's calls.
pub fn find_verdict(calls: &Vec<EvalCall>) -> (r: Option<(bool, Vec<String>)>)
    ensures
        match r {
            Some(v) => last_verdict(calls@) == Some((v.0, text::texts(v.1@))),
            None => last_verdict(calls@) is None,
        },
{
    let mut n: usize = calls.len();
    assert(calls@.take(n as int) =~= calls@);
    while n > 0
        invariant
            n <= calls.len(),
            last_verdict(calls@) == last_verdict(calls@.take(n as int)),
        decreases n,
    {
        assert(calls@.take(n as int).drop_last() =~= calls@.take(n - 1));
        match &calls[n - 1] {
            EvalCall::Verdict { passed, findings } => {
                return Some((*passed, parse_findings(findings)));
            },
            _ => {},
        }
        n = n - 1;
    }
    None
}

// ---------------------------------------------------------------------------
// The loop
// ---------------------------------------------------------------------------

/// How the evaluation goes on after a reply without tool calls.
#[derive(Debug, Clone, Copy, PartialEq, Eq, Structural)]
pub enum TextOnly {
    /// The evaluator is asked for its verdict.
    Nudge,
    /// There are no turns left.
    OutOfTurns,
}

pub const VERDICT_DEMAND: &'static str =
    "[SYSTEM] Call evaluator_verdict to record your conclusion.";

/// How the evaluation goes on after a reply without tool calls in the turn with
/// the number `turn`, counted from zero.
pub fn after_text(h: &mut Vec<Message>, turn: u32) -> (r: TextOnly)
    requires
        turn < MAX_TURNS,
    ensures
        r == (if turn < MAX_TURNS - 1 {
            TextOnly::Nudge
        } else {
            TextOnly::OutOfTurns
        }),
        history::messages(final(h)@) == (if turn < MAX_TURNS - 1 {
            history::messages(old(h)@).push(history::plain("user"@, VERDICT_DEMAND@))
        } else {
            history::messages(old(h)@)
        }),
{
    if turn < MAX_TURNS - 1 {
        let m = Message::plain("user", VERDICT_DEMAND.to_owned());
        proof {
            history::lemma_messages_push(h@, m);
        }
        h.push(m);
        TextOnly::Nudge
    } else {
        TextOnly::OutOfTurns
    }
}

pub const COUNTDOWN_TAIL: &'static str =
    " turn(s) remaining. \
     Call evaluator_verdict NOW — do not run any more bash commands.";

/// A result with the number of turns that are left behind it.
pub open spec fn counted_down(content: Seq<char>, left: int) -> Seq<char> {
    content + "\n\n[SYSTEM] "@ + text::decimal_int(left) + COUNTDOWN_TAIL@
}

/// The answers to a reply's calls: id and content of each. When at most two
/// turns are left and there is no verdict, the last one says so.
pub open spec fn answers(
    results: Seq<(Seq<char>, Seq<char>)>,
    turn: int,
    has_verdict: bool,
) -> Seq<history::MessageText> {
    let left = MAX_TURNS - 1 - turn;
    Seq::new(
        results.len(),
        |i: int|
            history::tool_reply(
                results[i].0,
                if i == results.len() - 1 && left <= 2 && !has_verdict {
                    counted_down(results[i].1, left)
                } else {
                    results[i].1
                },
            ),
    )
}

/// Adds the answers to a reply's calls to the evaluator's conversation.
pub fn add_answers(
    h: &mut Vec<Message>,
    results: &Vec<(String, String)>,
    turn: u32,
    has_verdict: bool,
)
    requires
        turn < MAX_TURNS,
    ensures
        history::messages(final(h)@) == history::messages(old(h)@) + answers(
            text::pairs(results@),
            turn as int,
            has_verdict,
        ),
{
    let ghost start = history::messages(h@);
    let ghost wanted = answers(text::pairs(results@), turn as int, has_verdict);
    let left: u32 = MAX_TURNS - 1 - turn;
    let mut i: usize = 0;
    assert(start + wanted.take(0) =~= start);
    while i < results.len()
        invariant
            i <= results.len(),
            turn < MAX_TURNS,
            left == MAX_TURNS - 1 - turn,
            wanted == answers(text::pairs(results@), turn as int, has_verdict),
            history::messages(h@) == start + wanted.take(i as int),
        decreases results.len() - i,
    {
        let mut content: String = results[i].1.clone();
        if i == results.len() - 1 && left <= 2 && !has_verdict {
            content.push_str("\n\n[SYSTEM] ");
            content.push_str(&text::number(left as u64));
            content.push_str(COUNTDOWN_TAIL);
        }
        let m = Message::tool_reply(&results[i].0, content);
        proof {
            history::lemma_messages_push(h@, m);
            assert(wanted[i as int] == m@);
            assert(wanted.take(i + 1) =~= wanted.take(i as int).push(wanted[i as int]));
            assert((start + wanted.take(i as int)).push(m@) =~= start + wanted.take(i + 1));
        }
        h.push(m);
        i = i + 1;
    }
    assert(wanted.take(i as int) =~= wanted);
}

pub const EVALUATOR_TAIL: &'static str =
    "\n\n\
     These assertions were self-reported as passed but failed when checked \
     by the evaluator.";

/// What the model is told when the evaluator was not convinced.
pub open spec fn rejection(findings: Seq<Seq<char>>) -> Seq<char> {
    "[EVALUATOR] Independent verification found issues:\n  · "@ + text::join(findings, "\n  · "@)
        + EVALUATOR_TAIL@
}

/// Adds a failed verdict to the agent's conversation; a passed one leaves it as
/// it is.
pub fn emit_result(h: &mut Vec<Message>, passed: bool, findings: &Vec<String>)
    ensures
        history::messages(final(h)@) == (if passed {
            history::messages(old(h)@)
        } else {
            history::messages(old(h)@).push(
                history::plain("user"@, rejection(text::texts(findings@))),
            )
        }),
{
    if !passed {
        let mut s: String = "[EVALUATOR] Independent verification found issues:\n  · ".to_owned();
        s.push_str(&text::join_with(findings, "\n  · "));
        s.push_str(EVALUATOR_TAIL);
        let m = Message::plain("user", s);
        proof {
            history::lemma_messages_push(h@, m);
        }
        h.push(m);
    }
}

/// What an evaluation without a verdict comes to.
pub fn inconclusive() -> (r: (bool, Vec<String>))
    ensures
        !r.0,
        text::texts(r.1@) == seq!["evaluation inconclusive: turn limit reached"@],
{
    let mut v: Vec<String> = Vec::new();
    v.push("evaluation inconclusive: turn limit reached".to_owned());
    assert(text::texts(v@) =~= seq!["evaluation inconclusive: turn limit reached"@]);
    (false, v)
}

/// A call as the evaluator understands it, with its arguments.
pub open spec fn understood(name: Option<Seq<char>>, args: json::JsonText) -> EvalText {
    match name {
        Some(n) => if n == "bash"@ {
            EvalText::Bash { command: args.member_text_or("command"@, ""@) }
        } else if n == "read_file"@ {
            EvalText::ReadFile { path: args.member_text_or("path"@, ""@) }
        } else if n == "evaluator_verdict"@ {
            EvalText::Verdict {
                passed: match args.member_boolean("passed"@) {
                    Some(b) => b,
                    None => false,
                },
                findings: args.member_text_or("findings"@, ""@),
            }
        } else {
            EvalText::Other { name: n }
        },
        None => EvalText::Other { name: ""@ },
    }
}

pub ghost enum EvalText {
    Bash { command: Seq<char> },
    ReadFile { path: Seq<char> },
    Verdict { passed: bool, findings: Seq<char> },
    Other { name: Seq<char> },
}

impl View for EvalCall {
    type V = EvalText;

    open spec fn view(&self) -> EvalText {
        match self {
            EvalCall::Bash { command } => EvalText::Bash { command: command@ },
            EvalCall::ReadFile { path } => EvalText::ReadFile { path: path@ },
            EvalCall::Verdict { passed, findings } => EvalText::Verdict {
                passed: *passed,
                findings: findings@,
            },
            EvalCall::Other { name } => EvalText::Other { name: name@ },
        }
    }
}

/// The arguments of a call; none when they cannot be read.
pub open spec fn arguments_in(raw: Option<Seq<char>>) -> json::JsonText {
    match outside::json_value(
        match raw {
            Some(s) => s,
            None => "{}"@,
        },
    ) {
        Some(j) => j,
        None => json::JsonText::Table(Seq::empty()),
    }
}

/// A call as the evaluator understands it, when its arguments are read.
pub fn read_call_with(c: &ToolCall, args: &Json) -> (r: EvalCall)
    ensures
        r@ == understood(c@.name, args@),
{
    match &c.name {
        Some(name) => {
            if text::same(name, "bash") {
                EvalCall::Bash { command: args.get_str_or("command", "") }
            } else if text::same(name, "read_file") {
                EvalCall::ReadFile { path: args.get_str_or("path", "") }
            } else if text::same(name, "evaluator_verdict") {
                let passed = match args.get_bool("passed") {
                    Some(b) => b,
                    None => false,
                };
                EvalCall::Verdict { passed, findings: args.get_str_or("findings", "") }
            } else {
                EvalCall::Other { name: name.clone() }
            }
        },
        None => EvalCall::Other { name: "".to_owned() },
    }
}

/// A call as the evaluator understands it.
pub fn read_call(c: &ToolCall) -> (r: EvalCall)
    ensures
        r@ == understood(c@.name, arguments_in(c@.arguments)),
{
    let raw: String = match &c.arguments {
        Some(s) => s.clone(),
        None => "{}".to_owned(),
    };
    let args = match outside::json_parse(&raw) {
        Some(j) => j,
        None => {
            let none: Vec<(String, Json)> = Vec::new();
            assert(json::members(none@) =~= Seq::<(Seq<char>, json::JsonText)>::empty());
            json::table(none)
        },
    };
    read_call_with(c, &args)
}

// ---------------------------------------------------------------------------
// An evaluation
// ---------------------------------------------------------------------------

/// An evaluation that is under way.
#[derive(Debug)]
pub struct Evaluation {
    pub history: Vec<Message>,
    /// The number of the turn, counted from zero.
    pub turn: u32,
}

pub ghost struct EvaluationText {
    pub history: Seq<history::MessageText>,
    pub turn: u32,
}

impl View for Evaluation {
    type V = EvaluationText;

    open spec fn view(&self) -> EvaluationText {
        EvaluationText { history: history::messages(self.history@), turn: self.turn }
    }
}

/// What comes of a reply.
#[derive(Debug)]
pub enum ReplyStep {
    /// These calls are to be run.
    Calls(Vec<EvalCall>),
    /// The evaluator is asked once more.
    Again,
    /// There are no turns left.
    OutOfTurns,
}

pub ghost enum ReplyStepText {
    Calls(Seq<EvalText>),
    Again,
    OutOfTurns,
}

pub open spec fn eval_texts(v: Seq<EvalCall>) -> Seq<EvalText> {
    v.map_values(|c: EvalCall| c@)
}

impl View for ReplyStep {
    type V = ReplyStepText;

    open spec fn view(&self) -> ReplyStepText {
        match self {
            ReplyStep::Calls(v) => ReplyStepText::Calls(eval_texts(v@)),
            ReplyStep::Again => ReplyStepText::Again,
            ReplyStep::OutOfTurns => ReplyStepText::OutOfTurns,
        }
    }
}

/// The calls of a reply, as the evaluator understands them.
pub open spec fn calls_in(m: history::MessageText) -> Seq<EvalText> {
    m.call_list().map_values(
        |c: history::CallText| understood(c.name, arguments_in(c.arguments)),
    )
}

/// The evaluation, and what comes next, once a reply is taken.
pub open spec fn reply_taken(e: EvaluationText, m: history::MessageText) -> (
    EvaluationText,
    ReplyStepText,
) {
    let told = e.history.push(m);
    if m.call_list().len() > 0 {
        (EvaluationText { history: told, ..e }, ReplyStepText::Calls(calls_in(m)))
    } else if e.turn < MAX_TURNS - 1 {
        (
            EvaluationText {
                history: told.push(history::plain("user"@, VERDICT_DEMAND@)),
                turn: (e.turn + 1) as u32,
            },
            ReplyStepText::Again,
        )
    } else {
        (EvaluationText { history: told, ..e }, ReplyStepText::OutOfTurns)
    }
}

/// What comes of the results of a reply's calls.
#[derive(Debug)]
pub enum ResultStep {
    Verdict { passed: bool, findings: Vec<String> },
    /// The evaluator is asked once more.
    Again,
    /// There are no turns left, and no verdict was given.
    Inconclusive,
}

pub ghost enum ResultStepText {
    Verdict { passed: bool, findings: Seq<Seq<char>> },
    Again,
    Inconclusive,
}

impl View for ResultStep {
    type V = ResultStepText;

    open spec fn view(&self) -> ResultStepText {
        match self {
            ResultStep::Verdict { passed, findings } => ResultStepText::Verdict {
                passed: *passed,
                findings: text::texts(findings@),
            },
            ResultStep::Again => ResultStepText::Again,
            ResultStep::Inconclusive => ResultStepText::Inconclusive,
        }
    }
}

/// The evaluation, and what comes next, once the results of a reply's calls are
/// there.
pub open spec fn results_taken(
    e: EvaluationText,
    calls: Seq<EvalCall>,
    results: Seq<(Seq<char>, Seq<char>)>,
) -> (EvaluationText, ResultStepText) {
    let verdict = last_verdict(calls);
    let told = e.history + answers(results, e.turn as int, verdict is Some);
    match verdict {
        Some(v) => (
            EvaluationText { history: told, ..e },
            ResultStepText::Verdict { passed: v.0, findings: v.1 },
        ),
        None => (
            EvaluationText { history: told, turn: (e.turn + 1) as u32 },
            if e.turn + 1 < MAX_TURNS {
                ResultStepText::Again
            } else {
                ResultStepText::Inconclusive
            },
        ),
    }
}

impl Evaluation {
    /// An evaluation with a clean conversation.
    pub fn begin() -> (e: Evaluation)
        ensures
            e@ == (EvaluationText {
                history: seq![history::plain("user"@, "Begin evaluation."@)],
                turn: 0,
            }),
    {
        let mut history: Vec<Message> = Vec::new();
        history.push(Message::plain("user", "Begin evaluation.".to_owned()));
        let e = Evaluation { history, turn: 0 };
        assert(e@.history =~= seq![history::plain("user"@, "Begin evaluation."@)]);
        e
    }

    /// Takes a reply, and says what comes next.
    pub fn take_reply(&mut self, reply: Message) -> (r: ReplyStep)
        requires
            old(self).turn < MAX_TURNS,
        ensures
            (final(self)@, r@) == reply_taken(old(self)@, reply@),
    {
        let calls = history::calls_of(&reply);
        let ghost m = reply@;
        assert(history::call_texts(calls@).len() == calls@.len());
        proof {
            history::lemma_messages_push(self.history@, reply);
        }
        self.history.push(reply);
        if calls.len() > 0 {
            let mut out: Vec<EvalCall> = Vec::new();
            let mut i: usize = 0;
            while i < calls.len()
                invariant
                    i <= calls.len(),
                    out@.len() == i,
                    m.call_list() == history::call_texts(calls@),
                    forall|k: int|
                        0 <= k < i ==> (#[trigger] out@[k])@ == understood(
                            calls@[k]@.name,
                            arguments_in(calls@[k]@.arguments),
                        ),
                decreases calls.len() - i,
            {
                let c = read_call(&calls[i]);
                out.push(c);
                i = i + 1;
            }
            assert(eval_texts(out@) =~= calls_in(m));
            ReplyStep::Calls(out)
        } else {
            match after_text(&mut self.history, self.turn) {
                TextOnly::Nudge => {
                    self.turn = self.turn + 1;
                    ReplyStep::Again
                },
                TextOnly::OutOfTurns => ReplyStep::OutOfTurns,
            }
        }
    }

    /// Takes the results of a reply's calls, and says what comes next.
    pub fn take_results(
        &mut self,
        calls: &Vec<EvalCall>,
        results: &Vec<(String, String)>,
    ) -> (r: ResultStep)
        requires
            old(self).turn < MAX_TURNS,
        ensures
            (final(self)@, r@) == results_taken(old(self)@, calls@, text::pairs(results@)),
    {
        let verdict = find_verdict(calls);
        add_answers(&mut self.history, results, self.turn, verdict.is_some());
        match verdict {
            Some((passed, findings)) => ResultStep::Verdict { passed, findings },
            None => {
                self.turn = self.turn + 1;
                if self.turn < MAX_TURNS {
                    ResultStep::Again
                } else {
                    ResultStep::Inconclusive
                }
            },
        }
    }
}

/// An evaluation ends: whenever the evaluator is asked once more, one of its
/// turns is used up, and one is left.
pub proof fn law_evaluation_ends(
    e: EvaluationText,
    m: history::MessageText,
    calls: Seq<EvalCall>,
    results: Seq<(Seq<char>, Seq<char>)>,
)
    requires
        e.turn < MAX_TURNS,
    ensures
        reply_taken(e, m).1 is Again ==> reply_taken(e, m).0.turn == e.turn + 1 && reply_taken(
            e,
            m,
        ).0.turn < MAX_TURNS,
        reply_taken(e, m).1 is Calls ==> reply_taken(e, m).0.turn == e.turn,
        results_taken(e, calls, results).1 is Again ==> results_taken(e, calls, results).0.turn
            == e.turn + 1 && results_taken(e, calls, results).0.turn < MAX_TURNS,
{
}

// ---------------------------------------------------------------------------
// Tools
// ---------------------------------------------------------------------------

/// A parameter of a kind.
pub open spec fn parameter(kind: Seq<char>) -> json::JsonText {
    json::JsonText::Table(seq![("type"@, json::JsonText::Text(kind))])
}

/// A parameter of a kind, with what it means.
pub open spec fn described(kind: Seq<char>, description: Seq<char>) -> json::JsonText {
    json::JsonText::Table(
        seq![
            ("description"@, json::JsonText::Text(description)),
            ("type"@, json::JsonText::Text(kind)),
        ],
    )
}

/// The parameters of a tool: what they are, and which have to be given.
pub open spec fn parameters(
    properties: Seq<(Seq<char>, json::JsonText)>,
    required: Seq<json::JsonText>,
) -> json::JsonText {
    json::JsonText::Table(
        seq![
            ("properties"@, json::JsonText::Table(properties)),
            ("required"@, json::JsonText::List(required)),
            ("type"@, json::JsonText::Text("object"@)),
        ],
    )
}

pub open spec fn tool_value(
    name: Seq<char>,
    description: Seq<char>,
    params: json::JsonText,
) -> json::JsonText {
    json::JsonText::Table(
        seq![
            (
                "function"@,
                json::JsonText::Table(
                    seq![
                        ("description"@, json::JsonText::Text(description)),
                        ("name"@, json::JsonText::Text(name)),
                        ("parameters"@, params),
                    ],
                ),
            ),
            ("type"@, json::JsonText::Text("function"@)),
        ],
    )
}

/// The tools that the evaluator has: it can look, and give its verdict.
pub open spec fn tool_values() -> Seq<json::JsonText> {
    seq![
        tool_value(
            "bash"@,
            "Run a shell command and return stdout+stderr. Use for verification only."@,
            parameters(
                seq![("command"@, parameter("string"@))],
                seq![json::JsonText::Text("command"@)],
            ),
        ),
        tool_value(
            "read_file"@,
            "Read a file. Returns content."@,
            parameters(
                seq![("path"@, parameter("string"@))],
                seq![json::JsonText::Text("path"@)],
            ),
        ),
        tool_value(
            "evaluator_verdict"@,
            "Report your evaluation verdict. Call this ONCE when you have checked all assertions."@,
            parameters(
                seq![
                    (
                        "findings"@,
                        described(
                            "string"@,
                            "Describe each failure on its own line. Empty if passed=true."@,
                        ),
                    ),
                    (
                        "passed"@,
                        described(
                            "boolean"@,
                            "true if every assertion verified; false if any failed"@,
                        ),
                    ),
                ],
                seq![json::JsonText::Text("passed"@), json::JsonText::Text("findings"@)],
            ),
        ),
    ]
}

fn tool(name: &str, description: &str, params: Json) -> (r: Json)
    ensures
        r@ == tool_value(name@, description@, params@),
{
    let f = json::table3(
        "description",
        json::word(description),
        "name",
        json::word(name),
        "parameters",
        params,
    );
    json::table2("function", f, "type", json::word("function"))
}

fn one_text(name: &str) -> (r: Json)
    ensures
        r@ == parameters(
            seq![(name@, parameter("string"@))],
            seq![json::JsonText::Text(name@)],
        ),
{
    let p = json::table1(name, json::table1("type", json::word("string")));
    let q = json::list(vec![json::word(name)]);
    assert(q@->List_0 =~= seq![json::JsonText::Text(name@)]);
    json::table3("properties", p, "required", q, "type", json::word("object"))
}

/// The tools that the evaluator has: it can look, and give its verdict.
pub fn evaluator_tools() -> (r: Vec<Json>)
    ensures
        json::values(r@) == tool_values(),
{
    let findings = json::table2(
        "description",
        json::word("Describe each failure on its own line. Empty if passed=true."),
        "type",
        json::word("string"),
    );
    let passed = json::table2(
        "description",
        json::word("true if every assertion verified; false if any failed"),
        "type",
        json::word("boolean"),
    );
    let p = json::table2("findings", findings, "passed", passed);
    let q = json::list(vec![json::word("passed"), json::word("findings")]);
    assert(q@->List_0 =~= seq![
        json::JsonText::Text("passed"@),
        json::JsonText::Text("findings"@),
    ]);
    let verdict = json::table3("properties", p, "required", q, "type", json::word("object"));
    let r = vec![
        tool(
            "bash",
            "Run a shell command and return stdout+stderr. Use for verification only.",
            one_text("command"),
        ),
        tool("read_file", "Read a file. Returns content.", one_text("path")),
        tool(
            "evaluator_verdict",
            "Report your evaluation verdict. Call this ONCE when you have checked all assertions.",
            verdict,
        ),
    ];
    assert(json::values(r@) =~= tool_values());
    r
}

/// The name of a tool.
pub open spec fn tool_name(t: json::JsonText) -> Option<Seq<char>> {
    match t.member("function"@) {
        Some(f) => f.member_text("name"@),
        None => None,
    }
}

/// The evaluator can change nothing by a tool that writes: it can only run,
/// read and give its verdict.
pub proof fn law_evaluator_only_looks(i: int)
    requires
        0 <= i < tool_values().len(),
    ensures
        tool_name(tool_values()[i]) == Some("bash"@) || tool_name(tool_values()[i]) == Some(
            "read_file"@,
        ) || tool_name(tool_values()[i]) == Some("evaluator_verdict"@),
{
    reveal_strlit("function");
    reveal_strlit("type");
    reveal_strlit("name");
    reveal_strlit("parameters");
    assert("function"@.len() != "type"@.len());
    assert("name"@.len() != "parameters"@.len());
    reveal_with_fuel(json::lookup, 4);
    let v = tool_values()[i]->Table_0;
    let f = v[0].1->Table_0;
    assert(v.drop_last().last() == v[0]);
    assert(f.drop_last().last() == f[1]);
}

/// The evaluator is told its task and where it works.
pub proof fn law_task_is_told(task: Seq<char>, cwd: Seq<char>)
    ensures
        text::has(prompt(task, cwd), task),
        text::has(prompt(task, cwd), "\n\nWorking directory: "@ + cwd),
{
    let w = "\n\nWorking directory: "@;
    let p = prompt(task, cwd);
    assert(p =~= PROMPT_HEAD@ + task + (w + cwd + PROMPT_TAIL@));
    text::law_affixes(task, PROMPT_HEAD@, w + cwd + PROMPT_TAIL@);
    assert(p =~= (PROMPT_HEAD@ + task) + (w + cwd) + PROMPT_TAIL@);
    text::law_affixes(w + cwd, PROMPT_HEAD@ + task, PROMPT_TAIL@);
}

/// What came of a command starts with its exit code. As far as it is not too
/// long, it shows what the command wrote, on either way.
pub proof fn law_commands_are_reported(code: int, stdout: Seq<char>, stderr: Seq<char>)
    requires
        text::utf8_len("exit_code="@ + text::decimal_int(code) + "\nstdout:\n"@ + stdout
            + "\nstderr:\n"@ + stderr) <= 2000,
    ensures
        stdout.len() == 0 && stderr.len() == 0 ==> bash_report(code, stdout, stderr)
            == "exit_code="@ + text::decimal_int(code),
        stdout.len() > 0 && stderr.len() == 0 ==> bash_report(code, stdout, stderr)
            == "exit_code="@ + text::decimal_int(code) + "\nstdout:\n"@ + text::trimmed_end(stdout),
        stdout.len() == 0 && stderr.len() > 0 ==> bash_report(code, stdout, stderr)
            == "exit_code="@ + text::decimal_int(code) + "\nstderr:\n"@ + text::trimmed_end(stderr),
        stdout.len() > 0 && stderr.len() > 0 ==> bash_report(code, stdout, stderr)
            == "exit_code="@ + text::decimal_int(code) + "\nstdout:\n"@ + text::trimmed_end(stdout)
            + "\nstderr:\n"@ + text::trimmed_end(stderr),
{
    let h = "exit_code="@ + text::decimal_int(code);
    let a = "\nstdout:\n"@;
    let b = "\nstderr:\n"@;
    let x = text::trimmed_end(stdout);
    let y = text::trimmed_end(stderr);
    lemma_shorter(stdout);
    lemma_shorter(stderr);
    text::lemma_utf8_len_add(h, a);
    text::lemma_utf8_len_add(h + a, stdout);
    text::lemma_utf8_len_add(h + a + stdout, b);
    text::lemma_utf8_len_add(h + a + stdout + b, stderr);
    text::lemma_utf8_len_add(h + a, x);
    text::lemma_utf8_len_add(h + a + x, b);
    text::lemma_utf8_len_add(h + a + x + b, y);
    text::lemma_utf8_len_add(h, b);
    text::lemma_utf8_len_add(h + b, y);
}

proof fn lemma_shorter(s: Seq<char>)
    ensures
        text::utf8_len(text::trimmed_end(s)) <= text::utf8_len(s),
    decreases s.len(),
{
    if s.len() > 0 {
        lemma_shorter(s.drop_last());
    }
}

/// A file is shown whole as far as it is not too long.
pub proof fn law_files_are_shown(content: Seq<char>)
    ensures
        text::utf8_len(content) <= 3000 ==> file_report(content) == content,
        text::utf8_len(content) > 3000 ==> text::ends(
            file_report(content),
            "\n[file truncated at 3000 chars]"@,
        ) && file_report(content).subrange(0, text::clip(content, 3000).len() as int)
            == text::clip(content, 3000),
{
    let c = text::clip(content, 3000);
    let t = "\n[file truncated at 3000 chars]"@;
    text::law_affixes(t, c, Seq::empty());
    assert((c + t).subrange(0, c.len() as int) =~= c);
}

/// Each line of the findings is one, without the dash before it; lines that say
/// nothing are none.
pub proof fn law_findings(lines: Seq<Seq<char>>, line: Seq<char>)
    ensures
        findings_in(Seq::empty()).len() == 0,
        text::trimmed(line).len() > 0 && line[0] != '-' ==> findings_in(lines.push(line))
            == findings_in(lines).push(text::trimmed(line)),
        text::trimmed(line).len() > 0 && line[0] != '-' ==> findings_in(
            lines.push(seq!['-'] + line),
        ) == findings_in(lines).push(text::trimmed(line)),
        line.len() == 0 ==> findings_in(lines.push(line)) == findings_in(lines),
{
    reveal_strlit("-");
    let set = "-"@;
    assert(set.len() == 1 && set[0] == '-');
    assert(lines.push(line).drop_last() =~= lines);
    let dashed = seq!['-'] + line;
    assert(lines.push(dashed).drop_last() =~= lines);
    assert(dashed[0] == '-' && set.contains('-'));
    assert(dashed.drop_first() =~= line);
    assert(dashed.skip(1) =~= line);
    if text::trimmed(line).len() > 0 && line[0] != '-' {
        text::law_trimmed(line);
        if line.len() == 0 {
            assert(text::trimmed(line).len() == 0);
        }
        assert(!set.contains(line[0])) by {
            if set.contains(line[0]) {
                let k = choose|k: int| 0 <= k < set.len() && set[k] == line[0];
            }
        }
        assert(text::stripped_start(line, set) == line);
        assert(text::stripped_start(dashed, set) == line);
    }
    if line.len() == 0 {
        assert(text::stripped_start(line, set) == line);
        text::law_trimmed(line);
    }
}

/// The last verdict counts; without one there is none.
pub proof fn law_last_verdict(calls: Seq<EvalCall>, c: EvalCall)
    ensures
        last_verdict(Seq::empty()) is None,
        c matches EvalCall::Verdict { passed, findings } ==> last_verdict(calls.push(c)) == Some(
            (passed, findings_in(text::lines(findings@))),
        ),
        !(c is Verdict) ==> last_verdict(calls.push(c)) == last_verdict(calls),
{
    assert(calls.push(c).drop_last() =~= calls);
}

/// Each call is answered under its identifier with what came of it. Near the
/// end, and while there is no verdict, the last answer says how many turns are
/// left.
pub proof fn law_calls_are_answered(
    results: Seq<(Seq<char>, Seq<char>)>,
    turn: int,
    has_verdict: bool,
    i: int,
)
    requires
        0 <= i < results.len(),
        0 <= turn < MAX_TURNS,
    ensures
        answers(results, turn, has_verdict).len() == results.len(),
        answers(results, turn, has_verdict)[i].tool_call_id == Some(results[i].0),
        answers(results, turn, has_verdict)[i].role == Some("tool"@),
        answers(results, turn, has_verdict)[i].content matches history::ContentText::Text(s)
            && text::starts(s, results[i].1),
        has_verdict || turn < 47 || i < results.len() - 1 ==> answers(
            results,
            turn,
            has_verdict,
        )[i].content == history::ContentText::Text(results[i].1),
        !has_verdict && turn >= 47 && i == results.len() - 1 ==> (answers(
            results,
            turn,
            has_verdict,
        )[i].content matches history::ContentText::Text(s) && text::has(
            s,
            "[SYSTEM] "@ + text::decimal_int(49 - turn),
        )),
{
    let r = results[i].1;
    let n = text::decimal_int(49 - turn);
    let s = counted_down(r, 49 - turn);
    reveal_strlit("\n\n[SYSTEM] ");
    reveal_strlit("\n\n");
    reveal_strlit("[SYSTEM] ");
    assert("\n\n[SYSTEM] "@ =~= "\n\n"@ + "[SYSTEM] "@);
    assert(s =~= r + ("\n\n[SYSTEM] "@ + n + COUNTDOWN_TAIL@));
    text::law_affixes(r, "\n\n[SYSTEM] "@ + n + COUNTDOWN_TAIL@, Seq::empty());
    assert(s =~= (r + "\n\n"@) + ("[SYSTEM] "@ + n) + COUNTDOWN_TAIL@);
    text::law_affixes("[SYSTEM] "@ + n, r + "\n\n"@, COUNTDOWN_TAIL@);
    assert(r.subrange(0, r.len() as int) =~= r);
}

/// What was found is put to the model, each finding of it.
pub proof fn law_findings_are_put(findings: Seq<Seq<char>>, i: int)
    requires
        0 <= i < findings.len(),
    ensures
        text::has(rejection(findings), findings[i]),
{
    let head = "[EVALUATOR] Independent verification found issues:\n  · "@;
    let list = text::join(findings, "\n  · "@);
    text::lemma_joined_part(findings, "\n  · "@, i);
    text::lemma_has_within(rejection(findings), head, list, EVALUATOR_TAIL@, findings[i]);
}

/// The three calls are known by their names and read with their arguments; a
/// verdict that does not say so has not passed.
pub proof fn law_calls_are_understood(args: json::JsonText, n: Seq<char>, s: Seq<char>)
    ensures
        args.member_text("command"@) == Some(s) ==> understood(Some("bash"@), args)
            == (EvalText::Bash { command: s }),
        args.member_text("path"@) == Some(s) ==> understood(Some("read_file"@), args)
            == (EvalText::ReadFile { path: s }),
        understood(Some("evaluator_verdict"@), args) matches EvalText::Verdict { passed, findings }
            && (passed <==> args.member_boolean("passed"@) == Some(true)) && (args.member_text(
            "findings"@,
        ) == Some(s) ==> findings == s),
        n != "bash"@ && n != "read_file"@ && n != "evaluator_verdict"@ ==> understood(Some(n), args)
            == (EvalText::Other { name: n }),
        understood(None, args) is Other,
{
    reveal_strlit("bash");
    reveal_strlit("read_file");
    reveal_strlit("evaluator_verdict");
    assert("bash"@.len() == 4 && "read_file"@.len() == 9 && "evaluator_verdict"@.len() == 17);
}

/// A reply with calls is taken up with all of them; words alone are met with the
/// demand for a verdict, while turns are left.
pub proof fn law_replies(e: EvaluationText, m: history::MessageText, i: int)
    requires
        e.turn < MAX_TURNS,
    ensures
        reply_taken(e, m).0.history.subrange(0, (e.history.len() + 1) as int) == e.history.push(m),
        m.call_list().len() > 0 ==> (reply_taken(e, m).1 matches ReplyStepText::Calls(v) && v.len()
            == m.call_list().len() && (0 <= i < v.len() ==> v[i] == understood(
            m.call_list()[i].name,
            arguments_in(m.call_list()[i].arguments),
        ))),
        m.call_list().len() == 0 && e.turn < 49 ==> reply_taken(e, m).1 is Again && reply_taken(
            e,
            m,
        ).0.history.last() == history::plain("user"@, VERDICT_DEMAND@),
        m.call_list().len() == 0 && e.turn >= 49 ==> reply_taken(e, m).1 is OutOfTurns,
{
    assert(reply_taken(e, m).0.history.subrange(0, (e.history.len() + 1) as int) =~= e.history.push(
        m,
    ));
}

/// A verdict ends the evaluation as it was given; without one it goes on, while
/// turns are left.
pub proof fn law_results(
    e: EvaluationText,
    calls: Seq<EvalCall>,
    results: Seq<(Seq<char>, Seq<char>)>,
)
    requires
        e.turn < MAX_TURNS,
    ensures
        last_verdict(calls) matches Some(v) ==> results_taken(e, calls, results).1
            == (ResultStepText::Verdict { passed: v.0, findings: v.1 }),
        last_verdict(calls) is None && e.turn < 49 ==> results_taken(e, calls, results).1 is Again,
        last_verdict(calls) is None && e.turn == 49 ==> results_taken(e, calls, results).1
            is Inconclusive,
        results_taken(e, calls, results).0.history.len() == e.history.len() + results.len(),
{
}

/// Each call is done as it says, a verdict is acknowledged, and a tool that is
/// not there is named; without a verdict nothing has passed.
pub proof fn law_calls_are_planned(c: &EvalCall, r: EvalAction, end: (bool, Vec<String>))
    requires
        call_ensures(plan_call, (c,), r),
        call_ensures(inconclusive, (), end),
    ensures
        *c matches EvalCall::Bash { command } ==> (r matches EvalAction::Run(s) && s@ == command@),
        *c matches EvalCall::ReadFile { path } ==> (r matches EvalAction::Read(s) && s@ == path@),
        *c is Verdict ==> r is Answer,
        *c matches EvalCall::Other { name } ==> (r matches EvalAction::Answer(s) && text::has(
            s@,
            name@,
        )),
        !end.0,
{
    if let EvalCall::Other { name } = *c {
        text::law_affixes(name@, "tool `"@, "` not available in evaluator"@);
    }
}

} // verus!
