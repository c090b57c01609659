//! The turn as a whole: what is done next, step by step, until it is over. The
//! caller does what an action asks for and hands back what came of it.

use vstd::prelude::*;

use crate::agent::aftermath::{CommandStep, Outcome, Verdict};
use crate::agent::aftermath;
use crate::agent::contract::Contract;
use crate::agent::contract;
use crate::agent::gate::{Admission, Call, Session, Surroundings, Turn};
use crate::agent::gate;
use crate::agent::history::{CompactBudget, Message, ToolCall};
use crate::agent::history;
use crate::agent::reply::TextStep;
use crate::agent::reply;
use crate::agent::tally;
use crate::agent::tools::Pressure;
use crate::agent::tools;
use crate::agent::turn::LoopStep;
use crate::agent::turn;
use crate::text;

verus! {

// ---------------------------------------------------------------------------
// Phases
// ---------------------------------------------------------------------------

/// The calls of a reply, and which of them is the next.
#[derive(Debug)]
pub struct Queue {
    pub calls: Vec<ToolCall>,
    pub at: usize,
}

pub ghost struct QueueText {
    pub calls: Seq<history::CallText>,
    pub at: nat,
}

impl View for Queue {
    type V = QueueText;

    open spec fn view(&self) -> QueueText {
        QueueText { calls: history::call_texts(self.calls@), at: self.at as nat }
    }
}

/// Where a turn stands.
#[derive(Debug)]
pub enum Phase {
    /// The model may be asked.
    Open,
    /// The model was asked.
    Asked,
    /// The next call is read.
    Reading(Queue),
    /// The call is run.
    Running(Queue, Call),
    /// A patch was made, and spirals of patches are looked for.
    Patched(Queue, Call, Outcome, Pressure),
    /// The file that was changed is checked.
    Checking(Queue, Call, Outcome, String),
    /// A command failed too often, and another strategy is looked for.
    Rethinking(Queue, Call, Outcome),
    /// A command was run, and failures in a row are looked for.
    Commanded(Queue),
    /// The last words are weighed.
    Closing(String),
    /// The last words are streamed.
    Streaming,
    /// The turn is over.
    Over,
}

pub ghost enum PhaseText {
    Open,
    Asked,
    Reading(QueueText),
    Running(QueueText, gate::CallFacts),
    Patched(QueueText, gate::CallFacts, aftermath::OutcomeFacts, Pressure),
    Checking(QueueText, gate::CallFacts, aftermath::OutcomeFacts, Seq<char>),
    Rethinking(QueueText, gate::CallFacts, aftermath::OutcomeFacts),
    Commanded(QueueText),
    Closing(Seq<char>),
    Streaming,
    Over,
}

impl View for Phase {
    type V = PhaseText;

    open spec fn view(&self) -> PhaseText {
        match self {
            Phase::Open => PhaseText::Open,
            Phase::Asked => PhaseText::Asked,
            Phase::Reading(q) => PhaseText::Reading(q@),
            Phase::Running(q, c) => PhaseText::Running(q@, c@),
            Phase::Patched(q, c, o, p) => PhaseText::Patched(q@, c@, o@, *p),
            Phase::Checking(q, c, o, path) => PhaseText::Checking(q@, c@, o@, path@),
            Phase::Rethinking(q, c, o) => PhaseText::Rethinking(q@, c@, o@),
            Phase::Commanded(q) => PhaseText::Commanded(q@),
            Phase::Closing(s) => PhaseText::Closing(s@),
            Phase::Streaming => PhaseText::Streaming,
            Phase::Over => PhaseText::Over,
        }
    }
}

/// A turn that is under way.
#[derive(Debug)]
pub struct Driver {
    pub turn: Turn,
    pub phase: Phase,
}

pub ghost struct DriverText {
    pub turn: gate::TurnText,
    pub phase: PhaseText,
}

impl View for Driver {
    type V = DriverText;

    open spec fn view(&self) -> DriverText {
        DriverText { turn: self.turn@, phase: self.phase@ }
    }
}

/// What holds for the whole turn.
#[derive(Debug, Clone, Copy)]
pub struct Rules {
    /// How many tools may be called.
    pub limit: u32,
    /// The task calls for work on files.
    pub action_task: bool,
    /// The project has tests that can be run.
    pub has_tests: bool,
}

// ---------------------------------------------------------------------------
// Events and actions
// ---------------------------------------------------------------------------

/// What came of an action.
#[derive(Debug)]
pub enum Event {
    /// The model may be asked; so many interruptions are pending.
    Ready { interrupts: u32 },
    /// The model gave no reply.
    Silence,
    /// The model's reply, the tools that it was offered, and the contract, when
    /// contracts are in use and one exists.
    Reply { reply: Message, known: Vec<String>, contract: Option<Contract> },
    /// The call, with its arguments read.
    Read { call: Call, around: Surroundings },
    /// What the call came to, and how full the context is.
    Result { outcome: Outcome, pressure: Pressure },
    /// What a watcher says, if it says anything.
    Signal(Option<String>),
    /// What the checks on a file, and a second reading of it, came to.
    Checked { verdict: Verdict, issues: Vec<String> },
    /// Another strategy for a failing command.
    Strategy(String),
    /// What was streamed, if anything was.
    Streamed(Option<String>),
}

pub ghost enum EventText {
    Ready { interrupts: u32 },
    Silence,
    Reply {
        reply: history::MessageText,
        known: Seq<Seq<char>>,
        contract: Option<contract::ContractText>,
    },
    Read {
        call: gate::CallFacts,
        contract_on: bool,
        has_contract: bool,
        talk: bool,
        bash_read_only: bool,
        patch_blocked: Option<Seq<char>>,
    },
    Result { outcome: aftermath::OutcomeFacts, pressure: Pressure },
    Signal(Option<Seq<char>>),
    Checked { verdict: aftermath::VerdictFacts, issues: Seq<Seq<char>> },
    Strategy(Seq<char>),
    Streamed(Option<Seq<char>>),
}

impl View for Event {
    type V = EventText;

    open spec fn view(&self) -> EventText {
        match self {
            Event::Ready { interrupts } => EventText::Ready { interrupts: *interrupts },
            Event::Silence => EventText::Silence,
            Event::Reply { reply, known, contract } => EventText::Reply {
                reply: reply@,
                known: text::texts(known@),
                contract: reply::opt_contract(*contract),
            },
            Event::Read { call, around } => EventText::Read {
                call: call@,
                contract_on: around.contract_on,
                has_contract: around.has_contract,
                talk: around.talk,
                bash_read_only: around.bash_read_only,
                patch_blocked: text::opt_text(around.patch_blocked),
            },
            Event::Result { outcome, pressure } => EventText::Result {
                outcome: outcome@,
                pressure: *pressure,
            },
            Event::Signal(s) => EventText::Signal(text::opt_text(*s)),
            Event::Checked { verdict, issues } => EventText::Checked {
                verdict: verdict@,
                issues: text::texts(issues@),
            },
            Event::Strategy(s) => EventText::Strategy(s@),
            Event::Streamed(s) => EventText::Streamed(text::opt_text(*s)),
        }
    }
}

/// Why a turn is over.
#[derive(Debug, Clone, Copy, PartialEq, Eq, Structural)]
pub enum Ending {
    /// All the calls that are allowed were made.
    Limit,
    Interrupted,
    /// The model gave no reply.
    NoReply,
    /// The replies stayed empty.
    GaveUp,
    /// The model said its last words.
    Said,
}

/// What is to be done next.
#[derive(Debug)]
pub enum Action {
    /// Ask the model, after making room in the conversation when `evict` is
    /// set.
    Ask { evict: bool },
    /// Read the arguments of the next call.
    Read,
    /// Run the call; `unguarded` when no contract was ever proposed.
    Run { unguarded: bool },
    /// Ask the watcher of patches.
    WatchPatch { success: bool },
    /// Check a file.
    Check { path: String },
    /// Find another strategy.
    Rethink,
    /// Ask the watcher of commands.
    WatchCommand { exit_code: i32 },
    /// Ask the watcher of last words.
    WatchWords,
    /// Stream the last words.
    Stream,
    /// See whether the model may be asked again: the reply was words.
    AfterWords(TextStep),
    /// See whether the model may be asked again: the calls are done with, and
    /// the model was pushed to act after so many idle rounds.
    AfterCalls { nudged: Option<u32> },
    /// See whether the model may be asked again: it was told what is wrong.
    AfterCorrection,
    /// Nothing: the turn is over.
    End(Ending),
    /// Nothing: the event does not belong here.
    Ignore,
}

pub ghost enum ActionText {
    Ask { evict: bool },
    Read,
    Run { unguarded: bool },
    WatchPatch { success: bool },
    Check { path: Seq<char> },
    Rethink,
    WatchCommand { exit_code: int },
    WatchWords,
    Stream,
    AfterWords(TextStep),
    AfterCalls { nudged: Option<u32> },
    AfterCorrection,
    End(Ending),
    Ignore,
}

impl View for Action {
    type V = ActionText;

    open spec fn view(&self) -> ActionText {
        match self {
            Action::Ask { evict } => ActionText::Ask { evict: *evict },
            Action::Read => ActionText::Read,
            Action::Run { unguarded } => ActionText::Run { unguarded: *unguarded },
            Action::WatchPatch { success } => ActionText::WatchPatch { success: *success },
            Action::Check { path } => ActionText::Check { path: path@ },
            Action::Rethink => ActionText::Rethink,
            Action::WatchCommand { exit_code } => ActionText::WatchCommand {
                exit_code: *exit_code as int,
            },
            Action::WatchWords => ActionText::WatchWords,
            Action::Stream => ActionText::Stream,
            Action::AfterWords(s) => ActionText::AfterWords(*s),
            Action::AfterCalls { nudged } => ActionText::AfterCalls { nudged: *nudged },
            Action::AfterCorrection => ActionText::AfterCorrection,
            Action::End(e) => ActionText::End(*e),
            Action::Ignore => ActionText::Ignore,
        }
    }
}

// ---------------------------------------------------------------------------
// Steps
// ---------------------------------------------------------------------------

pub open spec fn ended(t: gate::TurnText, e: Ending) -> (DriverText, ActionText) {
    (DriverText { turn: t, phase: PhaseText::Over }, ActionText::End(e))
}

/// The calls of a reply are done with.
pub open spec fn calls_done(t: gate::TurnText) -> (DriverText, ActionText) {
    let (after, nudged) = aftermath::round_ended(t);
    (DriverText { turn: after, phase: PhaseText::Open }, ActionText::AfterCalls { nudged })
}

/// The next call is read, if one is left.
pub open spec fn next_read(t: gate::TurnText, q: QueueText) -> (DriverText, ActionText) {
    if q.at < q.calls.len() {
        (DriverText { turn: t, phase: PhaseText::Reading(q) }, ActionText::Read)
    } else {
        calls_done(t)
    }
}

/// The queue behind its next call.
pub open spec fn behind(q: QueueText) -> QueueText {
    QueueText { at: q.at + 1, ..q }
}

/// After a call and all that follows from it, commands are watched.
pub open spec fn watched(
    t: gate::TurnText,
    q: QueueText,
    c: gate::CallFacts,
    o: aftermath::OutcomeFacts,
) -> (DriverText, ActionText) {
    if c.name == "bash"@ || c.name == "run"@ {
        (
            DriverText { turn: t, phase: PhaseText::Commanded(q) },
            ActionText::WatchCommand { exit_code: aftermath::exit_code(o) },
        )
    } else {
        next_read(t, behind(q))
    }
}

/// What follows from a command.
pub open spec fn commanded(
    t: gate::TurnText,
    q: QueueText,
    c: gate::CallFacts,
    o: aftermath::OutcomeFacts,
) -> (DriverText, ActionText) {
    let (after, step) = aftermath::command_noted(t, c, o);
    match step {
        CommandStep::Done => watched(after, q, c, o),
        CommandStep::Rethink => (
            DriverText { turn: after, phase: PhaseText::Rethinking(q, c, o) },
            ActionText::Rethink,
        ),
    }
}

/// The result joins the conversation, and a file that was changed is checked.
pub open spec fn told(
    t: gate::TurnText,
    q: QueueText,
    c: gate::CallFacts,
    o: aftermath::OutcomeFacts,
    p: Pressure,
) -> (DriverText, ActionText) {
    let after = aftermath::answered(t, c, o, p);
    if aftermath::is_checked(c, o) {
        (
            DriverText { turn: after, phase: PhaseText::Checking(q, c, o, c.path->0) },
            ActionText::Check { path: c.path->0 },
        )
    } else {
        commanded(after, q, c, o)
    }
}

/// A call came to an end.
pub open spec fn resulted(
    t: gate::TurnText,
    q: QueueText,
    c: gate::CallFacts,
    o: aftermath::OutcomeFacts,
    p: Pressure,
) -> (DriverText, ActionText) {
    let after = aftermath::noted(t, c, o);
    if gate::is_patch(c.name) {
        (
            DriverText { turn: after, phase: PhaseText::Patched(q, c, o, p) },
            ActionText::WatchPatch { success: aftermath::patch_succeeded(o) },
        )
    } else {
        told(after, q, c, o, p)
    }
}

/// A call is let through, or answered in its place.
pub open spec fn screened(
    t: gate::TurnText,
    q: QueueText,
    c: gate::CallFacts,
    contract_on: bool,
    has_contract: bool,
    talk: bool,
    bash_read_only: bool,
    patch_blocked: Option<Seq<char>>,
) -> (DriverText, ActionText) {
    let (after, admission) = gate::admitted(
        t,
        c,
        contract_on,
        has_contract,
        talk,
        bash_read_only,
        patch_blocked,
    );
    match admission {
        Admission::Run { unguarded } => (
            DriverText { turn: after, phase: PhaseText::Running(q, c) },
            ActionText::Run { unguarded },
        ),
        Admission::Blocked { stop } => if stop {
            calls_done(after)
        } else {
            next_read(after, behind(q))
        },
        _ => next_read(after, behind(q)),
    }
}

/// A reply without calls.
pub open spec fn worded(
    t: gate::TurnText,
    content: Option<Seq<char>>,
    contract: Option<contract::ContractText>,
    r: Rules,
) -> (DriverText, ActionText) {
    let (after, step) = reply::text_noted(t, content, r.action_task, contract);
    match step {
        TextStep::GiveUp { n } => ended(after, Ending::GaveUp),
        TextStep::Accept { exhausted } => match content {
            Some(s) => if after.calls > 0 {
                (DriverText { turn: after, phase: PhaseText::Closing(s) }, ActionText::WatchWords)
            } else {
                ended(gate::said(after, history::plain("assistant"@, s)), Ending::Said)
            },
            None => if after.calls > 0 {
                ended(after, Ending::Said)
            } else {
                (DriverText { turn: after, phase: PhaseText::Streaming }, ActionText::Stream)
            },
        },
        _ => (
            DriverText { turn: after, phase: PhaseText::Open },
            ActionText::AfterWords(step),
        ),
    }
}

/// A reply came.
pub open spec fn replied(
    t: gate::TurnText,
    m: history::MessageText,
    known: Seq<Seq<char>>,
    contract: Option<contract::ContractText>,
    r: Rules,
) -> (DriverText, ActionText) {
    let calls = m.call_list();
    let settled = gate::settled(
        t,
        gate::is_answer(calls.len() as int, tools::or_empty(m.text())),
    );
    if calls.len() > 0 {
        let (after, steered) = gate::names_checked(
            gate::batch_opened(settled, tools::or_empty(calls[0].name), m),
            calls,
            known,
        );
        if steered {
            (DriverText { turn: after, phase: PhaseText::Open }, ActionText::AfterCorrection)
        } else {
            next_read(after, QueueText { calls, at: 0 })
        }
    } else {
        worded(settled, m.text(), contract, r)
    }
}

/// The turn, and what is done next, once a file was checked.
pub open spec fn checked(
    t: gate::TurnText,
    q: QueueText,
    c: gate::CallFacts,
    o: aftermath::OutcomeFacts,
    path: Seq<char>,
    v: aftermath::VerdictFacts,
    issues: Seq<Seq<char>>,
    has_tests: bool,
) -> (DriverText, ActionText) {
    let verified = aftermath::verified(t, path, v, has_tests);
    commanded(
        if v is Accept && issues.len() > 0 {
            gate::said(
                verified,
                history::plain("user"@, aftermath::review_text(path, issues)),
            )
        } else {
            verified
        },
        q,
        c,
        o,
    )
}

/// The turn, and what is done next, once an event came. An event that does not
/// belong to the phase changes nothing.
pub open spec fn stepped(d: DriverText, e: EventText, r: Rules) -> (DriverText, ActionText) {
    let t = d.turn;
    match (d.phase, e) {
        (PhaseText::Open, EventText::Ready { interrupts }) => match turn::loop_step(
            t.calls,
            r.limit,
            interrupts,
        ) {
            LoopStep::LimitReached => ended(t, Ending::Limit),
            LoopStep::Interrupted => ended(t, Ending::Interrupted),
            LoopStep::Ask { evict } => (
                DriverText { turn: t, phase: PhaseText::Asked },
                ActionText::Ask { evict },
            ),
        },
        (PhaseText::Asked, EventText::Silence) => ended(t, Ending::NoReply),
        (PhaseText::Asked, EventText::Reply { reply, known, contract }) => replied(
            t,
            reply,
            known,
            contract,
            r,
        ),
        (
            PhaseText::Reading(q),
            EventText::Read {
                call,
                contract_on,
                has_contract,
                talk,
                bash_read_only,
                patch_blocked,
            },
        ) => screened(
            t,
            q,
            call,
            contract_on,
            has_contract,
            talk,
            bash_read_only,
            patch_blocked,
        ),
        (PhaseText::Running(q, c), EventText::Result { outcome, pressure }) => resulted(
            t,
            q,
            c,
            outcome,
            pressure,
        ),
        (PhaseText::Patched(q, c, o, p), EventText::Signal(s)) => match s {
            Some(s) => calls_done(gate::said(t, history::plain("user"@, s))),
            None => told(t, q, c, o, p),
        },
        (PhaseText::Checking(q, c, o, path), EventText::Checked { verdict, issues }) => checked(
            t,
            q,
            c,
            o,
            path,
            verdict,
            issues,
            r.has_tests,
        ),
        (PhaseText::Rethinking(q, c, o), EventText::Strategy(s)) => watched(
            aftermath::rethought(t, s),
            q,
            c,
            o,
        ),
        (PhaseText::Commanded(q), EventText::Signal(s)) => match s {
            Some(s) => calls_done(gate::said(t, history::plain("user"@, s))),
            None => next_read(t, behind(q)),
        },
        (PhaseText::Closing(content), EventText::Signal(s)) => {
            let said = gate::said(t, history::plain("assistant"@, content));
            match s {
                Some(s) => (
                    DriverText {
                        turn: gate::said(said, history::plain("user"@, s)),
                        phase: PhaseText::Open,
                    },
                    ActionText::AfterCorrection,
                ),
                None => ended(said, Ending::Said),
            }
        },
        (PhaseText::Streaming, EventText::Streamed(s)) => match s {
            Some(s) => ended(gate::said(t, history::plain("assistant"@, s)), Ending::Said),
            None => ended(t, Ending::Said),
        },
        _ => (d, ActionText::Ignore),
    }
}

fn end(turn: Turn, e: Ending) -> (r: (Driver, Action))
    ensures
        (r.0@, r.1@) == ended(turn@, e),
{
    (Driver { turn, phase: Phase::Over }, Action::End(e))
}

fn finish_calls(turn: Turn) -> (r: (Driver, Action))
    ensures
        (r.0@, r.1@) == calls_done(turn@),
{
    let mut turn = turn;
    let nudged = turn.end_round();
    (Driver { turn, phase: Phase::Open }, Action::AfterCalls { nudged })
}

fn read_next(turn: Turn, q: Queue) -> (r: (Driver, Action))
    ensures
        (r.0@, r.1@) == next_read(turn@, q@),
{
    assert(q@.calls.len() == q.calls@.len());
    if q.at < q.calls.len() {
        (Driver { turn, phase: Phase::Reading(q) }, Action::Read)
    } else {
        finish_calls(turn)
    }
}

/// Goes on behind the call that is done with.
fn go_on(turn: Turn, q: Queue) -> (r: (Driver, Action))
    ensures
        (r.0@, r.1@) == next_read(turn@, behind(q@)),
{
    assert(q@.calls.len() == q.calls@.len());
    if q.at < q.calls.len() {
        let at = q.at + 1;
        let next = Queue { calls: q.calls, at };
        assert(next@ == behind(q@));
        read_next(turn, next)
    } else {
        finish_calls(turn)
    }
}

fn watch(turn: Turn, q: Queue, c: &Call, o: &Outcome) -> (r: (Driver, Action))
    ensures
        (r.0@, r.1@) == watched(turn@, q@, c@, o@),
{
    if text::same(&c.name, "bash") || text::same(&c.name, "run") {
        let exit_code = aftermath::exit_code_of(o);
        (Driver { turn, phase: Phase::Commanded(q) }, Action::WatchCommand { exit_code })
    } else {
        go_on(turn, q)
    }
}

fn command(turn: Turn, q: Queue, c: Call, o: Outcome) -> (r: (Driver, Action))
    ensures
        (r.0@, r.1@) == commanded(turn@, q@, c@, o@),
{
    let mut turn = turn;
    let step = turn.note_command(&c, &o);
    match step {
        CommandStep::Done => watch(turn, q, &c, &o),
        CommandStep::Rethink => {
            (Driver { turn, phase: Phase::Rethinking(q, c, o) }, Action::Rethink)
        },
    }
}

fn tell(turn: Turn, q: Queue, c: Call, o: Outcome, p: Pressure) -> (r: (Driver, Action))
    ensures
        (r.0@, r.1@) == told(turn@, q@, c@, o@, p),
{
    let mut turn = turn;
    turn.reply(&c, &o, p);
    match aftermath::file_to_check(&c, &o) {
        Some(path) => {
            let shown = path.clone();
            (Driver { turn, phase: Phase::Checking(q, c, o, path) }, Action::Check { path: shown })
        },
        None => command(turn, q, c, o),
    }
}

fn is_patch_tool(name: &str) -> (r: bool)
    ensures
        r == gate::is_patch(name@),
{
    text::same(name, "patch") || text::same(name, "read_and_patch")
}

fn take_result(turn: Turn, q: Queue, c: Call, o: Outcome, p: Pressure) -> (r: (Driver, Action))
    ensures
        (r.0@, r.1@) == resulted(turn@, q@, c@, o@, p),
{
    let mut turn = turn;
    turn.note(&c, &o);
    if is_patch_tool(&c.name) {
        let success = aftermath::patch_success(&o);
        (Driver { turn, phase: Phase::Patched(q, c, o, p) }, Action::WatchPatch { success })
    } else {
        tell(turn, q, c, o, p)
    }
}

fn take_call(turn: Turn, q: Queue, c: Call, e: &Surroundings) -> (r: (Driver, Action))
    ensures
        (r.0@, r.1@) == screened(
            turn@,
            q@,
            c@,
            e.contract_on,
            e.has_contract,
            e.talk,
            e.bash_read_only,
            text::opt_text(e.patch_blocked),
        ),
{
    let mut turn = turn;
    let admission = turn.screen(&c, e);
    match admission {
        Admission::Run { unguarded } => {
            (Driver { turn, phase: Phase::Running(q, c) }, Action::Run { unguarded })
        },
        Admission::Blocked { stop } => if stop {
            finish_calls(turn)
        } else {
            go_on(turn, q)
        },
        Admission::Refused => go_on(turn, q),
        Admission::Duplicate => go_on(turn, q),
    }
}

fn take_words(
    turn: Turn,
    content: Option<String>,
    contract: &Option<Contract>,
    rules: &Rules,
) -> (r: (Driver, Action))
    ensures
        (r.0@, r.1@) == worded(
            turn@,
            text::opt_text(content),
            reply::opt_contract(*contract),
            *rules,
        ),
{
    let mut turn = turn;
    let step = turn.note_text(&content, rules.action_task, contract);
    match step {
        TextStep::GiveUp { n: _ } => end(turn, Ending::GaveUp),
        TextStep::Accept { exhausted: _ } => match content {
            Some(s) => {
                if turn.calls > 0 {
                    (Driver { turn, phase: Phase::Closing(s) }, Action::WatchWords)
                } else {
                    turn.say_plain("assistant", s);
                    end(turn, Ending::Said)
                }
            },
            None => {
                if turn.calls > 0 {
                    end(turn, Ending::Said)
                } else {
                    (Driver { turn, phase: Phase::Streaming }, Action::Stream)
                }
            },
        },
        _ => (Driver { turn, phase: Phase::Open }, Action::AfterWords(step)),
    }
}

fn words_of(o: &Option<String>) -> (r: String)
    ensures
        r@ == tools::or_empty(text::opt_text(*o)),
{
    match o {
        Some(s) => s.clone(),
        None => {
            let e = String::new();
            assert(e@ =~= Seq::<char>::empty());
            e
        },
    }
}

fn take_reply(
    turn: Turn,
    m: Message,
    known: &Vec<String>,
    contract: &Option<Contract>,
    rules: &Rules,
) -> (r: (Driver, Action))
    ensures
        (r.0@, r.1@) == replied(
            turn@,
            m@,
            text::texts(known@),
            reply::opt_contract(*contract),
            *rules,
        ),
{
    let mut turn = turn;
    let calls = history::calls_of(&m);
    assert(history::call_texts(calls@).len() == calls@.len());
    let content = match m.text() {
        Some(s) => Some(s.clone()),
        None => None,
    };
    turn.settle_retry(calls.len(), &words_of(&content));
    if calls.len() > 0 {
        assert(history::call_texts(calls@)[0] == calls@[0]@);
        let first = words_of(&calls[0].name);
        turn.open_batch(&first, m);
        if turn.check_names(&calls, known) {
            (Driver { turn, phase: Phase::Open }, Action::AfterCorrection)
        } else {
            read_next(turn, Queue { calls, at: 0 })
        }
    } else {
        take_words(turn, content, contract, rules)
    }
}

fn take_check(
    turn: Turn,
    q: Queue,
    c: Call,
    o: Outcome,
    path: &str,
    v: &Verdict,
    issues: &Vec<String>,
    has_tests: bool,
) -> (r: (Driver, Action))
    ensures
        (r.0@, r.1@) == checked(
            turn@,
            q@,
            c@,
            o@,
            path@,
            v@,
            text::texts(issues@),
            has_tests,
        ),
{
    let mut turn = turn;
    let _ = turn.verify(path, v, has_tests);
    assert(text::texts(issues@).len() == issues@.len());
    let accepted = match v {
        Verdict::Accept => true,
        _ => false,
    };
    if accepted && issues.len() > 0 {
        turn.redirect(aftermath::semantic_review(path, issues));
    }
    command(turn, q, c, o)
}

fn take_signal(turn: Turn, q: Queue, s: Option<String>) -> (r: (Driver, Action))
    ensures
        (r.0@, r.1@) == (match s {
            Some(s) => calls_done(gate::said(turn@, history::plain("user"@, s@))),
            None => next_read(turn@, behind(q@)),
        }),
{
    let mut turn = turn;
    match s {
        Some(s) => {
            turn.redirect(s);
            finish_calls(turn)
        },
        None => go_on(turn, q),
    }
}

fn close_words(turn: Turn, content: String, s: Option<String>) -> (r: (Driver, Action))
    ensures
        (r.0@, r.1@) == ({
            let said = gate::said(turn@, history::plain("assistant"@, content@));
            match s {
                Some(s) => (
                    DriverText {
                        turn: gate::said(said, history::plain("user"@, s@)),
                        phase: PhaseText::Open,
                    },
                    ActionText::AfterCorrection,
                ),
                None => ended(said, Ending::Said),
            }
        }),
{
    let mut turn = turn;
    match s {
        Some(s) => {
            turn.object(&content, &s);
            (Driver { turn, phase: Phase::Open }, Action::AfterCorrection)
        },
        None => {
            turn.say_plain("assistant", content);
            end(turn, Ending::Said)
        },
    }
}

impl Driver {
    /// A turn in which nothing was done yet.
    pub fn start(turn: Turn) -> (d: Driver)
        ensures
            d@ == (DriverText { turn: turn@, phase: PhaseText::Open }),
    {
        Driver { turn, phase: Phase::Open }
    }

    /// Takes an event, and says what is done next.
    pub fn advance(self, e: Event, rules: &Rules) -> (r: (Driver, Action))
        ensures
            (r.0@, r.1@) == stepped(self@, e@, *rules),
    {
        let mut turn = self.turn;
        match (self.phase, e) {
            (Phase::Open, Event::Ready { interrupts }) => match turn::next_step(
                turn.calls,
                rules.limit,
                interrupts,
            ) {
                LoopStep::LimitReached => end(turn, Ending::Limit),
                LoopStep::Interrupted => end(turn, Ending::Interrupted),
                LoopStep::Ask { evict } => {
                    (Driver { turn, phase: Phase::Asked }, Action::Ask { evict })
                },
            },
            (Phase::Asked, Event::Silence) => end(turn, Ending::NoReply),
            (Phase::Asked, Event::Reply { reply, known, contract }) => take_reply(
                turn,
                reply,
                &known,
                &contract,
                rules,
            ),
            (Phase::Reading(q), Event::Read { call, around }) => take_call(turn, q, call, &around),
            (Phase::Running(q, c), Event::Result { outcome, pressure }) => take_result(
                turn,
                q,
                c,
                outcome,
                pressure,
            ),
            (Phase::Patched(q, c, o, p), Event::Signal(s)) => match s {
                Some(s) => {
                    turn.redirect(s);
                    finish_calls(turn)
                },
                None => tell(turn, q, c, o, p),
            },
            (Phase::Checking(q, c, o, path), Event::Checked { verdict, issues }) => take_check(
                turn,
                q,
                c,
                o,
                &path,
                &verdict,
                &issues,
                rules.has_tests,
            ),
            (Phase::Rethinking(q, c, o), Event::Strategy(s)) => {
                turn.rethink(&s);
                watch(turn, q, &c, &o)
            },
            (Phase::Commanded(q), Event::Signal(s)) => take_signal(turn, q, s),
            (Phase::Closing(content), Event::Signal(s)) => close_words(turn, content, s),
            (Phase::Streaming, Event::Streamed(s)) => match s {
                Some(s) => {
                    turn.say_plain("assistant", s);
                    end(turn, Ending::Said)
                },
                None => end(turn, Ending::Said),
            },
            (phase, _) => (Driver { turn, phase }, Action::Ignore),
        }
    }
}

// ---------------------------------------------------------------------------
// Opening a turn
// ---------------------------------------------------------------------------

/// What is known of a request before the model is asked.
#[derive(Debug)]
pub struct Opening {
    pub request: String,
    /// The files that it refers to, as they are shown.
    pub references: String,
    /// The changes in the working tree, when they matter.
    pub diff: String,
    pub contract_on: bool,
    pub has_contract: bool,
    /// It looks like mere conversation.
    pub chatty: bool,
    /// It is surely mere conversation.
    pub talk: bool,
    /// The kind of task that it is taken for.
    pub label: String,
    pub budget: CompactBudget,
}

pub ghost struct OpeningText {
    pub request: Seq<char>,
    pub references: Seq<char>,
    pub diff: Seq<char>,
    pub contract_on: bool,
    pub has_contract: bool,
    pub chatty: bool,
    pub talk: bool,
    pub label: Seq<char>,
    pub budget: CompactBudget,
}

impl View for Opening {
    type V = OpeningText;

    open spec fn view(&self) -> OpeningText {
        OpeningText {
            request: self.request@,
            references: self.references@,
            diff: self.diff@,
            contract_on: self.contract_on,
            has_contract: self.has_contract,
            chatty: self.chatty,
            talk: self.talk,
            label: self.label@,
            budget: self.budget,
        }
    }
}

/// The conversation with the request, as the model gets it, behind it.
pub open spec fn asked_for(
    h: Seq<history::MessageText>,
    o: OpeningText,
) -> Seq<history::MessageText> {
    h.push(
        history::plain(
            "user"@,
            turn::augmented(
                o.request,
                o.references,
                o.diff,
                o.contract_on && !o.has_contract && !o.chatty,
            ),
        ),
    )
}

/// The turn that a request opens, the kind of task that it is, and whether the
/// conversation was compacted.
pub open spec fn begun(s: gate::SessionText, o: OpeningText) -> (DriverText, Seq<char>, bool) {
    let told = asked_for(s.history, o);
    let category = turn::routed(turn::affirms(o.request), s.category, o.talk);
    let kept = history::compacted(told, o.budget);
    (
        DriverText {
            turn: gate::opened(gate::SessionText { history: kept, category, ..s }),
            phase: PhaseText::Open,
        },
        if category == Some("respond"@) {
            "explanation"@
        } else {
            o.label
        },
        kept != told,
    )
}

/// Opens a turn on a request: says which kind of task it is, and whether the
/// conversation was compacted.
pub fn begin(session: Session, o: &Opening) -> (r: (Driver, String, bool))
    ensures
        (r.0@, r.1@, r.2) == begun(session@, o@),
{
    let mut session = session;
    let said = turn::augment_request(
        &o.request,
        &o.references,
        &o.diff,
        o.contract_on,
        o.has_contract,
        o.chatty,
    );
    let m = Message::plain("user", said);
    proof {
        history::lemma_messages_push(session.history@, m);
    }
    session.history.push(m);
    let yes = turn::is_affirmation(&o.request);
    let category = turn::route_category(yes, &session.category, o.talk);
    let task_type = turn::align_task_type(&category, &o.label);
    session.category = category;
    let dropped = history::maybe_compact(&mut session.history, o.budget);
    (Driver::start(Turn::open(session)), task_type, dropped)
}

// ---------------------------------------------------------------------------
// Laws
// ---------------------------------------------------------------------------

/// The one conversation goes on where the other ends.
pub open spec fn continues(
    before: Seq<history::MessageText>,
    after: Seq<history::MessageText>,
) -> bool {
    before.len() <= after.len() && after.take(before.len() as int) == before
}

proof fn lemma_continues_on(
    a: Seq<history::MessageText>,
    b: Seq<history::MessageText>,
    c: Seq<history::MessageText>,
)
    requires
        continues(a, b),
        continues(b, c),
    ensures
        continues(a, c),
{
    assert(c.take(a.len() as int) =~= c.take(b.len() as int).take(a.len() as int));
}

proof fn lemma_said(t: gate::TurnText, m: history::MessageText)
    ensures
        continues(t.session.history, gate::said(t, m).session.history),
{
    assert(gate::said(t, m).session.history.take(t.session.history.len() as int)
        =~= t.session.history);
}

proof fn lemma_same(h: Seq<history::MessageText>)
    ensures
        continues(h, h),
{
    assert(h.take(h.len() as int) =~= h);
}

/// Two messages in a row.
proof fn lemma_said_twice(t: gate::TurnText, m: history::MessageText, n: history::MessageText)
    ensures
        continues(t.session.history, gate::said(gate::said(t, m), n).session.history),
{
    lemma_said(t, m);
    lemma_said(gate::said(t, m), n);
    lemma_continues_on(
        t.session.history,
        gate::said(t, m).session.history,
        gate::said(gate::said(t, m), n).session.history,
    );
}

proof fn lemma_corrected(
    t: gate::TurnText,
    calls: Seq<history::CallText>,
    known: Seq<Seq<char>>,
    tool_list: Seq<char>,
)
    ensures
        continues(
            t.session.history,
            gate::corrected(t, calls, known, tool_list).session.history,
        ),
    decreases calls.len(),
{
    if calls.len() == 0 {
        lemma_same(t.session.history);
    } else {
        let before = gate::corrected(t, calls.drop_last(), known, tool_list);
        lemma_corrected(t, calls.drop_last(), known, tool_list);
        lemma_said(before, gate::correction(calls.last(), tool_list));
        lemma_continues_on(
            t.session.history,
            before.session.history,
            gate::said(before, gate::correction(calls.last(), tool_list)).session.history,
        );
    }
}

proof fn lemma_calls_done(t: gate::TurnText)
    ensures
        continues(t.session.history, calls_done(t).0.turn.session.history),
{
    let n = tally::one_more(t.session.readonly_rounds);
    lemma_same(t.session.history);
    let calm = gate::TurnText {
        session: gate::SessionText { readonly_rounds: 0, ..t.session },
        text_streak: 0,
        ..t
    };
    lemma_said(calm, history::plain("user"@, aftermath::nudge_text(n)));
}

proof fn lemma_next_read(t: gate::TurnText, q: QueueText)
    ensures
        continues(t.session.history, next_read(t, q).0.turn.session.history),
{
    lemma_same(t.session.history);
    lemma_calls_done(t);
}

proof fn lemma_watched(
    t: gate::TurnText,
    q: QueueText,
    c: gate::CallFacts,
    o: aftermath::OutcomeFacts,
)
    ensures
        continues(t.session.history, watched(t, q, c, o).0.turn.session.history),
{
    lemma_same(t.session.history);
    lemma_next_read(t, behind(q));
}

proof fn lemma_commanded(
    t: gate::TurnText,
    q: QueueText,
    c: gate::CallFacts,
    o: aftermath::OutcomeFacts,
)
    ensures
        continues(t.session.history, commanded(t, q, c, o).0.turn.session.history),
{
    let (after, step) = aftermath::command_noted(t, c, o);
    let n = tally::one_more(tally::count_of(t.attempts, "__bash"@));
    let counted = gate::TurnText { attempts: t.attempts.insert("__bash"@, n), ..t };
    lemma_same(t.session.history);
    lemma_said(
        counted,
        history::plain("user"@, aftermath::autofix_text(n, tools::or_empty(o.result))),
    );
    assert(continues(t.session.history, after.session.history));
    lemma_watched(after, q, c, o);
    lemma_continues_on(
        t.session.history,
        after.session.history,
        watched(after, q, c, o).0.turn.session.history,
    );
}

proof fn lemma_told(
    t: gate::TurnText,
    q: QueueText,
    c: gate::CallFacts,
    o: aftermath::OutcomeFacts,
    p: Pressure,
)
    ensures
        continues(t.session.history, told(t, q, c, o, p).0.turn.session.history),
{
    let after = aftermath::answered(t, c, o, p);
    let m = history::tool_reply(c.id, tools::capped(aftermath::answer_text(o), p));
    lemma_said(t, m);
    lemma_said_twice(t, m, history::plain("user"@, aftermath::failure_text(c.name)));
    assert(continues(t.session.history, after.session.history));
    lemma_commanded(after, q, c, o);
    lemma_continues_on(
        t.session.history,
        after.session.history,
        commanded(after, q, c, o).0.turn.session.history,
    );
}

proof fn lemma_resulted(
    t: gate::TurnText,
    q: QueueText,
    c: gate::CallFacts,
    o: aftermath::OutcomeFacts,
    p: Pressure,
)
    ensures
        continues(t.session.history, resulted(t, q, c, o, p).0.turn.session.history),
{
    let after = aftermath::noted(t, c, o);
    let m = history::plain("user"@, aftermath::not_found_text(tools::or_empty(c.path)));
    lemma_said(t, m);
    lemma_same(t.session.history);
    assert(continues(t.session.history, after.session.history));
    lemma_told(after, q, c, o, p);
    lemma_continues_on(
        t.session.history,
        after.session.history,
        told(after, q, c, o, p).0.turn.session.history,
    );
}

proof fn lemma_admitted(
    t: gate::TurnText,
    c: gate::CallFacts,
    contract_on: bool,
    has_contract: bool,
    talk: bool,
    bash_read_only: bool,
    patch_blocked: Option<Seq<char>>,
)
    ensures
        continues(
            t.session.history,
            gate::admitted(
                t,
                c,
                contract_on,
                has_contract,
                talk,
                bash_read_only,
                patch_blocked,
            ).0.session.history,
        ),
{
    let after = gate::admitted(
        t,
        c,
        contract_on,
        has_contract,
        talk,
        bash_read_only,
        patch_blocked,
    ).0;
    let key = gate::repeat_key(c.name, c.arguments);
    let n = tally::count_of(gate::call_counted(t.session, c).repeats, key);
    lemma_same(t.session.history);
    lemma_said(t, history::tool_reply(c.id, gate::REFUSAL@));
    let stuck = history::plain("user"@, gate::stuck_text(c.name, contract_on));
    let looped = history::tool_reply(c.id, gate::result_object(gate::loop_text(c.name, n)));
    lemma_said(t, looped);
    lemma_said_twice(t, looped, stuck);
    if patch_blocked is Some {
        lemma_said(t, history::tool_reply(c.id, gate::result_object(patch_blocked->0)));
    }
    lemma_said(t, history::tool_reply(c.id, gate::result_object(gate::duplicate_text(c))));
    assert(gate::call_counted(t.session, c).history == t.session.history);
    assert(continues(t.session.history, after.session.history));
}

proof fn lemma_screened(
    t: gate::TurnText,
    q: QueueText,
    c: gate::CallFacts,
    contract_on: bool,
    has_contract: bool,
    talk: bool,
    bash_read_only: bool,
    patch_blocked: Option<Seq<char>>,
)
    ensures
        continues(
            t.session.history,
            screened(
                t,
                q,
                c,
                contract_on,
                has_contract,
                talk,
                bash_read_only,
                patch_blocked,
            ).0.turn.session.history,
        ),
{
    let after = gate::admitted(
        t,
        c,
        contract_on,
        has_contract,
        talk,
        bash_read_only,
        patch_blocked,
    ).0;
    lemma_admitted(t, c, contract_on, has_contract, talk, bash_read_only, patch_blocked);
    lemma_calls_done(after);
    lemma_next_read(after, behind(q));
    lemma_continues_on(
        t.session.history,
        after.session.history,
        calls_done(after).0.turn.session.history,
    );
    lemma_continues_on(
        t.session.history,
        after.session.history,
        next_read(after, behind(q)).0.turn.session.history,
    );
}

proof fn lemma_text_noted(
    t: gate::TurnText,
    content: Option<Seq<char>>,
    action_task: bool,
    c: Option<contract::ContractText>,
)
    ensures
        continues(
            t.session.history,
            reply::text_noted(t, content, action_task, c).0.session.history,
        ),
{
    let h = t.session.history;
    lemma_same(h);
    let words = match content {
        Some(s) => s,
        None => Seq::empty(),
    };
    let own = history::plain("assistant"@, words);
    lemma_said(t, own);
    lemma_said(t, history::plain("assistant"@, reply::NO_REPLY@));
    lemma_said_twice(t, own, history::plain("user"@, reply::EMPTY_DEMAND@));
    lemma_said_twice(t, own, history::plain("user"@, reply::USE_TOOLS@));
    lemma_said(t, history::plain("user"@, reply::USE_TOOLS@));
    lemma_said_twice(t, own, history::plain("user"@, reply::STREAK_CONTRACT@));
    lemma_said(t, history::plain("user"@, reply::STREAK_CONTRACT@));
    lemma_said_twice(t, own, history::plain("user"@, reply::STREAK_PLAIN@));
    lemma_said(t, history::plain("user"@, reply::STREAK_PLAIN@));
    if c is Some {
        let demand = history::plain("user"@, contract::open_contract_text(c->0));
        lemma_said_twice(t, own, demand);
        lemma_said(t, demand);
    }
}

proof fn lemma_worded(
    t: gate::TurnText,
    content: Option<Seq<char>>,
    contract: Option<contract::ContractText>,
    r: Rules,
)
    ensures
        continues(t.session.history, worded(t, content, contract, r).0.turn.session.history),
{
    let after = reply::text_noted(t, content, r.action_task, contract).0;
    lemma_text_noted(t, content, r.action_task, contract);
    if content is Some {
        let own = history::plain("assistant"@, content->0);
        lemma_said(after, own);
        lemma_continues_on(
            t.session.history,
            after.session.history,
            gate::said(after, own).session.history,
        );
    }
}

/// The conversation as it stands when a reply is taken: once the reply is not
/// empty, the empty one before it and the demand to try again are gone.
pub open spec fn standing(d: DriverText, e: EventText) -> Seq<history::MessageText> {
    match (d.phase, e) {
        (PhaseText::Asked, EventText::Reply { reply, known, contract }) => gate::settled(
            d.turn,
            gate::is_answer(reply.call_list().len() as int, tools::or_empty(reply.text())),
        ).session.history,
        _ => d.turn.session.history,
    }
}

proof fn lemma_replied(
    t: gate::TurnText,
    m: history::MessageText,
    known: Seq<Seq<char>>,
    contract: Option<contract::ContractText>,
    r: Rules,
)
    ensures
        continues(
            gate::settled(
                t,
                gate::is_answer(m.call_list().len() as int, tools::or_empty(m.text())),
            ).session.history,
            replied(t, m, known, contract, r).0.turn.session.history,
        ),
{
    let calls = m.call_list();
    let settled = gate::settled(
        t,
        gate::is_answer(calls.len() as int, tools::or_empty(m.text())),
    );
    let h = settled.session.history;
    if calls.len() > 0 {
        let opened = gate::batch_opened(settled, tools::or_empty(calls[0].name), m);
        lemma_said(settled, m);
        assert(continues(h, opened.session.history));
        let after = gate::names_checked(opened, calls, known).0;
        let n = tally::one_more(opened.corrections);
        let counted = gate::TurnText { corrections: n, ..opened };
        let tool_list = text::join(text::sorted(known), ", "@);
        let fixed = gate::corrected(counted, calls, known, tool_list);
        lemma_corrected(counted, calls, known, tool_list);
        let note = history::plain(
            "user"@,
            "[SYSTEM] One or more tool calls used an invalid tool name. Call tools by their exact name. Available: "@
                + tool_list + "."@,
        );
        lemma_said(fixed, note);
        lemma_continues_on(
            opened.session.history,
            fixed.session.history,
            gate::said(fixed, note).session.history,
        );
        lemma_same(opened.session.history);
        assert(continues(opened.session.history, after.session.history));
        lemma_continues_on(h, opened.session.history, after.session.history);
        let q = QueueText { calls, at: 0 };
        lemma_next_read(after, q);
        lemma_continues_on(
            h,
            after.session.history,
            next_read(after, q).0.turn.session.history,
        );
    } else {
        lemma_worded(settled, m.text(), contract, r);
    }
}

proof fn lemma_checked(
    t: gate::TurnText,
    q: QueueText,
    c: gate::CallFacts,
    o: aftermath::OutcomeFacts,
    path: Seq<char>,
    v: aftermath::VerdictFacts,
    issues: Seq<Seq<char>>,
    has_tests: bool,
)
    ensures
        continues(
            t.session.history,
            checked(t, q, c, o, path, v, issues, has_tests).0.turn.session.history,
        ),
{
    let h = t.session.history;
    let verified = aftermath::verified(t, path, v, has_tests);
    let n = tally::one_more(tally::count_of(t.attempts, path));
    lemma_same(h);
    match v {
        aftermath::VerdictFacts::Accept => {},
        aftermath::VerdictFacts::Retry { errors } => {
            lemma_said(t, history::plain("user"@, aftermath::fix_text(path, n, errors, has_tests)));
        },
        aftermath::VerdictFacts::Decompose { instruction, lines } => {
            lemma_said(t, history::plain("user"@, aftermath::decompose_text(instruction, lines)));
        },
    }
    assert(continues(h, verified.session.history));
    let review = history::plain("user"@, aftermath::review_text(path, issues));
    lemma_said(verified, review);
    lemma_continues_on(
        h,
        verified.session.history,
        gate::said(verified, review).session.history,
    );
    lemma_commanded(verified, q, c, o);
    lemma_commanded(gate::said(verified, review), q, c, o);
    lemma_continues_on(
        h,
        verified.session.history,
        commanded(verified, q, c, o).0.turn.session.history,
    );
    lemma_continues_on(
        h,
        gate::said(verified, review).session.history,
        commanded(gate::said(verified, review), q, c, o).0.turn.session.history,
    );
}

/// A message of the user, and then the end of the calls.
proof fn lemma_signalled(t: gate::TurnText, s: Seq<char>)
    ensures
        continues(
            t.session.history,
            calls_done(gate::said(t, history::plain("user"@, s))).0.turn.session.history,
        ),
{
    let said = gate::said(t, history::plain("user"@, s));
    lemma_said(t, history::plain("user"@, s));
    lemma_calls_done(said);
    lemma_continues_on(
        t.session.history,
        said.session.history,
        calls_done(said).0.turn.session.history,
    );
}

/// Within a turn the conversation only grows: whatever happens, what stands is
/// kept. The one thing ever taken back is an empty reply with the demand to try
/// again, once a reply came that is not empty.
pub proof fn law_conversation_only_grows(d: DriverText, e: EventText, r: Rules)
    ensures
        continues(standing(d, e), stepped(d, e, r).0.turn.session.history),
{
    let t = d.turn;
    lemma_same(t.session.history);
    match (d.phase, e) {
        (PhaseText::Asked, EventText::Reply { reply, known, contract }) => {
            lemma_replied(t, reply, known, contract, r);
        },
        (
            PhaseText::Reading(q),
            EventText::Read {
                call,
                contract_on,
                has_contract,
                talk,
                bash_read_only,
                patch_blocked,
            },
        ) => {
            lemma_screened(
                t,
                q,
                call,
                contract_on,
                has_contract,
                talk,
                bash_read_only,
                patch_blocked,
            );
        },
        (PhaseText::Running(q, c), EventText::Result { outcome, pressure }) => {
            lemma_resulted(t, q, c, outcome, pressure);
        },
        (PhaseText::Patched(q, c, o, p), EventText::Signal(s)) => {
            lemma_told(t, q, c, o, p);
            if s is Some {
                lemma_signalled(t, s->0);
            }
        },
        (PhaseText::Checking(q, c, o, path), EventText::Checked { verdict, issues }) => {
            lemma_checked(t, q, c, o, path, verdict, issues, r.has_tests);
        },
        (PhaseText::Rethinking(q, c, o), EventText::Strategy(s)) => {
            let after = aftermath::rethought(t, s);
            lemma_said(
                t,
                history::plain(
                    "user"@,
                    "[DECOMPOSE] The command has failed 3 times. STOP retrying the same approach.\n\n"@
                        + s,
                ),
            );
            lemma_watched(after, q, c, o);
            lemma_continues_on(
                t.session.history,
                after.session.history,
                watched(after, q, c, o).0.turn.session.history,
            );
        },
        (PhaseText::Commanded(q), EventText::Signal(s)) => {
            lemma_next_read(t, behind(q));
            if s is Some {
                lemma_signalled(t, s->0);
            }
        },
        (PhaseText::Closing(content), EventText::Signal(s)) => {
            let own = history::plain("assistant"@, content);
            lemma_said(t, own);
            if s is Some {
                lemma_said_twice(t, own, history::plain("user"@, s->0));
            }
        },
        (PhaseText::Streaming, EventText::Streamed(s)) => {
            if s is Some {
                lemma_said(t, history::plain("assistant"@, s->0));
            }
        },
        _ => {},
    }
}

/// A turn that is over stays as it is, whatever comes.
pub proof fn law_over_is_over(d: DriverText, e: EventText, r: Rules)
    requires
        d.phase is Over,
    ensures
        stepped(d, e, r) == (d, ActionText::Ignore),
{
}

/// The model is asked only while calls are left and nobody asked to stop.
pub proof fn law_asking_is_bounded(d: DriverText, e: EventText, r: Rules)
    requires
        stepped(d, e, r).1 is Ask,
    ensures
        d.turn.calls < r.limit,
        e == (EventText::Ready { interrupts: 0 }),
{
}

/// A tool is run only when the guards let the call through.
pub proof fn law_only_admitted_calls_run(d: DriverText, e: EventText, r: Rules)
    requires
        stepped(d, e, r).1 is Run,
    ensures
        d.phase is Reading,
        e matches EventText::Read {
            call,
            contract_on,
            has_contract,
            talk,
            bash_read_only,
            patch_blocked,
        } && gate::admitted(
            d.turn,
            call,
            contract_on,
            has_contract,
            talk,
            bash_read_only,
            patch_blocked,
        ).1 is Run,
{
}

/// A request is not lost to compaction: it is the last thing in the
/// conversation when the model is first asked, unless the system messages alone
/// take up the room.
pub proof fn law_request_is_put(s: gate::SessionText, o: OpeningText)
    requires
        ({
            let told = asked_for(s.history, o);
            let bare = history::system_messages(s.history).push(told.last());
            ||| history::history_tokens(told) <= o.budget.soft_limit && told.len() <= 30
            ||| bare.len() <= 6
            ||| history::history_tokens(bare) < o.budget.target
        }),
    ensures
        ({
            let h = begun(s, o).0.turn.session.history;
            &&& h.len() > 0
            &&& h.last() == asked_for(s.history, o).last()
        }),
{
    let told = asked_for(s.history, o);
    if !(history::history_tokens(told) <= o.budget.soft_limit && told.len() <= 30) {
        assert(told.drop_last() =~= s.history);
        history::law_latest_stays(told, o.budget.target as nat);
        let kept = history::shrunk(told, o.budget.target as nat);
        let note = seq![history::compaction_note(o.budget.shown as nat)];
        assert((note + kept).last() == kept.last());
    }
}

proof fn lemma_result_is_told(
    t: gate::TurnText,
    q: QueueText,
    c: gate::CallFacts,
    o: aftermath::OutcomeFacts,
    p: Pressure,
)
    ensures
        continues(
            aftermath::answered(t, c, o, p).session.history,
            told(t, q, c, o, p).0.turn.session.history,
        ),
{
    let after = aftermath::answered(t, c, o, p);
    lemma_same(after.session.history);
    lemma_commanded(after, q, c, o);
}

/// What a call came to is what the model reads next: once a tool has answered,
/// or once the watcher of patches has nothing against it, the next message of
/// the conversation answers the call under its id, with the result or, without
/// one, with the error, in full when it takes at most four thousand bytes.
pub proof fn law_results_enter_the_conversation(
    d: DriverText,
    q: QueueText,
    c: gate::CallFacts,
    o: aftermath::OutcomeFacts,
    p: Pressure,
    r: Rules,
)
    ensures
        d.phase == PhaseText::Running(q, c) && c.name != "patch"@ && c.name != "read_and_patch"@
            ==> {
            let h = d.turn.session.history;
            let after = stepped(
                d,
                EventText::Result { outcome: o, pressure: p },
                r,
            ).0.turn.session.history;
            let m = after[h.len() as int];
            &&& after.len() > h.len()
            &&& m.role == Some("tool"@)
            &&& m.tool_call_id == Some(c.id)
            &&& forall|s: Seq<char>|
                #![trigger text::utf8_len(s)]
                (o.result == Some(s) || (o.result is None && o.error == Some(s)))
                    && text::utf8_len(s) <= 4_000 ==> m.content == history::ContentText::Text(s)
        },
        d.phase == PhaseText::Running(q, c) && (c.name == "patch"@ || c.name
            == "read_and_patch"@) ==> stepped(
            d,
            EventText::Result { outcome: o, pressure: p },
            r,
        ).0.phase == PhaseText::Patched(q, c, o, p),
        d.phase == PhaseText::Patched(q, c, o, p) ==> {
            let h = d.turn.session.history;
            let after = stepped(d, EventText::Signal(None), r).0.turn.session.history;
            let m = after[h.len() as int];
            &&& after.len() > h.len()
            &&& m.role == Some("tool"@)
            &&& m.tool_call_id == Some(c.id)
            &&& forall|s: Seq<char>|
                #![trigger text::utf8_len(s)]
                (o.result == Some(s) || (o.result is None && o.error == Some(s)))
                    && text::utf8_len(s) <= 4_000 ==> m.content == history::ContentText::Text(s)
        },
{
    let t = d.turn;
    if d.phase == PhaseText::Running(q, c) && c.name != "patch"@ && c.name != "read_and_patch"@ {
        aftermath::law_missed_patch_is_explained(t, c, o);
        let n = aftermath::noted(t, c, o);
        aftermath::law_answer_reaches_the_model(n, c, o, p);
        lemma_result_is_told(n, q, c, o, p);
        let a = aftermath::answered(n, c, o, p).session.history;
        let after = told(n, q, c, o, p).0.turn.session.history;
        assert(after.take(a.len() as int)[t.session.history.len() as int]
            == a[t.session.history.len() as int]);
    }
    if d.phase == PhaseText::Patched(q, c, o, p) {
        aftermath::law_answer_reaches_the_model(t, c, o, p);
        lemma_result_is_told(t, q, c, o, p);
        let a = aftermath::answered(t, c, o, p).session.history;
        let after = told(t, q, c, o, p).0.turn.session.history;
        assert(after.take(a.len() as int)[t.session.history.len() as int]
            == a[t.session.history.len() as int]);
    }
}

/// The calls of a reply are taken one after the other, from the first to the
/// last, and then the round is over and the model may be asked again.
pub proof fn law_calls_in_order(t: gate::TurnText, q: QueueText)
    ensures
        q.at < q.calls.len() ==> next_read(t, q) == (
            DriverText { turn: t, phase: PhaseText::Reading(q) },
            ActionText::Read,
        ),
        q.at >= q.calls.len() ==> next_read(t, q).0.phase is Open && next_read(t, q).1 is AfterCalls,
        behind(q).at == q.at + 1 && behind(q).calls == q.calls,
{
}

/// A reply with calls that all name known tools joins the conversation, and its
/// first call is read next.
pub proof fn law_calls_are_taken_up(
    t: gate::TurnText,
    m: history::MessageText,
    known: Seq<Seq<char>>,
    c: Option<contract::ContractText>,
    r: Rules,
)
    requires
        m.calls is List,
        m.calls->List_0.len() > 0,
        forall|i: int|
            0 <= i < m.calls->List_0.len() ==> ((#[trigger] m.calls->List_0[i]).name matches Some(n)
                && n.len() > 0 && known.contains(n)),
        !t.retry_pending,
    ensures
        ({
            let (d, a) = replied(t, m, known, c, r);
            &&& a is Read
            &&& d.phase == PhaseText::Reading(QueueText { calls: m.calls->List_0, at: 0 })
            &&& d.turn.session.history == t.session.history.push(m)
        }),
{
    let calls = m.calls->List_0;
    lemma_none_misnamed(calls, known);
}

proof fn lemma_none_misnamed(calls: Seq<history::CallText>, known: Seq<Seq<char>>)
    requires
        forall|i: int|
            0 <= i < calls.len() ==> ((#[trigger] calls[i]).name matches Some(n) && n.len() > 0
                && known.contains(n)),
    ensures
        gate::misnamed_count(calls, known) == 0,
    decreases calls.len(),
{
    if calls.len() > 0 {
        let d = calls.drop_last();
        assert forall|i: int| 0 <= i < d.len() implies ((#[trigger] d[i]).name matches Some(n)
            && n.len() > 0 && known.contains(n)) by {
            assert(d[i] == calls[i]);
        }
        lemma_none_misnamed(d, known);
        assert(calls[calls.len() - 1] == calls.last());
    }
}

/// A turn ends in words: those of a reply that stands are the last message of
/// the conversation, whether they come at once, after they were weighed, or as
/// a stream.
pub proof fn law_turn_ends_in_words(
    t: gate::TurnText,
    s: Seq<char>,
    r: Rules,
    k: Option<contract::ContractText>,
)
    ensures
        reply::text_noted(t, Some(s), r.action_task, k).1 is Accept && t.calls == 0 ==> {
            let (d, a) = worded(t, Some(s), k, r);
            &&& a == ActionText::End(Ending::Said)
            &&& d.phase is Over
            &&& d.turn.session.history == t.session.history.push(history::plain("assistant"@, s))
        },
        reply::text_noted(t, Some(s), r.action_task, k).1 is Accept && t.calls > 0 ==> worded(
            t,
            Some(s),
            k,
            r,
        ).1 is WatchWords && worded(t, Some(s), k, r).0.phase == PhaseText::Closing(s),
        ({
            let d = DriverText { turn: t, phase: PhaseText::Closing(s) };
            let (e, a) = stepped(d, EventText::Signal(None), r);
            &&& a == ActionText::End(Ending::Said)
            &&& e.turn.session.history == t.session.history.push(history::plain("assistant"@, s))
        }),
        ({
            let d = DriverText { turn: t, phase: PhaseText::Streaming };
            let (e, a) = stepped(d, EventText::Streamed(Some(s)), r);
            &&& a == ActionText::End(Ending::Said)
            &&& e.turn.session.history == t.session.history.push(history::plain("assistant"@, s))
        }),
{
    let h = t.session.history;
    if reply::text_noted(t, Some(s), r.action_task, k).1 is Accept {
        assert(reply::text_noted(t, Some(s), r.action_task, k).0.session == t.session);
    }
}

/// A turn that may not go on says why: all the calls allowed were made, the user
/// interrupted it, or the model gave no reply.
pub proof fn law_turn_says_why_it_ends(t: gate::TurnText, interrupts: u32, r: Rules)
    ensures
        ({
            let open = DriverText { turn: t, phase: PhaseText::Open };
            let asked = DriverText { turn: t, phase: PhaseText::Asked };
            let a = stepped(open, EventText::Ready { interrupts }, r).1;
            &&& t.calls >= r.limit ==> a == ActionText::End(Ending::Limit)
            &&& t.calls < r.limit && interrupts > 0 ==> a == ActionText::End(Ending::Interrupted)
            &&& t.calls < r.limit && interrupts == 0 ==> a is Ask
            &&& stepped(asked, EventText::Silence, r).1 == ActionText::End(Ending::NoReply)
            &&& stepped(asked, EventText::Silence, r).0.turn == t
        }),
{
}

/// What a watcher says is put to the model, and the other calls of the reply are
/// dropped.
pub proof fn law_watchers_are_heard(t: gate::TurnText, q: QueueText, s: Seq<char>, r: Rules)
    ensures
        ({
            let d = DriverText { turn: t, phase: PhaseText::Commanded(q) };
            let (e, a) = stepped(d, EventText::Signal(Some(s)), r);
            let h = t.session.history;
            &&& a is AfterCalls
            &&& e.phase is Open
            &&& e.turn.session.history.len() > h.len()
            &&& e.turn.session.history[h.len() as int] == history::plain("user"@, s)
        }),
        ({
            let d = DriverText { turn: t, phase: PhaseText::Commanded(q) };
            stepped(d, EventText::Signal(None), r) == next_read(t, behind(q))
        }),
{
    let said = gate::said(t, history::plain("user"@, s));
    lemma_calls_done(said);
    let h = t.session.history;
    let a = said.session.history;
    let e = calls_done(said).0.turn.session.history;
    assert(e.take(a.len() as int)[h.len() as int] == a[h.len() as int]);
}

/// A file that was written or patched is checked before the next call, and a
/// command is watched.
pub proof fn law_work_is_followed_up(
    t: gate::TurnText,
    q: QueueText,
    c: gate::CallFacts,
    o: aftermath::OutcomeFacts,
    p: Pressure,
)
    ensures
        (c.name == "write_file"@ || c.name == "patch"@) && !o.failed && c.path is Some ==> told(
            t,
            q,
            c,
            o,
            p,
        ).1 == (ActionText::Check { path: c.path->0 }),
        c.name == "bash"@ || c.name == "run"@ ==> watched(t, q, c, o).1 == (
        ActionText::WatchCommand { exit_code: aftermath::exit_code(o) }),
        c.name != "bash"@ && c.name != "run"@ ==> watched(t, q, c, o) == next_read(t, behind(q)),
{
}

/// A request opens a turn: it stands at the end of the conversation as a message
/// of the user, which is then held to its budget; and mere conversation is taken
/// for a question.
pub proof fn law_request_opens_the_turn(s: gate::SessionText, o: OpeningText)
    ensures
        ({
            let (d, task, dropped) = begun(s, o);
            let m = history::plain(
                "user"@,
                turn::augmented(
                    o.request,
                    o.references,
                    o.diff,
                    o.contract_on && !o.has_contract && !o.chatty,
                ),
            );
            &&& d.phase is Open
            &&& d.turn.session.history == history::compacted(s.history.push(m), o.budget)
            &&& d.turn.calls == 0 && !d.turn.changed && d.turn.edited.len() == 0
            &&& d.turn.session.repeats == s.repeats
            &&& d.turn.session.mutated == s.mutated
            &&& !turn::affirms(o.request) && o.talk ==> task == "explanation"@
                && d.turn.session.category == Some("respond"@)
            &&& !turn::affirms(o.request) && !o.talk ==> task == o.label
                && d.turn.session.category is None
            &&& dropped ==> d.turn.session.history != s.history.push(m)
        }),
{
}

} // verus!
