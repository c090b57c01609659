//! The state of a turn and the guards around each tool call: what is let
//! through, what is answered in its place, and what follows from its result.

use vstd::prelude::*;

use crate::agent::history::{Message, ToolCall};
use crate::agent::history;
use crate::agent::tally::{Tally, TextSet};
use crate::agent::tally;
use crate::agent::tools;
use crate::agent::turn;
use crate::outside;
use crate::text;

verus! {

// ---------------------------------------------------------------------------
// State
// ---------------------------------------------------------------------------

/// What lives across turns.
#[derive(Debug)]
pub struct Session {
    pub history: Vec<Message>,
    /// How often each tool was called with the same arguments.
    pub repeats: Tally,
    /// Paths that were changed since they were last read.
    pub mutated: TextSet,
    /// The counters of shell commands, forgotten after a change.
    pub bash_keys: TextSet,
    /// Rounds in a row that changed nothing.
    pub readonly_rounds: u32,
    /// Changes made in this session.
    pub mutations: u32,
    /// The category of tools that is open.
    pub category: Option<String>,
}

pub ghost struct SessionText {
    pub history: Seq<history::MessageText>,
    pub repeats: Map<Seq<char>, u32>,
    pub mutated: Set<Seq<char>>,
    pub bash_keys: Set<Seq<char>>,
    pub readonly_rounds: u32,
    pub mutations: u32,
    pub category: Option<Seq<char>>,
}

impl View for Session {
    type V = SessionText;

    open spec fn view(&self) -> SessionText {
        SessionText {
            history: history::messages(self.history@),
            repeats: self.repeats@,
            mutated: self.mutated@,
            bash_keys: self.bash_keys@,
            readonly_rounds: self.readonly_rounds,
            mutations: self.mutations,
            category: text::opt_text(self.category),
        }
    }
}

/// What the calls of one reply amount to.
#[derive(Debug, Clone, Copy)]
pub struct Batch {
    pub mutating: bool,
    pub contract: bool,
    pub active_bash: bool,
    pub fresh_read: bool,
}

/// One turn of the agent, with the session that it belongs to.
#[derive(Debug)]
pub struct Turn {
    pub session: Session,
    /// Tool calls made in this turn.
    pub calls: u32,
    /// Paths changed in this turn, in order.
    pub edited: Vec<String>,
    pub changed: bool,
    /// The next request is made without thinking.
    pub thinking_off: bool,
    /// The last two messages are an empty reply and the demand to try again.
    pub retry_pending: bool,
    /// Attempts to repair each file, and commands.
    pub attempts: Tally,
    /// Failures in a row of each tool.
    pub failures: Tally,
    pub corrections: u32,
    pub refusals: u32,
    pub text_streak: u32,
    pub empties: u32,
    pub contract_rounds: u32,
    /// Idempotent writes seen in this turn.
    pub writes: TextSet,
    /// Blocked calls in a row.
    pub blocks: u32,
    pub batch: Batch,
}

pub ghost struct TurnText {
    pub session: SessionText,
    pub calls: u32,
    pub edited: Seq<Seq<char>>,
    pub changed: bool,
    pub thinking_off: bool,
    pub retry_pending: bool,
    pub attempts: Map<Seq<char>, u32>,
    pub failures: Map<Seq<char>, u32>,
    pub corrections: u32,
    pub refusals: u32,
    pub text_streak: u32,
    pub empties: u32,
    pub contract_rounds: u32,
    pub writes: Set<Seq<char>>,
    pub blocks: u32,
    pub batch: Batch,
}

impl View for Turn {
    type V = TurnText;

    open spec fn view(&self) -> TurnText {
        TurnText {
            session: self.session@,
            calls: self.calls,
            edited: text::texts(self.edited@),
            changed: self.changed,
            thinking_off: self.thinking_off,
            retry_pending: self.retry_pending,
            attempts: self.attempts@,
            failures: self.failures@,
            corrections: self.corrections,
            refusals: self.refusals,
            text_streak: self.text_streak,
            empties: self.empties,
            contract_rounds: self.contract_rounds,
            writes: self.writes@,
            blocks: self.blocks,
            batch: self.batch,
        }
    }
}

pub open spec fn quiet_batch() -> Batch {
    Batch { mutating: false, contract: false, active_bash: false, fresh_read: false }
}

impl Session {
    pub fn new() -> (s: Session)
        ensures
            s@ == (SessionText {
                history: Seq::empty(),
                repeats: Map::empty(),
                mutated: Set::empty(),
                bash_keys: Set::empty(),
                readonly_rounds: 0,
                mutations: 0,
                category: None,
            }),
    {
        let s = Session {
            history: Vec::new(),
            repeats: Tally::new(),
            mutated: TextSet::new(),
            bash_keys: TextSet::new(),
            readonly_rounds: 0,
            mutations: 0,
            category: None,
        };
        assert(s@.history =~= Seq::<history::MessageText>::empty());
        s
    }
}

/// A turn that has done nothing yet.
pub open spec fn opened(s: SessionText) -> TurnText {
    TurnText {
        session: s,
        calls: 0,
        edited: Seq::empty(),
        changed: false,
        thinking_off: false,
        retry_pending: false,
        attempts: Map::empty(),
        failures: Map::empty(),
        corrections: 0,
        refusals: 0,
        text_streak: 0,
        empties: 0,
        contract_rounds: 0,
        writes: Set::empty(),
        blocks: 0,
        batch: quiet_batch(),
    }
}

/// `t` with a message at the end of its conversation.
pub open spec fn said(t: TurnText, m: history::MessageText) -> TurnText {
    TurnText {
        session: SessionText { history: t.session.history.push(m), ..t.session },
        ..t
    }
}

fn more(n: u32) -> (r: u32)
    ensures
        r == tally::one_more(n),
{
    if n < u32::MAX {
        n + 1
    } else {
        n
    }
}

impl Turn {
    /// Opens a turn.
    pub fn open(session: Session) -> (t: Turn)
        ensures
            t@ == opened(session@),
    {
        let t = Turn {
            session,
            calls: 0,
            edited: Vec::new(),
            changed: false,
            thinking_off: false,
            retry_pending: false,
            attempts: Tally::new(),
            failures: Tally::new(),
            corrections: 0,
            refusals: 0,
            text_streak: 0,
            empties: 0,
            contract_rounds: 0,
            writes: TextSet::new(),
            blocks: 0,
            batch: Batch { mutating: false, contract: false, active_bash: false, fresh_read: false },
        };
        assert(t@.edited =~= Seq::<Seq<char>>::empty());
        t
    }

    /// Adds a message to the conversation.
    pub fn say(&mut self, m: Message)
        ensures
            final(self)@ == said(old(self)@, m@),
    {
        proof {
            history::lemma_messages_push(self.session.history@, m);
        }
        self.session.history.push(m);
    }

    /// Adds a plain message to the conversation.
    pub fn say_plain(&mut self, role: &str, content: String)
        ensures
            final(self)@ == said(old(self)@, history::plain(role@, content@)),
    {
        self.say(Message::plain(role, content));
    }

    /// Answers a tool call.
    pub fn answer(&mut self, id: &str, content: String)
        ensures
            final(self)@ == said(old(self)@, history::tool_reply(id@, content@)),
    {
        self.say(Message::tool_reply(id, content));
    }
}

// ---------------------------------------------------------------------------
// Before a reply's calls are run
// ---------------------------------------------------------------------------

/// The conversation without the empty reply and the demand to try again, once a
/// reply came that is not empty.
pub open spec fn settled(t: TurnText, answered: bool) -> TurnText {
    if t.retry_pending && answered {
        let h = t.session.history;
        TurnText {
            session: SessionText {
                history: if h.len() >= 2 {
                    h.drop_last().drop_last()
                } else {
                    h
                },
                ..t.session
            },
            retry_pending: false,
            ..t
        }
    } else {
        t
    }
}

/// A reply that says or does something.
pub open spec fn is_answer(calls: int, content: Seq<char>) -> bool {
    calls > 0 || text::trimmed(content).len() > 0
}

/// `t` when it starts on the calls of a reply.
pub open spec fn batch_opened(
    t: TurnText,
    first_tool: Seq<char>,
    reply: history::MessageText,
) -> TurnText {
    let category = if first_tool == "select_category"@ {
        t.session.category
    } else {
        Some("plan"@)
    };
    said(
        TurnText {
            session: SessionText { category, ..t.session },
            thinking_off: false,
            batch: quiet_batch(),
            ..t
        },
        reply,
    )
}

/// Whether a call's name is missing or names no tool.
pub open spec fn misnamed(c: history::CallText, known: Seq<Seq<char>>) -> bool {
    let name = tools::or_empty(c.name);
    name.len() == 0 || !known.contains(name)
}

/// What a call with a wrong name is answered.
pub open spec fn correction(c: history::CallText, tool_list: Seq<char>) -> history::MessageText {
    let name = tools::or_empty(c.name);
    history::tool_reply(
        tools::or_empty(c.id),
        if name.len() == 0 {
            "Error: tool name is empty. Available tools: "@ + tool_list + "."@
        } else {
            "Error: `"@ + name + "` is not a valid tool. Available tools: "@ + tool_list + "."@
        },
    )
}

/// `t` after every call of `calls` with a wrong name is answered.
pub open spec fn corrected(
    t: TurnText,
    calls: Seq<history::CallText>,
    known: Seq<Seq<char>>,
    tool_list: Seq<char>,
) -> TurnText
    decreases calls.len(),
{
    if calls.len() == 0 {
        t
    } else {
        let before = corrected(t, calls.drop_last(), known, tool_list);
        if misnamed(calls.last(), known) {
            said(before, correction(calls.last(), tool_list))
        } else {
            before
        }
    }
}

/// How many of `calls` have a wrong name.
pub open spec fn misnamed_count(calls: Seq<history::CallText>, known: Seq<Seq<char>>) -> nat
    decreases calls.len(),
{
    if calls.len() == 0 {
        0
    } else {
        misnamed_count(calls.drop_last(), known) + (if misnamed(calls.last(), known) {
            1nat
        } else {
            0nat
        })
    }
}

/// Checks the names of a reply's calls. While there are wrong ones, the model
/// is told so, twice at most in a turn, and none of its calls is run.
pub open spec fn names_checked(
    t: TurnText,
    calls: Seq<history::CallText>,
    known: Seq<Seq<char>>,
) -> (TurnText, bool) {
    if misnamed_count(calls, known) == 0 {
        (t, false)
    } else {
        let n = tally::one_more(t.corrections);
        let counted = TurnText { corrections: n, ..t };
        if n <= 2 {
            let tool_list = text::join(text::sorted(known), ", "@);
            (
                said(
                    corrected(counted, calls, known, tool_list),
                    history::plain(
                        "user"@,
                        "[SYSTEM] One or more tool calls used an invalid tool name. Call tools by their exact name. Available: "@
                            + tool_list + "."@,
                    ),
                ),
                true,
            )
        } else {
            (counted, false)
        }
    }
}

fn lists(v: &Vec<String>, x: &str) -> (r: bool)
    ensures
        r == text::texts(v@).contains(x@),
{
    let ghost all = text::texts(v@);
    let mut i: usize = 0;
    while i < v.len()
        invariant
            i <= v.len(),
            all == text::texts(v@),
            forall|j: int| 0 <= j < i ==> all[j] != x@,
        decreases v.len() - i,
    {
        if text::same(&v[i], x) {
            assert(all[i as int] == x@);
            return true;
        }
        i = i + 1;
    }
    false
}

fn or_blank(s: &Option<String>) -> (r: String)
    ensures
        r@ == tools::or_empty(text::opt_text(*s)),
{
    match s {
        Some(t) => t.clone(),
        None => {
            let e = String::new();
            assert(e@ =~= Seq::<char>::empty());
            e
        },
    }
}

fn is_misnamed(c: &ToolCall, known: &Vec<String>) -> (r: bool)
    ensures
        r == misnamed(c@, text::texts(known@)),
{
    let name = or_blank(&c.name);
    name.as_str().is_empty() || !lists(known, &name)
}

/// How many of `calls` have a wrong name.
pub fn count_misnamed(calls: &Vec<ToolCall>, known: &Vec<String>) -> (n: usize)
    ensures
        n == misnamed_count(history::call_texts(calls@), text::texts(known@)),
{
    let ghost all = history::call_texts(calls@);
    let mut n: usize = 0;
    let mut i: usize = 0;
    assert(all.take(0) =~= Seq::<history::CallText>::empty());
    while i < calls.len()
        invariant
            i <= calls.len(),
            n <= i,
            all == history::call_texts(calls@),
            n == misnamed_count(all.take(i as int), text::texts(known@)),
        decreases calls.len() - i,
    {
        assert(all.take(i + 1).drop_last() =~= all.take(i as int));
        assert(all.take(i + 1).last() == calls@[i as int]@);
        if is_misnamed(&calls[i], known) {
            n = n + 1;
        }
        i = i + 1;
    }
    assert(all.take(i as int) =~= all);
    n
}

impl Turn {
    /// Takes an earlier empty reply out of the conversation once a reply with
    /// `calls` tool calls or a text came.
    pub fn settle_retry(&mut self, calls: usize, content: &str)
        ensures
            final(self)@ == settled(old(self)@, is_answer(calls as int, content@)),
    {
        let trimmed = text::trim(content);
        if self.retry_pending && (calls > 0 || !trimmed.as_str().is_empty()) {
            let ghost before = history::messages(self.session.history@);
            if self.session.history.len() >= 2 {
                let _ = self.session.history.pop();
                let _ = self.session.history.pop();
                assert(history::messages(self.session.history@) =~= before.drop_last().drop_last());
            }
            self.retry_pending = false;
        }
    }

    /// Starts on the calls of a reply: unless the model is choosing a category,
    /// the planning tools are opened, and the reply joins the conversation.
    pub fn open_batch(&mut self, first_tool: &str, reply: Message)
        ensures
            final(self)@ == batch_opened(old(self)@, first_tool@, reply@),
    {
        self.thinking_off = false;
        self.batch = Batch { mutating: false, contract: false, active_bash: false, fresh_read: false };
        if !text::same(first_tool, "select_category") {
            self.session.category = Some("plan".to_owned());
        }
        self.say(reply);
    }

    /// Checks the names of a reply's calls; says whether the model was corrected
    /// and is to be asked again.
    pub fn check_names(&mut self, calls: &Vec<ToolCall>, known: &Vec<String>) -> (steered: bool)
        ensures
            (final(self)@, steered) == names_checked(
                old(self)@,
                history::call_texts(calls@),
                text::texts(known@),
            ),
    {
        if count_misnamed(calls, known) == 0 {
            return false;
        }
        self.corrections = more(self.corrections);
        if self.corrections > 2 {
            return false;
        }
        let sorted = text::sort_texts(known);
        let tool_list = text::join_with(&sorted, ", ");
        let ghost counted = self@;
        let ghost all = history::call_texts(calls@);
        let ghost names = text::texts(known@);
        let mut i: usize = 0;
        assert(all.take(0) =~= Seq::<history::CallText>::empty());
        while i < calls.len()
            invariant
                i <= calls.len(),
                all == history::call_texts(calls@),
                names == text::texts(known@),
                self@ == corrected(counted, all.take(i as int), names, tool_list@),
            decreases calls.len() - i,
        {
            assert(all.take(i + 1).drop_last() =~= all.take(i as int));
            assert(all.take(i + 1).last() == calls@[i as int]@);
            if is_misnamed(&calls[i], known) {
                let name = or_blank(&calls[i].name);
                let id = or_blank(&calls[i].id);
                let err: String = if name.as_str().is_empty() {
                    let mut e: String = "Error: tool name is empty. Available tools: ".to_owned();
                    e.push_str(&tool_list);
                    e.push_str(".");
                    e
                } else {
                    let mut e: String = "Error: `".to_owned();
                    e.push_str(&name);
                    e.push_str("` is not a valid tool. Available tools: ");
                    e.push_str(&tool_list);
                    e.push_str(".");
                    e
                };
                self.answer(&id, err);
            }
            i = i + 1;
        }
        assert(all.take(i as int) =~= all);
        let mut note: String =
            "[SYSTEM] One or more tool calls used an invalid tool name. Call tools by their exact name. Available: ".to_owned();
        note.push_str(&tool_list);
        note.push_str(".");
        self.say_plain("user", note);
        true
    }
}

// ---------------------------------------------------------------------------
// Admission of a call
// ---------------------------------------------------------------------------

/// What is known of a call before it is run.
#[derive(Debug)]
pub struct Call {
    pub name: String,
    pub id: String,
    /// The argument `path`, when it is a string.
    pub path: Option<String>,
    /// The arguments as compact JSON.
    pub arguments: String,
    /// The key under which a repeated idempotent write is recognised.
    pub write_key: String,
    /// The argument `id`, or a question mark.
    pub assertion: String,
    /// The argument `state`, or a question mark.
    pub state: String,
}

pub ghost struct CallFacts {
    pub name: Seq<char>,
    pub id: Seq<char>,
    pub path: Option<Seq<char>>,
    pub arguments: Seq<char>,
    pub write_key: Seq<char>,
    pub assertion: Seq<char>,
    pub state: Seq<char>,
}

impl View for Call {
    type V = CallFacts;

    open spec fn view(&self) -> CallFacts {
        CallFacts {
            name: self.name@,
            id: self.id@,
            path: text::opt_text(self.path),
            arguments: self.arguments@,
            write_key: self.write_key@,
            assertion: self.assertion@,
            state: self.state@,
        }
    }
}

/// The surroundings of a call.
#[derive(Debug)]
pub struct Surroundings {
    pub contract_on: bool,
    pub has_contract: bool,
    /// The task changes nothing.
    pub talk: bool,
    /// The call's shell command only reads.
    pub bash_read_only: bool,
    /// What to answer when patches of the call's path are blocked.
    pub patch_blocked: Option<String>,
}

/// What becomes of a call.
#[derive(Debug, Clone, Copy, PartialEq, Eq, Structural)]
pub enum Admission {
    /// A contract has to be proposed first.
    Refused,
    /// The call is blocked; `stop` when the rest of the reply is dropped too.
    Blocked { stop: bool },
    /// The same write was made in this turn.
    Duplicate,
    /// The call is to be run; `unguarded` when no contract was ever proposed
    /// and the refusals are used up.
    Run { unguarded: bool },
}

pub open spec fn is_contract_tool(name: Seq<char>) -> bool {
    ||| name == "propose_contract"@
    ||| name == "mark_assertion"@
    ||| name == "mark_feature"@
    ||| name == "contract_status"@
    ||| name == "close_contract"@
}

/// Whether a call changes something: a tool that is held back, or a shell
/// command that does not only read.
pub open spec fn mutates(name: Seq<char>, bash_read_only: bool) -> bool {
    turn::held_back(name) || (name == "bash"@ && !bash_read_only)
}

pub open spec fn is_patch(name: Seq<char>) -> bool {
    name == "patch"@ || name == "read_and_patch"@
}

pub open spec fn is_idempotent_write(name: Seq<char>) -> bool {
    name == "memory_remember"@ || name == "memory_forget"@ || name == "mark_assertion"@
}

/// The counter of a call: the same for the same tool and arguments.
pub open spec fn repeat_key(name: Seq<char>, arguments: Seq<char>) -> Seq<char> {
    "__tool_repeat_"@ + outside::sha256_of(name + arguments).take(16)
}

/// A text as the `result` of a JSON object.
pub open spec fn result_object(s: Seq<char>) -> Seq<char> {
    "{\"result\":"@ + outside::json_quoted(s) + "}"@
}

pub const REFUSAL: &'static str =
    "[BLOCKED] No contract yet. Before any mutating action, call `propose_contract` \
     with: (1) a short title, (2) a 2-3 sentence brief, (3) 2-6 assertions you'll verify \
     (each one-line, testable, ≤120 chars; e.g. \"Exit code is 0 when running pytest\", \
     \"about.md byte-for-byte matches the lost commit's version\"). Read-only tools \
     (read_file, search, find_files, git status/log/show, …) are still allowed.";

pub const LOOP_TAIL: &'static str =
    " time(s). The result will not change. \
     Stop repeating — try a completely different approach \
     or call a different tool.";

pub open spec fn loop_text(name: Seq<char>, n: u32) -> Seq<char> {
    "[LOOP DETECTED] You have called `"@ + name + "` with these exact arguments "@ + text::decimal(
        n as nat,
    ) + LOOP_TAIL@
}

pub const STUCK_MIDDLE: &'static str =
    "`. \
     That tool is now DISABLED for this session — further \
     calls will be silently dropped.";

pub const STUCK_CONTRACT: &'static str =
    " You are under a contract — call `contract_status` \
     to see pending assertions, then `mark_assertion` \
     for each one, then `close_contract`.";

pub open spec fn stuck_text(name: Seq<char>, contract_on: bool) -> Seq<char> {
    "[SYSTEM] You are stuck in a loop calling `"@ + name + STUCK_MIDDLE@ + (if contract_on {
        STUCK_CONTRACT@
    } else {
        ""@
    }) + " Pick a different tool and make progress."@
}

pub const DUPLICATE_TAIL: &'static str =
    "` was already called this turn. \
     Move on to the next pending assertion — do not repeat the same mark.";

pub open spec fn duplicate_text(c: CallFacts) -> Seq<char> {
    if c.name == "mark_assertion"@ {
        "[DUPLICATE] mark_assertion for `"@ + c.assertion + "` as `"@ + c.state + DUPLICATE_TAIL@
    } else {
        "[already stored this turn — identical call skipped]"@
    }
}

/// The session once the call is counted: reading a path that was changed
/// starts its count anew.
pub open spec fn call_counted(s: SessionText, c: CallFacts) -> SessionText {
    let key = repeat_key(c.name, c.arguments);
    let s1 = if c.name == "read_file"@ && c.path is Some && s.mutated.contains(c.path->0) {
        SessionText { mutated: s.mutated.remove(c.path->0), repeats: s.repeats.remove(key), ..s }
    } else {
        s
    };
    let s2 = if c.name == "bash"@ {
        SessionText { bash_keys: s1.bash_keys.insert(key), ..s1 }
    } else {
        s1
    };
    SessionText {
        repeats: s2.repeats.insert(key, tally::one_more(tally::count_of(s2.repeats, key))),
        ..s2
    }
}

/// `t` after one more blocked call, and whether the rest of the reply is
/// dropped.
pub open spec fn blocked(t: TurnText) -> (TurnText, Admission) {
    let n = tally::one_more(t.blocks);
    (TurnText { blocks: n, ..t }, Admission::Blocked { stop: n >= 2 })
}

/// A call that passed the count.
pub open spec fn past_count(
    t: TurnText,
    c: CallFacts,
    patch_blocked: Option<Seq<char>>,
    unguarded: bool,
) -> (TurnText, Admission) {
    if is_patch(c.name) && c.path is Some && patch_blocked is Some {
        blocked(said(t, history::tool_reply(c.id, result_object(patch_blocked->0))))
    } else if is_idempotent_write(c.name) && t.writes.contains(c.write_key) {
        (said(t, history::tool_reply(c.id, result_object(duplicate_text(c)))), Admission::Duplicate)
    } else if is_idempotent_write(c.name) {
        (TurnText { writes: t.writes.insert(c.write_key), ..t }, Admission::Run { unguarded })
    } else {
        (t, Admission::Run { unguarded })
    }
}

/// A call that passed the contract gate: the fourth time the same call is made,
/// and from then on, it is blocked.
pub open spec fn past_gate(
    t: TurnText,
    c: CallFacts,
    contract_on: bool,
    patch_blocked: Option<Seq<char>>,
    unguarded: bool,
) -> (TurnText, Admission) {
    let counted = TurnText { session: call_counted(t.session, c), ..t };
    let n = tally::count_of(counted.session.repeats, repeat_key(c.name, c.arguments));
    if n > 3 {
        let told = said(counted, history::tool_reply(c.id, result_object(loop_text(c.name, n))));
        blocked(
            if n == 6 {
                said(told, history::plain("user"@, stuck_text(c.name, contract_on)))
            } else {
                told
            },
        )
    } else {
        past_count(counted, c, patch_blocked, unguarded)
    }
}

/// What becomes of a call, and the turn after that is decided.
pub open spec fn admitted(
    t: TurnText,
    c: CallFacts,
    contract_on: bool,
    has_contract: bool,
    talk: bool,
    bash_read_only: bool,
    patch_blocked: Option<Seq<char>>,
) -> (TurnText, Admission) {
    let mutating = mutates(c.name, bash_read_only);
    let seen = TurnText {
        calls: tally::one_more(t.calls),
        batch: Batch {
            contract: t.batch.contract || is_contract_tool(c.name),
            active_bash: t.batch.active_bash || (c.name == "bash"@ && mutating),
            ..t.batch
        },
        ..t
    };
    if contract_on && !talk && !has_contract && !is_contract_tool(c.name) && mutating {
        let n = tally::one_more(t.refusals);
        let refused = TurnText { refusals: n, ..seen };
        if n <= 3 {
            (said(refused, history::tool_reply(c.id, REFUSAL@)), Admission::Refused)
        } else {
            past_gate(refused, c, contract_on, patch_blocked, true)
        }
    } else {
        past_gate(seen, c, contract_on, patch_blocked, false)
    }
}

/// The counter of a call.
pub fn repeat_key_of(name: &str, arguments: &str) -> (r: String)
    ensures
        r@ == repeat_key(name@, arguments@),
{
    let mut whole: String = name.to_owned();
    whole.push_str(arguments);
    let hash = outside::sha256_hex(&whole);
    let digits = text::chars(&hash);
    let start = text::string_of(&digits, 0, 16);
    assert(start@ =~= hash@.take(16));
    let mut r: String = "__tool_repeat_".to_owned();
    r.push_str(&start);
    r
}

fn as_result(s: &str) -> (r: String)
    ensures
        r@ == result_object(s@),
{
    let mut r: String = "{\"result\":".to_owned();
    r.push_str(&outside::json_quote(s));
    r.push_str("}");
    r
}

fn contract_tool(name: &str) -> (r: bool)
    ensures
        r == is_contract_tool(name@),
{
    text::same(name, "propose_contract") || text::same(name, "mark_assertion") || text::same(
        name,
        "mark_feature",
    ) || text::same(name, "contract_status") || text::same(name, "close_contract")
}

impl Turn {
    fn block(&mut self) -> (r: Admission)
        ensures
            (final(self)@, r) == blocked(old(self)@),
    {
        self.blocks = more(self.blocks);
        Admission::Blocked { stop: self.blocks >= 2 }
    }

    fn count_call(&mut self, c: &Call, key: &str) -> (n: u32)
        requires
            key@ == repeat_key(c.name@, c.arguments@),
        ensures
            final(self)@ == (TurnText {
                session: call_counted(old(self)@.session, c@),
                ..old(self)@
            }),
            n == tally::count_of(final(self)@.session.repeats, key@),
    {
        if text::same(&c.name, "read_file") {
            match &c.path {
                Some(p) => {
                    if self.session.mutated.contains(p) {
                        let _ = self.session.mutated.remove(p);
                        self.session.repeats.remove(key);
                    }
                },
                None => {},
            }
        }
        if text::same(&c.name, "bash") {
            let _ = self.session.bash_keys.insert(key);
        }
        self.session.repeats.bump(key)
    }

    fn pass_count(&mut self, c: &Call, patch_blocked: &Option<String>, unguarded: bool) -> (r:
        Admission)
        ensures
            (final(self)@, r) == past_count(
                old(self)@,
                c@,
                text::opt_text(*patch_blocked),
                unguarded,
            ),
    {
        if (text::same(&c.name, "patch") || text::same(&c.name, "read_and_patch"))
            && c.path.is_some() {
            match patch_blocked {
                Some(injection) => {
                    self.answer(&c.id, as_result(injection));
                    return self.block();
                },
                None => {},
            }
        }
        if text::same(&c.name, "memory_remember") || text::same(&c.name, "memory_forget")
            || text::same(&c.name, "mark_assertion") {
            if self.writes.contains(&c.write_key) {
                let note: String = if text::same(&c.name, "mark_assertion") {
                    let mut s: String = "[DUPLICATE] mark_assertion for `".to_owned();
                    s.push_str(&c.assertion);
                    s.push_str("` as `");
                    s.push_str(&c.state);
                    s.push_str(DUPLICATE_TAIL);
                    s
                } else {
                    "[already stored this turn — identical call skipped]".to_owned()
                };
                self.answer(&c.id, as_result(&note));
                return Admission::Duplicate;
            }
            let _ = self.writes.insert(&c.write_key);
        }
        Admission::Run { unguarded }
    }

    fn pass_gate(
        &mut self,
        c: &Call,
        contract_on: bool,
        patch_blocked: &Option<String>,
        unguarded: bool,
    ) -> (r: Admission)
        ensures
            (final(self)@, r) == past_gate(
                old(self)@,
                c@,
                contract_on,
                text::opt_text(*patch_blocked),
                unguarded,
            ),
    {
        let key = repeat_key_of(&c.name, &c.arguments);
        let n = self.count_call(c, &key);
        if n > 3 {
            let mut s: String = "[LOOP DETECTED] You have called `".to_owned();
            s.push_str(&c.name);
            s.push_str("` with these exact arguments ");
            s.push_str(&text::number(n as u64));
            s.push_str(LOOP_TAIL);
            self.answer(&c.id, as_result(&s));
            if n == 6 {
                let mut m: String = "[SYSTEM] You are stuck in a loop calling `".to_owned();
                m.push_str(&c.name);
                m.push_str(STUCK_MIDDLE);
                if contract_on {
                    m.push_str(STUCK_CONTRACT);
                } else {
                    m.push_str("");
                }
                m.push_str(" Pick a different tool and make progress.");
                self.say_plain("user", m);
            }
            return self.block();
        }
        self.pass_count(c, patch_blocked, unguarded)
    }

    /// Decides what becomes of a call. In every case but the last the call has
    /// been answered.
    pub fn screen(&mut self, c: &Call, e: &Surroundings) -> (r: Admission)
        ensures
            (final(self)@, r) == admitted(
                old(self)@,
                c@,
                e.contract_on,
                e.has_contract,
                e.talk,
                e.bash_read_only,
                text::opt_text(e.patch_blocked),
            ),
    {
        self.calls = more(self.calls);
        let contract = contract_tool(&c.name);
        let shell = text::same(&c.name, "bash");
        let mutating = turn::is_held_back(&c.name) || (shell && !e.bash_read_only);
        if contract {
            self.batch.contract = true;
        }
        if shell && mutating {
            self.batch.active_bash = true;
        }
        let mut unguarded: bool = false;
        if e.contract_on && !e.talk && !e.has_contract && !contract && mutating {
            self.refusals = more(self.refusals);
            if self.refusals <= 3 {
                self.answer(&c.id, REFUSAL.to_owned());
                return Admission::Refused;
            }
            unguarded = true;
        }
        self.pass_gate(c, e.contract_on, &e.patch_blocked, unguarded)
    }
}

// ---------------------------------------------------------------------------
// Laws
// ---------------------------------------------------------------------------

/// A reply with calls joins the conversation as it is, and opens the tools for
/// planning unless the model is choosing a category.
pub proof fn law_reply_joins(t: TurnText, first_tool: Seq<char>, reply: history::MessageText)
    ensures
        batch_opened(t, first_tool, reply).session.history == t.session.history.push(reply),
        first_tool != "select_category"@ ==> batch_opened(t, first_tool, reply).session.category
            == Some("plan"@),
        first_tool == "select_category"@ ==> batch_opened(t, first_tool, reply).session.category
            == t.session.category,
        !batch_opened(t, first_tool, reply).batch.mutating,
        !batch_opened(t, first_tool, reply).batch.contract,
        !batch_opened(t, first_tool, reply).batch.active_bash,
        !batch_opened(t, first_tool, reply).batch.fresh_read,
        batch_opened(t, first_tool, reply).calls == t.calls,
        batch_opened(t, first_tool, reply).session.repeats == t.session.repeats,
{
}

/// An empty reply and the demand that followed it are taken out when the next
/// reply says or does something, and never otherwise.
pub proof fn law_empty_reply_is_taken_out(t: TurnText, calls: int, content: Seq<char>)
    requires
        calls >= 0,
    ensures
        ({
            let r = settled(t, is_answer(calls, content));
            let h = t.session.history;
            let speaks = calls > 0 || exists|i: int|
                0 <= i < content.len() && !text::white(#[trigger] content[i]);
            &&& !t.retry_pending || !speaks ==> r == t
            &&& t.retry_pending && speaks && h.len() >= 2 ==> r.session.history == h.take(
                h.len() - 2,
            ) && !r.retry_pending
        }),
{
    text::law_trimmed(content);
    let h = t.session.history;
    if h.len() >= 2 {
        assert(h.drop_last().drop_last() =~= h.take(h.len() - 2));
    }
    let c = text::trimmed(content);
    let (i, j) = choose|i: int, j: int|
        {
            &&& 0 <= i <= j <= content.len()
            &&& c == #[trigger] content.subrange(i, j)
            &&& forall|k: int| 0 <= k < i || j <= k < content.len() ==> text::white(
                #[trigger] content[k],
            )
        };
    if c.len() > 0 {
        assert(!text::white(content[i]));
    } else {
        assert(i == j);
        assert forall|k: int| 0 <= k < content.len() implies text::white(#[trigger] content[k]) by {}
    }
}

proof fn lemma_misnamed_count(calls: Seq<history::CallText>, known: Seq<Seq<char>>)
    ensures
        misnamed_count(calls, known) == 0 <==> (forall|i: int|
            0 <= i < calls.len() ==> !misnamed(#[trigger] calls[i], known)),
    decreases calls.len(),
{
    if calls.len() > 0 {
        let d = calls.drop_last();
        lemma_misnamed_count(d, known);
        assert(forall|i: int| 0 <= i < d.len() ==> d[i] == calls[i]);
        assert(calls[calls.len() - 1] == calls.last());
        if misnamed_count(calls, known) == 0 {
            assert forall|i: int| 0 <= i < calls.len() implies !misnamed(
                #[trigger] calls[i],
                known,
            ) by {
                if i < d.len() {
                    assert(!misnamed(d[i], known));
                }
            }
        }
        if forall|i: int| 0 <= i < calls.len() ==> !misnamed(#[trigger] calls[i], known) {
            assert forall|i: int| 0 <= i < d.len() implies !misnamed(#[trigger] d[i], known) by {
                assert(!misnamed(calls[i], known));
            }
        }
    }
}

proof fn lemma_corrected_messages(
    t: TurnText,
    calls: Seq<history::CallText>,
    known: Seq<Seq<char>>,
    tool_list: Seq<char>,
)
    ensures
        ({
            let h = t.session.history;
            let r = corrected(t, calls, known, tool_list).session.history;
            &&& r.len() == h.len() + misnamed_count(calls, known)
            &&& r.take(h.len() as int) == h
            &&& forall|i: int|
                0 <= i < calls.len() && misnamed(#[trigger] calls[i], known) ==> exists|k: int|
                    h.len() <= k < r.len() && #[trigger] r[k] == correction(calls[i], tool_list)
            &&& corrected(t, calls, known, tool_list) == TurnText {
                session: SessionText { history: r, ..t.session },
                ..t
            }
        }),
    decreases calls.len(),
{
    let h = t.session.history;
    if calls.len() == 0 {
        assert(h.take(h.len() as int) =~= h);
    } else {
        let d = calls.drop_last();
        lemma_corrected_messages(t, d, known, tool_list);
        let b = corrected(t, d, known, tool_list).session.history;
        let r = corrected(t, calls, known, tool_list).session.history;
        assert(r.take(h.len() as int) =~= b.take(h.len() as int));
        assert forall|i: int|
            0 <= i < calls.len() && misnamed(#[trigger] calls[i], known) implies exists|k: int|
            h.len() <= k < r.len() && #[trigger] r[k] == correction(calls[i], tool_list) by {
            if i < d.len() {
                assert(d[i] == calls[i]);
                assert(misnamed(d[i], known));
                let k = choose|k: int|
                    h.len() <= k < b.len() && #[trigger] b[k] == correction(d[i], tool_list);
                assert(r[k] == b[k]);
            } else {
                assert(r[r.len() - 1] == correction(calls[i], tool_list));
            }
        }
    }
}

/// A reply all of whose calls name known tools goes on unchanged. Otherwise, the
/// first two times in a turn, none of its calls is run: each one with a wrong or
/// a missing name is answered under its id, and the model is told to use the
/// exact names.
pub proof fn law_wrong_names_are_corrected(
    t: TurnText,
    calls: Seq<history::CallText>,
    known: Seq<Seq<char>>,
    i: int,
)
    requires
        0 <= i < calls.len(),
        t.corrections < u32::MAX,
    ensures
        ({
            let h = t.session.history;
            let (r, again) = names_checked(t, calls, known);
            let a = r.session.history;
            let wrong = |c: history::CallText|
                match c.name {
                    Some(n) => n.len() == 0 || !known.contains(n),
                    None => true,
                };
            &&& (forall|k: int| 0 <= k < calls.len() ==> !wrong(#[trigger] calls[k])) ==> r == t
                && !again
            &&& wrong(calls[i]) ==> r.corrections == t.corrections + 1
            &&& wrong(calls[i]) && t.corrections < 2 ==> {
                &&& again
                &&& a.len() >= h.len() + 2
                &&& a.take(h.len() as int) == h
                &&& a.last().role == Some("user"@)
                &&& exists|k: int|
                    h.len() <= k < a.len() && (#[trigger] a[k]).role == Some("tool"@)
                        && a[k].tool_call_id == Some(
                        match calls[i].id {
                            Some(x) => x,
                            None => Seq::empty(),
                        },
                    )
            }
            &&& wrong(calls[i]) && t.corrections >= 2 ==> !again && a == h
        }),
{
    lemma_misnamed_count(calls, known);
    let wrong = |c: history::CallText|
        match c.name {
            Some(n) => n.len() == 0 || !known.contains(n),
            None => true,
        };
    assert forall|c: history::CallText| #[trigger] wrong(c) == misnamed(c, known) by {}
    if forall|k: int| 0 <= k < calls.len() ==> !wrong(#[trigger] calls[k]) {
        assert forall|k: int| 0 <= k < calls.len() implies !misnamed(#[trigger] calls[k], known) by {
            assert(!wrong(calls[k]));
        }
    }
    let n = tally::one_more(t.corrections);
    let counted = TurnText { corrections: n, ..t };
    let tool_list = text::join(text::sorted(known), ", "@);
    lemma_corrected_messages(counted, calls, known, tool_list);
    if wrong(calls[i]) && t.corrections < 2 {
        assert(misnamed(calls[i], known));
        let h = t.session.history;
        let b = corrected(counted, calls, known, tool_list).session.history;
        let a = names_checked(t, calls, known).0.session.history;
        assert(a.take(h.len() as int) =~= b.take(h.len() as int));
        let k = choose|k: int|
            h.len() <= k < b.len() && #[trigger] b[k] == correction(calls[i], tool_list);
        assert(a[k] == b[k]);
    }
}

/// What becomes of a call is known to the model: a call that is not run is
/// answered under its id, and one that is run is not answered here.
pub proof fn law_calls_not_run_are_answered(
    t: TurnText,
    c: CallFacts,
    contract_on: bool,
    has_contract: bool,
    talk: bool,
    bash_read_only: bool,
    patch_blocked: Option<Seq<char>>,
)
    ensures
        ({
            let (r, a) = admitted(
                t,
                c,
                contract_on,
                has_contract,
                talk,
                bash_read_only,
                patch_blocked,
            );
            let h = t.session.history;
            &&& a is Run ==> r.session.history == h
            &&& !(a is Run) ==> {
                &&& r.session.history.len() > h.len()
                &&& r.session.history.take(h.len() as int) == h
                &&& r.session.history[h.len() as int].role == Some("tool"@)
                &&& r.session.history[h.len() as int].tool_call_id == Some(c.id)
            }
            &&& t.calls < u32::MAX ==> r.calls == t.calls + 1
        }),
{
    let r = admitted(t, c, contract_on, has_contract, talk, bash_read_only, patch_blocked).0;
    let h = t.session.history;
    assert(r.session.history.take(h.len() as int) =~= h);
}

/// A call that nothing speaks against is run: contracts are not in use, or it
/// changes nothing; it was made with these arguments less than three times; its
/// path is not blocked; and it is no write that was made before.
pub proof fn law_plain_calls_run(
    t: TurnText,
    c: CallFacts,
    contract_on: bool,
    has_contract: bool,
    talk: bool,
    bash_read_only: bool,
)
    requires
        !contract_on || has_contract || talk || c.name == "read_file"@ || c.name == "search"@,
        ({
            let key = repeat_key(c.name, c.arguments);
            !t.session.repeats.contains_key(key) || t.session.repeats[key] < 3
        }),
        !t.writes.contains(c.write_key),
    ensures
        admitted(t, c, contract_on, has_contract, talk, bash_read_only, None).1 is Run,
        admitted(t, c, contract_on, has_contract, talk, bash_read_only, None).1 == (Admission::Run {
            unguarded: false,
        }),
{
    reveal_strlit("read_file");
    reveal_strlit("search");
    reveal_strlit("write_file");
    reveal_strlit("append_file");
    reveal_strlit("patch");
    reveal_strlit("read_and_patch");
    reveal_strlit("create_and_run");
    reveal_strlit("run");
    reveal_strlit("memory_remember");
    reveal_strlit("memory_forget");
    reveal_strlit("bash");
    assert("read_file"@.len() == 9 && "search"@.len() == 6 && "write_file"@.len() == 10
        && "append_file"@.len() == 11 && "patch"@.len() == 5 && "read_and_patch"@.len() == 14
        && "create_and_run"@.len() == 14 && "run"@.len() == 3 && "memory_remember"@.len() == 15
        && "memory_forget"@.len() == 13 && "bash"@.len() == 4);
}

/// Calls are counted by tool and arguments: the count of a call grows by one
/// with each one that is let through, those of other calls stay, and reading a
/// file that was changed since starts the count of that read anew.
pub proof fn law_calls_are_counted(s: SessionText, c: CallFacts)
    ensures
        ({
            let r = call_counted(s, c);
            let key = repeat_key(c.name, c.arguments);
            let before: int = if s.repeats.contains_key(key) {
                s.repeats[key] as int
            } else {
                0
            };
            let reread = c.name == "read_file"@ && (c.path matches Some(p) && s.mutated.contains(p));
            &&& r.repeats.contains_key(key)
            &&& reread ==> r.repeats[key] == 1 && !r.mutated.contains(c.path->0)
            &&& !reread && before < u32::MAX ==> r.repeats[key] == before + 1
            &&& !reread ==> r.mutated == s.mutated
            &&& forall|k: Seq<char>|
                k != key ==> (#[trigger] r.repeats.contains_key(k) <==> s.repeats.contains_key(k))
                    && (s.repeats.contains_key(k) ==> r.repeats[k] == s.repeats[k])
            &&& c.name == "bash"@ ==> r.bash_keys == s.bash_keys.insert(key)
            &&& c.name != "bash"@ ==> r.bash_keys == s.bash_keys
            &&& r.history == s.history
            &&& key.len() == 14 + outside::sha256_of(c.name + c.arguments).take(16).len()
        }),
{
    reveal_strlit("__tool_repeat_");
}

/// Of a write that leaves the same behind when it is repeated, the first one in
/// a turn is run, and the same one again is not.
pub proof fn law_same_write_once(t: TurnText, c: CallFacts, unguarded: bool)
    requires
        c.name == "memory_remember"@ || c.name == "memory_forget"@ || c.name == "mark_assertion"@,
    ensures
        !t.writes.contains(c.write_key) ==> past_count(t, c, None, unguarded).1 is Run && past_count(
            t,
            c,
            None,
            unguarded,
        ).0.writes.contains(c.write_key),
        t.writes.contains(c.write_key) ==> past_count(t, c, None, unguarded).1 is Duplicate,
{
    reveal_strlit("memory_remember");
    reveal_strlit("memory_forget");
    reveal_strlit("mark_assertion");
    reveal_strlit("patch");
    reveal_strlit("read_and_patch");
    assert("memory_remember"@.len() == 15 && "memory_forget"@.len() == 13 && "mark_assertion"@.len()
        == 14 && "patch"@.len() == 5 && "read_and_patch"@.len() == 14);
    assert("mark_assertion"@[0] == 'm' && "read_and_patch"@[0] == 'r');
}

/// While patches of a path are blocked, a patch of it is not run and gets the
/// reason as its answer.
pub proof fn law_blocked_patches_wait(
    t: TurnText,
    c: CallFacts,
    reason: Seq<char>,
    unguarded: bool,
)
    requires
        c.name == "patch"@ || c.name == "read_and_patch"@,
        c.path is Some,
    ensures
        ({
            let (r, a) = past_count(t, c, Some(reason), unguarded);
            &&& a is Blocked
            &&& r.session.history == t.session.history.push(
                history::tool_reply(c.id, "{\"result\":"@ + outside::json_quoted(reason) + "}"@),
            )
        }),
{
}

/// The tools of contracts need no contract.
pub proof fn law_contract_tools_pass(t: TurnText, c: CallFacts, bash_read_only: bool)
    requires
        c.name == "propose_contract"@ || c.name == "mark_assertion"@ || c.name == "mark_feature"@
            || c.name == "contract_status"@ || c.name == "close_contract"@,
    ensures
        !(admitted(t, c, true, false, false, bash_read_only, None).1 is Refused),
        admitted(t, c, true, false, false, bash_read_only, None).0.batch.contract,
{
}

/// A shell command that does not only read is refused like any other change
/// before there is a contract, and counts as work.
pub proof fn law_commands_are_gated(t: TurnText, c: CallFacts)
    requires
        c.name == "bash"@,
        t.refusals < 3,
    ensures
        admitted(t, c, true, false, false, false, None).1 is Refused,
        !(admitted(t, c, true, false, false, true, None).1 is Refused),
        admitted(t, c, false, false, false, false, None).0.batch.active_bash,
        admitted(t, c, false, false, false, true, None).0.batch.active_bash == t.batch.active_bash,
{
    reveal_strlit("bash");
    reveal_strlit("propose_contract");
    reveal_strlit("mark_assertion");
    reveal_strlit("mark_feature");
    reveal_strlit("contract_status");
    reveal_strlit("close_contract");
    reveal_strlit("write_file");
    reveal_strlit("append_file");
    reveal_strlit("patch");
    reveal_strlit("read_and_patch");
    reveal_strlit("create_and_run");
    reveal_strlit("run");
    reveal_strlit("memory_remember");
    reveal_strlit("memory_forget");
    assert("bash"@.len() == 4 && "propose_contract"@.len() == 16 && "mark_assertion"@.len() == 14
        && "mark_feature"@.len() == 12 && "contract_status"@.len() == 15 && "close_contract"@.len()
        == 14 && "write_file"@.len() == 10 && "append_file"@.len() == 11 && "patch"@.len() == 5
        && "read_and_patch"@.len() == 14 && "create_and_run"@.len() == 14 && "run"@.len() == 3
        && "memory_remember"@.len() == 15 && "memory_forget"@.len() == 13);
}

/// A call that was made three times already is answered, under its identifier,
/// with what is wrong; at the sixth time the model is told, by the tool's name,
/// that it is stuck. After a second blocked call the rest of the reply is
/// dropped.
pub proof fn law_blocked_calls(
    t: TurnText,
    c: CallFacts,
    contract_on: bool,
    patch_blocked: Option<Seq<char>>,
    unguarded: bool,
    n: int,
)
    requires
        n >= 3,
        n < u32::MAX,
        t.session.repeats.contains_key(repeat_key(c.name, c.arguments)),
        t.session.repeats[repeat_key(c.name, c.arguments)] == n,
        !(c.name == "read_file"@ && c.path is Some && t.session.mutated.contains(c.path->0)),
        t.blocks < u32::MAX,
    ensures
        ({
            let (r, a) = past_gate(t, c, contract_on, patch_blocked, unguarded);
            let h = t.session.history;
            let told = r.session.history;
            &&& a == (Admission::Blocked { stop: t.blocks >= 1 })
            &&& r.blocks == t.blocks + 1
            &&& n != 5 ==> told.len() == h.len() + 1
            &&& n == 5 ==> told.len() == h.len() + 2 && told.last().role == Some("user"@)
            &&& told[h.len() as int].tool_call_id == Some(c.id)
            &&& told[h.len() as int].role == Some("tool"@)
            &&& told.take(h.len() as int) == h
        }),
        text::has(loop_text(c.name, (n + 1) as u32), c.name),
        text::has(loop_text(c.name, (n + 1) as u32), text::decimal((n + 1) as nat)),
        text::has(stuck_text(c.name, contract_on), c.name),
{
    let (r, a) = past_gate(t, c, contract_on, patch_blocked, unguarded);
    let h = t.session.history;
    assert(r.session.history.take(h.len() as int) =~= h);
    let m: u32 = (n + 1) as u32;
    let head = "[LOOP DETECTED] You have called `"@;
    let mid = "` with these exact arguments "@;
    let d = text::decimal(m as nat);
    let l = loop_text(c.name, m);
    assert(l =~= head + c.name + (mid + d + LOOP_TAIL@));
    text::law_affixes(c.name, head, mid + d + LOOP_TAIL@);
    assert(l =~= (head + c.name + mid) + d + LOOP_TAIL@);
    text::law_affixes(d, head + c.name + mid, LOOP_TAIL@);
    let s = stuck_text(c.name, contract_on);
    let k = "[SYSTEM] You are stuck in a loop calling `"@.len() as int;
    assert(s.subrange(k, k + c.name.len()) =~= c.name);
    assert(text::at(s, c.name, k));
}

/// A turn starts with nothing counted, over the session as it is.
pub proof fn law_turns_start_anew(s: SessionText)
    ensures
        opened(s).session == s,
        opened(s).calls == 0 && opened(s).blocks == 0 && opened(s).corrections == 0 && opened(
            s,
        ).refusals == 0 && opened(s).empties == 0 && opened(s).text_streak == 0 && opened(
            s,
        ).contract_rounds == 0,
        !opened(s).changed && !opened(s).thinking_off && !opened(s).retry_pending,
        opened(s).edited.len() == 0 && opened(s).attempts == Map::<Seq<char>, u32>::empty() && opened(
            s,
        ).failures == Map::<Seq<char>, u32>::empty(),
        !opened(s).batch.mutating && !opened(s).batch.contract && !opened(s).batch.active_bash
            && !opened(s).batch.fresh_read,
{
}

} // verus!
