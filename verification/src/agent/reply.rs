//! What follows when the model answers with text instead of tool calls.

use vstd::prelude::*;

use crate::agent::contract::Contract;
use crate::agent::contract;
use crate::agent::gate::Turn;
use crate::agent::gate;
use crate::agent::history;
use crate::agent::tally;
use crate::text;

verus! {

/// How the turn goes on after a reply without tool calls.
#[derive(Debug, Clone, Copy, PartialEq, Eq, Structural)]
pub enum TextStep {
    /// The reply was empty; the model is asked once more.
    Retry { n: u32 },
    /// The replies stayed empty; the turn ends.
    GiveUp { n: u32 },
    /// The model only talked; it is told to use its tools.
    Badger,
    /// The model keeps talking; it is told to use a tool at once.
    ForceTools { n: u32 },
    /// The contract is still open; it is told to finish it.
    FinishContract { n: u32 },
    /// The reply stands; `exhausted` when the contract was left open.
    Accept { exhausted: bool },
}

pub const EMPTY_DEMAND: &'static str =
    "[SYSTEM] Your previous turn was empty. Thinking is disabled for the retry. Respond with exactly one concrete next step: either call a tool, or give a direct text answer. Do not return an empty turn.";

pub const NO_REPLY: &'static str = "(no response from model after multiple retries)";

pub const USE_TOOLS: &'static str =
    "[SYSTEM] You responded without using any tools. The task requires file operations. Use the appropriate tools (read_file, write_file, patch, etc.) — actually do it.";

pub const STREAK_CONTRACT: &'static str =
    "[SYSTEM] You have responded with text only multiple times without using tools. \
     The contract has unverified assertions. Stop writing explanations — call a tool right now. \
     Run a verification command with `bash`, then call `mark_assertion` with the result. \
     Do NOT respond with text. Use a tool.";

pub const STREAK_PLAIN: &'static str =
    "[SYSTEM] You have responded with text only multiple times without using tools. \
     Use a tool to make progress instead of describing what you plan to do.";

/// The tools are closed to the model.
pub open spec fn is_respond(t: gate::TurnText) -> bool {
    t.session.category == Some("respond"@)
}

pub open spec fn is_blank(content: Option<Seq<char>>) -> bool {
    match content {
        Some(s) => text::trimmed(s).len() == 0,
        None => true,
    }
}

/// `t` with the reply, when there is one, at the end of its conversation.
pub open spec fn with_reply(t: gate::TurnText, content: Option<Seq<char>>) -> gate::TurnText {
    match content {
        Some(s) => gate::said(t, history::plain("assistant"@, s)),
        None => t,
    }
}

/// A short statement in place of work: no question, under two hundred bytes.
pub open spec fn is_brush_off(content: Option<Seq<char>>) -> bool {
    match content {
        Some(s) => !s.contains('?') && text::utf8_len(s) < 200 && s.len() > 0,
        None => false,
    }
}

/// The contract, when contracts are in use and one exists, as the last check
/// before a reply stands.
pub open spec fn contract_checked(
    t: gate::TurnText,
    content: Option<Seq<char>>,
    c: Option<contract::ContractText>,
) -> (gate::TurnText, TextStep) {
    match c {
        Some(k) => if contract::needs_work(k) {
            let n = tally::one_more(t.contract_rounds);
            let counted = gate::TurnText { contract_rounds: n, ..t };
            if n <= 12 {
                (
                    gate::said(
                        with_reply(counted, content),
                        history::plain("user"@, contract::open_contract_text(k)),
                    ),
                    TextStep::FinishContract { n },
                )
            } else {
                (counted, TextStep::Accept { exhausted: true })
            }
        } else {
            (t, TextStep::Accept { exhausted: false })
        },
        None => (t, TextStep::Accept { exhausted: false }),
    }
}

/// The turn after a reply without tool calls, and how it goes on.
pub open spec fn text_noted(
    t: gate::TurnText,
    content: Option<Seq<char>>,
    action_task: bool,
    c: Option<contract::ContractText>,
) -> (gate::TurnText, TextStep) {
    if t.calls == 0 && !is_respond(t) && is_blank(content) {
        let n = tally::one_more(t.empties);
        let counted = gate::TurnText { empties: n, ..t };
        if n <= 2 {
            let empty = match content {
                Some(s) => s,
                None => Seq::empty(),
            };
            (
                gate::said(
                    gate::said(
                        gate::TurnText { thinking_off: true, retry_pending: true, ..counted },
                        history::plain("assistant"@, empty),
                    ),
                    history::plain("user"@, EMPTY_DEMAND@),
                ),
                TextStep::Retry { n },
            )
        } else {
            (
                gate::said(counted, history::plain("assistant"@, NO_REPLY@)),
                TextStep::GiveUp { n },
            )
        }
    } else {
        let thinking = gate::TurnText { thinking_off: false, ..t };
        if t.calls == 0 && !is_respond(t) && action_task && is_brush_off(content) {
            (
                gate::said(
                    with_reply(thinking, content),
                    history::plain("user"@, USE_TOOLS@),
                ),
                TextStep::Badger,
            )
        } else {
            let n = tally::one_more(t.text_streak);
            let counted = gate::TurnText { text_streak: n, ..thinking };
            if n >= 3 && !is_respond(t) {
                let open = match c {
                    Some(k) => contract::is_unverified(k.assertions),
                    None => false,
                };
                (
                    gate::said(
                        with_reply(counted, content),
                        history::plain(
                            "user"@,
                            if open {
                                STREAK_CONTRACT@
                            } else {
                                STREAK_PLAIN@
                            },
                        ),
                    ),
                    TextStep::ForceTools { n },
                )
            } else {
                contract_checked(counted, content, c)
            }
        }
    }
}

/// The tasks that call for work on files.
pub open spec fn is_action(task_type: Seq<char>) -> bool {
    task_type == "coding"@ || task_type == "editing"@ || task_type == "backend"@
}

pub fn calls_for_action(task_type: &str) -> (r: bool)
    ensures
        r == is_action(task_type@),
{
    text::same(task_type, "coding") || text::same(task_type, "editing") || text::same(
        task_type,
        "backend",
    )
}

/// What a contract says, when there is one.
pub open spec fn opt_contract(c: Option<Contract>) -> Option<contract::ContractText> {
    match c {
        Some(k) => Some(k@),
        None => None,
    }
}

fn more(n: u32) -> (r: u32)
    ensures
        r == tally::one_more(n),
{
    if n < u32::MAX {
        n + 1
    } else {
        n
    }
}

impl Turn {
    fn is_closed_to_tools(&self) -> (r: bool)
        ensures
            r == is_respond(self@),
    {
        match &self.session.category {
            Some(c) => text::same(c, "respond"),
            None => false,
        }
    }

    fn say_reply(&mut self, content: &Option<String>)
        ensures
            final(self)@ == with_reply(old(self)@, text::opt_text(*content)),
    {
        match content {
            Some(s) => {
                self.say_plain("assistant", s.clone());
            },
            None => {},
        }
    }

    fn check_contract(&mut self, content: &Option<String>, c: &Option<Contract>) -> (r: TextStep)
        ensures
            (final(self)@, r) == contract_checked(
                old(self)@,
                text::opt_text(*content),
                opt_contract(*c),
            ),
    {
        match c {
            Some(k) => {
                if k.needs_more_work() {
                    self.contract_rounds = more(self.contract_rounds);
                    let n = self.contract_rounds;
                    if n <= 12 {
                        self.say_reply(content);
                        self.say_plain("user", k.demand());
                        TextStep::FinishContract { n }
                    } else {
                        TextStep::Accept { exhausted: true }
                    }
                } else {
                    TextStep::Accept { exhausted: false }
                }
            },
            None => TextStep::Accept { exhausted: false },
        }
    }

    /// Decides how the turn goes on after a reply without tool calls. `c` is the
    /// current contract when contracts are in use.
    pub fn note_text(&mut self, content: &Option<String>, action_task: bool, c: &Option<
        Contract,
    >) -> (r: TextStep)
        ensures
            (final(self)@, r) == text_noted(
                old(self)@,
                text::opt_text(*content),
                action_task,
                opt_contract(*c),
            ),
    {
        let respond = self.is_closed_to_tools();
        let blank = match content {
            Some(s) => {
                let t = text::trim(s);
                t.as_str().is_empty()
            },
            None => true,
        };
        if self.calls == 0 && !respond && blank {
            self.empties = more(self.empties);
            let n = self.empties;
            if n <= 2 {
                self.thinking_off = true;
                self.retry_pending = true;
                let empty: String = match content {
                    Some(s) => s.clone(),
                    None => {
                        let e = String::new();
                        assert(e@ =~= Seq::<char>::empty());
                        e
                    },
                };
                self.say_plain("assistant", empty);
                self.say_plain("user", EMPTY_DEMAND.to_owned());
                return TextStep::Retry { n };
            }
            self.say_plain("assistant", NO_REPLY.to_owned());
            return TextStep::GiveUp { n };
        }
        self.thinking_off = false;
        let brush_off = match content {
            Some(s) => !text::contains_char(s, '?') && text::byte_len(s) < 200
                && !s.as_str().is_empty(),
            None => false,
        };
        if self.calls == 0 && !respond && action_task && brush_off {
            self.say_reply(content);
            self.say_plain("user", USE_TOOLS.to_owned());
            return TextStep::Badger;
        }
        self.text_streak = more(self.text_streak);
        let n = self.text_streak;
        if n >= 3 && !respond {
            let open = match c {
                Some(k) => k.has_unverified(),
                None => false,
            };
            self.say_reply(content);
            if open {
                self.say_plain("user", STREAK_CONTRACT.to_owned());
            } else {
                self.say_plain("user", STREAK_PLAIN.to_owned());
            }
            return TextStep::ForceTools { n };
        }
        self.check_contract(content, c)
    }

    /// Adds a reply that stands, and the demand of a detector that saw the model
    /// lose its thread.
    pub fn object(&mut self, content: &str, injection: &str)
        ensures
            final(self)@ == gate::said(
                gate::said(old(self)@, history::plain("assistant"@, content@)),
                history::plain("user"@, injection@),
            ),
    {
        self.say_plain("assistant", content.to_owned());
        self.say_plain("user", injection.to_owned());
    }
}

// ---------------------------------------------------------------------------
// Laws
// ---------------------------------------------------------------------------

/// A turn never ends on a reply while the contract needs work, until it was
/// demanded twelve times.
pub proof fn law_contract_is_finished(
    t: gate::TurnText,
    content: Option<Seq<char>>,
    action_task: bool,
    c: contract::ContractText,
)
    requires
        contract::needs_work(c),
        t.contract_rounds < 12,
    ensures
        !(text_noted(t, content, action_task, Some(c)).1 is Accept),
{
}

/// A turn asks for a reply in place of an empty one twice at most.
pub proof fn law_empty_retries_are_bounded(
    t: gate::TurnText,
    content: Option<Seq<char>>,
    action_task: bool,
    c: Option<contract::ContractText>,
)
    ensures
        text_noted(t, content, action_task, c).1 is Retry ==> t.empties < 2,
        text_noted(t, content, action_task, c).0.empties >= t.empties,
{
}

/// Once the model answers, the empty reply and the demand that followed it are
/// gone: the conversation is as it was before the empty reply.
pub proof fn law_retry_leaves_no_trace(
    t: gate::TurnText,
    content: Option<Seq<char>>,
    action_task: bool,
    c: Option<contract::ContractText>,
)
    requires
        text_noted(t, content, action_task, c).1 is Retry,
    ensures
        gate::settled(text_noted(t, content, action_task, c).0, true).session.history
            == t.session.history,
{
    let after = text_noted(t, content, action_task, c).0.session.history;
    assert(after.drop_last().drop_last() =~= t.session.history);
}

/// A conversational turn is never pushed towards tools.
pub proof fn law_conversation_is_left_alone(
    t: gate::TurnText,
    content: Option<Seq<char>>,
    action_task: bool,
)
    requires
        is_respond(t),
    ensures
        text_noted(t, content, action_task, None).1 == (TextStep::Accept { exhausted: false }),
        text_noted(t, content, action_task, None).0.session == t.session,
{
}

/// An empty reply at the start of a turn is answered by the demand to say
/// something, without thinking, the first two times; the third time the turn is
/// given up.
pub proof fn law_empty_replies(
    t: gate::TurnText,
    content: Option<Seq<char>>,
    action_task: bool,
    c: Option<contract::ContractText>,
)
    requires
        t.calls == 0,
        t.session.category != Some("respond"@),
        content is None || (forall|i: int|
            0 <= i < (content->0).len() ==> text::white(#[trigger] (content->0)[i])),
        t.empties < u32::MAX,
    ensures
        ({
            let (r, step) = text_noted(t, content, action_task, c);
            let h = t.session.history;
            &&& t.empties < 2 ==> {
                &&& step == (TextStep::Retry { n: (t.empties + 1) as u32 })
                &&& r.thinking_off && r.retry_pending
                &&& r.session.history.len() == h.len() + 2
                &&& r.session.history.take(h.len() as int) == h
                &&& r.session.history.last().role == Some("user"@)
                &&& r.session.history[h.len() as int].role == Some("assistant"@)
            }
            &&& t.empties >= 2 ==> step == (TextStep::GiveUp { n: (t.empties + 1) as u32 })
            &&& r.empties == t.empties + 1
        }),
{
    let r = text_noted(t, content, action_task, c).0;
    let h = t.session.history;
    assert(r.session.history.take(h.len() as int) =~= h);
    if let Some(s) = content {
        text::law_trimmed(s);
        let (i, j) = choose|i: int, j: int|
            {
                &&& 0 <= i <= j <= s.len()
                &&& text::trimmed(s) == #[trigger] s.subrange(i, j)
                &&& forall|k: int| 0 <= k < i || j <= k < s.len() ==> text::white(#[trigger] s[k])
            };
        if text::trimmed(s).len() > 0 {
            assert(text::trimmed(s)[0] == s[i]);
            assert(text::white(s[i]));
        }
    }
}

/// Words in place of work are not taken for an answer: where the task calls for
/// work on files and no tool was called, a short statement that asks nothing is
/// answered by the demand to use the tools. What the model said stays in the
/// conversation.
pub proof fn law_words_are_no_work(
    t: gate::TurnText,
    s: Seq<char>,
    c: Option<contract::ContractText>,
)
    requires
        t.calls == 0,
        t.session.category != Some("respond"@),
        text::utf8_len(s) < 200,
        !s.contains('?'),
        exists|i: int| 0 <= i < s.len() && !text::white(#[trigger] s[i]),
    ensures
        ({
            let (r, step) = text_noted(t, Some(s), true, c);
            let h = t.session.history;
            &&& step is Badger
            &&& r.session.history.len() == h.len() + 2
            &&& r.session.history.take(h.len() as int) == h
            &&& r.session.history[h.len() as int] == history::plain("assistant"@, s)
            &&& r.session.history.last().role == Some("user"@)
        }),
{
    let r = text_noted(t, Some(s), true, c).0;
    let h = t.session.history;
    assert(r.session.history.take(h.len() as int) =~= h);
    lemma_not_blank(s);
}

proof fn lemma_not_blank(s: Seq<char>)
    requires
        exists|i: int| 0 <= i < s.len() && !text::white(#[trigger] s[i]),
    ensures
        text::trimmed(s).len() > 0,
{
    text::law_trimmed(s);
    let (i, j) = choose|i: int, j: int|
        {
            &&& 0 <= i <= j <= s.len()
            &&& text::trimmed(s) == #[trigger] s.subrange(i, j)
            &&& forall|k: int| 0 <= k < i || j <= k < s.len() ==> text::white(#[trigger] s[k])
        };
    let k = choose|k: int| 0 <= k < s.len() && !text::white(#[trigger] s[k]);
    assert(i <= k < j);
}

/// The third reply in a row that calls no tool is answered by the demand to call
/// one, unless the turn is mere conversation.
pub proof fn law_talk_is_stopped(
    t: gate::TurnText,
    s: Seq<char>,
    c: Option<contract::ContractText>,
)
    requires
        t.calls > 0,
        t.session.category != Some("respond"@),
        t.text_streak < u32::MAX,
    ensures
        ({
            let (r, step) = text_noted(t, Some(s), true, c);
            let h = t.session.history;
            &&& r.text_streak == t.text_streak + 1
            &&& t.text_streak >= 2 ==> step is ForceTools && r.session.history.len() == h.len() + 2
                && r.session.history[h.len() as int] == history::plain("assistant"@, s)
                && r.session.history.last().role == Some("user"@)
            &&& t.text_streak < 2 ==> !(step is ForceTools)
        }),
{
}

/// A reply in words stands when no contract is open and nothing else speaks
/// against it: it asks something, or is long, or comes after tools were called.
/// Nothing is added to the conversation then.
pub proof fn law_words_stand(t: gate::TurnText, s: Seq<char>, action_task: bool)
    requires
        t.text_streak < 2,
        exists|i: int| 0 <= i < s.len() && !text::white(#[trigger] s[i]),
        t.calls > 0 || !action_task || s.contains('?') || text::utf8_len(s) >= 200,
    ensures
        text_noted(t, Some(s), action_task, None).1 == (TextStep::Accept { exhausted: false }),
        text_noted(t, Some(s), action_task, None).0.session == t.session,
{
    lemma_not_blank(s);
}

/// An open contract keeps the turn from ending twelve times, with what is left
/// to do; then the turn ends all the same. A contract with nothing left to do
/// does not keep it.
pub proof fn law_contract_keeps_the_turn(
    t: gate::TurnText,
    s: Seq<char>,
    c: contract::ContractText,
)
    requires
        t.calls > 0,
        t.text_streak < 2,
        t.contract_rounds < u32::MAX,
    ensures
        ({
            let (r, step) = text_noted(t, Some(s), true, Some(c));
            let h = t.session.history;
            &&& contract::needs_work(c) && t.contract_rounds < 12 ==> {
                &&& step == (TextStep::FinishContract { n: (t.contract_rounds + 1) as u32 })
                &&& r.session.history == h.push(history::plain("assistant"@, s)).push(
                    history::plain("user"@, contract::open_contract_text(c)),
                )
            }
            &&& contract::needs_work(c) && t.contract_rounds >= 12 ==> step == (TextStep::Accept {
                exhausted: true,
            }) && r.session.history == h
            &&& !contract::needs_work(c) ==> step == (TextStep::Accept { exhausted: false })
                && r.session.history == h
        }),
{
}

/// Coding, editing and backend work call for work on files, and nothing else
/// does.
pub proof fn law_action_tasks(s: Seq<char>)
    ensures
        is_action("coding"@) && is_action("editing"@) && is_action("backend"@),
        is_action(s) ==> s.len() == 6 || s.len() == 7,
{
    reveal_strlit("coding");
    reveal_strlit("editing");
    reveal_strlit("backend");
}

} // verus!
