//! The conversation that is sent to the model, and how it is kept small.

use vstd::prelude::*;

use crate::json;
use crate::json::Json;
use crate::outside;
use crate::text;

verus! {

// ---------------------------------------------------------------------------
// Messages
// ---------------------------------------------------------------------------

/// The `content` of a message.
#[derive(Debug)]
pub enum Content {
    /// No content, or `null`.
    Missing,
    Text(String),
    /// Any other JSON value, in its compact textual form.
    Other(String),
}

/// A request by the model to run a tool. A part that is missing, or that is no
/// string, is `None`.
#[derive(Debug)]
pub struct ToolCall {
    pub id: Option<String>,
    pub name: Option<String>,
    pub arguments: Option<String>,
}

/// The `tool_calls` of a message.
#[derive(Debug)]
pub enum Calls {
    Absent,
    /// Present, but no array.
    Malformed,
    List(Vec<ToolCall>),
}

/// One message of the conversation. Members that the agent does not read are
/// carried along as JSON text.
#[derive(Debug)]
pub struct Message {
    pub role: Option<String>,
    pub content: Content,
    pub calls: Calls,
    pub tool_call_id: Option<String>,
    pub extra: Option<String>,
}

pub ghost enum ContentText {
    Missing,
    Text(Seq<char>),
    Other(Seq<char>),
}

pub ghost struct CallText {
    pub id: Option<Seq<char>>,
    pub name: Option<Seq<char>>,
    pub arguments: Option<Seq<char>>,
}

pub ghost enum CallsText {
    Absent,
    Malformed,
    List(Seq<CallText>),
}

/// What a message says.
pub ghost struct MessageText {
    pub role: Option<Seq<char>>,
    pub content: ContentText,
    pub calls: CallsText,
    pub tool_call_id: Option<Seq<char>>,
    pub extra: Option<Seq<char>>,
}

impl View for Content {
    type V = ContentText;

    open spec fn view(&self) -> ContentText {
        match self {
            Content::Missing => ContentText::Missing,
            Content::Text(s) => ContentText::Text(s@),
            Content::Other(s) => ContentText::Other(s@),
        }
    }
}

impl View for ToolCall {
    type V = CallText;

    open spec fn view(&self) -> CallText {
        CallText {
            id: text::opt_text(self.id),
            name: text::opt_text(self.name),
            arguments: text::opt_text(self.arguments),
        }
    }
}

/// What a sequence of tool calls says.
pub open spec fn call_texts(v: Seq<ToolCall>) -> Seq<CallText> {
    v.map_values(|c: ToolCall| c@)
}

impl View for Calls {
    type V = CallsText;

    open spec fn view(&self) -> CallsText {
        match self {
            Calls::Absent => CallsText::Absent,
            Calls::Malformed => CallsText::Malformed,
            Calls::List(v) => CallsText::List(call_texts(v@)),
        }
    }
}

impl View for Message {
    type V = MessageText;

    open spec fn view(&self) -> MessageText {
        MessageText {
            role: text::opt_text(self.role),
            content: self.content@,
            calls: self.calls@,
            tool_call_id: text::opt_text(self.tool_call_id),
            extra: text::opt_text(self.extra),
        }
    }
}

/// What a conversation says.
pub open spec fn messages(h: Seq<Message>) -> Seq<MessageText> {
    h.map_values(|m: Message| m@)
}

pub proof fn lemma_messages_push(h: Seq<Message>, m: Message)
    ensures
        messages(h.push(m)) == messages(h).push(m@),
{
    assert(messages(h.push(m)) =~= messages(h).push(m@));
}

impl MessageText {
    /// The text content, when there is one.
    pub open spec fn text(self) -> Option<Seq<char>> {
        match self.content {
            ContentText::Text(s) => Some(s),
            _ => None,
        }
    }

    pub open spec fn has_role(self, role: Seq<char>) -> bool {
        self.role == Some(role)
    }

    /// The tool calls, none when there is no list of them.
    pub open spec fn call_list(self) -> Seq<CallText> {
        match self.calls {
            CallsText::List(v) => v,
            _ => Seq::empty(),
        }
    }
}

/// A plain message: a role and a text.
pub open spec fn plain(role: Seq<char>, content: Seq<char>) -> MessageText {
    MessageText {
        role: Some(role),
        content: ContentText::Text(content),
        calls: CallsText::Absent,
        tool_call_id: None,
        extra: None,
    }
}

/// The answer to a tool call.
pub open spec fn tool_reply(id: Seq<char>, content: Seq<char>) -> MessageText {
    MessageText {
        role: Some("tool"@),
        content: ContentText::Text(content),
        calls: CallsText::Absent,
        tool_call_id: Some(id),
        extra: None,
    }
}

impl Message {
    pub fn plain(role: &str, content: String) -> (m: Message)
        ensures
            m@ == self::plain(role@, content@),
    {
        Message {
            role: Some(role.to_owned()),
            content: Content::Text(content),
            calls: Calls::Absent,
            tool_call_id: None,
            extra: None,
        }
    }

    pub fn tool_reply(id: &str, content: String) -> (m: Message)
        ensures
            m@ == self::tool_reply(id@, content@),
    {
        Message {
            role: Some("tool".to_owned()),
            content: Content::Text(content),
            calls: Calls::Absent,
            tool_call_id: Some(id.to_owned()),
            extra: None,
        }
    }

    pub fn has_role(&self, role: &str) -> (r: bool)
        ensures
            r == self@.has_role(role@),
    {
        match &self.role {
            Some(s) => text::same(s, role),
            None => false,
        }
    }

    /// The text content, when there is one.
    pub fn text(&self) -> (r: Option<&String>)
        ensures
            match r {
                Some(s) => self@.text() == Some(s@),
                None => self@.text() is None,
            },
    {
        match &self.content {
            Content::Text(s) => Some(s),
            _ => None,
        }
    }
}

/// A tool call as a model writes it.
pub open spec fn call_in(j: json::JsonText) -> CallText {
    CallText {
        id: j.member_text("id"@),
        name: match j.member("function"@) {
            Some(f) => f.member_text("name"@),
            None => None,
        },
        arguments: match j.member("function"@) {
            Some(f) => f.member_text("arguments"@),
            None => None,
        },
    }
}

pub open spec fn calls_in(v: Seq<json::JsonText>) -> Seq<CallText> {
    v.map_values(|j: json::JsonText| call_in(j))
}

/// A message as it is written in JSON.
pub open spec fn message_in(j: json::JsonText) -> MessageText {
    MessageText {
        role: j.member_text("role"@),
        content: match j.member("content"@) {
            None => ContentText::Missing,
            Some(json::JsonText::Null) => ContentText::Missing,
            Some(json::JsonText::Text(s)) => ContentText::Text(s),
            Some(other) => ContentText::Other(json::written(other)),
        },
        calls: match j.member("tool_calls"@) {
            None => CallsText::Absent,
            Some(json::JsonText::List(v)) => CallsText::List(calls_in(v)),
            Some(_) => CallsText::Malformed,
        },
        tool_call_id: j.member_text("tool_call_id"@),
        extra: j.member_text("reasoning_content"@),
    }
}

fn call_of(j: &Json) -> (r: ToolCall)
    ensures
        r@ == call_in(j@),
{
    match j.get("function") {
        Some(f) => ToolCall {
            id: j.get_str("id"),
            name: f.get_str("name"),
            arguments: f.get_str("arguments"),
        },
        None => ToolCall { id: j.get_str("id"), name: None, arguments: None },
    }
}

fn content_of(j: &Json) -> (r: Content)
    ensures
        r@ == message_in(j@).content,
{
    match j.get("content") {
        Some(c) => match c {
            Json::Null => Content::Missing,
            Json::Text(s) => Content::Text(s.clone()),
            _ => Content::Other(c.write()),
        },
        None => Content::Missing,
    }
}

fn listed_calls(j: &Json) -> (r: Calls)
    ensures
        r@ == message_in(j@).calls,
{
    match j.get("tool_calls") {
        Some(c) => match c.as_array() {
            Some(v) => {
                let ghost all = json::values(v@);
                let mut out: Vec<ToolCall> = Vec::new();
                let mut i: usize = 0;
                while i < v.len()
                    invariant
                        i <= v.len(),
                        out@.len() == i,
                        all == json::values(v@),
                        forall|k: int| 0 <= k < i ==> (#[trigger] out@[k])@ == call_in(all[k]),
                    decreases v.len() - i,
                {
                    assert(all[i as int] == v@[i as int]@);
                    let x = call_of(&v[i]);
                    out.push(x);
                    i = i + 1;
                }
                assert(call_texts(out@) =~= calls_in(all));
                Calls::List(out)
            },
            None => Calls::Malformed,
        },
        None => Calls::Absent,
    }
}

/// A message as it is written in JSON.
pub fn message_of(j: &Json) -> (r: Message)
    ensures
        r@ == message_in(j@),
{
    Message {
        role: j.get_str("role"),
        content: content_of(j),
        calls: listed_calls(j),
        tool_call_id: j.get_str("tool_call_id"),
        extra: j.get_str("reasoning_content"),
    }
}

/// The message in the answer of a model, if there is one.
pub fn reply_of(answer: &Json) -> (r: Option<Message>)
    ensures
        match json::pointed(answer@, "choices/0/message"@) {
            Some(j) => r matches Some(m) && m@ == message_in(j),
            None => r is None,
        },
{
    match answer.pointer("choices/0/message") {
        Some(j) => Some(message_of(j)),
        None => None,
    }
}

// ---------------------------------------------------------------------------
// Size estimates
// ---------------------------------------------------------------------------

pub open spec fn content_bytes(c: ContentText) -> nat {
    match c {
        ContentText::Missing => 0,
        ContentText::Text(s) => text::utf8_len(s),
        ContentText::Other(s) => text::utf8_len(s),
    }
}

pub open spec fn opt_bytes(s: Option<Seq<char>>) -> nat {
    match s {
        Some(t) => text::utf8_len(t),
        None => 0,
    }
}

/// A call counts its name, its arguments and twenty bytes for what is wrapped
/// around them.
pub open spec fn call_bytes(c: CallText) -> nat {
    opt_bytes(c.name) + opt_bytes(c.arguments) + 20
}

pub open spec fn calls_bytes(v: Seq<CallText>) -> nat
    decreases v.len(),
{
    if v.len() == 0 {
        0
    } else {
        calls_bytes(v.drop_last()) + call_bytes(v.last())
    }
}

pub open spec fn message_bytes(m: MessageText) -> nat {
    content_bytes(m.content) + calls_bytes(m.call_list())
}

/// One token for every four bytes, rounded up.
pub open spec fn message_tokens(m: MessageText) -> nat {
    (message_bytes(m) + 3) / 4
}

pub open spec fn history_tokens(h: Seq<MessageText>) -> nat
    decreases h.len(),
{
    if h.len() == 0 {
        0
    } else {
        history_tokens(h.drop_last()) + message_tokens(h.last())
    }
}

/// The tokens of a conversation, taken apart at one message.
pub proof fn lemma_history_add(a: Seq<MessageText>, b: Seq<MessageText>)
    ensures
        history_tokens(a + b) == history_tokens(a) + history_tokens(b),
    decreases b.len(),
{
    if b.len() == 0 {
        assert(a + b =~= a);
    } else {
        assert((a + b).drop_last() =~= a + b.drop_last());
        lemma_history_add(a, b.drop_last());
    }
}

proof fn lemma_calls_bytes_take(v: Seq<CallText>, i: int)
    requires
        0 <= i < v.len(),
    ensures
        calls_bytes(v.take(i + 1)) == calls_bytes(v.take(i)) + call_bytes(v[i]),
        calls_bytes(v.take(i + 1)) <= calls_bytes(v),
    decreases v.len() - i,
{
    assert(v.take(i + 1).drop_last() =~= v.take(i));
    if i + 1 < v.len() {
        lemma_calls_bytes_take(v, i + 1);
    } else {
        assert(v.take(i + 1) =~= v);
    }
}

proof fn lemma_history_take(h: Seq<MessageText>, i: int)
    requires
        0 <= i < h.len(),
    ensures
        history_tokens(h.take(i + 1)) == history_tokens(h.take(i)) + message_tokens(h[i]),
        history_tokens(h.take(i + 1)) <= history_tokens(h),
{
    assert(h.take(i + 1).drop_last() =~= h.take(i));
    assert(h =~= h.take(i + 1) + h.skip(i + 1));
    lemma_history_add(h.take(i + 1), h.skip(i + 1));
}

fn opt_len(s: &Option<String>) -> (n: usize)
    ensures
        n == opt_bytes(text::opt_text(*s)),
{
    match s {
        Some(t) => text::byte_len(t),
        None => 0,
    }
}

/// The tokens of one message when they are at most `max`.
pub fn message_cost(m: &Message, max: u64) -> (r: Option<u64>)
    ensures
        match r {
            Some(n) => n == message_tokens(m@) && n <= max,
            None => message_tokens(m@) > max,
        },
{
    let room: u128 = 4 * (max as u128);
    let content: usize = match &m.content {
        Content::Missing => 0,
        Content::Text(s) => text::byte_len(s),
        Content::Other(s) => text::byte_len(s),
    };
    let mut total: u128 = content as u128;
    match &m.calls {
        Calls::List(v) => {
            let ghost all = call_texts(v@);
            let mut i: usize = 0;
            assert(all.take(0) =~= Seq::<CallText>::empty());
            while i < v.len()
                invariant
                    i <= v.len(),
                    all == call_texts(v@),
                    m@.call_list() == all,
                    total == content + calls_bytes(all.take(i as int)),
                    content == content_bytes(m@.content),
                    total <= room + 0xffff_ffff_ffff_ffff,
                    room == 4 * max,
                decreases v.len() - i,
            {
                proof {
                    lemma_calls_bytes_take(all, i as int);
                    assert(all[i as int] == v@[i as int]@);
                }
                let name: usize = opt_len(&v[i].name);
                let args: usize = opt_len(&v[i].arguments);
                total = total + (name as u128 + args as u128 + 20);
                if total > room {
                    return None;
                }
                i = i + 1;
            }
            assert(all.take(i as int) =~= all);
        },
        _ => {},
    }
    if total > room {
        None
    } else {
        Some(((total + 3) / 4) as u64)
    }
}

/// The tokens of a conversation when they are at most `max`.
pub fn history_cost(h: &Vec<Message>, max: u64) -> (r: Option<u64>)
    ensures
        match r {
            Some(n) => n == history_tokens(messages(h@)) && n <= max,
            None => history_tokens(messages(h@)) > max,
        },
{
    let ghost all = messages(h@);
    let mut n: u64 = 0;
    let mut i: usize = 0;
    assert(all.take(0) =~= Seq::<MessageText>::empty());
    while i < h.len()
        invariant
            i <= h.len(),
            all == messages(h@),
            n <= max,
            n == history_tokens(all.take(i as int)),
        decreases h.len() - i,
    {
        proof {
            lemma_history_take(all, i as int);
            assert(all[i as int] == h@[i as int]@);
        }
        match message_cost(&h[i], max - n) {
            Some(k) => {
                n = n + k;
            },
            None => {
                return None;
            },
        }
        i = i + 1;
    }
    assert(all.take(i as int) =~= all);
    Some(n)
}

/// The estimated number of tokens of one message.
pub fn estimate_message_tokens(m: &Message) -> (n: u64)
    requires
        message_tokens(m@) <= u64::MAX,
    ensures
        n == message_tokens(m@),
{
    match message_cost(m, u64::MAX) {
        Some(n) => n,
        None => 0,
    }
}

/// The estimated number of tokens of a conversation.
pub fn estimate_history_tokens(h: &Vec<Message>) -> (n: u64)
    requires
        history_tokens(messages(h@)) <= u64::MAX,
    ensures
        n == history_tokens(messages(h@)),
{
    match history_cost(h, u64::MAX) {
        Some(n) => n,
        None => 0,
    }
}

// ---------------------------------------------------------------------------
// Compaction between turns
// ---------------------------------------------------------------------------

/// The token budget of a conversation. The context window and its shares are
/// real numbers; these are the whole numbers that the comparisons come to.
#[derive(Debug, Clone, Copy)]
pub struct CompactBudget {
    /// A conversation of at most this many tokens is left alone.
    pub soft_limit: u64,
    /// Messages are dropped until fewer tokens than this are left.
    pub target: u64,
    /// The full budget, as it is reported.
    pub shown: u32,
}

/// The first message from `from` on that is no system message.
pub open spec fn first_droppable(h: Seq<MessageText>, from: int) -> Option<int>
    decreases h.len() - from,
{
    if from < 0 || from >= h.len() {
        None
    } else if !h[from].has_role("system"@) {
        Some(from)
    } else {
        first_droppable(h, from + 1)
    }
}

/// The conversation after dropping, one at a time, the oldest message that is
/// no system message, until fewer tokens than `target` or at most six messages
/// are left.
pub open spec fn shrunk(h: Seq<MessageText>, target: nat) -> Seq<MessageText>
    decreases h.len(),
{
    if h.len() > 6 && history_tokens(h) >= target {
        match first_droppable(h, 0) {
            Some(i) => if 0 <= i < h.len() {
                shrunk(h.remove(i), target)
            } else {
                h
            },
            None => h,
        }
    } else {
        h
    }
}

/// The note that stands for what was dropped.
pub open spec fn compaction_note(shown: nat) -> MessageText {
    plain(
        "system"@,
        "[Context compacted to fit "@ + text::decimal(shown) + " token budget]"@,
    )
}

/// The conversation after compaction to `budget`.
pub open spec fn compacted(h: Seq<MessageText>, budget: CompactBudget) -> Seq<MessageText> {
    if history_tokens(h) <= budget.soft_limit && h.len() <= 30 {
        h
    } else {
        let s = shrunk(h, budget.target as nat);
        if s.len() < h.len() {
            seq![compaction_note(budget.shown as nat)] + s
        } else {
            h
        }
    }
}

proof fn lemma_first_droppable(h: Seq<MessageText>, from: int)
    requires
        0 <= from,
    ensures
        match first_droppable(h, from) {
            Some(i) => from <= i < h.len() && !h[i].has_role("system"@) && forall|j: int|
                from <= j < i ==> h[j].has_role("system"@),
            None => forall|j: int| from <= j < h.len() ==> h[j].has_role("system"@),
        },
    decreases h.len() - from,
{
    if from < h.len() && h[from].has_role("system"@) {
        lemma_first_droppable(h, from + 1);
    }
}

proof fn lemma_shrunk_len(h: Seq<MessageText>, target: nat)
    ensures
        shrunk(h, target).len() <= h.len(),
        shrunk(h, target).len() == h.len() ==> shrunk(h, target) == h,
    decreases h.len(),
{
    if h.len() > 6 && history_tokens(h) >= target {
        match first_droppable(h, 0) {
            Some(i) => if 0 <= i < h.len() {
                lemma_shrunk_len(h.remove(i), target);
            },
            None => {},
        }
    }
}

/// The messages that carry the role `system`.
pub open spec fn system_messages(h: Seq<MessageText>) -> Seq<MessageText> {
    h.filter(|m: MessageText| m.has_role("system"@))
}

/// Compaction keeps every system message, in order, and stops only when the
/// conversation is under its target, is down to six messages, or holds nothing
/// that may be dropped.
pub proof fn law_compaction(h: Seq<MessageText>, target: nat)
    ensures
        system_messages(shrunk(h, target)) == system_messages(h),
        ({
            let s = shrunk(h, target);
            ||| s.len() <= 6
            ||| history_tokens(s) < target
            ||| forall|j: int| 0 <= j < s.len() ==> s[j].has_role("system"@)
        }),
    decreases h.len(),
{
    lemma_first_droppable(h, 0);
    if h.len() > 6 && history_tokens(h) >= target {
        match first_droppable(h, 0) {
            Some(i) => {
                let pred = |m: MessageText| m.has_role("system"@);
                let a = h.take(i);
                let b = h.skip(i + 1);
                assert(h =~= a + seq![h[i]] + b);
                assert(h.remove(i) =~= a + b);
                Seq::filter_distributes_over_add(a, b, pred);
                Seq::filter_distributes_over_add(a + seq![h[i]], b, pred);
                Seq::filter_distributes_over_add(a, seq![h[i]], pred);
                reveal_with_fuel(Seq::filter, 2);
                assert(seq![h[i]].drop_last() =~= Seq::<MessageText>::empty());
                assert(seq![h[i]].filter(pred) =~= Seq::<MessageText>::empty());
                assert(a.filter(pred) + seq![h[i]].filter(pred) =~= a.filter(pred));
                law_compaction(h.remove(i), target);
            },
            None => {},
        }
    }
}

fn droppable_index(h: &Vec<Message>) -> (r: Option<usize>)
    ensures
        match r {
            Some(i) => first_droppable(messages(h@), 0) == Some(i as int) && i < h.len(),
            None => first_droppable(messages(h@), 0) is None,
        },
{
    let ghost all = messages(h@);
    let mut i: usize = 0;
    while i < h.len()
        invariant
            i <= h.len(),
            all == messages(h@),
            first_droppable(all, 0) == first_droppable(all, i as int),
        decreases h.len() - i,
    {
        assert(all[i as int] == h@[i as int]@);
        if !h[i].has_role("system") {
            return Some(i);
        }
        i = i + 1;
    }
    None
}

/// Drops the oldest messages of a conversation that outgrew its budget and puts
/// a note in their place. Says whether anything was dropped.
pub fn maybe_compact(h: &mut Vec<Message>, budget: CompactBudget) -> (dropped: bool)
    ensures
        messages(final(h)@) == compacted(messages(old(h)@), budget),
        dropped == (compacted(messages(old(h)@), budget) != messages(old(h)@)),
{
    let ghost start = messages(h@);
    if h.len() <= 30 && history_cost(h, budget.soft_limit).is_some() {
        return false;
    }
    let mut dropped: bool = false;
    loop
        invariant_except_break
            shrunk(messages(h@), budget.target as nat) == shrunk(start, budget.target as nat),
        invariant
            dropped == (h.len() < start.len()),
            !dropped ==> messages(h@) == start,
            h.len() <= start.len(),
        ensures
            messages(h@) == shrunk(start, budget.target as nat),
        decreases h.len(),
    {
        if h.len() <= 6 {
            break;
        }
        if budget.target > 0 && history_cost(h, budget.target - 1).is_some() {
            break;
        }
        match droppable_index(h) {
            Some(i) => {
                let ghost before = h@;
                let _ = h.remove(i);
                dropped = true;
                assert(messages(h@) =~= messages(before).remove(i as int));
            },
            None => {
                break;
            },
        }
    }
    if dropped {
        let mut note: String = "[Context compacted to fit ".to_owned();
        note.push_str(&text::number(budget.shown as u64));
        note.push_str(" token budget]");
        let ghost before = h@;
        let m = Message::plain("system", note);
        h.insert(0, m);
        assert(messages(h@) =~= seq![compaction_note(budget.shown as nat)] + messages(before));
    }
    proof {
        lemma_shrunk_len(start, budget.target as nat);
        let s = shrunk(start, budget.target as nat);
        if dropped {
            lemma_note_differs(start, s, compaction_note(budget.shown as nat), budget.target as nat);
        }
    }
    dropped
}

/// Dropping something and adding a note never gives back the same conversation.
proof fn lemma_note_differs(h: Seq<MessageText>, s: Seq<MessageText>, note: MessageText, target: nat)
    requires
        s == shrunk(h, target),
        s.len() < h.len(),
        note.has_role("system"@),
    ensures
        seq![note] + s != h,
{
    if seq![note] + s == h {
        law_compaction(h, target);
        let pred = |m: MessageText| m.has_role("system"@);
        Seq::filter_distributes_over_add(seq![note], s, pred);
        reveal_with_fuel(Seq::filter, 2);
        assert(seq![note].drop_last() =~= Seq::<MessageText>::empty());
        assert(seq![note].filter(pred).len() == 1);
        assert(system_messages(h).len() == 1 + system_messages(s).len());
    }
}

proof fn lemma_all_system(h: Seq<MessageText>)
    requires
        forall|j: int| 0 <= j < h.len() ==> h[j].has_role("system"@),
    ensures
        system_messages(h) == h,
    decreases h.len(),
{
    reveal(Seq::filter);
    if h.len() > 0 {
        lemma_all_system(h.drop_last());
        assert(h.drop_last().push(h.last()) =~= h);
    } else {
        assert(system_messages(h) =~= h);
    }
}

proof fn lemma_none_of_one(m: MessageText)
    requires
        !m.has_role("system"@),
    ensures
        seq![m].filter(|m: MessageText| m.has_role("system"@)) == Seq::<MessageText>::empty(),
{
    let one = seq![m];
    reveal(Seq::filter);
    assert(one.drop_last() =~= Seq::<MessageText>::empty());
    assert(one.last() == m);
    assert(one.drop_last().filter(|m: MessageText| m.has_role("system"@)) =~= Seq::<
        MessageText,
    >::empty());
}

/// Compaction keeps the latest message, unless it is no system message and the
/// system messages before it alone take up the room.
#[verifier::rlimit(60)]
pub proof fn law_latest_stays(h: Seq<MessageText>, target: nat)
    requires
        h.len() > 0,
        ({
            let bare = system_messages(h.drop_last()).push(h.last());
            ||| h.last().has_role("system"@)
            ||| bare.len() <= 6
            ||| history_tokens(bare) < target
        }),
    ensures
        shrunk(h, target).len() > 0,
        shrunk(h, target).last() == h.last(),
    decreases h.len(),
{
    lemma_first_droppable(h, 0);
    if h.len() > 6 && history_tokens(h) >= target {
        match first_droppable(h, 0) {
            Some(i) => {
                let e = h.drop_last();
                if i == h.len() - 1 {
                    assert forall|j: int| 0 <= j < e.len() implies e[j].has_role("system"@) by {
                        assert(e[j] == h[j]);
                    }
                    lemma_all_system(e);
                    assert(e.push(h.last()) =~= h);
                } else {
                    let pred = |m: MessageText| m.has_role("system"@);
                    let a = e.take(i);
                    let b = e.skip(i + 1);
                    assert(e =~= a + seq![h[i]] + b);
                    assert(h.remove(i).drop_last() =~= a + b);
                    assert(h.remove(i).last() == h.last());
                    Seq::filter_distributes_over_add(a, b, pred);
                    Seq::filter_distributes_over_add(a + seq![h[i]], b, pred);
                    Seq::filter_distributes_over_add(a, seq![h[i]], pred);
                    lemma_none_of_one(h[i]);
                    assert(a.filter(pred) + seq![h[i]].filter(pred) =~= a.filter(pred));
                    law_latest_stays(h.remove(i), target);
                }
            },
            None => {},
        }
    }
}

// ---------------------------------------------------------------------------
// Eviction within a turn
// ---------------------------------------------------------------------------

/// A member of a call's arguments: a string of more than a hundred bytes is cut
/// to eighty.
pub open spec fn minimal_value(j: json::JsonText) -> json::JsonText {
    match j {
        json::JsonText::Text(s) => if text::utf8_len(s) > 100 {
            json::JsonText::Text(text::clip(s, 80) + "…"@)
        } else {
            j
        },
        _ => j,
    }
}

/// A call's arguments with every long string in them cut; what is no JSON
/// object becomes an empty one.
pub open spec fn minimal_arguments(j: Option<json::JsonText>) -> Seq<char> {
    match j {
        Some(json::JsonText::Table(v)) => json::written(
            json::JsonText::Table(
                v.map_values(|m: (Seq<char>, json::JsonText)| (m.0, minimal_value(m.1))),
            ),
        ),
        _ => "{}"@,
    }
}

fn minimise_value(j: &Json) -> (r: Json)
    ensures
        r@ == minimal_value(j@),
{
    match j {
        Json::Text(s) => {
            if text::byte_len(s) > 100 {
                let mut cut = text::clip_bytes(s, 80);
                cut.push_str("…");
                Json::Text(cut)
            } else {
                j.copy()
            }
        },
        _ => j.copy(),
    }
}

/// A call's arguments, once they are read, with every long string in them cut.
pub fn minimise_arguments(j: &Option<Json>) -> (r: String)
    ensures
        r@ == minimal_arguments(json::opt_value(*j)),
{
    match j {
        Some(Json::Table(v)) => {
            proof {
                json::lemma_table(*v);
            }
            let ghost all = json::members(v@);
            let mut out: Vec<(String, Json)> = Vec::new();
            let mut i: usize = 0;
            while i < v.len()
                invariant
                    i <= v.len(),
                    out@.len() == i,
                    forall|k: int|
                        0 <= k < i ==> (#[trigger] out@[k]).0@ == v@[k].0@ && out@[k].1@
                            == minimal_value(v@[k].1@),
                decreases v.len() - i,
            {
                let value = minimise_value(&v[i].1);
                out.push((v[i].0.clone(), value));
                i = i + 1;
            }
            assert(json::members(out@) =~= all.map_values(
                |m: (Seq<char>, json::JsonText)| (m.0, minimal_value(m.1)),
            ));
            json::table(out).write()
        },
        _ => "{}".to_owned(),
    }
}

/// A call whose arguments take more than two hundred bytes, cut down.
pub open spec fn minimal_call(c: CallText) -> CallText {
    match c.arguments {
        Some(s) => if text::utf8_len(s) > 200 {
            CallText {
                arguments: Some(minimal_arguments(outside::json_value(s))),
                ..c
            }
        } else {
            c
        },
        None => c,
    }
}

pub open spec fn minimal_message(m: MessageText) -> MessageText {
    match m.calls {
        CallsText::List(v) => MessageText {
            calls: CallsText::List(v.map_values(|c: CallText| minimal_call(c))),
            ..m
        },
        _ => m,
    }
}

/// The last message that has tool calls, the first message when none has.
pub open spec fn last_caller(h: Seq<MessageText>) -> int
    decreases h.len(),
{
    if h.len() == 0 {
        0
    } else if !(h.last().calls is Absent) {
        h.len() - 1
    } else {
        last_caller(h.drop_last())
    }
}

/// The conversation with the arguments of the calls before the last caller cut.
pub open spec fn arguments_cut(h: Seq<MessageText>) -> Seq<MessageText> {
    Seq::new(
        h.len(),
        |i: int|
            if i < last_caller(h) {
                minimal_message(h[i])
            } else {
                h[i]
            },
    )
}

/// The stub that stands for a tool result.
pub open spec fn evicted_message(m: MessageText) -> MessageText {
    MessageText {
        content: ContentText::Text(
            "[evicted: "@ + text::decimal(
                match m.text() {
                    Some(s) => text::utf8_len(s) / 4,
                    None => 0,
                },
            ) + " tokens]"@,
        ),
        ..m
    }
}

/// From message `i` on, tool results are replaced by stubs until `end`, or
/// until the conversation takes at most `enough` tokens. Gives the
/// conversation and how many were replaced.
pub open spec fn results_evicted(
    h: Seq<MessageText>,
    i: int,
    end: int,
    enough: nat,
    n: nat,
) -> (Seq<MessageText>, nat)
    decreases end - i,
{
    if !(0 <= i < end && i < h.len()) {
        (h, n)
    } else {
        let (next, m) = if h[i].has_role("tool"@) {
            (h.update(i, evicted_message(h[i])), n + 1)
        } else {
            (h, n)
        };
        if history_tokens(next) <= enough {
            (next, m)
        } else {
            results_evicted(next, i + 1, end, enough, m)
        }
    }
}

/// The conversation after eviction, and how many tool results were replaced.
pub open spec fn evicted(h: Seq<MessageText>, limit: nat, enough: nat) -> (Seq<MessageText>, nat) {
    if history_tokens(h) <= limit {
        (h, 0)
    } else {
        let cut = arguments_cut(h);
        results_evicted(cut, 0, (cut.len() / 2) as int, enough, 0)
    }
}

fn copy_opt(s: &Option<String>) -> (r: Option<String>)
    ensures
        text::opt_text(r) == text::opt_text(*s),
{
    match s {
        Some(t) => Some(t.clone()),
        None => None,
    }
}

fn copy_content(c: &Content) -> (r: Content)
    ensures
        r@ == c@,
{
    match c {
        Content::Missing => Content::Missing,
        Content::Text(s) => Content::Text(s.clone()),
        Content::Other(s) => Content::Other(s.clone()),
    }
}

pub fn copy_call(c: &ToolCall) -> (r: ToolCall)
    ensures
        r@ == c@,
{
    ToolCall { id: copy_opt(&c.id), name: copy_opt(&c.name), arguments: copy_opt(&c.arguments) }
}

/// The tool calls of a message, none when there is no list of them.
pub fn calls_of(m: &Message) -> (r: Vec<ToolCall>)
    ensures
        call_texts(r@) == m@.call_list(),
{
    let mut out: Vec<ToolCall> = Vec::new();
    match &m.calls {
        Calls::List(v) => {
            let mut i: usize = 0;
            while i < v.len()
                invariant
                    i <= v.len(),
                    out@.len() == i,
                    forall|k: int| 0 <= k < i ==> (#[trigger] out@[k])@ == v@[k]@,
                decreases v.len() - i,
            {
                let c = copy_call(&v[i]);
                out.push(c);
                i = i + 1;
            }
            assert(call_texts(out@) =~= call_texts(v@));
        },
        _ => {
            assert(call_texts(out@) =~= Seq::<CallText>::empty());
        },
    }
    out
}

fn copy_calls(c: &Calls) -> (r: Calls)
    ensures
        r@ == c@,
{
    match c {
        Calls::Absent => Calls::Absent,
        Calls::Malformed => Calls::Malformed,
        Calls::List(v) => {
            let mut out: Vec<ToolCall> = Vec::new();
            let mut i: usize = 0;
            while i < v.len()
                invariant
                    i <= v.len(),
                    out.len() == i,
                    forall|j: int| 0 <= j < i ==> out@[j]@ == v@[j]@,
                decreases v.len() - i,
            {
                out.push(copy_call(&v[i]));
                i = i + 1;
            }
            assert(call_texts(out@) =~= call_texts(v@));
            Calls::List(out)
        },
    }
}

/// A message that says the same.
pub fn copy_message(m: &Message) -> (r: Message)
    ensures
        r@ == m@,
{
    Message {
        role: copy_opt(&m.role),
        content: copy_content(&m.content),
        calls: copy_calls(&m.calls),
        tool_call_id: copy_opt(&m.tool_call_id),
        extra: copy_opt(&m.extra),
    }
}

fn cut_call(c: &ToolCall) -> (r: ToolCall)
    ensures
        r@ == minimal_call(c@),
{
    match &c.arguments {
        Some(s) => {
            if text::byte_len(s) > 200 {
                let members = outside::json_parse(s);
                ToolCall {
                    id: copy_opt(&c.id),
                    name: copy_opt(&c.name),
                    arguments: Some(minimise_arguments(&members)),
                }
            } else {
                copy_call(c)
            }
        },
        None => copy_call(c),
    }
}

fn cut_message(m: &Message) -> (r: Message)
    ensures
        r@ == minimal_message(m@),
{
    match &m.calls {
        Calls::List(v) => {
            let mut out: Vec<ToolCall> = Vec::new();
            let mut i: usize = 0;
            while i < v.len()
                invariant
                    i <= v.len(),
                    out.len() == i,
                    forall|j: int| 0 <= j < i ==> out@[j]@ == minimal_call(v@[j]@),
                decreases v.len() - i,
            {
                out.push(cut_call(&v[i]));
                i = i + 1;
            }
            assert(call_texts(out@) =~= call_texts(v@).map_values(|c: CallText| minimal_call(c)));
            Message {
                role: copy_opt(&m.role),
                content: copy_content(&m.content),
                calls: Calls::List(out),
                tool_call_id: copy_opt(&m.tool_call_id),
                extra: copy_opt(&m.extra),
            }
        },
        _ => copy_message(m),
    }
}

fn evict_message(m: &Message) -> (r: Message)
    ensures
        r@ == evicted_message(m@),
{
    let bytes: usize = match m.text() {
        Some(s) => text::byte_len(s),
        None => 0,
    };
    let mut note: String = "[evicted: ".to_owned();
    note.push_str(&text::number((bytes / 4) as u64));
    note.push_str(" tokens]");
    Message {
        role: copy_opt(&m.role),
        content: Content::Text(note),
        calls: copy_calls(&m.calls),
        tool_call_id: copy_opt(&m.tool_call_id),
        extra: copy_opt(&m.extra),
    }
}

fn last_caller_index(h: &Vec<Message>) -> (r: usize)
    ensures
        r == last_caller(messages(h@)),
        r <= h.len(),
{
    let ghost all = messages(h@);
    let mut n: usize = h.len();
    assert(all.take(n as int) =~= all);
    while n > 0
        invariant
            n <= h.len(),
            all == messages(h@),
            last_caller(all) == last_caller(all.take(n as int)),
        decreases n,
    {
        assert(all.take(n as int).drop_last() =~= all.take(n - 1));
        assert(all.take(n as int).last() == h@[n - 1]@);
        match &h[n - 1].calls {
            Calls::Absent => {},
            _ => {
                return n - 1;
            },
        }
        n = n - 1;
    }
    0
}

/// Makes room in the middle of a turn: when the conversation takes more than
/// `limit` tokens, cuts the arguments of older tool calls and replaces tool
/// results of its first half until it takes at most `enough`. Returns how many
/// results were replaced.
pub fn mid_turn_evict(h: &mut Vec<Message>, limit: u64, enough: u64) -> (n: u32)
    requires
        old(h)@.len() <= u32::MAX,
    ensures
        (messages(final(h)@), n as nat) == evicted(
            messages(old(h)@),
            limit as nat,
            enough as nat,
        ),
{
    let ghost start = messages(h@);
    if history_cost(h, limit).is_some() {
        return 0;
    }
    let last = last_caller_index(h);
    let mut i: usize = 0;
    while i < last
        invariant
            i <= last <= h.len(),
            last == last_caller(start),
            h.len() == start.len(),
            h.len() <= u32::MAX,
            forall|j: int|
                0 <= j < h.len() ==> (#[trigger] h@[j])@ == (if j < i {
                    minimal_message(start[j])
                } else {
                    start[j]
                }),
        decreases last - i,
    {
        let cut = cut_message(&h[i]);
        h.set(i, cut);
        i = i + 1;
    }
    let ghost cut = arguments_cut(start);
    assert(messages(h@) =~= cut);
    let half: usize = h.len() / 2;
    let mut n: u32 = 0;
    let mut k: usize = 0;
    while k < half
        invariant_except_break
            results_evicted(messages(h@), k as int, half as int, enough as nat, n as nat)
                == results_evicted(cut, 0, half as int, enough as nat, 0),
        invariant
            k <= half <= h.len(),
            n <= k,
            h.len() <= u32::MAX,
        ensures
            (messages(h@), n as nat) == results_evicted(cut, 0, half as int, enough as nat, 0),
        decreases half - k,
    {
        let ghost before = h@;
        assert(messages(before)[k as int] == h@[k as int]@);
        if h[k].has_role("tool") {
            let stub = evict_message(&h[k]);
            h.set(k, stub);
            n = n + 1;
            assert(messages(h@) =~= messages(before).update(k as int, stub@));
        }
        k = k + 1;
        if history_cost(h, enough).is_some() {
            break;
        }
    }
    n
}

/// Eviction leaves the number of messages, their roles and the ids that tie
/// tool results to their calls as they were.
pub proof fn law_eviction_keeps_shape(h: Seq<MessageText>, limit: nat, enough: nat)
    ensures
        evicted(h, limit, enough).0.len() == h.len(),
        forall|i: int|
            0 <= i < h.len() ==> (#[trigger] evicted(h, limit, enough).0[i]).role == h[i].role
                && evicted(h, limit, enough).0[i].tool_call_id == h[i].tool_call_id,
{
    let cut = arguments_cut(h);
    lemma_results_evicted_shape(cut, 0, (cut.len() / 2) as int, enough, 0);
}

proof fn lemma_results_evicted_shape(
    h: Seq<MessageText>,
    i: int,
    end: int,
    enough: nat,
    n: nat,
)
    ensures
        results_evicted(h, i, end, enough, n).0.len() == h.len(),
        forall|j: int|
            0 <= j < h.len() ==> (#[trigger] results_evicted(h, i, end, enough, n).0[j]).role
                == h[j].role && results_evicted(h, i, end, enough, n).0[j].tool_call_id
                == h[j].tool_call_id,
    decreases end - i,
{
    if 0 <= i < end && i < h.len() {
        let (next, m) = if h[i].has_role("tool"@) {
            (h.update(i, evicted_message(h[i])), n + 1)
        } else {
            (h, n)
        };
        lemma_results_evicted_shape(next, i + 1, end, enough, m);
    }
}

/// A message of one text takes a token for every four bytes, the last of them
/// begun or full; a tool call adds the bytes of its name and its arguments, and
/// twenty more; and the tokens of a conversation are those of its messages.
pub proof fn law_tokens(m: MessageText, c: CallText, h: Seq<MessageText>)
    ensures
        m.calls is Absent && m.content is Missing ==> message_tokens(m) == 0,
        m.calls is Absent ==> (m.content matches ContentText::Text(s) ==> text::utf8_len(s) <= 4
            * message_tokens(m) < text::utf8_len(s) + 4),
        m.calls is Absent ==> (m.content matches ContentText::Other(s) ==> text::utf8_len(s) <= 4
            * message_tokens(m) < text::utf8_len(s) + 4),
        m.calls matches CallsText::List(v) ==> message_bytes(
            MessageText { calls: CallsText::List(v.push(c)), ..m },
        ) == message_bytes(m) + 20 + (match c.name {
            Some(s) => text::utf8_len(s),
            None => 0,
        }) + (match c.arguments {
            Some(s) => text::utf8_len(s),
            None => 0,
        }),
        message_bytes(m) <= 4 * message_tokens(m) < message_bytes(m) + 4,
        history_tokens(Seq::empty()) == 0,
        history_tokens(h.push(m)) == history_tokens(h) + message_tokens(m),
{
    assert(h.push(m).drop_last() =~= h);
    if let CallsText::List(v) = m.calls {
        assert(v.push(c).drop_last() =~= v);
    }
}

/// A conversation from which the messages before `j` are gone, but for those of
/// the system.
pub open spec fn kept_from(h: Seq<MessageText>, j: int) -> Seq<MessageText> {
    system_messages(h.take(j)) + h.skip(j)
}

proof fn lemma_filtered(h: Seq<MessageText>)
    ensures
        forall|i: int|
            0 <= i < system_messages(h).len() ==> (#[trigger] system_messages(h)[i]).has_role(
                "system"@,
            ),
    decreases h.len(),
{
    reveal(Seq::filter);
    if h.len() > 0 {
        lemma_filtered(h.drop_last());
    }
}

proof fn lemma_kept_step(h: Seq<MessageText>, j: int, i: int)
    requires
        0 <= j <= i < h.len(),
        forall|k: int| j <= k < i ==> h[k].has_role("system"@),
        !h[i].has_role("system"@),
    ensures
        ({
            let at = system_messages(h.take(j)).len() + (i - j);
            &&& 0 <= at < kept_from(h, j).len()
            &&& kept_from(h, i + 1) == kept_from(h, j).remove(at)
            &&& first_droppable(kept_from(h, j), 0) == Some(at)
        }),
        forall|k: int| j <= k <= i ==> #[trigger] kept_from(h, k) == kept_from(h, j),
{
    let pred = |m: MessageText| m.has_role("system"@);
    let a = h.take(j);
    let g = kept_from(h, j);
    let at = a.filter(pred).len() + (i - j);
    assert forall|k: int| j <= k <= i implies #[trigger] kept_from(h, k) == g by {
        let mid = h.subrange(j, k);
        assert forall|x: int| 0 <= x < mid.len() implies mid[x].has_role("system"@) by {
            assert(mid[x] == h[j + x]);
        }
        lemma_all_system(mid);
        assert(h.take(k) =~= a + mid);
        Seq::filter_distributes_over_add(a, mid, pred);
        assert(kept_from(h, k) =~= a.filter(pred) + mid + h.skip(k));
        assert(g =~= a.filter(pred) + mid + h.skip(k));
    }
    assert(kept_from(h, i) == g);
    let b = h.take(i);
    assert(h.take(i + 1) =~= b + seq![h[i]]);
    Seq::filter_distributes_over_add(b, seq![h[i]], pred);
    reveal_with_fuel(Seq::filter, 2);
    assert(seq![h[i]].drop_last() =~= Seq::<MessageText>::empty());
    assert(seq![h[i]].filter(pred) =~= Seq::<MessageText>::empty());
    assert(h.take(i + 1).filter(pred) =~= b.filter(pred));
    let mid = h.subrange(j, i);
    assert forall|x: int| 0 <= x < mid.len() implies mid[x].has_role("system"@) by {
        assert(mid[x] == h[j + x]);
    }
    lemma_all_system(mid);
    assert(b =~= a + mid);
    Seq::filter_distributes_over_add(a, mid, pred);
    assert(b.filter(pred).len() == at);
    assert(kept_from(h, i + 1) =~= g.remove(at));
    lemma_first_droppable(g, 0);
    lemma_filtered(a);
    assert forall|x: int| 0 <= x < at implies g[x].has_role("system"@) by {
        if x < a.filter(pred).len() {
            assert(system_messages(a)[x].has_role("system"@));
        } else {
            assert(g[x] == h[j + (x - a.filter(pred).len())]);
        }
    }
    assert(g[at] == h[i]);
}

proof fn lemma_shrunk_from(h: Seq<MessageText>, target: nat, j: int) -> (r: int)
    requires
        0 <= j <= h.len(),
    ensures
        j <= r <= h.len(),
        shrunk(kept_from(h, j), target) == kept_from(h, r),
        forall|k: int|
            j <= k < r ==> (#[trigger] kept_from(h, k)).len() > 6 && history_tokens(kept_from(h, k))
                >= target,
    decreases h.len() - j,
{
    let g = kept_from(h, j);
    lemma_first_droppable(h, j);
    if g.len() > 6 && history_tokens(g) >= target {
        match first_droppable(h, j) {
            Some(i) => {
                lemma_kept_step(h, j, i);
                lemma_shrunk_from(h, target, i + 1)
            },
            None => {
                let pred = |m: MessageText| m.has_role("system"@);
                lemma_first_droppable(g, 0);
                lemma_filtered(h.take(j));
                assert forall|x: int| 0 <= x < g.len() implies g[x].has_role("system"@) by {
                    if x < h.take(j).filter(pred).len() {
                        assert(system_messages(h.take(j))[x].has_role("system"@));
                    } else {
                        assert(g[x] == h[j + (x - h.take(j).filter(pred).len())]);
                    }
                }
                assert(first_droppable(g, 0) is None);
                j
            },
        }
    } else {
        j
    }
}

/// Compaction drops the oldest messages that are not the system's, and no more
/// of them than it has to: what is left is every message from some point on and
/// the system's messages before it, and to stop at an earlier point would have
/// left more than six messages and as many tokens as the target or more.
pub proof fn law_oldest_are_dropped(h: Seq<MessageText>, target: nat)
    ensures
        exists|j: int|
            {
                &&& 0 <= j <= h.len()
                &&& shrunk(h, target) == #[trigger] kept_from(h, j)
                &&& forall|k: int|
                    0 <= k < j ==> (#[trigger] kept_from(h, k)).len() > 6 && history_tokens(
                        kept_from(h, k),
                    ) >= target
            },
{
    let j = lemma_shrunk_from(h, target, 0);
    assert(h.take(0) =~= Seq::<MessageText>::empty());
    reveal(Seq::filter);
    assert(kept_from(h, 0) =~= h);
    assert(shrunk(h, target) == kept_from(h, j));
}

/// A conversation within its budget and of at most thirty messages stays as it
/// is. Otherwise it is compacted, and where that drops something a note of the
/// system stands before what is left.
pub proof fn law_compaction_only_when_needed(h: Seq<MessageText>, b: CompactBudget)
    ensures
        history_tokens(h) <= b.soft_limit && h.len() <= 30 ==> compacted(h, b) == h,
        history_tokens(h) > b.soft_limit || h.len() > 30 ==> {
            let left = shrunk(h, b.target as nat);
            let r = compacted(h, b);
            if left == h {
                r == h
            } else {
                &&& r.len() == left.len() + 1
                &&& r.skip(1) == left
                &&& r[0].role == Some("system"@)
                &&& r[0].calls is Absent
                &&& r[0].text() == Some(
                    "[Context compacted to fit "@ + text::decimal(b.shown as nat)
                        + " token budget]"@,
                )
            }
        },
{
    let left = shrunk(h, b.target as nat);
    lemma_shrunk_len(h, b.target as nat);
    assert((seq![compaction_note(b.shown as nat)] + left).skip(1) =~= left);
}

/// The conversation in which the tool results among the first `k` messages are
/// replaced by stubs.
pub open spec fn stubbed(h: Seq<MessageText>, k: int) -> Seq<MessageText> {
    Seq::new(
        h.len(),
        |i: int|
            if i < k && h[i].role == Some("tool"@) {
                evicted_message(h[i])
            } else {
                h[i]
            },
    )
}

/// How many of the first `k` messages are tool results.
pub open spec fn results_among(h: Seq<MessageText>, k: int) -> nat
    decreases k,
{
    if k <= 0 {
        0
    } else {
        results_among(h, k - 1) + (if h[k - 1].role == Some("tool"@) {
            1nat
        } else {
            0nat
        })
    }
}

proof fn lemma_evicted_from(h: Seq<MessageText>, i: int, end: int, enough: nat) -> (k: int)
    requires
        0 <= i <= end <= h.len(),
    ensures
        i <= k <= end,
        i < end ==> i < k,
        results_evicted(stubbed(h, i), i, end, enough, results_among(h, i)) == (
            stubbed(h, k),
            results_among(h, k),
        ),
        k == end || history_tokens(stubbed(h, k)) <= enough,
        forall|j: int| i < j < k ==> history_tokens(#[trigger] stubbed(h, j)) > enough,
    decreases end - i,
{
    if i < end {
        let g = stubbed(h, i);
        assert(g[i] == h[i]);
        if h[i].role == Some("tool"@) {
            assert(g.update(i, evicted_message(h[i])) =~= stubbed(h, i + 1));
        } else {
            assert(g =~= stubbed(h, i + 1));
        }
        if history_tokens(stubbed(h, i + 1)) <= enough {
            i + 1
        } else {
            lemma_evicted_from(h, i + 1, end, enough)
        }
    } else {
        i
    }
}

/// Eviction replaces the tool results from the oldest on, none of them beyond
/// the first half, and stops as soon as the conversation takes few enough
/// tokens; it says how many it replaced.
pub proof fn law_oldest_results_go_first(h: Seq<MessageText>, limit: nat, enough: nat)
    ensures
        history_tokens(h) <= limit ==> evicted(h, limit, enough) == (h, 0nat),
        history_tokens(h) > limit ==> exists|k: int|
            {
                &&& 0 <= k <= h.len() / 2
                &&& h.len() >= 2 ==> k > 0
                &&& evicted(h, limit, enough).0 == #[trigger] stubbed(arguments_cut(h), k)
                &&& evicted(h, limit, enough).1 == results_among(h, k)
                &&& k == h.len() / 2 || history_tokens(stubbed(arguments_cut(h), k)) <= enough
                &&& forall|j: int|
                    0 < j < k ==> history_tokens(#[trigger] stubbed(arguments_cut(h), j)) > enough
            },
{
    if history_tokens(h) > limit {
        let cut = arguments_cut(h);
        let half = (h.len() / 2) as int;
        assert(stubbed(cut, 0) =~= cut);
        let k = lemma_evicted_from(cut, 0, half, enough);
        lemma_results_among_cut(h, k);
        assert(evicted(h, limit, enough).0 == stubbed(cut, k));
    }
}

proof fn lemma_results_among_cut(h: Seq<MessageText>, k: int)
    requires
        k <= h.len(),
    ensures
        results_among(arguments_cut(h), k) == results_among(h, k),
    decreases k,
{
    if k > 0 {
        lemma_results_among_cut(h, k - 1);
    }
}

proof fn lemma_last_caller(h: Seq<MessageText>)
    ensures
        0 <= last_caller(h),
        last_caller(h) <= h.len(),
        forall|i: int| last_caller(h) < i < h.len() ==> (#[trigger] h[i]).calls is Absent,
        h.len() > 0 && !(h.last().calls is Absent) ==> last_caller(h) == h.len() - 1,
        last_caller(h) > 0 ==> last_caller(h) < h.len() && !(h[last_caller(h)].calls is Absent),
    decreases h.len(),
{
    if h.len() > 0 && h.last().calls is Absent {
        lemma_last_caller(h.drop_last());
        assert forall|i: int| last_caller(h) < i < h.len() implies (#[trigger] h[i]).calls is Absent by {
            if i < h.len() - 1 {
                assert(h.drop_last()[i] == h[i]);
            }
        }
    }
}

/// Eviction touches nothing but old tool results and the arguments of old calls.
/// The words of the user, of the system and of the model stay as they are, and
/// so does what any message of the second half says. A result that goes leaves
/// a stub that tells its size. Every call keeps its id and its name, and its
/// arguments too when they are short, or when no message behind it makes a call.
pub proof fn law_eviction_spares_the_rest(h: Seq<MessageText>, limit: nat, enough: nat)
    ensures
        ({
            let r = evicted(h, limit, enough).0;
            &&& r.len() == h.len()
            &&& forall|i: int|
                0 <= i < h.len() ==> {
                    let m = #[trigger] r[i];
                    &&& m.role == h[i].role
                    &&& m.tool_call_id == h[i].tool_call_id
                    &&& m.extra == h[i].extra
                    &&& h[i].role != Some("tool"@) ==> m.content == h[i].content
                    &&& i >= h.len() / 2 ==> m.content == h[i].content
                    &&& m.content == h[i].content || m.content == ContentText::Text(
                        "[evicted: "@ + text::decimal(
                            match h[i].content {
                                ContentText::Text(s) => text::utf8_len(s) / 4,
                                _ => 0,
                            },
                        ) + " tokens]"@,
                    )
                    &&& !(h[i].calls is List) ==> m.calls == h[i].calls
                    &&& (forall|j: int| i < j < h.len() ==> (#[trigger] h[j]).calls is Absent)
                        ==> m.calls == h[i].calls
                    &&& h[i].calls matches CallsText::List(v) ==> {
                        &&& m.calls is List
                        &&& m.calls->List_0.len() == v.len()
                        &&& forall|k: int|
                            0 <= k < v.len() ==> {
                                let c = #[trigger] m.calls->List_0[k];
                                &&& c.id == v[k].id
                                &&& c.name == v[k].name
                                &&& v[k].arguments is None ==> c.arguments is None
                                &&& v[k].arguments matches Some(a) ==> (text::utf8_len(a) <= 200
                                    ==> c.arguments == Some(a)) && (text::utf8_len(a) > 200 ==> (
                                c.arguments == Some(a) || c.arguments == Some(
                                    minimal_arguments(outside::json_value(a)),
                                )))
                            }
                    }
                }
        }),
{
    law_oldest_results_go_first(h, limit, enough);
    lemma_last_caller(h);
    if history_tokens(h) > limit {
        let cut = arguments_cut(h);
        let k = choose|k: int|
            {
                &&& 0 <= k <= h.len() / 2
                &&& evicted(h, limit, enough).0 == #[trigger] stubbed(cut, k)
            };
        let r = evicted(h, limit, enough).0;
        assert(r.len() == h.len());
        assert forall|i: int|
            0 <= i < h.len() && (forall|j: int|
                i < j < h.len() ==> (#[trigger] h[j]).calls is Absent) implies (#[trigger] r[i]).calls
            == h[i].calls by {
            if i < last_caller(h) {
                assert(h[last_caller(h)].calls is Absent);
            }
        }
    }
}

/// Arguments that are cut down keep every name in its order and every value that
/// is no long text; of a text beyond a hundred bytes the beginning stays, eighty
/// bytes at most, with an ellipsis behind it.
pub proof fn law_arguments_keep_their_names(v: Seq<(Seq<char>, json::JsonText)>)
    ensures
        exists|w: Seq<(Seq<char>, json::JsonText)>|
            {
                &&& minimal_arguments(Some(json::JsonText::Table(v))) == #[trigger] json::written(
                    json::JsonText::Table(w),
                )
                &&& w.len() == v.len()
                &&& forall|i: int|
                    0 <= i < v.len() ==> {
                        let m = #[trigger] w[i];
                        &&& m.0 == v[i].0
                        &&& !(v[i].1 is Text) ==> m.1 == v[i].1
                        &&& v[i].1 matches json::JsonText::Text(s) ==> {
                            if text::utf8_len(s) <= 100 {
                                m.1 == v[i].1
                            } else {
                                exists|n: int|
                                    0 <= n < s.len() && m.1 == json::JsonText::Text(
                                        #[trigger] s.take(n) + "…"@,
                                    ) && text::utf8_len(s.take(n)) <= 80 && text::utf8_len(
                                        s.take(n + 1),
                                    ) > 80
                            }
                        }
                    }
            },
{
    let w = v.map_values(|m: (Seq<char>, json::JsonText)| (m.0, minimal_value(m.1)));
    assert forall|i: int| 0 <= i < v.len() implies {
        let m = #[trigger] w[i];
        &&& m.0 == v[i].0
        &&& !(v[i].1 is Text) ==> m.1 == v[i].1
        &&& v[i].1 matches json::JsonText::Text(s) ==> {
            if text::utf8_len(s) <= 100 {
                m.1 == v[i].1
            } else {
                exists|n: int|
                    0 <= n < s.len() && m.1 == json::JsonText::Text(#[trigger] s.take(n) + "…"@)
                        && text::utf8_len(s.take(n)) <= 80 && text::utf8_len(s.take(n + 1)) > 80
            }
        }
    } by {
        if let json::JsonText::Text(s) = v[i].1 {
            text::law_clip(s, 80);
            let n = text::clip(s, 80).len() as int;
            assert(s.take(n) =~= text::clip(s, 80));
            if n == s.len() {
                assert(s.take(n) =~= s);
            }
        }
    }
    assert(minimal_arguments(Some(json::JsonText::Table(v))) == json::written(
        json::JsonText::Table(w),
    ));
}

/// A message is read with whose it is, what it says, its calls and which call it
/// answers.
pub proof fn law_messages_are_read(j: json::JsonText, s: Seq<char>, v: Seq<json::JsonText>, i: int, f: json::JsonText)
    ensures
        message_in(j).role == j.member_text("role"@),
        message_in(j).tool_call_id == j.member_text("tool_call_id"@),
        j.member("content"@) == Some(json::JsonText::Text(s)) ==> message_in(j).content
            == ContentText::Text(s),
        j.member("content"@) is None || j.member("content"@) == Some(json::JsonText::Null)
            ==> message_in(j).content is Missing,
        j.member("tool_calls"@) is None ==> message_in(j).calls is Absent,
        j.member("tool_calls"@) == Some(json::JsonText::List(v)) && 0 <= i < v.len() ==> (message_in(
            j,
        ).calls matches CallsText::List(w) && w.len() == v.len() && w[i].id == v[i].member_text(
            "id"@,
        ) && (v[i].member("function"@) == Some(f) ==> w[i].name == f.member_text("name"@)
            && w[i].arguments == f.member_text("arguments"@))),
{
}

} // verus!
