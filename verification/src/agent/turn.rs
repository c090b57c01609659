//! How a turn opens: whether to ask back, how to put the request, which tools
//! to offer, and when the loop goes on.

use vstd::prelude::*;

use crate::agent::history::{Content, Message};
use crate::agent::history;
use crate::outside;
use crate::text;

verus! {

// ---------------------------------------------------------------------------
// Reading the request
// ---------------------------------------------------------------------------

pub const PATH_PATTERN: &'static str = "[\\\\/]|\\.\\w{1,5}\\s*$|^[\"'].*[\"']$";

pub const OPTION_PATTERN: &'static str =
    "(?i)^(option\\s+\\d|work\\s+on\\s+\\d|do\\s+\\d|start\\s+with\\s+\\d|\\d+\\.?\\s*$|first|second|third|fourth)\\b";

/// Whether a request looks like a path: it holds a slash or a backslash, ends
/// in an extension, or is quoted.
pub fn looks_like_path(s: &str) -> (r: bool)
    ensures
        r == outside::regex_matches(PATH_PATTERN@, text::trimmed(s@)),
{
    let t = text::trim(s);
    outside::regex_is_match(PATH_PATTERN, &t)
}

/// Whether a request picks one of several proposals, such as "option 2".
pub fn looks_like_option_ref(s: &str) -> (r: bool)
    ensures
        r == outside::regex_matches(OPTION_PATTERN@, text::trimmed(s@)),
{
    let t = text::trim(s);
    outside::regex_is_match(OPTION_PATTERN, &t)
}

/// The answers that count as a yes.
pub open spec fn is_yes(s: Seq<char>) -> bool {
    ||| s == "yes"@
    ||| s == "y"@
    ||| s == "yep"@
    ||| s == "yeah"@
    ||| s == "sure"@
    ||| s == "ok"@
    ||| s == "okay"@
    ||| s == "go"@
    ||| s == "go ahead"@
    ||| s == "proceed"@
    ||| s == "do it"@
    ||| s == "continue"@
    ||| s == "please"@
    ||| s == "please do"@
    ||| s == "alright"@
}

/// Whether a text in lower case is a yes.
pub fn says_yes(s: &str) -> (r: bool)
    ensures
        r == is_yes(s@),
{
    text::same(s, "yes") || text::same(s, "y") || text::same(s, "yep") || text::same(s, "yeah")
        || text::same(s, "sure") || text::same(s, "ok") || text::same(s, "okay")
        || text::same(s, "go") || text::same(s, "go ahead") || text::same(s, "proceed") || text::same(s, "do it")
        || text::same(s, "continue") || text::same(s, "please") || text::same(s, "please do")
        || text::same(s, "alright")
}

/// A request without the white space around it and the full stops at its end.
pub open spec fn bare(s: Seq<char>) -> Seq<char> {
    text::stripped_end(text::trimmed(s), "."@)
}

pub open spec fn affirms(s: Seq<char>) -> bool {
    is_yes(outside::lowered(bare(s)))
}

/// Whether a request is a short yes, such as "ok" or "Go.".
pub fn is_affirmation(s: &str) -> (r: bool)
    ensures
        r == affirms(s@),
{
    let t = text::trim(s);
    let b = text::trim_end_set(&t, ".");
    let l = outside::to_lowercase(&b);
    says_yes(&l)
}

// ---------------------------------------------------------------------------
// Asking back
// ---------------------------------------------------------------------------

/// The latest message with a role.
pub open spec fn latest(h: Seq<history::MessageText>, role: Seq<char>) -> Option<
    history::MessageText,
>
    decreases h.len(),
{
    if h.len() == 0 {
        None
    } else if h.last().has_role(role) {
        Some(h.last())
    } else {
        latest(h.drop_last(), role)
    }
}

/// The text of the latest message with a role, when that message has a text.
pub open spec fn latest_text(h: Seq<history::MessageText>, role: Seq<char>) -> Option<Seq<char>> {
    match latest(h, role) {
        Some(m) => m.text(),
        None => None,
    }
}

/// The text of the latest message with a role.
pub fn latest_text_of(h: &Vec<Message>, role: &str) -> (r: Option<String>)
    ensures
        text::opt_text(r) == latest_text(history::messages(h@), role@),
{
    let ghost all = history::messages(h@);
    let mut n: usize = h.len();
    assert(all.take(n as int) =~= all);
    while n > 0
        invariant
            n <= h.len(),
            all == history::messages(h@),
            latest(all, role@) == latest(all.take(n as int), role@),
        decreases n,
    {
        assert(all.take(n as int).drop_last() =~= all.take(n - 1));
        assert(all.take(n as int).last() == h@[n - 1]@);
        if h[n - 1].has_role(role) {
            return match &h[n - 1].content {
                Content::Text(s) => Some(s.clone()),
                _ => None,
            };
        }
        n = n - 1;
    }
    None
}

/// The assistant's latest message ends with a question mark.
pub open spec fn asked_question(h: Seq<history::MessageText>) -> bool {
    match latest_text(h, "assistant"@) {
        Some(s) => text::ends(text::trimmed_end(s), "?"@),
        None => false,
    }
}

pub fn assistant_asked_question(h: &Vec<Message>) -> (r: bool)
    ensures
        r == asked_question(history::messages(h@)),
{
    match latest_text_of(h, "assistant") {
        Some(s) => {
            let t = text::trim_end(&s);
            text::ends_with(&t, "?")
        },
        None => false,
    }
}

/// Whether a request is to be checked for being too vague, from what is known
/// of it.
pub fn clarifier_due(
    enabled: bool,
    bytes: usize,
    answers_question: bool,
    is_path: bool,
    is_option: bool,
    is_yes: bool,
) -> (r: bool)
    ensures
        r == (enabled && bytes < 80 && !answers_question && !is_path && !is_option && !is_yes),
{
    enabled && bytes < 80 && !answers_question && !is_path && !is_option && !is_yes
}

/// Whether a request is to be checked for being too vague: only a short one,
/// that neither answers a question, nor names a path or an option, nor says
/// yes.
pub fn wants_clarifier(enabled: bool, request: &str, h: &Vec<Message>) -> (r: bool)
    ensures
        r == (enabled && text::utf8_len(request@) < 80 && !asked_question(history::messages(h@))
            && !outside::regex_matches(PATH_PATTERN@, text::trimmed(request@))
            && !outside::regex_matches(OPTION_PATTERN@, text::trimmed(request@))
            && !affirms(request@)),
{
    clarifier_due(
        enabled,
        text::byte_len(request),
        assistant_asked_question(h),
        looks_like_path(request),
        looks_like_option_ref(request),
        is_affirmation(request),
    )
}

/// Adds the request and the one-shot instruction to ask back. Returns where the
/// instruction stands.
pub fn begin_clarifier(h: &mut Vec<Message>, request: &str, instruction: &str) -> (at: usize)
    ensures
        at == old(h)@.len() + 1,
        history::messages(final(h)@) == history::messages(old(h)@).push(
            history::plain("user"@, request@),
        ).push(history::plain("system"@, instruction@)),
{
    let u = Message::plain("user", request.to_owned());
    proof {
        history::lemma_messages_push(h@, u);
    }
    h.push(u);
    let at: usize = h.len();
    let s = Message::plain("system", instruction.to_owned());
    proof {
        history::lemma_messages_push(h@, s);
    }
    h.push(s);
    at
}

/// Whether the message at `at` is the one-shot instruction.
pub open spec fn is_instruction(h: Seq<history::MessageText>, at: int) -> bool {
    &&& 0 <= at < h.len()
    &&& h[at].has_role("system"@)
    &&& h[at].text() matches Some(s) && text::has(s, "vague"@)
}

/// Takes the one-shot instruction out again.
pub fn end_clarifier(h: &mut Vec<Message>, at: usize)
    ensures
        history::messages(final(h)@) == (if is_instruction(history::messages(old(h)@), at as int) {
            history::messages(old(h)@).remove(at as int)
        } else {
            history::messages(old(h)@)
        }),
{
    if at < h.len() {
        let ghost all = history::messages(h@);
        assert(all[at as int] == h@[at as int]@);
        let vague = match h[at].text() {
            Some(s) => text::contains(s, "vague"),
            None => false,
        };
        if h[at].has_role("system") && vague {
            let _ = h.remove(at);
            assert(history::messages(h@) =~= all.remove(at as int));
        }
    }
}

/// Asking back leaves nothing behind: once the instruction is taken out again,
/// the conversation has grown by the request alone.
pub proof fn law_clarifier_is_one_shot(
    h: Seq<history::MessageText>,
    request: Seq<char>,
    instruction: Seq<char>,
)
    requires
        text::has(instruction, "vague"@),
    ensures
        ({
            let asked = h.push(history::plain("user"@, request)).push(
                history::plain("system"@, instruction),
            );
            &&& is_instruction(asked, h.len() as int + 1)
            &&& asked.remove(h.len() as int + 1) == h.push(history::plain("user"@, request))
        }),
{
    let asked = h.push(history::plain("user"@, request)).push(
        history::plain("system"@, instruction),
    );
    assert(asked.remove(h.len() as int + 1) =~= h.push(history::plain("user"@, request)));
}

// ---------------------------------------------------------------------------
// Putting the request
// ---------------------------------------------------------------------------

pub const PROPOSE_PREAMBLE: &'static str =
    "Define what 'done' means for the following task by calling \
     propose_contract. Do not start the task yet — just enumerate \
     the checks that would prove it's done.\n\n\
     TASK:\n";

/// The request with the files that it refers to, the changes in the working
/// tree, and the preamble that asks for a contract first.
pub open spec fn augmented(
    request: Seq<char>,
    references: Seq<char>,
    diff: Seq<char>,
    propose: bool,
) -> Seq<char> {
    let body = request + references + diff;
    if propose {
        PROPOSE_PREAMBLE@ + body
    } else {
        body
    }
}

/// The request as the model gets it. `contract_on`, `has_contract` and
/// `conversational` say whether contracts are in use, whether one is active,
/// and whether the request is mere conversation.
pub fn augment_request(
    request: &str,
    references: &str,
    diff: &str,
    contract_on: bool,
    has_contract: bool,
    conversational: bool,
) -> (r: String)
    ensures
        r@ == augmented(
            request@,
            references@,
            diff@,
            contract_on && !has_contract && !conversational,
        ),
{
    let mut body: String = request.to_owned();
    body.push_str(references);
    body.push_str(diff);
    if contract_on && !has_contract && !conversational {
        let mut r: String = PROPOSE_PREAMBLE.to_owned();
        r.push_str(&body);
        r
    } else {
        body
    }
}

/// The category of tools after the request is read: a yes keeps the one that
/// was open, or opens planning; a conversational request gets no tools; any
/// other request gets them all.
pub open spec fn routed(yes: bool, current: Option<Seq<char>>, conversational: bool) -> Option<
    Seq<char>,
> {
    if yes {
        match current {
            Some(c) => if c != "respond"@ {
                Some(c)
            } else {
                Some("plan"@)
            },
            None => Some("plan"@),
        }
    } else if conversational {
        Some("respond"@)
    } else {
        None
    }
}

pub fn route_category(yes: bool, current: &Option<String>, conversational: bool) -> (r: Option<
    String,
>)
    ensures
        text::opt_text(r) == routed(yes, text::opt_text(*current), conversational),
{
    if yes {
        match current {
            Some(c) => {
                if !text::same(c, "respond") {
                    Some(c.clone())
                } else {
                    Some("plan".to_owned())
                }
            },
            None => Some("plan".to_owned()),
        }
    } else if conversational {
        Some("respond".to_owned())
    } else {
        None
    }
}

/// The kind of task: a request without tools is an explanation.
pub fn align_task_type(category: &Option<String>, initial: &str) -> (r: String)
    ensures
        r@ == (if text::opt_text(*category) == Some("respond"@) {
            "explanation"@
        } else {
            initial@
        }),
{
    match category {
        Some(c) => {
            if text::same(c, "respond") {
                "explanation".to_owned()
            } else {
                initial.to_owned()
            }
        },
        None => initial.to_owned(),
    }
}

/// A task that does not change anything.
pub open spec fn is_talk(task_type: Seq<char>) -> bool {
    task_type == "explanation"@ || task_type == "respond"@
}

pub fn talks(task_type: &str) -> (r: bool)
    ensures
        r == is_talk(task_type@),
{
    text::same(task_type, "explanation") || text::same(task_type, "respond")
}

// ---------------------------------------------------------------------------
// The loop
// ---------------------------------------------------------------------------

/// What the loop does before it calls the model again.
#[derive(Debug, Clone, Copy, PartialEq, Eq, Structural)]
pub enum LoopStep {
    /// The turn has used up its tool calls.
    LimitReached,
    /// The user asked to stop.
    Interrupted,
    /// Call the model, after making room first when `evict` is set.
    Ask { evict: bool },
}

pub open spec fn loop_step(calls: u32, limit: u32, interrupts: u32) -> LoopStep {
    if calls >= limit {
        LoopStep::LimitReached
    } else if interrupts > 0 {
        LoopStep::Interrupted
    } else {
        LoopStep::Ask { evict: calls > 0 && calls % 3 == 0 }
    }
}

/// Whether the loop goes on: not beyond the limit of tool calls, not after an
/// interrupt, and with an eviction every third call.
pub fn next_step(calls: u32, limit: u32, interrupts: u32) -> (r: LoopStep)
    ensures
        r == loop_step(calls, limit, interrupts),
{
    if calls >= limit {
        LoopStep::LimitReached
    } else if interrupts > 0 {
        LoopStep::Interrupted
    } else {
        LoopStep::Ask { evict: calls > 0 && calls % 3 == 0 }
    }
}

/// The tools that are held back until there is a contract.
pub open spec fn held_back(name: Seq<char>) -> bool {
    ||| name == "write_file"@
    ||| name == "append_file"@
    ||| name == "patch"@
    ||| name == "read_and_patch"@
    ||| name == "create_and_run"@
    ||| name == "run"@
    ||| name == "memory_remember"@
    ||| name == "memory_forget"@
}

pub fn is_held_back(name: &str) -> (r: bool)
    ensures
        r == held_back(name@),
{
    text::same(name, "write_file") || text::same(name, "append_file") || text::same(name, "patch")
        || text::same(name, "read_and_patch") || text::same(name, "create_and_run")
        || text::same(name, "run") || text::same(name, "memory_remember")
        || text::same(name, "memory_forget")
}

/// The tools of `names` that the model gets to see. While a contract is to be
/// proposed, those that change something are held back.
pub open spec fn offered(names: Seq<Seq<char>>, hold: bool) -> Seq<Seq<char>> {
    if hold {
        names.filter(|n: Seq<char>| !held_back(n))
    } else {
        names
    }
}

/// Which of the tools in `names` the model gets to see, by their names.
pub fn offer_tools(
    names: &Vec<String>,
    contract_on: bool,
    has_contract: bool,
    task_type: &str,
) -> (r: Vec<String>)
    ensures
        text::texts(r@) == offered(
            text::texts(names@),
            contract_on && !has_contract && !is_talk(task_type@),
        ),
{
    let hold = contract_on && !has_contract && !talks(task_type);
    let ghost all = text::texts(names@);
    let ghost keep = |n: Seq<char>| !held_back(n);
    let mut r: Vec<String> = Vec::new();
    let mut i: usize = 0;
    reveal(Seq::filter);
    assert(text::texts(r@) =~= all.take(0).filter(keep));
    assert(text::texts(r@) =~= all.take(0));
    while i < names.len()
        invariant
            i <= names.len(),
            all == text::texts(names@),
            keep == (|n: Seq<char>| !held_back(n)),
            hold ==> text::texts(r@) == all.take(i as int).filter(keep),
            !hold ==> text::texts(r@) == all.take(i as int),
        decreases names.len() - i,
    {
        reveal(Seq::filter);
        assert(all.take(i + 1).drop_last() =~= all.take(i as int));
        assert(all.take(i + 1).last() == names@[i as int]@);
        assert(all.take(i + 1) =~= all.take(i as int).push(names@[i as int]@));
        if !hold || !is_held_back(&names[i]) {
            let n = names[i].clone();
            proof {
                text::lemma_texts_push(r@, n);
            }
            r.push(n);
        }
        i = i + 1;
    }
    assert(all.take(i as int) =~= all);
    r
}

/// While a contract is to be proposed, no tool that changes something is in
/// sight, and every other tool is.
pub proof fn law_no_mutation_before_contract(names: Seq<Seq<char>>)
    ensures
        forall|i: int|
            0 <= i < offered(names, true).len() ==> !held_back(#[trigger] offered(names, true)[i]),
        forall|n: Seq<char>|
            names.contains(n) && !held_back(n) ==> #[trigger] offered(names, true).contains(n),
{
    let keep = |n: Seq<char>| !held_back(n);
    broadcast use vstd::seq_lib::group_filter_ensures;

    assert forall|i: int| 0 <= i < offered(names, true).len() implies !held_back(
        #[trigger] offered(names, true)[i],
    ) by {
        assert(keep(names.filter(keep)[i]));
    }
    assert forall|n: Seq<char>| names.contains(n) && !held_back(n) implies #[trigger] offered(
        names,
        true,
    ).contains(n) by {
        let i = choose|i: int| 0 <= i < names.len() && names[i] == n;
        assert(keep(names[i]));
    }
}

/// A yes is one of a few words, whatever the case of its letters, with or
/// without a full stop or white space around it.
pub proof fn law_yes_in_any_form(w: Seq<char>)
    requires
        w.len() > 0,
        text::all_ascii(w),
        !text::white(w[0]),
        !text::white(w.last()),
        w.last() != '.',
        text::ascii_lower(w) == w,
    ensures
        affirms(w) == is_yes(w),
        affirms(w.push('.')) == is_yes(w),
        affirms(text::ascii_upper(w)) == is_yes(w),
        affirms(seq![' '] + w) == is_yes(w),
        is_yes("yes"@) && is_yes("y"@) && is_yes("yep"@) && is_yes("yeah"@) && is_yes("sure"@),
        is_yes("ok"@) && is_yes("okay"@) && is_yes("go"@) && is_yes("go ahead"@) && is_yes("do it"@),
        is_yes("proceed"@) && is_yes("continue"@) && is_yes("please"@) && is_yes("please do"@),
        is_yes("alright"@),
        is_yes(w) ==> w.len() <= 9,
        !is_yes("no"@) && !is_yes(""@),
{
    reveal_strlit(".");
    let dot = "."@;
    assert(dot =~= seq!['.']);
    assert forall|c: char| dot.contains(c) == (c == '.') by {
        assert(dot[0] == '.');
    }
    assert(text::trimmed(w) == w);
    assert(bare(w) == w);
    let p = w.push('.');
    assert(p.drop_last() =~= w);
    assert(text::trimmed(p) == p);
    assert(text::stripped_end(p, dot) == text::stripped_end(w, dot));
    assert(bare(p) == w);
    let u = text::ascii_upper(w);
    assert(u.len() == w.len());
    assert(u[0] == text::ascii_upper_char(w[0]));
    assert(u.last() == text::ascii_upper_char(w.last()));
    assert(text::trimmed(u) == u);
    assert(bare(u) == u);
    assert(text::all_ascii(u)) by {
        assert forall|i: int| 0 <= i < u.len() implies text::is_ascii(#[trigger] u[i]) by {
            assert(text::is_ascii(w[i]));
        }
    }
    assert(text::ascii_lower(u) =~= text::ascii_lower(w));
    let b = seq![' '] + w;
    assert(b.drop_first() =~= w);
    assert(text::trimmed_start(b) == text::trimmed_start(w));
    reveal_strlit("yes");
    reveal_strlit("y");
    reveal_strlit("yep");
    reveal_strlit("yeah");
    reveal_strlit("sure");
    reveal_strlit("ok");
    reveal_strlit("okay");
    reveal_strlit("go");
    reveal_strlit("go ahead");
    reveal_strlit("proceed");
    reveal_strlit("do it");
    reveal_strlit("continue");
    reveal_strlit("please");
    reveal_strlit("please do");
    reveal_strlit("alright");
    reveal_strlit("no");
    reveal_strlit("");
    assert("no"@.len() == 2 && ""@.len() == 0 && "no"@[0] == 'n' && "ok"@[0] == 'o' && "go"@[0] == 'g');
    assert("y"@.len() == 1 && "yes"@.len() == 3 && "yep"@.len() == 3 && "yeah"@.len() == 4
        && "sure"@.len() == 4 && "ok"@.len() == 2 && "okay"@.len() == 4 && "go"@.len() == 2
        && "go ahead"@.len() == 8 && "proceed"@.len() == 7 && "do it"@.len() == 5
        && "continue"@.len() == 8 && "please"@.len() == 6 && "please do"@.len() == 9
        && "alright"@.len() == 7);
}

/// The latest message with a role is the one behind which no other has it.
pub proof fn law_latest(h: Seq<history::MessageText>, role: Seq<char>, i: int)
    ensures
        0 <= i < h.len() && h[i].role == Some(role) && (forall|k: int|
            i < k < h.len() ==> (#[trigger] h[k]).role != Some(role)) ==> latest(h, role) == Some(h[i]),
        (forall|k: int| 0 <= k < h.len() ==> (#[trigger] h[k]).role != Some(role)) ==> latest(h, role)
            is None,
    decreases h.len(),
{
    if h.len() > 0 {
        let d = h.drop_last();
        law_latest(d, role, i);
        assert(h.last() == h[h.len() - 1]);
        assert(forall|k: int| 0 <= k < d.len() ==> d[k] == h[k]);
    }
}

/// The model gets the request with the files and the changes behind it, and
/// nothing else, unless a contract is to be proposed first: then the words that
/// ask for it stand before all that.
pub proof fn law_request_is_passed_on(
    request: Seq<char>,
    references: Seq<char>,
    diff: Seq<char>,
    propose: bool,
)
    ensures
        !propose ==> augmented(request, references, diff, propose) == request + references + diff,
        propose ==> augmented(request, references, diff, propose) == PROPOSE_PREAMBLE@ + (request
            + references + diff),
        text::has(augmented(request, references, diff, propose), request),
{
    let r = augmented(request, references, diff, propose);
    let p = if propose {
        PROPOSE_PREAMBLE@
    } else {
        Seq::empty()
    };
    text::law_affixes(request, p, references + diff);
    assert(r =~= p + request + (references + diff));
}

/// A yes keeps the tools that were open, or opens those for planning where none
/// were; mere conversation gets no tools; any other request gets them all.
pub proof fn law_routing(current: Option<Seq<char>>, conversational: bool)
    ensures
        current matches Some(c) ==> (c != "respond"@ ==> routed(true, current, conversational)
            == Some(c)),
        current is None || current == Some("respond"@) ==> routed(true, current, conversational)
            == Some("plan"@),
        routed(false, current, true) == Some("respond"@),
        routed(false, current, false) is None,
{
}

/// The model is asked while calls are left and nobody interrupts; room is made
/// in the conversation at every third call.
pub proof fn law_when_the_model_is_asked(calls: u32, limit: u32, interrupts: u32)
    ensures
        calls >= limit ==> loop_step(calls, limit, interrupts) is LimitReached,
        calls < limit && interrupts > 0 ==> loop_step(calls, limit, interrupts) is Interrupted,
        calls < limit && interrupts == 0 ==> loop_step(calls, limit, interrupts) == (LoopStep::Ask {
            evict: calls == 3 * (calls / 3) && calls != 0,
        }),
{
}

/// Until there is a contract the model does not get the tools that change
/// something, and gets every other one.
pub proof fn law_tools_are_held_back(names: Seq<Seq<char>>, n: Seq<char>)
    requires
        names.contains(n),
    ensures
        offered(names, false) == names,
        n == "write_file"@ || n == "append_file"@ || n == "patch"@ || n == "read_and_patch"@ || n
            == "create_and_run"@ || n == "run"@ || n == "memory_remember"@ || n == "memory_forget"@
            <==> !offered(names, true).contains(n),
        offered(names, true).len() <= names.len(),
{
    let p = |x: Seq<char>| !held_back(x);
    lemma_filter_contains(names, n);
    broadcast use vstd::seq_lib::group_filter_ensures;
}

proof fn lemma_filter_contains(names: Seq<Seq<char>>, n: Seq<char>)
    ensures
        names.filter(|x: Seq<char>| !held_back(x)).contains(n) <==> names.contains(n) && !held_back(n),
    decreases names.len(),
{
    reveal(Seq::filter);
    let p = |x: Seq<char>| !held_back(x);
    if names.len() > 0 {
        let d = names.drop_last();
        lemma_filter_contains(d, n);
        let f = d.filter(p);
        if names.contains(n) {
            let k = choose|k: int| 0 <= k < names.len() && names[k] == n;
            if k < d.len() {
                assert(d[k] == n);
            }
        }
        if d.contains(n) {
            let k = choose|k: int| 0 <= k < d.len() && d[k] == n;
            assert(names[k] == n);
        }
        if !held_back(names.last()) {
            assert(names.filter(p) =~= f.push(names.last()));
            if f.contains(n) {
                let k = choose|k: int| 0 <= k < f.len() && f[k] == n;
                assert(f.push(names.last())[k] == n);
            }
            assert(f.push(names.last())[f.len() as int] == names.last());
            if names.filter(p).contains(n) {
                let k = choose|k: int| 0 <= k < names.filter(p).len() && names.filter(p)[k] == n;
                if k < f.len() {
                    assert(f[k] == n);
                } else {
                    assert(names[names.len() - 1] == n);
                }
            }
        } else {
            assert(names.filter(p) =~= f);
        }
        if names.contains(n) && !held_back(n) {
            let k = choose|k: int| 0 <= k < names.len() && names[k] == n;
            if k == d.len() {
                assert(names.filter(p) =~= f.push(n));
            }
        }
    } else {
        assert(names.filter(p) =~= Seq::<Seq<char>>::empty());
    }
}

/// A short message is looked at twice, unless it answers a question, names a
/// path or an option, or says yes. Talk is an explanation.
pub proof fn law_when_to_ask_back(
    enabled: bool,
    bytes: usize,
    answers: bool,
    is_path: bool,
    is_option: bool,
    is_yes: bool,
    r: bool,
    category: &Option<String>,
    initial: &str,
    t: String,
)
    requires
        call_ensures(clarifier_due, (enabled, bytes, answers, is_path, is_option, is_yes), r),
        call_ensures(align_task_type, (category, initial), t),
    ensures
        !enabled || bytes >= 80 || answers || is_path || is_option || is_yes ==> !r,
        enabled && bytes < 80 && !answers && !is_path && !is_option && !is_yes ==> r,
        *category matches Some(c) ==> (c@ == "respond"@ ==> t@ == "explanation"@) && (c@
            != "respond"@ ==> t@ == initial@),
        *category is None ==> t@ == initial@,
        is_talk("explanation"@) && is_talk("respond"@),
{
}

} // verus!
