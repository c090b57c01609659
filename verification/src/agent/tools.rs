//! What the agent tells the model about its tools: capped results, hints after
//! failures, and guidance cards.

use vstd::prelude::*;

use crate::agent::history::{Calls, Message, ToolCall};
use crate::agent::history;
use crate::edit;
use crate::text;

verus! {

// ---------------------------------------------------------------------------
// Shortening
// ---------------------------------------------------------------------------

/// `s` up to its `n`-th line feed, or all of it when it has fewer. At least one
/// line is given.
pub open spec fn first_lines(s: Seq<char>, n: int) -> Seq<char>
    decreases s.len(),
{
    if s.len() == 0 {
        s
    } else if s[0] == '\n' {
        if n <= 1 {
            Seq::empty()
        } else {
            seq![s[0]] + first_lines(s.drop_first(), n - 1)
        }
    } else {
        seq![s[0]] + first_lines(s.drop_first(), n)
    }
}

/// The first `n` lines of `s`.
pub fn first_n_lines(s: &str, n: usize) -> (r: String)
    ensures
        r@ == first_lines(s@, n as int),
{
    let v = text::chars(s);
    let mut count: usize = 0;
    let mut i: usize = 0;
    assert(v@.take(0) + v@.skip(0) =~= v@);
    assert(v@.take(0) + first_lines(v@.skip(0), n as int) =~= first_lines(v@, n as int)) by {
        assert(v@.skip(0) =~= v@);
    }
    while i < v.len()
        invariant
            i <= v.len(),
            v@ == s@,
            count <= i,
            count < n || count == 0,
            v@.take(i as int) + first_lines(v@.skip(i as int), n - count) == first_lines(
                v@,
                n as int,
            ),
        decreases v.len() - i,
    {
        let ghost rest = v@.skip(i as int);
        assert(rest.drop_first() =~= v@.skip(i + 1));
        assert(v@.take(i + 1) =~= v@.take(i as int).push(v@[i as int]));
        if v[i] == '\n' {
            count = count + 1;
            if count >= n {
                let r = text::string_of(&v, 0, i);
                assert(r@ =~= v@.take(i as int) + first_lines(rest, n - (count - 1)));
                return r;
            }
            assert(v@.take(i + 1) + first_lines(v@.skip(i + 1), n - count) =~= v@.take(i as int)
                + first_lines(rest, n - (count - 1)));
        } else {
            assert(v@.take(i + 1) + first_lines(v@.skip(i + 1), n - count) =~= v@.take(i as int)
                + first_lines(rest, n - count));
        }
        i = i + 1;
    }
    assert(v@.take(i as int) + first_lines(v@.skip(i as int), n - count) =~= v@);
    s.to_owned()
}

/// How full the model's context window is.
#[derive(Debug, Clone, Copy, PartialEq, Eq, Structural)]
pub enum Pressure {
    Low,
    Medium,
    High,
}

/// How many bytes of a tool result are let through.
pub open spec fn result_cap(p: Pressure) -> int {
    match p {
        Pressure::Low => 16_000,
        Pressure::Medium => 8_000,
        Pressure::High => 4_000,
    }
}

pub const TRUNCATED_TAIL: &'static str =
    " chars total. \
     Use bash+grep or read_file with offset/limit to target a specific range. \
     Do not re-read the full result.]";

/// A tool result as it enters the conversation: whole when it is under the cap,
/// else its first thirty lines, themselves held to the cap, and a note.
pub open spec fn capped(content: Seq<char>, p: Pressure) -> Seq<char> {
    let cap = result_cap(p);
    if text::utf8_len(content) <= cap {
        content
    } else {
        let lines = first_lines(content, 30);
        let head = if text::utf8_len(lines) > cap {
            text::clip(content, cap)
        } else {
            lines
        };
        head + "\n\n[Output truncated — "@ + text::decimal(text::utf8_len(content))
            + TRUNCATED_TAIL@
    }
}

pub fn cap_tool_result(content: &str, p: Pressure) -> (r: String)
    ensures
        r@ == capped(content@, p),
{
    let cap: usize = match p {
        Pressure::Low => 16_000,
        Pressure::Medium => 8_000,
        Pressure::High => 4_000,
    };
    let n = text::byte_len(content);
    if n <= cap {
        return content.to_owned();
    }
    let lines = first_n_lines(content, 30);
    let mut head: String = if text::byte_len(&lines) > cap {
        text::clip_bytes(content, cap)
    } else {
        lines
    };
    head.push_str("\n\n[Output truncated — ");
    head.push_str(&text::number(n as u64));
    head.push_str(TRUNCATED_TAIL);
    head
}

/// `s` held to `n` bytes, with an ellipsis when something was cut.
pub open spec fn shortened(s: Seq<char>, n: int) -> Seq<char> {
    if text::utf8_len(s) <= n {
        s
    } else {
        text::clip(s, n) + "…"@
    }
}

pub fn truncate_short(s: &str, n: usize) -> (r: String)
    ensures
        r@ == shortened(s@, n as int),
{
    if text::byte_len(s) <= n {
        s.to_owned()
    } else {
        let mut r = text::clip_bytes(s, n);
        r.push_str("…");
        r
    }
}

// ---------------------------------------------------------------------------
// Hints and cards
// ---------------------------------------------------------------------------

pub const HINT_PATCH: &'static str =
    "Try `read_and_patch` instead — it reads the current file first then patches atomically, avoiding stale-content mismatches.";

pub const HINT_BASH: &'static str =
    "Double-check that commands and paths exist. Use `which <cmd>` or `ls <path>` to probe before running complex commands.";

pub const HINT_WRITE: &'static str =
    "Call `read_file` on the target path first — the write guard requires a prior read before writing.";

pub const HINT_READ: &'static str = "Verify the path exists with `bash` before reading.";

pub const HINT_OTHER: &'static str =
    "Try a different approach, a different tool, or verify your assumptions with a simpler command first.";

/// The hint for a tool that failed twice in a row.
pub open spec fn tool_hint(name: Seq<char>) -> Seq<char> {
    if name == "patch"@ {
        HINT_PATCH@
    } else if name == "bash"@ {
        HINT_BASH@
    } else if name == "write_file"@ {
        HINT_WRITE@
    } else if name == "read_file"@ {
        HINT_READ@
    } else {
        HINT_OTHER@
    }
}

pub fn recency_tool_hint(tool_name: &str) -> (r: &'static str)
    ensures
        r@ == tool_hint(tool_name@),
{
    if text::same(tool_name, "patch") {
        HINT_PATCH
    } else if text::same(tool_name, "bash") {
        HINT_BASH
    } else if text::same(tool_name, "write_file") {
        HINT_WRITE
    } else if text::same(tool_name, "read_file") {
        HINT_READ
    } else {
        HINT_OTHER
    }
}

pub const CARD_PATCH: &'static str = "\
### patch\n\
Applies diffs. Requires EXACT current file content.\n\
- Hunk failed / context mismatch: call read_file first, rebuild diff from current content\n\
- Never patch without reading the file in the same turn\n";

pub const CARD_READ_AND_PATCH: &'static str = "\
### read_and_patch (preferred for edits)\n\
Atomic read + patch. Avoids stale-content failures.\n\
- Prefer this over separate read_file + patch\n\
- Context mismatch: call read_file, rebuild diff from fresh content\n";

pub const CARD_WRITE: &'static str = "\
### write_file\n\
Creates or overwrites. Requires a prior read_file on the same path.\n\
- \"Prior read required\": call read_file on the path first\n\
- For targeted edits prefer patch or read_and_patch\n";

pub const CARD_BASH: &'static str = "\
### bash\n\
Runs shell commands.\n\
- Command not found: verify with `which <cmd>`\n\
- Path errors: verify with `ls <path>` before using it\n\
- Check exit code in the result for test / build commands\n";

pub const CARD_READ: &'static str = "\
### read_file\n\
Reads file content.\n\
- File not found: verify with bash + ls or find first\n\
- Large file: use offset/limit to target a range — do not read the whole file\n\
- Re-read after writing to confirm the change took effect\n";

/// The guidance card of a tool, empty for a tool that has none.
pub open spec fn card(name: Seq<char>) -> Seq<char> {
    if name == "patch"@ {
        CARD_PATCH@
    } else if name == "read_and_patch"@ {
        CARD_READ_AND_PATCH@
    } else if name == "write_file"@ {
        CARD_WRITE@
    } else if name == "bash"@ {
        CARD_BASH@
    } else if name == "read_file"@ {
        CARD_READ@
    } else {
        ""@
    }
}

pub fn tool_skill_card(name: &str) -> (r: &'static str)
    ensures
        r@ == card(name@),
{
    if text::same(name, "patch") {
        CARD_PATCH
    } else if text::same(name, "read_and_patch") {
        CARD_READ_AND_PATCH
    } else if text::same(name, "write_file") {
        CARD_WRITE
    } else if text::same(name, "bash") {
        CARD_BASH
    } else if text::same(name, "read_file") {
        CARD_READ
    } else {
        ""
    }
}

// ---------------------------------------------------------------------------
// Choosing cards
// ---------------------------------------------------------------------------

/// The last sixteen messages, the latest first.
pub open spec fn recent(h: Seq<history::MessageText>) -> Seq<history::MessageText> {
    if h.len() <= 16 {
        h.reverse()
    } else {
        h.skip(h.len() - 16).reverse()
    }
}

pub open spec fn or_empty(s: Option<Seq<char>>) -> Seq<char> {
    match s {
        Some(t) => t,
        None => Seq::empty(),
    }
}

/// A call that names both itself and a tool.
pub open spec fn identified(c: history::CallText) -> bool {
    or_empty(c.id).len() > 0 && or_empty(c.name).len() > 0
}

/// `v` with `x` at its end unless it is there already.
pub open spec fn with_new(v: Seq<Seq<char>>, x: Seq<char>) -> Seq<Seq<char>> {
    if v.contains(x) {
        v
    } else {
        v.push(x)
    }
}

/// `used` and the tools of `calls`, each once.
pub open spec fn call_tools(used: Seq<Seq<char>>, calls: Seq<history::CallText>) -> Seq<Seq<char>>
    decreases calls.len(),
{
    if calls.len() == 0 {
        used
    } else {
        let before = call_tools(used, calls.drop_last());
        if identified(calls.last()) {
            with_new(before, or_empty(calls.last().name))
        } else {
            before
        }
    }
}

/// The tools that the assistant called in `r`, each once, in order.
pub open spec fn used_tools(r: Seq<history::MessageText>) -> Seq<Seq<char>>
    decreases r.len(),
{
    if r.len() == 0 {
        Seq::empty()
    } else {
        let before = used_tools(r.drop_last());
        if r.last().has_role("assistant"@) {
            call_tools(before, r.last().call_list())
        } else {
            before
        }
    }
}

/// The tool of the last call in `calls` with an id.
pub open spec fn called_tool(calls: Seq<history::CallText>, id: Seq<char>) -> Option<Seq<char>>
    decreases calls.len(),
{
    if calls.len() == 0 {
        None
    } else if identified(calls.last()) && or_empty(calls.last().id) == id {
        Some(or_empty(calls.last().name))
    } else {
        called_tool(calls.drop_last(), id)
    }
}

/// The tool that the call with an id asked for.
pub open spec fn tool_of(r: Seq<history::MessageText>, id: Seq<char>) -> Option<Seq<char>>
    decreases r.len(),
{
    if r.len() == 0 {
        None
    } else if r.last().has_role("assistant"@) && called_tool(r.last().call_list(), id) is Some {
        called_tool(r.last().call_list(), id)
    } else {
        tool_of(r.drop_last(), id)
    }
}

pub open spec fn looks_like_error(s: Seq<char>) -> bool {
    text::has(s, "Error"@) || text::has(s, "failed"@) || text::has(s, "not found"@) || text::has(
        s,
        "mismatch"@,
    )
}

/// The tool whose failure a message reports.
pub open spec fn failed_tool(
    m: history::MessageText,
    all: Seq<history::MessageText>,
) -> Option<Seq<char>> {
    if m.has_role("tool"@) && looks_like_error(or_empty(m.text())) && m.tool_call_id is Some {
        tool_of(all, m.tool_call_id->0)
    } else {
        None
    }
}

/// The tools whose calls failed in `r`, each once, in order.
pub open spec fn error_tools(
    r: Seq<history::MessageText>,
    all: Seq<history::MessageText>,
) -> Seq<Seq<char>>
    decreases r.len(),
{
    if r.len() == 0 {
        Seq::empty()
    } else {
        let before = error_tools(r.drop_last(), all);
        match failed_tool(r.last(), all) {
            Some(name) => with_new(before, name),
            None => before,
        }
    }
}

/// The first request in `r` that the user wrote.
pub open spec fn user_request(r: Seq<history::MessageText>) -> Seq<char>
    decreases r.len(),
{
    if r.len() == 0 {
        Seq::empty()
    } else {
        let before = user_request(r.drop_last());
        if before.len() == 0 && r.last().has_role("user"@) && r.last().text() is Some
            && !text::starts(r.last().text()->0, "[SYSTEM]"@) {
            r.last().text()->0
        } else {
            before
        }
    }
}

pub open spec fn wants_patch(s: Seq<char>) -> bool {
    text::has(s, "patch"@) || text::has(s, "edit"@) || text::has(s, "fix"@) || text::has(
        s,
        "change"@,
    )
}

pub open spec fn wants_write(s: Seq<char>) -> bool {
    text::has(s, "write"@) || text::has(s, "create"@)
}

pub open spec fn wants_read(s: Seq<char>) -> bool {
    text::has(s, "read"@) || text::has(s, "show"@) || text::has(s, "check"@) || text::has(
        s,
        "look"@,
    )
}

pub open spec fn wants_run(s: Seq<char>) -> bool {
    text::has(s, "run"@) || text::has(s, "exec"@) || text::has(s, "build"@) || text::has(
        s,
        "test"@,
    ) || text::has(s, "compile"@)
}

pub open spec fn one_if(b: bool, name: Seq<char>) -> Seq<Seq<char>> {
    if b {
        seq![name]
    } else {
        Seq::empty()
    }
}

/// The tools that a request in lower case seems to call for.
pub open spec fn intended_tools(s: Seq<char>) -> Seq<Seq<char>> {
    one_if(wants_patch(s), "patch"@) + one_if(wants_write(s), "write_file"@) + one_if(
        wants_read(s),
        "read_file"@,
    ) + one_if(wants_run(s), "bash"@)
}

/// The first three tools of `names` that have a card, each once.
pub open spec fn picked(names: Seq<Seq<char>>) -> Seq<Seq<char>>
    decreases names.len(),
{
    if names.len() == 0 {
        Seq::empty()
    } else {
        let before = picked(names.drop_last());
        if before.len() < 3 && !before.contains(names.last()) && card(names.last()).len() > 0 {
            before.push(names.last())
        } else {
            before
        }
    }
}

/// `out` and the cards of `names`, as many as keep it within 1200 bytes.
pub open spec fn with_cards(out: Seq<char>, names: Seq<Seq<char>>) -> Seq<char>
    decreases names.len(),
{
    if names.len() == 0 || text::utf8_len(out) + text::utf8_len(card(names[0])) > 1200 {
        out
    } else {
        with_cards(out + card(names[0]), names.drop_first())
    }
}

/// The tools to give guidance on: those whose calls failed, then those that
/// were used, then those that the request seems to call for.
pub open spec fn guided_tools(h: Seq<history::MessageText>) -> Seq<Seq<char>> {
    let r = recent(h);
    picked(
        error_tools(r, r) + used_tools(r) + intended_tools(text::ascii_lower(user_request(r))),
    )
}

/// The guidance to put into the system prompt.
pub open spec fn guidance(h: Seq<history::MessageText>) -> Seq<char> {
    let names = guided_tools(h);
    if names.len() == 0 {
        Seq::empty()
    } else {
        with_cards("\n\n## Tool guidance\n"@, names)
    }
}

fn has_text(v: &Vec<String>, x: &str) -> (r: bool)
    ensures
        r == text::texts(v@).contains(x@),
{
    let ghost all = text::texts(v@);
    let mut i: usize = 0;
    while i < v.len()
        invariant
            i <= v.len(),
            all == text::texts(v@),
            forall|j: int| 0 <= j < i ==> all[j] != x@,
        decreases v.len() - i,
    {
        if text::same(&v[i], x) {
            assert(all[i as int] == x@);
            return true;
        }
        i = i + 1;
    }
    false
}

fn add_new(v: &mut Vec<String>, x: &str)
    ensures
        text::texts(final(v)@) == with_new(text::texts(old(v)@), x@),
{
    if !has_text(v, x) {
        let s = x.to_owned();
        proof {
            text::lemma_texts_push(v@, s);
        }
        v.push(s);
    }
}

fn opt_str(s: &Option<String>) -> (r: String)
    ensures
        r@ == or_empty(text::opt_text(*s)),
{
    match s {
        Some(t) => t.clone(),
        None => {
            let e = String::new();
            assert(e@ =~= Seq::<char>::empty());
            e
        },
    }
}

fn add_call_tools(used: &mut Vec<String>, calls: &Vec<ToolCall>)
    ensures
        text::texts(final(used)@) == call_tools(
            text::texts(old(used)@),
            history::call_texts(calls@),
        ),
{
    let ghost all = history::call_texts(calls@);
    let ghost start = text::texts(used@);
    let mut i: usize = 0;
    assert(all.take(0) =~= Seq::<history::CallText>::empty());
    while i < calls.len()
        invariant
            i <= calls.len(),
            all == history::call_texts(calls@),
            text::texts(used@) == call_tools(start, all.take(i as int)),
        decreases calls.len() - i,
    {
        assert(all.take(i + 1).drop_last() =~= all.take(i as int));
        assert(all.take(i + 1).last() == calls@[i as int]@);
        let id = opt_str(&calls[i].id);
        let name = opt_str(&calls[i].name);
        if !id.as_str().is_empty() && !name.as_str().is_empty() {
            add_new(used, &name);
        }
        i = i + 1;
    }
    assert(all.take(i as int) =~= all);
}

fn find_called_tool(calls: &Vec<ToolCall>, id: &str) -> (r: Option<String>)
    ensures
        text::opt_text(r) == called_tool(history::call_texts(calls@), id@),
{
    let ghost all = history::call_texts(calls@);
    let mut n: usize = calls.len();
    assert(all.take(n as int) =~= all);
    while n > 0
        invariant
            n <= calls.len(),
            all == history::call_texts(calls@),
            called_tool(all, id@) == called_tool(all.take(n as int), id@),
        decreases n,
    {
        assert(all.take(n as int).drop_last() =~= all.take(n - 1));
        assert(all.take(n as int).last() == calls@[n - 1]@);
        let cid = opt_str(&calls[n - 1].id);
        let name = opt_str(&calls[n - 1].name);
        if !cid.as_str().is_empty() && !name.as_str().is_empty() && text::same(&cid, id) {
            return Some(name);
        }
        n = n - 1;
    }
    None
}

/// The tool that the call with an id asked for, among the messages `h[from..]`.
fn find_tool_of(h: &Vec<Message>, from: usize, id: &str) -> (r: Option<String>)
    requires
        from <= h.len(),
    ensures
        text::opt_text(r) == tool_of(
            history::messages(h@).skip(from as int).reverse(),
            id@,
        ),
{
    let ghost all = history::messages(h@).skip(from as int).reverse();
    let mut i: usize = from;
    assert(all.take(all.len() as int) =~= all);
    while i < h.len()
        invariant
            from <= i <= h.len(),
            all == history::messages(h@).skip(from as int).reverse(),
            tool_of(all, id@) == tool_of(all.take(h.len() - i), id@),
        decreases h.len() - i,
    {
        let ghost t = all.take(h.len() - i);
        assert(t.drop_last() =~= all.take(h.len() - i - 1));
        assert(t.last() == h@[i as int]@);
        if h[i].has_role("assistant") {
            match &h[i].calls {
                Calls::List(v) => {
                    match find_called_tool(v, id) {
                        Some(name) => {
                            return Some(name);
                        },
                        None => {},
                    }
                },
                _ => {},
            }
        }
        i = i + 1;
    }
    None
}

fn reports_error(s: &str) -> (r: bool)
    ensures
        r == looks_like_error(s@),
{
    text::contains(s, "Error") || text::contains(s, "failed") || text::contains(s, "not found")
        || text::contains(s, "mismatch")
}

fn add_intended(v: &mut Vec<String>, lower: &str)
    ensures
        text::texts(final(v)@) == text::texts(old(v)@) + intended_tools(lower@),
{
    let ghost start = text::texts(v@);
    if text::contains(lower, "patch") || text::contains(lower, "edit") || text::contains(
        lower,
        "fix",
    ) || text::contains(lower, "change") {
        v.push("patch".to_owned());
    }
    assert(text::texts(v@) =~= start + one_if(wants_patch(lower@), "patch"@));
    let ghost s1 = text::texts(v@);
    if text::contains(lower, "write") || text::contains(lower, "create") {
        v.push("write_file".to_owned());
    }
    assert(text::texts(v@) =~= s1 + one_if(wants_write(lower@), "write_file"@));
    let ghost s2 = text::texts(v@);
    if text::contains(lower, "read") || text::contains(lower, "show") || text::contains(
        lower,
        "check",
    ) || text::contains(lower, "look") {
        v.push("read_file".to_owned());
    }
    assert(text::texts(v@) =~= s2 + one_if(wants_read(lower@), "read_file"@));
    let ghost s3 = text::texts(v@);
    if text::contains(lower, "run") || text::contains(lower, "exec") || text::contains(
        lower,
        "build",
    ) || text::contains(lower, "test") || text::contains(lower, "compile") {
        v.push("bash".to_owned());
    }
    assert(text::texts(v@) =~= s3 + one_if(wants_run(lower@), "bash"@));
    assert(text::texts(v@) =~= start + intended_tools(lower@));
}

fn append_texts(v: &mut Vec<String>, w: &Vec<String>)
    ensures
        text::texts(final(v)@) == text::texts(old(v)@) + text::texts(w@),
{
    let ghost start = text::texts(v@);
    let mut i: usize = 0;
    assert(text::texts(v@) =~= start + text::texts(w@).take(0));
    while i < w.len()
        invariant
            i <= w.len(),
            text::texts(v@) == start + text::texts(w@).take(i as int),
        decreases w.len() - i,
    {
        let s = w[i].clone();
        let ghost done = text::texts(w@).take(i as int);
        proof {
            text::lemma_texts_push(v@, s);
            assert(text::texts(w@).take(i + 1) =~= done.push(s@));
            assert((start + done).push(s@) =~= start + done.push(s@));
        }
        v.push(s);
        i = i + 1;
    }
    assert(text::texts(w@).take(i as int) =~= text::texts(w@));
}

fn pick_cards(names: &Vec<String>) -> (r: Vec<String>)
    ensures
        text::texts(r@) == picked(text::texts(names@)),
{
    let ghost all = text::texts(names@);
    let mut r: Vec<String> = Vec::new();
    let mut i: usize = 0;
    assert(text::texts(r@) =~= picked(all.take(0)));
    while i < names.len()
        invariant
            i <= names.len(),
            all == text::texts(names@),
            text::texts(r@) == picked(all.take(i as int)),
        decreases names.len() - i,
    {
        assert(all.take(i + 1).drop_last() =~= all.take(i as int));
        assert(all.take(i + 1).last() == names@[i as int]@);
        if r.len() < 3 && !has_text(&r, &names[i]) && !tool_skill_card(&names[i]).is_empty() {
            let n = names[i].clone();
            proof {
                text::lemma_texts_push(r@, n);
            }
            r.push(n);
        }
        i = i + 1;
    }
    assert(all.take(i as int) =~= all);
    r
}

/// Guidance on up to three tools, chosen from the recent conversation; empty
/// when no card applies.
pub fn select_tool_skill_cards(h: &Vec<Message>) -> (r: String)
    ensures
        r@ == guidance(history::messages(h@)),
{
    let ghost all = history::messages(h@);
    let from: usize = if h.len() <= 16 {
        0
    } else {
        h.len() - 16
    };
    let ghost rec = recent(all);
    assert(rec =~= all.skip(from as int).reverse());
    let mut used: Vec<String> = Vec::new();
    let mut failed: Vec<String> = Vec::new();
    let mut request: String = String::new();
    let mut blank: bool = true;
    let mut n: usize = h.len();
    assert(text::texts(used@) =~= used_tools(rec.take(0)));
    assert(text::texts(failed@) =~= error_tools(rec.take(0), rec));
    assert(request@ =~= user_request(rec.take(0)));
    while n > from
        invariant
            from <= n <= h.len(),
            all == history::messages(h@),
            rec == all.skip(from as int).reverse(),
            text::texts(used@) == used_tools(rec.take(h.len() - n)),
            text::texts(failed@) == error_tools(rec.take(h.len() - n), rec),
            request@ == user_request(rec.take(h.len() - n)),
            blank == (request@.len() == 0),
        decreases n,
    {
        let ghost t = rec.take(h.len() - n + 1);
        assert(t.drop_last() =~= rec.take(h.len() - n));
        assert(t.last() == h@[n - 1]@);
        let m = &h[n - 1];
        if m.has_role("assistant") {
            match &m.calls {
                Calls::List(v) => {
                    add_call_tools(&mut used, v);
                },
                _ => {},
            }
        }
        if m.has_role("tool") {
            let bad = match m.text() {
                Some(s) => reports_error(s),
                None => reports_error(""),
            };
            proof {
                if m@.text() is None {
                    reveal_strlit("");
                    assert(""@ =~= Seq::<char>::empty());
                }
            }
            if bad {
                match &m.tool_call_id {
                    Some(id) => {
                        match find_tool_of(h, from, id) {
                            Some(name) => {
                                add_new(&mut failed, &name);
                            },
                            None => {},
                        }
                    },
                    None => {},
                }
            }
        }
        if m.has_role("user") && blank {
            match m.text() {
                Some(s) => {
                    if !text::starts_with(s, "[SYSTEM]") {
                        request = s.clone();
                        blank = s.as_str().is_empty();
                    }
                },
                None => {},
            }
        }
        n = n - 1;
    }
    assert(rec.take(h.len() - n) =~= rec);
    let lower = text::to_ascii_lowercase(&request);
    append_texts(&mut failed, &used);
    add_intended(&mut failed, &lower);
    let names = pick_cards(&failed);
    if names.len() == 0 {
        return String::new();
    }
    let ghost wanted = text::texts(names@);
    let mut out: String = "\n\n## Tool guidance\n".to_owned();
    let mut i: usize = 0;
    assert(wanted.skip(0) =~= wanted);
    while i < names.len()
        invariant_except_break
            with_cards(out@, wanted.skip(i as int)) == with_cards(
                "\n\n## Tool guidance\n"@,
                wanted,
            ),
        invariant
            i <= names.len(),
            wanted == text::texts(names@),
        ensures
            out@ == with_cards("\n\n## Tool guidance\n"@, wanted),
        decreases names.len() - i,
    {
        assert(wanted.skip(i as int)[0] == names@[i as int]@);
        assert(wanted.skip(i as int).drop_first() =~= wanted.skip(i + 1));
        let c = tool_skill_card(&names[i]);
        let size: u128 = text::byte_len(&out) as u128 + text::byte_len(c) as u128;
        if size > 1200 {
            break;
        }
        out.push_str(c);
        i = i + 1;
    }
    out
}

proof fn lemma_picked(names: Seq<Seq<char>>)
    ensures
        picked(names).len() <= 3,
        picked(names).no_duplicates(),
        forall|i: int|
            0 <= i < picked(names).len() ==> card(#[trigger] picked(names)[i]).len() > 0,
    decreases names.len(),
{
    if names.len() > 0 {
        lemma_picked(names.drop_last());
    }
}

proof fn lemma_with_cards(out: Seq<char>, names: Seq<Seq<char>>)
    requires
        text::utf8_len(out) <= 1200,
    ensures
        text::utf8_len(with_cards(out, names)) <= 1200,
        out.is_prefix_of(with_cards(out, names)),
    decreases names.len(),
{
    if !(names.len() == 0 || text::utf8_len(out) + text::utf8_len(card(names[0])) > 1200) {
        text::lemma_utf8_len_add(out, card(names[0]));
        lemma_with_cards(out + card(names[0]), names.drop_first());
        assert(out.is_prefix_of(out + card(names[0])));
        let whole = with_cards(out, names);
        assert(whole.subrange(0, out.len() as int) =~= whole.subrange(
            0,
            (out + card(names[0])).len() as int,
        ).subrange(0, out.len() as int));
    }
}

/// Guidance never covers more than three tools, covers none twice, covers only
/// tools that have a card, and never takes more than 1200 bytes.
pub proof fn law_guidance_is_bounded(h: Seq<history::MessageText>)
    ensures
        guided_tools(h).len() <= 3,
        guided_tools(h).no_duplicates(),
        text::utf8_len(guidance(h)) <= 1200,
{
    let r = recent(h);
    lemma_picked(
        error_tools(r, r) + used_tools(r) + intended_tools(text::ascii_lower(user_request(r))),
    );
    reveal_strlit("\n\n## Tool guidance\n");
    text::lemma_utf8_len_bounds("\n\n## Tool guidance\n"@);
    lemma_with_cards("\n\n## Tool guidance\n"@, guided_tools(h));
}

proof fn lemma_first_lines(s: Seq<char>, n: int) -> (k: int)
    requires
        n >= 1,
    ensures
        0 <= k <= s.len(),
        first_lines(s, n) == s.take(k),
        edit::line_feeds(s.take(k)) <= n - 1,
        k < s.len() ==> s[k] == '\n' && edit::line_feeds(s.take(k)) == n - 1,
    decreases s.len(),
{
    if s.len() == 0 {
        assert(s.take(0) =~= s);
        0
    } else if s[0] == '\n' && n <= 1 {
        assert(s.take(0) =~= Seq::<char>::empty());
        0
    } else {
        let m = if s[0] == '\n' {
            n - 1
        } else {
            n
        };
        let rest = s.drop_first();
        let j = lemma_first_lines(rest, m);
        let one = seq![s[0]];
        assert(s.take(j + 1) =~= one + rest.take(j));
        edit::lemma_line_feeds_add(one, rest.take(j));
        assert(one.drop_last() =~= Seq::<char>::empty());
        reveal_with_fuel(edit::line_feeds, 2);
        assert(edit::line_feeds(one) == if s[0] == '\n' {
            1nat
        } else {
            0nat
        });
        j + 1
    }
}

/// A tool result that fits the room there is enters the conversation as it is:
/// sixteen thousand bytes of it while there is much room, eight thousand while
/// there is some, four thousand otherwise. Of a longer one its beginning does,
/// with a note behind it that says how long it was. The beginning ends before
/// the thirtieth line feed, or where the next character would not fit any more.
pub proof fn law_results_are_kept(s: Seq<char>, p: Pressure)
    ensures
        ({
            let room: nat = match p {
                Pressure::Low => 16_000,
                Pressure::Medium => 8_000,
                Pressure::High => 4_000,
            };
            let r = capped(s, p);
            let note = "\n\n[Output truncated — "@ + text::decimal(text::utf8_len(s))
                + " chars total. Use bash+grep or read_file with offset/limit to target a specific range. Do not re-read the full result.]"@;
            &&& text::utf8_len(s) <= room ==> r == s
            &&& text::utf8_len(s) > room ==> exists|k: int|
                {
                    &&& 0 <= k < s.len()
                    &&& r == #[trigger] s.take(k) + note
                    &&& text::utf8_len(s.take(k)) <= room
                    &&& text::split(s.take(k), '\n').len() <= 30
                    &&& (s[k] == '\n' && text::split(s.take(k), '\n').len() == 30) || text::utf8_len(
                        s.take(k + 1),
                    ) > room
                }
        }),
{
    let room = result_cap(p);
    let note = "\n\n[Output truncated — "@ + text::decimal(text::utf8_len(s)) + TRUNCATED_TAIL@;
    if text::utf8_len(s) > room {
        let j = lemma_first_lines(s, 30);
        text::law_clip(s, room);
        let c = text::clip(s, room).len() as int;
        assert(text::clip(s, room) =~= s.take(c));
        let k = if text::utf8_len(s.take(j)) > room {
            c
        } else {
            j
        };
        assert(s.take(s.len() as int) =~= s);
        assert(k < s.len());
        assert(capped(s, p) =~= s.take(k) + note);
        if c < j {
            assert(s.take(j) =~= s.take(c) + s.subrange(c, j));
            edit::lemma_line_feeds_add(s.take(c), s.subrange(c, j));
        } else if j < c {
            text::lemma_utf8_len_take(s, j, c);
        }
        edit::law_line_count(s.take(k));
    }
}

/// A short text is shown whole, a longer one up to a mark behind its first part.
pub proof fn law_shortened(s: Seq<char>, n: int)
    requires
        0 <= n,
    ensures
        text::utf8_len(s) <= n ==> shortened(s, n) == s,
        text::utf8_len(s) > n ==> shortened(s, n).last() == '…' && shortened(
            s,
            n,
        ).drop_last().is_prefix_of(s) && text::utf8_len(shortened(s, n).drop_last()) <= n,
{
    text::law_clip(s, n);
    reveal_strlit("…");
    assert("…"@.len() == 1 && "…"@[0] == '…');
    let c = text::clip(s, n);
    assert((c + "…"@).drop_last() =~= c);
}

/// The last messages are looked at, the latest first.
pub proof fn law_recent(h: Seq<history::MessageText>, i: int)
    ensures
        h.len() <= 16 ==> recent(h).len() == h.len(),
        h.len() > 16 ==> recent(h).len() == 16,
        0 <= i < recent(h).len() ==> recent(h)[i] == h[h.len() - 1 - i],
{
}

proof fn lemma_call_tools(used: Seq<Seq<char>>, calls: Seq<history::CallText>, x: Seq<char>)
    ensures
        used.contains(x) ==> call_tools(used, calls).contains(x),
        (exists|i: int|
            0 <= i < calls.len() && identified(#[trigger] calls[i]) && or_empty(calls[i].name) == x)
            ==> call_tools(used, calls).contains(x),
    decreases calls.len(),
{
    if calls.len() > 0 {
        let d = calls.drop_last();
        lemma_call_tools(used, d, x);
        let before = call_tools(used, d);
        let r = call_tools(used, calls);
        let n = or_empty(calls.last().name);
        if before.contains(x) {
            lemma_with_new(before, n, x);
        }
        if exists|i: int|
            0 <= i < calls.len() && identified(#[trigger] calls[i]) && or_empty(calls[i].name) == x {
            let i = choose|i: int|
                0 <= i < calls.len() && identified(#[trigger] calls[i]) && or_empty(calls[i].name)
                    == x;
            if i < d.len() {
                assert(d[i] == calls[i]);
                assert(before.contains(x));
            } else {
                assert(calls[i] == calls.last());
                lemma_with_new(before, n, x);
            }
        }
    }
}

proof fn lemma_with_new(v: Seq<Seq<char>>, n: Seq<char>, x: Seq<char>)
    requires
        v.contains(x) || x == n,
    ensures
        with_new(v, n).contains(x),
{
    if !v.contains(n) {
        let w = v.push(n);
        if v.contains(x) {
            let k = choose|k: int| 0 <= k < v.len() && v[k] == x;
            assert(w[k] == x);
        } else {
            assert(w[v.len() as int] == x);
        }
    }
}

/// Each tool that was called lately is among those used.
pub proof fn law_used_tools(r: Seq<history::MessageText>, i: int, j: int)
    requires
        0 <= i < r.len(),
        r[i].has_role("assistant"@),
        0 <= j < r[i].call_list().len(),
        identified(r[i].call_list()[j]),
    ensures
        used_tools(r).contains(or_empty(r[i].call_list()[j].name)),
    decreases r.len(),
{
    let x = or_empty(r[i].call_list()[j].name);
    let d = r.drop_last();
    if i < d.len() {
        assert(d[i] == r[i]);
        law_used_tools(d, i, j);
    } else {
        assert(r[i] == r.last());
    }
    if r.last().has_role("assistant"@) {
        lemma_call_tools(used_tools(d), r.last().call_list(), x);
        if i == d.len() {
            let c = r.last().call_list();
            assert(identified(c[j]) && or_empty(c[j].name) == x);
        }
    }
}

/// Each tool whose answer looks like an error is among those that failed.
pub proof fn law_error_tools(
    r: Seq<history::MessageText>,
    all: Seq<history::MessageText>,
    i: int,
    name: Seq<char>,
)
    requires
        0 <= i < r.len(),
        failed_tool(r[i], all) == Some(name),
    ensures
        error_tools(r, all).contains(name),
    decreases r.len(),
{
    let d = r.drop_last();
    if i < d.len() {
        assert(d[i] == r[i]);
        law_error_tools(d, all, i, name);
        match failed_tool(r.last(), all) {
            Some(n) => lemma_with_new(error_tools(d, all), n, name),
            None => {},
        }
    } else {
        assert(r[i] == r.last());
        lemma_with_new(error_tools(d, all), name, name);
    }
}

/// An answer that speaks of an error belongs to the tool that was called under
/// its identifier.
pub proof fn law_failures_are_told_apart(
    m: history::MessageText,
    all: Seq<history::MessageText>,
    id: Seq<char>,
    s: Seq<char>,
)
    ensures
        m.has_role("tool"@) && m.text() == Some(s) && m.tool_call_id == Some(id) && (text::has(
            s,
            "Error"@,
        ) || text::has(s, "failed"@) || text::has(s, "not found"@) || text::has(s, "mismatch"@))
            ==> failed_tool(m, all) == tool_of(all, id),
        !m.has_role("tool"@) ==> failed_tool(m, all) is None,
        m.tool_call_id is None ==> failed_tool(m, all) is None,
        m.text() == Some(s) && !text::has(s, "Error"@) && !text::has(s, "failed"@) && !text::has(
            s,
            "not found"@,
        ) && !text::has(s, "mismatch"@) ==> failed_tool(m, all) is None,
{
}

/// Which tool was called under an identifier.
pub proof fn law_called_tools(calls: Seq<history::CallText>, c: history::CallText, id: Seq<char>)
    ensures
        called_tool(Seq::empty(), id) is None,
        identified(c) && c.id == Some(id) ==> called_tool(calls.push(c), id) == c.name,
        c.id != Some(id) && id.len() > 0 ==> called_tool(calls.push(c), id) == called_tool(calls, id),
        identified(c) ==> c.id is Some && c.name is Some,
{
    assert(calls.push(c).drop_last() =~= calls);
}

/// The words of a request say which tools it wants.
pub proof fn law_intended_tools(s: Seq<char>)
    ensures
        text::has(s, "fix"@) || text::has(s, "edit"@) || text::has(s, "patch"@) || text::has(
            s,
            "change"@,
        ) <==> intended_tools(s).contains("patch"@),
        text::has(s, "write"@) || text::has(s, "create"@) <==> intended_tools(s).contains(
            "write_file"@,
        ),
        text::has(s, "read"@) || text::has(s, "show"@) || text::has(s, "check"@) || text::has(
            s,
            "look"@,
        ) <==> intended_tools(s).contains("read_file"@),
        text::has(s, "run"@) || text::has(s, "exec"@) || text::has(s, "build"@) || text::has(
            s,
            "test"@,
        ) || text::has(s, "compile"@) <==> intended_tools(s).contains("bash"@),
        intended_tools(s).len() <= 4,
{
    reveal_strlit("patch");
    reveal_strlit("write_file");
    reveal_strlit("read_file");
    reveal_strlit("bash");
    assert("patch"@.len() == 5 && "write_file"@.len() == 10 && "read_file"@.len() == 9 && "bash"@.len() == 4);
    let a = one_if(wants_patch(s), "patch"@);
    let b = one_if(wants_write(s), "write_file"@);
    let c = one_if(wants_read(s), "read_file"@);
    let d = one_if(wants_run(s), "bash"@);
    let v = intended_tools(s);
    if wants_patch(s) {
        assert(v[0] == "patch"@);
    }
    if wants_write(s) {
        assert(v[a.len() as int] == "write_file"@);
    }
    if wants_read(s) {
        assert(v[(a + b).len() as int] == "read_file"@);
    }
    if wants_run(s) {
        assert(v[(a + b + c).len() as int] == "bash"@);
    }
}

/// The request is the latest thing that the user said themselves.
pub proof fn law_user_request(r: Seq<history::MessageText>, m: history::MessageText, s: Seq<char>)
    ensures
        user_request(Seq::empty()).len() == 0,
        user_request(r).len() > 0 ==> user_request(r.push(m)) == user_request(r),
        user_request(r).len() == 0 && m.has_role("user"@) && m.text() == Some(s) && !text::starts(
            s,
            "[SYSTEM]"@,
        ) ==> user_request(r.push(m)) == s,
        !m.has_role("user"@) ==> user_request(r.push(m)) == user_request(r),
        m.text() == Some(s) && text::starts(s, "[SYSTEM]"@) ==> user_request(r.push(m))
            == user_request(r),
{
    assert(r.push(m).drop_last() =~= r);
}

/// Of the tools the first three that have a card, and each of them once, are
/// explained: those that failed before those that were used, and these before
/// those that are wanted.
pub proof fn law_picked(names: Seq<Seq<char>>, x: Seq<char>)
    ensures
        picked(Seq::empty()).len() == 0,
        picked(names).len() < 3 && !picked(names).contains(x) && card(x).len() > 0 ==> picked(
            names.push(x),
        ) == picked(names).push(x),
        picked(names).len() >= 3 || picked(names).contains(x) || card(x).len() == 0 ==> picked(
            names.push(x),
        ) == picked(names),
{
    assert(names.push(x).drop_last() =~= names);
}

/// The card of a tool is shown where it fits.
pub proof fn law_cards(out: Seq<char>, x: Seq<char>, rest: Seq<Seq<char>>)
    ensures
        text::utf8_len(out) + text::utf8_len(card(x)) <= 1200 ==> with_cards(out, seq![x] + rest)
            == with_cards(out + card(x), rest),
        text::utf8_len(out) + text::utf8_len(card(x)) > 1200 ==> with_cards(out, seq![x] + rest)
            == out,
        with_cards(out, Seq::empty()) == out,
        x != "patch"@ && x != "read_and_patch"@ && x != "write_file"@ && x != "bash"@ && x
            != "read_file"@ ==> card(x).len() == 0,
{
    let v = seq![x] + rest;
    assert(v[0] == x);
    assert(v.drop_first() =~= rest);
    reveal_strlit("");
}

/// Each tool has its own hint, and the other tools share one.
pub proof fn law_hints(name: Seq<char>)
    ensures
        tool_hint("patch"@) == HINT_PATCH@,
        tool_hint("bash"@) == HINT_BASH@,
        tool_hint("write_file"@) == HINT_WRITE@,
        tool_hint("read_file"@) == HINT_READ@,
        name != "patch"@ && name != "bash"@ && name != "write_file"@ && name != "read_file"@
            ==> tool_hint(name) == HINT_OTHER@,
        card("patch"@) == CARD_PATCH@,
        card("read_and_patch"@) == CARD_READ_AND_PATCH@,
        card("write_file"@) == CARD_WRITE@,
        card("bash"@) == CARD_BASH@,
        card("read_file"@) == CARD_READ@,
{
    reveal_strlit("patch");
    reveal_strlit("bash");
    reveal_strlit("write_file");
    reveal_strlit("read_file");
    reveal_strlit("read_and_patch");
    assert("patch"@.len() == 5 && "bash"@.len() == 4 && "write_file"@.len() == 10 && "read_file"@.len() == 9 && "read_and_patch"@.len() == 14);
}

} // verus!
