//! The system prompts: what they are made of, and when which one is used.

use vstd::prelude::*;

use crate::agent::history::Message;
use crate::agent::history;
use crate::agent::mcp::MemoryItem;
use crate::agent::mcp;
use crate::agent::tools;
use crate::agent::turn;
use crate::code_graph::SymbolHit;
use crate::code_graph;
use crate::text;

verus! {

// ---------------------------------------------------------------------------
// Sections
// ---------------------------------------------------------------------------

/// `out` and as many entries, in order, as keep it within `max` bytes.
pub open spec fn within(out: Seq<char>, entries: Seq<Seq<char>>, max: int) -> Seq<char>
    decreases entries.len(),
{
    if entries.len() == 0 || text::utf8_len(out) + text::utf8_len(entries[0]) > max {
        out
    } else {
        within(out + entries[0], entries.drop_first(), max)
    }
}

pub open spec fn memory_entries(v: Seq<mcp::MemoryText>) -> Seq<Seq<char>> {
    v.map_values(|m: mcp::MemoryText| mcp::memory_line(m) + "\n"@)
}

/// The memory that is put into the prompt.
pub open spec fn memory_section(
    h: Seq<history::MessageText>,
    items: Seq<mcp::MemoryText>,
) -> Seq<char> {
    if turn::latest_text(h, "user"@) is None || items.len() == 0 {
        Seq::empty()
    } else {
        within("\n\nRelevant project memory:\n"@, memory_entries(items), 3200)
    }
}

/// The memory that is put into the prompt: `items` are those that concern the
/// latest request, in order.
pub fn get_memory_context(h: &Vec<Message>, items: &Vec<MemoryItem>) -> (r: String)
    ensures
        r@ == memory_section(history::messages(h@), mcp::memory_texts(items@)),
{
    if turn::latest_text_of(h, "user").is_none() || items.len() == 0 {
        let e = String::new();
        assert(e@ =~= Seq::<char>::empty());
        return e;
    }
    let ghost entries = memory_entries(mcp::memory_texts(items@));
    let mut out: String = "\n\nRelevant project memory:\n".to_owned();
    let mut i: usize = 0;
    assert(entries.skip(0) =~= entries);
    while i < items.len()
        invariant_except_break
            within(out@, entries.skip(i as int), 3200) == within(
                "\n\nRelevant project memory:\n"@,
                entries,
                3200,
            ),
        invariant
            i <= items.len(),
            entries == memory_entries(mcp::memory_texts(items@)),
        ensures
            out@ == within("\n\nRelevant project memory:\n"@, entries, 3200),
        decreases items.len() - i,
    {
        let mut entry = mcp::format_memory(&items[i]);
        entry.push_str("\n");
        assert(entries.skip(i as int)[0] == entry@);
        assert(entries.skip(i as int).drop_first() =~= entries.skip(i + 1));
        let size: u128 = text::byte_len(&out) as u128 + text::byte_len(&entry) as u128;
        if size > 3200 {
            break;
        }
        out.push_str(&entry);
        i = i + 1;
    }
    out
}

/// The memory section never takes more than its 3200 bytes.
pub proof fn law_memory_is_bounded(h: Seq<history::MessageText>, items: Seq<mcp::MemoryText>)
    ensures
        text::utf8_len(memory_section(h, items)) <= 3200,
{
    reveal_strlit("\n\nRelevant project memory:\n");
    text::lemma_utf8_len_bounds("\n\nRelevant project memory:\n"@);
    lemma_within("\n\nRelevant project memory:\n"@, memory_entries(items), 3200);
}

proof fn lemma_within(out: Seq<char>, entries: Seq<Seq<char>>, max: int)
    requires
        text::utf8_len(out) <= max,
    ensures
        text::utf8_len(within(out, entries, max)) <= max,
    decreases entries.len(),
{
    if !(entries.len() == 0 || text::utf8_len(out) + text::utf8_len(entries[0]) > max) {
        text::lemma_utf8_len_add(out, entries[0]);
        lemma_within(out + entries[0], entries.drop_first(), max);
    }
}

/// A section held to `max` bytes, with a note when something was cut.
pub open spec fn held_to(s: Seq<char>, max: int, note: Seq<char>) -> Seq<char> {
    if text::utf8_len(s) > max {
        text::clip(s, max) + note
    } else {
        s
    }
}

fn hold_to(s: &str, max: usize, note: &str) -> (r: String)
    ensures
        r@ == held_to(s@, max as int, note@),
{
    if text::byte_len(s) > max {
        let mut t = text::clip_bytes(s, max);
        t.push_str(note);
        t
    } else {
        s.to_owned()
    }
}

/// The skills that are put into the prompt: those that the latest request calls
/// for, already written out in `formatted`.
pub fn get_skill_context(h: &Vec<Message>, formatted: &str) -> (r: String)
    ensures
        r@ == (if turn::latest_text(history::messages(h@), "user"@) is None {
            Seq::empty()
        } else {
            held_to(formatted@, 4000, "\n... (skills truncated to fit context)"@)
        }),
{
    if turn::latest_text_of(h, "user").is_none() {
        let e = String::new();
        assert(e@ =~= Seq::<char>::empty());
        return e;
    }
    hold_to(formatted, 4000, "\n... (skills truncated to fit context)")
}

/// What plugins put into the prompt.
pub fn get_plugin_prompts(injection: &str) -> (r: String)
    ensures
        r@ == (if injection@.len() == 0 {
            Seq::empty()
        } else {
            "\n\n"@ + held_to(injection@, 2000, "\n... (plugin prompts truncated)"@)
        }),
{
    if injection.is_empty() {
        let e = String::new();
        assert(e@ =~= Seq::<char>::empty());
        return e;
    }
    let mut s: String = "\n\n".to_owned();
    s.push_str(&hold_to(injection, 2000, "\n... (plugin prompts truncated)"));
    s
}

pub open spec fn hit_lines(h: code_graph::HitText) -> Seq<char> {
    "- "@ + h.name + " ("@ + h.kind + " at "@ + h.file + ":"@ + text::decimal(h.line as nat)
        + ")\n"@ + (match h.signature {
        Some(s) => "    "@ + s + "\n"@,
        None => Seq::empty(),
    })
}

/// The hits, one after another.
pub open spec fn hits_text(v: Seq<code_graph::HitText>) -> Seq<char>
    decreases v.len(),
{
    if v.len() == 0 {
        Seq::empty()
    } else {
        hits_text(v.drop_last()) + hit_lines(v.last())
    }
}

pub open spec fn first_five(v: Seq<code_graph::HitText>) -> Seq<code_graph::HitText> {
    if v.len() <= 5 {
        v
    } else {
        v.take(5)
    }
}

/// The code that a long request seems to be about.
pub open spec fn code_section(
    enabled: bool,
    h: Seq<history::MessageText>,
    hits: Seq<code_graph::HitText>,
) -> Seq<char> {
    match turn::latest_text(h, "user"@) {
        Some(s) => if enabled && text::utf8_len(s) > 200 && hits.len() > 0 {
            "\n\nRelevant code from the project:\n"@ + hits_text(first_five(hits))
        } else {
            Seq::empty()
        },
        None => Seq::empty(),
    }
}

/// Whether the code graph is to be asked about the latest request: only when
/// that is longer than two hundred bytes.
pub fn wants_code(enabled: bool, h: &Vec<Message>) -> (r: Option<String>)
    ensures
        text::opt_text(r) == (match turn::latest_text(history::messages(h@), "user"@) {
            Some(s) => if enabled && text::utf8_len(s) > 200 {
                Some(s)
            } else {
                None
            },
            None => None,
        }),
{
    match turn::latest_text_of(h, "user") {
        Some(s) => {
            if enabled && text::byte_len(&s) > 200 {
                Some(s)
            } else {
                None
            }
        },
        None => None,
    }
}

fn push_hit(out: &mut String, h: &SymbolHit)
    ensures
        final(out)@ == old(out)@ + hit_lines(h@),
{
    let ghost start = out@;
    let mut s: String = "- ".to_owned();
    s.push_str(&h.name);
    s.push_str(" (");
    s.push_str(&h.kind);
    s.push_str(" at ");
    s.push_str(&h.file);
    s.push_str(":");
    s.push_str(&text::number(h.line as u64));
    s.push_str(")\n");
    match &h.signature {
        Some(sig) => {
            let mut t: String = "    ".to_owned();
            t.push_str(sig);
            t.push_str("\n");
            s.push_str(&t);
        },
        None => {
            assert(s@ + Seq::<char>::empty() =~= s@);
        },
    }
    out.push_str(&s);
}

fn code_context(enabled: bool, h: &Vec<Message>, hits: &Vec<SymbolHit>) -> (r: String)
    ensures
        r@ == code_section(enabled, history::messages(h@), code_graph::hit_texts(hits@)),
{
    assert(code_graph::hit_texts(hits@).len() == hits@.len());
    if wants_code(enabled, h).is_none() || hits.len() == 0 {
        let e = String::new();
        assert(e@ =~= Seq::<char>::empty());
        return e;
    }
    let ghost all = code_graph::hit_texts(hits@);
    let n: usize = if hits.len() <= 5 {
        hits.len()
    } else {
        5
    };
    let ghost five = first_five(all);
    assert(five =~= all.take(n as int));
    let mut out: String = "\n\nRelevant code from the project:\n".to_owned();
    let ghost start = out@;
    let mut i: usize = 0;
    assert(start + hits_text(five.take(0)) =~= start);
    while i < n
        invariant
            i <= n <= hits.len(),
            all == code_graph::hit_texts(hits@),
            five == all.take(n as int),
            out@ == start + hits_text(five.take(i as int)),
        decreases n - i,
    {
        proof {
            assert(five.take(i + 1).drop_last() =~= five.take(i as int));
            assert(five.take(i + 1).last() == hits@[i as int]@);
            assert(start + (hits_text(five.take(i as int)) + hit_lines(hits@[i as int]@)) =~= start
                + hits_text(five.take(i as int)) + hit_lines(hits@[i as int]@));
        }
        push_hit(&mut out, &hits[i]);
        i = i + 1;
    }
    assert(five.take(i as int) =~= five);
    out
}

// ---------------------------------------------------------------------------
// The whole prompt
// ---------------------------------------------------------------------------

/// Which prompt a turn gets.
#[derive(Debug, Clone, Copy, PartialEq, Eq, Structural)]
pub enum PromptKind {
    /// Work goes on under a contract.
    Contract,
    /// A contract is to be proposed.
    Proposal,
    /// The prompt with everything in it.
    General,
}

/// Which prompt a turn gets: when contracts are in use, everything but talk is
/// about the contract.
pub fn prompt_kind(contract_on: bool, task_type: &str, has_contract: bool) -> (r: PromptKind)
    ensures
        r == (if contract_on && !turn::is_talk(task_type@) {
            if has_contract {
                PromptKind::Contract
            } else {
                PromptKind::Proposal
            }
        } else {
            PromptKind::General
        }),
{
    if contract_on && !turn::talks(task_type) {
        if has_contract {
            PromptKind::Contract
        } else {
            PromptKind::Proposal
        }
    } else {
        PromptKind::General
    }
}

/// The general prompt: the static part, what is known of the subject, the code
/// that a long request seems to be about, how to run the tests, and guidance on
/// tools, which stands closest to the conversation.
pub open spec fn general_prompt(
    base: Seq<char>,
    knowledge: Seq<char>,
    code: Seq<char>,
    tests: Seq<char>,
    cards: Seq<char>,
) -> Seq<char> {
    base + knowledge + code + tests + cards
}

pub fn build_full_system_prompt(
    base: &str,
    knowledge: &str,
    retrieval: bool,
    hits: &Vec<SymbolHit>,
    tests: &str,
    h: &Vec<Message>,
) -> (r: String)
    ensures
        r@ == general_prompt(
            base@,
            knowledge@,
            code_section(retrieval, history::messages(h@), code_graph::hit_texts(hits@)),
            tests@,
            tools::guidance(history::messages(h@)),
        ),
{
    let mut p: String = base.to_owned();
    p.push_str(knowledge);
    p.push_str(&code_context(retrieval, h, hits));
    p.push_str(tests);
    p.push_str(&tools::select_tool_skill_cards(h));
    p
}

/// How the project verifies itself, as a paragraph of a prompt.
pub fn contract_verification_guidance(block: &Option<String>) -> (r: String)
    ensures
        r@ == (match text::opt_text(*block) {
            Some(s) => "\n"@ + s + "\n"@,
            None => Seq::empty(),
        }),
{
    match block {
        Some(s) => {
            let mut r: String = "\n".to_owned();
            r.push_str(s);
            r.push_str("\n");
            r
        },
        None => {
            let e = String::new();
            assert(e@ =~= Seq::<char>::empty());
            e
        },
    }
}

pub open spec fn model_line(model: Seq<char>) -> Seq<char> {
    if model.len() == 0 {
        Seq::empty()
    } else {
        "\nModel: "@ + model
    }
}

fn model_line_of(model: &str) -> (r: String)
    ensures
        r@ == model_line(model@),
{
    if model.is_empty() {
        let e = String::new();
        assert(e@ =~= Seq::<char>::empty());
        e
    } else {
        let mut s: String = "\nModel: ".to_owned();
        s.push_str(model);
        s
    }
}

pub const PROPOSAL_HEAD: &'static str =
    "\n\
    \n\
    YOUR FIRST ACTION MUST BE `propose_contract`. No exceptions, no exploration first.\n\
    \n\
    A contract is the definition of done for the user's task. It is 2–6 short, testable assertions \
    — each one a single thing you can later prove with a shell command:\n\
    \n\
      GOOD:  \"the file /app/regex.txt exists\"\n\
      GOOD:  \"running `python3 /tmp/check.py` exits 0\"\n\
      GOOD:  \"`pytest /tests/test_outputs.py -q` reports 3 passed\"\n\
      BAD:   \"the code is correct\"          (not testable)\n\
      BAD:   \"the implementation is complete\" (not testable)\n\
      BAD:   \"all tests pass\"              (vague — which tests?)\n";

pub const PROPOSAL_TAIL: &'static str =
    "Until propose_contract returns, NO other tools are available. \
    `write_file`, `patch`, mutating `bash`, etc. will refuse. \
    Read-only tools (read_file, search) are available but you should not need them — \
    you're not exploring, you're stating what 'done' means.\n\
    \n\
    Skip the planning preamble. Skip the analysis. Emit `propose_contract` now with:\n\
    - title:       short human title for the task\n\
    - brief:       1–2 sentences describing the work\n\
    - assertions:  array of {id, text} — pick 2–6\n\
    \n\
    After it returns the toolkit opens up and you can do the work.\n";

/// The prompt that asks for a contract.
pub open spec fn proposal_prompt(
    cwd: Seq<char>,
    model: Seq<char>,
    verification: Seq<char>,
) -> Seq<char> {
    "You are itsy, working in CONTRACT mode. Working directory: "@ + cwd + "."@ + model_line(model)
        + PROPOSAL_HEAD@ + verification + PROPOSAL_TAIL@
}

pub fn build_contract_proposal_prompt(cwd: &str, model: &str, verification: &str) -> (r: String)
    ensures
        r@ == proposal_prompt(cwd@, model@, verification@),
{
    let mut s: String =
        "You are itsy, working in CONTRACT mode. Working directory: ".to_owned();
    s.push_str(cwd);
    s.push_str(".");
    s.push_str(&model_line_of(model));
    s.push_str(PROPOSAL_HEAD);
    s.push_str(verification);
    s.push_str(PROPOSAL_TAIL);
    s
}

pub const WORK_RULES: &'static str =
    "\n\
    How to work:\n\
    - ONE tool call per response. Reason only about the immediate next step — not the full solution.\n\
    - After each tool call, stop. Wait for the result. Then decide the next single action.\n\
    - Focus on the FIRST pending assertion. Ignore the others for now.\n\
    - Look at the most recent tool result. What is the single most direct action to move toward passing it?\n\
    - Do the work for each pending assertion (write_file / patch / bash — all available now).\n\
    - Prefer the repo's own tests / verifier scripts over ad-hoc samples whenever they exist.\n\
    - When you've verified an assertion, call `mark_assertion` with:\n\
        id          the assertion id (A.001, A.002, …)\n\
        state       \"passed\" / \"failed\" / \"skipped\"\n\
        evidence    one-sentence summary of how you verified\n\
        command     (recommended for passed) the shell command you ran\n\
        exit_code   the exit code\n\
        observation the actual output you saw — NOT \"OK\" or \"passed\"\n\
    - When every assertion is `passed`, call `close_contract completed` to finish.\n\
    - `close_contract completed` is refused until every assertion is `passed`.\n\
    - Assertions can only be `passed` or `failed` — there is no skip or abort.\n";

/// The prompt under a contract: `body` is the contract with the state of its
/// assertions.
pub open spec fn contract_prompt(
    cwd: Seq<char>,
    model: Seq<char>,
    body: Seq<char>,
    verification: Seq<char>,
) -> Seq<char> {
    "You are itsy, working under an active contract. Working directory: "@ + cwd + "."@
        + model_line(model) + "\n\n"@ + body + "\n"@ + verification + WORK_RULES@
}

pub fn build_contract_active_prompt(
    cwd: &str,
    model: &str,
    body: &str,
    verification: &str,
) -> (r: String)
    ensures
        r@ == contract_prompt(cwd@, model@, body@, verification@),
{
    let mut s: String =
        "You are itsy, working under an active contract. Working directory: ".to_owned();
    s.push_str(cwd);
    s.push_str(".");
    s.push_str(&model_line_of(model));
    s.push_str("\n\n");
    s.push_str(body);
    s.push_str("\n");
    s.push_str(verification);
    s.push_str(WORK_RULES);
    s
}

/// Entries are taken one by one while they fit; the first is taken where it fits
/// behind what is there.
pub proof fn law_entries_that_fit(out: Seq<char>, e: Seq<char>, rest: Seq<Seq<char>>, max: int)
    ensures
        within(out, Seq::empty(), max) == out,
        text::utf8_len(out) + text::utf8_len(e) <= max ==> within(out, seq![e] + rest, max) == within(
            out + e,
            rest,
            max,
        ),
        text::utf8_len(out) + text::utf8_len(e) > max ==> within(out, seq![e] + rest, max) == out,
{
    let v = seq![e] + rest;
    assert(v[0] == e);
    assert(v.drop_first() =~= rest);
}

proof fn lemma_start_stays(out: Seq<char>, entries: Seq<Seq<char>>, max: int)
    ensures
        out.is_prefix_of(within(out, entries, max)),
    decreases entries.len(),
{
    if entries.len() > 0 && text::utf8_len(out) + text::utf8_len(entries[0]) <= max {
        let next = out + entries[0];
        lemma_start_stays(next, entries.drop_first(), max);
        let r = within(next, entries.drop_first(), max);
        assert(r.subrange(0, out.len() as int) =~= r.subrange(0, next.len() as int).subrange(
            0,
            out.len() as int,
        ));
        assert(next.subrange(0, out.len() as int) =~= out);
    } else {
        assert(out.subrange(0, out.len() as int) =~= out);
    }
}

proof fn lemma_all_fit(out: Seq<char>, entries: Seq<Seq<char>>, max: int, i: int)
    requires
        0 <= i < entries.len(),
        text::utf8_len(out) + total_len(entries) <= max,
    ensures
        text::has(within(out, entries, max), entries[i]),
    decreases entries.len(),
{
    let e = entries[0];
    let rest = entries.drop_first();
    let next = out + e;
    text::lemma_utf8_len_add(out, e);
    assert(within(out, entries, max) == within(next, rest, max));
    if i == 0 {
        lemma_start_stays(next, rest, max);
        let r = within(next, rest, max);
        assert(next.subrange(out.len() as int, next.len() as int) =~= e);
        assert(r.subrange(out.len() as int, next.len() as int) =~= r.subrange(
            0,
            next.len() as int,
        ).subrange(out.len() as int, next.len() as int));
        assert(text::at(r, e, out.len() as int));
    } else {
        assert(rest[i - 1] == entries[i]);
        lemma_all_fit(next, rest, max, i - 1);
    }
}

/// How long some entries are together.
pub open spec fn total_len(entries: Seq<Seq<char>>) -> nat
    decreases entries.len(),
{
    if entries.len() == 0 {
        0
    } else {
        text::utf8_len(entries[0]) + total_len(entries.drop_first())
    }
}

/// Where all memories fit, each is told with its kind, its title and what it
/// says.
pub proof fn law_memories_are_told(h: Seq<history::MessageText>, items: Seq<mcp::MemoryText>, i: int)
    requires
        turn::latest_text(h, "user"@) is Some,
        0 <= i < items.len(),
        total_len(memory_entries(items)) <= 3000,
    ensures
        text::has(
            memory_section(h, items),
            "["@ + items[i].kind + "] "@ + items[i].title + ": "@ + items[i].content + "\n"@,
        ),
{
    let head = "\n\nRelevant project memory:\n"@;
    reveal_strlit("\n\nRelevant project memory:\n");
    text::lemma_utf8_len_bounds(head);
    assert(head.len() == 27);
    lemma_all_fit(head, memory_entries(items), 3200, i);
}

/// Without a question or without memories nothing is told of them.
pub proof fn law_nothing_to_remember(h: Seq<history::MessageText>, items: Seq<mcp::MemoryText>)
    ensures
        items.len() == 0 ==> memory_section(h, items).len() == 0,
        turn::latest_text(h, "user"@) is None ==> memory_section(h, items).len() == 0,
{
}

/// What is too long is held to its first part, with a note that says so.
pub proof fn law_held(s: Seq<char>, max: int, note: Seq<char>)
    requires
        0 <= max,
    ensures
        text::utf8_len(s) <= max ==> held_to(s, max, note) == s,
        text::utf8_len(s) > max ==> text::ends(held_to(s, max, note), note) && held_to(
            s,
            max,
            note,
        ).len() == text::clip(s, max).len() + note.len(),
{
    text::law_affixes(note, text::clip(s, max), Seq::empty());
}

/// Each of the first five places found is told with its name, its kind, its file
/// and its line.
pub proof fn law_code_is_told(h: Seq<history::MessageText>, hits: Seq<code_graph::HitText>, s: Seq<char>, i: int)
    requires
        turn::latest_text(h, "user"@) == Some(s),
    ensures
        text::utf8_len(s) > 200 && 0 <= i < hits.len() && i < 5 ==> text::has(
            code_section(true, h, hits),
            "- "@ + hits[i].name + " ("@ + hits[i].kind + " at "@ + hits[i].file + ":"@
                + text::decimal(hits[i].line as nat) + ")\n"@,
        ),
        text::utf8_len(s) <= 200 ==> code_section(true, h, hits).len() == 0,
        code_section(false, h, hits).len() == 0,
        hits.len() == 0 ==> code_section(true, h, hits).len() == 0,
{
    if text::utf8_len(s) > 200 && 0 <= i < hits.len() && i < 5 {
        let v = first_five(hits);
        assert(v[i] == hits[i]);
        lemma_hit_told(v, i);
        let head = "\n\nRelevant code from the project:\n"@;
        let t = code_section(true, h, hits);
        assert(t =~= head + hits_text(v) + Seq::empty());
        text::lemma_has_within(
            t,
            head,
            hits_text(v),
            Seq::empty(),
            "- "@ + hits[i].name + " ("@ + hits[i].kind + " at "@ + hits[i].file + ":"@
                + text::decimal(hits[i].line as nat) + ")\n"@,
        );
    }
}

proof fn lemma_hit_told(v: Seq<code_graph::HitText>, i: int)
    requires
        0 <= i < v.len(),
    ensures
        text::has(
            hits_text(v),
            "- "@ + v[i].name + " ("@ + v[i].kind + " at "@ + v[i].file + ":"@ + text::decimal(
                v[i].line as nat,
            ) + ")\n"@,
        ),
    decreases v.len(),
{
    let d = v.drop_last();
    let x = "- "@ + v[i].name + " ("@ + v[i].kind + " at "@ + v[i].file + ":"@ + text::decimal(
        v[i].line as nat,
    ) + ")\n"@;
    let t = hits_text(v);
    if i < d.len() {
        assert(d[i] == v[i]);
        lemma_hit_told(d, i);
        assert(t =~= Seq::empty() + hits_text(d) + hit_lines(v.last()));
        text::lemma_has_within(t, Seq::empty(), hits_text(d), hit_lines(v.last()), x);
    } else {
        let tail = match v[i].signature {
            Some(s) => "    "@ + s + "\n"@,
            None => Seq::empty(),
        };
        assert(t =~= hits_text(d) + x + tail);
        text::law_affixes(x, hits_text(d), tail);
    }
}

/// The prompt for a turn starts with the general one and holds each of its
/// sections.
pub proof fn law_prompt_holds_its_parts(
    base: Seq<char>,
    knowledge: Seq<char>,
    code: Seq<char>,
    tests: Seq<char>,
    cards: Seq<char>,
)
    ensures
        text::starts(general_prompt(base, knowledge, code, tests, cards), base),
        text::has(general_prompt(base, knowledge, code, tests, cards), knowledge),
        text::has(general_prompt(base, knowledge, code, tests, cards), code),
        text::has(general_prompt(base, knowledge, code, tests, cards), tests),
        text::ends(general_prompt(base, knowledge, code, tests, cards), cards),
{
    let p = general_prompt(base, knowledge, code, tests, cards);
    assert(p =~= base + (knowledge + code + tests + cards));
    text::law_affixes(base, knowledge + code + tests + cards, Seq::empty());
    assert(p =~= base + knowledge + (code + tests + cards));
    text::law_affixes(knowledge, base, code + tests + cards);
    assert(p =~= (base + knowledge) + code + (tests + cards));
    text::law_affixes(code, base + knowledge, tests + cards);
    assert(p =~= (base + knowledge + code) + tests + cards);
    text::law_affixes(tests, base + knowledge + code, cards);
    text::law_affixes(cards, base + knowledge + code + tests, Seq::empty());
}

/// Work under a contract is asked for with the contract, or with the proposal of
/// one where there is none; talk is not.
pub proof fn law_prompt_kinds(contract_on: bool, task: &str, has_contract: bool, r: PromptKind)
    requires
        call_ensures(prompt_kind, (contract_on, task, has_contract), r),
    ensures
        !contract_on ==> r is General,
        turn::is_talk(task@) ==> r is General,
        contract_on && !turn::is_talk(task@) && has_contract ==> r is Contract,
        contract_on && !turn::is_talk(task@) && !has_contract ==> r is Proposal,
{
}

/// The prompts for contracts name where the work is, the model, the contract and
/// how the work is verified.
pub proof fn law_contract_prompts(cwd: Seq<char>, model: Seq<char>, body: Seq<char>, how: Seq<char>)
    ensures
        text::has(proposal_prompt(cwd, model, how), "Working directory: "@ + cwd + "."@),
        text::has(proposal_prompt(cwd, model, how), how),
        text::has(contract_prompt(cwd, model, body, how), "Working directory: "@ + cwd + "."@),
        text::has(contract_prompt(cwd, model, body, how), body),
        text::has(contract_prompt(cwd, model, body, how), how),
        model.len() > 0 ==> text::has(contract_prompt(cwd, model, body, how), "\nModel: "@ + model),
        model.len() > 0 ==> text::has(proposal_prompt(cwd, model, how), "\nModel: "@ + model),
{
    let w = "Working directory: "@;
    let a = "You are itsy, working in CONTRACT mode. "@;
    let b = "You are itsy, working under an active contract. "@;
    lemma_heads();
    let dir = w + cwd + "."@;
    let m = model_line(model);
    let p = proposal_prompt(cwd, model, how);
    let q = contract_prompt(cwd, model, body, how);
    lemma_three(p, a, dir, m, PROPOSAL_HEAD@ + how + PROPOSAL_TAIL@);
    lemma_three(q, b, dir, m, "\n\n"@ + body + "\n"@ + how + WORK_RULES@);
    assert(p =~= (a + dir + m + PROPOSAL_HEAD@) + how + PROPOSAL_TAIL@);
    text::law_affixes(how, a + dir + m + PROPOSAL_HEAD@, PROPOSAL_TAIL@);
    let h = b + dir + m + "\n\n"@;
    assert(q =~= h + body + ("\n"@ + how + WORK_RULES@));
    text::law_affixes(body, h, "\n"@ + how + WORK_RULES@);
    assert(q =~= (h + body + "\n"@) + how + WORK_RULES@);
    text::law_affixes(how, h + body + "\n"@, WORK_RULES@);
}

proof fn lemma_three(p: Seq<char>, a: Seq<char>, b: Seq<char>, c: Seq<char>, d: Seq<char>)
    requires
        p =~= a + b + c + d,
    ensures
        text::has(p, b),
        text::has(p, c),
{
    assert(p =~= a + b + (c + d));
    text::law_affixes(b, a, c + d);
    assert(p =~= (a + b) + c + d);
    text::law_affixes(c, a + b, d);
}

proof fn lemma_heads()
    ensures
        "You are itsy, working in CONTRACT mode. Working directory: "@
            == "You are itsy, working in CONTRACT mode. "@ + "Working directory: "@,
        "You are itsy, working under an active contract. Working directory: "@
            == "You are itsy, working under an active contract. "@ + "Working directory: "@,
{
    reveal_strlit("Working directory: ");
    reveal_strlit("You are itsy, working in CONTRACT mode. ");
    reveal_strlit("You are itsy, working in CONTRACT mode. Working directory: ");
    reveal_strlit("You are itsy, working under an active contract. ");
    reveal_strlit("You are itsy, working under an active contract. Working directory: ");
    assert("You are itsy, working in CONTRACT mode. Working directory: "@
        =~= "You are itsy, working in CONTRACT mode. "@ + "Working directory: "@);
    assert("You are itsy, working under an active contract. Working directory: "@
        =~= "You are itsy, working under an active contract. "@ + "Working directory: "@);
}

} // verus!
