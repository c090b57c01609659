//! The input line: positions in bytes, edits at the cursor, and the commands
//! that can be typed.

use vstd::prelude::*;

use crate::fullscreen::CommandSpec;
use crate::outside;
use crate::text;

verus! {

// ---------------------------------------------------------------------------
// Positions
// ---------------------------------------------------------------------------

/// How many of the first `k` characters of `s` start before the byte `b`.
pub open spec fn starts_before(s: Seq<char>, b: int, k: int) -> nat
    decreases k,
{
    if k <= 0 {
        0
    } else {
        starts_before(s, b, k - 1) + (if text::utf8_len(s.take(k - 1)) < b {
            1nat
        } else {
            0nat
        })
    }
}

/// The least boundary of `s` beyond the byte `b`, from the one behind `k`
/// characters on; the end of `s` when there is none.
pub open spec fn boundary_after(s: Seq<char>, b: int, k: int) -> nat
    decreases s.len() - k,
{
    if k < 0 || k >= s.len() {
        text::utf8_len(s)
    } else if text::utf8_len(s.take(k)) > b {
        text::utf8_len(s.take(k))
    } else {
        boundary_after(s, b, k + 1)
    }
}

/// The greatest boundary of `s` before the byte `b`, from the one behind `k`
/// characters down; the start of `s` when there is none.
pub open spec fn boundary_before(s: Seq<char>, b: int, k: int) -> nat
    decreases k,
{
    if k <= 0 {
        0
    } else if text::utf8_len(s.take(k)) < b {
        text::utf8_len(s.take(k))
    } else {
        boundary_before(s, b, k - 1)
    }
}

/// How many characters of `s` start before the byte `byte_idx`.
pub fn cursor_byte_to_char_idx(s: &str, byte_idx: usize) -> (n: usize)
    ensures
        n == starts_before(s@, byte_idx as int, s@.len() as int),
{
    let v = text::chars(s);
    let size = text::byte_len(s);
    let mut n: usize = 0;
    let mut used: usize = 0;
    let mut k: usize = 0;
    assert(v@.take(0) =~= Seq::<char>::empty());
    while k < v.len()
        invariant
            k <= v.len(),
            v@ == s@,
            n <= k,
            size == text::utf8_len(s@),
            used == text::utf8_len(v@.take(k as int)),
            n == starts_before(s@, byte_idx as int, k as int),
        decreases v.len() - k,
    {
        proof {
            assert(v@.take(k + 1) =~= v@.take(k as int).push(v@[k as int]));
            text::lemma_utf8_len_push(v@.take(k as int), v@[k as int]);
            text::lemma_utf8_len_take(v@, k + 1, v@.len() as int);
            assert(v@.take(v@.len() as int) =~= v@);
        }
        if used < byte_idx {
            n = n + 1;
        }
        used = used + text::char_width(v[k]);
        k = k + 1;
    }
    n
}

/// The next boundary of `s` beyond `byte_idx`, or its end.
pub fn next_char_boundary(s: &str, byte_idx: usize) -> (r: usize)
    ensures
        r == boundary_after(s@, byte_idx as int, 0),
{
    let v = text::chars(s);
    let size = text::byte_len(s);
    let mut used: usize = 0;
    let mut k: usize = 0;
    assert(v@.take(0) =~= Seq::<char>::empty());
    while k < v.len() && used <= byte_idx
        invariant
            k <= v.len(),
            v@ == s@,
            size == text::utf8_len(s@),
            used == text::utf8_len(v@.take(k as int)),
            boundary_after(s@, byte_idx as int, 0) == boundary_after(
                s@,
                byte_idx as int,
                k as int,
            ),
        decreases v.len() - k,
    {
        proof {
            assert(v@.take(k + 1) =~= v@.take(k as int).push(v@[k as int]));
            text::lemma_utf8_len_push(v@.take(k as int), v@[k as int]);
            text::lemma_utf8_len_take(v@, k + 1, v@.len() as int);
            assert(v@.take(v@.len() as int) =~= v@);
        }
        used = used + text::char_width(v[k]);
        k = k + 1;
    }
    if k < v.len() {
        used
    } else {
        size
    }
}

/// The boundary of `s` before `byte_idx`, or its start.
pub fn prev_char_boundary(s: &str, byte_idx: usize) -> (r: usize)
    ensures
        r == boundary_before(s@, byte_idx as int, s@.len() as int),
{
    let v = text::chars(s);
    let size = text::byte_len(s);
    let mut used: usize = size;
    let mut k: usize = v.len();
    assert(v@.take(k as int) =~= v@);
    while k > 0 && used >= byte_idx
        invariant
            k <= v.len(),
            v@ == s@,
            used == text::utf8_len(v@.take(k as int)),
            boundary_before(s@, byte_idx as int, s@.len() as int) == boundary_before(
                s@,
                byte_idx as int,
                k as int,
            ),
        decreases k,
    {
        proof {
            assert(v@.take(k as int) =~= v@.take(k - 1).push(v@[k - 1]));
            text::lemma_utf8_len_push(v@.take(k - 1), v@[k - 1]);
        }
        used = used - text::char_width(v[k - 1]);
        k = k - 1;
    }
    if k > 0 {
        used
    } else {
        0
    }
}

/// From one boundary, the next one is one character further.
pub proof fn law_next_boundary(s: Seq<char>, i: int)
    requires
        0 <= i < s.len(),
    ensures
        boundary_after(s, text::utf8_len(s.take(i)) as int, 0) == text::utf8_len(s.take(i + 1)),
{
    lemma_boundary_after(s, i, 0);
}

proof fn lemma_boundary_after(s: Seq<char>, i: int, k: int)
    requires
        0 <= k <= i + 1,
        0 <= i < s.len(),
    ensures
        boundary_after(s, text::utf8_len(s.take(i)) as int, k) == text::utf8_len(s.take(i + 1)),
    decreases i + 1 - k,
{
    if k <= i {
        text::lemma_utf8_len_take(s, k, i);
        lemma_boundary_after(s, i, k + 1);
    } else {
        text::lemma_utf8_len_take(s, i, i + 1);
        if k == s.len() {
            assert(s.take(k) =~= s);
        }
    }
}

/// From one boundary, the one before is one character back.
pub proof fn law_previous_boundary(s: Seq<char>, i: int)
    requires
        0 < i <= s.len(),
    ensures
        boundary_before(s, text::utf8_len(s.take(i)) as int, s.len() as int) == text::utf8_len(
            s.take(i - 1),
        ),
{
    lemma_boundary_before(s, i, s.len() as int);
}

proof fn lemma_boundary_before(s: Seq<char>, i: int, k: int)
    requires
        0 < i <= s.len(),
        i - 1 <= k <= s.len(),
    ensures
        boundary_before(s, text::utf8_len(s.take(i)) as int, k) == text::utf8_len(s.take(i - 1)),
    decreases k,
{
    if k >= i {
        text::lemma_utf8_len_take(s, i, k);
        lemma_boundary_before(s, i, k - 1);
    } else {
        text::lemma_utf8_len_take(s, i - 1, i);
        if k == 0 {
            assert(s.take(0) =~= Seq::<char>::empty());
        }
    }
}

/// Nothing lies before the start.
pub proof fn lemma_before_start(s: Seq<char>, k: int)
    requires
        k <= s.len(),
    ensures
        boundary_before(s, 0, k) == 0,
    decreases k,
{
    if k > 0 {
        lemma_before_start(s, k - 1);
    }
}

/// Nothing lies beyond the end.
pub proof fn lemma_after_end(s: Seq<char>, b: int, k: int)
    requires
        b >= text::utf8_len(s),
        0 <= k,
    ensures
        boundary_after(s, b, k) == text::utf8_len(s),
    decreases s.len() - k,
{
    if k < s.len() {
        text::lemma_utf8_len_take(s, k, s.len() as int);
        assert(s.take(s.len() as int) =~= s);
        lemma_after_end(s, b, k + 1);
    }
}

// ---------------------------------------------------------------------------
// Edits
// ---------------------------------------------------------------------------

/// `s` with `t` put in at the boundary `b`.
pub open spec fn inserted(s: Seq<char>, b: int, t: Seq<char>) -> Seq<char> {
    let i = text::index_at(s, b)->0;
    s.take(i) + t + s.skip(i)
}

/// `s` without the character before the boundary `b`.
pub open spec fn without_previous(s: Seq<char>, b: int) -> Seq<char> {
    let i = text::index_at(s, b)->0;
    if i > 0 {
        s.take(i - 1) + s.skip(i)
    } else {
        s
    }
}

/// Where the boundary `b` comes to stand when the character before it goes.
pub open spec fn previous_position(s: Seq<char>, b: int) -> nat {
    let i = text::index_at(s, b)->0;
    if i > 0 {
        text::utf8_len(s.take(i - 1))
    } else {
        0
    }
}

/// `s` without the character behind the boundary `b`; there is none at the end
/// or beyond it.
pub open spec fn without_next(s: Seq<char>, b: int) -> Seq<char> {
    if b < text::utf8_len(s) {
        let i = text::index_at(s, b)->0;
        s.take(i) + s.skip(i + 1)
    } else {
        s
    }
}

/// Puts `t` into `s` at the byte `byte_idx`.
pub fn insert_str_at(s: &mut String, byte_idx: usize, t: &str)
    requires
        text::is_boundary(old(s)@, byte_idx as int),
    ensures
        final(s)@ == inserted(old(s)@, byte_idx as int, t@),
{
    let v = text::chars(s.as_str());
    match text::char_index(&v, byte_idx) {
        Some(i) => {
            let n: usize = v.len();
            let mut r = text::string_of(&v, 0, i);
            assert(r@ =~= v@.take(i as int));
            r.push_str(t);
            let rest = text::string_of(&v, i, n);
            assert(rest@ =~= v@.skip(i as int));
            r.push_str(&rest);
            *s = r;
        },
        None => {},
    }
}

/// Takes out the character before the byte `byte_idx`; returns where that
/// character started.
pub fn remove_prev_char(s: &mut String, byte_idx: usize) -> (r: usize)
    requires
        text::is_boundary(old(s)@, byte_idx as int),
    ensures
        final(s)@ == without_previous(old(s)@, byte_idx as int),
        r == previous_position(old(s)@, byte_idx as int),
{
    let v = text::chars(s.as_str());
    match text::char_index(&v, byte_idx) {
        Some(i) => {
            if i == 0 {
                return 0;
            }
            let n: usize = v.len();
            proof {
                text::lemma_index_at(v@, byte_idx as int);
                assert(v@.take(i as int) =~= v@.take(i - 1).push(v@[i - 1]));
                text::lemma_utf8_len_push(v@.take(i - 1), v@[i - 1]);
            }
            let at: usize = byte_idx - text::char_width(v[i - 1]);
            let mut r = text::string_of(&v, 0, i - 1);
            assert(r@ =~= v@.take(i - 1));
            let rest = text::string_of(&v, i, n);
            assert(rest@ =~= v@.skip(i as int));
            r.push_str(&rest);
            *s = r;
            at
        },
        None => 0,
    }
}

/// Takes out the character behind the byte `byte_idx`; at the end and beyond it
/// there is none.
pub fn remove_next_char(s: &mut String, byte_idx: usize)
    requires
        byte_idx >= text::utf8_len(old(s)@) || text::is_boundary(old(s)@, byte_idx as int),
    ensures
        final(s)@ == without_next(old(s)@, byte_idx as int),
{
    if byte_idx >= text::byte_len(s.as_str()) {
        return;
    }
    let v = text::chars(s.as_str());
    match text::char_index(&v, byte_idx) {
        Some(i) => {
            let n: usize = v.len();
            proof {
                text::lemma_index_at(v@, byte_idx as int);
                assert(v@.take(n as int) =~= v@);
            }
            let mut r = text::string_of(&v, 0, i);
            assert(r@ =~= v@.take(i as int));
            let rest = text::string_of(&v, i + 1, n);
            assert(rest@ =~= v@.skip(i + 1));
            r.push_str(&rest);
            *s = r;
        },
        None => {},
    }
}

/// An edit leaves the cursor between two characters: behind what was put in,
/// before what was taken out, or where it stood.
pub proof fn law_edits_keep_the_cursor(s: Seq<char>, b: int, t: Seq<char>)
    requires
        text::is_boundary(s, b),
    ensures
        text::is_boundary(inserted(s, b, t), b + text::utf8_len(t)),
        text::is_boundary(without_previous(s, b), previous_position(s, b) as int),
        text::is_boundary(without_next(s, b), b),
{
    text::lemma_index_at(s, b);
    let i = text::index_at(s, b)->0;
    let ins = inserted(s, b, t);
    assert(ins.take(i + t.len()) =~= s.take(i) + t);
    text::lemma_utf8_len_add(s.take(i), t);
    text::lemma_index_of_take(ins, i + t.len());
    let prev = without_previous(s, b);
    if i > 0 {
        assert(prev.take(i - 1) =~= s.take(i - 1));
        text::lemma_index_of_take(prev, i - 1);
    } else {
        assert(prev.take(0) =~= Seq::<char>::empty());
        text::lemma_index_of_take(prev, 0);
    }
    let next = without_next(s, b);
    assert(next.take(i) =~= s.take(i));
    text::lemma_index_of_take(next, i);
}

/// Typing a character and taking it back leaves the input and the cursor as
/// they were.
pub proof fn law_backspace_undoes_typing(s: Seq<char>, b: int, c: char)
    requires
        text::is_boundary(s, b),
    ensures
        without_previous(inserted(s, b, seq![c]), b + text::utf8_len(seq![c])) == s,
        previous_position(inserted(s, b, seq![c]), b + text::utf8_len(seq![c])) == b,
{
    text::lemma_index_at(s, b);
    let i = text::index_at(s, b)->0;
    let t = seq![c];
    let ins = inserted(s, b, t);
    assert(ins.take(i + 1) =~= s.take(i) + t);
    text::lemma_utf8_len_add(s.take(i), t);
    text::lemma_index_of_take(ins, i + 1);
    assert(ins.take(i) =~= s.take(i));
    assert(ins.skip(i + 1) =~= s.skip(i));
    assert(s.take(i) + s.skip(i) =~= s);
}

/// Taking out what was just typed, from where the cursor stood before, leaves
/// the input as it was.
pub proof fn law_delete_undoes_typing(s: Seq<char>, b: int, c: char)
    requires
        text::is_boundary(s, b),
    ensures
        without_next(inserted(s, b, seq![c]), b) == s,
{
    text::lemma_index_at(s, b);
    let i = text::index_at(s, b)->0;
    let ins = inserted(s, b, seq![c]);
    assert(ins.take(i) =~= s.take(i));
    text::lemma_index_of_take(ins, i);
    text::lemma_utf8_len_take(ins, i, ins.len() as int);
    assert(ins.take(ins.len() as int) =~= ins);
    assert(ins.skip(i + 1) =~= s.skip(i));
    assert(s.take(i) + s.skip(i) =~= s);
}

// ---------------------------------------------------------------------------
// Commands
// ---------------------------------------------------------------------------

pub ghost struct CommandText {
    pub cmd: Seq<char>,
    pub alias: Option<Seq<char>>,
    pub desc: Seq<char>,
}

impl View for CommandSpec {
    type V = CommandText;

    open spec fn view(&self) -> CommandText {
        CommandText {
            cmd: self.cmd@,
            alias: match self.alias {
                Some(a) => Some(a@),
                None => None,
            },
            desc: self.desc@,
        }
    }
}

pub open spec fn command_texts(v: Seq<CommandSpec>) -> Seq<CommandText> {
    v.map_values(|c: CommandSpec| c@)
}

pub open spec fn plain_command(cmd: Seq<char>, desc: Seq<char>) -> CommandText {
    CommandText { cmd, alias: None, desc }
}

/// The commands that can be typed.
pub open spec fn command_table() -> Seq<CommandText> {
    seq![
        CommandText { cmd: "/quit"@, alias: Some("/q"@), desc: "Exit itsy"@ },
        plain_command("/clear"@, "Reset conversation"@),
        plain_command("/model"@, "Show/switch model"@),
        plain_command("/endpoint"@, "Switch API endpoint"@),
        plain_command("/stats"@, "Session statistics"@),
        plain_command("/tokens"@, "Token usage report"@),
        plain_command("/budget"@, "Context window budget"@),
        plain_command("/files"@, "List project files"@),
        plain_command("/diff"@, "Git diff summary"@),
        plain_command("/git"@, "Run git command"@),
        plain_command("/loop"@, "Validate + auto-fix file"@),
        plain_command("/memory"@, "View project memory"@),
        plain_command("/trace"@, "View execution traces"@),
        plain_command("/eval"@, "Run prompt evaluation"@),
        plain_command("/profile"@, "Model profile + routing"@),
        plain_command("/cognition"@, "Cognition status"@),
        plain_command("/mcp"@, "Connected MCP servers"@),
        plain_command("/skill"@, "Manage reusable skills"@),
        plain_command("/plugin"@, "Manage plugins"@),
        plain_command("/sessions"@, "List/resume sessions"@),
        plain_command("/session"@, "Parallel sessions"@),
        plain_command("/share"@, "Export session"@),
        plain_command("/undo"@, "Revert last edit"@),
        plain_command("/compact"@, "Trim conversation history"@),
        plain_command("/help"@, "Show all commands"@),
        plain_command("/version"@, "Show itsy version"@),
    ]
}

fn plain(cmd: &'static str, desc: &'static str) -> (c: CommandSpec)
    ensures
        c@ == plain_command(cmd@, desc@),
{
    CommandSpec { cmd, alias: None, desc }
}

/// The commands that can be typed.
pub fn commands() -> (r: Vec<CommandSpec>)
    ensures
        command_texts(r@) == command_table(),
{
    let r = vec![
        CommandSpec { cmd: "/quit", alias: Some("/q"), desc: "Exit itsy" },
        plain("/clear", "Reset conversation"),
        plain("/model", "Show/switch model"),
        plain("/endpoint", "Switch API endpoint"),
        plain("/stats", "Session statistics"),
        plain("/tokens", "Token usage report"),
        plain("/budget", "Context window budget"),
        plain("/files", "List project files"),
        plain("/diff", "Git diff summary"),
        plain("/git", "Run git command"),
        plain("/loop", "Validate + auto-fix file"),
        plain("/memory", "View project memory"),
        plain("/trace", "View execution traces"),
        plain("/eval", "Run prompt evaluation"),
        plain("/profile", "Model profile + routing"),
        plain("/cognition", "Cognition status"),
        plain("/mcp", "Connected MCP servers"),
        plain("/skill", "Manage reusable skills"),
        plain("/plugin", "Manage plugins"),
        plain("/sessions", "List/resume sessions"),
        plain("/session", "Parallel sessions"),
        plain("/share", "Export session"),
        plain("/undo", "Revert last edit"),
        plain("/compact", "Trim conversation history"),
        plain("/help", "Show all commands"),
        plain("/version", "Show itsy version"),
    ];
    assert(command_texts(r@) =~= command_table());
    r
}

/// Whether the name of a command, or its alias, holds a text. All names are in
/// lower case.
pub open spec fn answers_to(c: CommandText, f: Seq<char>) -> bool {
    ||| text::has(text::stripped_start(c.cmd, "/"@), f)
    ||| c.alias matches Some(a) && text::has(text::stripped_start(a, "/"@), f)
}

/// The commands of `cs` that a text in lower case stands for.
pub open spec fn matching(cs: Seq<CommandText>, f: Seq<char>) -> Seq<CommandText>
    decreases cs.len(),
{
    if cs.len() == 0 {
        Seq::empty()
    } else {
        let before = matching(cs.drop_last(), f);
        if answers_to(cs.last(), f) {
            before.push(cs.last())
        } else {
            before
        }
    }
}

/// The commands that an input stands for.
pub open spec fn filtered(input: Seq<char>) -> Seq<CommandText> {
    matching(command_table(), outside::lowered(text::stripped_start(input, "/"@)))
}

fn is_answer(c: &CommandSpec, f: &str) -> (r: bool)
    ensures
        r == answers_to(c@, f@),
{
    let name = text::trim_start_set(c.cmd, "/");
    if text::contains(&name, f) {
        return true;
    }
    match c.alias {
        Some(a) => {
            let alias = text::trim_start_set(a, "/");
            text::contains(&alias, f)
        },
        None => false,
    }
}

/// The commands that a text in lower case stands for.
pub fn matching_commands(f: &str) -> (r: Vec<CommandSpec>)
    ensures
        command_texts(r@) == matching(command_table(), f@),
{
    let all = commands();
    let ghost cs = command_texts(all@);
    let mut r: Vec<CommandSpec> = Vec::new();
    let mut i: usize = 0;
    assert(command_texts(r@) =~= matching(cs.take(0), f@));
    while i < all.len()
        invariant
            i <= all.len(),
            cs == command_texts(all@),
            command_texts(r@) == matching(cs.take(i as int), f@),
        decreases all.len() - i,
    {
        assert(cs.take(i + 1).drop_last() =~= cs.take(i as int));
        assert(cs.take(i + 1).last() == all@[i as int]@);
        let c = all[i];
        if is_answer(&c, f) {
            let ghost before = r@;
            r.push(c);
            assert(command_texts(r@) =~= command_texts(before).push(c@));
        }
        i = i + 1;
    }
    assert(cs.take(i as int) =~= cs);
    r
}

/// The commands that an input stands for.
pub fn filtered_commands(filter: &str) -> (r: Vec<CommandSpec>)
    ensures
        command_texts(r@) == filtered(filter@),
{
    let bare = text::trim_start_set(filter, "/");
    let f = outside::to_lowercase(&bare);
    matching_commands(&f)
}

/// Nothing in particular stands for every command.
pub proof fn law_empty_filter_shows_all(cs: Seq<CommandText>)
    ensures
        matching(cs, Seq::empty()) == cs,
    decreases cs.len(),
{
    if cs.len() > 0 {
        law_empty_filter_shows_all(cs.drop_last());
        let name = text::stripped_start(cs.last().cmd, "/"@);
        assert(name.subrange(0, 0) =~= Seq::<char>::empty());
        assert(text::at(name, Seq::empty(), 0));
        assert(cs =~= cs.drop_last().push(cs.last()));
    }
}

/// Whether `a` is what is left of `b` when some of it is taken out.
pub open spec fn is_left_of(a: Seq<CommandText>, b: Seq<CommandText>) -> bool
    decreases b.len(),
{
    ||| a.len() == 0
    ||| b.len() > 0 && is_left_of(a, b.drop_last())
    ||| b.len() > 0 && a.last() == b.last() && is_left_of(a.drop_last(), b.drop_last())
}

proof fn lemma_has_more(s: Seq<char>, p: Seq<char>, q: Seq<char>)
    requires
        text::has(s, p + q),
    ensures
        text::has(s, p),
{
    let i = choose|i: int| text::at(s, p + q, i);
    assert(s.subrange(i, i + p.len()) =~= s.subrange(i, i + (p + q).len()).take(p.len() as int));
    assert((p + q).take(p.len() as int) =~= p);
    assert(text::at(s, p, i));
}

proof fn lemma_matching_less(cs: Seq<CommandText>, p: Seq<char>, q: Seq<char>)
    ensures
        is_left_of(matching(cs, p + q), matching(cs, p)),
    decreases cs.len(),
{
    if cs.len() > 0 {
        lemma_matching_less(cs.drop_last(), p, q);
        let c = cs.last();
        let a = matching(cs.drop_last(), p + q);
        let b = matching(cs.drop_last(), p);
        if answers_to(c, p + q) {
            if text::has(text::stripped_start(c.cmd, "/"@), p + q) {
                lemma_has_more(text::stripped_start(c.cmd, "/"@), p, q);
            } else {
                lemma_has_more(text::stripped_start(c.alias->0, "/"@), p, q);
            }
            assert(a.push(c).drop_last() =~= a);
        }
        assert(b.push(c).drop_last() =~= b);
    }
}

proof fn lemma_stripped_start_add(f: Seq<char>, x: Seq<char>)
    ensures
        text::stripped_start(f, "/"@).len() == 0 || text::stripped_start(f + x, "/"@)
            == text::stripped_start(f, "/"@) + x,
    decreases f.len(),
{
    if f.len() > 0 {
        assert((f + x)[0] == f[0]);
        assert((f + x).drop_first() =~= f.drop_first() + x);
        lemma_stripped_start_add(f.drop_first(), x);
    }
}

proof fn lemma_stripped_start_ascii(f: Seq<char>)
    requires
        text::all_ascii(f),
    ensures
        text::all_ascii(text::stripped_start(f, "/"@)),
        text::stripped_start(text::ascii_upper(f), "/"@) == text::ascii_upper(
            text::stripped_start(f, "/"@),
        ),
    decreases f.len(),
{
    reveal_strlit("/");
    if f.len() > 0 {
        let u = text::ascii_upper(f);
        assert(u[0] == text::ascii_upper_char(f[0]));
        assert("/"@ =~= seq!['/']);
        assert("/"@.contains(f[0]) == (f[0] == '/')) by {
            assert("/"@[0] == '/');
        }
        assert("/"@.contains(u[0]) == (u[0] == '/')) by {
            assert("/"@[0] == '/');
        }
        assert(u.drop_first() =~= text::ascii_upper(f.drop_first()));
        lemma_stripped_start_ascii(f.drop_first());
    }
}

/// A slash at the start of a filter, and the case of its letters, make no
/// difference to the commands that it shows.
pub proof fn law_filter_ignores_slash_and_case(f: Seq<char>)
    ensures
        filtered("/"@ + f) == filtered(f),
        text::all_ascii(f) ==> filtered(text::ascii_upper(f)) == filtered(f),
{
    reveal_strlit("/");
    assert(("/"@ + f).drop_first() =~= f);
    assert("/"@[0] == '/');
    assert("/"@.contains('/'));
    if text::all_ascii(f) {
        lemma_stripped_start_ascii(f);
        let g = text::stripped_start(f, "/"@);
        let u = text::ascii_upper(g);
        assert forall|i: int| 0 <= i < u.len() implies text::is_ascii(#[trigger] u[i]) by {
            assert(text::is_ascii(g[i]));
        }
        assert(text::ascii_lower(u) =~= text::ascii_lower(g));
    }
}

/// Typing more never adds a command: what a longer filter shows is left of what
/// the shorter one shows.
pub proof fn law_typing_more_only_narrows(f: Seq<char>, x: Seq<char>)
    requires
        text::all_ascii(f),
        text::all_ascii(x),
    ensures
        is_left_of(filtered(f + x), filtered(f)),
{
    assert(text::all_ascii(f + x));
    lemma_stripped_start_ascii(f);
    lemma_stripped_start_ascii(f + x);
    lemma_stripped_start_add(f, x);
    let g = text::stripped_start(f, "/"@);
    let h = text::stripped_start(f + x, "/"@);
    if g.len() == 0 {
        let p = text::ascii_lower(g);
        assert(p =~= Seq::<char>::empty());
        let q = text::ascii_lower(h);
        assert(p + q =~= q);
        lemma_matching_less(command_table(), p, q);
    } else {
        let p = text::ascii_lower(g);
        let q = text::ascii_lower(x);
        assert(text::ascii_lower(h) =~= p + q);
        lemma_matching_less(command_table(), p, q);
    }
}

/// Text is put in where the cursor is, and what is before and behind it stays.
pub proof fn law_insertion(a: Seq<char>, b: Seq<char>, t: Seq<char>)
    ensures
        inserted(a + b, text::utf8_len(a) as int, t) == a + t + b,
{
    let s = a + b;
    let n = a.len() as int;
    assert(s.take(n) =~= a);
    assert(s.skip(n) =~= b);
    text::lemma_index_of_take(s, n);
}

/// A command is found by any part of its name, or of its other name.
pub proof fn law_commands_are_found(cs: Seq<CommandText>, c: CommandText, f: Seq<char>)
    ensures
        answers_to(c, f) ==> matching(cs.push(c), f) == matching(cs, f).push(c),
        !answers_to(c, f) ==> matching(cs.push(c), f) == matching(cs, f),
        text::has(text::stripped_start(c.cmd, "/"@), f) ==> answers_to(c, f),
        c.alias is None && !text::has(text::stripped_start(c.cmd, "/"@), f) ==> !answers_to(c, f),
{
    assert(cs.push(c).drop_last() =~= cs);
}

} // verus!
