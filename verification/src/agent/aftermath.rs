//! What follows from a tool's result: bookkeeping, the answer that enters the
//! conversation, hints, repairs, and the nudge at the end of a round.

use vstd::prelude::*;

use crate::agent::gate::{Batch, Call, Session, Turn};
use crate::agent::gate;
use crate::agent::history;
use crate::agent::tally;
use crate::agent::tools::Pressure;
use crate::agent::tools;
use crate::text;

verus! {

/// What a tool returned.
#[derive(Debug)]
pub struct Outcome {
    /// The result has an `error`.
    pub failed: bool,
    /// The `error`, when it is a string.
    pub error: Option<String>,
    /// The `result`, when it is a string.
    pub result: Option<String>,
    /// The `category`, when it is a string.
    pub category: Option<String>,
}

pub ghost struct OutcomeFacts {
    pub failed: bool,
    pub error: Option<Seq<char>>,
    pub result: Option<Seq<char>>,
    pub category: Option<Seq<char>>,
}

impl View for Outcome {
    type V = OutcomeFacts;

    open spec fn view(&self) -> OutcomeFacts {
        OutcomeFacts {
            failed: self.failed,
            error: text::opt_text(self.error),
            result: text::opt_text(self.result),
            category: text::opt_text(self.category),
        }
    }
}

// ---------------------------------------------------------------------------
// Bookkeeping
// ---------------------------------------------------------------------------

/// The tools that change a file.
pub open spec fn edits(name: Seq<char>) -> bool {
    ||| name == "write_file"@
    ||| name == "patch"@
    ||| name == "read_and_patch"@
    ||| name == "create_file"@
    ||| name == "move_file"@
    ||| name == "delete_file"@
    ||| name == "append_file"@
}

/// `t` after a file was changed: the path may be read again, and the commands
/// that check it may be run again.
pub open spec fn after_edit(t: gate::TurnText, path: Option<Seq<char>>) -> gate::TurnText {
    gate::TurnText {
        changed: true,
        batch: Batch { mutating: true, ..t.batch },
        edited: match path {
            Some(p) => t.edited.push(p),
            None => t.edited,
        },
        session: gate::SessionText {
            mutations: tally::one_more(t.session.mutations),
            mutated: match path {
                Some(p) => t.session.mutated.insert(p),
                None => t.session.mutated,
            },
            repeats: t.session.repeats.remove_keys(t.session.bash_keys),
            bash_keys: Set::empty(),
            ..t.session
        },
        ..t
    }
}

/// A read that brought nothing new.
pub open spec fn is_stale(o: OutcomeFacts) -> bool {
    match o.result {
        Some(s) => text::has(s, "unchanged since last read"@),
        None => false,
    }
}

pub const NOT_FOUND_TAIL: &'static str =
    ". \
     The file content has changed since you last read it. \
     Use read_and_patch instead — it reads the current content \
     first, then applies the patch atomically.";

/// What the model is told when the text to be replaced is not in the file.
pub open spec fn not_found_text(path: Seq<char>) -> Seq<char> {
    "[SYSTEM] patch failed: old_str not found in "@ + path + NOT_FOUND_TAIL@
}

pub open spec fn error_text(o: OutcomeFacts) -> Seq<char> {
    match o.error {
        Some(s) => s,
        None => Seq::empty(),
    }
}

/// `t` after the result of a call is noted.
pub open spec fn noted(t: gate::TurnText, c: gate::CallFacts, o: OutcomeFacts) -> gate::TurnText {
    let t1 = if c.name == "select_category"@ && o.category is Some {
        gate::TurnText { session: gate::SessionText { category: o.category, ..t.session }, ..t }
    } else {
        t
    };
    let t2 = if edits(c.name) && !o.failed {
        after_edit(t1, c.path)
    } else {
        t1
    };
    let t3 = gate::TurnText { blocks: 0, ..t2 };
    let t4 = if c.name == "read_file"@ && !o.failed && !is_stale(o) {
        gate::TurnText { batch: Batch { fresh_read: true, ..t3.batch }, ..t3 }
    } else {
        t3
    };
    if c.name == "patch"@ && text::has(error_text(o), "not found"@) {
        gate::said(t4, history::plain("user"@, not_found_text(tools::or_empty(c.path))))
    } else {
        t4
    }
}

/// Whether a patch counts as a success: a demand to read the file first is no
/// failure of the patch itself.
pub open spec fn patch_succeeded(o: OutcomeFacts) -> bool {
    !o.failed || text::has(error_text(o), "call read_file"@)
}

fn is_edit(name: &str) -> (r: bool)
    ensures
        r == edits(name@),
{
    text::same(name, "write_file") || text::same(name, "patch") || text::same(
        name,
        "read_and_patch",
    ) || text::same(name, "create_file") || text::same(name, "move_file") || text::same(
        name,
        "delete_file",
    ) || text::same(name, "append_file")
}

fn more(n: u32) -> (r: u32)
    ensures
        r == tally::one_more(n),
{
    if n < u32::MAX {
        n + 1
    } else {
        n
    }
}

fn or_blank(s: &Option<String>) -> (r: String)
    ensures
        r@ == tools::or_empty(text::opt_text(*s)),
{
    match s {
        Some(t) => t.clone(),
        None => {
            let e = String::new();
            assert(e@ =~= Seq::<char>::empty());
            e
        },
    }
}

/// Whether a patch counts as a success.
pub fn patch_success(o: &Outcome) -> (r: bool)
    ensures
        r == patch_succeeded(o@),
{
    let err = or_blank(&o.error);
    !o.failed || text::contains(&err, "call read_file")
}

impl Turn {
    fn note_edit(&mut self, path: &Option<String>)
        ensures
            final(self)@ == after_edit(old(self)@, text::opt_text(*path)),
    {
        self.changed = true;
        self.batch.mutating = true;
        self.session.mutations = more(self.session.mutations);
        match path {
            Some(p) => {
                let s = p.clone();
                proof {
                    text::lemma_texts_push(self.edited@, s);
                }
                self.edited.push(s);
                let _ = self.session.mutated.insert(p);
            },
            None => {},
        }
        self.session.repeats.remove_all(&self.session.bash_keys);
        self.session.bash_keys.clear();
    }

    /// Notes the result of a call.
    pub fn note(&mut self, c: &Call, o: &Outcome)
        ensures
            final(self)@ == noted(old(self)@, c@, o@),
    {
        if text::same(&c.name, "select_category") {
            match &o.category {
                Some(cat) => {
                    self.session.category = Some(cat.clone());
                },
                None => {},
            }
        }
        if !o.failed && is_edit(&c.name) {
            self.note_edit(&c.path);
        }
        self.blocks = 0;
        if !o.failed && text::same(&c.name, "read_file") {
            let stale = match &o.result {
                Some(s) => text::contains(s, "unchanged since last read"),
                None => false,
            };
            if !stale {
                self.batch.fresh_read = true;
            }
        }
        let err = or_blank(&o.error);
        if text::same(&c.name, "patch") && text::contains(&err, "not found") {
            let mut s: String = "[SYSTEM] patch failed: old_str not found in ".to_owned();
            s.push_str(&or_blank(&c.path));
            s.push_str(NOT_FOUND_TAIL);
            self.say_plain("user", s);
        }
    }

    /// Passes on the demand of a detector that saw the turn go in circles.
    pub fn redirect(&mut self, injection: String)
        ensures
            final(self)@ == gate::said(old(self)@, history::plain("user"@, injection@)),
    {
        self.say_plain("user", injection);
    }
}

// ---------------------------------------------------------------------------
// The answer
// ---------------------------------------------------------------------------

/// What a tool said: its result, else its error.
pub open spec fn answer_text(o: OutcomeFacts) -> Seq<char> {
    match o.result {
        Some(s) => s,
        None => error_text(o),
    }
}

/// A command that ended with exit code 1 may just be telling something.
pub open spec fn counts_as_failure(name: Seq<char>, o: OutcomeFacts) -> bool {
    o.failed && !((name == "bash"@ || name == "run"@) && error_text(o) == "Exit code 1"@)
}

pub open spec fn failure_text(name: Seq<char>) -> Seq<char> {
    "[SYSTEM] `"@ + name + "` has failed "@ + text::decimal(2) + " times in a row. "@
        + tools::tool_hint(name)
}

/// `t` after the result joined the conversation, with a hint when the same tool
/// failed twice in a row.
pub open spec fn answered(t: gate::TurnText, c: gate::CallFacts, o: OutcomeFacts, p: Pressure) -> gate::TurnText {
    let told = gate::said(t, history::tool_reply(c.id, tools::capped(answer_text(o), p)));
    if counts_as_failure(c.name, o) {
        let n = tally::one_more(tally::count_of(told.failures, c.name));
        let counted = gate::TurnText { failures: told.failures.insert(c.name, n), ..told };
        if n == 2 {
            gate::said(counted, history::plain("user"@, failure_text(c.name)))
        } else {
            counted
        }
    } else {
        gate::TurnText { failures: told.failures.remove(c.name), ..told }
    }
}

impl Turn {
    /// Adds the result of a call to the conversation, cut to what the context
    /// has room for.
    pub fn reply(&mut self, c: &Call, o: &Outcome, p: Pressure)
        ensures
            final(self)@ == answered(old(self)@, c@, o@, p),
    {
        let content: String = match &o.result {
            Some(s) => s.clone(),
            None => or_blank(&o.error),
        };
        self.answer(&c.id, tools::cap_tool_result(&content, p));
        let err = or_blank(&o.error);
        let informational = (text::same(&c.name, "bash") || text::same(&c.name, "run"))
            && text::same(&err, "Exit code 1");
        if o.failed && !informational {
            let n = self.failures.bump(&c.name);
            if n == 2 {
                let mut s: String = "[SYSTEM] `".to_owned();
                s.push_str(&c.name);
                s.push_str("` has failed ");
                s.push_str(&text::number(2));
                s.push_str(" times in a row. ");
                s.push_str(tools::recency_tool_hint(&c.name));
                self.say_plain("user", s);
            }
        } else {
            self.failures.remove(&c.name);
        }
    }
}

// ---------------------------------------------------------------------------
// Repairs
// ---------------------------------------------------------------------------

/// What the checks on a changed file come to.
#[derive(Debug)]
pub enum Verdict {
    Accept,
    Retry { errors: Vec<String> },
    Decompose { instruction: String, lines: u64 },
}

pub ghost enum VerdictFacts {
    Accept,
    Retry { errors: Seq<Seq<char>> },
    Decompose { instruction: Seq<char>, lines: u64 },
}

impl View for Verdict {
    type V = VerdictFacts;

    open spec fn view(&self) -> VerdictFacts {
        match self {
            Verdict::Accept => VerdictFacts::Accept,
            Verdict::Retry { errors } => VerdictFacts::Retry { errors: text::texts(errors@) },
            Verdict::Decompose { instruction, lines } => VerdictFacts::Decompose {
                instruction: instruction@,
                lines: *lines,
            },
        }
    }
}

/// Whether a call's file is checked: a file was written or patched.
pub open spec fn is_checked(c: gate::CallFacts, o: OutcomeFacts) -> bool {
    (c.name == "write_file"@ || c.name == "patch"@) && !o.failed && c.path is Some
}

/// The file that is checked after a call, if one is.
pub fn file_to_check(c: &Call, o: &Outcome) -> (r: Option<String>)
    ensures
        text::opt_text(r) == (if is_checked(c@, o@) {
            c@.path
        } else {
            None
        }),
{
    if (text::same(&c.name, "write_file") || text::same(&c.name, "patch")) && !o.failed {
        match &c.path {
            Some(p) => Some(p.clone()),
            None => None,
        }
    } else {
        None
    }
}

pub open spec fn fix_text(
    path: Seq<char>,
    attempt: u32,
    errors: Seq<Seq<char>>,
    has_tests: bool,
) -> Seq<char> {
    "[AUTO-VALIDATE] Errors in "@ + path + " (attempt "@ + text::decimal(attempt as nat) + "/4):\n"@
        + text::join(errors, "\n"@) + (if has_tests {
        "\n\nAfter fixing, run the project test command to verify."@
    } else {
        ""@
    }) + "\n\nFix these errors. Do NOT repeat the same approach that failed before."@
}

pub open spec fn decompose_text(instruction: Seq<char>, lines: u64) -> Seq<char> {
    "[DECOMPOSE] After 4 failed fix attempts, changing strategy.\n\n"@ + instruction
        + "\n\nFile length: "@ + text::decimal(lines as nat) + " lines."@
}

/// `t` after the checks on the file `path`.
pub open spec fn verified(
    t: gate::TurnText,
    path: Seq<char>,
    v: VerdictFacts,
    has_tests: bool,
) -> gate::TurnText {
    match v {
        VerdictFacts::Accept => if tally::count_of(t.attempts, path) > 0 {
            gate::TurnText { attempts: t.attempts.insert(path, 0), ..t }
        } else {
            t
        },
        VerdictFacts::Retry { errors } => {
            let n = tally::one_more(tally::count_of(t.attempts, path));
            gate::said(
                gate::TurnText { attempts: t.attempts.insert(path, n), ..t },
                history::plain("user"@, fix_text(path, n, errors, has_tests)),
            )
        },
        VerdictFacts::Decompose { instruction, lines } => gate::said(
            gate::TurnText { attempts: t.attempts.insert(path, 0), ..t },
            history::plain("user"@, decompose_text(instruction, lines)),
        ),
    }
}

/// What a second reading of an accepted edit found.
pub open spec fn review_text(path: Seq<char>, issues: Seq<Seq<char>>) -> Seq<char> {
    "[SEMANTIC-REVIEW] The edit to "@ + path + " may need follow-up:\n  - "@ + text::join(
        issues,
        "\n  - "@,
    )
}

pub open spec fn is_command(name: Seq<char>) -> bool {
    name == "bash"@ || name == "run"@ || name == "create_and_run"@
}

/// How to go on after a command.
#[derive(Debug, Clone, Copy, PartialEq, Eq, Structural)]
pub enum CommandStep {
    /// Nothing more to say.
    Done,
    /// A new strategy is to be found and announced.
    Rethink,
}

pub open spec fn autofix_text(n: u32, result: Seq<char>) -> Seq<char> {
    "[AUTO-FIX] The command FAILED (attempt "@ + text::decimal(n as nat)
        + "/2). Do NOT claim success. The error was:\n"@ + text::head(result, 800)
        + "\n\nRead the error, identify the bug, and fix it."@
}

/// `t` after a command: the first two failures in a row are to be fixed, the
/// third asks for another strategy, a success starts the count anew.
pub open spec fn command_noted(t: gate::TurnText, c: gate::CallFacts, o: OutcomeFacts) -> (
    gate::TurnText,
    CommandStep,
) {
    if is_command(c.name) && o.failed {
        let n = tally::one_more(tally::count_of(t.attempts, "__bash"@));
        let counted = gate::TurnText { attempts: t.attempts.insert("__bash"@, n), ..t };
        if n <= 2 {
            (
                gate::said(
                    counted,
                    history::plain("user"@, autofix_text(n, tools::or_empty(o.result))),
                ),
                CommandStep::Done,
            )
        } else {
            (counted, CommandStep::Rethink)
        }
    } else if (c.name == "bash"@ || c.name == "run"@) && !o.failed {
        (gate::TurnText { attempts: t.attempts.insert("__bash"@, 0), ..t }, CommandStep::Done)
    } else {
        (t, CommandStep::Done)
    }
}

/// `t` after another strategy for a failing command is announced.
pub open spec fn rethought(t: gate::TurnText, instruction: Seq<char>) -> gate::TurnText {
    let told = gate::said(
        t,
        history::plain(
            "user"@,
            "[DECOMPOSE] The command has failed 3 times. STOP retrying the same approach.\n\n"@
                + instruction,
        ),
    );
    gate::TurnText { attempts: told.attempts.insert("__bash"@, 0), ..told }
}

/// The exit code that a number in an error stands for, within `i32`.
pub open spec fn parsed_exit(s: Seq<char>) -> Option<int> {
    if s.len() > 0 && s[0] == '-' {
        let body = s.drop_first();
        if text::all_digits(body) && text::digits_value(body) <= 0x8000_0000 {
            Some(-(text::digits_value(body) as int))
        } else {
            None
        }
    } else {
        match text::parsed(s, 0x7fff_ffff) {
            Some(n) => Some(n as int),
            None => None,
        }
    }
}

/// The exit code that a result stands for. Many programs only tell something by
/// an exit code of 1, so it counts as none; an error without a code counts as 2.
pub open spec fn exit_code(o: OutcomeFacts) -> int {
    let code = match o.error {
        Some(s) => match text::without_prefix(s, "Exit code "@) {
            Some(rest) => parsed_exit(rest),
            None => None,
        },
        None => None,
    };
    match code {
        Some(n) => if n != 1 {
            n
        } else {
            0
        },
        None => if o.failed {
            2
        } else {
            0
        },
    }
}

fn parse_exit(s: &str) -> (r: Option<i32>)
    ensures
        match r {
            Some(n) => parsed_exit(s@) == Some(n as int),
            None => parsed_exit(s@) is None,
        },
{
    let v = text::chars(s);
    if v.len() > 0 && v[0] == '-' {
        assert(v@.skip(1) =~= s@.drop_first());
        match text::parse_digits(&v, 1, 0x8000_0000) {
            Some(n) => {
                let m: i64 = -(n as i64);
                Some(m as i32)
            },
            None => None,
        }
    } else {
        match text::parse_number(s, 0x7fff_ffff) {
            Some(n) => Some(n as i32),
            None => None,
        }
    }
}

/// The exit code that a result stands for.
pub fn exit_code_of(o: &Outcome) -> (r: i32)
    ensures
        r == exit_code(o@),
{
    let code: Option<i32> = match &o.error {
        Some(s) => match text::strip_prefix(s, "Exit code ") {
            Some(rest) => parse_exit(&rest),
            None => None,
        },
        None => None,
    };
    match code {
        Some(n) => if n != 1 {
            n
        } else {
            0
        },
        None => if o.failed {
            2
        } else {
            0
        },
    }
}

/// What a second reading of an accepted edit found.
pub fn semantic_review(path: &str, issues: &Vec<String>) -> (r: String)
    ensures
        r@ == review_text(path@, text::texts(issues@)),
{
    let mut s: String = "[SEMANTIC-REVIEW] The edit to ".to_owned();
    s.push_str(path);
    s.push_str(" may need follow-up:\n  - ");
    s.push_str(&text::join_with(issues, "\n  - "));
    s
}

impl Turn {
    /// Acts on the checks of a changed file. Returns how many attempts there
    /// had been before.
    pub fn verify(&mut self, path: &str, v: &Verdict, has_tests: bool) -> (before: u32)
        ensures
            final(self)@ == verified(old(self)@, path@, v@, has_tests),
            before == tally::count_of(old(self)@.attempts, path@),
    {
        let before = self.attempts.get(path);
        match v {
            Verdict::Accept => {
                if before > 0 {
                    self.attempts.set(path, 0);
                }
            },
            Verdict::Retry { errors } => {
                let n = self.attempts.bump(path);
                let mut s: String = "[AUTO-VALIDATE] Errors in ".to_owned();
                s.push_str(path);
                s.push_str(" (attempt ");
                s.push_str(&text::number(n as u64));
                s.push_str("/4):\n");
                s.push_str(&text::join_with(errors, "\n"));
                if has_tests {
                    s.push_str("\n\nAfter fixing, run the project test command to verify.");
                } else {
                    s.push_str("");
                }
                s.push_str(
                    "\n\nFix these errors. Do NOT repeat the same approach that failed before.",
                );
                self.say_plain("user", s);
            },
            Verdict::Decompose { instruction, lines } => {
                self.attempts.set(path, 0);
                let mut s: String =
                    "[DECOMPOSE] After 4 failed fix attempts, changing strategy.\n\n".to_owned();
                s.push_str(instruction);
                s.push_str("\n\nFile length: ");
                s.push_str(&text::number(*lines));
                s.push_str(" lines.");
                self.say_plain("user", s);
            },
        }
        before
    }

    /// Acts on the result of a command.
    pub fn note_command(&mut self, c: &Call, o: &Outcome) -> (r: CommandStep)
        ensures
            (final(self)@, r) == command_noted(old(self)@, c@, o@),
    {
        let shell = text::same(&c.name, "bash") || text::same(&c.name, "run");
        if (shell || text::same(&c.name, "create_and_run")) && o.failed {
            let n = self.attempts.bump("__bash");
            if n <= 2 {
                let result = or_blank(&o.result);
                let mut s: String = "[AUTO-FIX] The command FAILED (attempt ".to_owned();
                s.push_str(&text::number(n as u64));
                s.push_str("/2). Do NOT claim success. The error was:\n");
                s.push_str(&text::take_chars(&result, 800));
                s.push_str("\n\nRead the error, identify the bug, and fix it.");
                self.say_plain("user", s);
                CommandStep::Done
            } else {
                CommandStep::Rethink
            }
        } else {
            if shell && !o.failed {
                self.attempts.set("__bash", 0);
            }
            CommandStep::Done
        }
    }

    /// Announces another strategy for a failing command.
    pub fn rethink(&mut self, instruction: &str)
        ensures
            final(self)@ == rethought(old(self)@, instruction@),
    {
        let mut s: String =
            "[DECOMPOSE] The command has failed 3 times. STOP retrying the same approach.\n\n".to_owned();
        s.push_str(instruction);
        self.say_plain("user", s);
        self.attempts.set("__bash", 0);
    }
}

// ---------------------------------------------------------------------------
// The end of a round
// ---------------------------------------------------------------------------

pub const NUDGE_TAIL: &'static str =
    " consecutive rounds reading files \
     without making any changes. You already have enough information. \
     STOP reading — make a concrete edit RIGHT NOW. Call patch or \
     write_file to modify a file. Do not call read_file, bash, \
     graph_search, or any other read-only tool until you have made \
     at least one actual change.";

pub open spec fn nudge_text(n: u32) -> Seq<char> {
    "[SYSTEM] You have spent "@ + text::decimal(n as nat) + NUDGE_TAIL@
}

/// A round that got something done.
pub open spec fn progressed(b: Batch) -> bool {
    b.mutating || b.contract || b.active_bash || b.fresh_read
}

/// `t` at the end of a round of calls, and after how many idle rounds the model
/// was pushed to act: two before the first change, six after.
pub open spec fn round_ended(t: gate::TurnText) -> (gate::TurnText, Option<u32>) {
    let calm = gate::TurnText { text_streak: 0, ..t };
    if progressed(t.batch) {
        (
            gate::TurnText {
                session: gate::SessionText { readonly_rounds: 0, ..calm.session },
                ..calm
            },
            None,
        )
    } else {
        let n = tally::one_more(t.session.readonly_rounds);
        let threshold: u32 = if t.session.mutations == 0 {
            2
        } else {
            6
        };
        if n >= threshold {
            (
                gate::said(
                    gate::TurnText {
                        session: gate::SessionText { readonly_rounds: 0, ..calm.session },
                        ..calm
                    },
                    history::plain("user"@, nudge_text(n)),
                ),
                Some(n),
            )
        } else {
            (
                gate::TurnText {
                    session: gate::SessionText { readonly_rounds: n, ..calm.session },
                    ..calm
                },
                None,
            )
        }
    }
}

/// The session after a turn: idle turns are counted too.
pub open spec fn turn_closed(t: gate::TurnText) -> gate::SessionText {
    gate::SessionText {
        readonly_rounds: if t.changed {
            0
        } else {
            tally::one_more(t.session.readonly_rounds)
        },
        ..t.session
    }
}

impl Turn {
    /// Closes a round of calls; says after how many idle rounds the model was
    /// pushed to act.
    pub fn end_round(&mut self) -> (nudged: Option<u32>)
        ensures
            (final(self)@, nudged) == round_ended(old(self)@),
    {
        self.text_streak = 0;
        let b = self.batch;
        if b.mutating || b.contract || b.active_bash || b.fresh_read {
            self.session.readonly_rounds = 0;
            return None;
        }
        let n = more(self.session.readonly_rounds);
        let threshold: u32 = if self.session.mutations == 0 {
            2
        } else {
            6
        };
        if n >= threshold {
            self.session.readonly_rounds = 0;
            let mut s: String = "[SYSTEM] You have spent ".to_owned();
            s.push_str(&text::number(n as u64));
            s.push_str(NUDGE_TAIL);
            self.say_plain("user", s);
            Some(n)
        } else {
            self.session.readonly_rounds = n;
            None
        }
    }

    /// Closes the turn and hands the session back.
    pub fn close(self) -> (s: Session)
        ensures
            s@ == turn_closed(self@),
    {
        let mut s = self.session;
        if self.changed {
            s.readonly_rounds = 0;
        } else {
            s.readonly_rounds = more(s.readonly_rounds);
        }
        s
    }
}

// ---------------------------------------------------------------------------
// Laws
// ---------------------------------------------------------------------------

/// A call that was made three times with the same arguments is not run again,
/// unless it reads a path that was changed since.
pub proof fn law_repeats_are_blocked(
    t: gate::TurnText,
    c: gate::CallFacts,
    contract_on: bool,
    has_contract: bool,
    talk: bool,
    bash_read_only: bool,
    patch_blocked: Option<Seq<char>>,
)
    requires
        tally::count_of(t.session.repeats, gate::repeat_key(c.name, c.arguments)) >= 3,
        !(c.name == "read_file"@ && c.path is Some && t.session.mutated.contains(c.path->0)),
    ensures
        !(gate::admitted(
            t,
            c,
            contract_on,
            has_contract,
            talk,
            bash_read_only,
            patch_blocked,
        ).1 is Run),
{
}

/// A turn refuses calls for want of a contract three times at most.
pub proof fn law_refusals_are_bounded(
    t: gate::TurnText,
    c: gate::CallFacts,
    contract_on: bool,
    has_contract: bool,
    talk: bool,
    bash_read_only: bool,
    patch_blocked: Option<Seq<char>>,
)
    ensures
        ({
            let (after, r) = gate::admitted(
                t,
                c,
                contract_on,
                has_contract,
                talk,
                bash_read_only,
                patch_blocked,
            );
            &&& r is Refused ==> t.refusals < 3 && after.refusals == t.refusals + 1
            &&& after.refusals >= t.refusals
        }),
{
}

/// A call that changes something is not run while a contract is still to be
/// proposed and refusals are left.
pub proof fn law_gate_holds(
    t: gate::TurnText,
    c: gate::CallFacts,
    bash_read_only: bool,
    patch_blocked: Option<Seq<char>>,
)
    requires
        gate::mutates(c.name, bash_read_only),
        !gate::is_contract_tool(c.name),
        t.refusals < 3,
    ensures
        gate::admitted(t, c, true, false, false, bash_read_only, patch_blocked).1 is Refused,
{
}

/// Once a path is changed, reading it starts with a fresh count, whatever the
/// count was.
pub proof fn law_change_allows_reread(t: gate::TurnText, path: Seq<char>, c: gate::CallFacts)
    requires
        c.name == "read_file"@,
        c.path == Some(path),
    ensures
        gate::admitted(
            after_edit(t, Some(path)),
            c,
            false,
            false,
            false,
            false,
            None,
        ).1 == (gate::Admission::Run { unguarded: false }),
{
    reveal_strlit("read_file");
    reveal_strlit("bash");
    reveal_strlit("patch");
    reveal_strlit("read_and_patch");
    reveal_strlit("memory_remember");
    reveal_strlit("memory_forget");
    reveal_strlit("mark_assertion");
    assert("read_file"@.len() == 9 && "bash"@.len() == 4 && "patch"@.len() == 5);
    assert("read_file"@[0] == 'r' && "memory_remember"@.len() == 15 && "memory_forget"@.len() == 13
        && "mark_assertion"@.len() == 14 && "read_and_patch"@.len() == 14);
}

/// Once a file is changed, no shell command that was tracked before is held
/// against the model.
pub proof fn law_change_forgives_commands(t: gate::TurnText, path: Option<Seq<char>>, key: Seq<char>)
    requires
        t.session.bash_keys.contains(key),
    ensures
        tally::count_of(after_edit(t, path).session.repeats, key) == 0,
{
}

/// A turn never has more than two blocked calls in a row within one reply: at
/// the second one the rest of the reply is dropped.
pub proof fn law_second_block_stops(t: gate::TurnText)
    requires
        t.blocks >= 1,
    ensures
        gate::blocked(t).1 == (gate::Admission::Blocked { stop: true }),
{
}

/// What a tool answered reaches the model: the next message of the conversation
/// answers the call by its id, and holds the result or, without a result, the
/// error, in full when there is room for it. What was said before stays.
pub proof fn law_answer_reaches_the_model(
    t: gate::TurnText,
    c: gate::CallFacts,
    o: OutcomeFacts,
    p: Pressure,
)
    ensures
        ({
            let h = t.session.history;
            let after = answered(t, c, o, p).session.history;
            let m = after[h.len() as int];
            let room: nat = match p {
                Pressure::Low => 16_000,
                Pressure::Medium => 8_000,
                Pressure::High => 4_000,
            };
            &&& after.len() > h.len()
            &&& after.take(h.len() as int) == h
            &&& m.role == Some("tool"@)
            &&& m.tool_call_id == Some(c.id)
            &&& m.calls is Absent
            &&& m.extra is None
            &&& forall|s: Seq<char>|
                #![trigger text::utf8_len(s)]
                (o.result == Some(s) || (o.result is None && o.error == Some(s))) ==> {
                    &&& text::utf8_len(s) <= room ==> m.content == history::ContentText::Text(s)
                    &&& text::utf8_len(s) > room ==> m.content == history::ContentText::Text(
                        tools::capped(s, p),
                    )
                }
            &&& o.result is None && o.error is None ==> m.content == history::ContentText::Text(
                Seq::empty(),
            )
        }),
{
    let h = t.session.history;
    let after = answered(t, c, o, p).session.history;
    assert(after.take(h.len() as int) =~= h);
    if o.result is Some {
        tools::law_results_are_kept(o.result->0, p);
    } else if o.error is Some {
        tools::law_results_are_kept(o.error->0, p);
    } else {
        tools::law_results_are_kept(Seq::empty(), p);
    }
}

/// A tool that fails twice in a row is followed by one hint on it, and by
/// nothing at any other time. An exit code of 1 of a command is no failure, and
/// a success ends the row.
pub proof fn law_hint_at_second_failure(
    t: gate::TurnText,
    c: gate::CallFacts,
    o: OutcomeFacts,
    p: Pressure,
)
    ensures
        ({
            let h = t.session.history;
            let after = answered(t, c, o, p);
            let fails = o.failed && !((c.name == "bash"@ || c.name == "run"@) && o.error == Some(
                "Exit code 1"@,
            ));
            let before: int = if t.failures.contains_key(c.name) {
                t.failures[c.name] as int
            } else {
                0
            };
            &&& fails && before < u32::MAX ==> after.failures == t.failures.insert(
                c.name,
                (before + 1) as u32,
            )
            &&& !fails ==> after.failures == t.failures.remove(c.name)
            &&& after.session.history.len() == h.len() + (if fails && before == 1 {
                2int
            } else {
                1
            })
            &&& fails && before == 1 ==> {
                let m = after.session.history.last();
                &&& m.role == Some("user"@)
                &&& m.text() matches Some(s) && text::has(s, c.name)
            }
            &&& after.attempts == t.attempts && after.calls == t.calls && after.edited == t.edited
            &&& after.session.repeats == t.session.repeats
            &&& after.session.mutated == t.session.mutated
        }),
{
    reveal_strlit("Exit code 1");
    let s = failure_text(c.name);
    let head = "[SYSTEM] `"@;
    assert(s.subrange(head.len() as int, (head.len() + c.name.len()) as int) =~= c.name);
    assert(text::at(s, c.name, head.len() as int));
}

/// A change of a file is noted as one, and a call that failed is not: the turn
/// and the session have changed something, the path may be read again, it is
/// listed among those that were changed, and the shell commands seen before are
/// forgotten.
pub proof fn law_changes_are_noted(t: gate::TurnText, c: gate::CallFacts, o: OutcomeFacts)
    requires
        c.name == "write_file"@ || c.name == "patch"@ || c.name == "read_and_patch"@ || c.name
            == "create_file"@ || c.name == "move_file"@ || c.name == "delete_file"@ || c.name
            == "append_file"@,
    ensures
        ({
            let r = noted(t, c, o);
            &&& !o.failed ==> {
                &&& r.changed
                &&& r.batch.mutating
                &&& t.session.mutations < u32::MAX ==> r.session.mutations == t.session.mutations + 1
                &&& forall|k: Seq<char>| #[trigger]
                    r.session.repeats.contains_key(k) <==> t.session.repeats.contains_key(k)
                        && !t.session.bash_keys.contains(k)
                &&& forall|k: Seq<char>| !(#[trigger] r.session.bash_keys.contains(k))
                &&& c.path matches Some(p) ==> r.session.mutated.contains(p) && r.edited
                    == t.edited.push(p)
                &&& c.path is None ==> r.edited == t.edited && r.session.mutated
                    == t.session.mutated
            }
            &&& o.failed ==> r.changed == t.changed && r.batch == t.batch && r.edited == t.edited
                && r.session.mutations == t.session.mutations && r.session.mutated
                == t.session.mutated && r.session.repeats == t.session.repeats
                && r.session.bash_keys == t.session.bash_keys
            &&& r.blocks == 0
        }),
{
    reveal_strlit("write_file");
    reveal_strlit("patch");
    reveal_strlit("read_and_patch");
    reveal_strlit("create_file");
    reveal_strlit("move_file");
    reveal_strlit("delete_file");
    reveal_strlit("append_file");
    reveal_strlit("read_file");
    reveal_strlit("select_category");
    assert("write_file"@.len() == 10 && "patch"@.len() == 5 && "read_and_patch"@.len() == 14
        && "create_file"@.len() == 11 && "move_file"@.len() == 9 && "delete_file"@.len() == 11
        && "append_file"@.len() == 11 && "read_file"@.len() == 9 && "select_category"@.len() == 15);
    assert("move_file"@[0] == 'm' && "read_file"@[0] == 'r');
}

/// Looking at something changes nothing: the turn has not changed a file by a
/// tool that only reads, searches or runs. A read that brought something new is
/// progress, and one that says that nothing changed is none.
pub proof fn law_reads_are_noted(t: gate::TurnText, c: gate::CallFacts, o: OutcomeFacts)
    requires
        c.name == "read_file"@ || c.name == "bash"@ || c.name == "search"@,
    ensures
        ({
            let r = noted(t, c, o);
            &&& r.changed == t.changed && r.edited == t.edited && r.session == t.session
            &&& r.batch.mutating == t.batch.mutating
            &&& c.name == "read_file"@ && !o.failed && !(o.result matches Some(s) && text::has(
                s,
                "unchanged since last read"@,
            )) ==> r.batch.fresh_read
            &&& c.name != "read_file"@ || o.failed || (o.result matches Some(s) && text::has(
                s,
                "unchanged since last read"@,
            )) ==> r.batch.fresh_read == t.batch.fresh_read
        }),
{
    reveal_strlit("write_file");
    reveal_strlit("patch");
    reveal_strlit("read_and_patch");
    reveal_strlit("create_file");
    reveal_strlit("move_file");
    reveal_strlit("delete_file");
    reveal_strlit("append_file");
    reveal_strlit("read_file");
    reveal_strlit("select_category");
    reveal_strlit("bash");
    reveal_strlit("search");
    assert("write_file"@.len() == 10 && "patch"@.len() == 5 && "read_and_patch"@.len() == 14
        && "create_file"@.len() == 11 && "move_file"@.len() == 9 && "delete_file"@.len() == 11
        && "append_file"@.len() == 11 && "read_file"@.len() == 9 && "select_category"@.len() == 15
        && "bash"@.len() == 4 && "search"@.len() == 6);
    assert("move_file"@[0] == 'm' && "read_file"@[0] == 'r');
}

/// The category that the model picks is open from then on.
pub proof fn law_category_is_taken(t: gate::TurnText, c: gate::CallFacts, o: OutcomeFacts)
    requires
        c.name == "select_category"@,
        o.category is Some,
    ensures
        noted(t, c, o).session.category == o.category,
        noted(t, c, o).session.history == t.session.history,
{
    reveal_strlit("select_category");
    reveal_strlit("patch");
    assert("select_category"@.len() == 15 && "patch"@.len() == 5);
}

/// When a patch did not find its text, the model is told at once, and which file
/// it was; at no other time something is said here.
pub proof fn law_missed_patch_is_explained(t: gate::TurnText, c: gate::CallFacts, o: OutcomeFacts)
    ensures
        ({
            let h = t.session.history;
            let r = noted(t, c, o).session.history;
            let missed = c.name == "patch"@ && (o.error matches Some(e) && text::has(
                e,
                "not found"@,
            ));
            &&& missed ==> r.len() == h.len() + 1 && r.drop_last() == h && r.last().role == Some(
                "user"@,
            ) && (c.path matches Some(p) ==> (r.last().text() matches Some(s) && text::has(s, p)))
            &&& !missed ==> r == h
        }),
{
    let h = t.session.history;
    let r = noted(t, c, o).session.history;
    reveal_strlit("not found");
    if c.name == "patch"@ && text::has(error_text(o), "not found"@) {
        assert(r.drop_last() =~= h);
        let p = tools::or_empty(c.path);
        let s = not_found_text(p);
        let a = "[SYSTEM] patch failed: old_str not found in "@;
        assert(s.subrange(a.len() as int, (a.len() + p.len()) as int) =~= p);
        assert(text::at(s, p, a.len() as int));
        if o.error is None {
            let i = choose|i: int| text::at(error_text(o), "not found"@, i);
            assert("not found"@.len() == 9);
        }
    }
}

/// The first failure of a command, and the second one in a row, is put to the
/// model with the beginning of what the command wrote; at the third another
/// strategy is asked for. A success of a shell command starts the count anew.
pub proof fn law_failed_commands_are_followed_up(
    t: gate::TurnText,
    c: gate::CallFacts,
    o: OutcomeFacts,
)
    requires
        c.name == "bash"@ || c.name == "run"@ || c.name == "create_and_run"@,
    ensures
        ({
            let (r, step) = command_noted(t, c, o);
            let h = t.session.history;
            let before: int = if t.attempts.contains_key("__bash"@) {
                t.attempts["__bash"@] as int
            } else {
                0
            };
            &&& o.failed && before < 2 ==> {
                &&& step == CommandStep::Done
                &&& r.session.history.len() == h.len() + 1
                &&& r.session.history.drop_last() == h
                &&& r.session.history.last().role == Some("user"@)
                &&& r.session.history.last().text() matches Some(s) && text::has(
                    s,
                    text::head(
                        match o.result {
                            Some(x) => x,
                            None => Seq::empty(),
                        },
                        800,
                    ),
                )
                &&& r.attempts == t.attempts.insert("__bash"@, (before + 1) as u32)
            }
            &&& o.failed && before >= 2 ==> step == CommandStep::Rethink && r.session.history == h
            &&& !o.failed ==> step == CommandStep::Done && r.session.history == h
            &&& !o.failed && (c.name == "bash"@ || c.name == "run"@) ==> r.attempts
                == t.attempts.insert("__bash"@, 0)
        }),
{
    let (r, step) = command_noted(t, c, o);
    let h = t.session.history;
    let n = tally::one_more(tally::count_of(t.attempts, "__bash"@));
    if o.failed && n <= 2 {
        let x = text::head(tools::or_empty(o.result), 800);
        let s = autofix_text(n, tools::or_empty(o.result));
        let a = "[AUTO-FIX] The command FAILED (attempt "@ + text::decimal(n as nat)
            + "/2). Do NOT claim success. The error was:\n"@;
        assert(s.subrange(a.len() as int, (a.len() + x.len()) as int) =~= x);
        assert(text::at(s, x, a.len() as int));
        assert(r.session.history.drop_last() =~= h);
    }
}

/// What is wrong with a file that was changed is put to the model, with the file
/// and every error; one that is accepted is passed over; and a new strategy is
/// passed on as it was given.
pub proof fn law_checks_are_put_to_the_model(
    t: gate::TurnText,
    path: Seq<char>,
    errors: Seq<Seq<char>>,
    instruction: Seq<char>,
    lines: u64,
    has_tests: bool,
)
    ensures
        ({
            let h = t.session.history;
            let before: int = if t.attempts.contains_key(path) {
                t.attempts[path] as int
            } else {
                0
            };
            let a = verified(t, path, VerdictFacts::Accept, has_tests);
            let r = verified(t, path, VerdictFacts::Retry { errors }, has_tests);
            let d = verified(t, path, VerdictFacts::Decompose { instruction, lines }, has_tests);
            &&& a.session == t.session
            &&& tally::count_of(a.attempts, path) == 0
            &&& r.session.history.len() == h.len() + 1 && r.session.history.drop_last() == h
            &&& r.session.history.last().role == Some("user"@)
            &&& r.session.history.last().text() matches Some(s) && text::has(s, path) && text::has(
                s,
                text::join(errors, "\n"@),
            )
            &&& before < u32::MAX ==> tally::count_of(r.attempts, path) == before + 1
            &&& d.session.history.len() == h.len() + 1 && d.session.history.drop_last() == h
            &&& d.session.history.last().role == Some("user"@)
            &&& d.session.history.last().text() matches Some(s) && text::has(s, instruction)
            &&& tally::count_of(d.attempts, path) == 0
        }),
{
    let h = t.session.history;
    let r = verified(t, path, VerdictFacts::Retry { errors }, has_tests);
    let d = verified(t, path, VerdictFacts::Decompose { instruction, lines }, has_tests);
    assert(r.session.history.drop_last() =~= h);
    assert(d.session.history.drop_last() =~= h);
    let n = tally::one_more(tally::count_of(t.attempts, path));
    let s = fix_text(path, n, errors, has_tests);
    let a = "[AUTO-VALIDATE] Errors in "@;
    assert(s.subrange(a.len() as int, (a.len() + path.len()) as int) =~= path);
    assert(text::at(s, path, a.len() as int));
    let b = a + path + " (attempt "@ + text::decimal(n as nat) + "/4):\n"@;
    let e = text::join(errors, "\n"@);
    assert(s.subrange(b.len() as int, (b.len() + e.len()) as int) =~= e);
    assert(text::at(s, e, b.len() as int));
    let x = decompose_text(instruction, lines);
    let c = "[DECOMPOSE] After 4 failed fix attempts, changing strategy.\n\n"@;
    assert(x.subrange(c.len() as int, (c.len() + instruction.len()) as int) =~= instruction);
    assert(text::at(x, instruction, c.len() as int));
}

/// Rounds that get nothing done are counted, and the model is pushed to act
/// after two of them while nothing was changed in the session, and after six
/// later on; then, and after a round that got something done, the count starts
/// anew.
pub proof fn law_idle_rounds_are_nudged(t: gate::TurnText)
    requires
        t.session.readonly_rounds < u32::MAX,
    ensures
        ({
            let (r, nudged) = round_ended(t);
            let b = t.batch;
            let idle = !b.mutating && !b.contract && !b.active_bash && !b.fresh_read;
            let n = t.session.readonly_rounds + 1;
            let enough: int = if t.session.mutations == 0 {
                2
            } else {
                6
            };
            &&& r.text_streak == 0
            &&& !idle ==> nudged is None && r.session.readonly_rounds == 0 && r.session.history
                == t.session.history
            &&& idle && n < enough ==> nudged is None && r.session.readonly_rounds == n
                && r.session.history == t.session.history
            &&& idle && n >= enough ==> nudged == Some(n as u32) && r.session.readonly_rounds == 0
                && r.session.history.len() == t.session.history.len() + 1
                && r.session.history.drop_last() == t.session.history
                && r.session.history.last().role == Some("user"@)
        }),
{
    let (r, nudged) = round_ended(t);
    if nudged is Some {
        assert(r.session.history.drop_last() =~= t.session.history);
    }
}

/// The exit code that is watched is the one that the error of a command names,
/// but for 1, which only tells something; an error that names none counts as 2,
/// and no error as 0.
pub proof fn law_exit_codes_are_read(o: OutcomeFacts, n: i32)
    ensures
        o.error == Some("Exit code "@ + text::decimal_int(n as int)) ==> exit_code(o) == (if n == 1 {
            0int
        } else {
            n as int
        }),
        o.error is None ==> exit_code(o) == (if o.failed {
            2int
        } else {
            0
        }),
{
    let p = "Exit code "@;
    let d = text::decimal_int(n as int);
    text::law_affixes(p, d, d);
    let m: nat = if n < 0 {
        (-(n as int)) as nat
    } else {
        n as nat
    };
    text::law_decimal(m);
    text::law_numbers_are_read_back(m, 0x7fff_ffff);
    if n < 0 {
        assert(d.drop_first() =~= text::decimal(m));
    } else {
        assert(text::is_digit(d[0]));
    }
    assert(parsed_exit(d) == Some(n as int));
}

/// A file that was written or patched is checked, and no other.
pub proof fn law_what_is_checked(c: gate::CallFacts, o: OutcomeFacts)
    ensures
        (c.name == "write_file"@ || c.name == "patch"@) && !o.failed && c.path is Some
            <==> is_checked(c, o),
{
}

/// The turn hands the session back as it left it; a turn that changed nothing
/// counts as an idle round.
pub proof fn law_turn_is_closed(t: gate::TurnText)
    ensures
        turn_closed(t).history == t.session.history,
        turn_closed(t).repeats == t.session.repeats,
        turn_closed(t).mutated == t.session.mutated,
        turn_closed(t).mutations == t.session.mutations,
        turn_closed(t).category == t.session.category,
        t.changed ==> turn_closed(t).readonly_rounds == 0,
        !t.changed && t.session.readonly_rounds < u32::MAX ==> turn_closed(t).readonly_rounds
            == t.session.readonly_rounds + 1,
{
}

/// What the model is told names the file, the errors, the issues and the
/// attempt.
pub proof fn law_follow_ups_say_what_is_wrong(
    path: Seq<char>,
    attempt: u32,
    v: Seq<Seq<char>>,
    tests: bool,
    i: int,
    result: Seq<char>,
)
    requires
        0 <= i < v.len(),
    ensures
        text::has(fix_text(path, attempt, v, tests), v[i]),
        text::starts(fix_text(path, attempt, v, tests), "[AUTO-VALIDATE] Errors in "@ + path),
        text::has(review_text(path, v), v[i]),
        text::starts(review_text(path, v), "[SEMANTIC-REVIEW] The edit to "@ + path),
        result.len() <= 800 ==> text::has(autofix_text(attempt, result), result),
        text::starts(not_found_text(path), "[SYSTEM] patch failed: old_str not found in "@ + path),
{
    let list = text::join(v, "\n"@);
    text::lemma_joined_part(v, "\n"@, i);
    let f = fix_text(path, attempt, v, tests);
    let a = "[AUTO-VALIDATE] Errors in "@ + path;
    let n = " (attempt "@ + text::decimal(attempt as nat) + "/4):\n"@;
    let tail = f.skip((a + n + list).len() as int);
    assert(f =~= (a + n) + list + tail);
    text::lemma_has_within(f, a + n, list, tail, v[i]);
    assert(f =~= a + (n + list + tail));
    text::law_affixes(a, n + list + tail, Seq::empty());
    lemma_review(path, v, i);
    text::law_head(result, 800);
    if result.len() <= 800 {
        let x = "[AUTO-FIX] The command FAILED (attempt "@ + text::decimal(attempt as nat)
            + "/2). Do NOT claim success. The error was:\n"@;
        text::law_affixes(result, x, "\n\nRead the error, identify the bug, and fix it."@);
    }
    let h = "[SYSTEM] patch failed: old_str not found in "@ + path;
    text::law_affixes(h, NOT_FOUND_TAIL@, Seq::empty());
}

proof fn lemma_review(path: Seq<char>, v: Seq<Seq<char>>, i: int)
    requires
        0 <= i < v.len(),
    ensures
        text::has(review_text(path, v), v[i]),
        text::starts(review_text(path, v), "[SEMANTIC-REVIEW] The edit to "@ + path),
{
    let list = text::join(v, "\n  - "@);
    text::lemma_joined_part(v, "\n  - "@, i);
    let r = review_text(path, v);
    let a = "[SEMANTIC-REVIEW] The edit to "@ + path;
    let b = " may need follow-up:\n  - "@;
    assert(r =~= (a + b) + list + Seq::empty());
    text::lemma_has_within(r, a + b, list, Seq::empty(), v[i]);
    assert(r =~= a + (b + list));
    text::law_affixes(a, b + list, Seq::empty());
}

/// Which tools change files, and which run commands.
pub proof fn law_which_tools_change(name: Seq<char>)
    ensures
        edits(name) <==> seq![
            "write_file"@,
            "patch"@,
            "read_and_patch"@,
            "create_file"@,
            "move_file"@,
            "delete_file"@,
            "append_file"@,
        ].contains(name),
        is_command(name) <==> seq!["bash"@, "run"@, "create_and_run"@].contains(name),
{
    let v = seq![
        "write_file"@,
        "patch"@,
        "read_and_patch"@,
        "create_file"@,
        "move_file"@,
        "delete_file"@,
        "append_file"@,
    ];
    assert(v[0] == "write_file"@ && v[1] == "patch"@ && v[2] == "read_and_patch"@);
    assert(v[3] == "create_file"@ && v[4] == "move_file"@ && v[5] == "delete_file"@);
    assert(v[6] == "append_file"@);
    let w = seq!["bash"@, "run"@, "create_and_run"@];
    assert(w[0] == "bash"@ && w[1] == "run"@ && w[2] == "create_and_run"@);
}

} // verus!
