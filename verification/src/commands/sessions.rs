//! The answers of commands on sessions, edits and skills.

use vstd::prelude::*;

use crate::agent::history;
use crate::agent::history::{Content, Message};
use crate::commands::{word, word_else, words_after};
use crate::commands;
use crate::outside;
use crate::text;

verus! {

// ---------------------------------------------------------------------------
// Taking back edits
// ---------------------------------------------------------------------------

/// What is to be taken back.
#[derive(Debug, Clone, Copy, PartialEq, Eq, Structural)]
pub enum UndoCommand {
    List,
    All,
    Edit(u64),
    Last,
}

/// What is to be taken back. A number beyond sixty-four bits stands for zero.
pub open spec fn undo_plan(rest: Seq<Seq<char>>) -> UndoCommand {
    let sub = commands::word_or(rest, 0, ""@);
    if sub == "list"@ {
        UndoCommand::List
    } else if sub == "all"@ {
        UndoCommand::All
    } else if text::all_digits(sub) {
        UndoCommand::Edit(
            match text::parsed(sub, u64::MAX as nat) {
                Some(n) => n as u64,
                None => 0,
            },
        )
    } else {
        UndoCommand::Last
    }
}

fn is_number(s: &str) -> (r: bool)
    ensures
        r == text::all_digits(s@),
{
    let v = text::chars(s);
    if v.len() == 0 {
        return false;
    }
    let mut i: usize = 0;
    while i < v.len()
        invariant
            i <= v.len(),
            v@ == s@,
            forall|k: int| 0 <= k < i ==> text::is_digit(#[trigger] v@[k]),
        decreases v.len() - i,
    {
        if !('0' <= v[i] && v[i] <= '9') {
            return false;
        }
        i = i + 1;
    }
    true
}

/// What is to be taken back.
pub fn plan_undo(rest: &Vec<String>) -> (r: UndoCommand)
    ensures
        r == undo_plan(text::texts(rest@)),
{
    let sub = word_else(rest, 0, "");
    if text::same(&sub, "list") {
        UndoCommand::List
    } else if text::same(&sub, "all") {
        UndoCommand::All
    } else if is_number(&sub) {
        match text::parse_number(&sub, u64::MAX) {
            Some(n) => UndoCommand::Edit(n),
            None => UndoCommand::Edit(0),
        }
    } else {
        UndoCommand::Last
    }
}

/// An edit that can be taken back.
#[derive(Debug)]
pub struct UndoEntry {
    pub id: u64,
    pub path: String,
    pub kind: String,
    pub age_secs: u64,
}

pub open spec fn undo_lines(v: Seq<UndoEntry>) -> Seq<Seq<char>> {
    v.map_values(
        |e: UndoEntry|
            "    #"@ + text::decimal(e.id as nat) + " "@ + e.path@ + " ("@ + e.kind@ + ", "@
                + text::decimal(e.age_secs as nat) + "s ago)\n"@,
    )
}

/// The edits that can be taken back.
pub fn undo_list(v: &Vec<UndoEntry>) -> (r: String)
    ensures
        r@ == (if v@.len() == 0 {
            "  No edits to undo.\n\n"@
        } else {
            "  Recent edits:\n"@ + text::join(undo_lines(v@), ""@)
                + "\n  /undo       Revert last edit\n  /undo <id>  Revert specific edit\n  /undo all   Git revert all changes\n\n"@
        }),
{
    if v.len() == 0 {
        return "  No edits to undo.\n\n".to_owned();
    }
    let ghost wanted = undo_lines(v@);
    let mut lines: Vec<String> = Vec::new();
    let mut i: usize = 0;
    while i < v.len()
        invariant
            i <= v.len(),
            lines.len() == i,
            wanted == undo_lines(v@),
            forall|k: int| 0 <= k < i ==> (#[trigger] lines@[k])@ == wanted[k],
        decreases v.len() - i,
    {
        let a = text::number(v[i].id);
        let b = text::number(v[i].age_secs);
        let line = text::cat9(
            "    #",
            &a,
            " ",
            &v[i].path,
            " (",
            &v[i].kind,
            ", ",
            &b,
            "s ago)\n",
        );
        assert(line@ == wanted[i as int]);
        lines.push(line);
        i = i + 1;
    }
    assert(text::texts(lines@) =~= wanted);
    let body = text::join_with(&lines, "");
    text::cat3(
        "  Recent edits:\n",
        &body,
        "\n  /undo       Revert last edit\n  /undo <id>  Revert specific edit\n  /undo all   Git revert all changes\n\n",
    )
}

/// What became of an edit that was to be taken back.
#[derive(Debug)]
pub struct Undone {
    pub reverted: Option<String>,
    pub action: String,
    pub error: Option<String>,
}

pub open spec fn undone_text(u: Option<Undone>, none: Seq<char>) -> Seq<char> {
    match u {
        Some(u) => match u.error {
            None => "  ✓ Reverted "@ + (match u.reverted {
                Some(p) => p@,
                None => ""@,
            }) + ": "@ + u.action@ + "\n\n"@,
            Some(e) => "  "@ + e@ + "\n\n"@,
        },
        None => none,
    }
}

/// The answer when an edit, the last one or a certain one, was to be taken
/// back.
pub fn undo_reply(u: &Option<Undone>, last: bool) -> (r: String)
    ensures
        r@ == undone_text(
            *u,
            if last {
                "  No edits to undo. Use /undo all for git revert.\n\n"@
            } else {
                "  Edit not found.\n\n"@
            },
        ),
{
    match u {
        Some(u) => match &u.error {
            None => {
                let path: String = match &u.reverted {
                    Some(p) => p.clone(),
                    None => "".to_owned(),
                };
                text::cat5("  ✓ Reverted ", &path, ": ", &u.action, "\n\n")
            },
            Some(e) => text::cat3("  ", e, "\n\n"),
        },
        None => if last {
            "  No edits to undo. Use /undo all for git revert.\n\n".to_owned()
        } else {
            "  Edit not found.\n\n".to_owned()
        },
    }
}

/// The answer when all changes were to be taken back: whether git did it, or
/// why it could not be run.
pub fn undo_all_reply(outcome: &Result<bool, String>) -> (r: String)
    ensures
        r@ == match *outcome {
            Ok(true) => "  ✓ Reverted all uncommitted changes.\n\n"@,
            Ok(false) => "  Not a git repo (or git checkout failed).\n\n"@,
            Err(e) => "  ✗ "@ + e@ + "\n\n"@,
        },
{
    match outcome {
        Ok(true) => "  ✓ Reverted all uncommitted changes.\n\n".to_owned(),
        Ok(false) => "  Not a git repo (or git checkout failed).\n\n".to_owned(),
        Err(e) => text::cat3("  ✗ ", e, "\n\n"),
    }
}

// ---------------------------------------------------------------------------
// Sharing
// ---------------------------------------------------------------------------

/// How a session is shared.
#[derive(Debug)]
pub enum ShareCommand {
    Gist,
    Json,
    Html,
    Markdown,
    /// To a file of the usual name.
    Plain,
    /// To a file, in the form that its name asks for.
    Path(String),
}

/// How a session is shared.
pub fn plan_share(rest: &Vec<String>) -> (r: ShareCommand)
    ensures
        ({
            let sub = commands::word_or(text::texts(rest@), 0, ""@);
            if sub == "gist"@ {
                r is Gist
            } else if sub == "json"@ {
                r is Json
            } else if sub == "html"@ {
                r is Html
            } else if sub == "markdown"@ || sub == "md"@ {
                r is Markdown
            } else if sub == ""@ {
                r is Plain
            } else {
                r matches ShareCommand::Path(p) && p@ == sub
            }
        }),
{
    let sub = word_else(rest, 0, "");
    if text::same(&sub, "gist") {
        ShareCommand::Gist
    } else if text::same(&sub, "json") {
        ShareCommand::Json
    } else if text::same(&sub, "html") {
        ShareCommand::Html
    } else if text::same(&sub, "markdown") || text::same(&sub, "md") {
        ShareCommand::Markdown
    } else if text::same(&sub, "") {
        ShareCommand::Plain
    } else {
        ShareCommand::Path(sub)
    }
}

/// The answer when there is nothing to share.
pub fn refuse_share(h: &Vec<Message>) -> (r: Option<&'static str>)
    ensures
        if h@.len() == 0 {
            r matches Some(s) && s@ == "  No session to share.\n\n"@
        } else {
            r is None
        },
{
    if h.len() == 0 {
        Some("  No session to share.\n\n")
    } else {
        None
    }
}

/// The usual name of the file for a session that is shared at a time in
/// milliseconds.
pub open spec fn share_name(now: int, extension: Seq<char>) -> Seq<char> {
    "itsy-session-"@ + text::decimal_int(now) + "."@ + extension
}

fn name_share(now: i64, extension: &str) -> (r: String)
    ensures
        r@ == share_name(now as int, extension@),
{
    let n = text::signed_number(now);
    text::cat4("itsy-session-", &n, ".", extension)
}

/// The file to which a session is shared at a time in milliseconds; none when it
/// is published.
pub fn share_file(command: &ShareCommand, now: i64) -> (r: Option<String>)
    ensures
        text::opt_text(r) == match *command {
            ShareCommand::Gist => None,
            ShareCommand::Json => Some(share_name(now as int, "json"@)),
            ShareCommand::Html => Some(share_name(now as int, "html"@)),
            ShareCommand::Markdown | ShareCommand::Plain => Some(share_name(now as int, "md"@)),
            ShareCommand::Path(p) => Some(p@),
        },
{
    match command {
        ShareCommand::Gist => None,
        ShareCommand::Json => Some(name_share(now, "json")),
        ShareCommand::Html => Some(name_share(now, "html")),
        ShareCommand::Markdown | ShareCommand::Plain => Some(name_share(now, "md")),
        ShareCommand::Path(p) => Some(p.clone()),
    }
}

/// The first message of the user, if there is one with a text.
pub open spec fn first_request(h: Seq<history::MessageText>) -> Seq<char>
    decreases h.len(),
{
    if h.len() == 0 {
        Seq::empty()
    } else if h[0].role == Some("user"@) {
        match h[0].content {
            history::ContentText::Text(s) => s,
            _ => Seq::empty(),
        }
    } else {
        first_request(h.drop_first())
    }
}

/// The title of a session that is shared: the start of the first message of the
/// user.
pub fn share_title(h: &Vec<Message>) -> (r: String)
    ensures
        r@ == text::head(first_request(history::messages(h@)), 40),
{
    let ghost all = history::messages(h@);
    let mut i: usize = 0;
    assert(all.skip(0) =~= all);
    while i < h.len()
        invariant
            i <= h.len(),
            all == history::messages(h@),
            first_request(all) == first_request(all.skip(i as int)),
        decreases h.len() - i,
    {
        assert(all.skip(i as int)[0] == h@[i as int]@);
        assert(all.skip(i as int).drop_first() =~= all.skip(i + 1));
        if h[i].has_role("user") {
            return match &h[i].content {
                Content::Text(s) => text::take_chars(s, 40),
                _ => {
                    let e = String::new();
                    assert(e@ =~= text::head(Seq::<char>::empty(), 40));
                    e
                },
            };
        }
        i = i + 1;
    }
    let e = String::new();
    assert(e@ =~= text::head(Seq::<char>::empty(), 40));
    e
}

/// The answer when a session was written to a file, or could not be.
pub fn share_reply(outcome: &Result<String, String>) -> (r: String)
    ensures
        r@ == match *outcome {
            Ok(p) => "  ✓ Exported to "@ + p@ + "\n\n"@,
            Err(e) => "  ✗ "@ + e@ + "\n\n"@,
        },
{
    match outcome {
        Ok(p) => text::cat3("  ✓ Exported to ", p, "\n\n"),
        Err(e) => text::cat3("  ✗ ", e, "\n\n"),
    }
}

/// The answer when a session was published, or could not be.
pub fn gist_reply(success: bool, url: &Option<String>, error: &Option<String>) -> (r: String)
    ensures
        r@ == (if success {
            "  ✓ Shared: "@ + (match *url {
                Some(u) => u@,
                None => "<no url>"@,
            }) + "\n\n"@
        } else {
            "  Failed: "@ + (match *error {
                Some(e) => e@,
                None => "unknown"@,
            }) + "\n\n"@
        }),
{
    if success {
        let u: String = match url {
            Some(u) => u.clone(),
            None => "<no url>".to_owned(),
        };
        text::cat3("  ✓ Shared: ", &u, "\n\n")
    } else {
        let e: String = match error {
            Some(e) => e.clone(),
            None => "unknown".to_owned(),
        };
        text::cat3("  Failed: ", &e, "\n\n")
    }
}

// ---------------------------------------------------------------------------
// Saved sessions
// ---------------------------------------------------------------------------

/// What is asked for of the saved sessions.
#[derive(Debug)]
pub enum SessionsCommand {
    Resume(String),
    New,
    List,
    Say(String),
}

/// What is asked for of the saved sessions.
pub fn plan_sessions(rest: &Vec<String>) -> (r: SessionsCommand)
    ensures
        ({
            let words = text::texts(rest@);
            let sub = commands::word_or(words, 0, ""@);
            if sub == "resume"@ || sub == "load"@ {
                match commands::word_at(words, 1) {
                    Some(id) => r matches SessionsCommand::Resume(s) && s@ == id,
                    None => r matches SessionsCommand::Say(s) && s@
                        == "  Usage: /sessions resume <id>\n\n"@,
                }
            } else if sub == "new"@ {
                r is New
            } else {
                r is List
            }
        }),
{
    let sub = word_else(rest, 0, "");
    if text::same(&sub, "resume") || text::same(&sub, "load") {
        match word(rest, 1) {
            Some(id) => SessionsCommand::Resume(id),
            None => SessionsCommand::Say("  Usage: /sessions resume <id>\n\n".to_owned()),
        }
    } else if text::same(&sub, "new") {
        SessionsCommand::New
    } else {
        SessionsCommand::List
    }
}

pub open spec fn titled(t: Option<Seq<char>>) -> Seq<char> {
    match t {
        Some(s) => s,
        None => "untitled"@,
    }
}

fn title_of(t: &Option<String>) -> (r: String)
    ensures
        r@ == titled(text::opt_text(*t)),
{
    match t {
        Some(s) => s.clone(),
        None => "untitled".to_owned(),
    }
}

/// The answer when a session was resumed with so many messages, or was not
/// there.
pub fn resumed(id: &str, session: &Option<(Option<String>, usize)>) -> (r: String)
    ensures
        r@ == match *session {
            Some((title, count)) => "  ✓ Resumed \""@ + titled(text::opt_text(title)) + "\" ("@
                + text::decimal(count as nat) + " msgs)\n\n"@,
            None => "  Session "@ + id@ + " not found.\n\n"@,
        },
{
    match session {
        Some((title, count)) => {
            let t = title_of(title);
            let n = text::number(*count as u64);
            text::cat5("  ✓ Resumed \"", &t, "\" (", &n, " msgs)\n\n")
        },
        None => text::cat3("  Session ", id, " not found.\n\n"),
    }
}

/// How long ago something was, in minutes, hours or days.
pub open spec fn age_text(minutes: nat) -> Seq<char> {
    if minutes < 60 {
        text::decimal(minutes) + "m ago"@
    } else if minutes < 1440 {
        text::decimal(minutes / 60) + "h ago"@
    } else {
        text::decimal(minutes / 1440) + "d ago"@
    }
}

/// How many whole minutes lie between two times in milliseconds; none when the
/// first comes later.
pub open spec fn minutes_between(updated: int, now: int) -> nat {
    if now > updated {
        ((now - updated) / 60_000) as nat
    } else {
        0
    }
}

/// How long ago something was.
pub fn format_age(updated: i64, now: i64) -> (r: String)
    ensures
        r@ == age_text(minutes_between(updated as int, now as int)),
{
    let m: u64 = if now > updated {
        ((now as i128 - updated as i128) / 60_000) as u64
    } else {
        0
    };
    if m < 60 {
        let n = text::number(m);
        text::cat2(&n, "m ago")
    } else if m < 1440 {
        let n = text::number(m / 60);
        text::cat2(&n, "h ago")
    } else {
        let n = text::number(m / 1440);
        text::cat2(&n, "d ago")
    }
}

/// A saved session. The time of its last change stands as it was written down.
#[derive(Debug)]
pub struct SavedSession {
    pub id: String,
    pub title: Option<String>,
    pub messages: usize,
    pub updated_at: String,
}

/// A saved session as a line. When the time of its last change cannot be read,
/// it was just changed.
pub open spec fn saved_line(s: SavedSession, now: i64) -> Seq<char> {
    "    "@ + text::head(s.id@, 8) + " "@ + titled(text::opt_text(s.title)) + " ("@ + text::decimal(
        s.messages as nat,
    ) + " msgs · "@ + age_text(
        minutes_between(
            match outside::rfc3339_of(s.updated_at@) {
                Some(t) => t as int,
                None => now as int,
            },
            now as int,
        ),
    ) + ")\n"@
}

pub open spec fn saved_lines(v: Seq<SavedSession>, now: i64) -> Seq<Seq<char>> {
    v.map_values(|s: SavedSession| saved_line(s, now))
}

fn format_saved(s: &SavedSession, now: i64) -> (r: String)
    ensures
        r@ == saved_line(*s, now),
{
    let updated: i64 = match outside::rfc3339_millis(&s.updated_at) {
        Some(t) => t,
        None => now,
    };
    let age = format_age(updated, now);
    let short = text::take_chars(&s.id, 8);
    let title = title_of(&s.title);
    let n = text::number(s.messages as u64);
    text::cat9("    ", &short, " ", &title, " (", &n, " msgs · ", &age, ")\n")
}

/// The first saved sessions, as of a time in milliseconds.
pub fn sessions_list(v: &Vec<SavedSession>, now: i64) -> (r: String)
    ensures
        r@ == (if v@.len() == 0 {
            "  No saved sessions.\n\n"@
        } else {
            "  Sessions ("@ + text::decimal(v@.len()) + "):\n"@ + text::join(
                saved_lines(text::leading(v@, 15), now),
                ""@,
            ) + "\n  Resume: /sessions resume <id>\n  New:    /sessions new\n\n"@
        }),
{
    if v.len() == 0 {
        return "  No saved sessions.\n\n".to_owned();
    }
    let ghost wanted = saved_lines(text::leading(v@, 15), now);
    let mut lines: Vec<String> = Vec::new();
    let mut i: usize = 0;
    while i < v.len() && i < 15
        invariant
            i <= v.len(),
            i <= 15,
            lines.len() == i,
            wanted == saved_lines(text::leading(v@, 15), now),
            forall|k: int| 0 <= k < i ==> (#[trigger] lines@[k])@ == wanted[k],
        decreases v.len() - i,
    {
        let line = format_saved(&v[i], now);
        assert(line@ == wanted[i as int]);
        lines.push(line);
        i = i + 1;
    }
    assert(text::texts(lines@) =~= wanted);
    let n = text::number(v.len() as u64);
    let body = text::join_with(&lines, "");
    text::cat5(
        "  Sessions (",
        &n,
        "):\n",
        &body,
        "\n  Resume: /sessions resume <id>\n  New:    /sessions new\n\n",
    )
}

// ---------------------------------------------------------------------------
// Parallel sessions
// ---------------------------------------------------------------------------

/// What is asked for of the parallel sessions.
#[derive(Debug)]
pub enum SessionCommand {
    List,
    New(Option<String>),
    Switch(String),
    Kill(String),
    Say(String),
}

pub ghost enum SessionPlan {
    List,
    New(Option<Seq<char>>),
    Switch(Seq<char>),
    Kill(Seq<char>),
    Say(Seq<char>),
}

impl View for SessionCommand {
    type V = SessionPlan;

    open spec fn view(&self) -> SessionPlan {
        match self {
            SessionCommand::List => SessionPlan::List,
            SessionCommand::New(t) => SessionPlan::New(text::opt_text(*t)),
            SessionCommand::Switch(s) => SessionPlan::Switch(s@),
            SessionCommand::Kill(s) => SessionPlan::Kill(s@),
            SessionCommand::Say(s) => SessionPlan::Say(s@),
        }
    }
}

pub const SESSION_HELP: &'static str =
    "  /session list          Show parallel sessions\n  /session new <task>    Start new session\n  /session switch <id>   Switch focus\n  /session kill <id>     Terminate session\n\n";

/// What is asked for of the parallel sessions.
pub open spec fn session_plan(rest: Seq<Seq<char>>) -> SessionPlan {
    let sub = commands::word_or(rest, 0, "list"@);
    if sub == "list"@ || sub == ""@ {
        SessionPlan::List
    } else if sub == "new"@ {
        SessionPlan::New(
            if rest.len() > 1 {
                Some(commands::words_from(rest, 1))
            } else {
                None
            },
        )
    } else if sub == "switch"@ {
        match commands::word_at(rest, 1) {
            Some(id) => SessionPlan::Switch(id),
            None => SessionPlan::Say("  Usage: /session switch <id>\n\n"@),
        }
    } else if sub == "kill"@ {
        match commands::word_at(rest, 1) {
            Some(id) => SessionPlan::Kill(id),
            None => SessionPlan::Say("  Usage: /session kill <id>\n\n"@),
        }
    } else {
        SessionPlan::Say(SESSION_HELP@)
    }
}

/// What is asked for of the parallel sessions.
pub fn plan_session(rest: &Vec<String>) -> (r: SessionCommand)
    ensures
        r@ == session_plan(text::texts(rest@)),
{
    assert(text::texts(rest@).len() == rest@.len());
    let sub = word_else(rest, 0, "list");
    if text::same(&sub, "list") || text::same(&sub, "") {
        SessionCommand::List
    } else if text::same(&sub, "new") {
        SessionCommand::New(
            if rest.len() > 1 {
                Some(words_after(rest, 1))
            } else {
                None
            },
        )
    } else if text::same(&sub, "switch") {
        match word(rest, 1) {
            Some(id) => SessionCommand::Switch(id),
            None => SessionCommand::Say("  Usage: /session switch <id>\n\n".to_owned()),
        }
    } else if text::same(&sub, "kill") {
        match word(rest, 1) {
            Some(id) => SessionCommand::Kill(id),
            None => SessionCommand::Say("  Usage: /session kill <id>\n\n".to_owned()),
        }
    } else {
        SessionCommand::Say(SESSION_HELP.to_owned())
    }
}

/// A parallel session.
#[derive(Debug)]
pub struct ParallelSession {
    pub id: String,
    pub title: String,
    pub messages: usize,
    pub age_secs: u64,
    pub active: bool,
}

pub open spec fn parallel_lines(v: Seq<ParallelSession>) -> Seq<Seq<char>> {
    v.map_values(
        |s: ParallelSession|
            "  "@ + (if s.active {
                " ●"@
            } else {
                "  "@
            }) + " "@ + s.id@ + " "@ + s.title@ + " ("@ + text::decimal(s.messages as nat)
                + " msgs, "@ + text::decimal(s.age_secs as nat) + "s)\n"@,
    )
}

/// The parallel sessions.
pub fn parallel_list(v: &Vec<ParallelSession>) -> (r: String)
    ensures
        r@ == (if v@.len() == 0 {
            "  No parallel sessions. Use /session new <task>\n\n"@
        } else {
            "  Parallel sessions ("@ + text::decimal(v@.len()) + "):\n"@ + text::join(
                parallel_lines(v@),
                ""@,
            ) + "\n"@
        }),
{
    if v.len() == 0 {
        return "  No parallel sessions. Use /session new <task>\n\n".to_owned();
    }
    let ghost wanted = parallel_lines(v@);
    let mut lines: Vec<String> = Vec::new();
    let mut i: usize = 0;
    while i < v.len()
        invariant
            i <= v.len(),
            lines.len() == i,
            wanted == parallel_lines(v@),
            forall|k: int| 0 <= k < i ==> (#[trigger] lines@[k])@ == wanted[k],
        decreases v.len() - i,
    {
        let mark = if v[i].active {
            " ●"
        } else {
            "  "
        };
        let a = text::number(v[i].messages as u64);
        let b = text::number(v[i].age_secs);
        let head = text::cat7("  ", mark, " ", &v[i].id, " ", &v[i].title, " (");
        let line = text::cat5(&head, &a, " msgs, ", &b, "s)\n");
        assert(line@ == wanted[i as int]);
        lines.push(line);
        i = i + 1;
    }
    assert(text::texts(lines@) =~= wanted);
    let n = text::number(v.len() as u64);
    let body = text::join_with(&lines, "");
    text::cat5("  Parallel sessions (", &n, "):\n", &body, "\n")
}

/// The answer when a parallel session was begun.
pub fn parallel_begun(id: &str, title: &str) -> (r: String)
    ensures
        r@ == "  ✓ New session "@ + id@ + ": "@ + title@ + "\n\n"@,
{
    text::cat5("  ✓ New session ", id, ": ", title, "\n\n")
}

/// The answer when another session was taken up, or was not there.
pub fn parallel_switched(asked: &str, session: &Option<(String, String)>) -> (r: String)
    ensures
        r@ == match *session {
            Some((id, title)) => "  ✓ Switched to "@ + id@ + ": "@ + title@ + "\n\n"@,
            None => "  Session "@ + asked@ + " not found.\n\n"@,
        },
{
    match session {
        Some((id, title)) => text::cat5("  ✓ Switched to ", id, ": ", title, "\n\n"),
        None => text::cat3("  Session ", asked, " not found.\n\n"),
    }
}

/// The answer when a session was ended, or was not there.
pub fn parallel_killed(id: &str, found: bool) -> (r: String)
    ensures
        r@ == (if found {
            "  ✓ Killed "@ + id@ + "\n\n"@
        } else {
            "  Not found: "@ + id@ + "\n\n"@
        }),
{
    if found {
        text::cat3("  ✓ Killed ", id, "\n\n")
    } else {
        text::cat3("  Not found: ", id, "\n\n")
    }
}

// ---------------------------------------------------------------------------
// Skills
// ---------------------------------------------------------------------------

/// What is asked for of the skills.
#[derive(Debug)]
pub enum SkillCommand {
    List,
    Enable(String),
    Disable(String),
    Add { name: String, content: String },
    Remove(String),
    Say(String),
}

pub ghost enum SkillPlan {
    List,
    Enable(Seq<char>),
    Disable(Seq<char>),
    Add { name: Seq<char>, content: Seq<char> },
    Remove(Seq<char>),
    Say(Seq<char>),
}

impl View for SkillCommand {
    type V = SkillPlan;

    open spec fn view(&self) -> SkillPlan {
        match self {
            SkillCommand::List => SkillPlan::List,
            SkillCommand::Enable(s) => SkillPlan::Enable(s@),
            SkillCommand::Disable(s) => SkillPlan::Disable(s@),
            SkillCommand::Add { name, content } => SkillPlan::Add {
                name: name@,
                content: content@,
            },
            SkillCommand::Remove(s) => SkillPlan::Remove(s@),
            SkillCommand::Say(s) => SkillPlan::Say(s@),
        }
    }
}

pub const SKILL_HELP: &'static str =
    "  /skill list             Show all skills\n  /skill enable <name>    Activate a skill\n  /skill disable <name>   Deactivate a skill\n  /skill add <name>       Create a new skill\n  /skill remove <name>    Delete a skill\n\n";

pub open spec fn named_or(
    rest: Seq<Seq<char>>,
    usage: Seq<char>,
    f: spec_fn(Seq<char>) -> SkillPlan,
) -> SkillPlan {
    match commands::word_at(rest, 1) {
        Some(name) => f(name),
        None => SkillPlan::Say(usage),
    }
}

/// What is asked for of the skills.
pub open spec fn skill_plan(rest: Seq<Seq<char>>) -> SkillPlan {
    let sub = commands::word_or(rest, 0, "list"@);
    if sub == "list"@ || sub == ""@ {
        SkillPlan::List
    } else if sub == "enable"@ || sub == "use"@ {
        named_or(
            rest,
            "  Usage: /skill enable <name>\n\n"@,
            |n: Seq<char>| SkillPlan::Enable(n),
        )
    } else if sub == "disable"@ {
        named_or(
            rest,
            "  Usage: /skill disable <name>\n\n"@,
            |n: Seq<char>| SkillPlan::Disable(n),
        )
    } else if sub == "add"@ {
        named_or(
            rest,
            "  Usage: /skill add <name> [content...]\n\n"@,
            |n: Seq<char>|
                SkillPlan::Add {
                    name: n,
                    content: if rest.len() > 2 {
                        commands::words_from(rest, 2)
                    } else {
                        "Describe the skill behavior here."@
                    },
                },
        )
    } else if sub == "remove"@ {
        named_or(
            rest,
            "  Usage: /skill remove <name>\n\n"@,
            |n: Seq<char>| SkillPlan::Remove(n),
        )
    } else {
        SkillPlan::Say(SKILL_HELP@)
    }
}

/// What is asked for of the skills.
pub fn plan_skill(rest: &Vec<String>) -> (r: SkillCommand)
    ensures
        r@ == skill_plan(text::texts(rest@)),
{
    assert(text::texts(rest@).len() == rest@.len());
    let sub = word_else(rest, 0, "list");
    if text::same(&sub, "list") || text::same(&sub, "") {
        SkillCommand::List
    } else if text::same(&sub, "enable") || text::same(&sub, "use") {
        match word(rest, 1) {
            Some(name) => SkillCommand::Enable(name),
            None => SkillCommand::Say("  Usage: /skill enable <name>\n\n".to_owned()),
        }
    } else if text::same(&sub, "disable") {
        match word(rest, 1) {
            Some(name) => SkillCommand::Disable(name),
            None => SkillCommand::Say("  Usage: /skill disable <name>\n\n".to_owned()),
        }
    } else if text::same(&sub, "add") {
        match word(rest, 1) {
            Some(name) => {
                let content = if rest.len() > 2 {
                    words_after(rest, 2)
                } else {
                    "Describe the skill behavior here.".to_owned()
                };
                SkillCommand::Add { name, content }
            },
            None => SkillCommand::Say("  Usage: /skill add <name> [content...]\n\n".to_owned()),
        }
    } else if text::same(&sub, "remove") {
        match word(rest, 1) {
            Some(name) => SkillCommand::Remove(name),
            None => SkillCommand::Say("  Usage: /skill remove <name>\n\n".to_owned()),
        }
    } else {
        SkillCommand::Say(SKILL_HELP.to_owned())
    }
}

/// A skill in a list.
#[derive(Debug)]
pub struct SkillEntry {
    pub name: String,
    pub trigger: String,
    pub preview: String,
}

pub open spec fn skill_lines(v: Seq<SkillEntry>) -> Seq<Seq<char>> {
    v.map_values(
        |s: SkillEntry|
            "    "@ + s.name@ + " ["@ + s.trigger@ + "] "@ + s.preview@ + "\n"@,
    )
}

/// The skills.
pub fn skill_list(v: &Vec<SkillEntry>) -> (r: String)
    ensures
        r@ == (if v@.len() == 0 {
            "  No skills defined.\n  Create one: /skill add <name>\n  Skills teach the model reusable behaviors.\n\n"@
        } else {
            "  Skills ("@ + text::decimal(v@.len()) + "):\n"@ + text::join(skill_lines(v@), ""@)
                + "\n"@
        }),
{
    if v.len() == 0 {
        return "  No skills defined.\n  Create one: /skill add <name>\n  Skills teach the model reusable behaviors.\n\n".to_owned();
    }
    let ghost wanted = skill_lines(v@);
    let mut lines: Vec<String> = Vec::new();
    let mut i: usize = 0;
    while i < v.len()
        invariant
            i <= v.len(),
            lines.len() == i,
            wanted == skill_lines(v@),
            forall|k: int| 0 <= k < i ==> (#[trigger] lines@[k])@ == wanted[k],
        decreases v.len() - i,
    {
        let line = text::cat7(
            "    ",
            &v[i].name,
            " [",
            &v[i].trigger,
            "] ",
            &v[i].preview,
            "\n",
        );
        assert(line@ == wanted[i as int]);
        lines.push(line);
        i = i + 1;
    }
    assert(text::texts(lines@) =~= wanted);
    let n = text::number(v.len() as u64);
    let body = text::join_with(&lines, "");
    text::cat5("  Skills (", &n, "):\n", &body, "\n")
}

/// The head of the message that brings a skill into a conversation.
pub open spec fn skill_tag(name: Seq<char>) -> Seq<char> {
    "[Skill: "@ + name + "]"@
}

/// Brings a skill into a conversation.
pub fn enable_skill(h: &mut Vec<Message>, name: &str, content: &str) -> (r: String)
    ensures
        history::messages(final(h)@) == history::messages(old(h)@).push(
            history::plain("system"@, skill_tag(name@) + "\n"@ + content@),
        ),
        r@ == "  ✓ Skill \""@ + name@ + "\" activated for this conversation.\n\n"@,
{
    let body = text::cat5("[Skill: ", name, "]", "\n", content);
    let ghost before = history::messages(h@);
    let m = Message::plain("system", body);
    h.push(m);
    assert(history::messages(h@) =~= before.push(m@));
    text::cat3("  ✓ Skill \"", name, "\" activated for this conversation.\n\n")
}

/// Whether a message brings a skill into a conversation.
pub open spec fn brings(m: history::MessageText, name: Seq<char>) -> bool {
    m.role == Some("system"@) && match m.content {
        history::ContentText::Text(s) => text::starts(s, skill_tag(name)),
        _ => false,
    }
}

/// A conversation without the messages that bring a skill into it.
pub open spec fn without_skill(h: Seq<history::MessageText>, name: Seq<char>) -> Seq<
    history::MessageText,
>
    decreases h.len(),
{
    if h.len() == 0 {
        Seq::empty()
    } else if brings(h.last(), name) {
        without_skill(h.drop_last(), name)
    } else {
        without_skill(h.drop_last(), name).push(h.last())
    }
}

fn brings_skill(m: &Message, tag: &str, name: &str) -> (r: bool)
    requires
        tag@ == skill_tag(name@),
    ensures
        r == brings(m@, name@),
{
    if !m.has_role("system") {
        return false;
    }
    match &m.content {
        Content::Text(s) => text::starts_with(s, tag),
        _ => false,
    }
}

/// Takes a skill out of a conversation.
pub fn disable_skill(h: Vec<Message>, name: &str) -> (r: (Vec<Message>, String))
    ensures
        history::messages(r.0@) == without_skill(history::messages(h@), name@),
        r.1@ == (if r.0@.len() < h@.len() {
            "  ✓ Skill \""@ + name@ + "\" disabled in this session.\n\n"@
        } else {
            "  Skill \""@ + name@ + "\" was not active.\n\n"@
        }),
{
    let ghost all = history::messages(h@);
    let n: usize = h.len();
    assert(all.len() == n);
    let tag = text::cat3("[Skill: ", name, "]");
    let mut rest = h;
    let mut kept: Vec<Message> = Vec::new();
    assert(kept@ =~= Seq::<Message>::empty());
    assert(all.skip(0) =~= all);
    let mut done: usize = 0;
    assert(history::messages(kept@) =~= without_skill(all.take(0), name@));
    while rest.len() > 0
        invariant
            done <= n,
            n == all.len(),
            rest.len() == n - done,
            tag@ == skill_tag(name@),
            history::messages(rest@) == all.skip(done as int),
            history::messages(kept@) == without_skill(all.take(done as int), name@),
        decreases rest.len(),
    {
        let ghost before = history::messages(rest@);
        let ghost old_rest = rest@;
        let m = rest.remove(0);
        proof {
            assert(before[0] == old_rest[0]@);
            assert(before[0] == m@);
            assert(history::messages(rest@) =~= before.drop_first());
            assert(before.drop_first() =~= all.skip(done + 1));
            assert(all.take(done + 1).drop_last() =~= all.take(done as int));
            assert(all.take(done + 1).last() == m@);
        }
        if !brings_skill(&m, &tag, name) {
            let ghost have = history::messages(kept@);
            kept.push(m);
            assert(history::messages(kept@) =~= have.push(m@));
        }
        done = done + 1;
    }
    assert(all.take(done as int) =~= all);
    let answer = if kept.len() < n {
        text::cat3("  ✓ Skill \"", name, "\" disabled in this session.\n\n")
    } else {
        text::cat3("  Skill \"", name, "\" was not active.\n\n")
    };
    (kept, answer)
}

/// A skill that was brought in can be taken out again: what is left is the
/// conversation as it was, without the skill.
pub proof fn law_skill_can_be_taken_out(
    h: Seq<history::MessageText>,
    name: Seq<char>,
    content: Seq<char>,
)
    ensures
        without_skill(
            h.push(history::plain("system"@, skill_tag(name) + "\n"@ + content)),
            name,
        ) == without_skill(h, name),
{
    let s = skill_tag(name) + "\n"@ + content;
    let m = history::plain("system"@, s);
    assert(h.push(m).drop_last() =~= h);
    assert(s.subrange(0, skill_tag(name).len() as int) =~= skill_tag(name));
    assert(brings(m, name));
}

/// The answer when a skill is not there.
pub fn skill_missing(name: &str) -> (r: String)
    ensures
        r@ == "  Skill \""@ + name@ + "\" not found.\n\n"@,
{
    text::cat3("  Skill \"", name, "\" not found.\n\n")
}

/// The answer when a skill was made, or could not be.
pub fn skill_added(name: &str, outcome: &Result<String, String>) -> (r: String)
    ensures
        r@ == match *outcome {
            Ok(path) => "  ✓ Created skill \""@ + name@ + "\" at "@ + path@
                + "\n  Edit the .md file to customize the skill content.\n\n"@,
            Err(e) => "  ✗ Failed: "@ + e@ + "\n\n"@,
        },
{
    match outcome {
        Ok(path) => text::cat5(
            "  ✓ Created skill \"",
            name,
            "\" at ",
            path,
            "\n  Edit the .md file to customize the skill content.\n\n",
        ),
        Err(e) => text::cat3("  ✗ Failed: ", e, "\n\n"),
    }
}

/// The answer when a skill was removed.
pub fn skill_removed(name: &str) -> (r: String)
    ensures
        r@ == "  ✓ Removed \""@ + name@ + "\"\n\n"@,
{
    text::cat3("  ✓ Removed \"", name, "\"\n\n")
}

// ---------------------------------------------------------------------------
// Checkpoints
// ---------------------------------------------------------------------------

/// What a checkpoint is called.
pub fn checkpoint_label(rest: &Vec<String>) -> (r: String)
    ensures
        r@ == (if rest@.len() == 0 {
            "manual"@
        } else {
            commands::words_from(text::texts(rest@), 0)
        }),
{
    if rest.len() == 0 {
        "manual".to_owned()
    } else {
        words_after(rest, 0)
    }
}

/// The answer when a checkpoint was set, or could not be.
pub fn checkpoint_set(id: &Option<String>, label: &str) -> (r: String)
    ensures
        r@ == match *id {
            Some(id) => "  ✓ Checkpoint "@ + id@ + " ("@ + label@ + ")\n\n"@,
            None => "  Snapshots disabled (ITSY_SNAPSHOT=false).\n\n"@,
        },
{
    match id {
        Some(id) => text::cat5("  ✓ Checkpoint ", id, " (", label, ")\n\n"),
        None => "  Snapshots disabled (ITSY_SNAPSHOT=false).\n\n".to_owned(),
    }
}

/// Why a checkpoint is gone back to.
pub fn rollback_reason(rest: &Vec<String>) -> (r: String)
    ensures
        r@ == (if rest@.len() == 0 {
            "manual rollback"@
        } else {
            commands::words_from(text::texts(rest@), 0)
        }),
{
    if rest.len() == 0 {
        "manual rollback".to_owned()
    } else {
        words_after(rest, 0)
    }
}

/// What going back to a checkpoint did.
#[derive(Debug)]
pub struct Rollback {
    pub checkpoint_id: String,
    pub label: String,
    pub restored: usize,
    pub deleted: usize,
    pub errors: usize,
    pub skipped: usize,
}

pub open spec fn counted_line(title: Seq<char>, n: usize) -> Seq<char> {
    if n == 0 {
        Seq::empty()
    } else {
        title + text::decimal(n as nat) + "\n"@
    }
}

fn count_line(title: &str, n: usize) -> (r: String)
    ensures
        r@ == counted_line(title@, n),
{
    if n == 0 {
        let r = String::new();
        assert(r@ =~= Seq::<char>::empty());
        r
    } else {
        let k = text::number(n as u64);
        text::cat3(title, &k, "\n")
    }
}

/// The answer when a checkpoint was gone back to, or there was none.
pub fn rolled_back(s: &Rollback) -> (r: String)
    ensures
        r@ == (if s.checkpoint_id@.len() == 0 {
            "  No active checkpoint to roll back.\n\n"@
        } else {
            "  ✓ Rolled back checkpoint "@ + s.checkpoint_id@ + " ("@ + s.label@
                + "): restored "@ + text::decimal(s.restored as nat) + ", deleted "@
                + text::decimal(s.deleted as nat) + "\n"@ + counted_line(
                "  Errors: "@,
                s.errors,
            ) + counted_line("  Skipped: "@, s.skipped) + "\n"@
        }),
{
    if s.checkpoint_id.as_str().is_empty() {
        return "  No active checkpoint to roll back.\n\n".to_owned();
    }
    let a = text::number(s.restored as u64);
    let b = text::number(s.deleted as u64);
    let head = text::cat9(
        "  ✓ Rolled back checkpoint ",
        &s.checkpoint_id,
        " (",
        &s.label,
        "): restored ",
        &a,
        ", deleted ",
        &b,
        "\n",
    );
    let errors = count_line("  Errors: ", s.errors);
    let skipped = count_line("  Skipped: ", s.skipped);
    text::cat4(&head, &errors, &skipped, "\n")
}

/// What is undone: the last edit, all of them, or the one with a number.
pub proof fn law_undo_commands(rest: Seq<Seq<char>>, n: nat)
    ensures
        rest.len() == 0 ==> undo_plan(rest) is Last,
        rest.len() > 0 && rest[0] == "list"@ ==> undo_plan(rest) is List,
        rest.len() > 0 && rest[0] == "all"@ ==> undo_plan(rest) is All,
        rest.len() > 0 && rest[0] == text::decimal(n) && n <= u64::MAX ==> undo_plan(rest)
            == UndoCommand::Edit(n as u64),
{
    text::law_numbers_are_read_back(n, u64::MAX as nat);
    text::law_decimal(n);
    reveal_strlit("list");
    reveal_strlit("all");
    reveal_strlit("");
    assert("list"@[0] == 'l' && "all"@[0] == 'a' && ""@.len() == 0);
    assert(text::is_digit(text::decimal(n)[0]));
    assert("list"@.len() == 4 && "all"@.len() == 3);
}

/// What came of undoing is told: which file, or what went wrong.
pub proof fn law_undone(u: Undone, none: Seq<char>, p: String)
    ensures
        undone_text(None, none) == none,
        u.error is None && u.reverted == Some(p) ==> text::has(undone_text(Some(u), none), p@),
        u.error is None ==> text::has(undone_text(Some(u), none), u.action@),
        u.error matches Some(e) ==> text::has(undone_text(Some(u), none), e@),
{
    let q = match u.reverted {
        Some(x) => x@,
        None => ""@,
    };
    let a = "  ✓ Reverted "@;
    assert(a + q + ": "@ + u.action@ + "\n\n"@ =~= a + q + (": "@ + u.action@ + "\n\n"@));
    text::law_affixes(q, a, ": "@ + u.action@ + "\n\n"@);
    text::law_affixes(u.action@, a + q + ": "@, "\n\n"@);
    if let Some(e) = u.error {
        text::law_affixes(e@, "  "@, "\n\n"@);
    }
}

/// The first thing that the user said.
pub proof fn law_first_request(h: Seq<history::MessageText>, i: int, s: Seq<char>)
    requires
        0 <= i < h.len(),
        h[i].role == Some("user"@),
        h[i].content == history::ContentText::Text(s),
        forall|k: int| 0 <= k < i ==> (#[trigger] h[k]).role != Some("user"@),
    ensures
        first_request(h) == s,
    decreases h.len(),
{
    if i > 0 {
        assert(h[0].role != Some("user"@));
        let d = h.drop_first();
        assert(d[i - 1] == h[i]);
        assert forall|k: int| 0 <= k < i - 1 implies (#[trigger] d[k]).role != Some("user"@) by {
            assert(d[k] == h[k + 1]);
        }
        law_first_request(d, i - 1, s);
    }
}

/// How long ago something was, in minutes, hours or days.
pub proof fn law_ages(n: nat, updated: int, now: int)
    ensures
        n < 60 ==> age_text(n) == text::decimal(n) + "m ago"@,
        1 <= n < 24 ==> age_text(n * 60) == text::decimal(n) + "h ago"@,
        n >= 1 ==> age_text(n * 1440) == text::decimal(n) + "d ago"@,
        now <= updated ==> minutes_between(updated, now) == 0,
        now > updated ==> 60_000 * minutes_between(updated, now) <= now - updated < 60_000 * (
        minutes_between(updated, now) + 1),
{
}

/// What is asked of the sessions.
pub proof fn law_session_commands(rest: Seq<Seq<char>>)
    ensures
        rest.len() == 0 ==> session_plan(rest) is List,
        rest.len() > 0 && rest[0] == "list"@ ==> session_plan(rest) is List,
        rest.len() == 1 && rest[0] == "new"@ ==> session_plan(rest) == SessionPlan::New(None),
        rest.len() == 2 && rest[0] == "new"@ ==> session_plan(rest) == SessionPlan::New(
            Some(rest[1]),
        ),
        rest.len() >= 2 && rest[0] == "switch"@ ==> session_plan(rest) == SessionPlan::Switch(
            rest[1],
        ),
        rest.len() >= 2 && rest[0] == "kill"@ ==> session_plan(rest) == SessionPlan::Kill(rest[1]),
        rest.len() == 1 && (rest[0] == "switch"@ || rest[0] == "kill"@) ==> session_plan(rest) is Say,
{
    reveal_strlit("list");
    reveal_strlit("new");
    reveal_strlit("switch");
    reveal_strlit("kill");
    reveal_strlit("");
    assert("list"@.len() == 4 && "new"@.len() == 3 && "switch"@.len() == 6 && "kill"@.len() == 4 && ""@.len() == 0);
    assert("list"@[0] == 'l' && "kill"@[0] == 'k');
    if rest.len() == 2 {
        commands::law_words_of_commands(rest, 1, Seq::empty());
    }
}

/// What is asked of the skills.
pub proof fn law_skill_commands(rest: Seq<Seq<char>>)
    ensures
        rest.len() == 0 ==> skill_plan(rest) is List,
        rest.len() > 0 && rest[0] == "list"@ ==> skill_plan(rest) is List,
        rest.len() >= 2 && (rest[0] == "enable"@ || rest[0] == "use"@) ==> skill_plan(rest)
            == SkillPlan::Enable(rest[1]),
        rest.len() >= 2 && rest[0] == "disable"@ ==> skill_plan(rest) == SkillPlan::Disable(rest[1]),
        rest.len() >= 2 && rest[0] == "remove"@ ==> skill_plan(rest) == SkillPlan::Remove(rest[1]),
        rest.len() == 3 && rest[0] == "add"@ ==> skill_plan(rest) == (SkillPlan::Add {
            name: rest[1],
            content: rest[2],
        }),
        rest.len() == 2 && rest[0] == "add"@ ==> (skill_plan(rest) matches SkillPlan::Add {
            name,
            content,
        } && name == rest[1]),
        rest.len() == 1 && (rest[0] == "enable"@ || rest[0] == "use"@ || rest[0] == "disable"@
            || rest[0] == "remove"@ || rest[0] == "add"@) ==> skill_plan(rest) is Say,
{
    reveal_strlit("list");
    reveal_strlit("enable");
    reveal_strlit("use");
    reveal_strlit("disable");
    reveal_strlit("remove");
    reveal_strlit("add");
    reveal_strlit("");
    assert("list"@.len() == 4 && "enable"@.len() == 6 && "use"@.len() == 3 && "disable"@.len() == 7 && "remove"@.len() == 6 && "add"@.len() == 3 && ""@.len() == 0);
    assert("enable"@[0] == 'e' && "remove"@[0] == 'r' && "use"@[0] == 'u' && "add"@[0] == 'a');
    if rest.len() == 3 {
        commands::law_words_of_commands(rest, 2, Seq::empty());
    }
}

/// Taking a skill out leaves every other message, in its order.
pub proof fn law_only_the_skill_goes(h: Seq<history::MessageText>, name: Seq<char>)
    ensures
        without_skill(h, name) == h.filter(|m: history::MessageText| !brings(m, name)),
    decreases h.len(),
{
    reveal(Seq::filter);
    if h.len() > 0 {
        law_only_the_skill_goes(h.drop_last(), name);
    } else {
        assert(without_skill(h, name) =~= h.filter(
            |m: history::MessageText| !brings(m, name),
        ));
    }
}

/// A message brings a skill where the system says so; the user's and the model's
/// messages bring none.
pub proof fn law_what_brings_a_skill(m: history::MessageText, name: Seq<char>, rest: Seq<char>)
    ensures
        brings(history::plain("system"@, "[Skill: "@ + name + "]"@ + rest), name),
        m.role != Some("system"@) ==> !brings(m, name),
{
    text::law_affixes("[Skill: "@ + name + "]"@, rest, Seq::empty());
}

/// A line stands only for what there is.
pub proof fn law_counted_lines(title: Seq<char>, n: usize)
    ensures
        n == 0 ==> counted_line(title, n).len() == 0,
        n > 0 ==> counted_line(title, n) == title + text::decimal(n as nat) + "\n"@,
        titled(None) == "untitled"@,
        titled(Some(title)) == title,
{
}

} // verus!
