//! Looking things up: files, symbols, memory and the web.

use vstd::prelude::*;

use crate::agent::mcp::MemoryItem;
use crate::agent::mcp;
use crate::code_graph::{RepoSummary, SymbolExplanation, SymbolHit};
use crate::code_graph;
use crate::executor::{refuse, tell, Reply};
use crate::executor;
use crate::executor::files;
use crate::json;
use crate::json::Json;
use crate::outside;
use crate::text;

verus! {

// ---------------------------------------------------------------------------
// Files
// ---------------------------------------------------------------------------

/// How a request for files is answered.
#[derive(Debug)]
pub enum FindPlan {
    /// With an overview, to which a hint is given.
    Overview(String),
    /// With the files that match a pattern.
    Match(String),
}

/// How a request for files is answered: without a pattern that says anything,
/// with an overview.
pub fn plan_find(args: &Json) -> (r: FindPlan)
    ensures
        ({
            let pattern = args@.member_text_or("pattern"@, ""@);
            if pattern.len() == 0 || pattern == "*"@ || pattern == "**"@ {
                r matches FindPlan::Overview(h) && h@ == args@.member_text_or("hint"@, ""@)
            } else {
                r matches FindPlan::Match(p) && p@ == pattern
            }
        }),
{
    let pattern = args.get_str_or("pattern", "");
    if pattern.as_str().is_empty() || text::same(&pattern, "*") || text::same(&pattern, "**") {
        FindPlan::Overview(args.get_str_or("hint", ""))
    } else {
        FindPlan::Match(pattern)
    }
}

/// The files that a search names, one on each line.
pub open spec fn found_files(output: Seq<char>) -> Seq<Seq<char>> {
    text::filled(text::leading(text::lines(output), 30))
}

/// The answer to a request for files.
pub fn find_reply(output: &Option<String>) -> (r: Reply)
    ensures
        r@ == executor::told(
            match *output {
                Some(out) => if found_files(out@).len() == 0 {
                    "No files found."@
                } else {
                    "Found "@ + text::decimal(found_files(out@).len()) + " files:\n"@ + text::join(
                        found_files(out@),
                        "\n"@,
                    )
                },
                None => "No files found."@,
            },
        ),
{
    match output {
        Some(out) => {
            let found = text::filled_of(&text::leading_of(&text::lines_of(out), 30));
            assert(text::texts(found@).len() == found@.len());
            if found.len() == 0 {
                tell("No files found.".to_owned())
            } else {
                let n = text::number(found.len() as u64);
                let list = text::join_with(&found, "\n");
                tell(text::cat4("Found ", &n, " files:\n", &list))
            }
        },
        None => tell("No files found.".to_owned()),
    }
}

/// The answer when no file matches.
pub fn nothing_found(pattern: &str) -> (r: Reply)
    ensures
        r@ == executor::told("No files found matching: "@ + pattern@),
{
    tell(text::cat2("No files found matching: ", pattern))
}

/// All files that a search names, one on each line.
pub fn listed_files(output: &str) -> (r: Vec<String>)
    ensures
        text::texts(r@) == text::filled(text::lines(output@)),
{
    text::filled_of(&text::lines_of(output))
}

/// How many lines are read of the file that is found.
pub fn lines_to_read(args: &Json) -> (r: u64)
    ensures
        r == match args@.member_unsigned("read_lines"@) {
            Some(n) => n,
            None => 50,
        },
{
    match args.get_u64("read_lines") {
        Some(n) => n,
        None => 50,
    }
}

/// The answer when the first of some files was read.
pub open spec fn find_and_read_text(
    found: Seq<Seq<char>>,
    total: nat,
    shown: Seq<Seq<char>>,
) -> Seq<char> {
    "Found "@ + text::decimal(found.len()) + " files. Reading "@ + found[0] + " ("@ + text::decimal(
        total,
    ) + " lines):\n"@ + files::numbered(shown, 0, "| "@) + (if found.len() > 1 {
        "\n\nOther matches: "@ + text::join(text::leading(found, 5).skip(1), ", "@)
    } else {
        Seq::empty()
    })
}

/// The answer when the first of some files, which has `total` lines, was read
/// and some of its lines are shown.
pub fn find_and_read_reply(found: &Vec<String>, total: usize, shown: &Vec<String>) -> (r: Reply)
    requires
        found.len() > 0,
    ensures
        r@ == executor::told(
            find_and_read_text(text::texts(found@), total as nat, text::texts(shown@)),
        ),
{
    let ghost all = text::texts(found@);
    assert(all.len() == found@.len());
    assert(all[0] == found@[0]@);
    let n = text::number(found.len() as u64);
    let k = text::number(total as u64);
    let body = files::number_lines(shown, 0, "| ");
    let mut out = text::cat7("Found ", &n, " files. Reading ", &found[0], " (", &k, " lines):\n");
    out.push_str(&body);
    if found.len() > 1 {
        let first = text::leading_of(found, 5);
        let mut others: Vec<String> = Vec::new();
        let ghost five = text::texts(first@);
        assert(five.len() == first.len());
        let mut i: usize = 1;
        assert(text::texts(others@) =~= five.subrange(1, 1));
        while i < first.len()
            invariant
                1 <= i <= first.len(),
                five == text::texts(first@),
                text::texts(others@) == five.subrange(1, i as int),
            decreases first.len() - i,
        {
            let s = first[i].clone();
            proof {
                text::lemma_texts_push(others@, s);
                assert(five[i as int] == first@[i as int]@);
                assert(five.subrange(1, i + 1) =~= five.subrange(1, i as int).push(five[i as int]));
            }
            others.push(s);
            i = i + 1;
        }
        assert(five.subrange(1, i as int) =~= five.skip(1));
        let list = text::join_with(&others, ", ");
        let tail = text::cat2("\n\nOther matches: ", &list);
        out.push_str(&tail);
    } else {
        assert(out@ + Seq::<char>::empty() =~= out@);
    }
    tell(out)
}

/// How many lines are shown around a match.
pub open spec fn context_lines(args: json::JsonText) -> u64 {
    match args.member_unsigned("read_context"@) {
        Some(n) => if 0 < n < 200 {
            n
        } else {
            10
        },
        None => 10,
    }
}

/// How many lines are shown around a match.
pub fn read_context(args: &Json) -> (r: u64)
    ensures
        r == context_lines(args@),
{
    match args.get_u64("read_context") {
        Some(n) => if 0 < n && n < 200 {
            n
        } else {
            10
        },
        None => 10,
    }
}

/// The answer to a search whose matches are shown with what stands around
/// them.
pub fn search_and_read_reply(out: &str) -> (r: Reply)
    ensures
        r@ == executor::told(
            if text::trimmed(out@).len() == 0 {
                "No matches."@
            } else {
                text::clip(out@, 4000)
            },
        ),
{
    let bare = text::trim(out);
    if bare.as_str().is_empty() {
        tell("No matches.".to_owned())
    } else {
        tell(text::clip_bytes(out, 4000))
    }
}

/// The answer to a search of the files, or when nothing was found.
pub fn file_search_reply(out: &Option<String>) -> (r: Reply)
    ensures
        r@ == executor::told(
            text::clip(
                match *out {
                    Some(s) => s@,
                    None => "No matches found."@,
                },
                3000,
            ),
        ),
{
    match out {
        Some(s) => search_reply(s),
        None => search_reply("No matches found."),
    }
}

/// The answer to a search of the code graph that went to the files, or when
/// nothing was found there either.
pub fn graph_search_reply(out: &Option<String>) -> (r: Reply)
    ensures
        r@ == executor::told(
            text::clip(
                match *out {
                    Some(s) => s@,
                    None => "No matches found in code graph or files."@,
                },
                3000,
            ),
        ),
{
    match out {
        Some(s) => search_reply(s),
        None => search_reply("No matches found in code graph or files."),
    }
}

/// How many tokens the answer to a search of the code graph may take; a number
/// beyond thirty-two bits loses the bits above them.
pub fn graph_tokens(args: &Json) -> (r: u32)
    ensures
        r == match args@.member_unsigned("max_tokens"@) {
            Some(n) => (n % 0x1_0000_0000) as u32,
            None => 4000,
        },
{
    match args.get_u64("max_tokens") {
        Some(n) => (n % 0x1_0000_0000) as u32,
        None => 4000,
    }
}

/// The answer to a search, at most so long.
pub fn search_reply(out: &str) -> (r: Reply)
    ensures
        r@ == executor::told(text::clip(out@, 3000)),
{
    tell(text::clip_bytes(out, 3000))
}

// ---------------------------------------------------------------------------
// The code graph
// ---------------------------------------------------------------------------

/// An indexed project as a line.
pub open spec fn project_line(
    name: Seq<char>,
    files: Seq<char>,
    symbols: Seq<char>,
    languages: Seq<char>,
) -> Seq<char> {
    "• "@ + name + " — "@ + files + " files, "@ + symbols + " symbols, "@ + languages + "\n"@
}

pub open spec fn repo_line(r: code_graph::RepoText) -> Seq<char> {
    project_line(
        r.name,
        text::decimal(r.file_count as nat),
        text::decimal(r.symbol_count as nat),
        if r.languages.len() == 0 {
            "?"@
        } else {
            text::join(text::leading(r.languages, 4), ", "@)
        },
    )
}

pub open spec fn repo_lines(v: Seq<code_graph::RepoText>) -> Seq<char>
    decreases v.len(),
{
    if v.len() == 0 {
        Seq::empty()
    } else {
        repo_lines(v.drop_last()) + repo_line(v.last())
    }
}

pub open spec fn repo_texts(v: Seq<RepoSummary>) -> Seq<code_graph::RepoText> {
    v.map_values(|r: RepoSummary| r@)
}

/// The head of a list of projects.
pub open spec fn workspace_head(n: nat) -> Seq<char> {
    "Workspace: "@ + text::decimal(n) + " indexed projects\n\n"@
}

fn project(name: &str, files: &str, symbols: &str, languages: &str) -> (r: String)
    ensures
        r@ == project_line(name@, files@, symbols@, languages@),
{
    text::cat9("• ", name, " — ", files, " files, ", symbols, " symbols, ", languages, "\n")
}

/// The indexed projects, when there are any.
pub fn projects_reply(repos: &Vec<RepoSummary>) -> (r: Option<Reply>)
    ensures
        if repos@.len() == 0 {
            r is None
        } else {
            r matches Some(x) && x@ == executor::told(
                workspace_head(repos@.len()) + repo_lines(repo_texts(repos@)),
            )
        },
{
    if repos.len() == 0 {
        return None;
    }
    let ghost all = repo_texts(repos@);
    let n = text::number(repos.len() as u64);
    let mut out = text::cat3("Workspace: ", &n, " indexed projects\n\n");
    let ghost head = out@;
    let mut i: usize = 0;
    assert(head + repo_lines(all.take(0)) =~= head);
    while i < repos.len()
        invariant
            i <= repos.len(),
            all == repo_texts(repos@),
            out@ == head + repo_lines(all.take(i as int)),
        decreases repos.len() - i,
    {
        assert(all.take(i + 1).drop_last() =~= all.take(i as int));
        assert(all.take(i + 1).last() == repos@[i as int]@);
        let repo = &repos[i];
        assert(text::texts(repo.languages@).len() == repo.languages@.len());
        let languages = if repo.languages.len() == 0 {
            "?".to_owned()
        } else {
            text::join_with(&text::leading_of(&repo.languages, 4), ", ")
        };
        let a = text::number(repo.file_count as u64);
        let b = text::number(repo.symbol_count as u64);
        let line = project(&repo.name, &a, &b, &languages);
        let ghost before = repo_lines(all.take(i as int));
        out.push_str(&line);
        assert(head + before + line@ =~= head + (before + line@));
        i = i + 1;
    }
    assert(all.take(i as int) =~= all);
    Some(tell(out))
}

/// A project that another server lists, as a line.
pub open spec fn listed_repo_line(r: json::JsonText) -> Seq<char> {
    project_line(
        r.member_text_or("name"@, ""@),
        match r.member_unsigned("file_count"@) {
            Some(n) => text::decimal(n as nat),
            None => "?"@,
        },
        match r.member_unsigned("symbol_count"@) {
            Some(n) => text::decimal(n as nat),
            None => "?"@,
        },
        match r.member_items("languages"@) {
            Some(v) => text::join(text::leading(json::strings_in(v), 4), ", "@),
            None => "?"@,
        },
    )
}

pub open spec fn listed_repo_lines(v: Seq<json::JsonText>) -> Seq<char>
    decreases v.len(),
{
    if v.len() == 0 {
        Seq::empty()
    } else {
        listed_repo_lines(v.drop_last()) + listed_repo_line(v.last())
    }
}

fn count_or_unknown(n: Option<u64>) -> (r: String)
    ensures
        r@ == match n {
            Some(k) => text::decimal(k as nat),
            None => "?"@,
        },
{
    match n {
        Some(k) => text::number(k),
        None => "?".to_owned(),
    }
}

/// The projects that another server lists.
pub open spec fn listed_projects_text(j: json::JsonText) -> Seq<char> {
    match j.member_items("repos"@) {
        Some(v) => if v.len() == 0 {
            "No projects indexed yet. The code graph is empty."@
        } else {
            workspace_head(v.len()) + listed_repo_lines(v)
        },
        None => "No projects indexed yet. The code graph is empty."@,
    }
}

/// The projects that another server lists.
pub fn listed_projects_reply(data: &Json) -> (r: Reply)
    ensures
        r@ == executor::told(listed_projects_text(data@)),
{
    match data.get_array("repos") {
        Some(v) => {
            assert(json::values(v@).len() == v@.len());
            if v.len() == 0 {
                return tell("No projects indexed yet. The code graph is empty.".to_owned());
            }
            let n = text::number(v.len() as u64);
            let mut out = text::cat3("Workspace: ", &n, " indexed projects\n\n");
            let ghost head = out@;
            let ghost all = json::values(v@);
            let mut i: usize = 0;
            assert(head + listed_repo_lines(all.take(0)) =~= head);
            while i < v.len()
                invariant
                    i <= v.len(),
                    all == json::values(v@),
                    out@ == head + listed_repo_lines(all.take(i as int)),
                decreases v.len() - i,
            {
                assert(all.take(i + 1).drop_last() =~= all.take(i as int));
                assert(all.take(i + 1).last() == v@[i as int]@);
                let repo = &v[i];
                let name = repo.get_str_or("name", "");
                let a = count_or_unknown(repo.get_u64("file_count"));
                let b = count_or_unknown(repo.get_u64("symbol_count"));
                let languages = match repo.get_array("languages") {
                    Some(ls) => {
                        text::join_with(&text::leading_of(&json::strings_of(ls), 4), ", ")
                    },
                    None => "?".to_owned(),
                };
                let line = project(&name, &a, &b, &languages);
                let ghost before = listed_repo_lines(all.take(i as int));
                out.push_str(&line);
                assert(head + before + line@ =~= head + (before + line@));
                i = i + 1;
            }
            assert(all.take(i as int) =~= all);
            tell(out)
        },
        None => tell("No projects indexed yet. The code graph is empty.".to_owned()),
    }
}

/// The projects that another server lists in a text; nothing when the text
/// cannot be read.
pub fn read_listed_projects(source: &str) -> (r: Option<Reply>)
    ensures
        match outside::json_value(source@) {
            Some(j) => r matches Some(x) && x@ == executor::told(listed_projects_text(j)),
            None => r is None,
        },
{
    match outside::json_parse(source) {
        Some(j) => Some(listed_projects_reply(&j)),
        None => None,
    }
}

/// The answer when nothing is indexed: an overview of the files.
pub fn files_reply(cwd: &str, listing: &str) -> (r: Reply)
    ensures
        r@ == executor::told("Files in "@ + cwd@ + ":\n"@ + listing@),
{
    tell(text::cat4("Files in ", cwd, ":\n", listing))
}

/// A text that ends its line.
pub open spec fn line_ended(s: Seq<char>) -> Seq<char> {
    if s.len() > 0 && s.last() == '\n' {
        s
    } else {
        s.push('\n')
    }
}

fn end_line(s: &str) -> (r: String)
    ensures
        r@ == line_ended(s@),
{
    let v = text::chars(s);
    let n: usize = v.len();
    let mut r: String = s.to_owned();
    if n == 0 || v[n - 1] != '\n' {
        r.push('\n');
    }
    r
}

/// A symbol that answers a search.
pub open spec fn hit_text(h: code_graph::HitText) -> Seq<char> {
    h.name + " ("@ + h.kind + ", "@ + h.file + ":"@ + text::decimal(h.line as nat) + ")\n"@ + (
    match h.signature {
        Some(s) => "  "@ + s + "\n"@,
        None => Seq::empty(),
    }) + (match h.snippet {
        Some(s) => line_ended(s),
        None => Seq::empty(),
    }) + "\n"@
}

pub open spec fn hits_text(v: Seq<code_graph::HitText>) -> Seq<char>
    decreases v.len(),
{
    if v.len() == 0 {
        Seq::empty()
    } else {
        hits_text(v.drop_last()) + hit_text(v.last())
    }
}

fn nothing() -> (r: String)
    ensures
        r@ == Seq::<char>::empty(),
{
    let r = String::new();
    assert(r@ =~= Seq::<char>::empty());
    r
}

fn format_hit(h: &SymbolHit) -> (r: String)
    ensures
        r@ == hit_text(h@),
{
    let n = text::number(h.line as u64);
    let head = text::cat8(&h.name, " (", &h.kind, ", ", &h.file, ":", &n, ")\n");
    let signature = match &h.signature {
        Some(s) => text::cat3("  ", s, "\n"),
        None => nothing(),
    };
    let snippet = match &h.snippet {
        Some(s) => end_line(s),
        None => nothing(),
    };
    text::cat4(&head, &signature, &snippet, "\n")
}

/// The symbols that answer a search.
pub fn format_hits(hits: &Vec<SymbolHit>) -> (r: String)
    ensures
        r@ == hits_text(code_graph::hit_texts(hits@)),
{
    let ghost all = code_graph::hit_texts(hits@);
    let mut out = nothing();
    let mut i: usize = 0;
    assert(hits_text(all.take(0)) =~= Seq::<char>::empty());
    while i < hits.len()
        invariant
            i <= hits.len(),
            all == code_graph::hit_texts(hits@),
            out@ == hits_text(all.take(i as int)),
        decreases hits.len() - i,
    {
        assert(all.take(i + 1).drop_last() =~= all.take(i as int));
        assert(all.take(i + 1).last() == hits@[i as int]@);
        let h = format_hit(&hits[i]);
        out.push_str(&h);
        i = i + 1;
    }
    assert(all.take(i as int) =~= all);
    out
}

/// The texts that another server answers with.
pub fn content_text(content: &Vec<Json>) -> (r: String)
    ensures
        r@ == text::join(json::member_strings(json::values(content@), "text"@), "\n"@),
{
    text::join_with(&json::member_strings_of(content, "text"), "\n")
}

/// Those that call a symbol, or that it calls.
pub open spec fn relatives(v: Seq<code_graph::HitText>) -> Seq<char>
    decreases v.len(),
{
    if v.len() == 0 {
        Seq::empty()
    } else {
        relatives(v.drop_last()) + "  - "@ + v.last().name + " ("@ + v.last().file + ":"@
            + text::decimal(v.last().line as nat) + ")\n"@
    }
}

pub open spec fn relatives_text(title: Seq<char>, v: Seq<code_graph::HitText>) -> Seq<char> {
    if v.len() == 0 {
        title + ": (none)\n"@
    } else {
        title + ":\n"@ + relatives(text::leading(v, 10))
    }
}

fn format_relatives(title: &str, v: &Vec<SymbolHit>) -> (r: String)
    ensures
        r@ == relatives_text(title@, code_graph::hit_texts(v@)),
{
    let ghost all = code_graph::hit_texts(v@);
    assert(all.len() == v@.len());
    if v.len() == 0 {
        return text::cat2(title, ": (none)\n");
    }
    let mut out = text::cat2(title, ":\n");
    let ghost head = out@;
    let mut i: usize = 0;
    assert(head + relatives(all.take(0)) =~= head);
    while i < v.len() && i < 10
        invariant
            i <= v.len(),
            i <= 10,
            all == code_graph::hit_texts(v@),
            all.len() == v@.len(),
            out@ == head + relatives(all.take(i as int)),
        decreases v.len() - i,
    {
        assert(all.take(i + 1).drop_last() =~= all.take(i as int));
        assert(all.take(i + 1).last() == v@[i as int]@);
        let n = text::number(v[i].line as u64);
        let ghost before = relatives(all.take(i as int));
        let line = text::cat7("  - ", &v[i].name, " (", &v[i].file, ":", &n, ")\n");
        out.push_str(&line);
        assert(head + before + line@ =~= head + relatives(all.take(i + 1)));
        i = i + 1;
    }
    assert(all.take(i as int) =~= text::leading(all, 10));
    out
}

/// A symbol with those that call it and those that it calls.
pub open spec fn explanation_text(e: code_graph::ExplanationText) -> Seq<char> {
    e.name + " ("@ + e.kind + ") at "@ + e.file + ":"@ + text::decimal(e.line as nat) + "\n"@ + (
    match e.signature {
        Some(s) => "Signature: "@ + s + "\n"@,
        None => Seq::empty(),
    }) + relatives_text("Callers"@, e.callers) + relatives_text("Callees"@, e.callees) + (
    match e.snippet {
        Some(s) => "Snippet:\n"@ + line_ended(s),
        None => Seq::empty(),
    })
}

/// A symbol with those that call it and those that it calls.
pub fn format_explanation(e: &SymbolExplanation) -> (r: String)
    ensures
        r@ == explanation_text(e@),
{
    let n = text::number(e.line as u64);
    let head = text::cat8(&e.name, " (", &e.kind, ") at ", &e.file, ":", &n, "\n");
    let signature = match &e.signature {
        Some(s) => text::cat3("Signature: ", s, "\n"),
        None => nothing(),
    };
    let callers = format_relatives("Callers", &e.callers);
    let callees = format_relatives("Callees", &e.callees);
    let snippet = match &e.snippet {
        Some(s) => {
            let body = end_line(s);
            text::cat2("Snippet:\n", &body)
        },
        None => nothing(),
    };
    text::cat5(&head, &signature, &callers, &callees, &snippet)
}

pub const SYMBOL_PATTERN: &'static str = r"^[A-Za-z_][A-Za-z0-9_:.$-]*$";

/// The answer about a symbol that is none, when it is known whether it is one.
pub fn refuse_symbol(symbol: &str, valid: bool) -> (r: Option<Reply>)
    ensures
        if valid {
            r is None
        } else {
            r matches Some(x) && x@ == executor::told(
                "Symbol \""@ + symbol@ + "\" is not a valid identifier."@,
            )
        },
{
    if valid {
        None
    } else {
        Some(tell(text::cat3("Symbol \"", symbol, "\" is not a valid identifier.")))
    }
}

/// The answer about a symbol that is none.
pub fn check_symbol(symbol: &str) -> (r: Option<Reply>)
    ensures
        if outside::regex_matches(SYMBOL_PATTERN@, symbol@) {
            r is None
        } else {
            r matches Some(x) && x@ == executor::told(
                "Symbol \""@ + symbol@ + "\" is not a valid identifier."@,
            )
        },
{
    refuse_symbol(symbol, outside::regex_is_match(SYMBOL_PATTERN, symbol))
}

/// Where a symbol is referred to.
pub fn references_text(symbol: &str, out: &str) -> (r: String)
    ensures
        r@ == "References to "@ + symbol@ + ":\n"@ + text::clip(out@, 2000),
{
    let shown = text::clip_bytes(out, 2000);
    text::cat4("References to ", symbol, ":\n", &shown)
}

// ---------------------------------------------------------------------------
// Memory
// ---------------------------------------------------------------------------

/// The answer when memory was loaded for a task.
pub fn memory_load_reply(v: &Vec<MemoryItem>) -> (r: Reply)
    ensures
        r@ == executor::told(
            if v@.len() == 0 {
                "No relevant memory found."@
            } else {
                "Loaded "@ + text::decimal(v@.len()) + " memories ("@ + text::decimal(
                    v@.len() * 50,
                ) + " tokens):\n\n"@ + text::join(
                    mcp::memory_lines(mcp::memory_texts(v@)),
                    "\n\n"@,
                )
            },
        ),
{
    if v.len() == 0 {
        return tell("No relevant memory found.".to_owned());
    }
    let n = text::number(v.len() as u64);
    let t = text::wide_number(v.len() as u128 * 50);
    let lines = mcp::format_memories(v);
    let body = text::join_with(&lines, "\n\n");
    tell(text::cat6("Loaded ", &n, " memories (", &t, " tokens):\n\n", &body))
}

/// What is to be remembered.
#[derive(Debug)]
pub struct Remembrance {
    pub kind: String,
    pub title: String,
    pub content: String,
    pub tags: Vec<String>,
}

/// What is to be remembered.
pub fn remembrance_of(args: &Json) -> (r: Remembrance)
    ensures
        r.kind@ == args@.member_text_or("type"@, "context"@),
        r.title@ == args@.member_text_or("title"@, ""@),
        r.content@ == args@.member_text_or("content"@, ""@),
        text::texts(r.tags@) == match args@.member_items("tags"@) {
            Some(v) => json::strings_in(v),
            None => Seq::empty(),
        },
{
    let tags = match args.get_array("tags") {
        Some(v) => json::strings_of(v),
        None => {
            let none: Vec<String> = Vec::new();
            assert(text::texts(none@) =~= Seq::<Seq<char>>::empty());
            none
        },
    };
    Remembrance {
        kind: args.get_str_or("type", "context"),
        title: args.get_str_or("title", ""),
        content: args.get_str_or("content", ""),
        tags,
    }
}

/// The answer when something was remembered.
pub fn memory_remember_reply(m: &MemoryItem) -> (r: Reply)
    ensures
        r@ == executor::told(
            "Remembered ["@ + m@.kind + "] \""@ + m@.title + "\" ("@ + m@.id + ")"@,
        ),
{
    tell(text::cat7("Remembered [", &m.kind, "] \"", &m.title, "\" (", &m.id, ")"))
}

pub open spec fn memory_entries(v: Seq<mcp::MemoryText>) -> Seq<Seq<char>> {
    v.map_values(|m: mcp::MemoryText| "["@ + m.id + "] ("@ + m.kind + ") "@ + m.title)
}

/// The answer to a request for a list of what is remembered.
pub fn memory_list_reply(v: &Vec<MemoryItem>) -> (r: Reply)
    ensures
        r@ == executor::told(
            if v@.len() == 0 {
                "No memory stored."@
            } else {
                text::join(memory_entries(mcp::memory_texts(v@)), "\n"@)
            },
        ),
{
    if v.len() == 0 {
        return tell("No memory stored.".to_owned());
    }
    let mut out: Vec<String> = Vec::new();
    let mut i: usize = 0;
    while i < v.len()
        invariant
            i <= v.len(),
            out.len() == i,
            forall|j: int|
                0 <= j < i ==> (#[trigger] out@[j])@ == "["@ + v@[j]@.id + "] ("@ + v@[j]@.kind
                    + ") "@ + v@[j]@.title,
        decreases v.len() - i,
    {
        out.push(text::cat6("[", &v[i].id, "] (", &v[i].kind, ") ", &v[i].title));
        i = i + 1;
    }
    assert(text::texts(out@) =~= memory_entries(mcp::memory_texts(v@)));
    tell(text::join_with(&out, "\n"))
}

/// The answer when something was forgotten, or was not there.
pub fn memory_forget_reply(id: &str, found: bool) -> (r: Reply)
    ensures
        r@ == executor::told(
            if found {
                "Deleted "@ + id@
            } else {
                "Not found: "@ + id@
            },
        ),
{
    if found {
        tell(text::cat2("Deleted ", id))
    } else {
        tell(text::cat2("Not found: ", id))
    }
}

// ---------------------------------------------------------------------------
// The web
// ---------------------------------------------------------------------------

/// The answer when the web is not to be used.
pub fn refuse_web(enabled: bool) -> (r: Option<Reply>)
    ensures
        if enabled {
            r is None
        } else {
            r matches Some(x) && x@ == executor::refused(
                "Web browsing disabled. Set `[tools].web_browse = true` (or pass --web-browse)."@,
            )
        },
{
    if enabled {
        None
    } else {
        Some(
            refuse(
                "Web browsing disabled. Set `[tools].web_browse = true` (or pass --web-browse).".to_owned(),
            ),
        )
    }
}

/// A page that answers a search of the web.
#[derive(Debug)]
pub struct WebHit {
    pub title: String,
    pub url: String,
    pub snippet: String,
}

pub open spec fn web_entries(v: Seq<WebHit>) -> Seq<Seq<char>> {
    Seq::new(
        v.len(),
        |i: int|
            text::decimal((i + 1) as nat) + ". "@ + v[i].title@ + "\n   "@ + v[i].url@ + "\n   "@
                + v[i].snippet@,
    )
}

/// The answer to a search of the web.
pub fn web_search_reply(results: &Result<Vec<WebHit>, String>) -> (r: Reply)
    ensures
        r@ == match *results {
            Ok(v) => executor::told(
                if v@.len() == 0 {
                    "No results found."@
                } else {
                    text::join(web_entries(v@), "\n\n"@)
                },
            ),
            Err(e) => executor::refused(e@),
        },
{
    match results {
        Ok(v) => {
            if v.len() == 0 {
                return tell("No results found.".to_owned());
            }
            let ghost all = web_entries(v@);
            let mut out: Vec<String> = Vec::new();
            let mut i: usize = 0;
            while i < v.len()
                invariant
                    i <= v.len(),
                    out.len() == i,
                    all == web_entries(v@),
                    forall|j: int| 0 <= j < i ==> (#[trigger] out@[j])@ == all[j],
                decreases v.len() - i,
            {
                let n = text::wide_number(i as u128 + 1);
                let entry = text::cat7(
                    &n,
                    ". ",
                    &v[i].title,
                    "\n   ",
                    &v[i].url,
                    "\n   ",
                    &v[i].snippet,
                );
                assert(entry@ == all[i as int]);
                out.push(entry);
                i = i + 1;
            }
            assert(text::texts(out@) =~= all);
            tell(text::join_with(&out, "\n\n"))
        },
        Err(e) => refuse(e.clone()),
    }
}

/// The answer to a request for a page.
pub fn web_fetch_reply(page: Result<String, String>) -> (r: Reply)
    ensures
        r@ == match page {
            Ok(s) => executor::told(s@),
            Err(e) => executor::refused(e@),
        },
{
    match page {
        Ok(s) => tell(s),
        Err(e) => refuse(e),
    }
}

// ---------------------------------------------------------------------------
// Laws
// ---------------------------------------------------------------------------

/// Files are matched by a pattern that says something; without one an overview
/// is given.
pub proof fn law_find_is_planned(args: &Json, r: FindPlan)
    requires
        call_ensures(plan_find, (args,), r),
    ensures
        args@.member_text("pattern"@) is None ==> r is Overview,
        args@.member_text("pattern"@) == Some("*"@) || args@.member_text("pattern"@) == Some("**"@)
            || args@.member_text("pattern"@) == Some(""@) ==> r is Overview,
        args@.member_text("pattern"@) matches Some(p) ==> (p.len() > 0 && p != "*"@ && p != "**"@
            ==> (r matches FindPlan::Match(s) && s@ == p)),
        args@.member_text("hint"@) matches Some(h) ==> (r matches FindPlan::Overview(s) ==> s@ == h),
{
    reveal_strlit("");
    assert(""@.len() == 0);
}

/// The files found are the lines of the output, the first thirty of them, that
/// are not empty.
pub proof fn law_found_files(output: Seq<char>)
    ensures
        text::lines(output).len() <= 30 ==> found_files(output) == text::lines(output).filter(
            |s: Seq<char>| s.len() > 0,
        ),
        text::lines(output).len() > 30 ==> found_files(output) == text::lines(output).take(
            30,
        ).filter(|s: Seq<char>| s.len() > 0),
{
    let v = text::lines(output);
    text::law_filled(v, 30);
    text::law_filled(text::leading(v, 30), 30);
    if v.len() == 30 {
        assert(v.take(30) =~= v);
    }
}

/// Each file found is named in the answer, and only where there is none is it
/// said that none was found.
pub proof fn law_found_files_are_named(output: &Option<String>, r: Reply, i: int)
    requires
        call_ensures(find_reply, (output,), r),
    ensures
        r@.error is None,
        *output is None ==> r@.result == Some("No files found."@),
        *output matches Some(out) ==> {
            let v = found_files(out@);
            &&& v.len() == 0 ==> r@.result == Some("No files found."@)
            &&& 0 <= i < v.len() ==> text::has(r@.result->0, v[i]) && text::starts(
                r@.result->0,
                "Found "@ + text::decimal(v.len()),
            )
        },
{
    if let Some(out) = *output {
        let v = found_files(out@);
        if 0 <= i < v.len() {
            let head = "Found "@ + text::decimal(v.len()) + " files:\n"@;
            let list = text::join(v, "\n"@);
            text::lemma_joined_part(v, "\n"@, i);
            assert(r@.result->0 =~= head + list + Seq::empty());
            text::lemma_has_within(r@.result->0, head, list, Seq::empty(), v[i]);
            let n = "Found "@ + text::decimal(v.len());
            assert(r@.result->0 =~= n + (" files:\n"@ + list));
            text::law_affixes(n, " files:\n"@ + list, Seq::empty());
        }
    }
}

/// Of the files found the first is shown, with the numbers of its lines, and
/// the next four are named.
pub proof fn law_first_match_is_read(
    found: Seq<Seq<char>>,
    total: nat,
    shown: Seq<Seq<char>>,
    i: int,
)
    requires
        found.len() > 0,
    ensures
        text::has(
            find_and_read_text(found, total, shown),
            "Reading "@ + found[0] + " ("@ + text::decimal(total) + " lines):\n"@
                + files::numbered(shown, 0, "| "@),
        ),
        1 <= i < found.len() && i < 5 ==> text::has(
            find_and_read_text(found, total, shown),
            found[i],
        ),
        found.len() == 1 ==> text::ends(
            find_and_read_text(found, total, shown),
            files::numbered(shown, 0, "| "@),
        ),
{
    let t = find_and_read_text(found, total, shown);
    let body = files::numbered(shown, 0, "| "@);
    let mid = "Reading "@ + found[0] + " ("@ + text::decimal(total) + " lines):\n"@ + body;
    reveal_strlit(" files. Reading ");
    reveal_strlit(" files. ");
    reveal_strlit("Reading ");
    assert(" files. Reading "@ =~= " files. "@ + "Reading "@);
    let head = "Found "@ + text::decimal(found.len()) + " files. "@;
    let five = text::leading(found, 5);
    let rest = five.skip(1);
    let list = text::join(rest, ", "@);
    let tail = if found.len() > 1 {
        "\n\nOther matches: "@ + list
    } else {
        Seq::empty()
    };
    assert(t =~= head + mid + tail);
    text::law_affixes(mid, head, tail);
    if found.len() == 1 {
        assert(t =~= (head + "Reading "@ + found[0] + " ("@ + text::decimal(total) + " lines):\n"@)
            + body);
        text::law_affixes(
            body,
            head + "Reading "@ + found[0] + " ("@ + text::decimal(total) + " lines):\n"@,
            Seq::empty(),
        );
    }
    if 1 <= i < found.len() && i < 5 {
        assert(rest[i - 1] == found[i]);
        text::lemma_joined_part(rest, ", "@, i - 1);
        let front = head + mid + "\n\nOther matches: "@;
        assert(t =~= front + list + Seq::empty());
        text::lemma_has_within(t, front, list, Seq::empty(), found[i]);
    }
}

/// How many lines around a match are shown: as many as are asked for, below two
/// hundred, else ten.
pub proof fn law_context(args: json::JsonText)
    ensures
        1 <= context_lines(args) <= 199,
        args.member_unsigned("read_context"@) matches Some(n) ==> (1 <= n <= 199
            ==> context_lines(args) == n),
        args.member_unsigned("read_context"@) matches Some(n) ==> (n == 0 || n >= 200
            ==> context_lines(args) == 10),
        args.member_unsigned("read_context"@) is None ==> context_lines(args) == 10,
{
}

/// What a search gave is shown, from its start, as far as it is not too long.
pub proof fn law_searches_are_shown(out: &str, a: Reply, b: Reply, o: &Option<String>, c: Reply, d: Reply)
    requires
        call_ensures(search_and_read_reply, (out,), a),
        call_ensures(search_reply, (out,), b),
        call_ensures(file_search_reply, (o,), c),
        call_ensures(graph_search_reply, (o,), d),
    ensures
        a@.error is None && b@.error is None && c@.error is None && d@.error is None,
        text::trimmed(out@).len() == 0 ==> a@.result == Some("No matches."@),
        text::trimmed(out@).len() > 0 && text::utf8_len(out@) <= 4000 ==> a@.result == Some(out@),
        text::utf8_len(out@) <= 3000 ==> b@.result == Some(out@),
        *o matches Some(s) ==> (text::utf8_len(s@) <= 3000 ==> c@.result == Some(s@) && d@.result
            == Some(s@)),
        *o is None ==> c@.result == Some("No matches found."@) && d@.result == Some(
            "No matches found in code graph or files."@,
        ),
{
    text::law_clip(out@, 4000);
    text::law_clip(out@, 3000);
    match *o {
        Some(s) => text::law_clip(s@, 3000),
        None => {
            reveal_strlit("No matches found.");
            reveal_strlit("No matches found in code graph or files.");
            text::lemma_utf8_len_bounds("No matches found."@);
            text::lemma_utf8_len_bounds("No matches found in code graph or files."@);
            text::law_clip("No matches found."@, 3000);
            text::law_clip("No matches found in code graph or files."@, 3000);
        },
    }
}

proof fn lemma_repo_lines(v: Seq<code_graph::RepoText>, i: int)
    requires
        0 <= i < v.len(),
    ensures
        text::has(repo_lines(v), repo_line(v[i])),
    decreases v.len(),
{
    let d = v.drop_last();
    let t = repo_lines(v);
    if i < d.len() {
        assert(d[i] == v[i]);
        lemma_repo_lines(d, i);
        assert(t =~= Seq::empty() + repo_lines(d) + repo_line(v.last()));
        text::lemma_has_within(t, Seq::empty(), repo_lines(d), repo_line(v.last()), repo_line(v[i]));
    } else {
        assert(t =~= repo_lines(d) + repo_line(v[i]) + Seq::empty());
        text::law_affixes(repo_line(v[i]), repo_lines(d), Seq::empty());
    }
}

/// Each project is listed with its name, how many files and symbols it has, and
/// its languages, at most four.
pub proof fn law_projects_are_listed(repos: &Vec<RepoSummary>, r: Option<Reply>, i: int)
    requires
        call_ensures(projects_reply, (repos,), r),
    ensures
        r is None <==> repos@.len() == 0,
        0 <= i < repos@.len() ==> {
            let p = repos@[i]@;
            let t = r->0@.result->0;
            &&& r->0@.error is None
            &&& text::has(
                t,
                p.name + " — "@ + text::decimal(p.file_count as nat) + " files, "@ + text::decimal(
                    p.symbol_count as nat,
                ) + " symbols, "@,
            )
            &&& forall|k: int|
                0 <= k < p.languages.len() && k < 4 ==> text::has(t, #[trigger] p.languages[k])
        },
{
    if 0 <= i < repos@.len() {
        let v = repo_texts(repos@);
        let p = repos@[i]@;
        assert(v[i] == p);
        lemma_repo_lines(v, i);
        let t = r->0@.result->0;
        let head = workspace_head(repos@.len());
        let lines = repo_lines(v);
        let line = repo_line(p);
        assert(t =~= head + lines + Seq::empty());
        let mid = p.name + " — "@ + text::decimal(p.file_count as nat) + " files, "@
            + text::decimal(p.symbol_count as nat) + " symbols, "@;
        let names = if p.languages.len() == 0 {
            "?"@
        } else {
            text::join(text::leading(p.languages, 4), ", "@)
        };
        assert(line =~= "• "@ + mid + (names + "\n"@));
        text::law_affixes(mid, "• "@, names + "\n"@);
        text::lemma_has_within(t, head, lines, Seq::empty(), line);
        lemma_has_part(t, line, mid);
        assert forall|k: int| 0 <= k < p.languages.len() && k < 4 implies text::has(
            t,
            #[trigger] p.languages[k],
        ) by {
            let four = text::leading(p.languages, 4);
            assert(four[k] == p.languages[k]);
            text::lemma_joined_part(four, ", "@, k);
            assert(line =~= ("• "@ + mid) + names + "\n"@);
            text::lemma_has_within(line, "• "@ + mid, names, "\n"@, p.languages[k]);
            lemma_has_part(t, line, p.languages[k]);
        }
    }
}

/// What is in a part is in the whole.
proof fn lemma_has_part(s: Seq<char>, t: Seq<char>, x: Seq<char>)
    requires
        text::has(s, t),
        text::has(t, x),
    ensures
        text::has(s, x),
{
    let k = choose|k: int| text::at(s, t, k);
    let a = s.take(k);
    let b = s.skip(k + t.len());
    assert(s =~= a + t + b);
    text::lemma_has_within(s, a, t, b, x);
}

proof fn lemma_hits_text(v: Seq<code_graph::HitText>, i: int)
    requires
        0 <= i < v.len(),
    ensures
        text::has(hits_text(v), hit_text(v[i])),
    decreases v.len(),
{
    let d = v.drop_last();
    let t = hits_text(v);
    if i < d.len() {
        assert(d[i] == v[i]);
        lemma_hits_text(d, i);
        assert(t =~= Seq::empty() + hits_text(d) + hit_text(v.last()));
        text::lemma_has_within(t, Seq::empty(), hits_text(d), hit_text(v.last()), hit_text(v[i]));
    } else {
        assert(t =~= hits_text(d) + hit_text(v[i]) + Seq::empty());
        text::law_affixes(hit_text(v[i]), hits_text(d), Seq::empty());
    }
}

/// Each hit is shown with its name, its kind, its file and its line, and with
/// its signature and its code where these are known.
#[verifier::rlimit(80)]
pub proof fn law_hits_are_shown(v: Seq<code_graph::HitText>, i: int)
    requires
        0 <= i < v.len(),
    ensures
        text::has(
            hits_text(v),
            v[i].name + " ("@ + v[i].kind + ", "@ + v[i].file + ":"@ + text::decimal(
                v[i].line as nat,
            ) + ")\n"@,
        ),
        v[i].signature matches Some(s) ==> text::has(hits_text(v), s),
        v[i].snippet matches Some(s) ==> text::has(hits_text(v), s),
{
    lemma_hits_text(v, i);
    let h = v[i];
    let t = hit_text(h);
    let head = h.name + " ("@ + h.kind + ", "@ + h.file + ":"@ + text::decimal(h.line as nat)
        + ")\n"@;
    let sig = match h.signature {
        Some(s) => "  "@ + s + "\n"@,
        None => Seq::empty(),
    };
    let snip = match h.snippet {
        Some(s) => line_ended(s),
        None => Seq::empty(),
    };
    assert(t =~= Seq::empty() + head + (sig + snip + "\n"@));
    text::law_affixes(head, Seq::empty(), sig + snip + "\n"@);
    lemma_has_part(hits_text(v), t, head);
    if h.signature is Some {
        let s = h.signature->0;
        assert(t =~= (head + "  "@) + s + ("\n"@ + snip + "\n"@));
        text::law_affixes(s, head + "  "@, "\n"@ + snip + "\n"@);
        lemma_has_part(hits_text(v), t, s);
    }
    if h.snippet is Some {
        let s = h.snippet->0;
        let end = line_ended(s).skip(s.len() as int);
        assert(line_ended(s) =~= s + end);
        assert(t =~= (head + sig) + s + (end + "\n"@));
        text::law_affixes(s, head + sig, end + "\n"@);
        lemma_has_part(hits_text(v), t, s);
    }
}

proof fn lemma_relatives(v: Seq<code_graph::HitText>, i: int)
    requires
        0 <= i < v.len(),
    ensures
        text::has(
            relatives(v),
            "  - "@ + v[i].name + " ("@ + v[i].file + ":"@ + text::decimal(v[i].line as nat)
                + ")\n"@,
        ),
    decreases v.len(),
{
    let d = v.drop_last();
    let t = relatives(v);
    let l = v.last();
    let x = "  - "@ + v[i].name + " ("@ + v[i].file + ":"@ + text::decimal(v[i].line as nat)
        + ")\n"@;
    let last = "  - "@ + l.name + " ("@ + l.file + ":"@ + text::decimal(l.line as nat) + ")\n"@;
    assert(t =~= relatives(d) + last + Seq::empty());
    if i < d.len() {
        assert(d[i] == v[i]);
        lemma_relatives(d, i);
        assert(t =~= Seq::empty() + relatives(d) + last);
        text::lemma_has_within(t, Seq::empty(), relatives(d), last, x);
    } else {
        text::law_affixes(last, relatives(d), Seq::empty());
    }
}

/// A symbol is explained with its name, its kind and its place, with its
/// signature and code where these are known, and with each of its first ten
/// callers and callees; where it has none, it says so.
#[verifier::rlimit(80)]
pub proof fn law_symbols_are_explained(e: code_graph::ExplanationText, i: int)
    ensures
        text::starts(
            explanation_text(e),
            e.name + " ("@ + e.kind + ") at "@ + e.file + ":"@ + text::decimal(e.line as nat)
                + "\n"@,
        ),
        e.signature matches Some(s) ==> text::has(explanation_text(e), "Signature: "@ + s + "\n"@),
        e.snippet matches Some(s) ==> text::has(explanation_text(e), "Snippet:\n"@ + s),
        e.callers.len() == 0 ==> text::has(explanation_text(e), "Callers: (none)\n"@),
        e.callees.len() == 0 ==> text::has(explanation_text(e), "Callees: (none)\n"@),
        0 <= i < e.callers.len() && i < 10 ==> text::has(
            explanation_text(e),
            "  - "@ + e.callers[i].name + " ("@ + e.callers[i].file + ":"@ + text::decimal(
                e.callers[i].line as nat,
            ) + ")\n"@,
        ),
        0 <= i < e.callees.len() && i < 10 ==> text::has(
            explanation_text(e),
            "  - "@ + e.callees[i].name + " ("@ + e.callees[i].file + ":"@ + text::decimal(
                e.callees[i].line as nat,
            ) + ")\n"@,
        ),
{
    let t = explanation_text(e);
    let head = e.name + " ("@ + e.kind + ") at "@ + e.file + ":"@ + text::decimal(e.line as nat)
        + "\n"@;
    let sig = match e.signature {
        Some(s) => "Signature: "@ + s + "\n"@,
        None => Seq::empty(),
    };
    let a = relatives_text("Callers"@, e.callers);
    let b = relatives_text("Callees"@, e.callees);
    let snip = match e.snippet {
        Some(s) => "Snippet:\n"@ + line_ended(s),
        None => Seq::empty(),
    };
    assert(t =~= head + (sig + a + b + snip));
    text::law_affixes(head, sig + a + b + snip, Seq::empty());
    assert(t =~= head + sig + (a + b + snip));
    text::law_affixes(sig, head, a + b + snip);
    assert(t =~= (head + sig) + a + (b + snip));
    text::law_affixes(a, head + sig, b + snip);
    assert(t =~= (head + sig + a) + b + snip);
    text::law_affixes(b, head + sig + a, snip);
    if e.snippet is Some {
        let s = e.snippet->0;
        let end = line_ended(s).skip(s.len() as int);
        assert(line_ended(s) =~= s + end);
        let x = "Snippet:\n"@ + s;
        assert(t =~= (head + sig + a + b) + x + end);
        text::law_affixes(x, head + sig + a + b, end);
    }
    reveal_strlit("Callers");
    reveal_strlit("Callees");
    reveal_strlit(": (none)\n");
    reveal_strlit("Callers: (none)\n");
    reveal_strlit("Callees: (none)\n");
    assert("Callers: (none)\n"@ =~= "Callers"@ + ": (none)\n"@);
    assert("Callees: (none)\n"@ =~= "Callees"@ + ": (none)\n"@);
    if 0 <= i < e.callers.len() && i < 10 {
        lemma_relatives_text("Callers"@, e.callers, i);
        lemma_has_part(
            t,
            a,
            "  - "@ + e.callers[i].name + " ("@ + e.callers[i].file + ":"@ + text::decimal(
                e.callers[i].line as nat,
            ) + ")\n"@,
        );
    }
    if 0 <= i < e.callees.len() && i < 10 {
        lemma_relatives_text("Callees"@, e.callees, i);
        lemma_has_part(
            t,
            b,
            "  - "@ + e.callees[i].name + " ("@ + e.callees[i].file + ":"@ + text::decimal(
                e.callees[i].line as nat,
            ) + ")\n"@,
        );
    }
}

proof fn lemma_relatives_text(title: Seq<char>, v: Seq<code_graph::HitText>, i: int)
    requires
        0 <= i < v.len(),
        i < 10,
    ensures
        text::has(
            relatives_text(title, v),
            "  - "@ + v[i].name + " ("@ + v[i].file + ":"@ + text::decimal(v[i].line as nat)
                + ")\n"@,
        ),
{
    let ten = text::leading(v, 10);
    assert(ten[i] == v[i]);
    lemma_relatives(ten, i);
    let t = relatives_text(title, v);
    assert(t =~= (title + ":\n"@) + relatives(ten) + Seq::empty());
    text::lemma_has_within(
        t,
        title + ":\n"@,
        relatives(ten),
        Seq::empty(),
        "  - "@ + v[i].name + " ("@ + v[i].file + ":"@ + text::decimal(v[i].line as nat) + ")\n"@,
    );
}

/// Each memory is listed with its identifier, its kind and its title; each page
/// that was found with its number, its title, its address and what it says.
pub proof fn law_entries_are_listed(
    v: &Vec<MemoryItem>,
    r: Reply,
    w: &Result<Vec<WebHit>, String>,
    s: Reply,
    i: int,
)
    requires
        call_ensures(memory_list_reply, (v,), r),
        call_ensures(web_search_reply, (w,), s),
    ensures
        v@.len() == 0 ==> r@.result == Some("No memory stored."@),
        0 <= i < v@.len() ==> text::has(
            r@.result->0,
            "["@ + v@[i]@.id + "] ("@ + v@[i]@.kind + ") "@ + v@[i]@.title,
        ),
        *w matches Err(e) ==> s@.error == Some(e@) && s@.result is None,
        *w matches Ok(x) ==> s@.error is None && (x@.len() == 0 ==> s@.result == Some(
            "No results found."@,
        )) && (0 <= i < x@.len() ==> text::has(s@.result->0, x@[i].title@) && text::has(
            s@.result->0,
            x@[i].url@,
        ) && text::has(s@.result->0, x@[i].snippet@) && text::has(
            s@.result->0,
            text::decimal((i + 1) as nat) + ". "@ + x@[i].title@,
        )),
{
    if 0 <= i < v@.len() {
        let all = memory_entries(mcp::memory_texts(v@));
        assert(all[i] == "["@ + v@[i]@.id + "] ("@ + v@[i]@.kind + ") "@ + v@[i]@.title);
        text::lemma_joined_part(all, "\n"@, i);
    }
    if let Ok(x) = *w {
        if 0 <= i < x@.len() {
            let all = web_entries(x@);
            let h = x@[i];
            let n = text::decimal((i + 1) as nat);
            let entry = n + ". "@ + h.title@ + "\n   "@ + h.url@ + "\n   "@ + h.snippet@;
            assert(all[i] == entry);
            text::lemma_joined_part(all, "\n\n"@, i);
            let head = n + ". "@ + h.title@;
            assert(entry =~= Seq::empty() + head + ("\n   "@ + h.url@ + "\n   "@ + h.snippet@));
            text::law_affixes(head, Seq::empty(), "\n   "@ + h.url@ + "\n   "@ + h.snippet@);
            assert(entry =~= (n + ". "@) + h.title@ + ("\n   "@ + h.url@ + "\n   "@ + h.snippet@));
            text::law_affixes(h.title@, n + ". "@, "\n   "@ + h.url@ + "\n   "@ + h.snippet@);
            assert(entry =~= (head + "\n   "@) + h.url@ + ("\n   "@ + h.snippet@));
            text::law_affixes(h.url@, head + "\n   "@, "\n   "@ + h.snippet@);
            assert(entry =~= (head + "\n   "@ + h.url@ + "\n   "@) + h.snippet@ + Seq::empty());
            text::law_affixes(h.snippet@, head + "\n   "@ + h.url@ + "\n   "@, Seq::empty());
            lemma_has_part(s@.result->0, entry, head);
            lemma_has_part(s@.result->0, entry, h.title@);
            lemma_has_part(s@.result->0, entry, h.url@);
            lemma_has_part(s@.result->0, entry, h.snippet@);
        }
    }
}

/// What is to be remembered is what the call says, under the kind it names.
pub proof fn law_remembrance(args: &Json, r: Remembrance, i: int)
    requires
        call_ensures(remembrance_of, (args,), r),
    ensures
        args@.member_text("content"@) matches Some(c) ==> r.content@ == c,
        args@.member_text("title"@) matches Some(c) ==> r.title@ == c,
        args@.member_text("type"@) matches Some(c) ==> r.kind@ == c,
        args@.member_text("type"@) is None ==> r.kind@ == "context"@,
        args@.member_items("tags"@) is None ==> r.tags@.len() == 0,
        args@.member_items("tags"@) matches Some(v) ==> (0 <= i < v.len() && v[i] is Text
            ==> text::texts(r.tags@).contains(v[i]->Text_0)),
{
    assert(text::texts(r.tags@).len() == r.tags@.len());
    if let Some(v) = args@.member_items("tags"@) {
        if 0 <= i < v.len() && v[i] is Text {
            json::lemma_string_in(v, i);
        }
    }
}

/// A name that cannot be one of a symbol is not looked up, and is named; what was
/// remembered and forgotten is told by its identifier.
pub proof fn law_small_answers(
    symbol: &str,
    valid: bool,
    r: Option<Reply>,
    id: &str,
    found: bool,
    f: Reply,
    m: &MemoryItem,
    s: Reply,
    cwd: &str,
    listing: &str,
    l: Reply,
)
    requires
        call_ensures(refuse_symbol, (symbol, valid), r),
        call_ensures(memory_forget_reply, (id, found), f),
        call_ensures(memory_remember_reply, (m,), s),
        call_ensures(files_reply, (cwd, listing), l),
    ensures
        valid ==> r is None,
        !valid ==> (r matches Some(x) && (x@.result matches Some(t) && text::has(t, symbol@))),
        found ==> f@.result == Some("Deleted "@ + id@),
        !found ==> f@.result == Some("Not found: "@ + id@),
        s@.result matches Some(t) && text::has(t, m@.title) && text::has(t, m@.id),
        l@.result matches Some(t) && text::ends(t, listing@) && text::has(t, cwd@),
{
    text::law_affixes(symbol@, "Symbol \""@, "\" is not a valid identifier."@);
    let a = "Remembered ["@ + m@.kind + "] \""@;
    let t = a + m@.title + "\" ("@ + m@.id + ")"@;
    assert(t =~= a + m@.title + ("\" ("@ + m@.id + ")"@));
    text::law_affixes(m@.title, a, "\" ("@ + m@.id + ")"@);
    text::law_affixes(m@.id, a + m@.title + "\" ("@, ")"@);
    let u = "Files in "@ + cwd@ + ":\n"@ + listing@;
    assert(u =~= "Files in "@ + cwd@ + (":\n"@ + listing@));
    text::law_affixes(cwd@, "Files in "@, ":\n"@ + listing@);
    text::law_affixes(listing@, "Files in "@ + cwd@ + ":\n"@, Seq::empty());
}

/// The web is used only where that is switched on; how many lines are read
/// without being asked for.
pub proof fn law_small_decisions(on: bool, r: Option<Reply>, args: &Json, n: u64, k: u32)
    requires
        call_ensures(refuse_web, (on,), r),
        call_ensures(lines_to_read, (args,), n),
        call_ensures(graph_tokens, (args,), k),
    ensures
        on ==> r is None,
        !on ==> (r matches Some(x) && x@.error is Some),
        args@.member_unsigned("read_lines"@) matches Some(m) ==> n == m,
        args@.member_unsigned("read_lines"@) is None ==> n == 50,
        args@.member_unsigned("max_tokens"@) is None ==> k == 4000,
        args@.member_unsigned("max_tokens"@) matches Some(m) ==> (m <= u32::MAX ==> k == m),
{
}

} // verus!
