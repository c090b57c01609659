//! The agent as a server for other tools: which request asks for what, and how
//! the answers read.

use vstd::prelude::*;

use crate::edit;
use crate::json;
use crate::json::Json;
use crate::outside;
use crate::text;

verus! {

pub const PROTOCOL_VERSION: &'static str = "2024-11-05";

pub const PARSE_ERROR: i64 = -32700;

pub const UNKNOWN_METHOD: i64 = -32601;

/// What a request asks for.
#[derive(Debug)]
pub enum Method {
    Initialize,
    ListTools,
    CallTool,
    /// No such method; the text says so.
    Unknown(String),
}

/// Which method a request names.
pub fn method_of(method: &str) -> (r: Method)
    ensures
        if method@ == "initialize"@ {
            r is Initialize
        } else if method@ == "tools/list"@ {
            r is ListTools
        } else if method@ == "tools/call"@ {
            r is CallTool
        } else {
            r matches Method::Unknown(s) && s@ == "Unknown method: "@ + method@
        },
{
    if text::same(method, "initialize") {
        Method::Initialize
    } else if text::same(method, "tools/list") {
        Method::ListTools
    } else if text::same(method, "tools/call") {
        Method::CallTool
    } else {
        let mut s: String = "Unknown method: ".to_owned();
        s.push_str(method);
        Method::Unknown(s)
    }
}

/// A tool that the server offers. All its parameters are texts; the first
/// `required` of them have to be given.
#[derive(Debug)]
pub struct ServedTool {
    pub name: &'static str,
    pub description: &'static str,
    pub params: Vec<&'static str>,
    pub required: usize,
}

pub ghost struct ServedText {
    pub name: Seq<char>,
    pub description: Seq<char>,
    pub params: Seq<Seq<char>>,
    pub required: nat,
}

pub open spec fn str_texts(v: Seq<&'static str>) -> Seq<Seq<char>> {
    v.map_values(|s: &'static str| s@)
}

impl View for ServedTool {
    type V = ServedText;

    open spec fn view(&self) -> ServedText {
        ServedText {
            name: self.name@,
            description: self.description@,
            params: str_texts(self.params@),
            required: self.required as nat,
        }
    }
}

pub open spec fn served(
    name: Seq<char>,
    description: Seq<char>,
    params: Seq<Seq<char>>,
    required: nat,
) -> ServedText {
    ServedText { name, description, params, required }
}

/// The tools that the server offers.
pub open spec fn served_tools() -> Seq<ServedText> {
    seq![
        served("itsy_read_file"@, "Read file contents"@, seq!["path"@], 1),
        served("itsy_search"@, "Search code with regex"@, seq!["pattern"@, "path"@], 1),
        served(
            "itsy_patch"@,
            "Edit file via search-and-replace"@,
            seq!["path"@, "old_str"@, "new_str"@],
            3,
        ),
        served("itsy_bash"@, "Run shell command"@, seq!["command"@], 1),
        served("itsy_memory_load"@, "Load relevant project memory"@, seq!["task"@], 1),
        served(
            "itsy_memory_remember"@,
            "Save knowledge to project memory"@,
            seq!["type"@, "title"@, "content"@],
            3,
        ),
        served("itsy_agent"@, "Send a prompt to itsy"@, seq!["message"@], 1),
    ]
}

fn offer(
    name: &'static str,
    description: &'static str,
    params: Vec<&'static str>,
    required: usize,
) -> (r: ServedTool)
    ensures
        r@ == served(name@, description@, str_texts(params@), required as nat),
{
    ServedTool { name, description, params, required }
}

/// The tools that the server offers.
pub fn list_tools() -> (r: Vec<ServedTool>)
    ensures
        r@.map_values(|t: ServedTool| t@) == served_tools(),
{
    let p1 = vec!["path"];
    assert(str_texts(p1@) =~= seq!["path"@]);
    let p2 = vec!["pattern", "path"];
    assert(str_texts(p2@) =~= seq!["pattern"@, "path"@]);
    let p3 = vec!["path", "old_str", "new_str"];
    assert(str_texts(p3@) =~= seq!["path"@, "old_str"@, "new_str"@]);
    let p4 = vec!["command"];
    assert(str_texts(p4@) =~= seq!["command"@]);
    let p5 = vec!["task"];
    assert(str_texts(p5@) =~= seq!["task"@]);
    let p6 = vec!["type", "title", "content"];
    assert(str_texts(p6@) =~= seq!["type"@, "title"@, "content"@]);
    let p7 = vec!["message"];
    assert(str_texts(p7@) =~= seq!["message"@]);
    let r = vec![
        offer("itsy_read_file", "Read file contents", p1, 1),
        offer("itsy_search", "Search code with regex", p2, 1),
        offer("itsy_patch", "Edit file via search-and-replace", p3, 3),
        offer("itsy_bash", "Run shell command", p4, 1),
        offer("itsy_memory_load", "Load relevant project memory", p5, 1),
        offer("itsy_memory_remember", "Save knowledge to project memory", p6, 3),
        offer("itsy_agent", "Send a prompt to itsy", p7, 1),
    ];
    assert(r@.map_values(|t: ServedTool| t@) =~= served_tools());
    r
}

// ---------------------------------------------------------------------------
// Calls
// ---------------------------------------------------------------------------

pub const WIPE_PATTERN: &'static str = "rm\\s+-rf\\s+/[^.]";

pub const FORMAT_PATTERN: &'static str = "(?i)format\\s+c:";

/// A command that would destroy the machine's files.
pub open spec fn destructive(command: Seq<char>) -> bool {
    outside::regex_matches(WIPE_PATTERN@, command) || outside::regex_matches(
        FORMAT_PATTERN@,
        command,
    )
}

/// Whether a command would destroy the machine's files.
pub fn is_destructive(command: &str) -> (r: bool)
    ensures
        r == destructive(command@),
{
    outside::regex_is_match(WIPE_PATTERN, command) || outside::regex_is_match(
        FORMAT_PATTERN,
        command,
    )
}

/// What is to be done for a call.
#[derive(Debug)]
pub enum Served {
    ReadFile { path: String },
    Bash { command: String },
    Search { pattern: String, path: String },
    Patch { path: String, old: String, new: String },
    MemoryLoad { task: String },
    MemoryRemember { kind: String, title: String, content: String },
    Agent { message: String },
    /// The answer is known at once.
    Answer(String),
}

pub ghost enum ServedPlan {
    ReadFile { path: Seq<char> },
    Bash { command: Seq<char> },
    Search { pattern: Seq<char>, path: Seq<char> },
    Patch { path: Seq<char>, old_str: Seq<char>, new_str: Seq<char> },
    MemoryLoad { task: Seq<char> },
    MemoryRemember { kind: Seq<char>, title: Seq<char>, content: Seq<char> },
    Agent { message: Seq<char> },
    Answer(Seq<char>),
}

impl View for Served {
    type V = ServedPlan;

    open spec fn view(&self) -> ServedPlan {
        match self {
            Served::ReadFile { path } => ServedPlan::ReadFile { path: path@ },
            Served::Bash { command } => ServedPlan::Bash { command: command@ },
            Served::Search { pattern, path } => ServedPlan::Search {
                pattern: pattern@,
                path: path@,
            },
            Served::Patch { path, old, new } => ServedPlan::Patch {
                path: path@,
                old_str: old@,
                new_str: new@,
            },
            Served::MemoryLoad { task } => ServedPlan::MemoryLoad { task: task@ },
            Served::MemoryRemember { kind, title, content } => ServedPlan::MemoryRemember {
                kind: kind@,
                title: title@,
                content: content@,
            },
            Served::Agent { message } => ServedPlan::Agent { message: message@ },
            Served::Answer(s) => ServedPlan::Answer(s@),
        }
    }
}

/// What is to be done for a call of the tool `name`; `is_wipe` says whether its
/// command is destructive.
pub open spec fn planned(name: Seq<char>, args: json::JsonText, is_wipe: bool) -> ServedPlan {
    if name == "itsy_read_file"@ {
        ServedPlan::ReadFile { path: args.member_text_or("path"@, ""@) }
    } else if name == "itsy_bash"@ {
        if is_wipe {
            ServedPlan::Answer("Error: destructive command blocked"@)
        } else {
            ServedPlan::Bash { command: args.member_text_or("command"@, ""@) }
        }
    } else if name == "itsy_search"@ {
        ServedPlan::Search {
            pattern: args.member_text_or("pattern"@, ""@),
            path: args.member_text_or("path"@, "."@),
        }
    } else if name == "itsy_patch"@ {
        ServedPlan::Patch {
            path: args.member_text_or("path"@, ""@),
            old_str: args.member_text_or("old_str"@, ""@),
            new_str: args.member_text_or("new_str"@, ""@),
        }
    } else if name == "itsy_memory_load"@ {
        ServedPlan::MemoryLoad { task: args.member_text_or("task"@, ""@) }
    } else if name == "itsy_memory_remember"@ {
        ServedPlan::MemoryRemember {
            kind: args.member_text_or("type"@, "context"@),
            title: args.member_text_or("title"@, ""@),
            content: args.member_text_or("content"@, ""@),
        }
    } else if name == "itsy_agent"@ {
        ServedPlan::Agent { message: args.member_text_or("message"@, ""@) }
    } else {
        ServedPlan::Answer("Unknown tool: "@ + name)
    }
}

/// What is to be done for a call, when it is known whether its command is
/// destructive.
pub fn plan_with(name: &str, args: &Json, is_wipe: bool) -> (r: Served)
    ensures
        r@ == planned(name@, args@, is_wipe),
{
    if text::same(name, "itsy_read_file") {
        Served::ReadFile { path: args.get_str_or("path", "") }
    } else if text::same(name, "itsy_bash") {
        if is_wipe {
            Served::Answer("Error: destructive command blocked".to_owned())
        } else {
            Served::Bash { command: args.get_str_or("command", "") }
        }
    } else if text::same(name, "itsy_search") {
        Served::Search {
            pattern: args.get_str_or("pattern", ""),
            path: args.get_str_or("path", "."),
        }
    } else if text::same(name, "itsy_patch") {
        Served::Patch {
            path: args.get_str_or("path", ""),
            old: args.get_str_or("old_str", ""),
            new: args.get_str_or("new_str", ""),
        }
    } else if text::same(name, "itsy_memory_load") {
        Served::MemoryLoad { task: args.get_str_or("task", "") }
    } else if text::same(name, "itsy_memory_remember") {
        Served::MemoryRemember {
            kind: args.get_str_or("type", "context"),
            title: args.get_str_or("title", ""),
            content: args.get_str_or("content", ""),
        }
    } else if text::same(name, "itsy_agent") {
        Served::Agent { message: args.get_str_or("message", "") }
    } else {
        let mut s: String = "Unknown tool: ".to_owned();
        s.push_str(name);
        Served::Answer(s)
    }
}

/// What is to be done for a call.
pub fn plan_call(name: &str, args: &Json) -> (r: Served)
    ensures
        r@ == planned(name@, args@, destructive(args@.member_text_or("command"@, ""@))),
{
    let command = args.get_str_or("command", "");
    plan_with(name, args, is_destructive(&command))
}

/// The answer to a command: what it wrote, four thousand characters at most.
pub fn bash_answer(stdout: &str, stderr: &str) -> (r: String)
    ensures
        r@ == text::head(stdout@ + stderr@, 4000),
{
    let mut s: String = stdout.to_owned();
    s.push_str(stderr);
    text::take_chars(&s, 4000)
}

/// The answer to a search: what it found, three thousand characters at most.
/// `stdout` is nothing when the search could not be run.
pub fn search_answer(stdout: &Option<String>) -> (r: String)
    ensures
        r@ == (match text::opt_text(*stdout) {
            Some(s) => if s.len() > 0 {
                text::head(s, 3000)
            } else {
                "No matches"@
            },
            None => "No matches"@,
        }),
{
    match stdout {
        Some(s) => {
            if s.as_str().is_empty() {
                "No matches".to_owned()
            } else {
                text::take_chars(s, 3000)
            }
        },
        None => "No matches".to_owned(),
    }
}

pub open spec fn failed(reason: Seq<char>) -> Seq<char> {
    "Error: "@ + reason
}

/// The answer to something that failed.
pub fn error_answer(reason: &str) -> (r: String)
    ensures
        r@ == failed(reason@),
{
    let mut s: String = "Error: ".to_owned();
    s.push_str(reason);
    s
}

/// What a patch makes of a file: the new content, or why it was not made.
pub open spec fn patched(content: Seq<char>, old_str: Seq<char>, new_str: Seq<char>) -> Result<
    Seq<char>,
    Seq<char>,
> {
    if !text::has(content, old_str) {
        Err("Error: old_str not found"@)
    } else if edit::hits(content, old_str) > 1 {
        Err("Error: old_str matches multiple locations"@)
    } else {
        Ok(edit::first_replaced(content, old_str, new_str))
    }
}

pub open spec fn result_texts(r: Result<String, String>) -> Result<Seq<char>, Seq<char>> {
    match r {
        Ok(s) => Ok(s@),
        Err(s) => Err(s@),
    }
}

/// What a patch makes of a file: the text to be replaced has to stand in it
/// exactly once.
pub fn patch_content(content: &str, old_str: &str, new_str: &str) -> (r: Result<String, String>)
    ensures
        result_texts(r) == patched(content@, old_str@, new_str@),
{
    if !text::contains(content, old_str) {
        Err("Error: old_str not found".to_owned())
    } else if edit::count_hits(content, old_str) > 1 {
        Err("Error: old_str matches multiple locations".to_owned())
    } else {
        Ok(edit::replace_first(content, old_str, new_str))
    }
}

/// The answer to a patch that was written.
pub fn patch_answer(path: &str) -> (r: String)
    ensures
        r@ == "Patched "@ + path@,
{
    let mut s: String = "Patched ".to_owned();
    s.push_str(path);
    s
}

// ---------------------------------------------------------------------------
// Memory
// ---------------------------------------------------------------------------

/// A piece of project memory.
#[derive(Debug)]
pub struct MemoryItem {
    pub id: String,
    pub kind: String,
    pub title: String,
    pub content: String,
}

pub ghost struct MemoryText {
    pub id: Seq<char>,
    pub kind: Seq<char>,
    pub title: Seq<char>,
    pub content: Seq<char>,
}

impl View for MemoryItem {
    type V = MemoryText;

    open spec fn view(&self) -> MemoryText {
        MemoryText {
            id: self.id@,
            kind: self.kind@,
            title: self.title@,
            content: self.content@,
        }
    }
}

pub open spec fn memory_texts(v: Seq<MemoryItem>) -> Seq<MemoryText> {
    v.map_values(|m: MemoryItem| m@)
}

pub open spec fn memory_line(m: MemoryText) -> Seq<char> {
    "["@ + m.kind + "] "@ + m.title + ": "@ + m.content
}

/// One piece of memory as a line.
pub fn format_memory(m: &MemoryItem) -> (r: String)
    ensures
        r@ == memory_line(m@),
{
    let mut s: String = "[".to_owned();
    s.push_str(&m.kind);
    s.push_str("] ");
    s.push_str(&m.title);
    s.push_str(": ");
    s.push_str(&m.content);
    s
}

pub open spec fn memory_lines(v: Seq<MemoryText>) -> Seq<Seq<char>> {
    v.map_values(|m: MemoryText| memory_line(m))
}

/// Pieces of memory as lines.
pub fn format_memories(v: &Vec<MemoryItem>) -> (r: Vec<String>)
    ensures
        text::texts(r@) == memory_lines(memory_texts(v@)),
{
    let mut r: Vec<String> = Vec::new();
    let mut i: usize = 0;
    while i < v.len()
        invariant
            i <= v.len(),
            r.len() == i,
            forall|j: int| 0 <= j < i ==> (#[trigger] r@[j])@ == memory_line(v@[j]@),
        decreases v.len() - i,
    {
        r.push(format_memory(&v[i]));
        i = i + 1;
    }
    assert(text::texts(r@) =~= memory_lines(memory_texts(v@)));
    r
}

/// The answer to a request for memory.
pub fn memory_answer(v: &Vec<MemoryItem>) -> (r: String)
    ensures
        r@ == (if v@.len() == 0 {
            "No relevant memory found."@
        } else {
            text::join(memory_lines(memory_texts(v@)), "\n\n"@)
        }),
{
    if v.len() == 0 {
        "No relevant memory found.".to_owned()
    } else {
        let lines = format_memories(v);
        text::join_with(&lines, "\n\n")
    }
}

/// The answer to something that was remembered.
pub fn remember_answer(m: &MemoryItem) -> (r: String)
    ensures
        r@ == "Remembered: ["@ + m@.kind + "] "@ + m@.title + " ("@ + m@.id + ")"@,
{
    let mut s: String = "Remembered: [".to_owned();
    s.push_str(&m.kind);
    s.push_str("] ");
    s.push_str(&m.title);
    s.push_str(" (");
    s.push_str(&m.id);
    s.push_str(")");
    s
}

/// A patch answers with an error, and leaves the file alone, unless the text to
/// be replaced stands in the file exactly once.
pub proof fn law_patch_is_unambiguous(
    content: Seq<char>,
    old_str: Seq<char>,
    new_str: Seq<char>,
)
    requires
        old_str.len() > 0,
    ensures
        (patched(content, old_str, new_str) is Ok) == (edit::hits(content, old_str) == 1),
{
    text::lemma_has_first(content, old_str);
    text::lemma_first_at(content, old_str, 0);
}

/// The three methods are known by their names, and another one is refused by its
/// name.
pub proof fn law_methods(method: &str, r: Method)
    requires
        call_ensures(method_of, (method,), r),
    ensures
        r is Initialize <==> method@ == "initialize"@,
        r is ListTools <==> method@ == "tools/list"@,
        r is CallTool <==> method@ == "tools/call"@,
        r matches Method::Unknown(s) ==> text::ends(s@, method@),
{
    reveal_strlit("initialize");
    reveal_strlit("tools/list");
    reveal_strlit("tools/call");
    assert("initialize"@.len() == 10 && "tools/list"@.len() == 10 && "tools/call"@.len() == 10);
    assert("initialize"@[0] == 'i' && "tools/list"@[0] == 't' && "tools/call"@[0] == 't' && "tools/list"@[6] == 'l');
    assert("tools/call"@[6] == 'c');
    text::law_affixes(method@, "Unknown method: "@, Seq::empty());
}

/// Seven tools are served, each under a name of its own, and at least its first
/// parameter has to be given.
pub proof fn law_served_tools(i: int, j: int)
    requires
        0 <= i < j < 7,
    ensures
        served_tools().len() == 7,
        served_tools()[i].name != served_tools()[j].name,
        1 <= served_tools()[i].required <= served_tools()[i].params.len(),
        1 <= served_tools()[j].required <= served_tools()[j].params.len(),
        text::starts(served_tools()[i].name, "itsy_"@),
{
    reveal_strlit("itsy_read_file");
    reveal_strlit("itsy_search");
    reveal_strlit("itsy_patch");
    reveal_strlit("itsy_bash");
    reveal_strlit("itsy_memory_load");
    reveal_strlit("itsy_memory_remember");
    reveal_strlit("itsy_agent");
    assert("itsy_read_file"@.len() == 14 && "itsy_search"@.len() == 11 && "itsy_patch"@.len() == 10 && "itsy_bash"@.len() == 9 && "itsy_memory_load"@.len() == 16 && "itsy_memory_remember"@.len() == 20 && "itsy_agent"@.len() == 10);
    assert("itsy_patch"@[5] == 'p' && "itsy_agent"@[5] == 'a');
    reveal_strlit("itsy_");
    assert(served_tools()[i].name.subrange(0, 5) =~= "itsy_"@);
}

/// Each served tool does what its name says, with the arguments that the call
/// gives; a command that would wipe the machine is not run, and a name that is
/// not known is answered with an error that names it.
pub proof fn law_served_calls(name: Seq<char>, args: json::JsonText, a: Seq<char>, wipe: bool)
    ensures
        args.member_text("path"@) == Some(a) ==> planned("itsy_read_file"@, args, wipe)
            == (ServedPlan::ReadFile { path: a }),
        args.member_text("command"@) == Some(a) ==> planned("itsy_bash"@, args, false)
            == (ServedPlan::Bash { command: a }),
        planned("itsy_bash"@, args, true) is Answer,
        args.member_text("pattern"@) == Some(a) ==> (planned(
            "itsy_search"@,
            args,
            wipe,
        ) matches ServedPlan::Search { pattern, path } && pattern == a && (args.member_text(
            "path"@,
        ) is None ==> path == "."@)),
        planned("itsy_patch"@, args, wipe) matches ServedPlan::Patch { path, old_str, new_str } && (
        args.member_text("path"@) == Some(a) ==> path == a) && (args.member_text("old_str"@) == Some(
            a,
        ) ==> old_str == a) && (args.member_text("new_str"@) == Some(a) ==> new_str == a),
        args.member_text("task"@) == Some(a) ==> planned("itsy_memory_load"@, args, wipe)
            == (ServedPlan::MemoryLoad { task: a }),
        planned("itsy_memory_remember"@, args, wipe) matches ServedPlan::MemoryRemember {
            kind,
            title,
            content,
        } && (args.member_text("type"@) == Some(a) ==> kind == a) && (args.member_text("title"@)
            == Some(a) ==> title == a) && (args.member_text("content"@) == Some(a) ==> content == a),
        args.member_text("message"@) == Some(a) ==> planned("itsy_agent"@, args, wipe)
            == (ServedPlan::Agent { message: a }),
        name != "itsy_read_file"@ && name != "itsy_search"@ && name != "itsy_patch"@ && name != "itsy_bash"@ && name != "itsy_memory_load"@ && name != "itsy_memory_remember"@ && name != "itsy_agent"@ ==> (planned(name, args, wipe) matches ServedPlan::Answer(s) && text::ends(s, name)),
{
    reveal_strlit("itsy_read_file");
    reveal_strlit("itsy_search");
    reveal_strlit("itsy_patch");
    reveal_strlit("itsy_bash");
    reveal_strlit("itsy_memory_load");
    reveal_strlit("itsy_memory_remember");
    reveal_strlit("itsy_agent");
    assert("itsy_read_file"@.len() == 14 && "itsy_search"@.len() == 11 && "itsy_patch"@.len() == 10 && "itsy_bash"@.len() == 9 && "itsy_memory_load"@.len() == 16 && "itsy_memory_remember"@.len() == 20 && "itsy_agent"@.len() == 10);
    assert("itsy_patch"@[5] == 'p' && "itsy_agent"@[5] == 'a');
    text::law_affixes(name, "Unknown tool: "@, Seq::empty());
}

/// A patch replaces the one place where the text stands, and leaves what is
/// before and behind it.
pub proof fn law_patch_replaces_one_place(a: Seq<char>, old_str: Seq<char>, b: Seq<char>, new_str: Seq<char>)
    requires
        old_str.len() > 0,
        forall|i: int|
            0 <= i < a.len() && i + old_str.len() <= (a + old_str + b).len() ==> #[trigger] (a
                + old_str + b).subrange(i, i + old_str.len()) != old_str,
        !text::has(b, old_str),
    ensures
        patched(a + old_str + b, old_str, new_str) == Ok::<Seq<char>, Seq<char>>(a + new_str + b),
{
    assert forall|i: int| 0 <= i && i + old_str.len() <= b.len() implies #[trigger] b.subrange(
        i,
        i + old_str.len(),
    ) != old_str by {
        assert(!text::at(b, old_str, i));
    }
    edit::law_one_hit(a, old_str, b);
    text::law_affixes(old_str, a, b);
}

/// Each memory is told with its kind, its title and what it says.
pub proof fn law_memories_are_told(v: &Vec<MemoryItem>, r: String, i: int)
    requires
        call_ensures(memory_answer, (v,), r),
    ensures
        v@.len() == 0 ==> r@ == "No relevant memory found."@,
        0 <= i < v@.len() ==> text::has(
            r@,
            "["@ + v@[i]@.kind + "] "@ + v@[i]@.title + ": "@ + v@[i]@.content,
        ),
{
    if 0 <= i < v@.len() {
        let all = memory_lines(memory_texts(v@));
        assert(all[i] == "["@ + v@[i]@.kind + "] "@ + v@[i]@.title + ": "@ + v@[i]@.content);
        text::lemma_joined_part(all, "\n\n"@, i);
    }
}

/// What a command wrote, and what a search found, is answered from its start.
pub proof fn law_outputs_are_answered(out: &str, err: &str, r: String, found: &Option<String>, s: String)
    requires
        call_ensures(bash_answer, (out, err), r),
        call_ensures(search_answer, (found,), s),
    ensures
        out@.len() + err@.len() <= 4000 ==> r@ == out@ + err@,
        r@.is_prefix_of(out@ + err@),
        *found is None ==> s@ == "No matches"@,
        *found matches Some(f) ==> (0 < f@.len() <= 3000 ==> s@ == f@) && (f@.len() == 0 ==> s@
            == "No matches"@),
{
    text::law_head(out@ + err@, 4000);
    if let Some(f) = *found {
        text::law_head(f@, 3000);
    }
}

} // verus!
