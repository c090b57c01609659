//! The built-in tools: what each decides, and how it answers.

use vstd::prelude::*;

use crate::json;
use crate::json::Json;
use crate::text;

pub mod contracts;
pub mod files;
pub mod lookup;
pub mod shell;

verus! {

/// The answer of a tool.
#[derive(Debug)]
pub struct Reply {
    pub result: Option<String>,
    pub error: Option<String>,
    pub action: Option<String>,
    pub path: Option<String>,
    pub lines: Option<u64>,
    pub line: Option<u64>,
    pub command: Option<String>,
    pub category: Option<String>,
}

pub ghost struct ReplyText {
    pub result: Option<Seq<char>>,
    pub error: Option<Seq<char>>,
    pub action: Option<Seq<char>>,
    pub path: Option<Seq<char>>,
    pub lines: Option<u64>,
    pub line: Option<u64>,
    pub command: Option<Seq<char>>,
    pub category: Option<Seq<char>>,
}

impl View for Reply {
    type V = ReplyText;

    open spec fn view(&self) -> ReplyText {
        ReplyText {
            result: text::opt_text(self.result),
            error: text::opt_text(self.error),
            action: text::opt_text(self.action),
            path: text::opt_text(self.path),
            lines: self.lines,
            line: self.line,
            command: text::opt_text(self.command),
            category: text::opt_text(self.category),
        }
    }
}

pub open spec fn silence() -> ReplyText {
    ReplyText {
        result: None,
        error: None,
        action: None,
        path: None,
        lines: None,
        line: None,
        command: None,
        category: None,
    }
}

/// A plain result.
pub open spec fn told(result: Seq<char>) -> ReplyText {
    ReplyText { result: Some(result), ..silence() }
}

/// A plain error.
pub open spec fn refused(error: Seq<char>) -> ReplyText {
    ReplyText { error: Some(error), ..silence() }
}

/// The result of a command.
pub open spec fn ran(result: Seq<char>, command: Seq<char>) -> ReplyText {
    ReplyText { command: Some(command), ..told(result) }
}

/// The result of a command that failed.
pub open spec fn broke(result: Seq<char>, error: Seq<char>, command: Seq<char>) -> ReplyText {
    ReplyText { error: Some(error), ..ran(result, command) }
}

/// A member with a text, when there is one.
pub open spec fn text_member(key: Seq<char>, value: Option<Seq<char>>) -> Seq<
    (Seq<char>, json::JsonText),
> {
    match value {
        Some(s) => seq![(key, json::JsonText::Text(s))],
        None => Seq::empty(),
    }
}

/// A member with a number, when there is one.
pub open spec fn number_member(key: Seq<char>, value: Option<u64>) -> Seq<
    (Seq<char>, json::JsonText),
> {
    match value {
        Some(n) => seq![(key, json::JsonText::Unsigned(n))],
        None => Seq::empty(),
    }
}

/// The answer of a tool as a value, which has a member for each part that there
/// is.
pub open spec fn reply_value(r: ReplyText) -> json::JsonText {
    json::JsonText::Table(
        text_member("action"@, r.action) + text_member("category"@, r.category) + text_member(
            "command"@,
            r.command,
        ) + text_member("error"@, r.error) + number_member("line"@, r.line) + number_member(
            "lines"@,
            r.lines,
        ) + text_member("path"@, r.path) + text_member("result"@, r.result),
    )
}

fn add_text(v: &mut Vec<(String, Json)>, key: &str, value: &Option<String>)
    ensures
        json::members(final(v)@) == json::members(old(v)@) + text_member(
            key@,
            text::opt_text(*value),
        ),
{
    let ghost before = json::members(v@);
    match value {
        Some(s) => {
            v.push((key.to_owned(), json::word(s)));
            assert(json::members(v@) =~= before + text_member(key@, Some(s@)));
        },
        None => {
            assert(before + text_member(key@, None) =~= before);
        },
    }
}

fn add_number(v: &mut Vec<(String, Json)>, key: &str, value: Option<u64>)
    ensures
        json::members(final(v)@) == json::members(old(v)@) + number_member(key@, value),
{
    let ghost before = json::members(v@);
    match value {
        Some(n) => {
            v.push((key.to_owned(), Json::Unsigned(n)));
            assert(json::members(v@) =~= before + number_member(key@, value));
        },
        None => {
            assert(before + number_member(key@, value) =~= before);
        },
    }
}

impl Reply {
    /// The answer as a value, which has a member for each part that there is.
    pub fn to_value(&self) -> (r: Json)
        ensures
            r@ == reply_value(self@),
    {
        let mut v: Vec<(String, Json)> = Vec::new();
        let ghost none = Seq::<(Seq<char>, json::JsonText)>::empty();
        assert(json::members(v@) =~= none);
        add_text(&mut v, "action", &self.action);
        assert(json::members(v@) =~= text_member("action"@, self@.action));
        add_text(&mut v, "category", &self.category);
        add_text(&mut v, "command", &self.command);
        add_text(&mut v, "error", &self.error);
        add_number(&mut v, "line", self.line);
        add_number(&mut v, "lines", self.lines);
        add_text(&mut v, "path", &self.path);
        add_text(&mut v, "result", &self.result);
        json::table(v)
    }
}

/// The answer of a tool that failed before it did anything.
pub fn failed(reason: &str) -> (r: Reply)
    ensures
        r@ == refused(reason@),
{
    refuse(reason.to_owned())
}

/// The answer of a tool that has something to say and nothing else.
pub fn answered(result: &str) -> (r: Reply)
    ensures
        r@ == told(result@),
{
    tell(result.to_owned())
}

pub(crate) fn tell(result: String) -> (r: Reply)
    ensures
        r@ == told(result@),
{
    Reply {
        result: Some(result),
        error: None,
        action: None,
        path: None,
        lines: None,
        line: None,
        command: None,
        category: None,
    }
}

pub(crate) fn refuse(error: String) -> (r: Reply)
    ensures
        r@ == refused(error@),
{
    Reply {
        result: None,
        error: Some(error),
        action: None,
        path: None,
        lines: None,
        line: None,
        command: None,
        category: None,
    }
}

pub(crate) fn run_ended(result: String, command: &str) -> (r: Reply)
    ensures
        r@ == ran(result@, command@),
{
    Reply {
        result: Some(result),
        error: None,
        action: None,
        path: None,
        lines: None,
        line: None,
        command: Some(command.to_owned()),
        category: None,
    }
}

pub(crate) fn run_failed(result: String, error: String, command: &str) -> (r: Reply)
    ensures
        r@ == broke(result@, error@, command@),
{
    Reply {
        result: Some(result),
        error: Some(error),
        action: None,
        path: None,
        lines: None,
        line: None,
        command: Some(command.to_owned()),
        category: None,
    }
}

// ---------------------------------------------------------------------------
// Dispatch
// ---------------------------------------------------------------------------

/// What a call of a tool asks for.
#[derive(Debug, Clone, Copy, PartialEq, Eq, Structural)]
pub enum Tool {
    ReadFile,
    ReadOriginal,
    WriteFile,
    AppendFile,
    ReadAndPatch,
    Bash,
    Search,
    FindFiles,
    ListProjects,
    GraphSearch,
    ExplainSymbol,
    CreateAndRun,
    FindAndRead,
    SearchAndRead,
    Run,
    Memory,
    WebSearch,
    WebFetch,
    ProposeContract,
    MarkAssertion,
    MarkFeature,
    ContractStatus,
    CloseContract,
    SelectCategory,
    /// None of the built-in tools.
    Foreign,
}

/// The tool that a name stands for.
pub open spec fn tool_named(name: Seq<char>) -> Tool {
    if name == "read_file"@ {
        Tool::ReadFile
    } else if name == "read_original"@ {
        Tool::ReadOriginal
    } else if name == "write_file"@ {
        Tool::WriteFile
    } else if name == "append_file"@ {
        Tool::AppendFile
    } else if name == "patch"@ || name == "read_and_patch"@ {
        Tool::ReadAndPatch
    } else if name == "bash"@ {
        Tool::Bash
    } else if name == "search"@ {
        Tool::Search
    } else if name == "find_files"@ {
        Tool::FindFiles
    } else if name == "list_projects"@ {
        Tool::ListProjects
    } else if name == "graph_search"@ {
        Tool::GraphSearch
    } else if name == "explain_symbol"@ {
        Tool::ExplainSymbol
    } else if name == "create_and_run"@ {
        Tool::CreateAndRun
    } else if name == "find_and_read"@ {
        Tool::FindAndRead
    } else if name == "search_and_read"@ {
        Tool::SearchAndRead
    } else if name == "run"@ {
        Tool::Run
    } else if name == "memory_load"@ || name == "memory_remember"@ || name == "memory_list"@ || name
        == "memory_forget"@ {
        Tool::Memory
    } else if name == "web_search"@ {
        Tool::WebSearch
    } else if name == "web_fetch"@ {
        Tool::WebFetch
    } else if name == "propose_contract"@ {
        Tool::ProposeContract
    } else if name == "mark_assertion"@ {
        Tool::MarkAssertion
    } else if name == "mark_feature"@ {
        Tool::MarkFeature
    } else if name == "contract_status"@ {
        Tool::ContractStatus
    } else if name == "close_contract"@ {
        Tool::CloseContract
    } else if name == "select_category"@ {
        Tool::SelectCategory
    } else {
        Tool::Foreign
    }
}

/// The tool that a name stands for.
pub fn tool_of(name: &str) -> (r: Tool)
    ensures
        r == tool_named(name@),
{
    if text::same(name, "read_file") {
        Tool::ReadFile
    } else if text::same(name, "read_original") {
        Tool::ReadOriginal
    } else if text::same(name, "write_file") {
        Tool::WriteFile
    } else if text::same(name, "append_file") {
        Tool::AppendFile
    } else if text::same(name, "patch") || text::same(name, "read_and_patch") {
        Tool::ReadAndPatch
    } else if text::same(name, "bash") {
        Tool::Bash
    } else if text::same(name, "search") {
        Tool::Search
    } else if text::same(name, "find_files") {
        Tool::FindFiles
    } else if text::same(name, "list_projects") {
        Tool::ListProjects
    } else if text::same(name, "graph_search") {
        Tool::GraphSearch
    } else if text::same(name, "explain_symbol") {
        Tool::ExplainSymbol
    } else if text::same(name, "create_and_run") {
        Tool::CreateAndRun
    } else if text::same(name, "find_and_read") {
        Tool::FindAndRead
    } else if text::same(name, "search_and_read") {
        Tool::SearchAndRead
    } else if text::same(name, "run") {
        Tool::Run
    } else if text::same(name, "memory_load") || text::same(name, "memory_remember") || text::same(
        name,
        "memory_list",
    ) || text::same(name, "memory_forget") {
        Tool::Memory
    } else if text::same(name, "web_search") {
        Tool::WebSearch
    } else if text::same(name, "web_fetch") {
        Tool::WebFetch
    } else if text::same(name, "propose_contract") {
        Tool::ProposeContract
    } else if text::same(name, "mark_assertion") {
        Tool::MarkAssertion
    } else if text::same(name, "mark_feature") {
        Tool::MarkFeature
    } else if text::same(name, "contract_status") {
        Tool::ContractStatus
    } else if text::same(name, "close_contract") {
        Tool::CloseContract
    } else if text::same(name, "select_category") {
        Tool::SelectCategory
    } else {
        Tool::Foreign
    }
}

/// The answer to the choice of a category of tools.
pub fn select_category(args: &Json) -> (r: Reply)
    ensures
        r@ == ({
            let category = args@.member_text_or("category"@, "read"@);
            ReplyText {
                category: Some(category),
                ..told("Category: "@ + category + ". Proceed with your tool call."@)
            }
        }),
{
    let category = args.get_str_or("category", "read");
    let mut r = tell(text::cat3("Category: ", &category, ". Proceed with your tool call."));
    r.category = Some(category);
    r
}

/// The answer of a tool that is not built in: what came back, when another
/// server knows it.
pub fn foreign_reply(name: &str, answer: Option<Result<String, String>>) -> (r: Reply)
    ensures
        r@ == match answer {
            Some(Ok(s)) => told(s@),
            Some(Err(e)) => refused(e@),
            None => refused("Unknown tool: "@ + name@),
        },
{
    match answer {
        Some(Ok(s)) => tell(s),
        Some(Err(e)) => refuse(e),
        None => refuse(text::cat2("Unknown tool: ", name)),
    }
}

/// Each built-in tool is called by its own name, and any other name is that of a
/// foreign one.
pub proof fn law_tools_by_name(name: Seq<char>)
    ensures
        tool_named("read_file"@) == Tool::ReadFile,
        tool_named("read_original"@) == Tool::ReadOriginal,
        tool_named("write_file"@) == Tool::WriteFile,
        tool_named("append_file"@) == Tool::AppendFile,
        tool_named("patch"@) == Tool::ReadAndPatch,
        tool_named("read_and_patch"@) == Tool::ReadAndPatch,
        tool_named("bash"@) == Tool::Bash,
        tool_named("search"@) == Tool::Search,
        tool_named("find_files"@) == Tool::FindFiles,
        tool_named("list_projects"@) == Tool::ListProjects,
        tool_named("graph_search"@) == Tool::GraphSearch,
        tool_named("explain_symbol"@) == Tool::ExplainSymbol,
        tool_named("create_and_run"@) == Tool::CreateAndRun,
        tool_named("find_and_read"@) == Tool::FindAndRead,
        tool_named("search_and_read"@) == Tool::SearchAndRead,
        tool_named("run"@) == Tool::Run,
        tool_named("memory_load"@) == Tool::Memory,
        tool_named("memory_remember"@) == Tool::Memory,
        tool_named("memory_list"@) == Tool::Memory,
        tool_named("memory_forget"@) == Tool::Memory,
        tool_named("web_search"@) == Tool::WebSearch,
        tool_named("web_fetch"@) == Tool::WebFetch,
        tool_named("propose_contract"@) == Tool::ProposeContract,
        tool_named("mark_assertion"@) == Tool::MarkAssertion,
        tool_named("mark_feature"@) == Tool::MarkFeature,
        tool_named("contract_status"@) == Tool::ContractStatus,
        tool_named("close_contract"@) == Tool::CloseContract,
        tool_named("select_category"@) == Tool::SelectCategory,
        tool_named(name) is Foreign <==> !(name == "read_file"@
            || name == "read_original"@
            || name == "write_file"@
            || name == "append_file"@
            || name == "patch"@
            || name == "read_and_patch"@
            || name == "bash"@
            || name == "search"@
            || name == "find_files"@
            || name == "list_projects"@
            || name == "graph_search"@
            || name == "explain_symbol"@
            || name == "create_and_run"@
            || name == "find_and_read"@
            || name == "search_and_read"@
            || name == "run"@
            || name == "memory_load"@
            || name == "memory_remember"@
            || name == "memory_list"@
            || name == "memory_forget"@
            || name == "web_search"@
            || name == "web_fetch"@
            || name == "propose_contract"@
            || name == "mark_assertion"@
            || name == "mark_feature"@
            || name == "contract_status"@
            || name == "close_contract"@
            || name == "select_category"@),
{
    reveal_strlit("read_file");
    reveal_strlit("read_original");
    reveal_strlit("write_file");
    reveal_strlit("append_file");
    reveal_strlit("patch");
    reveal_strlit("read_and_patch");
    reveal_strlit("bash");
    reveal_strlit("search");
    reveal_strlit("find_files");
    reveal_strlit("list_projects");
    reveal_strlit("graph_search");
    reveal_strlit("explain_symbol");
    reveal_strlit("create_and_run");
    reveal_strlit("find_and_read");
    reveal_strlit("search_and_read");
    reveal_strlit("run");
    reveal_strlit("memory_load");
    reveal_strlit("memory_remember");
    reveal_strlit("memory_list");
    reveal_strlit("memory_forget");
    reveal_strlit("web_search");
    reveal_strlit("web_fetch");
    reveal_strlit("propose_contract");
    reveal_strlit("mark_assertion");
    reveal_strlit("mark_feature");
    reveal_strlit("contract_status");
    reveal_strlit("close_contract");
    reveal_strlit("select_category");
    assert("read_file"@.len() == 9 && "read_original"@.len() == 13 && "write_file"@.len() == 10 && "append_file"@.len() == 11 && "patch"@.len() == 5 && "read_and_patch"@.len() == 14 && "bash"@.len() == 4 && "search"@.len() == 6 && "find_files"@.len() == 10 && "list_projects"@.len() == 13 && "graph_search"@.len() == 12 && "explain_symbol"@.len() == 14 && "create_and_run"@.len() == 14 && "find_and_read"@.len() == 13 && "search_and_read"@.len() == 15 && "run"@.len() == 3 && "memory_load"@.len() == 11 && "memory_remember"@.len() == 15 && "memory_list"@.len() == 11 && "memory_forget"@.len() == 13 && "web_search"@.len() == 10 && "web_fetch"@.len() == 9 && "propose_contract"@.len() == 16 && "mark_assertion"@.len() == 14 && "mark_feature"@.len() == 12 && "contract_status"@.len() == 15 && "close_contract"@.len() == 14 && "select_category"@.len() == 15);
    assert("read_file"@[0] == 'r' && "web_fetch"@[0] == 'w' && "read_original"@[0] == 'r' && "list_projects"@[0] == 'l');
    assert("find_and_read"@[0] == 'f' && "memory_forget"@[0] == 'm' && "write_file"@[0] == 'w' && "find_files"@[0] == 'f');
    assert("write_file"@[1] == 'r' && "web_search"@[1] == 'e' && "append_file"@[0] == 'a' && "memory_load"@[0] == 'm');
    assert("memory_list"@[0] == 'm' && "read_and_patch"@[0] == 'r' && "explain_symbol"@[0] == 'e' && "create_and_run"@[0] == 'c');
    assert("mark_assertion"@[0] == 'm' && "close_contract"@[0] == 'c' && "web_search"@[0] == 'w' && "graph_search"@[0] == 'g');
    assert("mark_feature"@[0] == 'm' && "create_and_run"@[1] == 'r' && "close_contract"@[1] == 'l' && "search_and_read"@[0] == 's');
    assert("memory_remember"@[0] == 'm' && "contract_status"@[0] == 'c' && "search_and_read"@[2] == 'a' && "select_category"@[2] == 'l');
    assert("memory_load"@[8] == 'o' && "memory_list"@[8] == 'i' && "select_category"@[0] == 's');
}

/// A plain result has no error, a plain error has no result, and what is said of
/// a command names the command.
pub proof fn law_plain_replies(s: Seq<char>, e: Seq<char>, c: Seq<char>)
    ensures
        told(s).result == Some(s) && told(s).error is None && told(s).command is None,
        refused(e).error == Some(e) && refused(e).result is None && refused(e).action is None,
        ran(s, c).result == Some(s) && ran(s, c).error is None && ran(s, c).command == Some(c),
        broke(s, e, c).result == Some(s) && broke(s, e, c).error == Some(e) && broke(s, e, c).command
            == Some(c),
        told(s).path is None && told(s).lines is None && told(s).line is None && told(s).category is None,
{
}

/// An answer as a value holds what the answer holds, each part under its name.
pub proof fn law_reply_value(r: ReplyText)
    ensures
        reply_value(r).member_text("result"@) == r.result,
        reply_value(r).member_text("error"@) == r.error,
        reply_value(r).member_text("action"@) == r.action,
        reply_value(r).member_text("path"@) == r.path,
        reply_value(r).member_text("command"@) == r.command,
        reply_value(r).member_text("category"@) == r.category,
        reply_value(r).member_unsigned("lines"@) == r.lines,
        reply_value(r).member_unsigned("line"@) == r.line,
        reply_value(r).member("error"@) is Some <==> r.error is Some,
{
    reveal_strlit("action");
    reveal_strlit("category");
    reveal_strlit("command");
    reveal_strlit("error");
    reveal_strlit("line");
    reveal_strlit("lines");
    reveal_strlit("path");
    reveal_strlit("result");
    assert("action"@.len() == 6 && "category"@.len() == 8 && "command"@.len() == 7 && "error"@.len() == 5 && "line"@.len() == 4 && "lines"@.len() == 5 && "path"@.len() == 4 && "result"@.len() == 6);
    assert("action"@[0] == 'a' && "result"@[0] == 'r' && "error"@[0] == 'e' && "lines"@[0] == 'l');
    assert("line"@[0] == 'l' && "path"@[0] == 'p');
    let a = text_member("action"@, r.action);
    let b = text_member("category"@, r.category);
    let c = text_member("command"@, r.command);
    let d = text_member("error"@, r.error);
    let e = number_member("line"@, r.line);
    let f = number_member("lines"@, r.lines);
    let g = text_member("path"@, r.path);
    let h = text_member("result"@, r.result);
    assert forall|k: Seq<char>| #[trigger] json::lookup(a + b + c + d + e + f + g + h, k) == (
    match json::lookup(h, k) {
        Some(x) => Some(x),
        None => match json::lookup(g, k) {
            Some(x) => Some(x),
            None => match json::lookup(f, k) {
                Some(x) => Some(x),
                None => match json::lookup(e, k) {
                    Some(x) => Some(x),
                    None => match json::lookup(d, k) {
                        Some(x) => Some(x),
                        None => match json::lookup(c, k) {
                            Some(x) => Some(x),
                            None => match json::lookup(b, k) {
                                Some(x) => Some(x),
                                None => json::lookup(a, k),
                            },
                        },
                    },
                },
            },
        },
    }) by {
        json::lemma_lookup_add(a, b, k);
        json::lemma_lookup_add(a + b, c, k);
        json::lemma_lookup_add(a + b + c, d, k);
        json::lemma_lookup_add(a + b + c + d, e, k);
        json::lemma_lookup_add(a + b + c + d + e, f, k);
        json::lemma_lookup_add(a + b + c + d + e + f, g, k);
        json::lemma_lookup_add(a + b + c + d + e + f + g, h, k);
    }
    lemma_text_member("action"@, r.action);
    lemma_text_member("category"@, r.category);
    lemma_text_member("command"@, r.command);
    lemma_text_member("error"@, r.error);
    lemma_number_member("line"@, r.line);
    lemma_number_member("lines"@, r.lines);
    lemma_text_member("path"@, r.path);
    lemma_text_member("result"@, r.result);
}

proof fn lemma_text_member(key: Seq<char>, value: Option<Seq<char>>)
    ensures
        forall|k: Seq<char>| #[trigger]
            json::lookup(text_member(key, value), k) == (if k == key && value is Some {
                Some(json::JsonText::Text(value->0))
            } else {
                None
            }),
{
    reveal_with_fuel(json::lookup, 2);
    let v = text_member(key, value);
    if value is Some {
        assert(v.drop_last() =~= Seq::<(Seq<char>, json::JsonText)>::empty());
    }
}

proof fn lemma_number_member(key: Seq<char>, value: Option<u64>)
    ensures
        forall|k: Seq<char>| #[trigger]
            json::lookup(number_member(key, value), k) == (if k == key && value is Some {
                Some(json::JsonText::Unsigned(value->0))
            } else {
                None
            }),
{
    reveal_with_fuel(json::lookup, 2);
    let v = number_member(key, value);
    if value is Some {
        assert(v.drop_last() =~= Seq::<(Seq<char>, json::JsonText)>::empty());
    }
}

/// A category that is chosen is kept in the answer; without one it is the one
/// for reading. The answer of a foreign tool is passed on, as a result or as an
/// error, and one that nobody knows is an error that names it.
pub proof fn law_other_answers(
    args: &Json,
    r: Reply,
    name: &str,
    answer: Option<Result<String, String>>,
    f: Reply,
)
    requires
        call_ensures(select_category, (args,), r),
        call_ensures(foreign_reply, (name, answer), f),
    ensures
        args@.member_text("category"@) matches Some(c) ==> r@.category == Some(c),
        args@.member_text("category"@) is None ==> r@.category == Some("read"@),
        r@.error is None,
        answer matches Some(Ok(s)) ==> f@.result == Some(s@) && f@.error is None,
        answer matches Some(Err(e)) ==> f@.error == Some(e@) && f@.result is None,
        answer is None ==> (f@.error matches Some(e) && text::has(e, name@)),
{
    text::law_affixes(name@, "Unknown tool: "@, Seq::empty());
    assert("Unknown tool: "@ + name@ + Seq::<char>::empty() =~= "Unknown tool: "@ + name@);
}

} // verus!
