//! Serving tools to another program, line by line: what a request is answered,
//! and which calls are left to be made.

use vstd::prelude::*;

use crate::agent::mcp::{Method, ServedTool};
use crate::agent::mcp;
use crate::json;
use crate::json::Json;
use crate::outside;
use crate::text;

verus! {

// ---------------------------------------------------------------------------
// Frames
// ---------------------------------------------------------------------------

/// The answer to a request, with its result.
pub open spec fn result_value(id: json::JsonText, result: json::JsonText) -> json::JsonText {
    json::JsonText::Table(
        seq![("id"@, id), ("jsonrpc"@, json::JsonText::Text("2.0"@)), ("result"@, result)],
    )
}

/// The answer to a request that cannot be met.
pub open spec fn error_value(id: json::JsonText, code: i64, message: Seq<char>) -> json::JsonText {
    json::JsonText::Table(
        seq![
            (
                "error"@,
                json::JsonText::Table(
                    seq![
                        ("code"@, json::JsonText::Negative(code)),
                        ("message"@, json::JsonText::Text(message)),
                    ],
                ),
            ),
            ("id"@, id),
            ("jsonrpc"@, json::JsonText::Text("2.0"@)),
        ],
    )
}

fn result_frame(id: Json, result: Json) -> (r: Json)
    ensures
        r@ == result_value(id@, result@),
{
    json::table3("id", id, "jsonrpc", json::word("2.0"), "result", result)
}

fn error_frame(id: Json, code: i64, message: &str) -> (r: Json)
    ensures
        r@ == error_value(id@, code, message@),
{
    let what = json::table2("code", Json::Negative(code), "message", json::word(message));
    json::table3("error", what, "id", id, "jsonrpc", json::word("2.0"))
}

/// Who answers, and what it can do.
pub open spec fn greeting_value(version: Seq<char>) -> json::JsonText {
    json::JsonText::Table(
        seq![
            (
                "capabilities"@,
                json::JsonText::Table(seq![("tools"@, json::JsonText::Table(Seq::empty()))]),
            ),
            ("protocolVersion"@, json::JsonText::Text(mcp::PROTOCOL_VERSION@)),
            (
                "serverInfo"@,
                json::JsonText::Table(
                    seq![
                        ("name"@, json::JsonText::Text("itsy"@)),
                        ("version"@, json::JsonText::Text(version)),
                    ],
                ),
            ),
        ],
    )
}

fn greeting(version: &str) -> (r: Json)
    ensures
        r@ == greeting_value(version@),
{
    let none: Vec<(String, Json)> = Vec::new();
    assert(json::members(none@) =~= Seq::<(Seq<char>, json::JsonText)>::empty());
    let capabilities = json::table1("tools", json::table(none));
    let server = json::table2("name", json::word("itsy"), "version", json::word(version));
    json::table3(
        "capabilities",
        capabilities,
        "protocolVersion",
        json::word(mcp::PROTOCOL_VERSION),
        "serverInfo",
        server,
    )
}

/// A parameter that is a text.
pub open spec fn text_parameter() -> json::JsonText {
    json::JsonText::Table(seq![("type"@, json::JsonText::Text("string"@))])
}

/// The parameters of a tool by name, each a text.
pub open spec fn properties_value(params: Seq<Seq<char>>) -> json::JsonText {
    json::JsonText::Table(text::sorted(params).map_values(|p: Seq<char>| (p, text_parameter())))
}

/// A tool, as it is offered.
pub open spec fn tool_value(t: mcp::ServedText) -> json::JsonText {
    json::JsonText::Table(
        seq![
            ("description"@, json::JsonText::Text(t.description)),
            (
                "inputSchema"@,
                json::JsonText::Table(
                    seq![
                        ("properties"@, properties_value(t.params)),
                        (
                            "required"@,
                            json::JsonText::List(
                                text::leading(t.params, t.required as int).map_values(
                                    |p: Seq<char>| json::JsonText::Text(p),
                                ),
                            ),
                        ),
                        ("type"@, json::JsonText::Text("object"@)),
                    ],
                ),
            ),
            ("name"@, json::JsonText::Text(t.name)),
        ],
    )
}

fn properties(params: &Vec<&'static str>) -> (r: Json)
    ensures
        r@ == properties_value(mcp::str_texts(params@)),
{
    let mut names: Vec<String> = Vec::new();
    let mut i: usize = 0;
    while i < params.len()
        invariant
            i <= params.len(),
            names@.len() == i,
            forall|k: int| 0 <= k < i ==> (#[trigger] names@[k])@ == params@[k]@,
        decreases params.len() - i,
    {
        names.push(params[i].to_owned());
        i = i + 1;
    }
    assert(text::texts(names@) =~= mcp::str_texts(params@));
    let sorted = text::sort_texts(&names);
    let ghost wanted = text::sorted(mcp::str_texts(params@)).map_values(
        |p: Seq<char>| (p, text_parameter()),
    );
    assert(text::texts(sorted@).len() == sorted@.len());
    let mut out: Vec<(String, Json)> = Vec::new();
    let mut j: usize = 0;
    while j < sorted.len()
        invariant
            j <= sorted.len(),
            out@.len() == j,
            text::texts(sorted@).len() == sorted@.len(),
            text::texts(sorted@) == text::sorted(mcp::str_texts(params@)),
            forall|k: int|
                0 <= k < j ==> (#[trigger] out@[k]).0@ == sorted@[k]@ && out@[k].1@
                    == text_parameter(),
        decreases sorted.len() - j,
    {
        let kind = json::table1("type", json::word("string"));
        out.push((sorted[j].clone(), kind));
        j = j + 1;
    }
    assert forall|k: int| 0 <= k < out@.len() implies json::members(out@)[k] == wanted[k] by {
        assert(text::texts(sorted@)[k] == sorted@[k]@);
        assert(out@[k].0@ == sorted@[k]@);
    }
    assert(json::members(out@) =~= wanted);
    json::table(out)
}

fn tool_json(t: &ServedTool) -> (r: Json)
    ensures
        r@ == tool_value(t@),
{
    let ghost wanted = text::leading(t@.params, t@.required as int).map_values(
        |p: Seq<char>| json::JsonText::Text(p),
    );
    let mut required: Vec<Json> = Vec::new();
    let mut i: usize = 0;
    while i < t.params.len() && i < t.required
        invariant
            i <= t.params.len(),
            i <= t.required,
            required@.len() == i,
            forall|k: int|
                0 <= k < i ==> (#[trigger] required@[k])@ == json::JsonText::Text(t.params@[k]@),
        decreases t.params.len() - i,
    {
        required.push(json::word(t.params[i]));
        i = i + 1;
    }
    assert(t@.params.len() == t.params@.len());
    assert(json::values(required@) =~= wanted);
    let schema = json::table3(
        "properties",
        properties(&t.params),
        "required",
        json::list(required),
        "type",
        json::word("object"),
    );
    json::table3(
        "description",
        json::word(t.description),
        "inputSchema",
        schema,
        "name",
        json::word(t.name),
    )
}

/// The tools that are offered.
pub open spec fn offer_value() -> json::JsonText {
    json::JsonText::Table(
        seq![
            (
                "tools"@,
                json::JsonText::List(
                    mcp::served_tools().map_values(|t: mcp::ServedText| tool_value(t)),
                ),
            ),
        ],
    )
}

fn offer() -> (r: Json)
    ensures
        r@ == offer_value(),
{
    let tools = mcp::list_tools();
    let ghost all = mcp::served_tools();
    assert(tools@.map_values(|t: ServedTool| t@).len() == tools@.len());
    let mut out: Vec<Json> = Vec::new();
    let mut i: usize = 0;
    while i < tools.len()
        invariant
            i <= tools.len(),
            out@.len() == i,
            all.len() == tools@.len(),
            all == tools@.map_values(|t: ServedTool| t@),
            forall|k: int| 0 <= k < i ==> (#[trigger] out@[k])@ == tool_value(all[k]),
        decreases tools.len() - i,
    {
        assert(all[i as int] == tools@[i as int]@);
        let t = tool_json(&tools[i]);
        out.push(t);
        i = i + 1;
    }
    assert(json::values(out@) =~= all.map_values(|t: mcp::ServedText| tool_value(t)));
    json::table1("tools", json::list(out))
}

// ---------------------------------------------------------------------------
// Requests
// ---------------------------------------------------------------------------

/// What a request comes to.
#[derive(Debug)]
pub enum ServerStep {
    /// It is answered at once.
    Answer(Json),
    /// A tool is to be called, and the request to be answered with what came of
    /// it.
    Call { id: Json, name: String, arguments: Json },
}

pub ghost enum ServerStepText {
    Answer(json::JsonText),
    Call { id: json::JsonText, name: Seq<char>, arguments: json::JsonText },
}

impl View for ServerStep {
    type V = ServerStepText;

    open spec fn view(&self) -> ServerStepText {
        match self {
            ServerStep::Answer(j) => ServerStepText::Answer(j@),
            ServerStep::Call { id, name, arguments } => ServerStepText::Call {
                id: id@,
                name: name@,
                arguments: arguments@,
            },
        }
    }
}

/// The arguments that a call is made with: none when it names none.
pub open spec fn arguments_value(params: json::JsonText) -> json::JsonText {
    match params.member("arguments"@) {
        Some(a) => a,
        None => json::JsonText::Table(Seq::empty()),
    }
}

/// What a request comes to.
pub open spec fn requested(request: json::JsonText, version: Seq<char>) -> ServerStepText {
    let id = request.member_or_null("id"@);
    let method = request.member_text_or("method"@, ""@);
    let params = request.member_or_null("params"@);
    if method == "initialize"@ {
        ServerStepText::Answer(result_value(id, greeting_value(version)))
    } else if method == "tools/list"@ {
        ServerStepText::Answer(result_value(id, offer_value()))
    } else if method == "tools/call"@ {
        ServerStepText::Call {
            id,
            name: params.member_text_or("name"@, ""@),
            arguments: arguments_value(params),
        }
    } else {
        ServerStepText::Answer(
            error_value(id, mcp::UNKNOWN_METHOD, "Unknown method: "@ + method),
        )
    }
}

/// What a request comes to.
pub fn take_request(request: &Json, version: &str) -> (r: ServerStep)
    ensures
        r@ == requested(request@, version@),
{
    let id = request.get_or_null("id");
    let method = request.get_str_or("method", "");
    match mcp::method_of(&method) {
        Method::Initialize => ServerStep::Answer(result_frame(id, greeting(version))),
        Method::ListTools => ServerStep::Answer(result_frame(id, offer())),
        Method::CallTool => {
            let params = request.get_or_null("params");
            let arguments = match params.get("arguments") {
                Some(a) => a.copy(),
                None => {
                    let none: Vec<(String, Json)> = Vec::new();
                    assert(json::members(none@) =~= Seq::<(Seq<char>, json::JsonText)>::empty());
                    json::table(none)
                },
            };
            ServerStep::Call { id, name: params.get_str_or("name", ""), arguments }
        },
        Method::Unknown(what) => ServerStep::Answer(error_frame(id, mcp::UNKNOWN_METHOD, &what)),
    }
}

/// What a line comes to: an error when it holds no JSON.
pub fn take_line(line: &str, version: &str) -> (r: ServerStep)
    ensures
        r@ == match outside::json_value(line@) {
            Some(request) => requested(request, version@),
            None => ServerStepText::Answer(
                error_value(json::JsonText::Null, mcp::PARSE_ERROR, "Parse error"@),
            ),
        },
{
    match outside::json_parse(line) {
        Some(request) => take_request(&request, version),
        None => ServerStep::Answer(error_frame(Json::Null, mcp::PARSE_ERROR, "Parse error")),
    }
}

/// The answer to a call, with what came of it.
pub open spec fn call_value(id: json::JsonText, said: Seq<char>) -> json::JsonText {
    result_value(
        id,
        json::JsonText::Table(
            seq![
                (
                    "content"@,
                    json::JsonText::List(
                        seq![
                            json::JsonText::Table(
                                seq![
                                    ("text"@, json::JsonText::Text(said)),
                                    ("type"@, json::JsonText::Text("text"@)),
                                ],
                            ),
                        ],
                    ),
                ),
            ],
        ),
    )
}

/// The answer to a call, with what came of it.
pub fn call_answer(id: &Json, said: &str) -> (r: Json)
    ensures
        r@ == call_value(id@, said@),
{
    let part = json::table2("text", json::word(said), "type", json::word("text"));
    let parts = vec![part];
    assert(json::values(parts@) =~= seq![part@]);
    result_frame(id.copy(), json::table1("content", json::list(parts)))
}

/// Every answer, and every call, says which request it belongs to.
pub proof fn law_answers_name_their_request(request: json::JsonText, version: Seq<char>)
    ensures
        match requested(request, version) {
            ServerStepText::Answer(j) => j.member("id"@) == Some(request.member_or_null("id"@)),
            ServerStepText::Call { id, name, arguments } => id == request.member_or_null("id"@),
        },
{
    reveal_strlit("id");
    reveal_strlit("jsonrpc");
    reveal_strlit("result");
    reveal_strlit("error");
    assert("id"@.len() != "jsonrpc"@.len());
    assert("id"@.len() != "result"@.len());
    assert("id"@.len() != "error"@.len());
    reveal_with_fuel(json::lookup, 4);
    match requested(request, version) {
        ServerStepText::Answer(j) => {
            let v = j->Table_0;
            assert(v.drop_last().last() == v[1]);
            assert(v.drop_last().drop_last().last() == v[0]);
        },
        _ => {},
    }
}

/// A result and an error are told as the protocol has it, each with the
/// identifier of its request.
pub proof fn law_replies_follow_the_protocol(
    id: json::JsonText,
    result: json::JsonText,
    code: i64,
    message: Seq<char>,
    said: Seq<char>,
)
    ensures
        ({
            let r = result_value(id, result);
            r.member("id"@) == Some(id) && r.member("result"@) == Some(result) && r.member_text(
                "jsonrpc"@,
            ) == Some("2.0"@) && r.member("error"@) is None
        }),
        ({
            let r = error_value(id, code, message);
            &&& r.member("id"@) == Some(id)
            &&& r.member_text("jsonrpc"@) == Some("2.0"@)
            &&& r.member("result"@) is None
            &&& r.member("error"@) matches Some(e) && e.member_signed("code"@) == Some(code)
                && e.member_text("message"@) == Some(message)
        }),
        call_value(id, said).member("result"@) matches Some(r) && (r.member_items(
            "content"@,
        ) matches Some(c) && c.len() == 1 && c[0].member_text("text"@) == Some(said)
            && c[0].member_text("type"@) == Some("text"@)),
{
    reveal_strlit("id");
    reveal_strlit("jsonrpc");
    reveal_strlit("result");
    reveal_strlit("error");
    reveal_strlit("code");
    reveal_strlit("message");
    reveal_strlit("content");
    reveal_strlit("text");
    reveal_strlit("type");
    assert("id"@.len() == 2 && "jsonrpc"@.len() == 7 && "result"@.len() == 6 && "error"@.len() == 5 && "code"@.len() == 4 && "message"@.len() == 7 && "content"@.len() == 7 && "text"@.len() == 4 && "type"@.len() == 4);
    assert("jsonrpc"@[0] == 'j' && "message"@[0] == 'm' && "content"@[0] == 'c' && "code"@[0] == 'c');
    assert("text"@[0] == 't' && "type"@[0] == 't' && "text"@[1] == 'e' && "type"@[1] == 'y');
    let t = result_value(id, result)->Table_0;
    assert(t[0].0 == "id"@);
    assert(t[1].0 == "jsonrpc"@);
    assert(t[2].0 == "result"@);
    json::law_lookup(t, "id"@, 0);
    json::law_lookup(t, "jsonrpc"@, 1);
    json::law_lookup(t, "result"@, 2);
    json::law_lookup(t, "error"@, 0);
    let e = error_value(id, code, message)->Table_0;
    assert(e[0].0 == "error"@);
    assert(e[1].0 == "id"@);
    assert(e[2].0 == "jsonrpc"@);
    json::law_lookup(e, "error"@, 0);
    json::law_lookup(e, "id"@, 1);
    json::law_lookup(e, "jsonrpc"@, 2);
    json::law_lookup(e, "result"@, 0);
    let f = e[0].1->Table_0;
    assert(f[0].0 == "code"@);
    assert(f[1].0 == "message"@);
    json::law_lookup(f, "code"@, 0);
    json::law_lookup(f, "message"@, 1);
    let c = call_value(id, said)->Table_0;
    assert(c[0].0 == "id"@);
    assert(c[1].0 == "jsonrpc"@);
    assert(c[2].0 == "result"@);
    json::law_lookup(c, "id"@, 0);
    json::law_lookup(c, "jsonrpc"@, 1);
    json::law_lookup(c, "result"@, 2);
    let r = c[2].1->Table_0;
    assert(r[0].0 == "content"@);
    json::law_lookup(r, "content"@, 0);
    let b = (r[0].1->List_0)[0]->Table_0;
    assert(b[0].0 == "text"@);
    assert(b[1].0 == "type"@);
    json::law_lookup(b, "text"@, 0);
    json::law_lookup(b, "type"@, 1);
}

/// A request for a call is passed on with its name and its arguments; the other
/// two are answered at once, and any other method is refused by its name.
pub proof fn law_requests(request: json::JsonText, version: Seq<char>, params: json::JsonText, n: Seq<char>)
    ensures
        request.member_text("method"@) == Some("tools/call"@) && request.member("params"@) == Some(
            params,
        ) ==> (requested(request, version) matches ServerStepText::Call { id, name, arguments } && (
        params.member_text("name"@) == Some(n) ==> name == n) && (params.member(
            "arguments"@,
        ) matches Some(a) ==> arguments == a)),
        request.member_text("method"@) == Some("initialize"@) || request.member_text("method"@)
            == Some("tools/list"@) ==> (requested(
            request,
            version,
        ) matches ServerStepText::Answer(j) && j.member("result"@) is Some && j.member("error"@)
            is None),
        request.member_text("method"@) == Some(n) && n != "initialize"@ && n != "tools/list"@ && n
            != "tools/call"@ ==> (requested(request, version) matches ServerStepText::Answer(j)
            && j.member("result"@) is None && (j.member("error"@) matches Some(e) && e.member_signed(
            "code"@,
        ) == Some(-32601i64) && (e.member_text("message"@) matches Some(m) && text::ends(m, n)))),
{
    reveal_strlit("initialize");
    reveal_strlit("tools/list");
    reveal_strlit("tools/call");
    assert("initialize"@.len() == 10 && "tools/list"@.len() == 10 && "tools/call"@.len() == 10);
    assert("initialize"@[0] == 'i' && "tools/list"@[0] == 't' && "tools/call"@[0] == 't' && "tools/list"@[6] == 'l');
    assert("tools/call"@[6] == 'c');
    let id = request.member_or_null("id"@);
    law_replies_follow_the_protocol(
        id,
        greeting_value(version),
        mcp::UNKNOWN_METHOD,
        "Unknown method: "@ + n,
        n,
    );
    law_replies_follow_the_protocol(
        id,
        offer_value(),
        mcp::UNKNOWN_METHOD,
        "Unknown method: "@ + n,
        n,
    );
    text::law_affixes(n, "Unknown method: "@, Seq::empty());
}

/// The server says which version of the protocol it speaks and which of itself
/// it is; each tool is offered with its name, its description and what it needs.
pub proof fn law_offers(version: Seq<char>, t: mcp::ServedText, i: int)
    ensures
        greeting_value(version).member("serverInfo"@) matches Some(s) && s.member_text("name"@)
            == Some("itsy"@) && s.member_text("version"@) == Some(version),
        greeting_value(version).member_text("protocolVersion"@) == Some("2024-11-05"@),
        tool_value(t).member_text("name"@) == Some(t.name),
        tool_value(t).member_text("description"@) == Some(t.description),
        t.required <= t.params.len() ==> (tool_value(t).member("inputSchema"@) matches Some(s) && (
        s.member_items("required"@) matches Some(v) && v.len() == t.required && (0 <= i < v.len()
            ==> v[i] == json::JsonText::Text(t.params[i])))),
        offer_value().member_items("tools"@) matches Some(v) && v.len() == 7 && (0 <= i < 7 ==> v[i]
            == tool_value(mcp::served_tools()[i])),
{
    reveal_strlit("capabilities");
    reveal_strlit("protocolVersion");
    reveal_strlit("serverInfo");
    reveal_strlit("name");
    reveal_strlit("version");
    reveal_strlit("description");
    reveal_strlit("inputSchema");
    reveal_strlit("properties");
    reveal_strlit("required");
    reveal_strlit("type");
    reveal_strlit("tools");
    assert("capabilities"@.len() == 12 && "protocolVersion"@.len() == 15 && "serverInfo"@.len() == 10 && "name"@.len() == 4 && "version"@.len() == 7 && "description"@.len() == 11 && "inputSchema"@.len() == 11 && "properties"@.len() == 10 && "required"@.len() == 8 && "type"@.len() == 4 && "tools"@.len() == 5);
    assert("serverInfo"@[0] == 's' && "properties"@[0] == 'p' && "name"@[0] == 'n' && "type"@[0] == 't');
    assert("description"@[0] == 'd' && "inputSchema"@[0] == 'i');
    let g = greeting_value(version)->Table_0;
    assert(g[0].0 == "capabilities"@);
    assert(g[1].0 == "protocolVersion"@);
    assert(g[2].0 == "serverInfo"@);
    json::law_lookup(g, "capabilities"@, 0);
    json::law_lookup(g, "protocolVersion"@, 1);
    json::law_lookup(g, "serverInfo"@, 2);
    let s = g[2].1->Table_0;
    assert(s[0].0 == "name"@);
    assert(s[1].0 == "version"@);
    json::law_lookup(s, "name"@, 0);
    json::law_lookup(s, "version"@, 1);
    let v = tool_value(t)->Table_0;
    assert(v[0].0 == "description"@);
    assert(v[1].0 == "inputSchema"@);
    assert(v[2].0 == "name"@);
    json::law_lookup(v, "description"@, 0);
    json::law_lookup(v, "inputSchema"@, 1);
    json::law_lookup(v, "name"@, 2);
    let w = v[1].1->Table_0;
    assert(w[0].0 == "properties"@);
    assert(w[1].0 == "required"@);
    assert(w[2].0 == "type"@);
    json::law_lookup(w, "properties"@, 0);
    json::law_lookup(w, "required"@, 1);
    json::law_lookup(w, "type"@, 2);
    let o = offer_value()->Table_0;
    assert(o[0].0 == "tools"@);
    json::law_lookup(o, "tools"@, 0);
    if t.required <= t.params.len() {
        let need = text::leading(t.params, t.required as int);
        assert(need =~= t.params.take(t.required as int));
    }
}

/// A line that is no JSON is answered with an error that says so.
pub proof fn law_bad_lines(line: &str, version: &str, r: ServerStep)
    requires
        call_ensures(take_line, (line, version), r),
    ensures
        outside::json_value(line@) is None ==> (r@ matches ServerStepText::Answer(j) && (j.member(
            "error"@,
        ) matches Some(e) && e.member_signed("code"@) == Some(-32700i64)) && j.member("result"@)
            is None),
        outside::json_value(line@) matches Some(j) ==> r@ == requested(j, version@),
{
    law_replies_follow_the_protocol(
        json::JsonText::Null,
        json::JsonText::Null,
        mcp::PARSE_ERROR,
        "Parse error"@,
        Seq::empty(),
    );
}

} // verus!
