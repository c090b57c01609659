//! The calls of a model and the answers of tools, as the guards look at them.

use vstd::prelude::*;

use crate::agent::aftermath;
use crate::agent::aftermath::Outcome;
use crate::agent::gate;
use crate::agent::gate::Call;
use crate::agent::history;
use crate::agent::history::ToolCall;
use crate::json;
use crate::json::Json;
use crate::outside;
use crate::text;

verus! {

/// The arguments of a call as they are written.
pub open spec fn raw_arguments(c: history::CallText) -> Seq<char> {
    match c.arguments {
        Some(s) => s,
        None => "{}"@,
    }
}

/// The arguments of a call; nothing when they cannot be read and are to be
/// repaired.
pub fn read_arguments(c: &ToolCall) -> (r: Option<Json>)
    ensures
        json::opt_value(r) == outside::json_value(raw_arguments(c@)),
{
    match &c.arguments {
        Some(s) => outside::json_parse(s),
        None => outside::json_parse("{}"),
    }
}

/// The arguments of a call after a repair: none when it brought none that can
/// be read.
pub open spec fn repaired(repair: Option<Seq<char>>) -> json::JsonText {
    match repair {
        Some(s) => match outside::json_value(s) {
            Some(j) => j,
            None => json::JsonText::Table(Seq::empty()),
        },
        None => json::JsonText::Table(Seq::empty()),
    }
}

/// The arguments of a call after a repair.
pub fn repaired_arguments(repair: &Option<String>) -> (r: Json)
    ensures
        r@ == repaired(text::opt_text(*repair)),
{
    let none: Vec<(String, Json)> = Vec::new();
    assert(json::members(none@) =~= Seq::<(Seq<char>, json::JsonText)>::empty());
    match repair {
        Some(s) => match outside::json_parse(s) {
            Some(j) => j,
            None => json::table(none),
        },
        None => json::table(none),
    }
}

/// A call with its arguments, as the guards look at it.
pub open spec fn facts(
    c: history::CallText,
    args: json::JsonText,
    write_key: Seq<char>,
) -> gate::CallFacts {
    gate::CallFacts {
        name: match c.name {
            Some(n) => n,
            None => ""@,
        },
        id: match c.id {
            Some(n) => n,
            None => ""@,
        },
        path: args.member_text("path"@),
        arguments: json::written(args),
        write_key,
        assertion: args.member_text_or("id"@, "?"@),
        state: args.member_text_or("state"@, "?"@),
    }
}

fn text_or_empty(o: &Option<String>) -> (r: String)
    ensures
        r@ == match *o {
            Some(s) => s@,
            None => ""@,
        },
{
    match o {
        Some(s) => s.clone(),
        None => "".to_owned(),
    }
}

/// A call with its arguments, as the guards look at it.
pub fn call_of(c: &ToolCall, args: &Json, write_key: String) -> (r: Call)
    ensures
        r@ == facts(c@, args@, write_key@),
{
    Call {
        name: text_or_empty(&c.name),
        id: text_or_empty(&c.id),
        path: args.get_str("path"),
        arguments: args.write(),
        write_key,
        assertion: args.get_str_or("id", "?"),
        state: args.get_str_or("state", "?"),
    }
}

/// The answer of a tool, as the guards look at it.
pub open spec fn outcome(result: json::JsonText) -> aftermath::OutcomeFacts {
    aftermath::OutcomeFacts {
        failed: result.member("error"@) is Some,
        error: result.member_text("error"@),
        result: result.member_text("result"@),
        category: result.member_text("category"@),
    }
}

/// The answer of a tool, as the guards look at it.
pub fn outcome_of(result: &Json) -> (r: Outcome)
    ensures
        r@ == outcome(result@),
{
    Outcome {
        failed: result.get("error").is_some(),
        error: result.get_str("error"),
        result: result.get_str("result"),
        category: result.get_str("category"),
    }
}

/// The guards see a call as the model made it: its name and id, and of the
/// arguments the path and what they say in full.
pub proof fn law_calls_are_seen_as_made(
    c: history::CallText,
    args: json::JsonText,
    key: Seq<char>,
)
    ensures
        c.name matches Some(n) ==> facts(c, args, key).name == n,
        c.id matches Some(i) ==> facts(c, args, key).id == i,
        facts(c, args, key).path == args.member_text("path"@),
        facts(c, args, key).arguments == json::written(args),
        facts(c, args, key).write_key == key,
        args.member_text("id"@) matches Some(s) ==> facts(c, args, key).assertion == s,
        args.member_text("state"@) matches Some(s) ==> facts(c, args, key).state == s,
{
}

/// A tool has failed exactly when its answer has an error, whatever that is, and
/// its result and its error are those that it gives.
pub proof fn law_outcomes(result: json::JsonText)
    ensures
        outcome(result).failed <==> result.member("error"@) is Some,
        outcome(result).error == result.member_text("error"@),
        outcome(result).result == result.member_text("result"@),
        outcome(result).category == result.member_text("category"@),
{
}

/// Arguments that are missing are none, and a repair that cannot be read brings
/// none.
pub proof fn law_missing_arguments(c: history::CallText, s: Seq<char>)
    ensures
        c.arguments is None ==> raw_arguments(c) == "{}"@,
        c.arguments == Some(s) ==> raw_arguments(c) == s,
        repaired(None) == json::JsonText::Table(Seq::empty()),
        outside::json_value(s) is None ==> repaired(Some(s)) == json::JsonText::Table(Seq::empty()),
        outside::json_value(s) matches Some(j) ==> repaired(Some(s)) == j,
{
}

} // verus!
