//! Whether a value has the shape that is asked for.

use vstd::prelude::*;

use crate::json;
use crate::json::Json;
use crate::text;

verus! {

/// What is wrong with a value, and where.
#[derive(Debug)]
pub struct ValidationError {
    pub path: String,
    pub reason: String,
}

/// Whether a value is of a kind; a kind that is not known asks for nothing.
pub open spec fn is_kind(j: json::JsonText, expected: Seq<char>) -> bool {
    if expected == "string"@ {
        j is Text
    } else if expected == "number"@ {
        j is Unsigned || j is Negative || j is Float
    } else if expected == "boolean"@ {
        j is Bool
    } else if expected == "object"@ {
        j is Table
    } else if expected == "array"@ {
        j is List
    } else if expected == "null"@ {
        j is Null
    } else {
        true
    }
}

fn check_kind(value: &Json, expected: &str) -> (r: bool)
    ensures
        r == is_kind(value@, expected@),
{
    if text::same(expected, "string") {
        match value {
            Json::Text(_) => true,
            _ => false,
        }
    } else if text::same(expected, "number") {
        match value {
            Json::Unsigned(_) | Json::Negative(_) | Json::Float(_) => true,
            _ => false,
        }
    } else if text::same(expected, "boolean") {
        match value {
            Json::Bool(_) => true,
            _ => false,
        }
    } else if text::same(expected, "object") {
        match value {
            Json::Table(_) => true,
            _ => false,
        }
    } else if text::same(expected, "array") {
        match value {
            Json::List(_) => true,
            _ => false,
        }
    } else if text::same(expected, "null") {
        match value {
            Json::Null => true,
            _ => false,
        }
    } else {
        true
    }
}

/// Whether a value is of a kind, and if not, what it is instead.
pub fn validate_type(value: &Json, expected: &str, path: &str) -> (r: Result<(), ValidationError>)
    ensures
        r is Ok == is_kind(value@, expected@),
        r matches Err(e) ==> e.path@ == path@ && e.reason@ == "expected "@ + expected@ + ", got "@
            + json::written(value@),
{
    if check_kind(value, expected) {
        Ok(())
    } else {
        let got = value.write();
        Err(
            ValidationError {
                path: path.to_owned(),
                reason: text::cat4("expected ", expected, ", got ", &got),
            },
        )
    }
}

/// The first of some names, from the `i`th on, that a value lacks.
pub open spec fn lacking(j: json::JsonText, fields: Seq<Seq<char>>, i: int) -> Option<Seq<char>>
    decreases fields.len() - i,
{
    if i < 0 || i >= fields.len() {
        None
    } else if j.member(fields[i]) is None {
        Some(fields[i])
    } else {
        lacking(j, fields, i + 1)
    }
}

/// Whether a value is an object that has some members, and if not, which is
/// the first that it lacks.
pub fn require_fields(value: &Json, fields: &Vec<String>, path: &str) -> (r: Result<
    (),
    ValidationError,
>)
    ensures
        match (value@.entries(), lacking(value@, text::texts(fields@), 0)) {
            (None, _) => r matches Err(e) && e.path@ == path@ && e.reason@ == "expected object"@,
            (Some(_), Some(f)) => r matches Err(e) && e.path@ == path@ + "."@ + f && e.reason@
                == "missing required field"@,
            (Some(_), None) => r is Ok,
        },
{
    match value.as_object() {
        Some(_) => {},
        None => {
            return Err(
                ValidationError { path: path.to_owned(), reason: "expected object".to_owned() },
            );
        },
    }
    let ghost all = text::texts(fields@);
    let mut i: usize = 0;
    while i < fields.len()
        invariant
            i <= fields.len(),
            all == text::texts(fields@),
            value@.entries() is Some,
            lacking(value@, all, 0) == lacking(value@, all, i as int),
        decreases fields.len() - i,
    {
        assert(all[i as int] == fields@[i as int]@);
        if value.get(&fields[i]).is_none() {
            return Err(
                ValidationError {
                    path: text::cat3(path, ".", &fields[i]),
                    reason: "missing required field".to_owned(),
                },
            );
        }
        i = i + 1;
    }
    Ok(())
}

/// Each value is of the kind that its form gives it, and of no other that is
/// known; any value is of a kind that is not known.
pub proof fn law_kinds(j: json::JsonText, expected: Seq<char>)
    ensures
        is_kind(j, "string"@) <==> j is Text,
        is_kind(j, "number"@) <==> j is Unsigned || j is Negative || j is Float,
        is_kind(j, "boolean"@) <==> j is Bool,
        is_kind(j, "object"@) <==> j is Table,
        is_kind(j, "array"@) <==> j is List,
        is_kind(j, "null"@) <==> j is Null,
        !is_kind(j, expected) ==> seq![
            "string"@,
            "number"@,
            "boolean"@,
            "object"@,
            "array"@,
            "null"@,
        ].contains(expected),
{
    reveal_strlit("string");
    reveal_strlit("number");
    reveal_strlit("boolean");
    reveal_strlit("object");
    reveal_strlit("array");
    reveal_strlit("null");
    assert("string"@.len() == 6 && "number"@.len() == 6 && "boolean"@.len() == 7 && "object"@.len() == 6 && "array"@.len() == 5 && "null"@.len() == 4);
    assert("string"@[0] == 's' && "number"@[0] == 'n' && "object"@[0] == 'o');
    let v = seq!["string"@, "number"@, "boolean"@, "object"@, "array"@, "null"@];
    assert(v[0] == "string"@ && v[1] == "number"@ && v[2] == "boolean"@ && v[3] == "object"@ && v[4] == "array"@ && v[5] == "null"@);
}

proof fn lemma_lacking(j: json::JsonText, fields: Seq<Seq<char>>, i: int)
    requires
        0 <= i <= fields.len(),
    ensures
        match lacking(j, fields, i) {
            Some(f) => exists|k: int|
                i <= k < fields.len() && #[trigger] fields[k] == f && j.member(f) is None && (forall|
                    m: int,
                |
                    i <= m < k ==> j.member(#[trigger] fields[m]) is Some),
            None => forall|m: int|
                i <= m < fields.len() ==> j.member(#[trigger] fields[m]) is Some,
        },
    decreases fields.len() - i,
{
    if i < fields.len() && j.member(fields[i]) is Some {
        lemma_lacking(j, fields, i + 1);
        if lacking(j, fields, i + 1) is Some {
            let f = lacking(j, fields, i + 1)->0;
            let k = choose|k: int|
                i + 1 <= k < fields.len() && #[trigger] fields[k] == f && j.member(f) is None && (
                forall|m: int| i + 1 <= m < k ==> j.member(#[trigger] fields[m]) is Some);
            assert(fields[k] == f);
        }
    } else if i < fields.len() {
        assert(fields[i] == fields[i]);
    }
}

/// An object is taken exactly where it has all the members that are asked for;
/// else the first that it lacks is named, behind the path.
pub proof fn law_required_fields(
    value: &Json,
    fields: &Vec<String>,
    path: &str,
    r: Result<(), ValidationError>,
)
    requires
        call_ensures(require_fields, (value, fields, path), r),
    ensures
        r is Ok <==> value@ is Table && (forall|k: int|
            0 <= k < fields@.len() ==> value@.member((#[trigger] fields@[k])@) is Some),
        r matches Err(e) ==> (value@ is Table ==> exists|k: int|
            0 <= k < fields@.len() && value@.member((#[trigger] fields@[k])@) is None && e.path@
                == path@ + "."@ + fields@[k]@ && (forall|m: int|
                0 <= m < k ==> value@.member((#[trigger] fields@[m])@) is Some)),
{
    let v = text::texts(fields@);
    assert(v.len() == fields@.len());
    assert(forall|k: int| 0 <= k < v.len() ==> #[trigger] v[k] == fields@[k]@);
    lemma_lacking(value@, v, 0);
    match lacking(value@, v, 0) {
        Some(f) => {
            let k = choose|k: int|
                0 <= k < v.len() && #[trigger] v[k] == f && value@.member(f) is None && (forall|
                    m: int,
                |
                    0 <= m < k ==> value@.member(#[trigger] v[m]) is Some);
            assert(fields@[k]@ == f);
            assert forall|m: int| 0 <= m < k implies value@.member((#[trigger] fields@[m])@) is Some by {
                assert(v[m] == fields@[m]@);
            }
        },
        None => {
            assert forall|k: int| 0 <= k < fields@.len() implies value@.member(
                (#[trigger] fields@[k])@,
            ) is Some by {
                assert(v[k] == fields@[k]@);
            }
        },
    }
}

} // verus!
