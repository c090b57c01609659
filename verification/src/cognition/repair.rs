//! Making JSON of what a small model takes for JSON.

use vstd::prelude::*;

use crate::json;
use crate::outside;
use crate::text;

verus! {

pub const KEY_PATTERN: &'static str = r#"([\{,]\s*)([A-Za-z_][A-Za-z0-9_]*)\s*:"#;

pub const KEY_QUOTED: &'static str = "$1\"$2\":";

/// A text without one fence at its start and one at its end.
pub open spec fn bared(s: Seq<char>) -> Seq<char> {
    let t = text::trimmed(s);
    let a = match text::without_prefix(t, "```json"@) {
        Some(r) => r,
        None => match text::without_prefix(t, "```"@) {
            Some(r) => r,
            None => t,
        },
    };
    text::trimmed(
        match text::without_suffix(a, "```"@) {
            Some(r) => r,
            None => a,
        },
    )
}

/// A text without one fence at its start and one at its end.
pub fn strip_fence(s: &str) -> (r: String)
    ensures
        r@ == bared(s@),
{
    let t = text::trim(s);
    let a = match text::strip_prefix(&t, "```json") {
        Some(r) => r,
        None => match text::strip_prefix(&t, "```") {
            Some(r) => r,
            None => t,
        },
    };
    match text::strip_suffix(&a, "```") {
        Some(r) => text::trim(&r),
        None => text::trim(&a),
    }
}

/// A text with quotes around its bare names.
pub open spec fn keys_quoted(s: Seq<char>) -> Seq<char> {
    outside::regex_replaced(KEY_PATTERN@, s, KEY_QUOTED@)
}

/// What becomes of a text: it stays as it is when it is JSON already. Otherwise
/// it comes to the value that it holds without its fence, or else to the value
/// of the form `s` with quotes around its names, in compact form; to `s` itself,
/// when that holds no value either; and it stays as it is, when nothing in it
/// was repaired.
pub open spec fn repaired(
    input: Seq<char>,
    is_json: bool,
    unfenced: Option<json::JsonText>,
    s: Seq<char>,
    value: Option<json::JsonText>,
) -> Seq<char> {
    if is_json {
        input
    } else {
        match unfenced {
            Some(j) => json::written(j),
            None => match value {
                Some(j) => json::written(j),
                None => if s == text::trimmed(input) {
                    input
                } else {
                    s
                },
            },
        }
    }
}

/// What becomes of a text, when it is known whether it is JSON, which value it
/// holds without its fence, and which with quotes around its names.
pub fn keep_repaired(
    input: &str,
    is_json: bool,
    unfenced: &Option<json::Json>,
    s: String,
    value: &Option<json::Json>,
) -> (r: String)
    ensures
        r@ == repaired(
            input@,
            is_json,
            json::opt_value(*unfenced),
            s@,
            json::opt_value(*value),
        ),
{
    if is_json {
        return input.to_owned();
    }
    match unfenced {
        Some(j) => j.write(),
        None => match value {
            Some(j) => j.write(),
            None => if text::same(&s, &text::trim(input)) {
                input.to_owned()
            } else {
                s
            },
        },
    }
}

/// What a model wrote as JSON, as far as it can be repaired: without fences,
/// with quotes around its names, and in compact form. A text that is JSON, or to
/// which none of this applies, stays as it is.
pub fn repair_json(input: &str) -> (r: String)
    ensures
        r@ == (if text::trimmed(input@).len() == 0 {
            input@
        } else {
            repaired(
                input@,
                outside::json_value(input@) is Some,
                outside::json_value(bared(input@)),
                keys_quoted(bared(input@)),
                outside::json_value(keys_quoted(bared(input@))),
            )
        }),
        outside::json_value(input@) is Some ==> r@ == input@,
{
    if text::trim(input).as_str().is_empty() {
        return input.to_owned();
    }
    let given = outside::json_parse(input);
    let bare = strip_fence(input);
    let unfenced = outside::json_parse(&bare);
    let s = outside::regex_replace_all(KEY_PATTERN, &bare, KEY_QUOTED);
    let value = outside::json_parse(&s);
    keep_repaired(input, given.is_some(), &unfenced, s, &value)
}

/// One fence at the start and one at the end are taken off, with the white
/// space around what is left; a text without fences only loses the white space.
pub proof fn law_bared(body: Seq<char>, s: Seq<char>)
    requires
        text::trimmed("```json"@ + body + "```"@) == "```json"@ + body + "```"@,
    ensures
        bared("```json"@ + body + "```"@) == text::trimmed(body),
        !text::starts(text::trimmed(s), "```"@) && !text::ends(text::trimmed(s), "```"@) ==> bared(s)
            == text::trimmed(s),
{
    lemma_fenced(body);
    if !text::starts(text::trimmed(s), "```"@) && !text::ends(text::trimmed(s), "```"@) {
        lemma_unfenced(s);
    }
}

proof fn lemma_fenced(body: Seq<char>)
    requires
        text::trimmed("```json"@ + body + "```"@) == "```json"@ + body + "```"@,
    ensures
        bared("```json"@ + body + "```"@) == text::trimmed(body),
{
    let f = "```"@;
    let p = "```json"@;
    let t = p + body + f;
    assert(t =~= p + (body + f));
    assert(t.subrange(0, p.len() as int) =~= p);
    assert(t.skip(p.len() as int) =~= body + f);
    let u = body + f;
    assert(u.subrange(u.len() - f.len(), u.len() as int) =~= f);
    assert(u.take(u.len() - f.len()) =~= body);
}

proof fn lemma_unfenced(s: Seq<char>)
    requires
        !text::starts(text::trimmed(s), "```"@),
        !text::ends(text::trimmed(s), "```"@),
    ensures
        bared(s) == text::trimmed(s),
{
    let f = "```"@;
    let p = "```json"@;
    let u = text::trimmed(s);
    text::law_trimmed(s);
    text::law_trimmed(u);
    reveal_strlit("```json");
    reveal_strlit("```");
    assert(f =~= p.subrange(0, 3));
    if text::without_prefix(u, p) is Some {
        assert(u.subrange(0, 3) =~= u.subrange(0, p.len() as int).subrange(0, 3));
    }
}

/// A text that is JSON stays as it is; else what its bare form holds is written
/// out, or what it holds with quoted names; a text that holds nothing either way
/// is left with what was repaired in it.
pub proof fn law_repaired(
    input: Seq<char>,
    unfenced: json::JsonText,
    s: Seq<char>,
    value: json::JsonText,
)
    ensures
        repaired(input, true, Some(unfenced), s, Some(value)) == input,
        repaired(input, true, None, s, None) == input,
        repaired(input, false, Some(unfenced), s, Some(value)) == json::written(unfenced),
        repaired(input, false, None, s, Some(value)) == json::written(value),
        s != text::trimmed(input) ==> repaired(input, false, None, s, None) == s,
        s == text::trimmed(input) ==> repaired(input, false, None, s, None) == input,
{
}

} // verus!
