//! Prompts with places for values.

use vstd::prelude::*;

use crate::json;
use crate::json::Json;
use crate::text;

verus! {

/// Where the name of a place ends that starts at `i`: at a closing brace, or
/// with the text.
pub open spec fn name_end(t: Seq<char>, i: int) -> int
    decreases t.len() - i,
{
    if i < 0 || i >= t.len() || t[i] == '}' {
        i
    } else {
        name_end(t, i + 1)
    }
}

/// Where the text goes on behind a place whose name ends at `e`: up to two
/// closing braces belong to the place.
pub open spec fn place_end(t: Seq<char>, e: int) -> int {
    if e < t.len() && t[e] == '}' {
        if e + 1 < t.len() && t[e + 1] == '}' {
            e + 2
        } else {
            e + 1
        }
    } else {
        e
    }
}

/// What stands in a place: a text as it is, and any other value as JSON.
pub open spec fn shown(j: json::JsonText) -> Seq<char> {
    match j {
        json::JsonText::Text(s) => s,
        _ => json::written(j),
    }
}

/// The value for a name: what it leads to as a path, or else the member of that
/// name.
pub open spec fn found(vars: json::JsonText, name: Seq<char>) -> Option<json::JsonText> {
    let key = text::trimmed(name);
    match json::pointed(vars, key) {
        Some(j) => Some(j),
        None => vars.member(key),
    }
}

/// What takes the place with a name: nothing when there is no value for it.
pub open spec fn filled_in(vars: json::JsonText, name: Seq<char>) -> Seq<char> {
    match found(vars, name) {
        Some(j) => shown(j),
        None => Seq::empty(),
    }
}

proof fn lemma_name_end(t: Seq<char>, i: int)
    requires
        0 <= i <= t.len(),
    ensures
        i <= name_end(t, i) <= t.len(),
    decreases t.len() - i,
{
    if i < t.len() && t[i] != '}' {
        lemma_name_end(t, i + 1);
    }
}

/// A template from position `i` on, with values in its places.
pub open spec fn rendered_from(t: Seq<char>, vars: json::JsonText, i: int) -> Seq<char>
    decreases t.len() - i,
    when 0 <= i <= t.len()
    via rendered_from_decreases
{
    if i >= t.len() {
        Seq::empty()
    } else if t[i] == '{' && i + 1 < t.len() && t[i + 1] == '{' {
        let e = name_end(t, i + 2);
        filled_in(vars, t.subrange(i + 2, e)) + rendered_from(t, vars, place_end(t, e))
    } else {
        seq![t[i]] + rendered_from(t, vars, i + 1)
    }
}

#[via_fn]
proof fn rendered_from_decreases(t: Seq<char>, vars: json::JsonText, i: int) {
    if i + 2 <= t.len() {
        lemma_name_end(t, i + 2);
    }
}

/// A template with values in its places.
pub open spec fn rendered(t: Seq<char>, vars: json::JsonText) -> Seq<char> {
    rendered_from(t, vars, 0)
}

fn value_text(vars: &Json, name: &str) -> (r: String)
    ensures
        r@ == filled_in(vars@, name@),
{
    let key = text::trim(name);
    let value = match vars.pointer(&key) {
        Some(j) => Some(j),
        None => vars.get(&key),
    };
    match value {
        Some(j) => match j {
            Json::Text(s) => s.clone(),
            _ => j.write(),
        },
        None => {
            let r = String::new();
            assert(r@ =~= Seq::<char>::empty());
            r
        },
    }
}

/// A template with values in its places.
pub fn render(template: &str, vars: &Json) -> (r: String)
    ensures
        r@ == rendered(template@, vars@),
{
    let t = text::chars(template);
    let n: usize = t.len();
    let mut out: String = String::new();
    let mut i: usize = 0;
    assert(out@ + rendered_from(t@, vars@, 0) =~= rendered(t@, vars@));
    while i < n
        invariant
            i <= n,
            n == t.len(),
            t@ == template@,
            out@ + rendered_from(t@, vars@, i as int) == rendered(t@, vars@),
        decreases n - i,
    {
        let ghost before = out@;
        let ghost rest = rendered_from(t@, vars@, i as int);
        if t[i] == '{' && n - i > 1 && t[i + 1] == '{' {
            let start: usize = i + 2;
            let mut e: usize = start;
            while e < n && t[e] != '}'
                invariant
                    start <= e <= n,
                    n == t.len(),
                    name_end(t@, start as int) == name_end(t@, e as int),
                decreases n - e,
            {
                e = e + 1;
            }
            assert(name_end(t@, e as int) == e);
            let name = text::string_of(&t, start, e);
            assert(name@ =~= t@.subrange(start as int, e as int));
            let value = value_text(vars, &name);
            out.push_str(&value);
            let mut next: usize = e;
            if next < n && t[next] == '}' {
                next = next + 1;
                if next < n && t[next] == '}' {
                    next = next + 1;
                }
            }
            assert(next == place_end(t@, e as int));
            assert(rest == value@ + rendered_from(t@, vars@, next as int));
            assert(before + value@ + rendered_from(t@, vars@, next as int) =~= before + rest);
            i = next;
        } else {
            let c = t[i];
            out.push(c);
            assert(rest == seq![c] + rendered_from(t@, vars@, i + 1));
            assert(before.push(c) + rendered_from(t@, vars@, i + 1) =~= before + rest);
            i = i + 1;
        }
    }
    assert(out@ + Seq::<char>::empty() =~= out@);
    out
}

/// A template without places is rendered as it is.
pub proof fn law_plain_template(t: Seq<char>, vars: json::JsonText, i: int)
    requires
        0 <= i <= t.len(),
        forall|k: int| 0 <= k < t.len() ==> (#[trigger] t[k]) != '{',
    ensures
        rendered_from(t, vars, i) == t.skip(i),
    decreases t.len() - i,
{
    if i < t.len() {
        law_plain_template(t, vars, i + 1);
        assert(t.skip(i) =~= seq![t[i]] + t.skip(i + 1));
    } else {
        assert(t.skip(i) =~= Seq::<char>::empty());
    }
}

/// A place with a name is filled with its value, and the text around it stays.
pub proof fn law_places_are_filled(
    a: Seq<char>,
    name: Seq<char>,
    b: Seq<char>,
    vars: json::JsonText,
)
    requires
        forall|k: int| 0 <= k < a.len() ==> (#[trigger] a[k]) != '{',
        forall|k: int| 0 <= k < b.len() ==> (#[trigger] b[k]) != '{',
        forall|k: int| 0 <= k < name.len() ==> (#[trigger] name[k]) != '}',
    ensures
        rendered(a + seq!['{', '{'] + name + seq!['}', '}'] + b, vars) == a + filled_in(vars, name)
            + b,
{
    let t = a + seq!['{', '{'] + name + seq!['}', '}'] + b;
    lemma_lead(a, t, vars, 0);
    let i = a.len() as int;
    let e = i + 2 + name.len();
    assert(t[i] == '{' && t[i + 1] == '{');
    lemma_name(t, name, i + 2, 0);
    assert(t[e] == '}' && t[e + 1] == '}');
    assert(name_end(t, i + 2) == e);
    assert(t.subrange(i + 2, e) =~= name);
    assert(t.skip(e + 2) =~= b);
    lemma_tail(t, b, vars, e + 2);
    assert(rendered_from(t, vars, i) == filled_in(vars, name) + rendered_from(t, vars, e + 2));
    assert(a.skip(0) =~= a);
    assert(a + (filled_in(vars, name) + b) =~= a + filled_in(vars, name) + b);
}

proof fn lemma_lead(a: Seq<char>, t: Seq<char>, vars: json::JsonText, i: int)
    requires
        0 <= i <= a.len() <= t.len(),
        forall|k: int| 0 <= k < a.len() ==> (#[trigger] a[k]) != '{',
        forall|k: int| 0 <= k < a.len() ==> (#[trigger] a[k]) == t[k],
    ensures
        rendered_from(t, vars, i) == a.skip(i) + rendered_from(t, vars, a.len() as int),
    decreases a.len() - i,
{
    if i < a.len() {
        assert(a[i] == t[i]);
        lemma_lead(a, t, vars, i + 1);
        assert(a.skip(i) =~= seq![a[i]] + a.skip(i + 1));
        assert(seq![t[i]] + (a.skip(i + 1) + rendered_from(t, vars, a.len() as int)) =~= a.skip(i)
            + rendered_from(t, vars, a.len() as int));
    } else {
        assert(a.skip(i) =~= Seq::<char>::empty());
        assert(Seq::<char>::empty() + rendered_from(t, vars, i) =~= rendered_from(t, vars, i));
    }
}

proof fn lemma_name(t: Seq<char>, name: Seq<char>, start: int, k: int)
    requires
        0 <= k <= name.len(),
        0 <= start,
        start + name.len() < t.len(),
        t[start + name.len()] == '}',
        forall|m: int| 0 <= m < name.len() ==> (#[trigger] name[m]) != '}' && t[start + m] == name[m],
    ensures
        name_end(t, start + k) == start + name.len(),
    decreases name.len() - k,
{
    if k < name.len() {
        assert(name[k] != '}');
        lemma_name(t, name, start, k + 1);
    }
}

proof fn lemma_tail(t: Seq<char>, b: Seq<char>, vars: json::JsonText, i: int)
    requires
        0 <= i <= t.len(),
        t.skip(i) == b,
        forall|k: int| 0 <= k < b.len() ==> (#[trigger] b[k]) != '{',
    ensures
        rendered_from(t, vars, i) == b,
    decreases t.len() - i,
{
    if i < t.len() {
        assert(b[0] == t[i]);
        let c = b.drop_first();
        assert(t.skip(i + 1) =~= c);
        assert forall|k: int| 0 <= k < c.len() implies (#[trigger] c[k]) != '{' by {
            assert(c[k] == b[k + 1]);
        }
        lemma_tail(t, c, vars, i + 1);
        assert(b =~= seq![t[i]] + c);
    } else {
        assert(b =~= Seq::<char>::empty());
    }
}

/// A text takes its place as it is and another value as JSON; what has no value
/// leaves nothing. A name may have white space around it.
pub proof fn law_values_in_places(
    v: Seq<(Seq<char>, json::JsonText)>,
    name: Seq<char>,
)
    requires
        !text::trimmed(name).contains('/'),
        !text::trimmed(name).contains('~'),
    ensures
        ({
            let key = text::trimmed(name);
            let r = filled_in(json::JsonText::Table(v), name);
            &&& json::lookup(v, key) is None ==> r.len() == 0
            &&& json::lookup(v, key) matches Some(json::JsonText::Text(s)) ==> r == s
            &&& json::lookup(v, key) matches Some(json::JsonText::Bool(true)) ==> r == "true"@
            &&& json::lookup(v, key) matches Some(json::JsonText::Unsigned(n)) ==> r
                == text::decimal(n as nat)
        }),
{
    let key = text::trimmed(name);
    json::law_pointers(json::JsonText::Table(v), Seq::empty(), key, 0);
    json::law_written(
        json::JsonText::Null,
        json::JsonText::Null,
        key,
        key,
        match json::lookup(v, key) {
            Some(json::JsonText::Unsigned(n)) => n,
            _ => 0,
        },
    );
}

} // verus!
