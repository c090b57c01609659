//! The file that holds the settings, and how an older one is brought up to
//! date.

use vstd::prelude::*;

use crate::json;
use crate::json::Json;
use crate::outside;
use crate::text;

verus! {

/// The layout of the file that is understood.
pub const CURRENT_CONFIG_VERSION: &'static str = "2";

/// What stands at the head of the file.
pub const FILE_HEAD: &'static str =
    "# itsy config — see https://github.com/jukefr/itsy\n# This file is migration-aware: the `version` field at top\n# is honored on load and the file is rewritten in newer\n# layouts as needed. Do not remove `version`.\n\n";

/// The file with its head.
pub fn file_text(body: &str) -> (r: String)
    ensures
        r@ == FILE_HEAD@ + body@,
{
    text::cat2(FILE_HEAD, body)
}

/// The members of a table, with one more unless there is one of its name.
pub open spec fn with_default(
    v: Seq<(Seq<char>, json::JsonText)>,
    key: Seq<char>,
    value: json::JsonText,
) -> Seq<(Seq<char>, json::JsonText)> {
    if json::lookup(v, key) is Some {
        v
    } else {
        v.push((key, value))
    }
}

/// The members of a table without those of a name.
pub open spec fn without(v: Seq<(Seq<char>, json::JsonText)>, key: Seq<char>) -> Seq<
    (Seq<char>, json::JsonText),
>
    decreases v.len(),
{
    if v.len() == 0 {
        Seq::empty()
    } else if v.last().0 == key {
        without(v.drop_last(), key)
    } else {
        without(v.drop_last(), key).push(v.last())
    }
}

/// The members of a table, with a value under a name.
pub open spec fn with_member(
    v: Seq<(Seq<char>, json::JsonText)>,
    key: Seq<char>,
    value: json::JsonText,
) -> Seq<(Seq<char>, json::JsonText)> {
    without(v, key).push((key, value))
}

/// The sections that the second layout brought.
pub open spec fn new_sections() -> Seq<Seq<char>> {
    seq![
        "limits"@,
        "security"@,
        "diff"@,
        "filetree"@,
        "snapshots"@,
        "code_graph"@,
        "tests"@,
        "traces"@,
        "dedup"@,
        "evidence"@,
        "plugins"@,
        "diag"@,
    ]
}

/// The members of a table, with an empty table for each name that is missing.
pub open spec fn with_sections(
    v: Seq<(Seq<char>, json::JsonText)>,
    names: Seq<Seq<char>>,
) -> Seq<(Seq<char>, json::JsonText)>
    decreases names.len(),
{
    if names.len() == 0 {
        v
    } else {
        with_default(
            with_sections(v, names.drop_last()),
            names.last(),
            json::JsonText::Table(Seq::empty()),
        )
    }
}

/// The members of a table, in which the table under a name, if there is one,
/// gets a value.
pub open spec fn with_nested(
    v: Seq<(Seq<char>, json::JsonText)>,
    name: Seq<char>,
    key: Seq<char>,
    value: json::JsonText,
) -> Seq<(Seq<char>, json::JsonText)> {
    match json::lookup(v, name) {
        Some(json::JsonText::Table(inner)) => with_member(
            v,
            name,
            json::JsonText::Table(with_default(inner, key, value)),
        ),
        _ => v,
    }
}

/// A file of the first layout in the second: nothing that it holds is dropped,
/// and what is new gets its default.
pub open spec fn upgraded(v: Seq<(Seq<char>, json::JsonText)>) -> Seq<
    (Seq<char>, json::JsonText),
> {
    let a = with_sections(v, new_sections());
    let b = with_nested(a, "features"@, "bootstrap_max_chars"@, json::JsonText::Unsigned(4000));
    let c = with_nested(b, "tools"@, "shell_contain"@, json::JsonText::Bool(false));
    let d = with_nested(c, "tools"@, "rtk"@, json::JsonText::Bool(true));
    with_member(d, "version"@, json::JsonText::Text("2"@))
}

/// The layout of a file.
pub open spec fn version_in(j: json::JsonText) -> Seq<char> {
    j.member_text_or("version"@, "1"@)
}

/// A file brought up to date, or why it cannot be.
pub open spec fn migrated(j: json::JsonText) -> Result<json::JsonText, Seq<char>> {
    if version_in(j) == CURRENT_CONFIG_VERSION@ {
        Ok(j)
    } else if version_in(j) == "1"@ {
        match j {
            json::JsonText::Table(v) => Ok(json::JsonText::Table(upgraded(v))),
            _ => Err("config root is not a table"@),
        }
    } else {
        Err(
            "config version "@ + version_in(j) + " has no migration to "@ + CURRENT_CONFIG_VERSION@,
        )
    }
}

fn find(v: &Vec<(String, Json)>, key: &str) -> (r: Option<usize>)
    ensures
        match r {
            Some(i) => i < v.len() && v@[i as int].0@ == key@ && json::lookup(
                json::members(v@),
                key@,
            ) == Some(v@[i as int].1@),
            None => json::lookup(json::members(v@), key@) is None,
        },
{
    let ghost all = json::members(v@);
    let mut i: usize = v.len();
    assert(all.take(i as int) =~= all);
    while i > 0
        invariant
            i <= v.len(),
            all == json::members(v@),
            json::lookup(all, key@) == json::lookup(all.take(i as int), key@),
        decreases i,
    {
        assert(all.take(i as int).drop_last() =~= all.take(i - 1));
        assert(all.take(i as int).last() == (v@[i - 1].0@, v@[i - 1].1@));
        i = i - 1;
        if text::same(&v[i].0, key) {
            return Some(i);
        }
    }
    None
}

fn add_default(v: &mut Vec<(String, Json)>, key: &str, value: Json)
    ensures
        json::members(final(v)@) == with_default(json::members(old(v)@), key@, value@),
{
    match find(v, key) {
        Some(_) => {},
        None => {
            let ghost before = json::members(v@);
            v.push((key.to_owned(), value));
            assert(json::members(v@) =~= before.push((key@, value@)));
        },
    }
}

proof fn lemma_without_remove(v: Seq<(Seq<char>, json::JsonText)>, key: Seq<char>, i: int)
    requires
        0 <= i < v.len(),
        v[i].0 == key,
    ensures
        without(v.remove(i), key) == without(v, key),
    decreases v.len(),
{
    if i == v.len() - 1 {
        assert(v.remove(i) =~= v.drop_last());
    } else {
        lemma_without_remove(v.drop_last(), key, i);
        assert(v.remove(i).drop_last() =~= v.drop_last().remove(i));
        assert(v.remove(i).last() == v.last());
    }
}

proof fn lemma_without_none(v: Seq<(Seq<char>, json::JsonText)>, key: Seq<char>)
    requires
        json::lookup(v, key) is None,
    ensures
        without(v, key) == v,
    decreases v.len(),
{
    if v.len() > 0 {
        lemma_without_none(v.drop_last(), key);
        assert(v =~= v.drop_last().push(v.last()));
    }
}

/// Takes out the values under a name; returns the one that counts.
fn take_out(v: &mut Vec<(String, Json)>, key: &str) -> (r: Option<Json>)
    ensures
        json::members(final(v)@) == without(json::members(old(v)@), key@),
        json::opt_value(r) == json::lookup(json::members(old(v)@), key@),
{
    match find(v, key) {
        None => {
            proof {
                lemma_without_none(json::members(v@), key@);
            }
            None
        },
        Some(i) => {
            let ghost start = json::members(v@);
            proof {
                lemma_without_remove(start, key@, i as int);
            }
            let found = v.remove(i);
            assert(json::members(v@) =~= start.remove(i as int));
            loop
                invariant
                    without(json::members(v@), key@) == without(start, key@),
                ensures
                    json::members(v@) == without(start, key@),
                decreases v.len(),
            {
                match find(v, key) {
                    Some(k) => {
                        let ghost before = json::members(v@);
                        proof {
                            lemma_without_remove(before, key@, k as int);
                        }
                        let _ = v.remove(k);
                        assert(json::members(v@) =~= before.remove(k as int));
                    },
                    None => {
                        proof {
                            lemma_without_none(json::members(v@), key@);
                        }
                        break;
                    },
                }
            }
            Some(found.1)
        },
    }
}

fn put(v: &mut Vec<(String, Json)>, key: &str, value: Json)
    ensures
        json::members(final(v)@) == with_member(json::members(old(v)@), key@, value@),
{
    let _ = take_out(v, key);
    let ghost before = json::members(v@);
    v.push((key.to_owned(), value));
    assert(json::members(v@) =~= before.push((key@, value@)));
}

fn add_nested(v: &mut Vec<(String, Json)>, name: &str, key: &str, value: Json)
    ensures
        json::members(final(v)@) == with_nested(json::members(old(v)@), name@, key@, value@),
{
    let is_table = match find(v, name) {
        Some(i) => match v[i].1.as_object() {
            Some(_) => true,
            None => false,
        },
        None => false,
    };
    if !is_table {
        return;
    }
    match take_out(v, name) {
        Some(Json::Table(inner)) => {
            proof {
                json::lemma_table(inner);
            }
            let mut inner = inner;
            add_default(&mut inner, key, value);
            let ghost before = json::members(v@);
            let t = json::table(inner);
            v.push((name.to_owned(), t));
            assert(json::members(v@) =~= before.push((name@, t@)));
        },
        _ => {},
    }
}

fn add_sections(v: &mut Vec<(String, Json)>)
    ensures
        json::members(final(v)@) == with_sections(json::members(old(v)@), new_sections()),
{
    let ghost start = json::members(v@);
    let names: Vec<&'static str> = vec![
        "limits",
        "security",
        "diff",
        "filetree",
        "snapshots",
        "code_graph",
        "tests",
        "traces",
        "dedup",
        "evidence",
        "plugins",
        "diag",
    ];
    let ghost wanted = new_sections();
    assert(names@.len() == wanted.len());
    assert(forall|i: int| 0 <= i < names@.len() ==> (#[trigger] names@[i])@ == wanted[i]);
    let mut i: usize = 0;
    assert(with_sections(start, wanted.take(0)) == start);
    while i < names.len()
        invariant
            i <= names.len(),
            names@.len() == wanted.len(),
            forall|i: int| 0 <= i < names@.len() ==> (#[trigger] names@[i])@ == wanted[i],
            json::members(v@) == with_sections(start, wanted.take(i as int)),
        decreases names.len() - i,
    {
        assert(wanted.take(i + 1).drop_last() =~= wanted.take(i as int));
        assert(wanted.take(i + 1).last() == names@[i as int]@);
        let empty: Vec<(String, Json)> = Vec::new();
        assert(json::members(empty@) =~= Seq::<(Seq<char>, json::JsonText)>::empty());
        add_default(v, names[i], json::table(empty));
        i = i + 1;
    }
    assert(wanted.take(i as int) =~= wanted);
}

/// A file of the first layout in the second.
fn v1_to_v2(v: &mut Vec<(String, Json)>)
    ensures
        json::members(final(v)@) == upgraded(json::members(old(v)@)),
{
    add_sections(v);
    add_nested(v, "features", "bootstrap_max_chars", Json::Unsigned(4000));
    add_nested(v, "tools", "shell_contain", Json::Bool(false));
    add_nested(v, "tools", "rtk", Json::Bool(true));
    put(v, "version", json::word("2"));
}

/// Brings a file up to date; one that is stays as it is.
pub fn apply_migrations(value: Json) -> (r: Result<Json, String>)
    ensures
        match migrated(value@) {
            Ok(j) => r matches Ok(x) && x@ == j,
            Err(e) => r matches Err(s) && s@ == e,
        },
{
    let version = value.get_str_or("version", "1");
    if text::same(&version, CURRENT_CONFIG_VERSION) {
        return Ok(value);
    }
    if text::same(&version, "1") {
        match value {
            Json::Table(v) => {
                proof {
                    json::lemma_table(v);
                }
                let mut v = v;
                v1_to_v2(&mut v);
                Ok(json::table(v))
            },
            _ => Err("config root is not a table".to_owned()),
        }
    } else {
        Err(
            text::cat4(
                "config version ",
                &version,
                " has no migration to ",
                CURRENT_CONFIG_VERSION,
            ),
        )
    }
}

/// What a file says, brought up to date, or why it cannot be read.
pub fn read_config(source: &str) -> (r: Result<Json, String>)
    ensures
        match outside::toml_value(source@) {
            Some(j) => match migrated(j) {
                Ok(m) => r matches Ok(x) && x@ == m,
                Err(e) => r matches Err(s) && s@ == e,
            },
            None => r matches Err(s) && s@ == "parse config"@,
        },
{
    match outside::toml_parse(source) {
        Some(j) => apply_migrations(j),
        None => Err("parse config".to_owned()),
    }
}

proof fn lemma_lookup_without(v: Seq<(Seq<char>, json::JsonText)>, key: Seq<char>, name: Seq<char>)
    requires
        name != key,
    ensures
        json::lookup(without(v, key), name) == json::lookup(v, name),
    decreases v.len(),
{
    if v.len() > 0 {
        lemma_lookup_without(v.drop_last(), key, name);
        let rest = without(v.drop_last(), key);
        assert(rest.push(v.last()).drop_last() =~= rest);
    }
}

proof fn lemma_lookup_push(
    v: Seq<(Seq<char>, json::JsonText)>,
    key: Seq<char>,
    value: json::JsonText,
    name: Seq<char>,
)
    ensures
        json::lookup(v.push((key, value)), name) == (if name == key {
            Some(value)
        } else {
            json::lookup(v, name)
        }),
{
    assert(v.push((key, value)).drop_last() =~= v);
}

proof fn lemma_sections_keep(
    v: Seq<(Seq<char>, json::JsonText)>,
    names: Seq<Seq<char>>,
    name: Seq<char>,
)
    requires
        json::lookup(v, name) is Some,
    ensures
        json::lookup(with_sections(v, names), name) == json::lookup(v, name),
    decreases names.len(),
{
    if names.len() > 0 {
        lemma_sections_keep(v, names.drop_last(), name);
        let before = with_sections(v, names.drop_last());
        lemma_lookup_push(before, names.last(), json::JsonText::Table(Seq::empty()), name);
    }
}

proof fn lemma_nested_keeps(
    v: Seq<(Seq<char>, json::JsonText)>,
    table: Seq<char>,
    key: Seq<char>,
    value: json::JsonText,
    name: Seq<char>,
)
    requires
        name != table,
    ensures
        json::lookup(with_nested(v, table, key, value), name) == json::lookup(v, name),
{
    match json::lookup(v, table) {
        Some(json::JsonText::Table(inner)) => {
            let t = json::JsonText::Table(with_default(inner, key, value));
            lemma_lookup_without(v, table, name);
            lemma_lookup_push(without(v, table), table, t, name);
        },
        _ => {},
    }
}

/// Whether a value holds what another one does: it is the same, or both are
/// tables and each member of the other is there with its value.
pub open spec fn holds_all(new: json::JsonText, old_value: json::JsonText) -> bool {
    ||| new == old_value
    ||| match (new, old_value) {
        (json::JsonText::Table(n), json::JsonText::Table(o)) => forall|key: Seq<char>|
            (#[trigger] json::lookup(o, key)) is Some ==> json::lookup(n, key) == json::lookup(
                o,
                key,
            ),
        _ => false,
    }
}

proof fn lemma_nested_gains(
    v: Seq<(Seq<char>, json::JsonText)>,
    table: Seq<char>,
    key: Seq<char>,
    value: json::JsonText,
    name: Seq<char>,
    first: json::JsonText,
)
    requires
        json::lookup(v, name) matches Some(x) && holds_all(x, first),
    ensures
        json::lookup(with_nested(v, table, key, value), name) matches Some(y) && holds_all(y, first),
{
    if name != table {
        lemma_nested_keeps(v, table, key, value, name);
    } else {
        match json::lookup(v, table) {
            Some(json::JsonText::Table(inner)) => {
                let grown = with_default(inner, key, value);
                lemma_lookup_push(without(v, table), table, json::JsonText::Table(grown), name);
                assert forall|k: Seq<char>| (#[trigger] json::lookup(inner, k)) is Some implies
                    json::lookup(grown, k) == json::lookup(inner, k) by {
                    lemma_lookup_push(inner, key, value, k);
                }
                match first {
                    json::JsonText::Table(o) => {
                        assert forall|k: Seq<char>| (#[trigger] json::lookup(o, k)) is Some implies
                            json::lookup(grown, k) == json::lookup(o, k) by {
                            assert(json::lookup(inner, k) == json::lookup(o, k));
                        }
                    },
                    _ => {},
                }
            },
            _ => {},
        }
    }
}

/// Bringing a file up to date drops nothing: everything in it but the version
/// stays as it is, except that two sections may gain members; theirs stay as
/// they are.
pub proof fn law_upgrade_drops_nothing(v: Seq<(Seq<char>, json::JsonText)>, name: Seq<char>)
    requires
        json::lookup(v, name) is Some,
        name != "version"@,
    ensures
        json::lookup(upgraded(v), name) matches Some(y) && holds_all(y, json::lookup(v, name)->0),
        name != "features"@ && name != "tools"@ ==> json::lookup(upgraded(v), name)
            == json::lookup(v, name),
{
    let x = json::lookup(v, name)->0;
    let f = json::JsonText::Unsigned(4000);
    let a = with_sections(v, new_sections());
    let b = with_nested(a, "features"@, "bootstrap_max_chars"@, f);
    let c = with_nested(b, "tools"@, "shell_contain"@, json::JsonText::Bool(false));
    let d = with_nested(c, "tools"@, "rtk"@, json::JsonText::Bool(true));
    lemma_sections_keep(v, new_sections(), name);
    lemma_nested_gains(a, "features"@, "bootstrap_max_chars"@, f, name, x);
    lemma_nested_gains(b, "tools"@, "shell_contain"@, json::JsonText::Bool(false), name, x);
    lemma_nested_gains(c, "tools"@, "rtk"@, json::JsonText::Bool(true), name, x);
    lemma_lookup_without(d, "version"@, name);
    lemma_lookup_push(without(d, "version"@), "version"@, json::JsonText::Text("2"@), name);
    if name != "features"@ && name != "tools"@ {
        lemma_untouched(v, name);
    }
}

proof fn lemma_untouched(v: Seq<(Seq<char>, json::JsonText)>, name: Seq<char>)
    requires
        json::lookup(v, name) is Some,
        name != "version"@,
        name != "features"@,
        name != "tools"@,
    ensures
        json::lookup(upgraded(v), name) == json::lookup(v, name),
{
    let a = with_sections(v, new_sections());
    lemma_sections_keep(v, new_sections(), name);
    let f = json::JsonText::Unsigned(4000);
    lemma_nested_keeps(a, "features"@, "bootstrap_max_chars"@, f, name);
    let b = with_nested(a, "features"@, "bootstrap_max_chars"@, f);
    lemma_nested_keeps(b, "tools"@, "shell_contain"@, json::JsonText::Bool(false), name);
    let c = with_nested(b, "tools"@, "shell_contain"@, json::JsonText::Bool(false));
    lemma_nested_keeps(c, "tools"@, "rtk"@, json::JsonText::Bool(true), name);
    let d = with_nested(c, "tools"@, "rtk"@, json::JsonText::Bool(true));
    lemma_lookup_without(d, "version"@, name);
    lemma_lookup_push(without(d, "version"@), "version"@, json::JsonText::Text("2"@), name);
}

/// A file that was brought up to date is up to date.
pub proof fn law_migration_ends(j: json::JsonText)
    ensures
        migrated(j) matches Ok(m) ==> version_in(m) == CURRENT_CONFIG_VERSION@ && migrated(m) == Ok::<
            json::JsonText,
            Seq<char>,
        >(m),
{
    if version_in(j) != CURRENT_CONFIG_VERSION@ && version_in(j) == "1"@ {
        match j {
            json::JsonText::Table(v) => {
                let u = upgraded(v);
                assert(u.last() == ("version"@, json::JsonText::Text("2"@)));
                assert(json::lookup(u, "version"@) == Some(json::JsonText::Text("2"@)));
            },
            _ => {},
        }
    }
}

/// A value is set only where none is; the others stay.
pub proof fn law_defaults_do_not_replace(
    v: Seq<(Seq<char>, json::JsonText)>,
    key: Seq<char>,
    value: json::JsonText,
    other: Seq<char>,
)
    ensures
        json::lookup(v, key) matches Some(x) ==> json::lookup(with_default(v, key, value), key)
            == Some(x),
        json::lookup(v, key) is None ==> json::lookup(with_default(v, key, value), key) == Some(
            value,
        ),
        other != key ==> json::lookup(with_default(v, key, value), other) == json::lookup(v, other),
        json::lookup(with_member(v, key, value), key) == Some(value),
        other != key ==> json::lookup(with_member(v, key, value), other) == json::lookup(v, other),
        json::lookup(without(v, key), key) is None,
{
    assert(v.push((key, value)).drop_last() =~= v);
    lemma_without_lookup(v, key, other);
    lemma_without_lookup(v, key, key);
    let w = without(v, key);
    assert(w.push((key, value)).drop_last() =~= w);
}

proof fn lemma_without_lookup(v: Seq<(Seq<char>, json::JsonText)>, key: Seq<char>, other: Seq<char>)
    ensures
        other != key ==> json::lookup(without(v, key), other) == json::lookup(v, other),
        json::lookup(without(v, key), key) is None,
    decreases v.len(),
{
    if v.len() > 0 {
        let d = v.drop_last();
        lemma_without_lookup(d, key, other);
        let w = without(d, key);
        assert(w.push(v.last()).drop_last() =~= w);
    }
}

proof fn lemma_sections(
    v: Seq<(Seq<char>, json::JsonText)>,
    names: Seq<Seq<char>>,
    key: Seq<char>,
)
    ensures
        json::lookup(v, key) matches Some(x) ==> json::lookup(with_sections(v, names), key) == Some(
            x,
        ),
        json::lookup(v, key) is None && names.contains(key) ==> json::lookup(
            with_sections(v, names),
            key,
        ) == Some(json::JsonText::Table(Seq::empty())),
        json::lookup(v, key) is None && !names.contains(key) ==> json::lookup(
            with_sections(v, names),
            key,
        ) is None,
    decreases names.len(),
{
    if names.len() > 0 {
        let d = names.drop_last();
        lemma_sections(v, d, key);
        let w = with_sections(v, d);
        law_defaults_do_not_replace(
            w,
            names.last(),
            json::JsonText::Table(Seq::empty()),
            key,
        );
        if names.contains(key) && key != names.last() {
            let k = choose|k: int| 0 <= k < names.len() && names[k] == key;
            assert(d[k] == key);
        }
        if d.contains(key) {
            let k = choose|k: int| 0 <= k < d.len() && d[k] == key;
            assert(names[k] == key);
        }
        assert(names[names.len() - 1] == names.last());
    }
}

proof fn lemma_nested(
    v: Seq<(Seq<char>, json::JsonText)>,
    name: Seq<char>,
    key: Seq<char>,
    value: json::JsonText,
    other: Seq<char>,
)
    ensures
        other != name ==> json::lookup(with_nested(v, name, key, value), other) == json::lookup(
            v,
            other,
        ),
        json::lookup(v, name) matches Some(json::JsonText::Table(inner)) ==> json::lookup(
            with_nested(v, name, key, value),
            name,
        ) == Some(json::JsonText::Table(with_default(inner, key, value))),
        json::lookup(v, name) is None ==> json::lookup(with_nested(v, name, key, value), name) is None,
{
    match json::lookup(v, name) {
        Some(json::JsonText::Table(inner)) => {
            law_defaults_do_not_replace(
                v,
                name,
                json::JsonText::Table(with_default(inner, key, value)),
                other,
            );
        },
        _ => {},
    }
}

/// A file of the first version keeps all its sections. It gets those that are
/// new, empty, and its version is the second; what is new in its sections on
/// features and tools is set where it was not.
pub proof fn law_old_files_are_upgraded(v: Seq<(Seq<char>, json::JsonText)>, key: Seq<char>)
    ensures
        json::lookup(upgraded(v), "version"@) == Some(json::JsonText::Text("2"@)),
        key != "version"@ && key != "features"@ && key != "tools"@ ==> (json::lookup(
            v,
            key,
        ) matches Some(x) ==> json::lookup(upgraded(v), key) == Some(x)),
        json::lookup(v, key) is None && seq![
            "limits"@,
            "security"@,
            "diff"@,
            "filetree"@,
            "snapshots"@,
            "code_graph"@,
            "tests"@,
            "traces"@,
            "dedup"@,
            "evidence"@,
            "plugins"@,
            "diag"@,
        ].contains(key) ==> json::lookup(upgraded(v), key) == Some(json::JsonText::Table(Seq::empty())),
        json::lookup(v, "features"@) matches Some(json::JsonText::Table(f)) ==> (json::lookup(
            upgraded(v),
            "features"@,
        ) matches Some(json::JsonText::Table(g)) && json::lookup(g, "bootstrap_max_chars"@) == (
        if json::lookup(f, "bootstrap_max_chars"@) is Some {
            json::lookup(f, "bootstrap_max_chars"@)
        } else {
            Some(json::JsonText::Unsigned(4000))
        }) && (key != "bootstrap_max_chars"@ ==> json::lookup(g, key) == json::lookup(f, key))),
        json::lookup(v, "tools"@) matches Some(json::JsonText::Table(f)) ==> (json::lookup(
            upgraded(v),
            "tools"@,
        ) matches Some(json::JsonText::Table(g)) && (json::lookup(f, "rtk"@) is None
            ==> json::lookup(g, "rtk"@) == Some(json::JsonText::Bool(true))) && (json::lookup(
            f,
            "shell_contain"@,
        ) is None ==> json::lookup(g, "shell_contain"@) == Some(json::JsonText::Bool(false))) && (
        key != "rtk"@ && key != "shell_contain"@ ==> json::lookup(g, key) == json::lookup(f, key))),
{
    reveal_strlit("limits");
    reveal_strlit("security");
    reveal_strlit("diff");
    reveal_strlit("filetree");
    reveal_strlit("snapshots");
    reveal_strlit("code_graph");
    reveal_strlit("tests");
    reveal_strlit("traces");
    reveal_strlit("dedup");
    reveal_strlit("evidence");
    reveal_strlit("plugins");
    reveal_strlit("diag");
    reveal_strlit("version");
    reveal_strlit("features");
    reveal_strlit("tools");
    reveal_strlit("rtk");
    reveal_strlit("shell_contain");
    assert("limits"@.len() == 6 && "security"@.len() == 8 && "diff"@.len() == 4 && "filetree"@.len() == 8 && "snapshots"@.len() == 9 && "code_graph"@.len() == 10 && "tests"@.len() == 5 && "traces"@.len() == 6 && "dedup"@.len() == 5 && "evidence"@.len() == 8 && "plugins"@.len() == 7 && "diag"@.len() == 4 && "version"@.len() == 7 && "features"@.len() == 8 && "tools"@.len() == 5 && "rtk"@.len() == 3 && "shell_contain"@.len() == 13);
    assert("limits"@[0] == 'l' && "traces"@[0] == 't' && "security"@[0] == 's' && "filetree"@[0] == 'f');
    assert("evidence"@[0] == 'e' && "features"@[0] == 'f' && "diff"@[2] == 'f' && "diag"@[2] == 'a');
    assert("filetree"@[1] == 'i' && "features"@[1] == 'e' && "tests"@[0] == 't' && "dedup"@[0] == 'd');
    assert("tests"@[1] == 'e' && "tools"@[1] == 'o' && "tools"@[0] == 't' && "plugins"@[0] == 'p');
    assert("version"@[0] == 'v');
    let s = new_sections();
    let f = "features"@;
    let t = "tools"@;
    let four = json::JsonText::Unsigned(4000);
    let no = json::JsonText::Bool(false);
    let yes = json::JsonText::Bool(true);
    let a = with_sections(v, s);
    let b = with_nested(a, f, "bootstrap_max_chars"@, four);
    let c = with_nested(b, t, "shell_contain"@, no);
    let d = with_nested(c, t, "rtk"@, yes);
    assert forall|k: Seq<char>| s.contains(k) implies k != f && k != t && k != "version"@ by {
        let i = choose|i: int| 0 <= i < s.len() && s[i] == k;
        lemma_section_names(i);
    }
    lemma_sections(v, s, key);
    lemma_sections(v, s, f);
    lemma_sections(v, s, t);
    lemma_nested(a, f, "bootstrap_max_chars"@, four, key);
    lemma_nested(a, f, "bootstrap_max_chars"@, four, t);
    lemma_nested(b, t, "shell_contain"@, no, key);
    lemma_nested(b, t, "shell_contain"@, no, f);
    lemma_nested(c, t, "rtk"@, yes, key);
    lemma_nested(c, t, "rtk"@, yes, f);
    law_defaults_do_not_replace(d, "version"@, json::JsonText::Text("2"@), key);
    law_defaults_do_not_replace(d, "version"@, json::JsonText::Text("2"@), f);
    law_defaults_do_not_replace(d, "version"@, json::JsonText::Text("2"@), t);
    assert(s =~= seq![
        "limits"@,
        "security"@,
        "diff"@,
        "filetree"@,
        "snapshots"@,
        "code_graph"@,
        "tests"@,
        "traces"@,
        "dedup"@,
        "evidence"@,
        "plugins"@,
        "diag"@,
    ]);
    if let Some(json::JsonText::Table(inner)) = json::lookup(v, f) {
        law_defaults_do_not_replace(inner, "bootstrap_max_chars"@, four, key);
    }
    if let Some(json::JsonText::Table(inner)) = json::lookup(v, t) {
        law_defaults_do_not_replace(inner, "shell_contain"@, no, key);
        law_defaults_do_not_replace(inner, "shell_contain"@, no, "rtk"@);
        let next = with_default(inner, "shell_contain"@, no);
        law_defaults_do_not_replace(next, "rtk"@, yes, key);
        law_defaults_do_not_replace(next, "rtk"@, yes, "shell_contain"@);
    }
}

proof fn lemma_section_names(i: int)
    requires
        0 <= i < 12,
    ensures
        new_sections()[i] != "features"@ && new_sections()[i] != "tools"@ && new_sections()[i]
            != "version"@,
{
    reveal_strlit("limits");
    reveal_strlit("security");
    reveal_strlit("diff");
    reveal_strlit("filetree");
    reveal_strlit("snapshots");
    reveal_strlit("code_graph");
    reveal_strlit("tests");
    reveal_strlit("traces");
    reveal_strlit("dedup");
    reveal_strlit("evidence");
    reveal_strlit("plugins");
    reveal_strlit("diag");
    reveal_strlit("version");
    reveal_strlit("features");
    reveal_strlit("tools");
    assert("limits"@.len() == 6 && "security"@.len() == 8 && "diff"@.len() == 4 && "filetree"@.len() == 8 && "snapshots"@.len() == 9 && "code_graph"@.len() == 10 && "tests"@.len() == 5 && "traces"@.len() == 6 && "dedup"@.len() == 5 && "evidence"@.len() == 8 && "plugins"@.len() == 7 && "diag"@.len() == 4 && "version"@.len() == 7 && "features"@.len() == 8 && "tools"@.len() == 5);
    assert("limits"@[0] == 'l' && "traces"@[0] == 't' && "security"@[0] == 's' && "filetree"@[0] == 'f');
    assert("evidence"@[0] == 'e' && "features"@[0] == 'f' && "diff"@[2] == 'f' && "diag"@[2] == 'a');
    assert("filetree"@[1] == 'i' && "features"@[1] == 'e' && "tests"@[0] == 't' && "dedup"@[0] == 'd');
    assert("tests"@[1] == 'e' && "tools"@[1] == 'o' && "tools"@[0] == 't' && "plugins"@[0] == 'p');
    assert("version"@[0] == 'v');
}

/// A file of this version stays as it is, one without a version counts as one of
/// the first, and one of a version that is not known is refused by its name.
pub proof fn law_versions(v: Seq<(Seq<char>, json::JsonText)>, j: json::JsonText, s: Seq<char>)
    ensures
        j.member_text("version"@) == Some("2"@) ==> migrated(j) == Ok::<json::JsonText, Seq<char>>(j),
        json::lookup(v, "version"@) is None ==> migrated(json::JsonText::Table(v)) == Ok::<
            json::JsonText,
            Seq<char>,
        >(json::JsonText::Table(upgraded(v))),
        j.member_text("version"@) == Some(s) && s != "1"@ && s != "2"@ ==> (migrated(
            j,
        ) matches Err(e) && text::has(e, s)),
{
    reveal_strlit("1");
    reveal_strlit("2");
    assert("1"@[0] == '1' && "2"@[0] == '2');
    text::law_affixes(s, "config version "@, " has no migration to "@ + "2"@);
    assert("config version "@ + s + (" has no migration to "@ + "2"@) =~= "config version "@ + s
        + " has no migration to "@ + "2"@);
}

} // verus!
