//! Questions to the code graph: what is looked up, and what the rows that come
//! back amount to.

use vstd::prelude::*;

use crate::code_graph::{RepoSummary, SymbolExplanation, SymbolHit};
use crate::code_graph;
use crate::json;
use crate::json::Json;
use crate::outside;
use crate::text;

verus! {

/// A line number of the database as the agent shows it: a negative one is shown
/// as zero, and the value is held to 32 bits.
pub open spec fn shown_line(line: i64) -> u32 {
    if line < 0 {
        0
    } else {
        (line % 0x1_0000_0000) as u32
    }
}

/// Whether a list holds texts and nothing else.
pub open spec fn all_texts(v: Seq<json::JsonText>) -> bool {
    forall|i: int| 0 <= i < v.len() ==> (#[trigger] v[i]) is Text
}

/// The languages that a value names: those of a list of texts, and otherwise
/// none.
pub open spec fn languages_in(j: json::JsonText) -> Seq<Seq<char>> {
    match j {
        json::JsonText::List(v) => if all_texts(v) {
            json::strings_in(v)
        } else {
            Seq::empty()
        },
        _ => Seq::empty(),
    }
}

fn no_languages() -> (r: Vec<String>)
    ensures
        text::texts(r@) == Seq::<Seq<char>>::empty(),
{
    let r: Vec<String> = Vec::new();
    assert(text::texts(r@) =~= Seq::<Seq<char>>::empty());
    r
}

/// The languages that a value names.
pub fn languages_of(j: &Json) -> (r: Vec<String>)
    ensures
        text::texts(r@) == languages_in(j@),
{
    match j.as_array() {
        Some(v) => {
            let ghost all = json::values(v@);
            let mut i: usize = 0;
            while i < v.len()
                invariant
                    i <= v.len(),
                    all == json::values(v@),
                    j@ == json::JsonText::List(all),
                    forall|k: int| 0 <= k < i ==> (#[trigger] all[k]) is Text,
                decreases v.len() - i,
            {
                assert(all[i as int] == v@[i as int]@);
                if v[i].as_str().is_none() {
                    return no_languages();
                }
                i = i + 1;
            }
            assert(all.len() == v@.len());
            json::strings_of(v)
        },
        None => no_languages(),
    }
}

/// The languages of a repository, as they are written down.
pub fn read_languages(source: &str) -> (r: Vec<String>)
    ensures
        text::texts(r@) == match outside::json_value(source@) {
            Some(j) => languages_in(j),
            None => Seq::empty(),
        },
{
    match outside::json_parse(source) {
        Some(j) => languages_of(&j),
        None => no_languages(),
    }
}

pub fn line_number(line: i64) -> (r: u32)
    ensures
        r == shown_line(line),
{
    if line < 0 {
        0
    } else {
        (line % 0x1_0000_0000) as u32
    }
}

/// Languages as they are written down: as a list of texts.
pub fn write_languages(languages: &Vec<String>) -> (r: String)
    ensures
        r@ == json::written(
            json::JsonText::List(
                text::texts(languages@).map_values(|s: Seq<char>| json::JsonText::Text(s)),
            ),
        ),
{
    let ghost wanted = text::texts(languages@).map_values(
        |s: Seq<char>| json::JsonText::Text(s),
    );
    let mut v: Vec<Json> = Vec::new();
    let mut i: usize = 0;
    while i < languages.len()
        invariant
            i <= languages.len(),
            v.len() == i,
            wanted == text::texts(languages@).map_values(|s: Seq<char>| json::JsonText::Text(s)),
            forall|k: int| 0 <= k < i ==> (#[trigger] v@[k])@ == wanted[k],
        decreases languages.len() - i,
    {
        assert(text::texts(languages@)[i as int] == languages@[i as int]@);
        let w = json::word(&languages[i]);
        assert(w@ == wanted[i as int]);
        v.push(w);
        i = i + 1;
    }
    assert(json::values(v@) =~= wanted);
    json::list(v).write()
}

/// A repository by its row in the database, which holds its languages as a
/// list of texts.
pub fn repo_of(
    name: String,
    path: String,
    file_count: i64,
    symbol_count: i64,
    languages: &str,
) -> (r: RepoSummary)
    ensures
        r@ == (code_graph::RepoText {
            name: name@,
            path: path@,
            file_count: shown_line(file_count),
            symbol_count: shown_line(symbol_count),
            languages: match outside::json_value(languages@) {
                Some(j) => languages_in(j),
                None => Seq::empty(),
            },
        }),
{
    RepoSummary {
        name,
        path,
        file_count: line_number(file_count),
        symbol_count: line_number(symbol_count),
        languages: read_languages(languages),
    }
}

// ---------------------------------------------------------------------------
// Search
// ---------------------------------------------------------------------------

/// The characters that the search engine takes for operators.
pub open spec fn is_operator(c: char) -> bool {
    c == '"' || c == '(' || c == ')' || c == '*' || c == ':' || c == '^' || c == '-'
}

/// A query without the characters that the search engine takes for operators.
pub open spec fn cleaned(s: Seq<char>) -> Seq<char> {
    s.map_values(
        |c: char|
            if is_operator(c) {
                ' '
            } else {
                c
            },
    )
}

/// The terms of a query: its words of at least two characters, each as a
/// prefix match.
pub open spec fn terms(ws: Seq<Seq<char>>) -> Seq<Seq<char>>
    decreases ws.len(),
{
    if ws.len() == 0 {
        Seq::empty()
    } else {
        let before = terms(ws.drop_last());
        if ws.last().len() >= 2 {
            before.push("\""@ + ws.last() + "\"*"@)
        } else {
            before
        }
    }
}

/// A query in the syntax of the search engine, or nothing when no word of it is
/// long enough.
pub open spec fn fts_query(input: Seq<char>) -> Option<Seq<char>> {
    let ts = terms(text::words(cleaned(input)));
    if ts.len() == 0 {
        None
    } else {
        Some(text::join(ts, " "@))
    }
}

fn clean(s: &str) -> (r: String)
    ensures
        r@ == cleaned(s@),
{
    let v = text::chars(s);
    let mut r: String = String::new();
    let mut i: usize = 0;
    assert(r@ =~= cleaned(v@.take(0)));
    while i < v.len()
        invariant
            i <= v.len(),
            r@ == cleaned(v@.take(i as int)),
        decreases v.len() - i,
    {
        let c: char = v[i];
        if c == '"' || c == '(' || c == ')' || c == '*' || c == ':' || c == '^' || c == '-' {
            r.push(' ');
        } else {
            r.push(c);
        }
        i = i + 1;
        assert(r@ =~= cleaned(v@.take(i as int)));
    }
    assert(v@.take(i as int) =~= s@);
    r
}

/// A query in the syntax of the search engine.
pub fn sanitize_fts_query(input: &str) -> (r: Option<String>)
    ensures
        text::opt_text(r) == fts_query(input@),
{
    let c = clean(input);
    let ws = text::words_of(&c);
    let ghost all = text::texts(ws@);
    let mut parts: Vec<String> = Vec::new();
    let mut i: usize = 0;
    assert(text::texts(parts@) =~= terms(all.take(0)));
    while i < ws.len()
        invariant
            i <= ws.len(),
            all == text::texts(ws@),
            text::texts(parts@) == terms(all.take(i as int)),
        decreases ws.len() - i,
    {
        assert(all.take(i + 1).drop_last() =~= all.take(i as int));
        assert(all.take(i + 1).last() == ws@[i as int]@);
        let w = text::chars(&ws[i]);
        if w.len() >= 2 {
            let mut t: String = "\"".to_owned();
            t.push_str(&ws[i]);
            t.push_str("\"*");
            proof {
                text::lemma_texts_push(parts@, t);
            }
            parts.push(t);
        }
        i = i + 1;
    }
    assert(all.take(i as int) =~= all);
    assert(text::texts(parts@).len() == parts@.len());
    if parts.len() == 0 {
        None
    } else {
        Some(text::join_with(&parts, " "))
    }
}

/// A text without the wildcards of a LIKE pattern.
pub open spec fn without_wildcards(s: Seq<char>) -> Seq<char> {
    s.filter(|c: char| c != '%' && c != '_')
}

/// The pattern of the second, plainer search; nothing when it would match
/// everything.
pub open spec fn fallback_pattern(trimmed: Seq<char>) -> Option<Seq<char>> {
    let body = without_wildcards(trimmed);
    if body.len() == 0 {
        None
    } else {
        Some("%"@ + body + "%"@)
    }
}

/// How many hits a budget of tokens has room for: one for every two hundred,
/// at most ten.
pub open spec fn hit_cap(max_tokens: u32) -> u32 {
    let n = max_tokens / 200;
    if n > 10 {
        10
    } else {
        n
    }
}

/// What is asked of the database.
#[derive(Debug)]
pub struct SearchPlan {
    /// The full-text query.
    pub query: String,
    /// The pattern for when the full-text query gives nothing.
    pub fallback: Option<String>,
    pub cap: u32,
}

fn drop_wildcards(s: &str) -> (r: String)
    ensures
        r@ == without_wildcards(s@),
{
    let v = text::chars(s);
    let ghost keep = |c: char| c != '%' && c != '_';
    let mut r: String = String::new();
    let mut i: usize = 0;
    reveal(Seq::filter);
    assert(r@ =~= v@.take(0).filter(keep));
    while i < v.len()
        invariant
            i <= v.len(),
            keep == (|c: char| c != '%' && c != '_'),
            r@ == v@.take(i as int).filter(keep),
        decreases v.len() - i,
    {
        reveal(Seq::filter);
        assert(v@.take(i + 1).drop_last() =~= v@.take(i as int));
        if v[i] != '%' && v[i] != '_' {
            r.push(v[i]);
        }
        i = i + 1;
    }
    assert(v@.take(i as int) =~= s@);
    r
}

/// The pattern of the second, plainer search.
pub fn like_fallback(trimmed: &str) -> (r: Option<String>)
    ensures
        text::opt_text(r) == fallback_pattern(trimmed@),
{
    let body = drop_wildcards(trimmed);
    if body.as_str().is_empty() {
        None
    } else {
        let mut s: String = "%".to_owned();
        s.push_str(&body);
        s.push_str("%");
        Some(s)
    }
}

/// What is to be asked of the database for a query; nothing when the query has
/// no word that is long enough.
pub fn plan_search(query: &str, max_tokens: u32) -> (r: Option<SearchPlan>)
    ensures
        match r {
            Some(p) => fts_query(text::trimmed(query@)) == Some(p.query@) && text::opt_text(
                p.fallback,
            ) == fallback_pattern(text::trimmed(query@)) && p.cap == hit_cap(max_tokens),
            None => text::trimmed(query@).len() == 0 || fts_query(text::trimmed(query@)) is None,
        },
{
    let trimmed = text::trim(query);
    if trimmed.as_str().is_empty() {
        return None;
    }
    match sanitize_fts_query(&trimmed) {
        Some(q) => {
            let n: u32 = max_tokens / 200;
            let cap: u32 = if n > 10 {
                10
            } else {
                n
            };
            Some(SearchPlan { query: q, fallback: like_fallback(&trimmed), cap })
        },
        None => None,
    }
}

/// Whether the hits of the full-text query are the answer: when it failed or
/// gave nothing, the plainer search decides.
pub fn settle_hits(hits: Option<Vec<SymbolHit>>) -> (r: Option<Vec<SymbolHit>>)
    ensures
        r == (match hits {
            Some(v) => if v@.len() > 0 {
                Some(v)
            } else {
                None
            },
            None => None,
        }),
{
    match hits {
        Some(v) => {
            if v.len() > 0 {
                Some(v)
            } else {
                None
            }
        },
        None => None,
    }
}

// ---------------------------------------------------------------------------
// Explanation
// ---------------------------------------------------------------------------

/// A row of the symbol table.
#[derive(Debug)]
pub struct SymbolRow {
    pub id: i64,
    pub name: String,
    pub kind: String,
    pub file: String,
    pub line: i64,
    pub signature: Option<String>,
    pub snippet: Option<String>,
}

/// A call that a symbol makes, with the symbols that the callee's name may
/// mean, at most two of them.
#[derive(Debug)]
pub struct CalleeRow {
    pub name: String,
    pub file: String,
    pub line: i64,
    pub matches: Vec<SymbolHit>,
}

/// The symbol to look up, or nothing when the request is blank.
pub fn symbol_to_explain(symbol: &str) -> (r: Option<String>)
    ensures
        text::opt_text(r) == (if text::trimmed(symbol@).len() == 0 {
            None
        } else {
            Some(text::trimmed(symbol@))
        }),
{
    let s = text::trim(symbol);
    if s.as_str().is_empty() {
        None
    } else {
        Some(s)
    }
}

/// The pattern by which a symbol is looked up when no symbol has that name.
pub fn partial_pattern(symbol: &str) -> (r: String)
    ensures
        r@ == "%"@ + symbol@ + "%"@,
{
    let mut s: String = "%".to_owned();
    s.push_str(symbol);
    s.push_str("%");
    s
}

/// The symbol that a callee stands for: the one that has its name, or, when
/// there is none or more than one, the place of the call.
pub open spec fn resolved(c: CalleeRow) -> code_graph::HitText {
    if c.matches@.len() == 1 {
        c.matches@[0]@
    } else {
        code_graph::HitText {
            name: c.name@,
            kind: "call"@,
            file: c.file@,
            line: shown_line(c.line),
            signature: None,
            snippet: None,
            repo: ""@,
        }
    }
}

fn copy_opt(s: &Option<String>) -> (r: Option<String>)
    ensures
        text::opt_text(r) == text::opt_text(*s),
{
    match s {
        Some(t) => Some(t.clone()),
        None => None,
    }
}

/// A hit that says the same.
pub fn copy_hit(h: &SymbolHit) -> (r: SymbolHit)
    ensures
        r@ == h@,
{
    SymbolHit {
        name: h.name.clone(),
        kind: h.kind.clone(),
        file: h.file.clone(),
        line: h.line,
        signature: copy_opt(&h.signature),
        snippet: copy_opt(&h.snippet),
        repo: h.repo.clone(),
    }
}

/// The symbol that a callee stands for.
pub fn resolve_callee(c: &CalleeRow) -> (r: SymbolHit)
    ensures
        r@ == resolved(*c),
{
    if c.matches.len() == 1 {
        copy_hit(&c.matches[0])
    } else {
        SymbolHit {
            name: c.name.clone(),
            kind: "call".to_owned(),
            file: c.file.clone(),
            line: line_number(c.line),
            signature: None,
            snippet: None,
            repo: "".to_owned(),
        }
    }
}

/// The row that a request is about: the symbol of that name, else the shortest
/// name that holds it.
pub open spec fn chosen(exact: Option<SymbolRow>, partial: Option<SymbolRow>) -> Option<SymbolRow> {
    match exact {
        Some(r) => Some(r),
        None => partial,
    }
}

pub open spec fn explained(
    row: SymbolRow,
    callers: Seq<code_graph::HitText>,
    callees: Seq<CalleeRow>,
) -> code_graph::ExplanationText {
    code_graph::ExplanationText {
        name: row.name@,
        kind: row.kind@,
        file: row.file@,
        line: shown_line(row.line),
        signature: text::opt_text(row.signature),
        callers,
        callees: callees.map_values(|c: CalleeRow| resolved(c)),
        snippet: text::opt_text(row.snippet),
    }
}

/// The explanation of a symbol, from what the database gave: the symbol of that
/// name, the shortest name that holds it, its callers and its calls.
pub fn explain_symbol(
    exact: Option<SymbolRow>,
    partial: Option<SymbolRow>,
    callers: Vec<SymbolHit>,
    callees: &Vec<CalleeRow>,
) -> (r: Option<SymbolExplanation>)
    ensures
        match r {
            Some(e) => chosen(exact, partial) is Some && e@ == explained(
                chosen(exact, partial)->0,
                code_graph::hit_texts(callers@),
                callees@,
            ),
            None => chosen(exact, partial) is None,
        },
{
    let row = match exact {
        Some(r) => r,
        None => match partial {
            Some(r) => r,
            None => {
                return None;
            },
        },
    };
    let mut resolved_callees: Vec<SymbolHit> = Vec::new();
    let mut i: usize = 0;
    while i < callees.len()
        invariant
            i <= callees.len(),
            resolved_callees.len() == i,
            forall|j: int| 0 <= j < i ==> (#[trigger] resolved_callees@[j])@ == resolved(callees@[j]),
        decreases callees.len() - i,
    {
        resolved_callees.push(resolve_callee(&callees[i]));
        i = i + 1;
    }
    assert(code_graph::hit_texts(resolved_callees@) =~= callees@.map_values(
        |c: CalleeRow| resolved(c),
    ));
    Some(
        SymbolExplanation {
            name: row.name,
            kind: row.kind,
            file: row.file,
            line: line_number(row.line),
            signature: row.signature,
            callers,
            callees: resolved_callees,
            snippet: row.snippet,
        },
    )
}

/// A text in which nothing can be taken for an operator.
pub open spec fn is_plain(s: Seq<char>) -> bool {
    forall|k: int| 0 <= k < s.len() ==> !is_operator(#[trigger] s[k])
}

/// Full-text queries are made of quoted words: nothing in a word can be taken
/// for an operator by the search engine.
pub proof fn law_query_has_no_operators(input: Seq<char>)
    ensures
        forall|i: int|
            0 <= i < text::words(cleaned(input)).len() ==> is_plain(
                #[trigger] text::words(cleaned(input))[i],
            ),
{
    lemma_scan_plain(cleaned(input));
}

proof fn lemma_scan_plain(s: Seq<char>)
    requires
        is_plain(s),
    ensures
        forall|i: int|
            0 <= i < text::word_scan(s).0.len() ==> is_plain(#[trigger] text::word_scan(s).0[i]),
        is_plain(text::word_scan(s).1),
    decreases s.len(),
{
    if s.len() > 0 {
        let init = s.drop_last();
        assert forall|k: int| 0 <= k < init.len() implies !is_operator(#[trigger] init[k]) by {
            assert(init[k] == s[k]);
        }
        lemma_scan_plain(init);
        let c = s.last();
        assert(!is_operator(s[s.len() - 1]));
        let (done, cur) = text::word_scan(init);
        assert(is_plain(cur.push(c)));
        assert forall|i: int| 0 <= i < done.push(cur).len() implies is_plain(
            #[trigger] done.push(cur)[i],
        ) by {
            if i < done.len() {
                assert(done.push(cur)[i] == done[i]);
            }
        }
    }
}

/// Each word of at least two characters is searched for as the start of a word;
/// all of them have to be found.
pub proof fn law_terms(ws: Seq<Seq<char>>, w: Seq<char>, input: Seq<char>, i: int)
    ensures
        terms(Seq::empty()).len() == 0,
        w.len() >= 2 ==> terms(ws.push(w)) == terms(ws).push("\""@ + w + "\"*"@),
        w.len() < 2 ==> terms(ws.push(w)) == terms(ws),
        fts_query(input) is None <==> terms(text::words(cleaned(input))).len() == 0,
        0 <= i < terms(text::words(cleaned(input))).len() ==> (fts_query(input) matches Some(q)
            && text::has(q, terms(text::words(cleaned(input)))[i])),
{
    assert(ws.push(w).drop_last() =~= ws);
    let v = terms(text::words(cleaned(input)));
    if 0 <= i < v.len() {
        text::lemma_joined_part(v, " "@, i);
    }
}

/// What is an operator is a blank, and everything else stays.
pub proof fn law_cleaned(s: Seq<char>, i: int)
    requires
        0 <= i < s.len(),
    ensures
        cleaned(s).len() == s.len(),
        !is_operator(s[i]) ==> cleaned(s)[i] == s[i],
        is_operator(s[i]) ==> cleaned(s)[i] == ' ',
        is_operator('"') && is_operator('(') && is_operator(')') && is_operator('*') && is_operator(
            ':',
        ) && is_operator('^') && is_operator('-'),
        !is_operator(' ') && !is_operator('_') && !is_operator('.') && !is_operator('a'),
{
}

/// A place whose name has the text is searched for without the wildcards that
/// the text holds.
pub proof fn law_fallback(s: Seq<char>)
    requires
        s.len() > 0,
        forall|i: int| 0 <= i < s.len() ==> (#[trigger] s[i]) != '%' && s[i] != '_',
    ensures
        fallback_pattern(s) == Some("%"@ + s + "%"@),
        fallback_pattern(s.push('%')) == fallback_pattern(s),
        fallback_pattern(s.push('_')) == fallback_pattern(s),
        fallback_pattern(Seq::empty()) is None,
        fallback_pattern(seq!['%']) is None,
{
    lemma_plain_stays(s);
    reveal(Seq::filter);
    assert(s.push('%').drop_last() =~= s);
    assert(s.push('_').drop_last() =~= s);
    let one = seq!['%'];
    assert(one.drop_last() =~= Seq::<char>::empty());
    assert(without_wildcards(Seq::empty()).len() == 0);
    assert(without_wildcards(one).len() == 0);
}

proof fn lemma_plain_stays(s: Seq<char>)
    requires
        forall|i: int| 0 <= i < s.len() ==> (#[trigger] s[i]) != '%' && s[i] != '_',
    ensures
        without_wildcards(s) == s,
    decreases s.len(),
{
    reveal(Seq::filter);
    if s.len() > 0 {
        let d = s.drop_last();
        assert(forall|i: int| 0 <= i < d.len() ==> d[i] == s[i]);
        lemma_plain_stays(d);
        assert(s[s.len() - 1] == s.last());
        assert(d.push(s.last()) =~= s);
    } else {
        assert(without_wildcards(s) =~= s);
    }
}

/// As many places are given as fit, but at most ten; a line below the first is
/// the first.
pub proof fn law_limits(n: u32, line: i64)
    ensures
        hit_cap(n) <= 10,
        n < 200 ==> hit_cap(n) == 0,
        200 <= n < 2000 ==> 200 * hit_cap(n) <= n < 200 * (hit_cap(n) + 1),
        n >= 2000 ==> hit_cap(n) == 10,
        0 <= line <= u32::MAX ==> shown_line(line) == line,
        line < 0 ==> shown_line(line) == 0,
{
}

/// A call leads to the one place with its name; where there is none, or more
/// than one, it stays a call at its own place.
pub proof fn law_callees(c: CalleeRow)
    ensures
        c.matches@.len() == 1 ==> resolved(c) == c.matches@[0]@,
        c.matches@.len() != 1 ==> resolved(c).name == c.name@ && resolved(c).file == c.file@
            && resolved(c).kind == "call"@ && resolved(c).signature is None && (0 <= c.line
            <= u32::MAX ==> resolved(c).line == c.line),
{
}

/// The place with the very name is explained before one with a part of it, with
/// what is known of it, who calls it, and what it calls.
pub proof fn law_explanations(
    exact: Option<SymbolRow>,
    partial: Option<SymbolRow>,
    row: SymbolRow,
    callers: Seq<code_graph::HitText>,
    callees: Seq<CalleeRow>,
    i: int,
)
    ensures
        exact matches Some(r) ==> chosen(exact, partial) == Some(r),
        exact is None ==> chosen(exact, partial) == partial,
        explained(row, callers, callees).name == row.name@,
        explained(row, callers, callees).kind == row.kind@,
        explained(row, callers, callees).file == row.file@,
        explained(row, callers, callees).callers == callers,
        explained(row, callers, callees).callees.len() == callees.len(),
        0 <= i < callees.len() ==> explained(row, callers, callees).callees[i] == resolved(
            callees[i],
        ),
        explained(row, callers, callees).signature is Some <==> row.signature is Some,
        explained(row, callers, callees).snippet is Some <==> row.snippet is Some,
{
}

/// Languages are read where all of them are texts.
pub proof fn law_languages(v: Seq<json::JsonText>, i: int, j: json::JsonText)
    ensures
        all_texts(v) && 0 <= i < v.len() ==> languages_in(json::JsonText::List(v)).contains(
            v[i]->Text_0,
        ),
        0 <= i < v.len() && !(v[i] is Text) ==> languages_in(json::JsonText::List(v)).len() == 0,
        !(j is List) ==> languages_in(j).len() == 0,
{
    if all_texts(v) && 0 <= i < v.len() {
        assert(v[i] is Text);
        json::lemma_string_in(v, i);
    }
}

/// Nothing is searched for without words; an empty list of places is none.
pub proof fn law_searches(
    query: &str,
    n: u32,
    r: Option<SearchPlan>,
    hits: Option<Vec<SymbolHit>>,
    s: Option<Vec<SymbolHit>>,
)
    requires
        call_ensures(plan_search, (query, n), r),
        call_ensures(settle_hits, (hits,), s),
    ensures
        terms(text::words(cleaned(text::trimmed(query@)))).len() > 0 && text::trimmed(query@).len()
            > 0 ==> r is Some,
        r matches Some(p) ==> fts_query(text::trimmed(query@)) == Some(p.query@) && p.cap <= 10,
        hits matches Some(v) ==> (v@.len() > 0 ==> s == hits) && (v@.len() == 0 ==> s is None),
        hits is None ==> s is None,
{
}

} // verus!
