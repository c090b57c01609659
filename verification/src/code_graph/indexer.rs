//! Which symbols a source text declares and which calls they make.

use vstd::prelude::*;

use crate::code_graph::language::Lang;
use crate::code_graph::RepoSummary;
use crate::outside::SyntaxNode;
use crate::outside;
use crate::text;

verus! {

// ---------------------------------------------------------------------------
// What is found
// ---------------------------------------------------------------------------

/// A declaration.
#[derive(Debug)]
pub struct Symbol {
    pub name: String,
    pub kind: String,
    pub line: u32,
    pub signature: Option<String>,
    /// The symbol that encloses this one.
    pub parent: Option<String>,
    pub snippet: Option<String>,
}

/// A call, with the position of the symbol that makes it.
#[derive(Debug)]
pub struct CallSite {
    pub caller: usize,
    pub callee: String,
    pub line: u32,
}

/// What a source text holds.
#[derive(Debug)]
pub struct FileIndex {
    pub symbols: Vec<Symbol>,
    pub calls: Vec<CallSite>,
}

pub ghost struct SymbolText {
    pub name: Seq<char>,
    pub kind: Seq<char>,
    pub line: u32,
    pub signature: Option<Seq<char>>,
    pub parent: Option<Seq<char>>,
    pub snippet: Option<Seq<char>>,
}

pub ghost struct CallSiteText {
    pub caller: int,
    pub callee: Seq<char>,
    pub line: u32,
}

impl View for Symbol {
    type V = SymbolText;

    open spec fn view(&self) -> SymbolText {
        SymbolText {
            name: self.name@,
            kind: self.kind@,
            line: self.line,
            signature: text::opt_text(self.signature),
            parent: text::opt_text(self.parent),
            snippet: text::opt_text(self.snippet),
        }
    }
}

impl View for CallSite {
    type V = CallSiteText;

    open spec fn view(&self) -> CallSiteText {
        CallSiteText { caller: self.caller as int, callee: self.callee@, line: self.line }
    }
}

pub open spec fn symbol_texts(v: Seq<Symbol>) -> Seq<SymbolText> {
    v.map_values(|s: Symbol| s@)
}

pub open spec fn call_site_texts(v: Seq<CallSite>) -> Seq<CallSiteText> {
    v.map_values(|c: CallSite| c@)
}

// ---------------------------------------------------------------------------
// Finding one's way in the tree
// ---------------------------------------------------------------------------

/// The first child of node `p`, from node `i` on, that fills a field.
pub open spec fn field_child(
    nodes: Seq<outside::NodeText>,
    p: int,
    field: Seq<char>,
    i: int,
) -> Option<int>
    decreases nodes.len() - i,
{
    if i < 0 || i >= nodes.len() || nodes[i].depth <= nodes[p].depth {
        None
    } else if nodes[i].depth == nodes[p].depth + 1 && nodes[i].field == Some(field) {
        Some(i)
    } else {
        field_child(nodes, p, field, i + 1)
    }
}

/// The first named child of node `p`, from node `i` on.
pub open spec fn named_child(nodes: Seq<outside::NodeText>, p: int, i: int) -> Option<int>
    decreases nodes.len() - i,
{
    if i < 0 || i >= nodes.len() || nodes[i].depth <= nodes[p].depth {
        None
    } else if nodes[i].depth == nodes[p].depth + 1 && nodes[i].named {
        Some(i)
    } else {
        named_child(nodes, p, i + 1)
    }
}

/// The kinds of node that name a member.
pub open spec fn is_member_name(kind: Seq<char>) -> bool {
    kind == "identifier"@ || kind == "field_identifier"@ || kind == "property_identifier"@ || kind
        == "type_identifier"@
}

/// The last child of node `p` that names a member, among those from node `i`
/// on; `best` when there is none.
pub open spec fn last_member(
    nodes: Seq<outside::NodeText>,
    p: int,
    i: int,
    best: Option<int>,
) -> Option<int>
    decreases nodes.len() - i,
{
    if i < 0 || i >= nodes.len() || nodes[i].depth <= nodes[p].depth {
        best
    } else if nodes[i].depth == nodes[p].depth + 1 && is_member_name(nodes[i].kind) {
        last_member(nodes, p, i + 1, Some(i))
    } else {
        last_member(nodes, p, i + 1, best)
    }
}

/// The source text of node `i`.
pub open spec fn node_source(
    nodes: Seq<outside::NodeText>,
    source: Seq<char>,
    i: int,
) -> Option<Seq<char>> {
    text::byte_slice(source, nodes[i].start as int, nodes[i].end as int)
}

fn find_field(nodes: &Vec<SyntaxNode>, p: usize, field: &str) -> (r: Option<usize>)
    requires
        p < nodes.len(),
    ensures
        match r {
            Some(i) => field_child(outside::node_texts(nodes@), p as int, field@, p + 1) == Some(
                i as int,
            ) && i < nodes.len(),
            None => field_child(outside::node_texts(nodes@), p as int, field@, p + 1) is None,
        },
{
    let ghost all = outside::node_texts(nodes@);
    let top: u32 = nodes[p].depth;
    let mut i: usize = p + 1;
    while i < nodes.len() && nodes[i].depth > top
        invariant
            p < i <= nodes.len(),
            all == outside::node_texts(nodes@),
            top == nodes@[p as int].depth,
            field_child(all, p as int, field@, p + 1) == field_child(
                all,
                p as int,
                field@,
                i as int,
            ),
        decreases nodes.len() - i,
    {
        assert(all[i as int] == nodes@[i as int]@);
        assert(all[p as int] == nodes@[p as int]@);
        if nodes[i].depth - top == 1 {
            match &nodes[i].field {
                Some(f) => {
                    if text::same(f, field) {
                        return Some(i);
                    }
                },
                None => {},
            }
        }
        i = i + 1;
    }
    proof {
        assert(all[p as int] == nodes@[p as int]@);
        if i < nodes.len() {
            assert(all[i as int] == nodes@[i as int]@);
        }
    }
    None
}

fn find_named(nodes: &Vec<SyntaxNode>, p: usize) -> (r: Option<usize>)
    requires
        p < nodes.len(),
    ensures
        match r {
            Some(i) => named_child(outside::node_texts(nodes@), p as int, p + 1) == Some(i as int)
                && i < nodes.len(),
            None => named_child(outside::node_texts(nodes@), p as int, p + 1) is None,
        },
{
    let ghost all = outside::node_texts(nodes@);
    let top: u32 = nodes[p].depth;
    let mut i: usize = p + 1;
    while i < nodes.len() && nodes[i].depth > top
        invariant
            p < i <= nodes.len(),
            all == outside::node_texts(nodes@),
            top == nodes@[p as int].depth,
            named_child(all, p as int, p + 1) == named_child(all, p as int, i as int),
        decreases nodes.len() - i,
    {
        assert(all[i as int] == nodes@[i as int]@);
        assert(all[p as int] == nodes@[p as int]@);
        if nodes[i].depth - top == 1 && nodes[i].named {
            return Some(i);
        }
        i = i + 1;
    }
    proof {
        assert(all[p as int] == nodes@[p as int]@);
        if i < nodes.len() {
            assert(all[i as int] == nodes@[i as int]@);
        }
    }
    None
}

fn names_member(kind: &str) -> (r: bool)
    ensures
        r == is_member_name(kind@),
{
    text::same(kind, "identifier") || text::same(kind, "field_identifier") || text::same(
        kind,
        "property_identifier",
    ) || text::same(kind, "type_identifier")
}

fn find_member(nodes: &Vec<SyntaxNode>, p: usize) -> (r: Option<usize>)
    requires
        p < nodes.len(),
    ensures
        match r {
            Some(i) => last_member(outside::node_texts(nodes@), p as int, p + 1, None) == Some(
                i as int,
            ) && i < nodes.len(),
            None => last_member(outside::node_texts(nodes@), p as int, p + 1, None) is None,
        },
{
    let ghost all = outside::node_texts(nodes@);
    let top: u32 = nodes[p].depth;
    let mut best: Option<usize> = None;
    let mut i: usize = p + 1;
    while i < nodes.len() && nodes[i].depth > top
        invariant
            p < i <= nodes.len(),
            all == outside::node_texts(nodes@),
            top == nodes@[p as int].depth,
            best matches Some(b) ==> b < nodes.len(),
            last_member(all, p as int, p + 1, None) == last_member(
                all,
                p as int,
                i as int,
                match best {
                    Some(b) => Some(b as int),
                    None => None,
                },
            ),
        decreases nodes.len() - i,
    {
        assert(all[i as int] == nodes@[i as int]@);
        assert(all[p as int] == nodes@[p as int]@);
        if nodes[i].depth - top == 1 && names_member(&nodes[i].kind) {
            best = Some(i);
        }
        i = i + 1;
    }
    proof {
        assert(all[p as int] == nodes@[p as int]@);
        if i < nodes.len() {
            assert(all[i as int] == nodes@[i as int]@);
        }
    }
    best
}

fn slice_text(source: &str, node: &SyntaxNode) -> (r: Option<String>)
    ensures
        text::opt_text(r) == text::byte_slice(source@, node@.start as int, node@.end as int),
{
    text::slice_bytes(source, node.start, node.end)
}

// ---------------------------------------------------------------------------
// Names
// ---------------------------------------------------------------------------

/// The name of the declaration at node `i`.
pub open spec fn name_of(
    nodes: Seq<outside::NodeText>,
    source: Seq<char>,
    lang: Lang,
    i: int,
) -> Option<Seq<char>> {
    match field_child(nodes, i, "name"@, i + 1) {
        Some(c) => node_source(nodes, source, c),
        None => if lang == Lang::Rust && nodes[i].kind == "impl_item"@ {
            match field_child(nodes, i, "type"@, i + 1) {
                Some(c) => match node_source(nodes, source, c) {
                    Some(s) => Some("impl "@ + s),
                    None => None,
                },
                None => None,
            }
        } else if nodes[i].kind == "variable_declarator"@ {
            match named_child(nodes, i, i + 1) {
                Some(c) => node_source(nodes, source, c),
                None => None,
            }
        } else {
            None
        },
    }
}

/// The kinds of node that are functions without a name of their own.
pub open spec fn is_function_value(kind: Seq<char>) -> bool {
    kind == "arrow_function"@ || kind == "function"@ || kind == "function_expression"@ || kind
        == "generator_function"@
}

/// A variable that is set to a function.
pub open spec fn holds_function(nodes: Seq<outside::NodeText>, i: int) -> bool {
    match field_child(nodes, i, "value"@, i + 1) {
        Some(c) => is_function_value(nodes[c].kind),
        None => false,
    }
}

/// The part of the call at node `i` that says what is called.
pub open spec fn call_target(nodes: Seq<outside::NodeText>, i: int) -> Option<int> {
    match field_child(nodes, i, "function"@, i + 1) {
        Some(c) => Some(c),
        None => match field_child(nodes, i, "name"@, i + 1) {
            Some(c) => Some(c),
            None => named_child(nodes, i, i + 1),
        },
    }
}

/// The kinds of node that reach for a member.
pub open spec fn is_member_access(kind: Seq<char>) -> bool {
    kind == "member_expression"@ || kind == "selector_expression"@ || kind == "field_expression"@
        || kind == "scoped_type_identifier"@
}

/// What the call at node `i` calls: of a member, its last name alone.
pub open spec fn callee_of(
    nodes: Seq<outside::NodeText>,
    source: Seq<char>,
    i: int,
) -> Option<Seq<char>> {
    match call_target(nodes, i) {
        Some(t) => if is_member_access(nodes[t].kind) {
            match last_member(nodes, t, t + 1, None) {
                Some(m) => node_source(nodes, source, m),
                None => None,
            }
        } else {
            node_source(nodes, source, t)
        },
        None => None,
    }
}

fn node_name(nodes: &Vec<SyntaxNode>, source: &str, lang: Lang, i: usize) -> (r: Option<String>)
    requires
        i < nodes.len(),
    ensures
        text::opt_text(r) == name_of(outside::node_texts(nodes@), source@, lang, i as int),
{
    let ghost all = outside::node_texts(nodes@);
    assert(all[i as int] == nodes@[i as int]@);
    match find_field(nodes, i, "name") {
        Some(c) => {
            assert(all[c as int] == nodes@[c as int]@);
            return slice_text(source, &nodes[c]);
        },
        None => {},
    }
    if lang == Lang::Rust && text::same(&nodes[i].kind, "impl_item") {
        match find_field(nodes, i, "type") {
            Some(c) => {
                assert(all[c as int] == nodes@[c as int]@);
                match slice_text(source, &nodes[c]) {
                    Some(s) => {
                        let mut n: String = "impl ".to_owned();
                        n.push_str(&s);
                        Some(n)
                    },
                    None => None,
                }
            },
            None => None,
        }
    } else if text::same(&nodes[i].kind, "variable_declarator") {
        match find_named(nodes, i) {
            Some(c) => {
                assert(all[c as int] == nodes@[c as int]@);
                slice_text(source, &nodes[c])
            },
            None => None,
        }
    } else {
        None
    }
}

fn variable_init_is_function(nodes: &Vec<SyntaxNode>, i: usize) -> (r: bool)
    requires
        i < nodes.len(),
    ensures
        r == holds_function(outside::node_texts(nodes@), i as int),
{
    match find_field(nodes, i, "value") {
        Some(c) => {
            assert(outside::node_texts(nodes@)[c as int] == nodes@[c as int]@);
            let k = &nodes[c].kind;
            text::same(k, "arrow_function") || text::same(k, "function") || text::same(
                k,
                "function_expression",
            ) || text::same(k, "generator_function")
        },
        None => false,
    }
}

fn call_target_name(nodes: &Vec<SyntaxNode>, source: &str, i: usize) -> (r: Option<String>)
    requires
        i < nodes.len(),
    ensures
        text::opt_text(r) == callee_of(outside::node_texts(nodes@), source@, i as int),
{
    let ghost all = outside::node_texts(nodes@);
    let target: Option<usize> = match find_field(nodes, i, "function") {
        Some(c) => Some(c),
        None => match find_field(nodes, i, "name") {
            Some(c) => Some(c),
            None => find_named(nodes, i),
        },
    };
    match target {
        Some(t) => {
            assert(all[t as int] == nodes@[t as int]@);
            let k = &nodes[t].kind;
            if text::same(k, "member_expression") || text::same(k, "selector_expression")
                || text::same(k, "field_expression") || text::same(k, "scoped_type_identifier") {
                match find_member(nodes, t) {
                    Some(m) => {
                        assert(all[m as int] == nodes@[m as int]@);
                        slice_text(source, &nodes[m])
                    },
                    None => None,
                }
            } else {
                slice_text(source, &nodes[t])
            }
        },
        None => None,
    }
}

// ---------------------------------------------------------------------------
// Signatures and snippets
// ---------------------------------------------------------------------------

/// The first line of a declaration, without white space around it and held to
/// two hundred characters.
pub open spec fn signature_of(source: Seq<char>, start: int, end: int) -> Option<Seq<char>> {
    let stop = if end <= text::utf8_len(source) {
        end
    } else {
        text::utf8_len(source) as int
    };
    if start >= stop {
        None
    } else {
        match text::byte_slice(source, start, stop) {
            Some(chunk) => {
                let ls = text::lines(chunk);
                if ls.len() == 0 || text::trimmed(ls[0]).len() == 0 {
                    None
                } else {
                    let line = text::trimmed(ls[0]);
                    Some(
                        if line.len() > 200 {
                            text::head(line, 200) + "…"@
                        } else {
                            line
                        },
                    )
                }
            },
            None => None,
        }
    }
}

fn first_line_signature(source: &str, node: &SyntaxNode) -> (r: Option<String>)
    ensures
        text::opt_text(r) == signature_of(source@, node@.start as int, node@.end as int),
{
    let size = text::byte_len(source);
    let stop: usize = if node.end <= size {
        node.end
    } else {
        size
    };
    if node.start >= stop {
        return None;
    }
    match text::slice_bytes(source, node.start, stop) {
        Some(chunk) => {
            let ls = text::lines_of(&chunk);
            assert(text::texts(ls@).len() == ls@.len());
            if ls.len() == 0 {
                return None;
            }
            assert(text::texts(ls@)[0] == ls@[0]@);
            let line = text::trim(&ls[0]);
            if line.as_str().is_empty() {
                return None;
            }
            if text::chars(&line).len() > 200 {
                let mut s = text::take_chars(&line, 200);
                s.push_str("…");
                Some(s)
            } else {
                Some(line)
            }
        },
        None => None,
    }
}

/// The lines around the one with the number `line`, counted from one: the line
/// before, the line itself and the line after.
pub open spec fn snippet_of(lines: Seq<Seq<char>>, line: int) -> Option<Seq<char>> {
    let idx = if line > 0 {
        line - 1
    } else {
        0
    };
    let start = if idx > 0 {
        idx - 1
    } else {
        0
    };
    let end = if idx + 2 <= lines.len() {
        idx + 2
    } else {
        lines.len() as int
    };
    if start >= end {
        None
    } else {
        Some(text::join(lines.subrange(start, end), "\n"@))
    }
}

pub fn snippet_around(lines: &Vec<String>, line_1based: usize) -> (r: Option<String>)
    ensures
        text::opt_text(r) == snippet_of(text::texts(lines@), line_1based as int),
{
    let idx: usize = if line_1based > 0 {
        line_1based - 1
    } else {
        0
    };
    let start: usize = if idx > 0 {
        idx - 1
    } else {
        0
    };
    let total: usize = lines.len();
    let end: usize = if idx < total && total - idx >= 2 {
        idx + 2
    } else {
        total
    };
    assert(text::texts(lines@).len() == total);
    if start >= end {
        return None;
    }
    let mut part: Vec<String> = Vec::new();
    let mut i: usize = start;
    while i < end
        invariant
            start <= i <= end <= lines.len(),
            text::texts(part@) == text::texts(lines@).subrange(start as int, i as int),
        decreases end - i,
    {
        let s = lines[i].clone();
        proof {
            text::lemma_texts_push(part@, s);
            assert(text::texts(lines@).subrange(start as int, i + 1) =~= text::texts(
                lines@,
            ).subrange(start as int, i as int).push(s@));
        }
        part.push(s);
        i = i + 1;
    }
    Some(text::join_with(&part, "\n"))
}

// ---------------------------------------------------------------------------
// The scan
// ---------------------------------------------------------------------------

/// A symbol that encloses the nodes that follow: its depth, its position among
/// the symbols, and its name.
#[derive(Debug)]
pub struct Enclosing {
    pub depth: u32,
    pub symbol: usize,
    pub name: String,
}

pub ghost struct EnclosingText {
    pub depth: nat,
    pub symbol: int,
    pub name: Seq<char>,
}

impl View for Enclosing {
    type V = EnclosingText;

    open spec fn view(&self) -> EnclosingText {
        EnclosingText {
            depth: self.depth as nat,
            symbol: self.symbol as int,
            name: self.name@,
        }
    }
}

pub open spec fn enclosing_texts(v: Seq<Enclosing>) -> Seq<EnclosingText> {
    v.map_values(|e: Enclosing| e@)
}

/// What was found so far, and the symbols that are still open.
pub ghost struct ScanText {
    pub symbols: Seq<SymbolText>,
    pub calls: Seq<CallSiteText>,
    pub open: Seq<EnclosingText>,
}

/// The symbols that enclose a node at a depth.
pub open spec fn still_open(open: Seq<EnclosingText>, depth: nat) -> Seq<EnclosingText>
    decreases open.len(),
{
    if open.len() > 0 && open.last().depth >= depth {
        still_open(open.drop_last(), depth)
    } else {
        open
    }
}

/// The kind of symbol that a kind of node declares.
pub open spec fn declared(decls: Seq<(Seq<char>, Seq<char>)>, kind: Seq<char>) -> Option<Seq<char>>
    decreases decls.len(),
{
    if decls.len() == 0 {
        None
    } else if decls[0].0 == kind {
        Some(decls[0].1)
    } else {
        declared(decls.drop_first(), kind)
    }
}

/// The kind and the name of the symbol that node `i` declares.
pub open spec fn symbol_at(
    nodes: Seq<outside::NodeText>,
    source: Seq<char>,
    lang: Lang,
    i: int,
) -> Option<(Seq<char>, Seq<char>)> {
    match declared(lang.declarations(), nodes[i].kind) {
        Some(kind) => if nodes[i].kind == "variable_declarator"@ && !holds_function(nodes, i) {
            None
        } else {
            match name_of(nodes, source, lang, i) {
                Some(name) => Some((kind, name)),
                None => None,
            }
        },
        None => None,
    }
}

/// The line of a row, counted from one.
pub open spec fn line_of_row(row: nat) -> u32 {
    if row < u32::MAX {
        (row + 1) as u32
    } else {
        u32::MAX
    }
}

/// The scan after node `i`.
pub open spec fn scan_step(
    nodes: Seq<outside::NodeText>,
    source: Seq<char>,
    lang: Lang,
    i: int,
    s: ScanText,
) -> ScanText {
    let open = still_open(s.open, nodes[i].depth);
    let line = line_of_row(nodes[i].row);
    match symbol_at(nodes, source, lang, i) {
        Some(found) => ScanText {
            symbols: s.symbols.push(
                SymbolText {
                    name: found.1,
                    kind: found.0,
                    line,
                    signature: signature_of(source, nodes[i].start as int, nodes[i].end as int),
                    parent: if open.len() > 0 {
                        Some(open.last().name)
                    } else {
                        None
                    },
                    snippet: snippet_of(text::lines(source), line as int),
                },
            ),
            calls: s.calls,
            open: open.push(
                EnclosingText {
                    depth: nodes[i].depth,
                    symbol: s.symbols.len() as int,
                    name: found.1,
                },
            ),
        },
        None => {
            let calls = if open.len() > 0 && lang.invocations().contains(nodes[i].kind) {
                match callee_of(nodes, source, i) {
                    Some(callee) => s.calls.push(
                        CallSiteText { caller: open.last().symbol, callee, line },
                    ),
                    None => s.calls,
                }
            } else {
                s.calls
            };
            ScanText { symbols: s.symbols, calls, open }
        },
    }
}

/// The scan of the first `n` nodes.
pub open spec fn scanned(
    nodes: Seq<outside::NodeText>,
    source: Seq<char>,
    lang: Lang,
    n: int,
) -> ScanText
    decreases n,
{
    if n <= 0 {
        ScanText { symbols: Seq::empty(), calls: Seq::empty(), open: Seq::empty() }
    } else {
        scan_step(nodes, source, lang, n - 1, scanned(nodes, source, lang, n - 1))
    }
}

fn declared_kind(kinds: &Vec<(&'static str, &'static str)>, kind: &str) -> (r: Option<String>)
    ensures
        text::opt_text(r) == declared(crate::code_graph::language::kind_texts(kinds@), kind@),
{
    let ghost all = crate::code_graph::language::kind_texts(kinds@);
    let mut i: usize = 0;
    assert(all.skip(0) =~= all);
    while i < kinds.len()
        invariant
            i <= kinds.len(),
            all == crate::code_graph::language::kind_texts(kinds@),
            declared(all, kind@) == declared(all.skip(i as int), kind@),
        decreases kinds.len() - i,
    {
        assert(all.skip(i as int)[0] == (kinds@[i as int].0@, kinds@[i as int].1@));
        assert(all.skip(i as int).drop_first() =~= all.skip(i + 1));
        if text::same(kinds[i].0, kind) {
            return Some(kinds[i].1.to_owned());
        }
        i = i + 1;
    }
    None
}

fn is_call_kind(kinds: &Vec<&'static str>, kind: &str) -> (r: bool)
    ensures
        r == crate::code_graph::language::str_texts(kinds@).contains(kind@),
{
    let ghost all = crate::code_graph::language::str_texts(kinds@);
    let mut i: usize = 0;
    while i < kinds.len()
        invariant
            i <= kinds.len(),
            all == crate::code_graph::language::str_texts(kinds@),
            forall|j: int| 0 <= j < i ==> all[j] != kind@,
        decreases kinds.len() - i,
    {
        if text::same(kinds[i], kind) {
            assert(all[i as int] == kind@);
            return true;
        }
        i = i + 1;
    }
    false
}

fn close_to(open: &mut Vec<Enclosing>, depth: u32)
    ensures
        enclosing_texts(final(open)@) == still_open(enclosing_texts(old(open)@), depth as nat),
{
    let ghost start = enclosing_texts(open@);
    while open.len() > 0 && open[open.len() - 1].depth >= depth
        invariant
            still_open(enclosing_texts(open@), depth as nat) == still_open(start, depth as nat),
        decreases open.len(),
    {
        let ghost before = enclosing_texts(open@);
        assert(before.last() == open@[open@.len() - 1]@);
        let _ = open.pop();
        assert(enclosing_texts(open@) =~= before.drop_last());
    }
    proof {
        let now = enclosing_texts(open@);
        if now.len() > 0 {
            assert(now.last() == open@[open@.len() - 1]@);
        }
    }
}

/// The symbols and calls of a syntax tree, given as the list of its nodes in
/// order.
pub fn extract(nodes: &Vec<SyntaxNode>, source: &str, lang: Lang) -> (r: FileIndex)
    ensures
        ({
            let s = scanned(outside::node_texts(nodes@), source@, lang, nodes@.len() as int);
            &&& symbol_texts(r.symbols@) == s.symbols
            &&& call_site_texts(r.calls@) == s.calls
        }),
{
    let ghost all = outside::node_texts(nodes@);
    let lines = text::lines_of(source);
    let kinds = lang.symbol_kinds();
    let calls_of = lang.call_kinds();
    let mut symbols: Vec<Symbol> = Vec::new();
    let mut calls: Vec<CallSite> = Vec::new();
    let mut open: Vec<Enclosing> = Vec::new();
    let mut i: usize = 0;
    assert(symbol_texts(symbols@) =~= Seq::<SymbolText>::empty());
    assert(call_site_texts(calls@) =~= Seq::<CallSiteText>::empty());
    assert(enclosing_texts(open@) =~= Seq::<EnclosingText>::empty());
    while i < nodes.len()
        invariant
            i <= nodes.len(),
            all == outside::node_texts(nodes@),
            text::texts(lines@) == text::lines(source@),
            crate::code_graph::language::kind_texts(kinds@) == lang.declarations(),
            crate::code_graph::language::str_texts(calls_of@) == lang.invocations(),
            symbol_texts(symbols@) == scanned(all, source@, lang, i as int).symbols,
            call_site_texts(calls@) == scanned(all, source@, lang, i as int).calls,
            enclosing_texts(open@) == scanned(all, source@, lang, i as int).open,
        decreases nodes.len() - i,
    {
        let ghost before = scanned(all, source@, lang, i as int);
        let node = &nodes[i];
        assert(all[i as int] == node@);
        close_to(&mut open, node.depth);
        let ghost now = enclosing_texts(open@);
        assert(now == still_open(before.open, node@.depth));
        assert(now.len() == open@.len());
        let line: u32 = if node.row < u32::MAX as usize {
            (node.row + 1) as u32
        } else {
            u32::MAX
        };
        let mut found: Option<(String, String)> = None;
        match declared_kind(&kinds, &node.kind) {
            Some(kind) => {
                if !text::same(&node.kind, "variable_declarator") || variable_init_is_function(
                    nodes,
                    i,
                ) {
                    match node_name(nodes, source, lang, i) {
                        Some(name) => {
                            found = Some((kind, name));
                        },
                        None => {},
                    }
                }
            },
            None => {},
        }
        match found {
            Some((kind, name)) => {
                let parent: Option<String> = if open.len() > 0 {
                    assert(now.last() == open@[open@.len() - 1]@);
                    Some(open[open.len() - 1].name.clone())
                } else {
                    None
                };
                let e = Enclosing { depth: node.depth, symbol: symbols.len(), name: name.clone() };
                let s = Symbol {
                    name,
                    kind,
                    line,
                    signature: first_line_signature(source, node),
                    parent,
                    snippet: snippet_around(&lines, line as usize),
                };
                let ghost olds = symbols@;
                let ghost oldo = open@;
                open.push(e);
                symbols.push(s);
                proof {
                    assert(symbol_texts(olds).len() == olds.len());
                    assert(symbol_texts(symbols@) =~= symbol_texts(olds).push(s@));
                    assert(enclosing_texts(open@) =~= enclosing_texts(oldo).push(e@));
                }
            },
            None => {
                if open.len() > 0 && is_call_kind(&calls_of, &node.kind) {
                    match call_target_name(nodes, source, i) {
                        Some(callee) => {
                            assert(now.last() == open@[open@.len() - 1]@);
                            let c = CallSite {
                                caller: open[open.len() - 1].symbol,
                                callee,
                                line,
                            };
                            let ghost oldc = calls@;
                            calls.push(c);
                            assert(call_site_texts(calls@) =~= call_site_texts(oldc).push(c@));
                        },
                        None => {},
                    }
                }
            },
        }
        i = i + 1;
    }
    FileIndex { symbols, calls }
}

/// The symbols and calls of a source text; nothing when the parser gives no
/// tree for it.
pub fn index_file(lang: Lang, source: &str) -> (r: Option<FileIndex>)
    requires
        text::utf8_len(source@) <= 0xffff_ffff,
    ensures
        match r {
            Some(f) => outside::syntax_of(lang.grammar_index(), source@) matches Some(nodes) && ({
                let s = scanned(nodes, source@, lang, nodes.len() as int);
                &&& symbol_texts(f.symbols@) == s.symbols
                &&& call_site_texts(f.calls@) == s.calls
            }),
            None => outside::syntax_of(lang.grammar_index(), source@) is None,
        },
{
    match outside::parse_source(lang.grammar(), source) {
        Some(nodes) => {
            assert(outside::node_texts(nodes@).len() == nodes@.len());
            Some(extract(&nodes, source, lang))
        },
        None => None,
    }
}

/// Every call is made by a symbol that was found, and by one that was found
/// before the call.
pub proof fn law_callers_exist(
    nodes: Seq<outside::NodeText>,
    source: Seq<char>,
    lang: Lang,
    n: int,
)
    ensures
        ({
            let s = scanned(nodes, source, lang, n);
            &&& forall|i: int|
                0 <= i < s.calls.len() ==> 0 <= (#[trigger] s.calls[i]).caller < s.symbols.len()
            &&& forall|i: int|
                0 <= i < s.open.len() ==> 0 <= (#[trigger] s.open[i]).symbol < s.symbols.len()
        }),
    decreases n,
{
    if n > 0 {
        law_callers_exist(nodes, source, lang, n - 1);
        let before = scanned(nodes, source, lang, n - 1);
        lemma_still_open(before.open, nodes[n - 1].depth);
    }
}

proof fn lemma_still_open(open: Seq<EnclosingText>, depth: nat)
    ensures
        still_open(open, depth).len() <= open.len(),
        forall|i: int|
            0 <= i < still_open(open, depth).len() ==> #[trigger] still_open(open, depth)[i]
                == open[i],
        still_open(open, depth).len() > 0 ==> still_open(open, depth).last().depth < depth,
    decreases open.len(),
{
    if open.len() > 0 && open.last().depth >= depth {
        lemma_still_open(open.drop_last(), depth);
    }
}

// ---------------------------------------------------------------------------
// A whole repository
// ---------------------------------------------------------------------------

/// What happened while a repository was indexed.
#[derive(Debug, Clone, Copy, PartialEq, Eq, Structural)]
pub struct IndexStats {
    pub files_walked: usize,
    pub files_indexed: usize,
    pub symbols_inserted: usize,
    pub calls_inserted: usize,
    pub files_skipped_too_large: usize,
    pub parse_errors: usize,
}

impl Default for IndexStats {
    fn default() -> (r: IndexStats)
        ensures
            r == (IndexStats {
                files_walked: 0,
                files_indexed: 0,
                symbols_inserted: 0,
                calls_inserted: 0,
                files_skipped_too_large: 0,
                parse_errors: 0,
            }),
    {
        IndexStats {
            files_walked: 0,
            files_indexed: 0,
            symbols_inserted: 0,
            calls_inserted: 0,
            files_skipped_too_large: 0,
            parse_errors: 0,
        }
    }
}

/// What is to be done about a file that the walk came to.
#[derive(Debug, Clone, Copy, PartialEq, Eq, Structural)]
pub enum FileStep {
    /// Enough files are indexed: the walk ends.
    Stop,
    /// The file is in no known language.
    Skip,
    /// The file is too large.
    TooLarge,
    /// The file is to be read and indexed.
    Index(Lang),
}

pub open spec fn plus_one(n: usize) -> usize {
    if n < usize::MAX {
        (n + 1) as usize
    } else {
        n
    }
}

/// What is to be done about the file at `path`, when its size is known, and the
/// statistics after that is decided.
pub open spec fn file_step(s: IndexStats, path: Seq<char>, size: Option<u64>) -> (
    IndexStats,
    FileStep,
) {
    let walked = IndexStats { files_walked: plus_one(s.files_walked), ..s };
    if s.files_indexed >= crate::code_graph::MAX_FILES_PER_REPO {
        (walked, FileStep::Stop)
    } else {
        match Lang::of_path(path) {
            None => (walked, FileStep::Skip),
            Some(lang) => match size {
                None => (walked, FileStep::Skip),
                Some(n) => if n > crate::code_graph::MAX_FILE_BYTES {
                    (
                        IndexStats {
                            files_skipped_too_large: plus_one(walked.files_skipped_too_large),
                            ..walked
                        },
                        FileStep::TooLarge,
                    )
                } else {
                    (walked, FileStep::Index(lang))
                },
            },
        }
    }
}

/// A path with forward slashes.
pub open spec fn slashed(path: Seq<char>) -> Seq<char> {
    path.map_values(
        |c: char|
            if c == '\\' {
                '/'
            } else {
                c
            },
    )
}

fn inc(n: usize) -> (r: usize)
    ensures
        r == plus_one(n),
{
    if n < usize::MAX {
        n + 1
    } else {
        n
    }
}

fn sum(a: usize, b: usize) -> (r: usize)
    ensures
        r == (if a + b <= usize::MAX {
            a + b
        } else {
            usize::MAX as int
        }),
{
    if b <= usize::MAX - a {
        a + b
    } else {
        usize::MAX
    }
}

impl IndexStats {
    /// Decides what is to be done about a file that the walk came to. `size` is
    /// its length in bytes, when that is known.
    pub fn visit(&mut self, path: &str, size: Option<u64>) -> (r: FileStep)
        ensures
            (*final(self), r) == file_step(*old(self), path@, size),
    {
        self.files_walked = inc(self.files_walked);
        if self.files_indexed >= crate::code_graph::MAX_FILES_PER_REPO {
            return FileStep::Stop;
        }
        match Lang::from_path(path) {
            None => FileStep::Skip,
            Some(lang) => match size {
                None => FileStep::Skip,
                Some(n) => {
                    if n > crate::code_graph::MAX_FILE_BYTES {
                        self.files_skipped_too_large = inc(self.files_skipped_too_large);
                        FileStep::TooLarge
                    } else {
                        FileStep::Index(lang)
                    }
                },
            },
        }
    }

    /// Counts a file that was indexed, with what it held, or one that could not
    /// be.
    pub fn settle(&mut self, indexed: Option<(usize, usize)>)
        ensures
            *final(self) == (match indexed {
                Some((symbols, calls)) => IndexStats {
                    files_indexed: plus_one(old(self).files_indexed),
                    symbols_inserted: if old(self).symbols_inserted + symbols <= usize::MAX {
                        (old(self).symbols_inserted + symbols) as usize
                    } else {
                        usize::MAX
                    },
                    calls_inserted: if old(self).calls_inserted + calls <= usize::MAX {
                        (old(self).calls_inserted + calls) as usize
                    } else {
                        usize::MAX
                    },
                    ..*old(self)
                },
                None => IndexStats {
                    parse_errors: plus_one(old(self).parse_errors),
                    ..*old(self)
                },
            }),
    {
        match indexed {
            Some((symbols, calls)) => {
                self.files_indexed = inc(self.files_indexed);
                self.symbols_inserted = sum(self.symbols_inserted, symbols);
                self.calls_inserted = sum(self.calls_inserted, calls);
            },
            None => {
                self.parse_errors = inc(self.parse_errors);
            },
        }
    }
}

/// The languages of a repository, each once and in order, with one more.
pub open spec fn with_language(langs: Seq<Seq<char>>, name: Seq<char>) -> Seq<Seq<char>> {
    if langs.contains(name) {
        langs
    } else {
        text::sorted(langs.push(name))
    }
}

/// Adds a language to the languages of a repository.
pub fn add_language(langs: &mut Vec<String>, lang: Lang)
    ensures
        text::texts(final(langs)@) == with_language(text::texts(old(langs)@), lang.name_text()),
{
    let ghost all = text::texts(langs@);
    let name = lang.name();
    let mut i: usize = 0;
    while i < langs.len()
        invariant
            i <= langs.len(),
            *langs == *old(langs),
            all == text::texts(langs@),
            name@ == lang.name_text(),
            forall|j: int| 0 <= j < i ==> all[j] != name@,
        decreases langs.len() - i,
    {
        if text::same(&langs[i], name) {
            assert(all[i as int] == name@);
            return;
        }
        i = i + 1;
    }
    let s = name.to_owned();
    proof {
        text::lemma_texts_push(langs@, s);
    }
    langs.push(s);
    let sorted = text::sort_texts(langs);
    *langs = sorted;
}

/// A path with forward slashes.
pub fn relative_name(path: &str) -> (r: String)
    ensures
        r@ == slashed(path@),
{
    let v = text::chars(path);
    let mut r: String = String::new();
    let mut i: usize = 0;
    assert(r@ =~= slashed(v@.take(0)));
    while i < v.len()
        invariant
            i <= v.len(),
            r@ == slashed(v@.take(i as int)),
        decreases v.len() - i,
    {
        if v[i] == '\\' {
            r.push('/');
        } else {
            r.push(v[i]);
        }
        i = i + 1;
        assert(r@ =~= slashed(v@.take(i as int)));
    }
    assert(v@.take(i as int) =~= path@);
    r
}

/// What a pass over a repository came to.
pub fn summarise(
    name: String,
    path: String,
    stats: &IndexStats,
    languages: Vec<String>,
) -> (r: RepoSummary)
    ensures
        r.name == name,
        r.path == path,
        r.file_count == stats.files_indexed as int % 0x1_0000_0000,
        r.symbol_count == stats.symbols_inserted as int % 0x1_0000_0000,
        r.languages == languages,
{
    RepoSummary {
        name,
        path,
        file_count: (stats.files_indexed as u64 % 0x1_0000_0000) as u32,
        symbol_count: (stats.symbols_inserted as u64 % 0x1_0000_0000) as u32,
        languages,
    }
}

/// Indexing never reads a file beyond the size limit and never goes beyond the
/// limit of files.
pub proof fn law_index_is_bounded(s: IndexStats, path: Seq<char>, size: Option<u64>)
    ensures
        file_step(s, path, size).1 matches FileStep::Index(lang) ==> {
            &&& size matches Some(n) && n <= crate::code_graph::MAX_FILE_BYTES
            &&& s.files_indexed < crate::code_graph::MAX_FILES_PER_REPO
            &&& Lang::of_path(path) == Some(lang)
        },
{
}

// ---------------------------------------------------------------------------
// Laws on what is found
// ---------------------------------------------------------------------------

/// Whether node `c` is a child of node `p`: it is one step deeper, and so is
/// everything between the two, or deeper still.
pub open spec fn is_child(nodes: Seq<outside::NodeText>, p: int, c: int) -> bool {
    &&& 0 <= p < c < nodes.len()
    &&& nodes[c].depth == nodes[p].depth + 1
    &&& forall|k: int| p < k < c ==> (#[trigger] nodes[k]).depth > nodes[p].depth
}

proof fn lemma_field_child(nodes: Seq<outside::NodeText>, p: int, field: Seq<char>, i: int)
    requires
        0 <= p < i,
        forall|k: int| p < k < i && k < nodes.len() ==> (#[trigger] nodes[k]).depth > nodes[p].depth,
    ensures
        match field_child(nodes, p, field, i) {
            Some(c) => i <= c && is_child(nodes, p, c) && nodes[c].field == Some(field) && forall|k: int|
                i <= k < c && is_child(nodes, p, k) ==> (#[trigger] nodes[k]).field != Some(field),
            None => forall|k: int|
                i <= k && is_child(nodes, p, k) ==> (#[trigger] nodes[k]).field != Some(field),
        },
    decreases nodes.len() - i,
{
    if i < nodes.len() && nodes[i].depth > nodes[p].depth {
        if !(nodes[i].depth == nodes[p].depth + 1 && nodes[i].field == Some(field)) {
            lemma_field_child(nodes, p, field, i + 1);
        }
    }
}

proof fn lemma_named_child(nodes: Seq<outside::NodeText>, p: int, i: int)
    requires
        0 <= p < i,
        forall|k: int| p < k < i && k < nodes.len() ==> (#[trigger] nodes[k]).depth > nodes[p].depth,
    ensures
        match named_child(nodes, p, i) {
            Some(c) => i <= c && is_child(nodes, p, c) && nodes[c].named && forall|k: int|
                i <= k < c && is_child(nodes, p, k) ==> !(#[trigger] nodes[k]).named,
            None => forall|k: int| i <= k && is_child(nodes, p, k) ==> !(#[trigger] nodes[k]).named,
        },
    decreases nodes.len() - i,
{
    if i < nodes.len() && nodes[i].depth > nodes[p].depth {
        if !(nodes[i].depth == nodes[p].depth + 1 && nodes[i].named) {
            lemma_named_child(nodes, p, i + 1);
        }
    }
}

proof fn lemma_last_member(nodes: Seq<outside::NodeText>, p: int, i: int, best: Option<int>)
    requires
        0 <= p < i,
        forall|k: int| p < k < i && k < nodes.len() ==> (#[trigger] nodes[k]).depth > nodes[p].depth,
        best matches Some(b) ==> b < i && is_child(nodes, p, b) && is_member_name(nodes[b].kind),
        best is None ==> forall|k: int|
            k < i && is_child(nodes, p, k) ==> !is_member_name((#[trigger] nodes[k]).kind),
        best matches Some(b) ==> forall|k: int|
            b < k < i && is_child(nodes, p, k) ==> !is_member_name((#[trigger] nodes[k]).kind),
    ensures
        match last_member(nodes, p, i, best) {
            Some(m) => is_child(nodes, p, m) && is_member_name(nodes[m].kind) && forall|k: int|
                m < k && is_child(nodes, p, k) ==> !is_member_name((#[trigger] nodes[k]).kind),
            None => forall|k: int|
                is_child(nodes, p, k) ==> !is_member_name((#[trigger] nodes[k]).kind),
        },
    decreases nodes.len() - i,
{
    if i < nodes.len() && nodes[i].depth > nodes[p].depth {
        if nodes[i].depth == nodes[p].depth + 1 && is_member_name(nodes[i].kind) {
            lemma_last_member(nodes, p, i + 1, Some(i));
        } else {
            lemma_last_member(nodes, p, i + 1, best);
        }
    }
}

/// A call of a member, in whichever language, is recorded under the name of the
/// member alone: of a `member_expression`, a `selector_expression` or a
/// `field_expression` the source of its last child that is an identifier, and
/// not that of the whole expression. Anything else that is called is recorded as
/// it stands in the source.
pub proof fn law_member_calls_name_the_member(
    nodes: Seq<outside::NodeText>,
    source: Seq<char>,
    i: int,
    t: int,
    m: int,
)
    requires
        is_child(nodes, i, t),
        nodes[t].field == Some("function"@),
        forall|k: int|
            k < t && is_child(nodes, i, k) ==> (#[trigger] nodes[k]).field != Some("function"@),
    ensures
        ({
            let kind = nodes[t].kind;
            &&& (kind == "member_expression"@ || kind == "selector_expression"@ || kind
                == "field_expression"@ || kind == "scoped_type_identifier"@) && is_child(nodes, t, m)
                && (nodes[m].kind == "identifier"@ || nodes[m].kind == "field_identifier"@
                || nodes[m].kind == "property_identifier"@ || nodes[m].kind == "type_identifier"@)
                && (forall|k: int|
                m < k && is_child(nodes, t, k) ==> !((#[trigger] nodes[k]).kind == "identifier"@
                    || nodes[k].kind == "field_identifier"@ || nodes[k].kind
                    == "property_identifier"@ || nodes[k].kind == "type_identifier"@))
                ==> callee_of(nodes, source, i) == text::byte_slice(
                source,
                nodes[m].start as int,
                nodes[m].end as int,
            )
            &&& kind != "member_expression"@ && kind != "selector_expression"@ && kind
                != "field_expression"@ && kind != "scoped_type_identifier"@ ==> callee_of(
                nodes,
                source,
                i,
            ) == text::byte_slice(source, nodes[t].start as int, nodes[t].end as int)
        }),
{
    lemma_field_child(nodes, i, "function"@, i + 1);
    let f = field_child(nodes, i, "function"@, i + 1)->0;
    assert(f == t) by {
        if f < t {
            assert(nodes[f].field == Some("function"@));
        } else if t < f {
            assert(nodes[t].field == Some("function"@));
        }
    }
    assert(call_target(nodes, i) == Some(t));
    lemma_last_member(nodes, t, t + 1, None);
    if is_child(nodes, t, m) && is_member_name(nodes[m].kind) {
        let l = last_member(nodes, t, t + 1, None)->0;
        if (forall|k: int|
            m < k && is_child(nodes, t, k) ==> !((#[trigger] nodes[k]).kind == "identifier"@
                || nodes[k].kind == "field_identifier"@ || nodes[k].kind == "property_identifier"@
                || nodes[k].kind == "type_identifier"@)) {
            if m < l {
                assert(is_member_name(nodes[l].kind));
            } else if l < m {
                assert(is_member_name(nodes[m].kind));
            }
            assert(l == m);
        }
    }
}

/// A call that has no part `function` is recorded under its part `name`, and
/// without that under the first named part.
pub proof fn law_other_calls(nodes: Seq<outside::NodeText>, source: Seq<char>, i: int, t: int)
    requires
        is_child(nodes, i, t),
        forall|k: int| is_child(nodes, i, k) ==> (#[trigger] nodes[k]).field != Some("function"@),
        nodes[t].kind == "identifier"@,
        ({
            ||| nodes[t].field == Some("name"@) && forall|k: int|
                k < t && is_child(nodes, i, k) ==> (#[trigger] nodes[k]).field != Some("name"@)
            ||| nodes[t].named && forall|k: int|
                is_child(nodes, i, k) ==> (#[trigger] nodes[k]).field != Some("name"@) && (k < t
                    ==> !nodes[k].named)
        }),
    ensures
        callee_of(nodes, source, i) == text::byte_slice(
            source,
            nodes[t].start as int,
            nodes[t].end as int,
        ),
{
    reveal_strlit("identifier");
    reveal_strlit("member_expression");
    reveal_strlit("selector_expression");
    reveal_strlit("field_expression");
    reveal_strlit("scoped_type_identifier");
    assert("identifier"@.len() == 10 && "member_expression"@.len() == 17
        && "selector_expression"@.len() == 19 && "field_expression"@.len() == 16
        && "scoped_type_identifier"@.len() == 22);
    assert(!is_member_access(nodes[t].kind));
    lemma_field_child(nodes, i, "function"@, i + 1);
    lemma_field_child(nodes, i, "name"@, i + 1);
    lemma_named_child(nodes, i, i + 1);
    match field_child(nodes, i, "function"@, i + 1) {
        Some(c) => {
            assert(nodes[c].field == Some("function"@));
        },
        None => {},
    }
    match field_child(nodes, i, "name"@, i + 1) {
        Some(c) => {
            assert(nodes[c].field == Some("name"@));
            assert(c == t) by {
                if t < c {
                    assert(nodes[t].field != Some("name"@));
                }
            }
        },
        None => {
            assert(nodes[t].field != Some("name"@));
            let c = named_child(nodes, i, i + 1)->0;
            assert(nodes[t].named);
            assert(c == t) by {
                if c < t {
                    assert(nodes[c].named);
                }
            }
        },
    }
    assert(call_target(nodes, i) == Some(t));
}

/// A declaration is named by its part `name`, as it stands in the source; an
/// implementation in Rust, which has none, by `impl` and its type; a variable
/// without one by its first named part.
pub proof fn law_declarations_are_named(
    nodes: Seq<outside::NodeText>,
    source: Seq<char>,
    lang: Lang,
    i: int,
    c: int,
)
    requires
        is_child(nodes, i, c),
    ensures
        nodes[c].field == Some("name"@) && (forall|k: int|
            k < c && is_child(nodes, i, k) ==> (#[trigger] nodes[k]).field != Some("name"@))
            ==> name_of(nodes, source, lang, i) == text::byte_slice(
            source,
            nodes[c].start as int,
            nodes[c].end as int,
        ),
        nodes[i].kind == "impl_item"@ && nodes[c].field == Some("type"@) && (forall|k: int|
            is_child(nodes, i, k) ==> (#[trigger] nodes[k]).field != Some("name"@) && (k < c
                ==> nodes[k].field != Some("type"@))) ==> name_of(nodes, source, Lang::Rust, i)
            == match text::byte_slice(source, nodes[c].start as int, nodes[c].end as int) {
            Some(s) => Some("impl "@ + s),
            None => None,
        },
{
    lemma_field_child(nodes, i, "name"@, i + 1);
    lemma_field_child(nodes, i, "type"@, i + 1);
    match field_child(nodes, i, "name"@, i + 1) {
        Some(f) => {
            assert(nodes[f].field == Some("name"@));
            if c < f {
                assert(nodes[c].field != Some("name"@));
            }
        },
        None => {
            assert(nodes[c].field != Some("name"@));
        },
    }
    match field_child(nodes, i, "type"@, i + 1) {
        Some(f) => {
            assert(nodes[f].field == Some("type"@));
            if c < f {
                assert(nodes[c].field != Some("type"@));
            }
        },
        None => {
            assert(nodes[c].field != Some("type"@));
        },
    }
}

/// A variable is a symbol only when it is set to a function.
pub proof fn law_only_functions_in_variables(
    nodes: Seq<outside::NodeText>,
    source: Seq<char>,
    lang: Lang,
    i: int,
)
    requires
        0 <= i < nodes.len(),
        nodes[i].kind == "variable_declarator"@,
    ensures
        symbol_at(nodes, source, lang, i) is Some ==> exists|c: int|
            is_child(nodes, i, c) && (#[trigger] nodes[c]).field == Some("value"@) && (nodes[c].kind
                == "arrow_function"@ || nodes[c].kind == "function"@ || nodes[c].kind
                == "function_expression"@ || nodes[c].kind == "generator_function"@),
        (lang == Lang::TypeScript || lang == Lang::Tsx || lang == Lang::JavaScript) && name_of(
            nodes,
            source,
            lang,
            i,
        ) is Some && (exists|c: int|
            is_child(nodes, i, c) && (#[trigger] nodes[c]).field == Some("value"@)
                && nodes[c].kind == "arrow_function"@ && forall|k: int|
                k < c && is_child(nodes, i, k) ==> (#[trigger] nodes[k]).field != Some("value"@))
            ==> symbol_at(nodes, source, lang, i) == Some(
            ("const"@, name_of(nodes, source, lang, i)->0),
        ),
{
    lemma_field_child(nodes, i, "value"@, i + 1);
    match field_child(nodes, i, "value"@, i + 1) {
        Some(f) => {
            assert(nodes[f].field == Some("value"@));
            assert forall|c: int|
                is_child(nodes, i, c) && (#[trigger] nodes[c]).field == Some("value"@) && (forall|
                    k: int,
                |
                    k < c && is_child(nodes, i, k) ==> (#[trigger] nodes[k]).field != Some(
                        "value"@,
                    )) implies c == f by {
                if c < f {
                    assert(nodes[c].field == Some("value"@));
                }
            }
        },
        None => {},
    }
    reveal_strlit("variable_declarator");
    reveal_strlit("function_declaration");
    reveal_strlit("class_declaration");
    reveal_strlit("method_definition");
    reveal_strlit("interface_declaration");
    reveal_strlit("type_alias_declaration");
    let kind = nodes[i].kind;
    assert(kind[0] == 'v');
    assert("class_declaration"@[0] == 'c' && "method_definition"@[0] == 'm'
        && "function_declaration"@[0] == 'f' && "interface_declaration"@[0] == 'i'
        && "type_alias_declaration"@[0] == 't');
    reveal_with_fuel(declared, 7);
    assert(lang == Lang::TypeScript || lang == Lang::Tsx || lang == Lang::JavaScript ==> declared(
        lang.declarations(),
        kind,
    ) == Some("const"@));
}

/// Whether node `j` declares a symbol.
pub open spec fn declares(
    nodes: Seq<outside::NodeText>,
    source: Seq<char>,
    lang: Lang,
    j: int,
) -> bool {
    0 <= j < nodes.len() && symbol_at(nodes, source, lang, j) is Some
}

/// Whether node `i` lies within node `j`: everything from behind `j` up to it is
/// deeper.
pub open spec fn lies_within(nodes: Seq<outside::NodeText>, i: int, j: int) -> bool {
    0 <= j < i && forall|k: int| j < k <= i ==> (#[trigger] nodes[k]).depth > nodes[j].depth
}

/// How many of the first `n` nodes declare a symbol.
pub open spec fn symbols_before(
    nodes: Seq<outside::NodeText>,
    source: Seq<char>,
    lang: Lang,
    n: int,
) -> nat
    decreases n,
{
    if n <= 0 {
        0
    } else {
        symbols_before(nodes, source, lang, n - 1) + (if declares(nodes, source, lang, n - 1) {
            1nat
        } else {
            0nat
        })
    }
}

spec fn open_at(
    nodes: Seq<outside::NodeText>,
    source: Seq<char>,
    lang: Lang,
    n: int,
    open: Seq<EnclosingText>,
    js: Seq<int>,
) -> bool {
    &&& js.len() == open.len()
    &&& forall|k: int|
        0 <= k < js.len() ==> {
            let j = #[trigger] js[k];
            &&& 0 <= j < n
            &&& declares(nodes, source, lang, j)
            &&& forall|x: int| j < x < n ==> (#[trigger] nodes[x]).depth > nodes[j].depth
            &&& open[k] == EnclosingText {
                depth: nodes[j].depth,
                symbol: symbols_before(nodes, source, lang, j) as int,
                name: (symbol_at(nodes, source, lang, j)->0).1,
            }
        }
    &&& forall|a: int, b: int| 0 <= a < b < js.len() ==> (#[trigger] js[a]) < (#[trigger] js[b])
    &&& forall|j: int|
        0 <= j < n && #[trigger] declares(nodes, source, lang, j) && (forall|x: int|
            j < x < n ==> (#[trigger] nodes[x]).depth > nodes[j].depth) ==> js.contains(j)
}

proof fn lemma_close(
    nodes: Seq<outside::NodeText>,
    source: Seq<char>,
    lang: Lang,
    n: int,
    open: Seq<EnclosingText>,
    js: Seq<int>,
) -> (ks: Seq<int>)
    requires
        0 <= n < nodes.len(),
        open_at(nodes, source, lang, n, open, js),
    ensures
        ks.len() == still_open(open, nodes[n].depth).len(),
        ks.len() <= js.len(),
        ks == js.take(ks.len() as int),
        forall|k: int|
            0 <= k < ks.len() ==> still_open(open, nodes[n].depth)[k] == open[k] && nodes[#[trigger] ks[k]].depth
                < nodes[n].depth,
        forall|k: int| ks.len() <= k < js.len() ==> nodes[#[trigger] js[k]].depth >= nodes[n].depth,
    decreases open.len(),
{
    let d = nodes[n].depth;
    lemma_still_open(open, d);
    let m = still_open(open, d).len();
    let ks = js.take(m as int);
    assert forall|k: int| 0 <= k < m implies nodes[#[trigger] ks[k]].depth < d by {
        assert(open[k].depth == nodes[js[k]].depth);
        let l = m - 1;
        assert(open[l].depth == nodes[js[l]].depth);
        if k < l {
            assert(js[k] < js[l]);
            assert(nodes[js[l]].depth > nodes[js[k]].depth);
        }
    }
    lemma_closed(open, d);
    assert forall|k: int| m <= k < js.len() implies nodes[#[trigger] js[k]].depth >= d by {
        assert(open[k].depth == nodes[js[k]].depth);
    }
    ks
}

proof fn lemma_closed(open: Seq<EnclosingText>, depth: nat)
    ensures
        forall|k: int|
            still_open(open, depth).len() <= k < open.len() ==> (#[trigger] open[k]).depth >= depth,
    decreases open.len(),
{
    if open.len() > 0 && open.last().depth >= depth {
        let d = open.drop_last();
        lemma_closed(d, depth);
        assert forall|k: int| still_open(open, depth).len() <= k < open.len() implies (
        #[trigger] open[k]).depth >= depth by {
            if k < d.len() {
                assert(d[k] == open[k]);
            }
        }
    }
}

#[verifier::rlimit(60)]
proof fn lemma_open(
    nodes: Seq<outside::NodeText>,
    source: Seq<char>,
    lang: Lang,
    n: int,
) -> (js: Seq<int>)
    requires
        0 <= n <= nodes.len(),
    ensures
        open_at(nodes, source, lang, n, scanned(nodes, source, lang, n).open, js),
        scanned(nodes, source, lang, n).symbols.len() == symbols_before(nodes, source, lang, n),
    decreases n,
{
    if n == 0 {
        Seq::empty()
    } else {
        let i = n - 1;
        let before = scanned(nodes, source, lang, i);
        let js = lemma_open(nodes, source, lang, i);
        let ks = lemma_close(nodes, source, lang, i, before.open, js);
        let open = still_open(before.open, nodes[i].depth);
        let r = if declares(nodes, source, lang, i) {
            ks.push(i)
        } else {
            ks
        };
        let after = scanned(nodes, source, lang, n).open;
        assert forall|k: int| 0 <= k < r.len() implies {
            let j = #[trigger] r[k];
            &&& 0 <= j < n
            &&& declares(nodes, source, lang, j)
            &&& forall|x: int| j < x < n ==> (#[trigger] nodes[x]).depth > nodes[j].depth
            &&& after[k] == EnclosingText {
                depth: nodes[j].depth,
                symbol: symbols_before(nodes, source, lang, j) as int,
                name: (symbol_at(nodes, source, lang, j)->0).1,
            }
        } by {
            if k < ks.len() {
                assert(r[k] == js[k]);
                assert(nodes[ks[k]].depth < nodes[i].depth);
            }
        }
        assert forall|a: int, b: int| 0 <= a < b < r.len() implies (#[trigger] r[a]) < (
        #[trigger] r[b]) by {
            assert(r[a] == js[a]);
            if b < ks.len() {
                assert(r[b] == js[b]);
            }
        }
        assert forall|j: int|
            0 <= j < n && #[trigger] declares(nodes, source, lang, j) && (forall|x: int|
                j < x < n ==> (#[trigger] nodes[x]).depth > nodes[j].depth) implies r.contains(j) by {
            if j < i {
                assert(js.contains(j));
                let k = choose|k: int| 0 <= k < js.len() && js[k] == j;
                assert(nodes[i].depth > nodes[j].depth);
                assert(k < ks.len());
                assert(r[k] == j);
            } else {
                assert(r[ks.len() as int] == j);
            }
        }
        r
    }
}

proof fn lemma_innermost(
    nodes: Seq<outside::NodeText>,
    source: Seq<char>,
    lang: Lang,
    i: int,
)
    requires
        0 <= i < nodes.len(),
    ensures
        ({
            let open = still_open(scanned(nodes, source, lang, i).open, nodes[i].depth);
            &&& open.len() == 0 <==> (forall|j: int|
                #[trigger] declares(nodes, source, lang, j) ==> !lies_within(nodes, i, j))
            &&& forall|j: int|
                #[trigger] declares(nodes, source, lang, j) && lies_within(nodes, i, j) && (forall|
                    l: int,
                |
                    j < l && #[trigger] declares(nodes, source, lang, l) ==> !lies_within(
                        nodes,
                        i,
                        l,
                    )) ==> open.len() > 0 && open.last() == (EnclosingText {
                    depth: nodes[j].depth,
                    symbol: symbols_before(nodes, source, lang, j) as int,
                    name: (symbol_at(nodes, source, lang, j)->0).1,
                })
        }),
{
    let before = scanned(nodes, source, lang, i);
    let js = lemma_open(nodes, source, lang, i);
    let ks = lemma_close(nodes, source, lang, i, before.open, js);
    let open = still_open(before.open, nodes[i].depth);
    assert forall|j: int|
        #[trigger] declares(nodes, source, lang, j) && lies_within(nodes, i, j) implies ks.contains(j) by {
        assert(js.contains(j));
        let k = choose|k: int| 0 <= k < js.len() && js[k] == j;
        assert(nodes[i].depth > nodes[j].depth);
        assert(k < ks.len());
        assert(ks[k] == j);
    }
    if ks.len() > 0 {
        let l = ks.len() - 1;
        let j = ks[l];
        assert(j == js[l]);
        assert(declares(nodes, source, lang, j));
        assert(lies_within(nodes, i, j));
        assert forall|x: int|
            #[trigger] declares(nodes, source, lang, x) && lies_within(nodes, i, x) && (forall|
                y: int,
            |
                x < y && #[trigger] declares(nodes, source, lang, y) ==> !lies_within(
                    nodes,
                    i,
                    y,
                )) implies x == j by {
            assert(ks.contains(x));
            let k = choose|k: int| 0 <= k < ks.len() && ks[k] == x;
            if k < l {
                assert(js[k] < js[l]);
            }
        }
        assert(open.last() == open[l]);
        assert(open[l] == before.open[l]);
    } else {
        assert forall|j: int| #[trigger] declares(nodes, source, lang, j) implies !lies_within(
            nodes,
            i,
            j,
        ) by {
            if lies_within(nodes, i, j) {
                assert(ks.contains(j));
            }
        }
    }
}

/// Every declaration becomes a symbol, in the order of the source: with its
/// name, its kind, the line on which it begins, and as its parent the innermost
/// declaration around it, if there is one.
pub proof fn law_declarations_become_symbols(
    nodes: Seq<outside::NodeText>,
    source: Seq<char>,
    lang: Lang,
    i: int,
    j: int,
)
    requires
        declares(nodes, source, lang, i),
        nodes[i].row < u32::MAX,
    ensures
        ({
            let before = scanned(nodes, source, lang, i);
            let after = scanned(nodes, source, lang, i + 1);
            let s = after.symbols.last();
            &&& after.symbols.len() == before.symbols.len() + 1
            &&& after.symbols.drop_last() == before.symbols
            &&& after.calls == before.calls
            &&& before.symbols.len() == symbols_before(nodes, source, lang, i)
            &&& symbol_at(nodes, source, lang, i) == Some((s.kind, s.name))
            &&& s.line == nodes[i].row + 1
            &&& (forall|l: int|
                #[trigger] declares(nodes, source, lang, l) ==> !lies_within(nodes, i, l))
                ==> s.parent is None
            &&& declares(nodes, source, lang, j) && lies_within(nodes, i, j) && (forall|l: int|
                j < l && #[trigger] declares(nodes, source, lang, l) ==> !lies_within(nodes, i, l))
                ==> s.parent == Some((symbol_at(nodes, source, lang, j)->0).1)
        }),
{
    let js = lemma_open(nodes, source, lang, i);
    lemma_innermost(nodes, source, lang, i);
    let before = scanned(nodes, source, lang, i);
    let after = scanned(nodes, source, lang, i + 1);
    assert(after.symbols.drop_last() =~= before.symbols);
}

/// Every call within a declaration is recorded once, with what it calls, its
/// line, and as its caller the innermost declaration around it. A call outside
/// of every declaration is not recorded, and neither is anything that is no
/// call.
pub proof fn law_calls_belong_to_the_innermost(
    nodes: Seq<outside::NodeText>,
    source: Seq<char>,
    lang: Lang,
    i: int,
    j: int,
)
    requires
        0 <= i < nodes.len(),
        !declares(nodes, source, lang, i),
        nodes[i].row < u32::MAX,
    ensures
        ({
            let before = scanned(nodes, source, lang, i);
            let after = scanned(nodes, source, lang, i + 1);
            &&& after.symbols == before.symbols
            &&& !lang.invocations().contains(nodes[i].kind) ==> after.calls == before.calls
            &&& callee_of(nodes, source, i) is None ==> after.calls == before.calls
            &&& (forall|l: int|
                #[trigger] declares(nodes, source, lang, l) ==> !lies_within(nodes, i, l))
                ==> after.calls == before.calls
            &&& lang.invocations().contains(nodes[i].kind) && callee_of(nodes, source, i) is Some
                && declares(nodes, source, lang, j) && lies_within(nodes, i, j) && (forall|l: int|
                j < l && #[trigger] declares(nodes, source, lang, l) ==> !lies_within(nodes, i, l))
                ==> after.calls == before.calls.push(
                CallSiteText {
                    caller: symbols_before(nodes, source, lang, j) as int,
                    callee: callee_of(nodes, source, i)->0,
                    line: (nodes[i].row + 1) as u32,
                },
            )
        }),
{
    lemma_innermost(nodes, source, lang, i);
}

/// The signature of a declaration is its first line without the white space
/// around it, and of a line of more than two hundred characters the first two
/// hundred with an ellipsis.
pub proof fn law_signature_is_the_first_line(
    source: Seq<char>,
    start: int,
    end: int,
    line: Seq<char>,
    rest: Seq<char>,
)
    requires
        start < end <= text::utf8_len(source),
        !line.contains('\n') && !line.contains('\r'),
        text::trimmed(line).len() > 0,
        text::byte_slice(source, start, end) == Some(line) || text::byte_slice(source, start, end)
            == Some(line.push('\n') + rest),
    ensures
        text::trimmed(line).len() <= 200 ==> signature_of(source, start, end) == Some(
            text::trimmed(line),
        ),
        text::trimmed(line).len() > 200 ==> signature_of(source, start, end) == Some(
            text::trimmed(line).take(200) + "…"@,
        ),
{
    let chunk = text::byte_slice(source, start, end)->0;
    text::law_split_at(line, '\n', rest);
    text::law_trimmed(line);
    assert(line.len() > 0) by {
        if line.len() == 0 {
            assert(text::trimmed_start(line) == line);
            assert(text::trimmed_end(line) == line);
        }
    }
    text::lemma_split_nonempty(rest, '\n');
    let parts = text::split(chunk, '\n');
    assert(parts[0] == line);
    assert(text::chomp(line) == line) by {
        if line.last() == '\r' {
            assert(line.contains(line[line.len() - 1]));
        }
    }
    assert(text::lines(chunk).len() > 0);
    assert(text::lines(chunk)[0] == line);
}

/// The snippet of a symbol is its line with the one before it and the one behind
/// it, as far as there are such lines.
pub proof fn law_snippet_is_around_the_line(lines: Seq<Seq<char>>, n: int)
    requires
        1 <= n <= lines.len(),
    ensures
        n == 1 && lines.len() == 1 ==> snippet_of(lines, n) == Some(lines[0]),
        n == 1 && lines.len() > 1 ==> snippet_of(lines, n) == Some(lines[0] + "\n"@ + lines[1]),
        n > 1 && n == lines.len() ==> snippet_of(lines, n) == Some(
            lines[n - 2] + "\n"@ + lines[n - 1],
        ),
        1 < n < lines.len() ==> snippet_of(lines, n) == Some(
            lines[n - 2] + "\n"@ + lines[n - 1] + "\n"@ + lines[n],
        ),
{
    reveal_with_fuel(text::join, 4);
    let idx = n - 1;
    let start = if idx > 0 {
        idx - 1
    } else {
        0
    };
    let end = if idx + 2 <= lines.len() {
        idx + 2
    } else {
        lines.len() as int
    };
    let part = lines.subrange(start, end);
    if part.len() >= 2 {
        assert(part.drop_last() =~= lines.subrange(start, end - 1));
    }
    if part.len() == 3 {
        assert(part.drop_last().drop_last() =~= lines.subrange(start, end - 2));
    }
}

/// Every file in a language that is known, of a size that is known and no larger
/// than the limit, is indexed as long as the limit of files is not reached.
pub proof fn law_files_are_indexed(s: IndexStats, path: Seq<char>, size: u64)
    ensures
        s.files_indexed < 5_000 ==> {
            let step = file_step(s, path, Some(size)).1;
            match Lang::of_path(path) {
                Some(lang) => if size <= 1_048_576 {
                    step == FileStep::Index(lang)
                } else {
                    step is TooLarge
                },
                None => step is Skip,
            }
        },
        s.files_indexed >= 5_000 ==> file_step(
            s,
            path,
            Some(size),
        ).1 is Stop,
        file_step(s, path, None).1 is Skip || file_step(s, path, None).1 is Stop,
        s.files_walked < usize::MAX ==> file_step(s, path, Some(size)).0.files_walked
            == s.files_walked + 1,
        file_step(s, path, Some(size)).0.files_indexed == s.files_indexed,
{
}

/// Names of files have forward slashes, and nothing else of them changes; rows
/// count from nothing and lines from one.
pub proof fn law_names_and_lines(path: Seq<char>, i: int, row: nat, n: usize)
    ensures
        slashed(path).len() == path.len(),
        0 <= i < path.len() && path[i] != '\\' ==> slashed(path)[i] == path[i],
        0 <= i < path.len() && path[i] == '\\' ==> slashed(path)[i] == '/',
        row < u32::MAX ==> line_of_row(row) == row + 1,
        n < usize::MAX ==> plus_one(n) == n + 1,
{
}

/// A repository has each of its languages once, in order.
pub proof fn law_languages_of_repositories(langs: Seq<Seq<char>>, name: Seq<char>)
    ensures
        langs.contains(name) ==> with_language(langs, name) == langs,
        !langs.contains(name) ==> text::in_order(with_language(langs, name)) && with_language(
            langs,
            name,
        ).to_multiset() == langs.push(name).to_multiset(),
{
    text::law_sorted(langs.push(name));
}

/// What was indexed is what the summary says.
pub proof fn law_summaries(
    name: String,
    path: String,
    stats: &IndexStats,
    languages: Vec<String>,
    r: RepoSummary,
)
    requires
        call_ensures(summarise, (name, path, stats, languages), r),
    ensures
        r.name == name && r.path == path && r.languages == languages,
        stats.files_indexed <= u32::MAX ==> r.file_count == stats.files_indexed,
        stats.symbols_inserted <= u32::MAX ==> r.symbol_count == stats.symbols_inserted,
{
}

/// A file that was indexed counts with its symbols and calls, and one that was
/// not as an error.
pub proof fn law_files_are_counted()
    ensures
        forall|s: &mut IndexStats, a: usize, b: usize| #[trigger]
            call_ensures(IndexStats::settle, (s, Some((a, b))), ()) && s.files_indexed < usize::MAX
                && s.symbols_inserted + a <= usize::MAX && s.calls_inserted + b <= usize::MAX
                ==> final(s).files_indexed == s.files_indexed + 1 && final(s).symbols_inserted
                == s.symbols_inserted + a && final(s).calls_inserted == s.calls_inserted + b && final(s).parse_errors == s.parse_errors,
        forall|s: &mut IndexStats| #[trigger]
            call_ensures(IndexStats::settle, (s, None::<(usize, usize)>), ()) && s.parse_errors
                < usize::MAX ==> final(s).parse_errors == s.parse_errors + 1 && final(s).files_indexed
                == s.files_indexed && final(s).symbols_inserted == s.symbols_inserted,
{
}

} // verus!
