//! Calls into other crates and into parts of the standard library that carry
//! no contract of their own. What is stated of them is believed, not proved.

use vstd::prelude::*;

use serde_json::Value::{Array, Bool, Null, Number, Object};
use serde_json::{from_str, Value};
use tree_sitter::Parser;
use tree_sitter_go::language as go;
use tree_sitter_java::language as java;
use tree_sitter_javascript::language as javascript;
use tree_sitter_python::language as python;
use tree_sitter_rust::language as rust;
use tree_sitter_typescript::{language_tsx, language_typescript};

use crate::json;
use crate::json::Json;
use crate::json::Json::{Float, List, Negative, Table, Text, Unsigned};
use crate::text;

verus! {

/// Whether the regular expression `pattern` matches anywhere in `haystack`;
/// an expression that does not compile matches nothing.
pub uninterp spec fn regex_matches(pattern: Seq<char>, haystack: Seq<char>) -> bool;

/// `regex::Regex::new` followed by `Regex::is_match`: the answer depends on the
/// expression and the text alone. An expression that does not compile is
/// answered with `false`.
#[verifier::external_body]
pub(crate) fn regex_is_match(pattern: &str, haystack: &str) -> (r: bool)
    ensures
        r == regex_matches(pattern@, haystack@),
{
    match regex::Regex::new(pattern) {
        Ok(re) => re.is_match(haystack),
        Err(_) => false,
    }
}

/// What a group of the regular expression `pattern` stands for in its first
/// match in `haystack`. Nothing when the expression does not compile or does
/// not match, or when the group takes no part in the match.
pub uninterp spec fn regex_captured(
    pattern: Seq<char>,
    haystack: Seq<char>,
    group: usize,
) -> Option<Seq<char>>;

/// `regex::Regex::new`, `Regex::captures` and `Captures::get`: the answer
/// depends on the expression, the text and the group alone. An expression that
/// does not compile is answered with `None`.
#[verifier::external_body]
pub(crate) fn regex_group(pattern: &str, haystack: &str, group: usize) -> (r: Option<String>)
    ensures
        text::opt_text(r) == regex_captured(pattern@, haystack@, group),
{
    let re = regex::Regex::new(pattern).ok()?;
    re.captures(haystack)?.get(group).map(|m| m.as_str().to_string())
}

/// A text in which every match of the regular expression `pattern` is replaced
/// by what `with` makes of it.
pub uninterp spec fn regex_replaced(
    pattern: Seq<char>,
    haystack: Seq<char>,
    with: Seq<char>,
) -> Seq<char>;

/// `regex::Regex::new` and `Regex::replace_all`: the answer depends on the
/// expression, the text and the replacement alone. An expression that does not
/// compile leaves the text as it is.
#[verifier::external_body]
pub(crate) fn regex_replace_all(pattern: &str, haystack: &str, with: &str) -> (r: String)
    ensures
        r@ == regex_replaced(pattern@, haystack@, with@),
{
    match regex::Regex::new(pattern) {
        Ok(re) => re.replace_all(haystack, with).into_owned(),
        Err(_) => haystack.to_string(),
    }
}

/// `rand::random`: any number may come.
#[verifier::external_body]
pub(crate) fn random_number() -> (r: u64) {
    rand::random::<u64>()
}

/// The parts of a URL that decide where it leads.
#[derive(Debug)]
pub struct UrlParts {
    pub scheme: String,
    pub host: Option<String>,
    /// Missing also where it is the usual port of the scheme.
    pub port: Option<u16>,
    /// The URL as a whole.
    pub whole: String,
}

pub ghost struct UrlText {
    pub scheme: Seq<char>,
    pub host: Option<Seq<char>>,
    pub port: Option<u16>,
    pub whole: Seq<char>,
}

impl View for UrlParts {
    type V = UrlText;

    open spec fn view(&self) -> UrlText {
        UrlText {
            scheme: self.scheme@,
            host: text::opt_text(self.host),
            port: self.port,
            whole: self.whole@,
        }
    }
}

/// The parts of the URL that a text holds; nothing when it holds none.
pub uninterp spec fn url_of(s: Seq<char>) -> Option<UrlText>;

/// `url::Url::parse`, whose parts are handed out by `Url::scheme`,
/// `Url::host_str`, `Url::port` and `Url::as_str`: they depend on the text
/// alone.
#[verifier::external_body]
pub(crate) fn url_parse(s: &str) -> (r: Option<UrlParts>)
    ensures
        match r {
            Some(u) => url_of(s@) == Some(u@),
            None => url_of(s@) is None,
        },
{
    let u = url::Url::parse(s).ok()?;
    Some(UrlParts { scheme: u.scheme().to_string(), host: u.host_str().map(String::from), port: u.port(), whole: u.as_str().to_string() })
}

/// The lower case form of a text by Unicode's rules.
pub uninterp spec fn lower(s: Seq<char>) -> Seq<char>;

/// The lower case form of a text: by the letters of ASCII where it holds nothing
/// else, and by Unicode's rules otherwise.
pub open spec fn lowered(s: Seq<char>) -> Seq<char> {
    if text::all_ascii(s) {
        text::ascii_lower(s)
    } else {
        lower(s)
    }
}

/// `str::to_lowercase`: the lower case form depends on the text alone, and of
/// ASCII only the letters `A` to `Z` change, into `a` to `z`. Which other
/// characters it maps to which is left to Unicode's tables.
#[verifier::external_body]
pub(crate) fn to_lowercase(s: &str) -> (r: String)
    ensures
        r@ == lower(s@),
        text::all_ascii(s@) ==> r@ == text::ascii_lower(s@),
{
    s.to_lowercase()
}

/// The time that a text gives by RFC 3339, in milliseconds since 1970; nothing
/// when it gives none.
pub uninterp spec fn rfc3339_of(s: Seq<char>) -> Option<i64>;

/// `chrono::DateTime::parse_from_rfc3339`, whose result is handed out by
/// `timestamp_millis`. What comes out depends on the text alone.
#[verifier::external_body]
pub(crate) fn rfc3339_millis(s: &str) -> (r: Option<i64>)
    ensures
        r == rfc3339_of(s@),
{
    chrono::DateTime::parse_from_rfc3339(s).ok().map(|d| d.timestamp_millis())
}

/// How many columns of a terminal a text takes.
pub uninterp spec fn columns_of(s: Seq<char>) -> nat;

/// `unicode_width::UnicodeWidthStr::width`: the number of columns depends on
/// the text alone. Which characters take one column and which two is left to
/// Unicode's tables.
#[verifier::external_body]
pub(crate) fn text_columns(s: &str) -> (n: usize)
    ensures
        n == columns_of(s@),
{
    unicode_width::UnicodeWidthStr::width(s)
}

/// A text as a JSON string literal, quotes included.
pub uninterp spec fn json_quoted(s: Seq<char>) -> Seq<char>;

/// `serde_json::Value::to_string` on a string value: the literal depends on the
/// text alone. Which characters are escaped how is not stated.
#[verifier::external_body]
pub(crate) fn json_quote(s: &str) -> (r: String)
    ensures
        r@ == json_quoted(s@),
{
    Value::String(s.to_string()).to_string()
}

/// What reading a text as JSON comes to: the value that it holds, or the
/// message that says why it holds none.
pub uninterp spec fn json_reading(s: Seq<char>) -> Result<json::JsonText, Seq<char>>;

/// The JSON value that a text holds; nothing when it holds none.
pub open spec fn json_value(s: Seq<char>) -> Option<json::JsonText> {
    match json_reading(s) {
        Ok(j) => Some(j),
        Err(e) => None,
    }
}

/// Why a text holds no JSON value; nothing when it holds one.
pub open spec fn json_fault_of(s: Seq<char>) -> Option<Seq<char>> {
    match json_reading(s) {
        Ok(j) => None,
        Err(e) => Some(e),
    }
}

/// `serde_json::from_str` into a `serde_json::Value`, which is then handed out
/// one for one: a number as an integer where it is one, and otherwise as it is
/// written; what is in an array or an object in the order in which it stands
/// there, each written out and read again. Of a `serde_json::Error` the message
/// is kept. What comes out depends on the text alone.
#[verifier::external_body]
pub(crate) fn json_read(s: &str) -> (r: Result<Json, String>)
    ensures
        match r {
            Ok(j) => json_reading(s@) == Ok::<json::JsonText, Seq<char>>(j@),
            Err(e) => json_reading(s@) == Err::<json::JsonText, Seq<char>>(e@),
        },
{
    Ok(match from_str(s).map_err(|e| e.to_string())? {
        Null => Json::Null,
        Bool(b) => Json::Bool(b),
        Number(n) => n.as_u64().map(Unsigned).or(n.as_i64().map(Negative)).unwrap_or(Float(n.to_string())),
        Value::String(t) => Text(t),
        Array(v) => List(v.iter().map(|x| json_read(&x.to_string())).collect::<Result<_, _>>()?),
        Object(m) => Table(m.into_iter().map(|(k, x)| json_read(&x.to_string()).map(|j| (k, j))).collect::<Result<_, _>>()?),
    })
}

pub(crate) fn json_parse(s: &str) -> (r: Option<Json>)
    ensures
        json::opt_value(r) == json_value(s@),
{
    match json_read(s) {
        Ok(j) => Some(j),
        Err(_) => None,
    }
}

pub(crate) fn json_fault(s: &str) -> (r: Option<String>)
    ensures
        text::opt_text(r) == json_fault_of(s@),
{
    match json_read(s) {
        Ok(_) => None,
        Err(e) => Some(e),
    }
}

/// A TOML document, written out as JSON; nothing when the text is none.
pub uninterp spec fn toml_rewritten(s: Seq<char>) -> Option<Seq<char>>;

/// The value that a TOML document holds, in the terms of JSON; nothing when the
/// text is no TOML document.
pub open spec fn toml_value(s: Seq<char>) -> Option<json::JsonText> {
    match toml_rewritten(s) {
        Some(t) => json_value(t),
        None => None,
    }
}

/// `toml::from_str` into a `serde_json::Value`, which is written out as JSON.
/// What comes out depends on the text alone.
#[verifier::external_body]
pub(crate) fn toml_rewrite(s: &str) -> (r: Option<String>)
    ensures
        text::opt_text(r) == toml_rewritten(s@),
{
    toml::from_str::<Value>(s).ok().map(|v| v.to_string())
}

pub(crate) fn toml_parse(s: &str) -> (r: Option<Json>)
    ensures
        json::opt_value(r) == toml_value(s@),
{
    match toml_rewrite(s) {
        Some(t) => json_parse(&t),
        None => None,
    }
}

/// Whether a character is a letter or a number by Unicode's tables.
pub uninterp spec fn alphanumeric(c: char) -> bool;

/// Whether a character is a letter or a number: within ASCII one of `a` to `z`,
/// `A` to `Z` and the digits, and by Unicode's tables otherwise.
pub open spec fn letter_or_number(c: char) -> bool {
    if text::is_ascii(c) {
        text::ascii_alphanumeric(c)
    } else {
        alphanumeric(c)
    }
}

/// `char::is_alphanumeric`: the answer depends on the character alone, and within
/// ASCII it is yes for the letters and the digits. Which other characters are
/// letters and numbers is left to Unicode's tables.
#[verifier::external_body]
pub(crate) fn is_alphanumeric(c: char) -> (r: bool)
    ensures
        r == alphanumeric(c),
        text::is_ascii(c) ==> r == text::ascii_alphanumeric(c),
{
    c.is_alphanumeric()
}

/// The lower case form of a character.
pub uninterp spec fn char_lower(c: char) -> Seq<char>;

/// The lower case form of a character: within ASCII by the letters `A` to `Z`,
/// and by Unicode's tables otherwise.
pub open spec fn char_lowered(c: char) -> Seq<char> {
    if text::is_ascii(c) {
        seq![text::ascii_lower_char(c)]
    } else {
        char_lower(c)
    }
}

/// `char::to_lowercase`: the characters that make up the lower case form depend
/// on the character alone; of ASCII only the letters `A` to `Z` change, into `a`
/// to `z`. Which other characters change is left to Unicode's tables.
#[verifier::external_body]
pub(crate) fn char_to_lowercase(c: char) -> (r: String)
    ensures
        r@ == char_lower(c),
        text::is_ascii(c) ==> r@ == seq![text::ascii_lower_char(c)],
{
    c.to_lowercase().collect()
}

/// The SHA-256 digest of a text's bytes in lower case hexadecimal.
pub uninterp spec fn sha256_of(s: Seq<char>) -> Seq<char>;

/// `sha2::Sha256` over the bytes of the text, written with `{:x}`: the digest
/// depends on the text alone and its 32 bytes make 64 digits.
#[verifier::external_body]
pub(crate) fn sha256_hex(s: &str) -> (r: String)
    ensures
        r@ == sha256_of(s@),
        r@.len() == 64,
{
    format!("{:x}", <sha2::Sha256 as sha2::Digest>::digest(s.as_bytes()))
}

/// A node of a syntax tree, as it stands in the list of all nodes in order.
#[derive(Debug)]
pub struct SyntaxNode {
    /// How many nodes enclose this one.
    pub depth: u32,
    /// The field of its parent that the node fills.
    pub field: Option<&'static str>,
    pub kind: &'static str,
    /// The node stands for a rule of the grammar, not for a bare token.
    pub named: bool,
    pub start: usize,
    pub end: usize,
    /// The line on which the node starts, counted from zero.
    pub row: usize,
}

pub ghost struct NodeText {
    pub depth: nat,
    pub field: Option<Seq<char>>,
    pub kind: Seq<char>,
    pub named: bool,
    pub start: nat,
    pub end: nat,
    pub row: nat,
}

impl View for SyntaxNode {
    type V = NodeText;

    open spec fn view(&self) -> NodeText {
        NodeText {
            depth: self.depth as nat,
            field: match self.field {
                Some(f) => Some(f@),
                None => None,
            },
            kind: self.kind@,
            named: self.named,
            start: self.start as nat,
            end: self.end as nat,
            row: self.row as nat,
        }
    }
}

pub open spec fn node_texts(v: Seq<SyntaxNode>) -> Seq<NodeText> {
    v.map_values(|n: SyntaxNode| n@)
}

/// The nodes of the syntax tree of a source text, each before its children, by
/// the grammar with a given position. Nothing when the parser gives no tree.
pub uninterp spec fn syntax_of(grammar: usize, source: Seq<char>) -> Option<Seq<NodeText>>;

/// `tree_sitter::Parser::parse` with one of the linked grammars, in the order
/// Rust, TypeScript, TSX, JavaScript, Python, Go, Java. The nodes are handed
/// out in the order in which `TreeCursor::goto_descendant` numbers them. The
/// tree depends on the grammar and the text alone.
#[verifier::external_body]
pub(crate) fn parse_source(grammar: usize, source: &str) -> (r: Option<Vec<SyntaxNode>>)
    requires
        grammar < 7,
        text::utf8_len(source@) <= 0xffff_ffff,
    ensures
        match r {
            Some(v) => syntax_of(grammar, source@) == Some(node_texts(v@)),
            None => syntax_of(grammar, source@) is None,
        },
{
    let grammars = [rust(), language_typescript(), language_tsx(), javascript(), python(), go(), java()];
    let mut parser = Parser::new();
    parser.set_language(&grammars[grammar]).ok()?;
    let tree = parser.parse(source.as_bytes(), None)?;
    let mut at = tree.walk();
    let nodes = (0..tree.root_node().descendant_count()).map(|i| {
        at.goto_descendant(i);
        let n = at.node();
        SyntaxNode { depth: at.depth(), field: at.field_name(), kind: n.kind(), named: n.is_named(), start: n.start_byte(), end: n.end_byte(), row: n.start_position().row }
    });
    Some(nodes.collect())
}

} // verus!
