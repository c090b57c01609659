//! The code graph: symbols and calls of a repository, and questions to them.

use vstd::prelude::*;

use crate::text;

pub mod indexer;
pub mod language;
pub mod query;

verus! {

/// Files larger than this are left out, so that parsing stays quick.
pub const MAX_FILE_BYTES: u64 = 1_048_576;

/// Once this many files are indexed, the rest of a repository is left out.
pub const MAX_FILES_PER_REPO: usize = 5_000;

/// Where the database lies under the root of a repository.
pub const DEFAULT_DB_REL: &'static str = ".itsy/codegraph.db";

/// What is known of an indexed repository.
#[derive(Debug)]
pub struct RepoSummary {
    pub name: String,
    pub path: String,
    pub file_count: u32,
    pub symbol_count: u32,
    pub languages: Vec<String>,
}

/// A symbol that answers a search.
#[derive(Debug)]
pub struct SymbolHit {
    pub name: String,
    pub kind: String,
    pub file: String,
    pub line: u32,
    pub signature: Option<String>,
    pub snippet: Option<String>,
    pub repo: String,
}

/// A symbol with those that call it and those that it calls.
#[derive(Debug)]
pub struct SymbolExplanation {
    pub name: String,
    pub kind: String,
    pub file: String,
    pub line: u32,
    pub signature: Option<String>,
    pub callers: Vec<SymbolHit>,
    pub callees: Vec<SymbolHit>,
    pub snippet: Option<String>,
}

pub ghost struct RepoText {
    pub name: Seq<char>,
    pub path: Seq<char>,
    pub file_count: u32,
    pub symbol_count: u32,
    pub languages: Seq<Seq<char>>,
}

pub ghost struct HitText {
    pub name: Seq<char>,
    pub kind: Seq<char>,
    pub file: Seq<char>,
    pub line: u32,
    pub signature: Option<Seq<char>>,
    pub snippet: Option<Seq<char>>,
    pub repo: Seq<char>,
}

pub ghost struct ExplanationText {
    pub name: Seq<char>,
    pub kind: Seq<char>,
    pub file: Seq<char>,
    pub line: u32,
    pub signature: Option<Seq<char>>,
    pub callers: Seq<HitText>,
    pub callees: Seq<HitText>,
    pub snippet: Option<Seq<char>>,
}

impl View for RepoSummary {
    type V = RepoText;

    open spec fn view(&self) -> RepoText {
        RepoText {
            name: self.name@,
            path: self.path@,
            file_count: self.file_count,
            symbol_count: self.symbol_count,
            languages: text::texts(self.languages@),
        }
    }
}

impl View for SymbolHit {
    type V = HitText;

    open spec fn view(&self) -> HitText {
        HitText {
            name: self.name@,
            kind: self.kind@,
            file: self.file@,
            line: self.line,
            signature: text::opt_text(self.signature),
            snippet: text::opt_text(self.snippet),
            repo: self.repo@,
        }
    }
}

pub open spec fn hit_texts(v: Seq<SymbolHit>) -> Seq<HitText> {
    v.map_values(|h: SymbolHit| h@)
}

impl View for SymbolExplanation {
    type V = ExplanationText;

    open spec fn view(&self) -> ExplanationText {
        ExplanationText {
            name: self.name@,
            kind: self.kind@,
            file: self.file@,
            line: self.line,
            signature: text::opt_text(self.signature),
            callers: hit_texts(self.callers@),
            callees: hit_texts(self.callees@),
            snippet: text::opt_text(self.snippet),
        }
    }
}

} // verus!
