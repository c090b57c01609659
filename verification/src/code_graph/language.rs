//! The languages of the code graph: by file extension, and which parts of
//! their syntax trees are symbols and calls.

use vstd::prelude::*;

use crate::text;

verus! {

#[derive(Debug, Clone, Copy, PartialEq, Eq, Structural)]
pub enum Lang {
    Rust,
    TypeScript,
    Tsx,
    JavaScript,
    Python,
    Go,
    Java,
}

/// The language of files with an extension in lower case.
pub open spec fn by_extension(ext: Seq<char>) -> Option<Lang> {
    if ext == "rs"@ {
        Some(Lang::Rust)
    } else if ext == "ts"@ {
        Some(Lang::TypeScript)
    } else if ext == "tsx"@ {
        Some(Lang::Tsx)
    } else if ext == "js"@ || ext == "jsx"@ || ext == "mjs"@ || ext == "cjs"@ {
        Some(Lang::JavaScript)
    } else if ext == "py"@ || ext == "pyi"@ {
        Some(Lang::Python)
    } else if ext == "go"@ {
        Some(Lang::Go)
    } else if ext == "java"@ {
        Some(Lang::Java)
    } else {
        None
    }
}

/// The last part of a path between slashes that is neither empty nor a single
/// dot.
pub open spec fn last_part(parts: Seq<Seq<char>>) -> Option<Seq<char>>
    decreases parts.len(),
{
    if parts.len() == 0 {
        None
    } else if parts.last().len() == 0 || parts.last() == "."@ {
        last_part(parts.drop_last())
    } else {
        Some(parts.last())
    }
}

/// The name of the file that a path leads to; a path that ends in two dots
/// leads to none.
pub open spec fn file_name(path: Seq<char>) -> Option<Seq<char>> {
    match last_part(text::split(path, '/')) {
        Some(n) => if n == ".."@ {
            None
        } else {
            Some(n)
        },
        None => None,
    }
}

/// What follows the last dot of a file name that has a dot after its first
/// character.
pub open spec fn extension_of_name(name: Seq<char>) -> Option<Seq<char>> {
    let parts = text::split(name, '.');
    if parts.len() == 1 || (parts.len() == 2 && parts[0].len() == 0) {
        None
    } else {
        Some(parts.last())
    }
}

/// The extension of the file that a path leads to.
pub open spec fn extension(path: Seq<char>) -> Option<Seq<char>> {
    match file_name(path) {
        Some(n) => extension_of_name(n),
        None => None,
    }
}

/// The extension of the file that a path with forward slashes leads to.
pub fn path_extension(path: &str) -> (r: Option<String>)
    ensures
        text::opt_text(r) == extension(path@),
{
    let parts = text::split_char(path, '/');
    let ghost all = text::texts(parts@);
    let mut n: usize = parts.len();
    assert(all.take(n as int) =~= all);
    while n > 0 && (parts[n - 1].as_str().is_empty() || text::same(&parts[n - 1], "."))
        invariant
            n <= parts.len(),
            all == text::texts(parts@),
            last_part(all) == last_part(all.take(n as int)),
        decreases n,
    {
        assert(all.take(n as int).drop_last() =~= all.take(n - 1));
        assert(all.take(n as int).last() == parts@[n - 1]@);
        n = n - 1;
    }
    if n == 0 {
        return None;
    }
    assert(all.take(n as int).last() == parts@[n - 1]@);
    let name = &parts[n - 1];
    if text::same(name, "..") {
        return None;
    }
    let pieces = text::split_char(name, '.');
    let ghost ps = text::texts(pieces@);
    assert(ps.len() == pieces@.len());
    assert(ps[0] == pieces@[0]@);
    if pieces.len() == 1 || (pieces.len() == 2 && pieces[0].as_str().is_empty()) {
        return None;
    }
    assert(ps.last() == pieces@[pieces@.len() - 1]@);
    Some(pieces[pieces.len() - 1].clone())
}

/// Pairs of a kind of syntax node and the kind of symbol that it declares.
pub open spec fn kind_texts(v: Seq<(&'static str, &'static str)>) -> Seq<(Seq<char>, Seq<char>)> {
    v.map_values(|p: (&'static str, &'static str)| (p.0@, p.1@))
}

pub open spec fn str_texts(v: Seq<&'static str>) -> Seq<Seq<char>> {
    v.map_values(|s: &'static str| s@)
}

impl Lang {
    /// The language of files with an extension in any case.
    pub fn from_extension(ext: &str) -> (r: Option<Lang>)
        ensures
            r == by_extension(text::ascii_lower(ext@)),
    {
        let e = text::to_ascii_lowercase(ext);
        if text::same(&e, "rs") {
            Some(Lang::Rust)
        } else if text::same(&e, "ts") {
            Some(Lang::TypeScript)
        } else if text::same(&e, "tsx") {
            Some(Lang::Tsx)
        } else if text::same(&e, "js") || text::same(&e, "jsx") || text::same(&e, "mjs")
            || text::same(&e, "cjs") {
            Some(Lang::JavaScript)
        } else if text::same(&e, "py") || text::same(&e, "pyi") {
            Some(Lang::Python)
        } else if text::same(&e, "go") {
            Some(Lang::Go)
        } else if text::same(&e, "java") {
            Some(Lang::Java)
        } else {
            None
        }
    }

    /// The language of the file that a path leads to.
    pub open spec fn of_path(path: Seq<char>) -> Option<Lang> {
        match extension(path) {
            Some(e) => by_extension(text::ascii_lower(e)),
            None => None,
        }
    }

    pub fn from_path(path: &str) -> (r: Option<Lang>)
        ensures
            r == Lang::of_path(path@),
    {
        match path_extension(path) {
            Some(e) => Lang::from_extension(&e),
            None => None,
        }
    }

    pub open spec fn name_text(self) -> Seq<char> {
        match self {
            Lang::Rust => "rust"@,
            Lang::TypeScript => "typescript"@,
            Lang::Tsx => "tsx"@,
            Lang::JavaScript => "javascript"@,
            Lang::Python => "python"@,
            Lang::Go => "go"@,
            Lang::Java => "java"@,
        }
    }

    pub fn name(self) -> (r: &'static str)
        ensures
            r@ == self.name_text(),
    {
        match self {
            Lang::Rust => "rust",
            Lang::TypeScript => "typescript",
            Lang::Tsx => "tsx",
            Lang::JavaScript => "javascript",
            Lang::Python => "python",
            Lang::Go => "go",
            Lang::Java => "java",
        }
    }

    /// The position of the language's grammar among those that are linked in.
    pub open spec fn grammar_index(self) -> usize {
        match self {
            Lang::Rust => 0,
            Lang::TypeScript => 1,
            Lang::Tsx => 2,
            Lang::JavaScript => 3,
            Lang::Python => 4,
            Lang::Go => 5,
            Lang::Java => 6,
        }
    }

    pub fn grammar(self) -> (r: usize)
        ensures
            r == self.grammar_index(),
            r < 7,
    {
        match self {
            Lang::Rust => 0,
            Lang::TypeScript => 1,
            Lang::Tsx => 2,
            Lang::JavaScript => 3,
            Lang::Python => 4,
            Lang::Go => 5,
            Lang::Java => 6,
        }
    }

    /// The kinds of syntax node that declare a symbol, each with the kind of
    /// symbol.
    pub open spec fn declarations(self) -> Seq<(Seq<char>, Seq<char>)> {
        match self {
            Lang::Rust => seq![
                ("function_item"@, "function"@),
                ("struct_item"@, "struct"@),
                ("enum_item"@, "enum"@),
                ("impl_item"@, "impl"@),
                ("trait_item"@, "trait"@),
                ("const_item"@, "const"@),
                ("type_item"@, "type"@),
                ("mod_item"@, "module"@),
            ],
            Lang::TypeScript | Lang::Tsx => seq![
                ("function_declaration"@, "function"@),
                ("class_declaration"@, "class"@),
                ("method_definition"@, "method"@),
                ("interface_declaration"@, "interface"@),
                ("type_alias_declaration"@, "type"@),
                ("variable_declarator"@, "const"@),
                ("abstract_class_declaration"@, "class"@),
                ("enum_declaration"@, "enum"@),
            ],
            Lang::JavaScript => seq![
                ("function_declaration"@, "function"@),
                ("class_declaration"@, "class"@),
                ("method_definition"@, "method"@),
                ("variable_declarator"@, "const"@),
            ],
            Lang::Python => seq![
                ("function_definition"@, "function"@),
                ("class_definition"@, "class"@),
            ],
            Lang::Go => seq![
                ("function_declaration"@, "function"@),
                ("method_declaration"@, "method"@),
                ("type_spec"@, "type"@),
            ],
            Lang::Java => seq![
                ("class_declaration"@, "class"@),
                ("method_declaration"@, "method"@),
                ("interface_declaration"@, "interface"@),
                ("enum_declaration"@, "enum"@),
            ],
        }
    }

    pub fn symbol_kinds(self) -> (r: Vec<(&'static str, &'static str)>)
        ensures
            kind_texts(r@) == self.declarations(),
    {
        let r: Vec<(&'static str, &'static str)> = match self {
            Lang::Rust => vec![
                ("function_item", "function"),
                ("struct_item", "struct"),
                ("enum_item", "enum"),
                ("impl_item", "impl"),
                ("trait_item", "trait"),
                ("const_item", "const"),
                ("type_item", "type"),
                ("mod_item", "module"),
            ],
            Lang::TypeScript | Lang::Tsx => vec![
                ("function_declaration", "function"),
                ("class_declaration", "class"),
                ("method_definition", "method"),
                ("interface_declaration", "interface"),
                ("type_alias_declaration", "type"),
                ("variable_declarator", "const"),
                ("abstract_class_declaration", "class"),
                ("enum_declaration", "enum"),
            ],
            Lang::JavaScript => vec![
                ("function_declaration", "function"),
                ("class_declaration", "class"),
                ("method_definition", "method"),
                ("variable_declarator", "const"),
            ],
            Lang::Python => vec![
                ("function_definition", "function"),
                ("class_definition", "class"),
            ],
            Lang::Go => vec![
                ("function_declaration", "function"),
                ("method_declaration", "method"),
                ("type_spec", "type"),
            ],
            Lang::Java => vec![
                ("class_declaration", "class"),
                ("method_declaration", "method"),
                ("interface_declaration", "interface"),
                ("enum_declaration", "enum"),
            ],
        };
        assert(kind_texts(r@) =~= self.declarations());
        r
    }

    /// The kinds of syntax node that are calls.
    pub open spec fn invocations(self) -> Seq<Seq<char>> {
        match self {
            Lang::Rust => seq!["call_expression"@, "macro_invocation"@],
            Lang::TypeScript | Lang::Tsx | Lang::JavaScript => seq!["call_expression"@],
            Lang::Python => seq!["call"@],
            Lang::Go => seq!["call_expression"@],
            Lang::Java => seq!["method_invocation"@],
        }
    }

    pub fn call_kinds(self) -> (r: Vec<&'static str>)
        ensures
            str_texts(r@) == self.invocations(),
    {
        let r: Vec<&'static str> = match self {
            Lang::Rust => vec!["call_expression", "macro_invocation"],
            Lang::TypeScript | Lang::Tsx | Lang::JavaScript => vec!["call_expression"],
            Lang::Python => vec!["call"],
            Lang::Go => vec!["call_expression"],
            Lang::Java => vec!["method_invocation"],
        };
        assert(str_texts(r@) =~= self.invocations());
        r
    }
}

/// Which language a file is in is told by its extension, in whatever case its
/// letters are.
pub proof fn law_languages_by_extension(ext: Seq<char>)
    ensures
        by_extension("rs"@) == Some(Lang::Rust),
        by_extension("ts"@) == Some(Lang::TypeScript),
        by_extension("tsx"@) == Some(Lang::Tsx),
        by_extension("js"@) == Some(Lang::JavaScript),
        by_extension("jsx"@) == Some(Lang::JavaScript),
        by_extension("mjs"@) == Some(Lang::JavaScript),
        by_extension("cjs"@) == Some(Lang::JavaScript),
        by_extension("py"@) == Some(Lang::Python),
        by_extension("pyi"@) == Some(Lang::Python),
        by_extension("go"@) == Some(Lang::Go),
        by_extension("java"@) == Some(Lang::Java),
        by_extension(ext) is Some ==> ext.len() <= 4,
        ext.len() <= 1 ==> by_extension(ext) is None,
{
    reveal_strlit("rs");
    reveal_strlit("ts");
    reveal_strlit("tsx");
    reveal_strlit("js");
    reveal_strlit("jsx");
    reveal_strlit("mjs");
    reveal_strlit("cjs");
    reveal_strlit("py");
    reveal_strlit("pyi");
    reveal_strlit("go");
    reveal_strlit("java");
    assert("rs"@.len() == 2 && "ts"@.len() == 2 && "js"@.len() == 2 && "py"@.len() == 2
        && "go"@.len() == 2);
    assert("tsx"@.len() == 3 && "jsx"@.len() == 3 && "mjs"@.len() == 3 && "cjs"@.len() == 3
        && "pyi"@.len() == 3 && "java"@.len() == 4);
    assert("rs"@[0] == 'r' && "ts"@[0] == 't' && "js"@[0] == 'j' && "py"@[0] == 'p' && "go"@[0]
        == 'g');
    assert("tsx"@[0] == 't' && "jsx"@[0] == 'j' && "mjs"@[0] == 'm' && "cjs"@[0] == 'c' && "pyi"@[0]
        == 'p');
}

/// The extension of a file is what stands behind the last dot of its name, when
/// the name has a dot behind its first character; the directories before it make
/// no difference.
pub proof fn law_extension(dir: Seq<char>, stem: Seq<char>, ext: Seq<char>)
    requires
        stem.len() > 0,
        !stem.contains('/') && !ext.contains('/') && !ext.contains('.'),
        stem + seq!['.'] + ext != ".."@,
    ensures
        extension(stem + seq!['.'] + ext) == Some(ext),
        extension(dir + seq!['/'] + stem + seq!['.'] + ext) == Some(ext),
        !stem.contains('.') ==> extension(stem) is None,
{
    let name = stem + seq!['.'] + ext;
    reveal_strlit("..");
    reveal_strlit(".");
    assert(name =~= stem.push('.') + ext);
    text::law_split_at(stem, '.', ext);
    text::law_split_at(ext, '.', Seq::empty());
    text::law_split(stem, '.');
    let parts = text::split(name, '.');
    assert(parts.last() == ext);
    if parts.len() == 2 {
        assert(text::split(stem, '.').len() == 1);
        assert(text::split(stem, '.') =~= seq![text::split(stem, '.')[0]]);
        assert(text::join(text::split(stem, '.'), seq!['.']) == stem);
    }
    assert(extension_of_name(name) == Some(ext));
    assert(!name.contains('/')) by {
        if name.contains('/') {
            let k = choose|k: int| 0 <= k < name.len() && name[k] == '/';
            if k < stem.len() {
                assert(stem[k] == '/');
            } else if k > stem.len() {
                assert(ext[k - stem.len() - 1] == '/');
            }
        }
    }
    text::law_split_at(name, '/', Seq::empty());
    assert(seq![name].drop_last() =~= Seq::<Seq<char>>::empty());
    assert(last_part(seq![name]) == Some(name));
    let path = dir + seq!['/'] + stem + seq!['.'] + ext;
    assert(path =~= dir.push('/') + name);
    text::law_split_at(dir, '/', name);
    assert(text::split(path, '/').last() == name);
    assert(last_part(text::split(path, '/')) == Some(name));
    if !stem.contains('.') {
        text::law_split_at(stem, '.', Seq::empty());
        text::law_split_at(stem, '/', Seq::empty());
        assert(seq![stem].drop_last() =~= Seq::<Seq<char>>::empty());
        if stem == ".."@ {
            assert(stem[0] == '.');
        }
        if stem == "."@ {
            assert(stem[0] == '.');
        }
        assert(last_part(seq![stem]) == Some(stem));
    }
}

/// What counts as a declaration and as a call, for each language.
pub proof fn law_what_is_indexed()
    ensures
        Lang::Rust.declarations().len() == 8,
        Lang::Rust.declarations()[0] == ("function_item"@, "function"@),
        Lang::Rust.declarations()[1] == ("struct_item"@, "struct"@),
        Lang::Rust.declarations()[2] == ("enum_item"@, "enum"@),
        Lang::Rust.declarations()[3] == ("impl_item"@, "impl"@),
        Lang::Rust.declarations()[4] == ("trait_item"@, "trait"@),
        Lang::Rust.declarations()[5] == ("const_item"@, "const"@),
        Lang::Rust.declarations()[6] == ("type_item"@, "type"@),
        Lang::Rust.declarations()[7] == ("mod_item"@, "module"@),
        Lang::TypeScript.declarations().len() == 8,
        Lang::TypeScript.declarations()[0] == ("function_declaration"@, "function"@),
        Lang::TypeScript.declarations()[1] == ("class_declaration"@, "class"@),
        Lang::TypeScript.declarations()[2] == ("method_definition"@, "method"@),
        Lang::TypeScript.declarations()[3] == ("interface_declaration"@, "interface"@),
        Lang::TypeScript.declarations()[4] == ("type_alias_declaration"@, "type"@),
        Lang::TypeScript.declarations()[5] == ("variable_declarator"@, "const"@),
        Lang::TypeScript.declarations()[6] == ("abstract_class_declaration"@, "class"@),
        Lang::TypeScript.declarations()[7] == ("enum_declaration"@, "enum"@),
        Lang::Tsx.declarations() == Lang::TypeScript.declarations(),
        Lang::JavaScript.declarations().len() == 4,
        Lang::JavaScript.declarations()[0] == ("function_declaration"@, "function"@),
        Lang::JavaScript.declarations()[1] == ("class_declaration"@, "class"@),
        Lang::JavaScript.declarations()[2] == ("method_definition"@, "method"@),
        Lang::JavaScript.declarations()[3] == ("variable_declarator"@, "const"@),
        Lang::Python.declarations().len() == 2,
        Lang::Python.declarations()[0] == ("function_definition"@, "function"@),
        Lang::Python.declarations()[1] == ("class_definition"@, "class"@),
        Lang::Go.declarations().len() == 3,
        Lang::Go.declarations()[0] == ("function_declaration"@, "function"@),
        Lang::Go.declarations()[1] == ("method_declaration"@, "method"@),
        Lang::Go.declarations()[2] == ("type_spec"@, "type"@),
        Lang::Java.declarations().len() == 4,
        Lang::Java.declarations()[0] == ("class_declaration"@, "class"@),
        Lang::Java.declarations()[1] == ("method_declaration"@, "method"@),
        Lang::Java.declarations()[2] == ("interface_declaration"@, "interface"@),
        Lang::Java.declarations()[3] == ("enum_declaration"@, "enum"@),
        forall|k: Seq<char>| #[trigger]
            Lang::Rust.invocations().contains(k) <==> k == "call_expression"@ || k
                == "macro_invocation"@,
        forall|k: Seq<char>| #[trigger]
            Lang::TypeScript.invocations().contains(k) <==> k == "call_expression"@,
        forall|k: Seq<char>| #[trigger]
            Lang::Tsx.invocations().contains(k) <==> k == "call_expression"@,
        forall|k: Seq<char>| #[trigger]
            Lang::JavaScript.invocations().contains(k) <==> k == "call_expression"@,
        forall|k: Seq<char>| #[trigger] Lang::Python.invocations().contains(k) <==> k == "call"@,
        forall|k: Seq<char>| #[trigger]
            Lang::Go.invocations().contains(k) <==> k == "call_expression"@,
        forall|k: Seq<char>| #[trigger]
            Lang::Java.invocations().contains(k) <==> k == "method_invocation"@,
{
    assert(Lang::Rust.invocations()[0] == "call_expression"@ && Lang::Rust.invocations()[1]
        == "macro_invocation"@);
    assert(Lang::TypeScript.invocations()[0] == "call_expression"@);
    assert(Lang::Tsx.invocations()[0] == "call_expression"@);
    assert(Lang::JavaScript.invocations()[0] == "call_expression"@);
    assert(Lang::Python.invocations()[0] == "call"@);
    assert(Lang::Go.invocations()[0] == "call_expression"@);
    assert(Lang::Java.invocations()[0] == "method_invocation"@);
}

/// The grammars stand in the order in which they are linked in, each at its own
/// place, and each language is named by its own name.
pub proof fn law_grammars_are_apart(a: Lang, b: Lang)
    ensures
        a.grammar_index() < 7,
        a != b ==> a.grammar_index() != b.grammar_index(),
        Lang::Rust.grammar_index() < Lang::TypeScript.grammar_index()
            < Lang::Tsx.grammar_index() < Lang::JavaScript.grammar_index()
            < Lang::Python.grammar_index() < Lang::Go.grammar_index() < Lang::Java.grammar_index(),
        a != b ==> a.name_text() != b.name_text(),
{
    reveal_strlit("rust");
    reveal_strlit("typescript");
    reveal_strlit("tsx");
    reveal_strlit("javascript");
    reveal_strlit("python");
    reveal_strlit("go");
    reveal_strlit("java");
    assert("rust"@.len() == 4 && "java"@.len() == 4 && "typescript"@.len() == 10
        && "javascript"@.len() == 10 && "tsx"@.len() == 3 && "python"@.len() == 6 && "go"@.len() == 2);
    assert("rust"@[0] == 'r' && "java"@[0] == 'j' && "typescript"@[0] == 't' && "javascript"@[0]
        == 'j');
}

} // verus!
