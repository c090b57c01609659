//! Talking to an endpoint: keys, headers, and whether the model is there.

use vstd::prelude::*;

use crate::config::{Config, ModelConfig};
use crate::json;
use crate::json::Json;
use crate::text;

verus! {

/// The keys that the environment holds, set or not.
#[derive(Debug)]
pub struct EnvKeys {
    pub openai: Option<String>,
    pub anthropic: Option<String>,
    pub deepseek: Option<String>,
}

/// A variable of the environment counts only when it holds something.
pub open spec fn present(o: Option<Seq<char>>) -> Option<Seq<char>> {
    match o {
        Some(s) => if s.len() > 0 {
            Some(s)
        } else {
            None
        },
        None => None,
    }
}

/// A variable of the environment counts only when it holds something.
pub fn env_str(value: &Option<String>) -> (r: Option<String>)
    ensures
        text::opt_text(r) == present(text::opt_text(*value)),
{
    match value {
        Some(s) => if s.as_str().is_empty() {
            None
        } else {
            Some(s.clone())
        },
        None => None,
    }
}

/// The first key that the environment holds.
pub open spec fn env_key(keys: EnvKeys) -> Option<Seq<char>> {
    let a = present(text::opt_text(keys.openai));
    let b = present(text::opt_text(keys.anthropic));
    if a is Some {
        a
    } else if b is Some {
        b
    } else {
        present(text::opt_text(keys.deepseek))
    }
}

/// The key that is used: one of the environment comes before that of the
/// settings.
pub open spec fn used_key(keys: EnvKeys, own: Option<Seq<char>>) -> Option<Seq<char>> {
    match env_key(keys) {
        Some(k) => Some(k),
        None => own,
    }
}

/// The first key that the environment holds.
pub fn find_env_key(keys: &EnvKeys) -> (r: Option<String>)
    ensures
        text::opt_text(r) == env_key(*keys),
{
    match env_str(&keys.openai) {
        Some(k) => Some(k),
        None => match env_str(&keys.anthropic) {
            Some(k) => Some(k),
            None => env_str(&keys.deepseek),
        },
    }
}

/// The key that is used, if any.
pub fn resolve_api_key(keys: &EnvKeys, own: &Option<String>) -> (r: Option<String>)
    ensures
        text::opt_text(r) == used_key(*keys, text::opt_text(*own)),
{
    match find_env_key(keys) {
        Some(k) => Some(k),
        None => match own {
            Some(k) => Some(k.clone()),
            None => None,
        },
    }
}

/// Whether a text can stand in a header: it holds no control character but the
/// tab.
pub open spec fn fits_header(s: Seq<char>) -> bool {
    forall|i: int|
        0 <= i < s.len() ==> {
            let n = (#[trigger] s[i]) as u32;
            n >= 32 && n != 127 || n == 9
        }
}

/// Whether a text can stand in a header.
pub fn check_header(s: &str) -> (r: bool)
    ensures
        r == fits_header(s@),
{
    let v = text::chars(s);
    let mut i: usize = 0;
    while i < v.len()
        invariant
            i <= v.len(),
            v@ == s@,
            forall|k: int|
                0 <= k < i ==> {
                    let n = (#[trigger] s@[k]) as u32;
                    n >= 32 && n != 127 || n == 9
                },
        decreases v.len() - i,
    {
        let n: u32 = v[i] as u32;
        assert(n == s@[i as int] as u32);
        if !(n >= 32 && n != 127 || n == 9) {
            return false;
        }
        i = i + 1;
    }
    true
}

/// The headers of a request. A key that cannot stand in a header is left out.
pub open spec fn headers(key: Option<Seq<char>>, base_url: Seq<char>) -> Seq<
    (Seq<char>, Seq<char>),
> {
    seq![("content-type"@, "application/json"@)] + (match key {
        Some(k) => if fits_header("Bearer "@ + k) {
            seq![("authorization"@, "Bearer "@ + k)]
        } else {
            Seq::empty()
        },
        None => Seq::empty(),
    }) + (if text::has(base_url, "openrouter.ai"@) {
        seq![("X-Title"@, "itsy"@)]
    } else {
        Seq::empty()
    })
}

/// The headers of a request to an address with a key of its own, if any.
pub fn build_auth_headers_for(keys: &EnvKeys, own: &Option<String>, base_url: &str) -> (r: Vec<
    (String, String),
>)
    ensures
        text::pairs(r@) == headers(used_key(*keys, text::opt_text(*own)), base_url@),
{
    let mut r = vec![("content-type".to_owned(), "application/json".to_owned())];
    let key = resolve_api_key(keys, own);
    match &key {
        Some(k) => {
            let value = text::cat2("Bearer ", k);
            if check_header(&value) {
                r.push(("authorization".to_owned(), value));
            }
        },
        None => {},
    }
    if text::contains(base_url, "openrouter.ai") {
        r.push(("X-Title".to_owned(), "itsy".to_owned()));
    }
    assert(text::pairs(r@) =~= headers(used_key(*keys, text::opt_text(*own)), base_url@));
    r
}

/// The headers of a request to the model.
pub fn build_auth_headers(keys: &EnvKeys, model: &ModelConfig) -> (r: Vec<(String, String)>)
    ensures
        text::pairs(r@) == headers(
            used_key(*keys, text::opt_text(model.api_key)),
            model.base_url@,
        ),
{
    build_auth_headers_for(keys, &model.api_key, &model.base_url)
}

// ---------------------------------------------------------------------------
// Whether the model is there
// ---------------------------------------------------------------------------

pub const OLLAMA_URL: &'static str = "http://localhost:11434";

/// Where an Ollama server is looked for.
pub open spec fn ollama_host(host: Option<Seq<char>>) -> Seq<char> {
    match present(host) {
        Some(h) => h,
        None => OLLAMA_URL@,
    }
}

/// Where the model is looked for.
pub open spec fn probed_url(base_url: Seq<char>, host: Option<Seq<char>>) -> Seq<char> {
    if base_url.len() > 0 {
        base_url
    } else {
        ollama_host(host)
    }
}

/// How an endpoint is asked for its models.
#[derive(Debug)]
pub enum Probe {
    /// By the list of an endpoint that speaks like OpenAI's, whose address is
    /// shown as `base`.
    Models { url: String, base: String },
    /// By the list of an Ollama server.
    Ollama { url: String },
}

/// How an endpoint is asked for its models.
pub fn plan_probe(provider: &str, base_url: &str, host: &Option<String>) -> (r: Probe)
    ensures
        ({
            let base = probed_url(base_url@, text::opt_text(*host));
            if provider@ == "openai"@ || text::has(base, "/v1"@) {
                r matches Probe::Models { url, base: b } && url@ == base + "/models"@ && b@ == base
            } else {
                r matches Probe::Ollama { url } && url@ == ollama_host(text::opt_text(*host))
                    + "/api/tags"@
            }
        }),
{
    let ollama = match env_str(host) {
        Some(h) => h,
        None => OLLAMA_URL.to_owned(),
    };
    let base = if !base_url.is_empty() {
        base_url.to_owned()
    } else {
        ollama.clone()
    };
    if text::same(provider, "openai") || text::contains(&base, "/v1") {
        let url = text::cat2(&base, "/models");
        Probe::Models { url, base }
    } else {
        Probe::Ollama { url: text::cat2(&ollama, "/api/tags") }
    }
}

/// Whether an entry of a list of models is the one that is wanted.
pub open spec fn is_wanted(m: json::JsonText, want: Seq<char>) -> bool {
    text::has(m.member_text_or("id"@, ""@), want) || text::has(
        m.member_text_or("name"@, ""@),
        want,
    )
}

/// The first entry that is wanted, from the `i`th on.
pub open spec fn wanted_from(v: Seq<json::JsonText>, want: Seq<char>, i: int) -> Option<int>
    decreases v.len() - i,
{
    if i < 0 || i >= v.len() {
        None
    } else if is_wanted(v[i], want) {
        Some(i)
    } else {
        wanted_from(v, want, i + 1)
    }
}

/// The context window that a list of models tells of: that of the model that
/// is wanted, or of the first one.
pub open spec fn window_in(v: Seq<json::JsonText>, want: Seq<char>) -> Option<u64> {
    if v.len() == 0 {
        None
    } else {
        let i = match wanted_from(v, want, 0) {
            Some(i) => i,
            None => 0,
        };
        v[i].member_unsigned("context_length"@)
    }
}

/// The models in an answer.
pub open spec fn models_in(j: json::JsonText) -> Seq<json::JsonText> {
    match j.member_items("data"@) {
        Some(v) => v,
        None => Seq::empty(),
    }
}

/// The context window that a list of models tells of.
pub fn find_window(v: &Vec<Json>, want: &str) -> (r: Option<u64>)
    ensures
        r == window_in(json::values(v@), want@),
{
    let ghost all = json::values(v@);
    assert(all.len() == v@.len());
    if v.len() == 0 {
        return None;
    }
    let mut i: usize = 0;
    while i < v.len()
        invariant
            i <= v.len(),
            v.len() > 0,
            all == json::values(v@),
            all.len() == v@.len(),
            wanted_from(all, want@, 0) == wanted_from(all, want@, i as int),
        decreases v.len() - i,
    {
        assert(all[i as int] == v@[i as int]@);
        let id = v[i].get_str_or("id", "");
        let name = v[i].get_str_or("name", "");
        if text::contains(&id, want) || text::contains(&name, want) {
            return v[i].get_u64("context_length");
        }
        i = i + 1;
    }
    assert(all[0] == v@[0]@);
    v[0].get_u64("context_length")
}

/// What an answer with a list of models brings.
#[derive(Debug)]
pub struct Connected {
    /// What the user is told.
    pub lines: Vec<String>,
    /// The context window, when the answer tells of one.
    pub window: Option<u64>,
}

/// What the user is told when models were found.
pub open spec fn connected_lines(
    base: Seq<char>,
    name: Seq<char>,
    window: Option<u64>,
) -> Seq<Seq<char>> {
    let start = seq!["  Connected: "@ + base, "  Model: "@ + name];
    match window {
        Some(n) => start.push("  Context: "@ + text::decimal(n as nat) + " tokens"@),
        None => start,
    }
}

/// What an answer with a list of models brings; nothing is told of an empty
/// list.
pub fn connect(base: &str, name: &str, answer: &Json) -> (r: Connected)
    ensures
        ({
            let v = models_in(answer@);
            let w = window_in(v, name@);
            &&& r.window == w
            &&& text::texts(r.lines@) == (if v.len() == 0 {
                Seq::empty()
            } else {
                connected_lines(base@, name@, w)
            })
        }),
{
    match answer.get_array("data") {
        Some(v) => {
            assert(json::values(v@).len() == v@.len());
            if v.len() == 0 {
                let lines: Vec<String> = Vec::new();
                assert(text::texts(lines@) =~= Seq::<Seq<char>>::empty());
                return Connected { lines, window: None };
            }
            let window = find_window(v, name);
            let mut lines = vec![text::cat2("  Connected: ", base), text::cat2("  Model: ", name)];
            match window {
                Some(n) => {
                    let k = text::number(n);
                    lines.push(text::cat3("  Context: ", &k, " tokens"));
                },
                None => {},
            }
            assert(text::texts(lines@) =~= connected_lines(base@, name@, window));
            Connected { lines, window }
        },
        None => {
            let lines: Vec<String> = Vec::new();
            assert(text::texts(lines@) =~= Seq::<Seq<char>>::empty());
            Connected { lines, window: None }
        },
    }
}

/// Takes over the context window that an endpoint tells of, in thirty-two bits.
pub fn take_window(config: &mut Config, window: Option<u64>)
    ensures
        match window {
            Some(n) => final(config).context.detected_window == n % 0x1_0000_0000,
            None => final(config).context.detected_window == old(config).context.detected_window,
        },
        *final(config) == (Config {
            context: (crate::config::ContextConfig {
                detected_window: final(config).context.detected_window,
                ..old(config).context
            }),
            ..*old(config)
        }),
{
    match window {
        Some(n) => {
            config.context.detected_window = (n % 0x1_0000_0000) as u32;
        },
        None => {},
    }
}

/// What the user is told when an endpoint cannot be reached, or answers with a
/// status.
pub open spec fn unreachable_lines(base: Seq<char>, status: Option<u16>) -> Seq<Seq<char>> {
    let start = "  ⚠ Cannot reach endpoint at "@ + base;
    match status {
        Some(n) => {
            let two = seq![
                start,
                "  Check that your model server is running and accessible."@,
            ];
            if n == 401 || n == 403 {
                two.push(
                    "  Got "@ + text::decimal(n as nat)
                        + " — set OPENAI_API_KEY in .env if your server requires auth."@,
                )
            } else {
                two
            }
        },
        None => seq![
            start,
            "  Check that your model server is running and the URL is correct."@,
        ],
    }
}

/// What the user is told when an endpoint cannot be reached, or answers with a
/// status.
pub fn endpoint_trouble(base: &str, status: Option<u16>) -> (r: Vec<String>)
    ensures
        text::texts(r@) == unreachable_lines(base@, status),
{
    let start = text::cat2("  ⚠ Cannot reach endpoint at ", base);
    match status {
        Some(n) => {
            let mut r = vec![
                start,
                "  Check that your model server is running and accessible.".to_owned(),
            ];
            if n == 401 || n == 403 {
                let k = text::number(n as u64);
                r.push(
                    text::cat3(
                        "  Got ",
                        &k,
                        " — set OPENAI_API_KEY in .env if your server requires auth.",
                    ),
                );
            }
            assert(text::texts(r@) =~= unreachable_lines(base@, status));
            r
        },
        None => {
            let r = vec![
                start,
                "  Check that your model server is running and the URL is correct.".to_owned(),
            ];
            assert(text::texts(r@) =~= unreachable_lines(base@, status));
            r
        },
    }
}

/// Whether the name of a model holds a text.
pub open spec fn name_has(m: json::JsonText, want: Seq<char>) -> bool {
    match m.member_text("name"@) {
        Some(n) => text::has(n, want),
        None => false,
    }
}

/// Whether the name of one of some models holds a text.
pub open spec fn some_name_has(v: Seq<json::JsonText>, want: Seq<char>) -> bool {
    exists|i: int| 0 <= i < v.len() && name_has(#[trigger] v[i], want)
}

/// Whether an Ollama server has a model, whatever its tag.
pub open spec fn has_model(j: json::JsonText, name: Seq<char>) -> bool {
    match j.member_items("models"@) {
        Some(v) => some_name_has(v, text::split(name, ':')[0]),
        None => false,
    }
}

/// Whether an Ollama server has a model, whatever its tag.
pub fn ollama_has_model(answer: &Json, name: &str) -> (r: bool)
    ensures
        r == has_model(answer@, name@),
{
    let parts = text::split_char(name, ':');
    assert(text::texts(parts@)[0] == parts@[0]@);
    let want = parts[0].as_str();
    match answer.get_array("models") {
        Some(v) => {
            let ghost all = json::values(v@);
            assert(all.len() == v@.len());
            let mut i: usize = 0;
            while i < v.len()
                invariant
                    i <= v.len(),
                    all == json::values(v@),
                    all.len() == v@.len(),
                    want@ == text::split(name@, ':')[0],
                    answer@.member_items("models"@) == Some(all),
                    forall|j: int| 0 <= j < i ==> !name_has(#[trigger] all[j], want@),
                decreases v.len() - i,
            {
                assert(all[i as int] == v@[i as int]@);
                match v[i].get_str("name") {
                    Some(n) => {
                        if text::contains(&n, want) {
                            assert(name_has(all[i as int], want@));
                            return true;
                        }
                    },
                    None => {},
                }
                i = i + 1;
            }
            false
        },
        None => false,
    }
}

/// What the user is told when an Ollama server lacks a model, or is not there.
pub fn ollama_trouble(running: bool, name: &str) -> (r: Vec<String>)
    ensures
        text::texts(r@) == (if running {
            seq![
                "  ⚠ Model \""@ + name@ + "\" not found in Ollama."@,
                "  Run: ollama pull "@ + name@,
            ]
        } else {
            seq!["  ⚠ Ollama not running. Start it with: ollama serve"@]
        }),
{
    if running {
        let r = vec![
            text::cat3("  ⚠ Model \"", name, "\" not found in Ollama."),
            text::cat2("  Run: ollama pull ", name),
        ];
        assert(text::texts(r@) =~= seq![
            "  ⚠ Model \""@ + name@ + "\" not found in Ollama."@,
            "  Run: ollama pull "@ + name@,
        ]);
        r
    } else {
        let r = vec!["  ⚠ Ollama not running. Start it with: ollama serve".to_owned()];
        assert(text::texts(r@) =~= seq!["  ⚠ Ollama not running. Start it with: ollama serve"@]);
        r
    }
}

// ---------------------------------------------------------------------------
// Laws
// ---------------------------------------------------------------------------

/// A key of the environment goes before the configured one, the first that is
/// set before the others; an empty one counts as not set.
pub proof fn law_keys_of_the_environment(keys: EnvKeys, own: Option<Seq<char>>)
    ensures
        keys.openai matches Some(k) ==> (k@.len() > 0 ==> used_key(keys, own) == Some(k@)),
        (keys.openai is None || keys.openai->0@.len() == 0) ==> (keys.anthropic matches Some(k)
            ==> (k@.len() > 0 ==> used_key(keys, own) == Some(k@))),
        (keys.openai is None || keys.openai->0@.len() == 0) && (keys.anthropic is None
            || keys.anthropic->0@.len() == 0) ==> (keys.deepseek matches Some(k) ==> (k@.len() > 0
            ==> used_key(keys, own) == Some(k@))),
        (keys.openai is None || keys.openai->0@.len() == 0) && (keys.anthropic is None
            || keys.anthropic->0@.len() == 0) && (keys.deepseek is None || keys.deepseek->0@.len()
            == 0) ==> used_key(keys, own) == own,
{
}

/// A text can stand in a header where it has no control character but tabs.
pub proof fn law_header_characters(a: Seq<char>, b: Seq<char>, c: char)
    ensures
        fits_header(Seq::empty()),
        fits_header(a + b) <==> fits_header(a) && fits_header(b),
        fits_header(seq![c]) <==> c == '\t' || (c >= ' ' && c != '\x7f'),
{
    let ab = a + b;
    if fits_header(a) && fits_header(b) {
        assert forall|i: int| 0 <= i < ab.len() implies ({
            let n = (#[trigger] ab[i]) as u32;
            n >= 32 && n != 127 || n == 9
        }) by {
            if i < a.len() {
                assert(ab[i] == a[i]);
            } else {
                assert(ab[i] == b[i - a.len()]);
            }
        }
    }
    if fits_header(ab) {
        assert forall|i: int| 0 <= i < a.len() implies ({
            let n = (#[trigger] a[i]) as u32;
            n >= 32 && n != 127 || n == 9
        }) by {
            assert(ab[i] == a[i]);
        }
        assert forall|i: int| 0 <= i < b.len() implies ({
            let n = (#[trigger] b[i]) as u32;
            n >= 32 && n != 127 || n == 9
        }) by {
            assert(ab[a.len() + i] == b[i]);
        }
    }
    let one = seq![c];
    assert(one[0] == c);
    assert(c as u32 == one[0] as u32);
}

/// A request carries the key, where there is one that can stand in a header; the
/// program names itself to one server only.
pub proof fn law_request_headers(key: Seq<char>, base_url: Seq<char>)
    ensures
        fits_header(key) ==> headers(Some(key), base_url).contains(
            ("authorization"@, "Bearer "@ + key),
        ),
        headers(Some(key), base_url).contains(("content-type"@, "application/json"@)),
        text::has(base_url, "openrouter.ai"@) <==> headers(None, base_url).contains(
            ("X-Title"@, "itsy"@),
        ),
        headers(None, base_url).len() <= 2,
        !text::has(base_url, "openrouter.ai"@) ==> headers(None, base_url).len() == 1,
{
    let b = "Bearer "@;
    reveal_strlit("Bearer ");
    assert(fits_header(b)) by {
        assert(b[0] as u32 == 66 && b[1] as u32 == 101 && b[2] as u32 == 97 && b[3] as u32 == 114);
        assert(b[4] as u32 == 101 && b[5] as u32 == 114 && b[6] as u32 == 32);
        assert(b.len() == 7);
    }
    law_header_characters(b, key, ' ');
    let v = headers(Some(key), base_url);
    assert(v[0] == ("content-type"@, "application/json"@));
    if fits_header(key) {
        assert(v[1] == ("authorization"@, b + key));
    }
    let w = headers(None, base_url);
    if text::has(base_url, "openrouter.ai"@) {
        assert(w[1] == ("X-Title"@, "itsy"@));
    } else {
        assert(w.len() == 1);
        reveal_strlit("X-Title");
        reveal_strlit("content-type");
        assert("X-Title"@.len() == 7 && "content-type"@.len() == 12);
    }
}

/// A server that speaks the common protocol is asked for its models, at its own
/// address; else the local one is asked for what it has.
pub proof fn law_probes(provider: &str, base_url: &str, host: &Option<String>, r: Probe)
    requires
        call_ensures(plan_probe, (provider, base_url, host), r),
    ensures
        provider@ == "openai"@ ==> r is Models,
        base_url@.len() > 0 && text::has(base_url@, "/v1"@) ==> (r matches Probe::Models {
            url,
            base,
        } && url@ == base_url@ + "/models"@ && base@ == base_url@),
        provider@ != "openai"@ && base_url@.len() > 0 && !text::has(base_url@, "/v1"@)
            ==> r is Ollama,
        *host is None ==> (r matches Probe::Ollama { url } ==> url@ == "http://localhost:11434"@
            + "/api/tags"@),
        *host matches Some(h) ==> (h@.len() > 0 ==> (r matches Probe::Ollama { url } ==> url@ == h@
            + "/api/tags"@)),
{
}

/// The window is that of the first model whose identifier or name has the wanted
/// one, or else that of the first model.
pub proof fn law_windows(v: Seq<json::JsonText>, want: Seq<char>, i: int)
    requires
        0 <= i < v.len(),
    ensures
        is_wanted(v[i], want) && (forall|k: int| 0 <= k < i ==> !is_wanted(#[trigger] v[k], want))
            ==> window_in(v, want) == v[i].member_unsigned("context_length"@),
        (forall|k: int| 0 <= k < v.len() ==> !is_wanted(#[trigger] v[k], want)) ==> window_in(v, want)
            == v[0].member_unsigned("context_length"@),
        (v[i].member_text("id"@) matches Some(s) && text::has(s, want)) ==> is_wanted(v[i], want),
        (v[i].member_text("name"@) matches Some(s) && text::has(s, want)) ==> is_wanted(v[i], want),
{
    if is_wanted(v[i], want) && (forall|k: int| 0 <= k < i ==> !is_wanted(#[trigger] v[k], want)) {
        lemma_wanted_at(v, want, 0, i);
    }
    if forall|k: int| 0 <= k < v.len() ==> !is_wanted(#[trigger] v[k], want) {
        lemma_wanted_none(v, want, 0);
    }
}

proof fn lemma_wanted_at(v: Seq<json::JsonText>, want: Seq<char>, k: int, i: int)
    requires
        0 <= k <= i < v.len(),
        is_wanted(v[i], want),
        forall|m: int| 0 <= m < i ==> !is_wanted(#[trigger] v[m], want),
    ensures
        wanted_from(v, want, k) == Some(i),
    decreases i - k,
{
    if k < i {
        assert(!is_wanted(v[k], want));
        lemma_wanted_at(v, want, k + 1, i);
    }
}

proof fn lemma_wanted_none(v: Seq<json::JsonText>, want: Seq<char>, k: int)
    requires
        0 <= k <= v.len(),
        forall|m: int| 0 <= m < v.len() ==> !is_wanted(#[trigger] v[m], want),
    ensures
        wanted_from(v, want, k) is None,
    decreases v.len() - k,
{
    if k < v.len() {
        lemma_wanted_none(v, want, k + 1);
    }
}

/// What is said of a server that was reached, and of one that was not, names it.
pub proof fn law_servers_are_named(base: Seq<char>, name: Seq<char>, n: u64, status: u16)
    ensures
        connected_lines(base, name, Some(n)).len() == 3 && connected_lines(base, name, None).len() == 2,
        text::ends(connected_lines(base, name, Some(n))[0], base),
        text::ends(connected_lines(base, name, Some(n))[1], name),
        text::has(connected_lines(base, name, Some(n))[2], text::decimal(n as nat)),
        text::ends(unreachable_lines(base, Some(status))[0], base),
        text::ends(unreachable_lines(base, None)[0], base),
        status == 401 || status == 403 <==> unreachable_lines(base, Some(status)).len() == 3,
{
    text::law_affixes(base, "  Connected: "@, Seq::empty());
    text::law_affixes(name, "  Model: "@, Seq::empty());
    text::law_affixes(text::decimal(n as nat), "  Context: "@, " tokens"@);
    text::law_affixes(base, "  ⚠ Cannot reach endpoint at "@, Seq::empty());
}

/// A model is there where the name of one has its name, up to the tag.
pub proof fn law_models_are_found(j: json::JsonText, v: Seq<json::JsonText>, base: Seq<char>, tag: Seq<char>, i: int, n: Seq<char>)
    requires
        j.member_items("models"@) == Some(v),
        !base.contains(':'),
    ensures
        0 <= i < v.len() && v[i].member_text("name"@) == Some(n) && text::has(n, base) ==> has_model(
            j,
            base,
        ) && has_model(j, base.push(':') + tag),
        has_model(j, base) ==> exists|k: int|
            0 <= k < v.len() && ((#[trigger] v[k]).member_text("name"@) matches Some(s) && text::has(
                s,
                base,
            )),
{
    text::law_split_at(base, ':', tag);
    assert(text::split(base, ':')[0] == base);
    assert((text::split(base, ':') + text::split(tag, ':'))[0] == base);
    if 0 <= i < v.len() && v[i].member_text("name"@) == Some(n) && text::has(n, base) {
        assert(name_has(v[i], base));
    }
    if has_model(j, base) {
        let k = choose|k: int| 0 <= k < v.len() && name_has(#[trigger] v[k], base);
        assert(v[k].member_text("name"@) is Some);
    }
}

/// A window that the server tells of is taken, and nothing else is changed.
pub proof fn law_windows_are_taken()
    ensures
        forall|c: &mut Config, w: Option<u64>| #[trigger]
            call_ensures(take_window, (c, w), ()) ==> (w matches Some(n) ==> (n <= u32::MAX
                ==> final(c).context.detected_window == n)) && (w is None ==> final(c).context
                == c.context) && final(c).model == c.model && final(c).context.max_budget_pct
                == c.context.max_budget_pct,
{
}

} // verus!
