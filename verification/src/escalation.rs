//! Calling in a larger model: when that is done, and what is sent and taken
//! back.

use vstd::prelude::*;

use crate::config::endpoint;
use crate::json;
use crate::json::Json;
use crate::outside;
use crate::text;

verus! {

// ---------------------------------------------------------------------------
// Providers
// ---------------------------------------------------------------------------

/// Who offers larger models.
#[derive(Debug, Clone, Copy)]
pub struct ProviderInfo {
    pub key: &'static str,
    pub name: &'static str,
    pub base_url: &'static str,
    pub env_key: &'static str,
    /// The model that is asked when none is named. A provider without one is
    /// asked for the model that the options name.
    pub default_model: Option<&'static str>,
}

pub ghost struct ProviderText {
    pub key: Seq<char>,
    pub name: Seq<char>,
    pub base_url: Seq<char>,
    pub env_key: Seq<char>,
    pub default_model: Option<Seq<char>>,
}

impl View for ProviderInfo {
    type V = ProviderText;

    open spec fn view(&self) -> ProviderText {
        ProviderText {
            key: self.key@,
            name: self.name@,
            base_url: self.base_url@,
            env_key: self.env_key@,
            default_model: match self.default_model {
                Some(m) => Some(m@),
                None => None,
            },
        }
    }
}

/// Who offers larger models, the first choice first.
pub open spec fn providers() -> Seq<ProviderText> {
    seq![
        ProviderText {
            key: "anthropic"@,
            name: "Anthropic"@,
            base_url: "https://api.anthropic.com/v1"@,
            env_key: "ANTHROPIC_API_KEY"@,
            default_model: None,
        },
        ProviderText {
            key: "openai"@,
            name: "OpenAI"@,
            base_url: "https://api.openai.com/v1"@,
            env_key: "OPENAI_API_KEY"@,
            default_model: Some("gpt-5.4-mini"@),
        },
        ProviderText {
            key: "deepseek"@,
            name: "DeepSeek"@,
            base_url: "https://api.deepseek.com/v1"@,
            env_key: "DEEPSEEK_API_KEY"@,
            default_model: Some("deepseek-v4"@),
        },
    ]
}

pub open spec fn provider_texts(v: Seq<ProviderInfo>) -> Seq<ProviderText> {
    v.map_values(|p: ProviderInfo| p@)
}

/// Who offers larger models, the first choice first.
pub fn escalation_providers() -> (r: Vec<ProviderInfo>)
    ensures
        provider_texts(r@) == providers(),
{
    let r = vec![
        ProviderInfo {
            key: "anthropic",
            name: "Anthropic",
            base_url: "https://api.anthropic.com/v1",
            env_key: "ANTHROPIC_API_KEY",
            default_model: None,
        },
        ProviderInfo {
            key: "openai",
            name: "OpenAI",
            base_url: "https://api.openai.com/v1",
            env_key: "OPENAI_API_KEY",
            default_model: Some("gpt-5.4-mini"),
        },
        ProviderInfo {
            key: "deepseek",
            name: "DeepSeek",
            base_url: "https://api.deepseek.com/v1",
            env_key: "DEEPSEEK_API_KEY",
            default_model: Some("deepseek-v4"),
        },
    ];
    assert(provider_texts(r@) =~= providers());
    r
}

/// How a larger model is to be called in.
#[derive(Debug)]
pub struct EscalationOptions {
    pub max_per_session: u32,
    pub confirm: bool,
    pub provider: Option<String>,
    pub api_key: Option<String>,
    pub model: Option<String>,
    pub base_url: Option<String>,
}

impl Default for EscalationOptions {
    fn default() -> (r: EscalationOptions)
        ensures
            r == (EscalationOptions {
                max_per_session: 5,
                confirm: true,
                provider: None,
                api_key: None,
                model: None,
                base_url: None,
            }),
    {
        EscalationOptions {
            max_per_session: 5,
            confirm: true,
            provider: None,
            api_key: None,
            model: None,
            base_url: None,
        }
    }
}

/// Who is called in, and how often that was done.
#[derive(Debug)]
pub struct EscalationEngine {
    pub enabled: bool,
    pub provider: Option<ProviderInfo>,
    pub api_key: Option<String>,
    pub model: Option<String>,
    pub base_url: Option<String>,
    pub max_per_session: u32,
    pub count: u32,
    pub confirm: bool,
}

pub ghost struct EngineText {
    pub enabled: bool,
    pub provider: Option<ProviderText>,
    pub api_key: Option<Seq<char>>,
    pub model: Option<Seq<char>>,
    pub base_url: Option<Seq<char>>,
    pub max_per_session: u32,
    pub count: u32,
    pub confirm: bool,
}

impl View for EscalationEngine {
    type V = EngineText;

    open spec fn view(&self) -> EngineText {
        EngineText {
            enabled: self.enabled,
            provider: match self.provider {
                Some(p) => Some(p@),
                None => None,
            },
            api_key: text::opt_text(self.api_key),
            model: text::opt_text(self.model),
            base_url: text::opt_text(self.base_url),
            max_per_session: self.max_per_session,
            count: self.count,
            confirm: self.confirm,
        }
    }
}

/// The provider with a name, from the `i`th on.
pub open spec fn provider_named(key: Seq<char>, i: int) -> Option<int>
    decreases providers().len() - i,
{
    if i < 0 || i >= providers().len() {
        None
    } else if providers()[i].key == key {
        Some(i)
    } else {
        provider_named(key, i + 1)
    }
}

/// The first provider, from the `i`th on, whose key the environment holds.
pub open spec fn provider_with_key(keys: Seq<Option<Seq<char>>>, i: int) -> Option<int>
    decreases providers().len() - i,
{
    if i < 0 || i >= providers().len() || i >= keys.len() {
        None
    } else if keys[i] matches Some(k) && k.len() > 0 {
        Some(i)
    } else {
        provider_with_key(keys, i + 1)
    }
}

/// Which provider is called in with which key: the one that is asked for, or
/// the first whose key the environment holds.
pub open spec fn chosen_provider(
    provider: Option<Seq<char>>,
    api_key: Option<Seq<char>>,
    keys: Seq<Option<Seq<char>>>,
) -> Option<(int, Seq<char>)> {
    let asked = match (provider, api_key) {
        (Some(p), Some(k)) => match provider_named(p, 0) {
            Some(i) => Some((i, k)),
            None => None,
        },
        _ => None,
    };
    match asked {
        Some(x) => Some(x),
        None => match provider_with_key(keys, 0) {
            Some(i) => Some((i, keys[i]->0)),
            None => None,
        },
    }
}

pub open spec fn or_text(o: Option<Seq<char>>, default: Seq<char>) -> Seq<char> {
    match o {
        Some(s) => s,
        None => default,
    }
}

/// Who is called in by some options and the keys of the environment, in the
/// order of the providers.
pub open spec fn configured(
    max_per_session: u32,
    confirm: bool,
    provider: Option<Seq<char>>,
    api_key: Option<Seq<char>>,
    model: Option<Seq<char>>,
    base_url: Option<Seq<char>>,
    keys: Seq<Option<Seq<char>>>,
) -> EngineText {
    match chosen_provider(provider, api_key, keys) {
        Some((i, key)) => EngineText {
            enabled: true,
            provider: Some(providers()[i]),
            api_key: Some(key),
            model: match model {
                Some(m) => Some(m),
                None => providers()[i].default_model,
            },
            base_url: Some(or_text(base_url, providers()[i].base_url)),
            max_per_session,
            count: 0,
            confirm,
        },
        None => EngineText {
            enabled: false,
            provider: None,
            api_key: None,
            model: None,
            base_url: None,
            max_per_session,
            count: 0,
            confirm,
        },
    }
}

/// The model that stands first in a list of those that a provider offers.
pub open spec fn first_offered(j: json::JsonText) -> Option<Seq<char>> {
    match json::pointed(j, "data/0/id"@) {
        Some(id) => id.text(),
        None => None,
    }
}

/// The model that stands first in a list of those that a provider offers.
pub fn first_model(offer: &Json) -> (r: Option<String>)
    ensures
        text::opt_text(r) == first_offered(offer@),
{
    match offer.pointer("data/0/id") {
        Some(j) => j.as_str(),
        None => None,
    }
}

fn text_or(o: &Option<String>, default: &str) -> (r: String)
    ensures
        r@ == or_text(text::opt_text(*o), default@),
{
    match o {
        Some(s) => s.clone(),
        None => default.to_owned(),
    }
}

fn find_provider(all: &Vec<ProviderInfo>, key: &str) -> (r: Option<usize>)
    requires
        provider_texts(all@) == providers(),
    ensures
        match r {
            Some(i) => i < all.len() && provider_named(key@, 0) == Some(i as int),
            None => provider_named(key@, 0) is None,
        },
{
    assert(provider_texts(all@).len() == all@.len());
    let mut i: usize = 0;
    while i < all.len()
        invariant
            i <= all.len(),
            provider_texts(all@) == providers(),
            all@.len() == providers().len(),
            provider_named(key@, 0) == provider_named(key@, i as int),
        decreases all.len() - i,
    {
        assert(provider_texts(all@)[i as int] == all@[i as int]@);
        if text::same(all[i].key, key) {
            return Some(i);
        }
        i = i + 1;
    }
    None
}

pub open spec fn key_texts(v: Seq<Option<String>>) -> Seq<Option<Seq<char>>> {
    v.map_values(|o: Option<String>| text::opt_text(o))
}

fn find_key(keys: &Vec<Option<String>>) -> (r: Option<(usize, String)>)
    requires
        keys.len() == 3,
    ensures
        match r {
            Some((i, k)) => i < 3 && provider_with_key(key_texts(keys@), 0) == Some(i as int)
                && key_texts(keys@)[i as int] == Some(k@),
            None => provider_with_key(key_texts(keys@), 0) is None,
        },
{
    let ghost all = key_texts(keys@);
    assert(all.len() == 3);
    let mut i: usize = 0;
    while i < keys.len()
        invariant
            i <= keys.len(),
            keys.len() == 3,
            all == key_texts(keys@),
            all.len() == 3,
            provider_with_key(all, 0) == provider_with_key(all, i as int),
        decreases keys.len() - i,
    {
        assert(all[i as int] == text::opt_text(keys@[i as int]));
        match &keys[i] {
            Some(k) => {
                if !k.as_str().is_empty() {
                    return Some((i, k.clone()));
                }
            },
            None => {},
        }
        i = i + 1;
    }
    None
}

/// Who is called in, and how often that was done, as the user is told.
pub open spec fn status_text(e: EngineText) -> Seq<char> {
    if e.enabled {
        (match e.provider {
            Some(p) => p.name,
            None => "?"@,
        }) + " ("@ + or_text(e.model, "?"@) + ") — "@ + text::decimal(e.count as nat) + "/"@
            + text::decimal(e.max_per_session as nat) + " used"@
    } else {
        "disabled (no API key configured)"@
    }
}

impl EscalationEngine {
    /// Who is called in by some options and the keys of the environment, in the
    /// order of the providers.
    pub fn new(options: &EscalationOptions, keys: &Vec<Option<String>>) -> (r: EscalationEngine)
        requires
            keys.len() == 3,
        ensures
            r@ == configured(
                options.max_per_session,
                options.confirm,
                text::opt_text(options.provider),
                text::opt_text(options.api_key),
                text::opt_text(options.model),
                text::opt_text(options.base_url),
                key_texts(keys@),
            ),
    {
        let all = escalation_providers();
        assert(provider_texts(all@).len() == all@.len());
        let asked = match &options.provider {
            Some(p) => match &options.api_key {
                Some(k) => match find_provider(&all, p) {
                    Some(i) => Some((i, k.clone())),
                    None => None,
                },
                None => None,
            },
            None => None,
        };
        let chosen = match asked {
            Some(x) => Some(x),
            None => find_key(keys),
        };
        match chosen {
            Some((i, key)) => {
                let info = all[i];
                assert(provider_texts(all@)[i as int] == info@);
                let model = match &options.model {
                    Some(m) => Some(m.clone()),
                    None => match info.default_model {
                        Some(m) => Some(m.to_owned()),
                        None => None,
                    },
                };
                EscalationEngine {
                    enabled: true,
                    provider: Some(info),
                    api_key: Some(key),
                    model,
                    base_url: Some(text_or(&options.base_url, info.base_url)),
                    max_per_session: options.max_per_session,
                    count: 0,
                    confirm: options.confirm,
                }
            },
            None => EscalationEngine {
                enabled: false,
                provider: None,
                api_key: None,
                model: None,
                base_url: None,
                max_per_session: options.max_per_session,
                count: 0,
                confirm: options.confirm,
            },
        }
    }

    /// Whether a larger model may be called in.
    pub open spec fn is_open(self) -> bool {
        self.enabled && self.count < self.max_per_session
    }

    /// Whether a larger model may be called in.
    pub fn can_escalate(&self) -> (r: bool)
        ensures
            r == self.is_open(),
    {
        self.enabled && self.count < self.max_per_session
    }

    /// Who is called in, and how often that was done, as the user is told.
    pub fn status(&self) -> (r: String)
        ensures
            r@ == status_text(self@),
    {
        if !self.enabled {
            return "disabled (no API key configured)".to_owned();
        }
        let name = match &self.provider {
            Some(p) => p.name,
            None => "?",
        };
        let model = text_or(&self.model, "?");
        let a = text::number(self.count as u64);
        let b = text::number(self.max_per_session as u64);
        text::cat8(name, " (", &model, ") — ", &a, "/", &b, " used")
    }

    /// Counts a call of a larger model, when it may be made, and says so.
    pub fn begin(&mut self) -> (r: bool)
        ensures
            r == old(self).is_open(),
            final(self)@ == (EngineText {
                count: if r {
                    (old(self).count + 1) as u32
                } else {
                    old(self).count
                },
                ..old(self)@
            }),
    {
        if self.can_escalate() {
            self.count = self.count + 1;
            true
        } else {
            false
        }
    }

    /// Whether the provider is spoken to as Anthropic is, and not as OpenAI is.
    pub fn speaks_anthropic(&self) -> (r: bool)
        ensures
            r == (self@.provider matches Some(p) && p.key == "anthropic"@),
    {
        match &self.provider {
            Some(p) => text::same(p.key, "anthropic"),
            None => false,
        }
    }
}

/// A larger model is called in no more often than allowed.
pub proof fn law_escalations_are_bounded(e: EscalationEngine, next: EscalationEngine, called: bool)
    requires
        e.count <= e.max_per_session,
        called == e.is_open(),
        next@ == (EngineText {
            count: if called {
                (e.count + 1) as u32
            } else {
                e.count
            },
            ..e@
        }),
    ensures
        next.count <= next.max_per_session,
{
    assert(next@.count == next.count && next@.max_per_session == next.max_per_session);
    assert(e@.max_per_session == e.max_per_session);
}

pub const SYSTEM_HEAD: &'static str =
    "You are an expert coding assistant called in as escalation support.\nA smaller local model attempted the task but failed after multiple retry and decompose attempts.\nYour job: solve it correctly in as few tool calls as possible.\nBe precise. Don't explain unnecessarily. Just fix it.\n";

/// What a larger model is told first.
pub fn system_text(extra: &str) -> (r: String)
    ensures
        r@ == SYSTEM_HEAD@ + extra@,
{
    text::cat2(SYSTEM_HEAD, extra)
}

// ---------------------------------------------------------------------------
// As OpenAI is spoken to
// ---------------------------------------------------------------------------

pub open spec fn message_value(role: Seq<char>, content: json::JsonText) -> json::JsonText {
    json::JsonText::Table(seq![("role"@, json::JsonText::Text(role)), ("content"@, content)])
}

/// A request, as OpenAI takes it.
pub open spec fn openai_body(
    model: Seq<char>,
    system: Seq<char>,
    messages: Seq<json::JsonText>,
    tools: Seq<json::JsonText>,
) -> json::JsonText {
    let start = seq![
        ("model"@, json::JsonText::Text(model)),
        (
            "messages"@,
            json::JsonText::List(
                seq![message_value("system"@, json::JsonText::Text(system))] + messages,
            ),
        ),
        ("temperature"@, json::JsonText::Float("0.1"@)),
        ("max_tokens"@, json::JsonText::Unsigned(4096)),
    ];
    json::JsonText::Table(
        if tools.len() > 0 {
            start.push(("tools"@, json::JsonText::List(tools)))
        } else {
            start
        },
    )
}

/// A request, as OpenAI takes it.
pub fn openai_request(
    model: &Option<String>,
    system: &str,
    messages: &Vec<Json>,
    tools: &Vec<Json>,
) -> (r: Json)
    ensures
        r@ == openai_body(
            or_text(text::opt_text(*model), ""@),
            system@,
            json::values(messages@),
            json::values(tools@),
        ),
{
    let first = json::table2("role", json::word("system"), "content", json::word(system));
    let mut all = vec![first];
    assert(json::values(all@) =~= seq![message_value("system"@, json::JsonText::Text(system@))]);
    json::add_copies(&mut all, messages);
    let name = text_or(model, "");
    let mut v = vec![
        ("model".to_owned(), json::word(&name)),
        ("messages".to_owned(), json::list(all)),
        ("temperature".to_owned(), Json::Float("0.1".to_owned())),
        ("max_tokens".to_owned(), Json::Unsigned(4096)),
    ];
    assert(json::values(tools@).len() == tools@.len());
    if tools.len() > 0 {
        let mut ts: Vec<Json> = Vec::new();
        json::add_copies(&mut ts, tools);
        assert(json::values(ts@) =~= json::values(tools@));
        v.push(("tools".to_owned(), json::list(ts)));
    }
    let r = json::table(v);
    assert(r@->Table_0 =~= openai_body(
        name@,
        system@,
        json::values(messages@),
        json::values(tools@),
    )->Table_0);
    r
}

/// Where a request goes, as OpenAI takes it.
pub fn openai_url(base_url: &Option<String>) -> (r: String)
    ensures
        r@ == or_text(text::opt_text(*base_url), ""@) + "/chat/completions"@,
{
    let base = text_or(base_url, "");
    text::cat2(&base, "/chat/completions")
}

/// The headers of a request, as Anthropic takes it. A key that cannot stand in a
/// header is left out.
pub open spec fn anthropic_header_pairs(key: Option<Seq<char>>) -> Seq<(Seq<char>, Seq<char>)> {
    seq![("content-type"@, "application/json"@)] + (match key {
        Some(k) => if endpoint::fits_header(k) {
            seq![("x-api-key"@, k)]
        } else {
            Seq::empty()
        },
        None => Seq::empty(),
    }) + seq![("anthropic-version"@, "2023-06-01"@)]
}

/// The headers of a request, as Anthropic takes it.
pub fn anthropic_headers(api_key: &Option<String>) -> (r: Vec<(String, String)>)
    ensures
        text::pairs(r@) == anthropic_header_pairs(text::opt_text(*api_key)),
{
    let mut r = vec![("content-type".to_owned(), "application/json".to_owned())];
    match api_key {
        Some(k) => {
            if endpoint::check_header(k) {
                r.push(("x-api-key".to_owned(), k.clone()));
            }
        },
        None => {},
    }
    r.push(("anthropic-version".to_owned(), "2023-06-01".to_owned()));
    assert(text::pairs(r@) =~= anthropic_header_pairs(text::opt_text(*api_key)));
    r
}

/// The message in an answer, as OpenAI gives it.
pub open spec fn openai_answer(j: json::JsonText) -> Option<json::JsonText> {
    json::pointed(j, "choices/0/message"@)
}

/// The message in an answer, as OpenAI gives it.
pub fn openai_message(answer: &Json) -> (r: Option<Json>)
    ensures
        json::opt_value(r) == openai_answer(answer@),
{
    match answer.pointer("choices/0/message") {
        Some(j) => Some(j.copy()),
        None => None,
    }
}

/// The answer when a request was refused.
pub fn refused(who: &str, status: u16, body: &str) -> (r: Json)
    ensures
        r@ == json::JsonText::Table(
            seq![
                (
                    "error"@,
                    json::JsonText::Text(
                        who@ + " error "@ + text::decimal(status as nat) + ": "@ + text::clip(
                            body@,
                            200,
                        ),
                    ),
                ),
            ],
        ),
{
    let n = text::number(status as u64);
    let shown = text::clip_bytes(body, 200);
    let s = text::cat5(who, " error ", &n, ": ", &shown);
    let r = json::table(vec![("error".to_owned(), Json::Text(s))]);
    assert(r@->Table_0 =~= seq![("error"@, json::JsonText::Text(s@))]);
    r
}

// ---------------------------------------------------------------------------
// As Anthropic is spoken to
// ---------------------------------------------------------------------------

/// A message as Anthropic takes it.
#[derive(Debug)]
pub struct Turn {
    pub role: String,
    pub content: Json,
}

pub ghost struct TurnText {
    pub role: Seq<char>,
    pub content: json::JsonText,
}

impl View for Turn {
    type V = TurnText;

    open spec fn view(&self) -> TurnText {
        TurnText { role: self.role@, content: self.content@ }
    }
}

pub open spec fn turns(v: Seq<Turn>) -> Seq<TurnText> {
    v.map_values(|t: Turn| t@)
}

/// What a call names: a member of its function.
pub open spec fn function_text(call: json::JsonText, key: Seq<char>, default: Seq<char>) -> Seq<
    char,
> {
    match call.member("function"@) {
        Some(f) => f.member_text_or(key, default),
        None => default,
    }
}

/// A call of a tool, as Anthropic takes it, with its arguments read.
pub open spec fn tool_use(call: json::JsonText, input: json::JsonText) -> json::JsonText {
    json::JsonText::Table(
        seq![
            ("type"@, json::JsonText::Text("tool_use"@)),
            ("id"@, json::JsonText::Text(call.member_text_or("id"@, ""@))),
            ("name"@, json::JsonText::Text(function_text(call, "name"@, ""@))),
            ("input"@, input),
        ],
    )
}

/// The arguments of a call; none when they cannot be read.
pub open spec fn arguments(call: json::JsonText) -> json::JsonText {
    match outside::json_value(function_text(call, "arguments"@, "{}"@)) {
        Some(j) => j,
        None => json::JsonText::Table(Seq::empty()),
    }
}

/// The answer of a tool, as Anthropic takes it.
pub open spec fn tool_result(m: json::JsonText) -> json::JsonText {
    json::JsonText::List(
        seq![
            json::JsonText::Table(
                seq![
                    ("type"@, json::JsonText::Text("tool_result"@)),
                    ("tool_use_id"@, m.member_or_null("tool_call_id"@)),
                    ("content"@, m.member_or_null("content"@)),
                ],
            ),
        ],
    )
}

/// A message, as Anthropic takes it.
pub open spec fn turned(m: json::JsonText) -> TurnText {
    let role = m.member_text_or("role"@, ""@);
    if role == "tool"@ {
        TurnText { role: "user"@, content: tool_result(m) }
    } else {
        match m.member_items("tool_calls"@) {
            Some(calls) => TurnText {
                role: "assistant"@,
                content: json::JsonText::List(
                    calls.map_values(|c: json::JsonText| tool_use(c, arguments(c))),
                ),
            },
            None => TurnText { role, content: m.member_or_null("content"@) },
        }
    }
}

pub open spec fn text_block(s: Seq<char>) -> json::JsonText {
    json::JsonText::Table(
        seq![("type"@, json::JsonText::Text("text"@)), ("text"@, json::JsonText::Text(s))],
    )
}

/// What two messages of one role say together.
pub open spec fn merged(a: json::JsonText, b: json::JsonText) -> json::JsonText {
    match (a, b) {
        (json::JsonText::Text(x), json::JsonText::Text(y)) => json::JsonText::Text(
            x + "\n\n"@ + y,
        ),
        (json::JsonText::List(x), json::JsonText::List(y)) => json::JsonText::List(x + y),
        (json::JsonText::Text(x), json::JsonText::List(y)) => json::JsonText::List(
            seq![text_block(x)] + y,
        ),
        (json::JsonText::List(x), json::JsonText::Text(y)) => json::JsonText::List(
            x.push(text_block(y)),
        ),
        _ => a,
    }
}

/// Some messages with one more, which joins the last when the role is the same.
pub open spec fn joined_with(v: Seq<TurnText>, t: TurnText) -> Seq<TurnText> {
    if v.len() > 0 && v.last().role == t.role {
        v.drop_last().push(
            TurnText { role: t.role, content: merged(v.last().content, t.content) },
        )
    } else {
        v.push(t)
    }
}

/// Messages as Anthropic takes them: none of the system, and no two of one role
/// in a row.
pub open spec fn joined(v: Seq<json::JsonText>) -> Seq<TurnText>
    decreases v.len(),
{
    if v.len() == 0 {
        Seq::empty()
    } else if v.last().member_text("role"@) == Some("system"@) {
        joined(v.drop_last())
    } else {
        joined_with(joined(v.drop_last()), turned(v.last()))
    }
}

/// Messages that start with one of the user.
pub open spec fn opened(v: Seq<TurnText>) -> Seq<TurnText> {
    if v.len() > 0 && v[0].role != "user"@ {
        seq![
            TurnText {
                role: "user"@,
                content: json::JsonText::Text("(continuing from earlier context)"@),
            },
        ] + v
    } else {
        v
    }
}

fn function_member(call: &Json, key: &str, default: &str) -> (r: String)
    ensures
        r@ == function_text(call@, key@, default@),
{
    match call.get("function") {
        Some(f) => f.get_str_or(key, default),
        None => default.to_owned(),
    }
}

/// A call of a tool, as Anthropic takes it, with its arguments read.
pub fn tool_use_of(call: &Json, input: Json) -> (r: Json)
    ensures
        r@ == tool_use(call@, input@),
{
    let id = call.get_str_or("id", "");
    let name = function_member(call, "name", "");
    let v = vec![
        ("type".to_owned(), json::word("tool_use")),
        ("id".to_owned(), Json::Text(id)),
        ("name".to_owned(), Json::Text(name)),
        ("input".to_owned(), input),
    ];
    let r = json::table(v);
    assert(r@->Table_0 =~= tool_use(call@, input@)->Table_0);
    r
}

fn read_arguments(call: &Json) -> (r: Json)
    ensures
        r@ == arguments(call@),
{
    let raw = function_member(call, "arguments", "{}");
    match outside::json_parse(&raw) {
        Some(j) => j,
        None => {
            let none: Vec<(String, Json)> = Vec::new();
            assert(json::members(none@) =~= Seq::<(Seq<char>, json::JsonText)>::empty());
            json::table(none)
        },
    }
}

fn turn_of(m: &Json) -> (r: Turn)
    ensures
        r@ == turned(m@),
{
    let role = m.get_str_or("role", "");
    if text::same(&role, "tool") {
        let v = vec![
            ("type".to_owned(), json::word("tool_result")),
            ("tool_use_id".to_owned(), m.get_or_null("tool_call_id")),
            ("content".to_owned(), m.get_or_null("content")),
        ];
        let block = json::table(v);
        let content = json::list(vec![block]);
        proof {
            let wanted = tool_result(m@)->List_0;
            assert(block@->Table_0 =~= wanted[0]->Table_0);
            assert(content@->List_0 =~= wanted);
        }
        return Turn { role: "user".to_owned(), content };
    }
    match m.get_array("tool_calls") {
        Some(calls) => {
            let ghost wanted = json::values(calls@).map_values(
                |c: json::JsonText| tool_use(c, arguments(c)),
            );
            let mut out: Vec<Json> = Vec::new();
            let mut i: usize = 0;
            while i < calls.len()
                invariant
                    i <= calls.len(),
                    out.len() == i,
                    wanted == json::values(calls@).map_values(
                        |c: json::JsonText| tool_use(c, arguments(c)),
                    ),
                    forall|k: int| 0 <= k < i ==> (#[trigger] out@[k])@ == wanted[k],
                decreases calls.len() - i,
            {
                assert(json::values(calls@)[i as int] == calls@[i as int]@);
                let input = read_arguments(&calls[i]);
                let block = tool_use_of(&calls[i], input);
                assert(block@ == wanted[i as int]);
                out.push(block);
                i = i + 1;
            }
            assert(json::values(out@) =~= wanted);
            Turn { role: "assistant".to_owned(), content: json::list(out) }
        },
        None => Turn { role, content: m.get_or_null("content") },
    }
}

fn block_of(s: &str) -> (r: Json)
    ensures
        r@ == text_block(s@),
{
    json::table2("type", json::word("text"), "text", json::word(s))
}

/// What two messages of one role say together.
pub fn merge_into(a: Json, b: &Json) -> (r: Json)
    ensures
        r@ == merged(a@, b@),
{
    match a {
        Json::Text(x) => match b {
            Json::Text(y) => Json::Text(text::cat3(&x, "\n\n", y)),
            Json::List(y) => {
                let mut out = vec![block_of(&x)];
                assert(json::values(out@) =~= seq![text_block(x@)]);
                proof {
                    json::lemma_list(*y);
                }
                json::add_copies(&mut out, y);
                json::list(out)
            },
            _ => Json::Text(x),
        },
        Json::List(x) => {
            proof {
                json::lemma_list(x);
            }
            match b {
                Json::Text(y) => {
                    let mut out = x;
                    let ghost before = json::values(out@);
                    let block = block_of(y);
                    out.push(block);
                    assert(json::values(out@) =~= before.push(block@));
                    json::list(out)
                },
                Json::List(y) => {
                    let mut out = x;
                    proof {
                        json::lemma_list(*y);
                    }
                    json::add_copies(&mut out, y);
                    json::list(out)
                },
                _ => Json::List(x),
            }
        },
        _ => a,
    }
}

fn join_turn(v: &mut Vec<Turn>, t: Turn)
    ensures
        turns(final(v)@) == joined_with(turns(old(v)@), t@),
{
    let ghost start = turns(v@);
    assert(start.len() == v@.len());
    let n: usize = v.len();
    if n > 0 && text::same(&v[n - 1].role, &t.role) {
        assert(start.last() == v@[n - 1]@);
        match v.pop() {
            Some(last) => {
                assert(turns(v@) =~= start.drop_last());
                let ghost rest = turns(v@);
                let content = merge_into(last.content, &t.content);
                let next = Turn { role: t.role, content };
                v.push(next);
                assert(turns(v@) =~= rest.push(next@));
            },
            None => {},
        }
    } else {
        if n > 0 {
            assert(start.last() == v@[n - 1]@);
        }
        v.push(t);
        assert(turns(v@) =~= start.push(t@));
    }
}

/// Messages as Anthropic takes them: none of the system, no two of one role in
/// a row, and one of the user first.
pub fn anthropic_messages(messages: &Vec<Json>) -> (r: Vec<Turn>)
    ensures
        turns(r@) == opened(joined(json::values(messages@))),
{
    let ghost all = json::values(messages@);
    let mut v: Vec<Turn> = Vec::new();
    let mut i: usize = 0;
    assert(turns(v@) =~= joined(all.take(0)));
    while i < messages.len()
        invariant
            i <= messages.len(),
            all == json::values(messages@),
            turns(v@) == joined(all.take(i as int)),
        decreases messages.len() - i,
    {
        assert(all.take(i + 1).drop_last() =~= all.take(i as int));
        assert(all.take(i + 1).last() == messages@[i as int]@);
        let of_system = match messages[i].get_str("role") {
            Some(role) => text::same(&role, "system"),
            None => false,
        };
        if !of_system {
            let t = turn_of(&messages[i]);
            join_turn(&mut v, t);
        }
        i = i + 1;
    }
    assert(all.take(i as int) =~= all);
    let ghost body = turns(v@);
    assert(body.len() == v@.len());
    if v.len() > 0 {
        assert(body[0] == v@[0]@);
        if !text::same(&v[0].role, "user") {
            let first = Turn {
                role: "user".to_owned(),
                content: json::word("(continuing from earlier context)"),
            };
            v.insert(0, first);
            assert(turns(v@) =~= opened(body));
        }
    }
    v
}

proof fn lemma_alternates(v: Seq<json::JsonText>)
    ensures
        forall|i: int|
            0 <= i < joined(v).len() - 1 ==> (#[trigger] joined(v)[i]).role != joined(v)[i + 1].role,
    decreases v.len(),
{
    if v.len() > 0 {
        lemma_alternates(v.drop_last());
        let before = joined(v.drop_last());
        let after = joined(v);
        assert forall|i: int| 0 <= i < after.len() - 1 implies (#[trigger] after[i]).role
            != after[i + 1].role by {
            if i < before.len() - 1 {
                assert(before[i].role != before[i + 1].role);
            }
        }
    }
}

/// No two messages in a row have the same role, and the first is the user's.
pub proof fn law_roles_alternate(v: Seq<json::JsonText>)
    ensures
        ({
            let m = opened(joined(v));
            &&& m.len() > 0 ==> m[0].role == "user"@
            &&& forall|i: int| 0 <= i < m.len() - 1 ==> (#[trigger] m[i]).role != m[i + 1].role
        }),
{
    lemma_alternates(v);
    let j = joined(v);
    let m = opened(j);
    if j.len() > 0 && j[0].role != "user"@ {
        assert forall|i: int| 0 <= i < m.len() - 1 implies (#[trigger] m[i]).role
            != m[i + 1].role by {
            if i > 0 {
                assert(m[i] == j[i - 1]);
                assert(j[i - 1].role != j[i].role);
            }
        }
    }
}

/// A tool, as Anthropic takes it.
pub open spec fn anthropic_tool(t: json::JsonText) -> json::JsonText {
    let f = t.member_or_null("function"@);
    json::JsonText::Table(
        seq![
            ("name"@, f.member_or_null("name"@)),
            ("description"@, f.member_or_null("description"@)),
            ("input_schema"@, f.member_or_null("parameters"@)),
        ],
    )
}

fn tool_of(t: &Json) -> (r: Json)
    ensures
        r@ == anthropic_tool(t@),
{
    let f = t.get_or_null("function");
    let v = vec![
        ("name".to_owned(), f.get_or_null("name")),
        ("description".to_owned(), f.get_or_null("description")),
        ("input_schema".to_owned(), f.get_or_null("parameters")),
    ];
    let r = json::table(v);
    assert(r@->Table_0 =~= anthropic_tool(t@)->Table_0);
    r
}

pub open spec fn turn_value(t: TurnText) -> json::JsonText {
    message_value(t.role, t.content)
}

/// A request, as Anthropic takes it.
pub open spec fn anthropic_body(
    model: Seq<char>,
    system: Seq<char>,
    messages: Seq<TurnText>,
    tools: Seq<json::JsonText>,
) -> json::JsonText {
    let start = seq![
        ("model"@, json::JsonText::Text(model)),
        ("max_tokens"@, json::JsonText::Unsigned(4096)),
        ("system"@, json::JsonText::Text(system)),
        (
            "messages"@,
            json::JsonText::List(messages.map_values(|t: TurnText| turn_value(t))),
        ),
    ];
    json::JsonText::Table(
        if tools.len() > 0 {
            start.push(
                (
                    "tools"@,
                    json::JsonText::List(
                        tools.map_values(|t: json::JsonText| anthropic_tool(t)),
                    ),
                ),
            )
        } else {
            start
        },
    )
}

fn write_turns(v: &Vec<Turn>) -> (r: Vec<Json>)
    ensures
        json::values(r@) == turns(v@).map_values(|t: TurnText| turn_value(t)),
{
    let ghost wanted = turns(v@).map_values(|t: TurnText| turn_value(t));
    let mut r: Vec<Json> = Vec::new();
    let mut i: usize = 0;
    while i < v.len()
        invariant
            i <= v.len(),
            r.len() == i,
            wanted == turns(v@).map_values(|t: TurnText| turn_value(t)),
            forall|k: int| 0 <= k < i ==> (#[trigger] r@[k])@ == wanted[k],
        decreases v.len() - i,
    {
        assert(turns(v@)[i as int] == v@[i as int]@);
        let m = json::table2("role", json::word(&v[i].role), "content", v[i].content.copy());
        assert(m@ == wanted[i as int]);
        r.push(m);
        i = i + 1;
    }
    assert(json::values(r@) =~= wanted);
    r
}

fn write_tools(v: &Vec<Json>) -> (r: Vec<Json>)
    ensures
        json::values(r@) == json::values(v@).map_values(|t: json::JsonText| anthropic_tool(t)),
{
    let ghost wanted = json::values(v@).map_values(|t: json::JsonText| anthropic_tool(t));
    let mut r: Vec<Json> = Vec::new();
    let mut i: usize = 0;
    while i < v.len()
        invariant
            i <= v.len(),
            r.len() == i,
            wanted == json::values(v@).map_values(|t: json::JsonText| anthropic_tool(t)),
            forall|k: int| 0 <= k < i ==> (#[trigger] r@[k])@ == wanted[k],
        decreases v.len() - i,
    {
        assert(json::values(v@)[i as int] == v@[i as int]@);
        let t = tool_of(&v[i]);
        assert(t@ == wanted[i as int]);
        r.push(t);
        i = i + 1;
    }
    assert(json::values(r@) =~= wanted);
    r
}

/// A request, as Anthropic takes it.
pub fn anthropic_request(
    model: &Option<String>,
    system: &str,
    messages: &Vec<Json>,
    tools: &Vec<Json>,
) -> (r: Json)
    ensures
        r@ == anthropic_body(
            or_text(text::opt_text(*model), ""@),
            system@,
            opened(joined(json::values(messages@))),
            json::values(tools@),
        ),
{
    let v = anthropic_messages(messages);
    let name = text_or(model, "");
    let written = write_turns(&v);
    let mut m = vec![
        ("model".to_owned(), json::word(&name)),
        ("max_tokens".to_owned(), Json::Unsigned(4096)),
        ("system".to_owned(), json::word(system)),
        ("messages".to_owned(), json::list(written)),
    ];
    assert(json::values(tools@).len() == tools@.len());
    if tools.len() > 0 {
        m.push(("tools".to_owned(), json::list(write_tools(tools))));
    }
    let r = json::table(m);
    assert(r@->Table_0 =~= anthropic_body(
        name@,
        system@,
        turns(v@),
        json::values(tools@),
    )->Table_0);
    r
}

/// The text in the blocks of an answer.
pub open spec fn text_of_blocks(v: Seq<json::JsonText>) -> Seq<char>
    decreases v.len(),
{
    if v.len() == 0 {
        Seq::empty()
    } else if v.last().member_text("type"@) == Some("text"@) {
        text_of_blocks(v.drop_last()) + v.last().member_text_or("text"@, Seq::empty())
    } else {
        text_of_blocks(v.drop_last())
    }
}

/// A call in a block of an answer, as OpenAI gives it.
pub open spec fn call_of_block(b: json::JsonText) -> json::JsonText {
    let input = match b.member("input"@) {
        Some(j) => j,
        None => json::JsonText::Table(Seq::empty()),
    };
    json::JsonText::Table(
        seq![
            ("id"@, b.member_or_null("id"@)),
            ("type"@, json::JsonText::Text("function"@)),
            (
                "function"@,
                json::JsonText::Table(
                    seq![
                        ("name"@, b.member_or_null("name"@)),
                        ("arguments"@, json::JsonText::Text(json::written(input))),
                    ],
                ),
            ),
        ],
    )
}

/// The calls in the blocks of an answer.
pub open spec fn calls_of_blocks(v: Seq<json::JsonText>) -> Seq<json::JsonText>
    decreases v.len(),
{
    if v.len() == 0 {
        Seq::empty()
    } else if v.last().member_text("type"@) == Some("tool_use"@) {
        calls_of_blocks(v.drop_last()).push(call_of_block(v.last()))
    } else {
        calls_of_blocks(v.drop_last())
    }
}

/// An answer of Anthropic's, as OpenAI would give it.
pub open spec fn anthropic_answer(j: json::JsonText) -> json::JsonText {
    let blocks = match j.member_items("content"@) {
        Some(v) => v,
        None => Seq::empty(),
    };
    let said = text_of_blocks(blocks);
    let calls = calls_of_blocks(blocks);
    if calls.len() > 0 {
        json::JsonText::Table(
            seq![
                ("role"@, json::JsonText::Text("assistant"@)),
                (
                    "content"@,
                    if said.len() == 0 {
                        json::JsonText::Null
                    } else {
                        json::JsonText::Text(said)
                    },
                ),
                ("tool_calls"@, json::JsonText::List(calls)),
            ],
        )
    } else {
        message_value("assistant"@, json::JsonText::Text(said))
    }
}

fn is_block(b: &Json, kind: &str) -> (r: bool)
    ensures
        r == (b@.member_text("type"@) == Some(kind@)),
{
    match b.get_str("type") {
        Some(t) => text::same(&t, kind),
        None => false,
    }
}

fn read_call(b: &Json) -> (r: Json)
    ensures
        r@ == call_of_block(b@),
{
    let written = match b.get("input") {
        Some(j) => j.write(),
        None => {
            let none: Vec<(String, Json)> = Vec::new();
            assert(json::members(none@) =~= Seq::<(Seq<char>, json::JsonText)>::empty());
            json::table(none).write()
        },
    };
    let f = json::table2("name", b.get_or_null("name"), "arguments", Json::Text(written));
    let v = vec![
        ("id".to_owned(), b.get_or_null("id")),
        ("type".to_owned(), json::word("function")),
        ("function".to_owned(), f),
    ];
    let r = json::table(v);
    assert(r@->Table_0 =~= call_of_block(b@)->Table_0);
    r
}

fn read_blocks(v: &Vec<Json>) -> (r: (String, Vec<Json>))
    ensures
        r.0@ == text_of_blocks(json::values(v@)),
        json::values(r.1@) == calls_of_blocks(json::values(v@)),
{
    let ghost all = json::values(v@);
    let mut said: String = String::new();
    let mut calls: Vec<Json> = Vec::new();
    let mut i: usize = 0;
    assert(said@ =~= text_of_blocks(all.take(0)));
    assert(json::values(calls@) =~= calls_of_blocks(all.take(0)));
    while i < v.len()
        invariant
            i <= v.len(),
            all == json::values(v@),
            said@ == text_of_blocks(all.take(i as int)),
            json::values(calls@) == calls_of_blocks(all.take(i as int)),
        decreases v.len() - i,
    {
        proof {
            assert(all.take(i + 1).drop_last() =~= all.take(i as int));
            assert(all.take(i + 1).last() == v@[i as int]@);
            reveal_strlit("text");
            reveal_strlit("tool_use");
            assert("text"@.len() != "tool_use"@.len());
        }
        if is_block(&v[i], "text") {
            match v[i].get_str("text") {
                Some(s) => {
                    said.push_str(&s);
                },
                None => {
                    assert(said@ + Seq::<char>::empty() =~= said@);
                },
            }
        } else if is_block(&v[i], "tool_use") {
            let ghost before = json::values(calls@);
            let c = read_call(&v[i]);
            calls.push(c);
            assert(json::values(calls@) =~= before.push(c@));
        }
        i = i + 1;
    }
    assert(all.take(i as int) =~= all);
    (said, calls)
}

/// An answer of Anthropic's, as OpenAI would give it.
pub fn anthropic_message(answer: &Json) -> (r: Json)
    ensures
        r@ == anthropic_answer(answer@),
{
    let (said, calls) = match answer.get_array("content") {
        Some(v) => read_blocks(v),
        None => {
            let s = String::new();
            let c: Vec<Json> = Vec::new();
            assert(s@ =~= Seq::<char>::empty());
            assert(json::values(c@) =~= Seq::<json::JsonText>::empty());
            (s, c)
        },
    };
    assert(json::values(calls@).len() == calls@.len());
    if calls.len() > 0 {
        let content = if said.as_str().is_empty() {
            Json::Null
        } else {
            Json::Text(said)
        };
        let v = vec![
            ("role".to_owned(), json::word("assistant")),
            ("content".to_owned(), content),
            ("tool_calls".to_owned(), json::list(calls)),
        ];
        let r = json::table(v);
        assert(r@->Table_0 =~= anthropic_answer(answer@)->Table_0);
        r
    } else {
        json::table2("role", json::word("assistant"), "content", Json::Text(said))
    }
}

// ---------------------------------------------------------------------------
// Laws
// ---------------------------------------------------------------------------

/// The three providers, each with its own key and its own address.
pub proof fn law_providers()
    ensures
        providers().len() == 3,
        provider_named("anthropic"@, 0) == Some(0int),
        provider_named("openai"@, 0) == Some(1int),
        provider_named("deepseek"@, 0) == Some(2int),
        providers()[0].env_key == "ANTHROPIC_API_KEY"@ && providers()[0].base_url
            == "https://api.anthropic.com/v1"@,
        providers()[1].env_key == "OPENAI_API_KEY"@ && providers()[1].base_url
            == "https://api.openai.com/v1"@,
        providers()[2].env_key == "DEEPSEEK_API_KEY"@ && providers()[2].base_url
            == "https://api.deepseek.com/v1"@,
        providers()[0].default_model is None,
        providers()[1].default_model == Some("gpt-5.4-mini"@),
        providers()[2].default_model == Some("deepseek-v4"@),
{
    reveal_strlit("anthropic");
    reveal_strlit("openai");
    reveal_strlit("deepseek");
    assert("anthropic"@.len() == 9 && "openai"@.len() == 6 && "deepseek"@.len() == 8);
    reveal_with_fuel(provider_named, 4);
}

/// The provider that is asked for with a key is taken; else the first one whose
/// key is in the environment; without any key nothing is escalated.
pub proof fn law_provider_is_chosen(
    max: u32,
    confirm: bool,
    provider: Option<Seq<char>>,
    api_key: Option<Seq<char>>,
    model: Option<Seq<char>>,
    base_url: Option<Seq<char>>,
    keys: Seq<Option<Seq<char>>>,
    i: int,
)
    requires
        keys.len() == 3,
        0 <= i < 3,
    ensures
        ({
            let e = configured(max, confirm, provider, api_key, model, base_url, keys);
            &&& e.max_per_session == max && e.confirm == confirm && e.count == 0
            &&& provider == Some(providers()[i].key) && api_key is Some ==> e.enabled && e.provider
                == Some(providers()[i]) && e.api_key == api_key
            &&& (provider is None || api_key is None) && (keys[i] matches Some(k) && k.len() > 0) && (
            forall|j: int| 0 <= j < i ==> !((#[trigger] keys[j]) matches Some(k) && k.len() > 0))
                ==> e.enabled && e.provider == Some(providers()[i]) && e.api_key == keys[i]
            &&& (provider is None || api_key is None) && (forall|j: int|
                0 <= j < 3 ==> !((#[trigger] keys[j]) matches Some(k) && k.len() > 0))
                ==> !e.enabled && e.api_key is None
            &&& e.enabled && model is Some ==> e.model == model
            &&& e.enabled && model is None ==> e.model == e.provider->0.default_model
            &&& e.enabled && base_url is Some ==> e.base_url == base_url
            &&& e.enabled && base_url is None ==> e.base_url == Some(e.provider->0.base_url)
            &&& e.enabled <==> e.provider is Some
        }),
{
    law_providers();
    reveal_with_fuel(provider_with_key, 4);
    reveal_with_fuel(provider_named, 4);
}

/// What an engine says of itself names the provider and the model, and how often
/// it was used of how often it may be.
pub proof fn law_status_is_told(e: EngineText, p: ProviderText, m: Seq<char>)
    requires
        e.provider == Some(p),
        e.model == Some(m),
    ensures
        e.enabled ==> text::starts(status_text(e), p.name + " ("@ + m + ")"@) && text::ends(
            status_text(e),
            text::decimal(e.count as nat) + "/"@ + text::decimal(e.max_per_session as nat)
                + " used"@,
        ),
        !e.enabled ==> status_text(e) == "disabled (no API key configured)"@,
{
    if e.enabled {
        let a = p.name + " ("@ + m + ")"@;
        let b = text::decimal(e.count as nat) + "/"@ + text::decimal(e.max_per_session as nat)
            + " used"@;
        reveal_strlit(") — ");
        reveal_strlit(")");
        reveal_strlit(" — ");
        assert(") — "@ =~= ")"@ + " — "@);
        assert(status_text(e) =~= a + (" — "@ + b));
        assert(status_text(e) =~= (a + " — "@) + b);
        text::law_affixes(a, " — "@ + b, Seq::empty());
        text::law_affixes(b, a + " — "@, Seq::empty());
    }
}

/// What is sent asks the model, tells it the system's text first and all that
/// was said behind it, and offers the tools where there are any.
pub proof fn law_openai_body(
    model: Seq<char>,
    system: Seq<char>,
    messages: Seq<json::JsonText>,
    tools: Seq<json::JsonText>,
)
    ensures
        ({
            let b = openai_body(model, system, messages, tools);
            &&& b.member_text("model"@) == Some(model)
            &&& b.member_unsigned("max_tokens"@) == Some(4096u64)
            &&& b.member_items("messages"@) matches Some(v) && v.len() == messages.len() + 1
                && v.skip(1) == messages && v[0].member_text("role"@) == Some("system"@)
                && v[0].member_text("content"@) == Some(system)
            &&& tools.len() > 0 ==> b.member_items("tools"@) == Some(tools)
            &&& tools.len() == 0 ==> b.member("tools"@) is None
        }),
{
    reveal_strlit("model");
    reveal_strlit("messages");
    reveal_strlit("temperature");
    reveal_strlit("max_tokens");
    reveal_strlit("tools");
    reveal_strlit("role");
    reveal_strlit("content");
    assert("model"@.len() == 5 && "messages"@.len() == 8 && "temperature"@.len() == 11 && "max_tokens"@.len() == 10 && "tools"@.len() == 5 && "role"@.len() == 4 && "content"@.len() == 7);
    assert("model"@[0] == 'm' && "tools"@[0] == 't');
    let t = openai_body(model, system, messages, tools)->Table_0;
    assert(t[0].0 == "model"@);
    assert(t[1].0 == "messages"@);
    assert(t[2].0 == "temperature"@);
    assert(t[3].0 == "max_tokens"@);
    json::law_lookup(t, "model"@, 0);
    json::law_lookup(t, "messages"@, 1);
    json::law_lookup(t, "temperature"@, 2);
    json::law_lookup(t, "max_tokens"@, 3);
    json::law_lookup(t, "tools"@, 4);
    let v = seq![message_value("system"@, json::JsonText::Text(system))] + messages;
    assert(v.skip(1) =~= messages);
    let m = v[0]->Table_0;
    assert(m[0].0 == "role"@);
    assert(m[1].0 == "content"@);
    json::law_lookup(m, "role"@, 0);
    json::law_lookup(m, "content"@, 1);
}

/// The same for the other form of request: the system's text stands beside the
/// messages, each of which keeps who said it and what was said.
pub proof fn law_anthropic_body(
    model: Seq<char>,
    system: Seq<char>,
    messages: Seq<TurnText>,
    tools: Seq<json::JsonText>,
    i: int,
)
    ensures
        ({
            let b = anthropic_body(model, system, messages, tools);
            &&& b.member_text("model"@) == Some(model)
            &&& b.member_text("system"@) == Some(system)
            &&& b.member_unsigned("max_tokens"@) == Some(4096u64)
            &&& b.member_items("messages"@) matches Some(v) && v.len() == messages.len() && (0 <= i
                < messages.len() ==> v[i].member_text("role"@) == Some(messages[i].role)
                && v[i].member("content"@) == Some(messages[i].content))
            &&& tools.len() == 0 ==> b.member("tools"@) is None
            &&& tools.len() > 0 ==> (b.member_items("tools"@) matches Some(w) && w.len()
                == tools.len() && (0 <= i < tools.len() ==> w[i] == anthropic_tool(tools[i])))
        }),
{
    reveal_strlit("model");
    reveal_strlit("messages");
    reveal_strlit("system");
    reveal_strlit("max_tokens");
    reveal_strlit("tools");
    reveal_strlit("role");
    reveal_strlit("content");
    assert("model"@.len() == 5 && "messages"@.len() == 8 && "system"@.len() == 6 && "max_tokens"@.len() == 10 && "tools"@.len() == 5 && "role"@.len() == 4 && "content"@.len() == 7);
    assert("model"@[0] == 'm' && "tools"@[0] == 't');
    let t = anthropic_body(model, system, messages, tools)->Table_0;
    assert(t[0].0 == "model"@);
    assert(t[1].0 == "max_tokens"@);
    assert(t[2].0 == "system"@);
    assert(t[3].0 == "messages"@);
    json::law_lookup(t, "model"@, 0);
    json::law_lookup(t, "max_tokens"@, 1);
    json::law_lookup(t, "system"@, 2);
    json::law_lookup(t, "messages"@, 3);
    json::law_lookup(t, "tools"@, 4);
    if 0 <= i < messages.len() {
        let m = turn_value(messages[i])->Table_0;
        assert(m[0].0 == "role"@);
        assert(m[1].0 == "content"@);
        json::law_lookup(m, "role"@, 0);
        json::law_lookup(m, "content"@, 1);
    }
}

/// A tool keeps its name, its description and its parameters.
pub proof fn law_tools_are_kept(t: json::JsonText, f: json::JsonText, x: json::JsonText)
    requires
        t.member("function"@) == Some(f),
    ensures
        f.member("name"@) == Some(x) ==> anthropic_tool(t).member("name"@) == Some(x),
        f.member("description"@) == Some(x) ==> anthropic_tool(t).member("description"@) == Some(x),
        f.member("parameters"@) == Some(x) ==> anthropic_tool(t).member("input_schema"@) == Some(x),
{
    reveal_strlit("name");
    reveal_strlit("description");
    reveal_strlit("input_schema");
    assert("name"@.len() == 4 && "description"@.len() == 11 && "input_schema"@.len() == 12);
    let v = anthropic_tool(t)->Table_0;
    assert(v[0].0 == "name"@);
    assert(v[1].0 == "description"@);
    assert(v[2].0 == "input_schema"@);
    json::law_lookup(v, "name"@, 0);
    json::law_lookup(v, "description"@, 1);
    json::law_lookup(v, "input_schema"@, 2);
}

/// The result of a tool becomes a turn of the user with the call's identifier
/// and what came of it; the calls of a reply become a turn of the assistant,
/// each with its identifier, its name and its arguments; any other message stays
/// whose it is and what it says.
pub proof fn law_turns(m: json::JsonText, i: int)
    ensures
        m.member_text("role"@) == Some("tool"@) ==> turned(m).role == "user"@ && (
        turned(m).content matches json::JsonText::List(v) && v.len() == 1 && v[0].member_text(
            "type"@,
        ) == Some("tool_result"@) && v[0].member("tool_use_id"@) == Some(
            m.member_or_null("tool_call_id"@),
        ) && v[0].member("content"@) == Some(m.member_or_null("content"@))),
        m.member_text("role"@) != Some("tool"@) ==> (m.member_items("tool_calls"@) matches Some(c)
            ==> turned(m).role == "assistant"@ && (turned(m).content matches json::JsonText::List(v)
            && v.len() == c.len() && (0 <= i < c.len() ==> {
            &&& v[i].member_text("type"@) == Some("tool_use"@)
            &&& v[i].member("input"@) == Some(arguments(c[i]))
            &&& c[i].member_text("id"@) matches Some(id) ==> v[i].member_text("id"@) == Some(id)
            &&& c[i].member("function"@) matches Some(f) ==> (f.member_text("name"@) matches Some(n)
                ==> v[i].member_text("name"@) == Some(n))
        }))),
        m.member_text("role"@) != Some("tool"@) && m.member_items("tool_calls"@) is None ==> (
        m.member_text("role"@) matches Some(r) ==> turned(m).role == r) && (
        m.member("content"@) matches Some(x) ==> turned(m).content == x),
{
    reveal_strlit("type");
    reveal_strlit("tool_use_id");
    reveal_strlit("content");
    reveal_strlit("id");
    reveal_strlit("name");
    reveal_strlit("input");
    reveal_strlit("tool");
    reveal_strlit("");
    assert("type"@.len() == 4 && "tool_use_id"@.len() == 11 && "content"@.len() == 7 && "id"@.len() == 2 && "name"@.len() == 4 && "input"@.len() == 5 && "tool"@.len() == 4 && ""@.len() == 0);
    assert("type"@[0] == 't' && "name"@[0] == 'n' && "type"@[1] == 'y' && "tool"@[1] == 'o');
    assert("tool"@[0] == 't');
    if m.member_text("role"@) == Some("tool"@) {
        let t = tool_result(m)->List_0[0]->Table_0;
        assert(t[0].0 == "type"@);
        assert(t[1].0 == "tool_use_id"@);
        assert(t[2].0 == "content"@);
        json::law_lookup(t, "type"@, 0);
        json::law_lookup(t, "tool_use_id"@, 1);
        json::law_lookup(t, "content"@, 2);
    } else if m.member_items("tool_calls"@) is Some {
        let c = m.member_items("tool_calls"@)->0;
        if 0 <= i < c.len() {
            let t = tool_use(c[i], arguments(c[i]))->Table_0;
            assert(t[0].0 == "type"@);
            assert(t[1].0 == "id"@);
            assert(t[2].0 == "name"@);
            assert(t[3].0 == "input"@);
            json::law_lookup(t, "type"@, 0);
            json::law_lookup(t, "id"@, 1);
            json::law_lookup(t, "name"@, 2);
            json::law_lookup(t, "input"@, 3);
        }
    }
}

/// Turns of one speaker are put together in their order, and nothing that was
/// said is lost.
pub proof fn law_merging(x: Seq<char>, y: Seq<char>, v: Seq<json::JsonText>, w: Seq<json::JsonText>, i: int)
    ensures
        merged(json::JsonText::Text(x), json::JsonText::Text(y)) == json::JsonText::Text(
            x + "\n\n"@ + y,
        ),
        merged(json::JsonText::List(v), json::JsonText::List(w)) matches json::JsonText::List(r)
            && r.len() == v.len() + w.len() && (0 <= i < v.len() ==> r[i] == v[i]) && (0 <= i
            < w.len() ==> r[v.len() + i] == w[i]),
        merged(json::JsonText::Text(x), json::JsonText::List(w)) matches json::JsonText::List(r)
            && r.len() == w.len() + 1 && r.skip(1) == w && r[0].member_text("text"@) == Some(x)
            && r[0].member_text("type"@) == Some("text"@),
        merged(json::JsonText::List(v), json::JsonText::Text(y)) matches json::JsonText::List(r)
            && r.len() == v.len() + 1 && r.drop_last() == v && r.last().member_text("text"@) == Some(
            y,
        ),
{
    reveal_strlit("type");
    reveal_strlit("text");
    assert("type"@.len() == 4 && "text"@.len() == 4);
    assert("type"@[1] == 'y' && "text"@[1] == 'e');
    let a = text_block(x)->Table_0;
    assert(a[0].0 == "type"@);
    assert(a[1].0 == "text"@);
    json::law_lookup(a, "type"@, 0);
    json::law_lookup(a, "text"@, 1);
    let b = text_block(y)->Table_0;
    assert(b[0].0 == "type"@);
    assert(b[1].0 == "text"@);
    json::law_lookup(b, "type"@, 0);
    json::law_lookup(b, "text"@, 1);
    assert((seq![text_block(x)] + w).skip(1) =~= w);
    assert(v.push(text_block(y)).drop_last() =~= v);
}

/// A message of the system is left out of the turns. Any other adds a turn, or
/// is put to the last one where that has the same speaker.
pub proof fn law_messages_become_turns(v: Seq<json::JsonText>, m: json::JsonText)
    ensures
        joined(Seq::empty()).len() == 0,
        m.member_text("role"@) == Some("system"@) ==> joined(v.push(m)) == joined(v),
        m.member_text("role"@) != Some("system"@) ==> {
            let r = joined(v.push(m));
            let before = joined(v);
            &&& before.len() == 0 || before.last().role != turned(m).role ==> r == before.push(
                turned(m),
            )
            &&& before.len() > 0 && before.last().role == turned(m).role ==> r.len() == before.len()
                && r.drop_last() == before.drop_last() && r.last().role == turned(m).role
                && r.last().content == merged(before.last().content, turned(m).content)
        },
{
    assert(v.push(m).drop_last() =~= v);
    let r = joined(v.push(m));
    let before = joined(v);
    if m.member_text("role"@) != Some("system"@) && before.len() > 0 && before.last().role == turned(
        m,
    ).role {
        assert(r.drop_last() =~= before.drop_last());
    }
}

/// Of an answer's parts the texts are joined and the calls are listed, in their
/// order.
pub proof fn law_parts_of_answers(v: Seq<json::JsonText>, b: json::JsonText)
    ensures
        text_of_blocks(Seq::empty()).len() == 0 && calls_of_blocks(Seq::empty()).len() == 0,
        b.member_text("type"@) == Some("text"@) ==> calls_of_blocks(v.push(b)) == calls_of_blocks(v)
            && (b.member_text("text"@) matches Some(s) ==> text_of_blocks(v.push(b))
            == text_of_blocks(v) + s),
        b.member_text("type"@) == Some("tool_use"@) ==> text_of_blocks(v.push(b)) == text_of_blocks(v)
            && calls_of_blocks(v.push(b)) == calls_of_blocks(v).push(call_of_block(b)),
        b.member_text("type"@) != Some("text"@) && b.member_text("type"@) != Some("tool_use"@)
            ==> text_of_blocks(v.push(b)) == text_of_blocks(v) && calls_of_blocks(v.push(b))
            == calls_of_blocks(v),
{
    assert(v.push(b).drop_last() =~= v);
    reveal_strlit("text");
    reveal_strlit("tool_use");
    assert("text"@.len() == 4 && "tool_use"@.len() == 8);
}

/// A call keeps its identifier, its name and its arguments.
pub proof fn law_calls_of_answers(b: json::JsonText, x: json::JsonText)
    ensures
        b.member("id"@) == Some(x) ==> call_of_block(b).member("id"@) == Some(x),
        call_of_block(b).member_text("type"@) == Some("function"@),
        call_of_block(b).member("function"@) matches Some(f) && (b.member("name"@) == Some(x)
            ==> f.member("name"@) == Some(x)) && (b.member("input"@) == Some(x)
            ==> f.member_text("arguments"@) == Some(json::written(x))),
{
    reveal_strlit("id");
    reveal_strlit("type");
    reveal_strlit("function");
    reveal_strlit("name");
    reveal_strlit("arguments");
    assert("id"@.len() == 2 && "type"@.len() == 4 && "function"@.len() == 8 && "name"@.len() == 4 && "arguments"@.len() == 9);
    assert("type"@[0] == 't' && "name"@[0] == 'n');
    let t = call_of_block(b)->Table_0;
    assert(t[0].0 == "id"@);
    assert(t[1].0 == "type"@);
    assert(t[2].0 == "function"@);
    json::law_lookup(t, "id"@, 0);
    json::law_lookup(t, "type"@, 1);
    json::law_lookup(t, "function"@, 2);
    let f = t[2].1->Table_0;
    assert(f[0].0 == "name"@);
    assert(f[1].0 == "arguments"@);
    json::law_lookup(f, "name"@, 0);
    json::law_lookup(f, "arguments"@, 1);
}

/// An answer becomes a message of the assistant with all that was said in it,
/// and with its calls where there are any.
pub proof fn law_answers(j: json::JsonText, v: Seq<json::JsonText>)
    requires
        j.member_items("content"@) == Some(v),
    ensures
        anthropic_answer(j).member_text("role"@) == Some("assistant"@),
        calls_of_blocks(v).len() > 0 ==> anthropic_answer(j).member_items("tool_calls"@) == Some(
            calls_of_blocks(v),
        ),
        calls_of_blocks(v).len() == 0 ==> anthropic_answer(j).member("tool_calls"@) is None,
        text_of_blocks(v).len() > 0 || calls_of_blocks(v).len() == 0 ==> anthropic_answer(
            j,
        ).member_text("content"@) == Some(text_of_blocks(v)),
        text_of_blocks(v).len() == 0 && calls_of_blocks(v).len() > 0 ==> anthropic_answer(j).member(
            "content"@,
        ) == Some(json::JsonText::Null),
{
    reveal_strlit("role");
    reveal_strlit("content");
    reveal_strlit("tool_calls");
    assert("role"@.len() == 4 && "content"@.len() == 7 && "tool_calls"@.len() == 10);
    let t = anthropic_answer(j)->Table_0;
    assert(t[0].0 == "role"@);
    assert(t[1].0 == "content"@);
    json::law_lookup(t, "role"@, 0);
    json::law_lookup(t, "content"@, 1);
    json::law_lookup(t, "tool_calls"@, 2);
}

/// The key goes with the request where it can stand in a header.
pub proof fn law_headers(key: Seq<char>)
    ensures
        endpoint::fits_header(key) ==> anthropic_header_pairs(Some(key)).contains(
            ("x-api-key"@, key),
        ),
        anthropic_header_pairs(Some(key)).contains(("anthropic-version"@, "2023-06-01"@)),
        anthropic_header_pairs(None).contains(("content-type"@, "application/json"@)),
        anthropic_header_pairs(None).len() == 2,
        !endpoint::fits_header(key) ==> anthropic_header_pairs(Some(key)).len() == 2,
{
    let v = anthropic_header_pairs(Some(key));
    if endpoint::fits_header(key) {
        assert(v[1] == ("x-api-key"@, key));
    }
    assert(v.last() == ("anthropic-version"@, "2023-06-01"@));
    assert(anthropic_header_pairs(None)[0] == ("content-type"@, "application/json"@));
}

/// An escalation that is allowed is counted, and one that is not changes
/// nothing.
pub proof fn law_escalations_are_counted()
    ensures
        forall|e: &mut EscalationEngine, r: bool| #[trigger]
            call_ensures(EscalationEngine::begin, (e,), r) ==> {
                &&& r <==> e.enabled && e.count < e.max_per_session
                &&& r ==> final(e)@.count == e.count + 1
                &&& !r ==> final(e)@ == e@
                &&& final(e)@.enabled == e.enabled && final(e)@.max_per_session == e.max_per_session
                    && final(e)@.provider == e@.provider && final(e)@.api_key == e@.api_key
            },
{
}

} // verus!
