//! Settings, the endpoint, and who may be reached.

use itsy::config::endpoint::{
    build_auth_headers, build_auth_headers_for, connect, env_str, ollama_has_model, ollama_trouble,
    plan_probe, resolve_api_key, take_window, endpoint_trouble, EnvKeys, Probe,
};
use itsy::config::file::{apply_migrations, file_text, read_config};
use itsy::config::{
    deps_ok, load_config, load_dotenv, normalize_base_url, provider_env_map, Config, ConfigFile,
    Flags,
};
use itsy::escalation::{
    anthropic_headers, anthropic_message, anthropic_messages, anthropic_request, escalation_providers, openai_message,
    first_model, openai_request, openai_url, refused, system_text, EscalationEngine, EscalationOptions,
};
use itsy::features::parse_fenced;
use itsy::guard::{assert_endpoint_allowed, is_always_blocked, is_loopback, is_rfc1918};
use itsy::json::Json;

fn json(s: &str) -> Json {
    parse_fenced(s).expect("valid JSON")
}

fn no_keys() -> EnvKeys {
    EnvKeys { openai: None, anthropic: None, deepseek: None }
}

#[test]
fn defaults_stand_without_a_file() {
    let c = load_config(&None, &Flags::default());
    assert_eq!(c.model.provider, "openai");
    assert_eq!(c.model.name, "");
    assert_eq!(c.model.base_url, "http://localhost:1234/v1");
    assert_eq!(c.model.timeout, 300);
    assert_eq!(c.context.detected_window, 128_000);
    assert_eq!(c.context.max_budget_pct, 70);
    assert_eq!(c.tools.tool_routing, "direct");
    assert!(c.tools.rtk);
    assert!(!c.git.auto_commit);
    assert_eq!(f64::from_bits(c.diff.max_ratio_bits), 0.5);
    assert_eq!(f64::from_bits(c.dedup.similarity_bits), 0.92);
    load_dotenv();
    assert!(deps_ok().is_ok());
}

#[test]
fn flags_win_over_the_file() {
    let mut file = ConfigFile::from_config(&Config::default());
    file.model.as_mut().unwrap().name = "from-file".to_string();
    file.tools = None;
    let mut flags = Flags::default();
    let c = load_config(&Some(file), &flags);
    assert_eq!(c.model.name, "from-file");
    assert_eq!(c.tools.bash_timeout, 30);
    let mut file = ConfigFile::from_config(&Config::default());
    file.model.as_mut().unwrap().name = "from-file".to_string();
    flags.model = Some("flag".to_string());
    flags.base_url = Some("box:8080/v1/".to_string());
    flags.classic = true;
    flags.verbose = true;
    let c = load_config(&Some(file), &flags);
    assert_eq!(c.model.name, "flag");
    assert_eq!(c.model.base_url, "http://box:8080/v1");
    assert!(c.tui.classic);
    assert!(c.diag.verbose);
}

#[test]
fn files_keep_the_settings() {
    let mut c = Config::default();
    c.model.name = "m".to_string();
    c.second_opinion.model = Some("other".to_string());
    let file = ConfigFile::from_config(&c);
    assert_eq!(file.version, "2");
    assert!(ConfigFile::from_config(&Config::default()).second_opinion.is_none());
    let mut d = Config::default();
    file.apply_to(&mut d);
    assert_eq!(d.model.name, "m");
    assert_eq!(d.second_opinion.model.as_deref(), Some("other"));
    assert!(d.second_opinion.is_configured());
    assert_eq!(d.second_opinion.resolved_model(&d), "other");
    assert_eq!(d.second_opinion.resolved_endpoint(&d), d.model.base_url);
    assert!(!Config::default().second_opinion.is_configured());
    assert!(d.second_opinion.is_distinct(&d));
    d.second_opinion.model = Some(d.model.name.clone());
    assert!(!d.second_opinion.is_distinct(&d));
}

#[test]
fn base_urls_are_normalised() {
    assert_eq!(normalize_base_url(" host:1234/v1// "), "http://host:1234/v1");
    assert_eq!(normalize_base_url("https://x/"), "https://x");
    assert_eq!(normalize_base_url("unix:///run/s"), "unix:///run/s");
    assert_eq!(normalize_base_url("ftp://host/v1"), "ftp://host/v1");
    assert_eq!(normalize_base_url("git+ssh://host"), "git+ssh://host");
    assert_eq!(normalize_base_url("7z://host"), "http://7z://host");
    assert_eq!(normalize_base_url("://host"), "http://://host");
    assert_eq!(normalize_base_url(" / "), "http://localhost:1234/v1");
}

#[test]
fn old_files_are_migrated() {
    let v = read_config("[model]\nname = \"x\"\n[tools]\nbash_timeout = 5\n[features]\nsnapshot = true\n")
        .unwrap();
    assert_eq!(v.get_str("version").unwrap(), "2");
    assert_eq!(v.pointer("model/name").unwrap().as_str().unwrap(), "x");
    assert_eq!(v.pointer("tools/bash_timeout").unwrap().as_u64(), Some(5));
    assert_eq!(v.pointer("tools/rtk").unwrap().as_bool(), Some(true));
    assert_eq!(v.pointer("tools/shell_contain").unwrap().as_bool(), Some(false));
    assert_eq!(v.pointer("features/bootstrap_max_chars").unwrap().as_u64(), Some(4000));
    assert_eq!(v.pointer("limits").unwrap().as_object().unwrap().len(), 0);
    assert_eq!(v.pointer("features/snapshot").unwrap().as_bool(), Some(true));
    let own = read_config("[tools]\nrtk = false\nown = 1\n[limits]\nx = 2\n").unwrap();
    assert_eq!(own.pointer("tools/rtk").unwrap().as_bool(), Some(false));
    assert_eq!(own.pointer("tools/own").unwrap().as_u64(), Some(1));
    assert_eq!(own.pointer("limits/x").unwrap().as_u64(), Some(2));
    let kept = read_config("version = \"2\"\n[tools]\nrtk = false\n").unwrap();
    assert_eq!(kept.pointer("tools/rtk").unwrap().as_bool(), Some(false));
    assert!(kept.get("limits").is_none());
    assert_eq!(
        apply_migrations(json("{\"version\":\"7\"}")).unwrap_err(),
        "config version 7 has no migration to 2"
    );
    assert!(read_config("= nonsense").is_err());
    assert!(file_text("version = \"2\"\n").starts_with("# itsy config"));
    assert!(file_text("version = \"2\"\n").ends_with("\n\nversion = \"2\"\n"));
}

#[test]
fn keys_are_found_in_order() {
    assert_eq!(env_str(&Some(String::new())), None);
    let mut k = no_keys();
    assert_eq!(resolve_api_key(&k, &Some("own".to_string())).unwrap(), "own");
    k.deepseek = Some("d".to_string());
    assert_eq!(resolve_api_key(&k, &Some("own".to_string())).unwrap(), "d");
    k.openai = Some("o".to_string());
    assert_eq!(resolve_api_key(&k, &None).unwrap(), "o");
    let h = build_auth_headers_for(&k, &None, "https://openrouter.ai/api");
    assert_eq!(h.len(), 3);
    assert_eq!(h[0], ("content-type".to_string(), "application/json".to_string()));
    assert_eq!(h[1], ("authorization".to_string(), "Bearer o".to_string()));
    assert_eq!(h[2], ("X-Title".to_string(), "itsy".to_string()));
    assert_eq!(build_auth_headers(&no_keys(), &Config::default().model).len(), 1);
    let m = provider_env_map();
    assert!(m.contains(&("deepseek", "DEEPSEEK_API_KEY")));
    assert_eq!(m.len(), 3);
}

#[test]
fn endpoints_are_probed() {
    match plan_probe("openai", "", &None) {
        Probe::Models { url, base } => {
            assert_eq!(url, "http://localhost:11434/models");
            assert_eq!(base, "http://localhost:11434");
        }
        other => panic!("expected the list of models, got {other:?}"),
    }
    match plan_probe("ollama", "http://h", &Some("http://o".to_string())) {
        Probe::Ollama { url } => assert_eq!(url, "http://o/api/tags"),
        other => panic!("expected the tags, got {other:?}"),
    }
    let answer = json("{\"data\":[{\"id\":\"a\"},{\"id\":\"big-m\",\"context_length\":4096}]}");
    let c = connect("http://h/v1", "m", &answer);
    assert_eq!(
        c.lines,
        vec![
            "  Connected: http://h/v1".to_string(),
            "  Model: m".to_string(),
            "  Context: 4096 tokens".to_string()
        ]
    );
    let mut config = Config::default();
    take_window(&mut config, c.window);
    assert_eq!(config.context.detected_window, 4096);
    assert!(connect("b", "m", &json("{}")).lines.is_empty());
    assert_eq!(endpoint_trouble("b", Some(401)).len(), 3);
    assert_eq!(endpoint_trouble("b", Some(500)).len(), 2);
    assert_eq!(endpoint_trouble("b", None).len(), 2);
    let tags = json("{\"models\":[{\"name\":\"qwen:7b\"}]}");
    assert!(ollama_has_model(&tags, "qwen:latest"));
    assert!(!ollama_has_model(&tags, "gemma"));
    assert_eq!(ollama_trouble(true, "m")[1], "  Run: ollama pull m");
    assert_eq!(ollama_trouble(false, "m").len(), 1);
}

#[test]
fn private_hosts_are_known() {
    assert!(is_loopback("127.0.0.1"));
    assert!(is_loopback("localhost"));
    assert!(is_rfc1918("10.1.2.3"));
    assert!(is_rfc1918("172.31.0.1"));
    assert!(!is_rfc1918("172.32.0.1"));
    assert!(is_rfc1918("192.168.0.9"));
    assert!(!is_rfc1918("192.168.0"));
    assert!(is_rfc1918("x.10.1.2.3"));
    assert!(is_always_blocked("169.254.1.1"));
    assert!(is_always_blocked("100.64.0.1"));
    assert!(!is_always_blocked("100.128.0.1"));
    assert!(is_always_blocked("0.1.2.3"));
    assert!(is_always_blocked("metadata"));
}

#[test]
fn endpoints_are_guarded() {
    assert!(assert_endpoint_allowed("http://LOCALHOST:1234/v1", "", "").is_ok());
    assert!(assert_endpoint_allowed("http://10.0.0.7/v1", "", "").is_ok());
    assert_eq!(
        assert_endpoint_allowed("nonsense", "", "").unwrap_err(),
        "Invalid endpoint URL: nonsense"
    );
    assert_eq!(
        assert_endpoint_allowed("ftp://localhost/", "1", "").unwrap_err(),
        "Endpoint must use http(s): ftp://localhost/"
    );
    assert_eq!(
        assert_endpoint_allowed("http://169.254.169.254/", "1", "http://169.254.169.254").unwrap_err(),
        "Endpoint http://169.254.169.254/ targets a metadata/link-local address; refusing."
    );
    assert!(assert_endpoint_allowed("https://api.example.com/v1", "", "").is_err());
    assert!(assert_endpoint_allowed("https://api.example.com/v1", "1", "").is_ok());
    assert!(assert_endpoint_allowed("https://api.example.com/v1", "yes", "").is_err());
    assert!(assert_endpoint_allowed("https://api.example.com/v1", "", " , https://API.example.com:443/x").is_ok());
    assert!(assert_endpoint_allowed("https://api.example.com/v1", "", "http://api.example.com").is_err());
}

#[test]
fn larger_models_are_called_in() {
    let o = EscalationOptions::default();
    let none = EscalationEngine::new(&o, &vec![None, Some(String::new()), None]);
    assert!(!none.can_escalate());
    assert_eq!(none.status(), "disabled (no API key configured)");
    let mut e = EscalationEngine::new(&o, &vec![None, Some("k".to_string()), Some("d".to_string())]);
    assert_eq!(e.status(), "OpenAI (gpt-5.4-mini) — 0/5 used");
    assert!(!e.speaks_anthropic());
    for _ in 0..5 {
        assert!(e.begin());
    }
    assert!(!e.begin());
    assert_eq!(e.count, 5);
    let named = EscalationOptions {
        provider: Some("anthropic".to_string()),
        api_key: Some("a".to_string()),
        model: Some("big".to_string()),
        ..EscalationOptions::default()
    };
    let e = EscalationEngine::new(&named, &vec![None, None, None]);
    assert!(e.speaks_anthropic());
    assert_eq!(e.model.as_deref(), Some("big"));
    let offer = json("{\"data\":[{\"id\":\"newest\"},{\"id\":\"older\"}]}");
    assert_eq!(first_model(&offer).as_deref(), Some("newest"));
    assert_eq!(first_model(&json("{\"data\":[]}")), None);
    assert_eq!(e.base_url.as_deref(), Some("https://api.anthropic.com/v1"));
    let unknown = EscalationOptions {
        provider: Some("nobody".to_string()),
        api_key: Some("a".to_string()),
        ..EscalationOptions::default()
    };
    let e = EscalationEngine::new(&unknown, &vec![None, None, Some("d".to_string())]);
    assert_eq!(e.provider.unwrap().key, "deepseek");
    assert_eq!(escalation_providers().len(), 3);
    assert!(system_text("extra").ends_with("Just fix it.\nextra"));
}

#[test]
fn requests_are_put_together() {
    let messages = vec![json("{\"role\":\"user\",\"content\":\"hi\"}")];
    let r = openai_request(&Some("m".to_string()), "sys", &messages, &vec![]);
    assert_eq!(r.get_array("messages").unwrap().len(), 2);
    assert_eq!(r.pointer("messages/0/content").unwrap().as_str().unwrap(), "sys");
    assert!(r.get("tools").is_none());
    assert_eq!(openai_url(&Some("http://b".to_string())), "http://b/chat/completions");
    assert_eq!(openai_url(&None), "/chat/completions");
    let m = openai_message(&json("{\"choices\":[{\"message\":{\"content\":\"x\"}}]}")).unwrap();
    assert_eq!(m.get_str("content").unwrap(), "x");
    assert!(openai_message(&json("{}")).is_none());
    assert_eq!(
        refused("Anthropic", 500, "boom").get_str("error").unwrap(),
        "Anthropic error 500: boom"
    );
    let tools = vec![json("{\"function\":{\"name\":\"t\",\"parameters\":{}}}")];
    let r = anthropic_request(&Some("m".to_string()), "sys", &messages, &tools);
    assert_eq!(r.get_u64("max_tokens"), Some(4096));
    assert_eq!(r.pointer("tools/0/name").unwrap().as_str().unwrap(), "t");
    assert!(matches!(r.pointer("tools/0/description").unwrap(), Json::Null));
}

#[test]
fn roles_alternate_for_anthropic() {
    let messages = vec![
        json("{\"role\":\"system\",\"content\":\"s\"}"),
        json("{\"role\":\"assistant\",\"tool_calls\":[{\"id\":\"1\",\"function\":{\"name\":\"ls\",\"arguments\":\"{\\\"a\\\":1}\"}}]}"),
        json("{\"role\":\"tool\",\"tool_call_id\":\"1\",\"content\":\"out\"}"),
        json("{\"role\":\"user\",\"content\":\"next\"}"),
        json("{\"role\":\"user\",\"content\":\"again\"}"),
    ];
    let turns = anthropic_messages(&messages);
    let roles: Vec<&str> = turns.iter().map(|t| t.role.as_str()).collect();
    assert_eq!(roles, vec!["user", "assistant", "user"]);
    assert_eq!(turns[0].content.as_str().unwrap(), "(continuing from earlier context)");
    assert_eq!(turns[1].content.pointer("0/input/a").unwrap().as_u64(), Some(1));
    let last = turns[2].content.as_array().unwrap();
    assert_eq!(last.len(), 3);
    assert_eq!(last[0].get_str("type").unwrap(), "tool_result");
    assert_eq!(last[2].get_str("text").unwrap(), "again");
    let two = anthropic_messages(&vec![
        json("{\"role\":\"user\",\"content\":\"a\"}"),
        json("{\"role\":\"user\",\"content\":\"b\"}"),
    ]);
    assert_eq!(two.len(), 1);
    assert_eq!(two[0].content.as_str().unwrap(), "a\n\nb");
}

#[test]
fn answers_of_anthropic_are_read() {
    let m = anthropic_message(&json(
        "{\"content\":[{\"type\":\"text\",\"text\":\"a\"},{\"type\":\"tool_use\",\"id\":\"i\",\"name\":\"n\",\"input\":{\"x\":1}},{\"type\":\"text\",\"text\":\"b\"}]}",
    ));
    assert_eq!(m.get_str("content").unwrap(), "ab");
    assert_eq!(
        m.pointer("tool_calls/0/function/arguments").unwrap().as_str().unwrap(),
        "{\"x\":1}"
    );
    let m = anthropic_message(&json("{\"content\":[{\"type\":\"tool_use\"}]}"));
    assert!(matches!(m.get("content").unwrap(), Json::Null));
    let m = anthropic_message(&json("{}"));
    assert_eq!(m.get_str("content").unwrap(), "");
    assert!(m.get("tool_calls").is_none());
}

#[test]
fn keys_that_fit_no_header_are_left_out() {
    let with = |k: &str| build_auth_headers_for(&no_keys(), &Some(k.to_string()), "http://x");
    assert_eq!(with("k\te y é").len(), 2);
    assert_eq!(with("k\te y é")[1].1, "Bearer k\te y é");
    assert_eq!(with("key\n").len(), 1);
    assert_eq!(with("key\u{7f}").len(), 1);
    let names = |k: &str| -> Vec<String> {
        anthropic_headers(&Some(k.to_string())).into_iter().map(|h| h.0).collect()
    };
    assert_eq!(names("k"), vec!["content-type", "x-api-key", "anthropic-version"]);
    assert_eq!(names("k\r"), vec!["content-type", "anthropic-version"]);
    assert_eq!(anthropic_headers(&None).len(), 2);
}

#[test]
fn answers_are_limited() {
    let mut l = Config::default().limits;
    assert_eq!(l.output_limit(2048), 6144);
    assert_eq!(l.output_limit(u32::MAX), 4_294_971_391);
    l.max_output_tokens = 100;
    assert_eq!(l.output_limit(2048), 100);
}
