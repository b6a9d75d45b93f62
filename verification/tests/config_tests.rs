use quota_float::config::{
    api_balance_urls, api_key_env_var, cc_switch_api_config_from_texts, cc_switch_api_config_from_values,
    cc_switch_wanted, codex_plus_api_config_from_settings, codex_plus_api_config_from_text, js_string_property, load_api_config_from_raw,
    load_api_key_from_auth_contents, usable_api_key, ApiConfig, ConfigSources,
};
use quota_float::json::Json;
use quota_float::toml::{parse_toml_string_line, provider_toml_string, top_level_toml_string};
use quota_float::urls::{cc_switch_status_url, is_cc_switch_proxy_url, is_codex_plus_proxy_url, trimmed_url};
use serde_json::Value;

fn to_json(v: &Value) -> Json {
    match v {
        Value::Null => Json::Null,
        Value::Bool(b) => Json::Bool(*b),
        Value::Number(n) => Json::Number(n.to_string()),
        Value::String(s) => Json::Str(s.clone()),
        Value::Array(items) => Json::Array(items.iter().map(to_json).collect()),
        Value::Object(map) => Json::Object(map.iter().map(|(k, v)| (k.clone(), to_json(v))).collect()),
    }
}

fn json(text: &str) -> Json {
    to_json(&serde_json::from_str::<Value>(text).unwrap())
}

const RUNCODE_CONFIG: &str = "model_provider = \"custom\"\n[model_providers.custom]\nname = \"RuncodeAI\"\nbase_url = \"https://app.runcode.win\"\n";

fn no_sources() -> ConfigSources {
    ConfigSources { cc_switch: None, named_env_key: None, openai_env_key: None, auth_file_key: None }
}

#[test]
fn ignores_proxy_managed_as_api_key() {
    assert!(usable_api_key("PROXY_MANAGED".into()).is_none());
    assert_eq!(usable_api_key(" sk-test ".into()).as_deref(), Some("sk-test"));
}

#[test]
fn usable_api_key_rejects_blank_and_any_case_of_proxy_managed() {
    assert!(usable_api_key("   ".into()).is_none());
    assert!(usable_api_key("".into()).is_none());
    assert!(usable_api_key("  proxy_managed\n".into()).is_none());
    assert_eq!(usable_api_key("sk-a b".into()).as_deref(), Some("sk-a b"));
}

#[test]
fn parses_cc_switch_usage_query_config() {
    let settings = Json::Object(vec![
        ("auth".to_string(), json(r#"{"OPENAI_API_KEY": "sk-test"}"#)),
        ("config".to_string(), Json::Str(RUNCODE_CONFIG.to_string())),
    ]);
    let code = "({ request: { url: \"{{baseUrl}}/v1/usage\", method: \"GET\", headers: { \"Authorization\": \"Bearer {{apiKey}}\" } } })";
    let meta = Json::Object(vec![(
        "usage_script".to_string(),
        Json::Object(vec![
            ("code".to_string(), Json::Str(code.to_string())),
            ("enabled".to_string(), Json::Bool(true)),
        ]),
    )]);
    let config = cc_switch_api_config_from_values("RuncodeAI", &settings, &meta).unwrap();
    assert_eq!(config.provider_name, "RuncodeAI");
    assert_eq!(config.base_url, "https://app.runcode.win");
    assert_eq!(config.balance_url.as_deref(), Some("https://app.runcode.win/v1/usage"));
    assert_eq!(config.api_key, "sk-test");
}

#[test]
fn cc_switch_usage_query_is_ignored_when_disabled() {
    let settings = Json::Object(vec![
        ("auth".to_string(), json(r#"{"OPENAI_API_KEY": "sk-test"}"#)),
        ("config".to_string(), Json::Str(RUNCODE_CONFIG.to_string())),
    ]);
    let meta = json(r#"{"usage_script": {"enabled": false, "code": "({ url: \"{{baseUrl}}/v1/usage\" })"}}"#);
    let config = cc_switch_api_config_from_values("RuncodeAI", &settings, &meta).unwrap();
    assert_eq!(config.balance_url, None);
    assert_eq!(config.api_key, "sk-test");
}

#[test]
fn cc_switch_without_key_gives_no_config() {
    let settings = Json::Object(vec![("config".to_string(), Json::Str(RUNCODE_CONFIG.to_string()))]);
    assert!(cc_switch_api_config_from_values("RuncodeAI", &settings, &Json::Null).is_none());
}

#[test]
fn parses_codex_plus_top_level_relay_config() {
    let settings = json(r#"{"relayBaseUrl": "https://app.runcode.win", "relayApiKey": "sk-test"}"#);
    let config = codex_plus_api_config_from_settings(&settings, Some(RUNCODE_CONFIG)).unwrap();
    assert_eq!(config.provider_name, "RuncodeAI");
    assert_eq!(config.base_url, "https://app.runcode.win");
    assert_eq!(config.api_key, "sk-test");
}

#[test]
fn parses_codex_plus_active_relay_profile_auth_contents() {
    let profile = Json::Object(vec![
        ("authContents".to_string(), Json::Str("{\"OPENAI_API_KEY\":\"sk-test\"}".to_string())),
        ("configContents".to_string(), Json::Str(RUNCODE_CONFIG.to_string())),
        ("id".to_string(), Json::Str("relay-a".to_string())),
        ("name".to_string(), Json::Str("30".to_string())),
        ("upstreamBaseUrl".to_string(), Json::Str("https://app.runcode.win".to_string())),
    ]);
    let settings = Json::Object(vec![
        ("activeRelayId".to_string(), Json::Str("relay-a".to_string())),
        (
            "relayProfiles".to_string(),
            Json::Array(vec![json(r#"{"id": "default", "relayMode": "official"}"#), profile]),
        ),
    ]);
    let config = codex_plus_api_config_from_settings(&settings, None).unwrap();
    assert_eq!(config.provider_name, "RuncodeAI");
    assert_eq!(config.base_url, "https://app.runcode.win");
    assert_eq!(config.api_key, "sk-test");
}

#[test]
fn builds_api_balance_urls_from_v1_base() {
    let config = ApiConfig {
        provider_name: "RuncodeAI".into(),
        base_url: "http://127.0.0.1:15721/v1/".into(),
        balance_url: None,
        api_key: "sk-test".into(),
    };
    let urls = api_balance_urls(&config);
    assert!(urls.contains(&"http://127.0.0.1:15721/v1/dashboard/billing/credit_grants".into()));
    assert!(urls.contains(&"http://127.0.0.1:15721/v1/api/user/self".into()));
    assert!(urls.contains(&"http://127.0.0.1:15721/dashboard/billing/credit_grants".into()));
    assert!(urls.contains(&"http://127.0.0.1:15721/api/user/self".into()));
}

#[test]
fn builds_api_balance_urls_from_root_base() {
    let config = ApiConfig {
        provider_name: "RuncodeAI".into(),
        base_url: "https://app.runcode.win".into(),
        balance_url: None,
        api_key: "sk-test".into(),
    };
    let urls = api_balance_urls(&config);
    assert!(urls.contains(&"https://app.runcode.win/v1/usage".into()));
}

#[test]
fn custom_balance_url_is_tried_first() {
    let config = ApiConfig {
        provider_name: "Custom".into(),
        base_url: "https://example.com/v1".into(),
        balance_url: Some("https://example.com/custom-balance".into()),
        api_key: "sk-test".into(),
    };
    assert_eq!(
        api_balance_urls(&config).first().map(String::as_str),
        Some("https://example.com/custom-balance")
    );
}

#[test]
fn balance_urls_are_distinct_and_stay_under_the_base() {
    let config = ApiConfig {
        provider_name: "Custom".into(),
        base_url: " https://example.com/v1// ".into(),
        balance_url: Some("https://example.com/v1/usage".into()),
        api_key: "sk-test".into(),
    };
    let urls = api_balance_urls(&config);
    assert_eq!(urls.len(), 16);
    assert_eq!(urls[0], "https://example.com/v1/usage");
    assert_eq!(urls[1], "https://example.com/v1/dashboard/billing/credit_grants");
    assert_eq!(urls[3], "https://example.com/v1/api/user/self");
    assert_eq!(urls[8], "https://example.com/dashboard/billing/credit_grants");
    assert_eq!(urls[15], "https://example.com/balance");
    for (i, a) in urls.iter().enumerate() {
        assert!(a.starts_with("https://example.com"));
        for b in &urls[i + 1..] {
            assert_ne!(a, b);
        }
    }
}

#[test]
fn blank_base_url_gives_no_balance_urls() {
    let config = ApiConfig {
        provider_name: "Custom".into(),
        base_url: "  / ".into(),
        balance_url: Some("https://example.com/custom".into()),
        api_key: "sk-test".into(),
    };
    assert!(api_balance_urls(&config).is_empty());
}

#[test]
fn trims_urls_and_finds_the_status_page() {
    assert_eq!(trimmed_url("  https://x.test/v1///  "), "https://x.test/v1");
    assert_eq!(cc_switch_status_url("http://127.0.0.1:15721/v1/").as_deref(), Some("http://127.0.0.1:15721/status"));
    assert_eq!(cc_switch_status_url("http://localhost:8080/V1").as_deref(), Some("http://localhost:8080/status"));
    assert_eq!(cc_switch_status_url("https://app.runcode.win/v1"), None);
    assert!(is_cc_switch_proxy_url("HTTP://LOCALHOST:15721/v1"));
    assert!(!is_cc_switch_proxy_url("http://localhost:15722/v1"));
    assert!(is_codex_plus_proxy_url("http://127.0.0.1:57321"));
    assert!(!is_codex_plus_proxy_url("https://app.runcode.win"));
}

#[test]
fn reads_toml_strings() {
    assert_eq!(parse_toml_string_line("name = \"Runcode\"", "name").as_deref(), Some("Runcode"));
    assert_eq!(parse_toml_string_line("  name='x' # note", "name").as_deref(), Some("x"));
    assert_eq!(parse_toml_string_line("names = \"x\"", "name"), None);
    assert_eq!(top_level_toml_string(RUNCODE_CONFIG, "model_provider").as_deref(), Some("custom"));
    assert_eq!(top_level_toml_string(RUNCODE_CONFIG, "name"), None);
    assert_eq!(provider_toml_string(RUNCODE_CONFIG, "custom", "base_url").as_deref(), Some("https://app.runcode.win"));
    assert_eq!(provider_toml_string(RUNCODE_CONFIG, "other", "base_url"), None);
}

#[test]
fn reads_js_string_properties() {
    assert_eq!(js_string_property("{ url: 'https://a/b', x: 1 }", "url").as_deref(), Some("https://a/b"));
    assert_eq!(js_string_property("{ url : \"q\" }", "url").as_deref(), Some("q"));
    assert_eq!(js_string_property("{ url: value }", "url"), None);
    assert_eq!(js_string_property("{ x: 1 }", "url"), None);
}

#[test]
fn reads_api_keys_from_auth_contents() {
    assert_eq!(load_api_key_from_auth_contents("{\"OPENAI_API_KEY\":\" sk-1 \"}").as_deref(), Some("sk-1"));
    assert_eq!(load_api_key_from_auth_contents("{\"apiKey\":\"sk-2\",\"OPENAI_API_KEY\":\"PROXY_MANAGED\"}"), None);
    assert_eq!(load_api_key_from_auth_contents("not json"), None);
}

#[test]
fn api_config_from_config_with_bearer_token() {
    let raw = "model_provider = \"relay\"\n[model_providers.relay]\nname = \"Relay\"\nbase_url = \"https://relay.test/v1\"\nexperimental_bearer_token = \"sk-bearer\"\n";
    let config = load_api_config_from_raw(raw, None, no_sources()).unwrap();
    assert_eq!(config.provider_name, "Relay");
    assert_eq!(config.base_url, "https://relay.test/v1");
    assert_eq!(config.api_key, "sk-bearer");
    assert!(!cc_switch_wanted(raw));
    assert_eq!(api_key_env_var(raw), None);
}

#[test]
fn api_config_from_auth_file_key() {
    let sources = ConfigSources { auth_file_key: Some("sk-file".into()), ..no_sources() };
    let config = load_api_config_from_raw(RUNCODE_CONFIG, None, sources).unwrap();
    assert_eq!(config.provider_name, "RuncodeAI");
    assert_eq!(config.api_key, "sk-file");
}

#[test]
fn no_api_config_without_a_key() {
    assert!(load_api_config_from_raw(RUNCODE_CONFIG, None, no_sources()).is_none());
}

#[test]
fn proxy_managed_config_prefers_cc_switch() {
    let raw = "model_provider = \"ccs\"\n[model_providers.ccs]\nname = \"CC Switch\"\nbase_url = \"http://127.0.0.1:15721/v1\"\nexperimental_bearer_token = \"PROXY_MANAGED\"\n";
    assert!(cc_switch_wanted(raw));
    let current = ApiConfig {
        provider_name: "RuncodeAI".into(),
        base_url: "https://app.runcode.win".into(),
        balance_url: None,
        api_key: "sk-real".into(),
    };
    let sources = ConfigSources { cc_switch: Some(current.clone()), ..no_sources() };
    assert_eq!(load_api_config_from_raw(raw, None, sources), Some(current));
}

#[test]
fn reads_only_well_shaped_setting_lines() {
    assert_eq!(parse_toml_string_line("base_url_x = \"a\"", "base_url"), None);
    assert_eq!(parse_toml_string_line("port = 8080", "port"), None);
    assert_eq!(parse_toml_string_line("k = \"open", "k"), None);
    assert_eq!(parse_toml_string_line("k\t=  'a\"b' tail", "k").as_deref(), Some("a\"b"));
    assert_eq!(js_string_property("baseurl: 1, url: 'x'", "url"), None);
    assert_eq!(js_string_property("{ url: 'x' }", "url").as_deref(), Some("x"));
}

#[test]
fn reads_cc_switch_provider_columns_as_text() {
    let settings = r#"{"auth": {"OPENAI_API_KEY": "sk-test"},
        "config": "model_provider = \"custom\"\n[model_providers.custom]\nname = \"RuncodeAI\"\nbase_url = \"https://app.runcode.win\"\n"}"#;
    let meta = r#"{"usage_script": {"enabled": true, "code": "({ url: \"{{baseUrl}}/v1/usage\" })"}}"#;
    let config = cc_switch_api_config_from_texts("RuncodeAI", settings, meta).unwrap();
    assert_eq!(config.provider_name, "RuncodeAI");
    assert_eq!(config.base_url, "https://app.runcode.win");
    assert_eq!(config.balance_url.as_deref(), Some("https://app.runcode.win/v1/usage"));
    assert_eq!(config.api_key, "sk-test");
    assert!(cc_switch_api_config_from_texts("RuncodeAI", settings, "{").is_none());
    assert!(cc_switch_api_config_from_texts("RuncodeAI", "", meta).is_none());
}

#[test]
fn reads_codex_plus_settings_text() {
    let raw = r#"{"relayBaseUrl": "https://app.runcode.win", "relayApiKey": "sk-test"}"#;
    let config = codex_plus_api_config_from_text(raw, Some(RUNCODE_CONFIG)).unwrap();
    assert_eq!(config.provider_name, "RuncodeAI");
    assert_eq!(config.base_url, "https://app.runcode.win");
    assert_eq!(config.api_key, "sk-test");
    assert!(codex_plus_api_config_from_text("relayApiKey = 1", Some(RUNCODE_CONFIG)).is_none());
}
