use quota_float::balance::{
    api_plan, balance_from_json, balance_source_key, direct_balance_value, document_reply, is_success_status, is_usage_record,
    BalanceSearch, ProbeReply, ProbeVerdict,
};
use quota_float::config::ApiConfig;
use quota_float::headers::{api_key_headers, headers, Header};
use quota_float::auth::Auth;
use quota_float::json::{take_member, Json};
use quota_float::quota::BalanceValue;
use serde_json::Value;

fn to_json(v: &Value) -> Json {
    match v {
        Value::Null => Json::Null,
        Value::Bool(b) => Json::Bool(*b),
        Value::Number(n) => Json::Number(n.to_string()),
        Value::String(s) => Json::Str(s.clone()),
        Value::Array(items) => Json::Array(items.iter().map(to_json).collect()),
        Value::Object(map) => Json::Object(map.iter().map(|(k, v)| (k.clone(), to_json(v))).collect()),
    }
}

fn json(text: &str) -> Json {
    to_json(&serde_json::from_str::<Value>(text).unwrap())
}

/// A balance as the widget shows it: text as it is, a whole number without
/// decimals, any other number with two.
fn shown(balance: Option<BalanceValue>) -> Option<String> {
    balance.map(|b| match b {
        BalanceValue::Text(t) => t,
        BalanceValue::Number(n) => {
            let value: f64 = n.parse().unwrap();
            if value.fract().abs() < f64::EPSILON {
                format!("{}", value as i64)
            } else {
                format!("{value:.2}")
            }
        },
    })
}

#[test]
fn ignores_cc_switch_request_stats_as_balance() {
    let status = json(r#"{"running": true, "current_provider": "RuncodeAI", "total_requests": 3144}"#);
    assert!(balance_from_json(&status).is_none());
}

#[test]
fn parses_common_api_balance_shapes() {
    let credit_grants = json(r#"{"object": "credit_summary", "total_available": 12.345}"#);
    assert_eq!(shown(balance_from_json(&credit_grants)).as_deref(), Some("12.35"));

    let nested = json(r#"{"data": {"availableBalance": "$8.90"}}"#);
    assert_eq!(shown(balance_from_json(&nested)).as_deref(), Some("$8.90"));

    let usage_query = json(r#"{"data": {"quotaRemaining": 7.5, "used": 2.5, "total": 10, "unit": "USD"}}"#);
    assert_eq!(shown(balance_from_json(&usage_query)).as_deref(), Some("7.50"));

    let runcode_usage = json(r#"{"balance": 25.0, "daily_usage": [{"actual_cost": 25.0}, {"cost": 50.0}]}"#);
    assert_eq!(shown(balance_from_json(&runcode_usage)).as_deref(), Some("25"));
}

#[test]
fn balance_reading_order() {
    assert_eq!(
        balance_from_json(&json(r#"{"balance": "  ", "credits": 3}"#)),
        Some(BalanceValue::Number("3".to_string()))
    );
    assert_eq!(
        balance_from_json(&json(r#"{"result": {"remaining": " 4 USD "}}"#)),
        Some(BalanceValue::Text("4 USD".to_string()))
    );
    assert_eq!(
        balance_from_json(&json(r#"[{"x": 1}, {"wallet": {"amount": 9}}]"#)),
        Some(BalanceValue::Number("9".to_string()))
    );
    assert_eq!(balance_from_json(&json(r#"{"balance": true, "items": [1, 2]}"#)), None);
    assert_eq!(direct_balance_value(&json(r#""  $1  ""#)), Some(BalanceValue::Text("$1".to_string())));
    assert_eq!(direct_balance_value(&Json::Null), None);
}

#[test]
fn balance_search_stops_on_rejection_or_balance() {
    let mut search = BalanceSearch::new();
    assert_eq!(search.observe(&ProbeReply::Unreachable), ProbeVerdict::Next);
    assert_eq!(search.observe(&ProbeReply::Refused(404)), ProbeVerdict::Next);
    assert!(!search.saw_success);
    assert_eq!(search.observe(&ProbeReply::Refused(403)), ProbeVerdict::Rejected);
    assert_eq!(search.observe(&ProbeReply::Document(json(r#"{"total_requests": 1}"#))), ProbeVerdict::Next);
    assert!(search.saw_success);
    assert_eq!(
        search.observe(&ProbeReply::Document(json(r#"{"balance": "$2"}"#))),
        ProbeVerdict::Found(BalanceValue::Text("$2".to_string()))
    );
}

#[test]
fn balance_search_failure_messages() {
    let mut search = BalanceSearch::new();
    assert_eq!(
        search.failure_message(false),
        "API key is connected, but this provider does not expose a supported balance endpoint."
    );
    assert_eq!(search.observe(&ProbeReply::Unreadable), ProbeVerdict::Next);
    assert_eq!(search.failure_message(false), "API balance response did not contain a recognized balance field.");
    assert!(search.failure_message(true).starts_with("CC Switch is connected"));
    assert!(is_success_status(200));
    assert!(is_success_status(299));
    assert!(!is_success_status(300));
    assert!(!is_success_status(199));
}

#[test]
fn source_keys_are_hex_hashes() {
    let key = balance_source_key(&["RuncodeAI", "https://app.runcode.win", "sk-test"]);
    assert_eq!(key.len(), 16);
    assert!(key.chars().all(|c| c.is_ascii_hexdigit() && !c.is_ascii_uppercase()));
    assert!(!key.contains("sk-test"));
    assert_eq!(key, balance_source_key(&["RuncodeAI", "https://app.runcode.win", "sk-test"]));
    assert_ne!(key, balance_source_key(&["RuncodeAI", "https://app.runcode.win", "sk-other"]));
    let mut hasher = std::collections::hash_map::DefaultHasher::new();
    for part in ["RuncodeAI", "https://app.runcode.win", "sk-test"] {
        std::hash::Hash::hash(part, &mut hasher);
    }
    assert_eq!(key, format!("{:016x}", std::hash::Hasher::finish(&hasher)));
}

#[test]
fn plan_of_an_api_provider() {
    assert_eq!(api_plan("RuncodeAI"), "API \u{b7} RuncodeAI");
}

fn pairs(hs: &[Header]) -> Vec<(&str, &str, bool)> {
    hs.iter().map(|h| (h.name, h.value.as_str(), h.sensitive)).collect()
}

#[test]
fn builds_quota_request_headers() {
    let auth = Auth { access_token: "tok".into(), account_id: Some("acct".into()) };
    let hs = headers(&auth).unwrap();
    assert_eq!(
        pairs(&hs),
        vec![
            ("authorization", "Bearer tok", true),
            ("accept", "application/json", false),
            ("originator", "Codex Desktop", false),
            ("oai-product-sku", "CODEX", false),
            ("chatgpt-account-id", "acct", true),
        ]
    );
    let no_account = Auth { access_token: "tok".into(), account_id: None };
    assert_eq!(headers(&no_account).unwrap().len(), 4);
    let bad = Auth { access_token: "to\nk".into(), account_id: None };
    assert_eq!(headers(&bad).unwrap_err(), "Codex login data is invalid.");
    let bad_account = Auth { access_token: "tok".into(), account_id: Some("a\u{7f}".into()) };
    assert_eq!(headers(&bad_account).unwrap_err(), "Account identifier is invalid.");
}

#[test]
fn builds_balance_request_headers() {
    let config = ApiConfig {
        provider_name: "P".into(),
        base_url: "https://p.test".into(),
        balance_url: None,
        api_key: "sk-\u{e9}".into(),
    };
    let hs = api_key_headers(&config).unwrap();
    assert_eq!(
        pairs(&hs),
        vec![
            ("authorization", "Bearer sk-\u{e9}", true),
            ("accept", "application/json", false),
            ("user-agent", "CC Switch", false),
            ("x-api-key", "sk-\u{e9}", true),
        ]
    );
    let bad = ApiConfig { api_key: "sk\r\n".into(), ..config };
    assert_eq!(api_key_headers(&bad).unwrap_err(), "API key format is invalid.");
}

#[test]
fn usage_records_are_never_a_balance() {
    assert_eq!(balance_from_json(&json(r#"{"daily_usage": [{"amount": 1.5}]}"#)), None);
    assert_eq!(balance_from_json(&json(r#"{"data": {"usage": {"balance": 5}}}"#)), None);
    assert_eq!(balance_from_json(&json(r#"{"request_stats": {"credits": 3}}"#)), None);
    assert_eq!(
        balance_from_json(&json(r#"{"account_stats": {"balance": 3}}"#)),
        Some(BalanceValue::Number("3".to_string()))
    );
    assert_eq!(
        balance_from_json(&json(r#"{"daily_usage": [{"amount": 1.5}], "wallet": {"amount": 4}}"#)),
        Some(BalanceValue::Number("4".to_string()))
    );
    assert!(is_usage_record(&"Daily_Usage".to_string()));
    assert!(is_usage_record(&"Request_Count".to_string()));
    assert!(!is_usage_record(&"totalCost".to_string()));
    assert!(!is_usage_record(&"Statistics".to_string()));
    assert!(!is_usage_record(&"wallet".to_string()));
    assert!(!is_usage_record(&"status".to_string()));
}

#[test]
fn reads_endpoint_bodies() {
    assert_eq!(document_reply(b"<html></html>"), ProbeReply::Unreadable);
    assert_eq!(document_reply(b""), ProbeReply::Unreadable);
    assert_eq!(
        document_reply(br#"{"balance": 1.25, "currency": "USD"}"#),
        ProbeReply::Document(json(r#"{"balance": 1.25, "currency": "USD"}"#))
    );
    let mut search = BalanceSearch::new();
    assert_eq!(search.observe(&document_reply(br#"{"total_available": 3}"#)), ProbeVerdict::Found(BalanceValue::Number("3".to_string())));
}

#[test]
fn takes_members_out_of_documents() {
    let doc = json(r#"{"a": 1, "b": {"c": [true, null]}, "a2": "x"}"#);
    assert_eq!(take_member(doc, "b"), Some(json(r#"{"c": [true, null]}"#)));
    assert_eq!(take_member(json(r#"{"a": 1}"#), "z"), None);
    assert_eq!(take_member(json("[1, 2]"), "a"), None);
}
