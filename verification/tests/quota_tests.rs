use quota_float::json::Json;
use quota_float::quota::{
    app_server_line, app_server_reply, app_server_snapshot_at, collect_reset_credit_expirations,
    find_window, parse_app_server_window, parse_window, ratio_rule, response_id_is, safe_http_failure,
    wham_snapshot_at, wham_snapshot_from_bytes, AppServerLine, AppServerReply, BalanceValue, RatioRule, WindowReading,
};
use serde_json::Value;

fn to_json(v: &Value) -> Json {
    match v {
        Value::Null => Json::Null,
        Value::Bool(b) => Json::Bool(*b),
        Value::Number(n) => Json::Number(n.to_string()),
        Value::String(s) => Json::Str(s.clone()),
        Value::Array(items) => Json::Array(items.iter().map(to_json).collect()),
        Value::Object(map) => Json::Object(map.iter().map(|(k, v)| (k.clone(), to_json(v))).collect()),
    }
}

fn json(text: &str) -> Json {
    to_json(&serde_json::from_str::<Value>(text).unwrap())
}

/// The remaining percentage a reading stands for, computed as the widget
/// computes it from the number.
fn remaining_percent(w: &WindowReading) -> f64 {
    let value: f64 = w.number.parse().unwrap();
    let scale = w.scales_ratios
        && match ratio_rule(&w.key) {
            RatioRule::Always => true,
            RatioRule::WhenAtMostOne => value <= 1.0,
            RatioRule::Never => false,
        };
    let percent = if scale { value * 100.0 } else { value };
    let remaining = if w.measures_used { 100.0 - percent } else { percent };
    remaining.clamp(0.0, 100.0)
}

fn utc(seconds: i64) -> String {
    chrono::DateTime::from_timestamp(seconds, 0).unwrap().to_rfc3339()
}

#[test]
fn parses_both_window_shapes() {
    let snake = json(r#"{"used_percent": 26, "reset_at": 1738300000, "limit_window_seconds": 18000}"#);
    let window = parse_window(Some(&snake)).unwrap();
    assert_eq!(remaining_percent(&window), 74.0);
    assert_eq!(window.window_seconds, 18000);
    let camel = json(r#"{"utilization": 0.4, "resetsAt": "2026-07-07T00:00:00Z", "windowSeconds": 604800}"#);
    assert_eq!(remaining_percent(&parse_window(Some(&camel)).unwrap()), 60.0);
}

#[test]
fn window_reading_keeps_the_source_field() {
    let snake = json(r#"{"used_percent": 26, "reset_at": 1738300000, "limit_window_seconds": 18000}"#);
    let window = parse_window(Some(&snake)).unwrap();
    assert_eq!(window.key, "used_percent");
    assert_eq!(window.number, "26");
    assert!(window.measures_used);
    assert_eq!(window.resets_at, Some(utc(1738300000)));
    let camel = json(r#"{"utilization": 0.4, "resetsAt": "2026-07-07T00:00:00Z", "windowSeconds": 604800}"#);
    let window = parse_window(Some(&camel)).unwrap();
    assert_eq!(window.resets_at.as_deref(), Some("2026-07-07T00:00:00Z"));
    assert_eq!(window.window_seconds, 604800);
    assert!(parse_window(None).is_none());
    assert!(parse_window(Some(&json(r#"{"windowSeconds": 18000}"#))).is_none());
}

#[test]
fn prefers_explicit_remaining_percent() {
    let value = json(r#"{"remainingPercent": 73.4, "usedPercent": 99, "resetTime": "2026-07-07T00:00:00Z", "durationSeconds": 18000}"#);
    let window = parse_window(Some(&value)).unwrap();
    assert_eq!(remaining_percent(&window), 73.4);
    assert_eq!(window.window_seconds, 18000);
}

#[test]
fn treats_fractional_percent_fields_as_ratios() {
    let explicit_remaining = json(r#"{"remaining": 0.25, "periodSeconds": 18000}"#);
    assert_eq!(remaining_percent(&parse_window(Some(&explicit_remaining)).unwrap()), 25.0);
    let used_ratio = json(r#"{"used": 0.25, "periodSeconds": 18000}"#);
    assert_eq!(remaining_percent(&parse_window(Some(&used_ratio)).unwrap()), 75.0);
}

#[test]
fn does_not_scale_explicit_percent_fields() {
    let explicit_remaining = json(r#"{"remaining_percent": 0.4, "windowSeconds": 18000}"#);
    assert_eq!(remaining_percent(&parse_window(Some(&explicit_remaining)).unwrap()), 0.4);
    let explicit_used = json(r#"{"used_percent": 0.4, "windowSeconds": 18000}"#);
    assert_eq!(remaining_percent(&parse_window(Some(&explicit_used)).unwrap()), 99.6);
}

#[test]
fn ratio_rules_by_field_name() {
    assert_eq!(ratio_rule("utilization"), RatioRule::Always);
    assert_eq!(ratio_rule("remainingRatio"), RatioRule::Always);
    assert_eq!(ratio_rule("remaining"), RatioRule::WhenAtMostOne);
    assert_eq!(ratio_rule("used"), RatioRule::WhenAtMostOne);
    assert_eq!(ratio_rule("used_percent"), RatioRule::Never);
    assert_eq!(ratio_rule("remaining_pct"), RatioRule::Never);
    assert_eq!(ratio_rule("remainingPct"), RatioRule::WhenAtMostOne);
    assert_eq!(ratio_rule("remaining_percent"), RatioRule::Never);
    assert_eq!(ratio_rule("remainingPercent"), RatioRule::WhenAtMostOne);
    assert_eq!(ratio_rule("usedPercent"), RatioRule::WhenAtMostOne);
}

#[test]
fn finds_window_by_duration_or_name_in_arrays() {
    let rate_limit = json(
        r#"{"windows": [
            {"name": "weekly", "remainingPercent": 88, "windowSeconds": 604800},
            {"name": "primary", "remainingPercent": 51, "windowSeconds": 18000}
        ]}"#,
    );
    let short = parse_window(find_window(&rate_limit, &["primary_window", "primary"], 18_000)).unwrap();
    let weekly = parse_window(find_window(&rate_limit, &["secondary_window", "weekly"], 604_800)).unwrap();
    assert_eq!(remaining_percent(&short), 51.0);
    assert_eq!(remaining_percent(&weekly), 88.0);
}

#[test]
fn does_not_treat_a_weekly_primary_field_as_a_short_window() {
    let value = json(
        r#"{"primary_window": {"remainingPercent": 98, "windowSeconds": 604800},
            "weekly_window": {"remainingPercent": 98, "windowSeconds": 604800}}"#,
    );
    assert!(find_window(&value, &["primary_window", "primary"], 18_000).is_none());
    assert!(find_window(&value, &["weekly_window", "weekly"], 604_800).is_some());
}

#[test]
fn recognizes_a_weekly_primary_field_as_weekly_fallback() {
    let value = json(r#"{"primary": {"remainingPercent": 98, "windowSeconds": 604800}}"#);
    let weekly = parse_window(find_window(
        &value,
        &["weekly_window", "weekly", "primary_window", "primary"],
        604_800,
    ))
    .unwrap();
    assert_eq!(remaining_percent(&weekly), 98.0);
    assert_eq!(weekly.window_seconds, 604_800);
}

#[test]
fn window_within_a_minute_of_the_expected_length_is_accepted() {
    let value = json(r#"{"primary": {"remainingPercent": 40, "windowSeconds": 18060}}"#);
    assert!(find_window(&value, &["primary"], 18_000).is_some());
    let value = json(r#"{"primary": {"remainingPercent": 40, "windowSeconds": 18061}}"#);
    assert!(find_window(&value, &["primary"], 18_000).is_none());
    let value = json(r#"{"primary": {"remainingPercent": 40}}"#);
    assert!(find_window(&value, &["primary"], 18_000).is_some());
}

const APP_SERVER_ANSWER: &str = r#"{
    "rateLimits": {
        "limitId": "other",
        "primary": {"usedPercent": 90, "windowDurationMins": 300}
    },
    "rateLimitsByLimitId": {
        "codex": {
            "limitId": "codex",
            "planType": "pro",
            "primary": {"usedPercent": 25, "windowDurationMins": 300, "resetsAt": 1738300000},
            "secondary": {"usedPercent": 60, "windowDurationMins": 10080, "resetsAt": 1739000000},
            "credits": {"hasCredits": true, "unlimited": false, "balance": "$12.34"}
        }
    },
    "rateLimitResetCredits": {
        "availableCount": 2,
        "credits": [{"expiresAt": 1739100000}, {"expiresAt": null}]
    }
}"#;

#[test]
fn parses_app_server_rate_limit_response() {
    let value = json(APP_SERVER_ANSWER);
    let snapshot = app_server_snapshot_at(&value, "now".to_string()).unwrap();
    assert_eq!(snapshot.plan.as_deref(), Some("PRO"));
    assert_eq!(remaining_percent(&snapshot.short_window.unwrap()), 75.0);
    assert_eq!(snapshot.weekly_window.unwrap().window_seconds, 604_800);
    assert_eq!(snapshot.balance, Some(BalanceValue::Text("$12.34".to_string())));
    assert_eq!(snapshot.reset_credits, Some(2));
    assert_eq!(snapshot.reset_credit_expires_at, vec![utc(1739100000)]);
}

#[test]
fn app_server_snapshot_is_taken_at_the_given_time() {
    let value = json(APP_SERVER_ANSWER);
    let snapshot = app_server_snapshot_at(&value, "2025-01-01T00:00:00+00:00".to_string()).unwrap();
    assert_eq!(snapshot.updated_at, "2025-01-01T00:00:00+00:00");
    let short = snapshot.short_window.unwrap();
    assert_eq!(short.window_seconds, 18_000);
    assert_eq!(short.resets_at, Some(utc(1738300000)));
}

#[test]
fn parses_app_server_balance_without_quota_windows() {
    let value = json(
        r#"{"rateLimitsByLimitId": {"codex": {"limitId": "codex",
            "credits": {"hasCredits": true, "unlimited": false, "balance": "$4.56"}}}}"#,
    );
    let snapshot = app_server_snapshot_at(&value, "now".to_string()).unwrap();
    assert!(snapshot.short_window.is_none());
    assert!(snapshot.weekly_window.is_none());
    assert_eq!(snapshot.plan.as_deref(), Some("API"));
    assert_eq!(snapshot.balance, Some(BalanceValue::Text("$4.56".to_string())));
}

#[test]
fn app_server_answer_without_reading_gives_nothing() {
    assert!(app_server_snapshot_at(&json(r#"{"rateLimits": {"limitId": "codex"}}"#), "now".to_string()).is_none());
    assert!(app_server_snapshot_at(&json(r#"{"other": 1}"#), "now".to_string()).is_none());
}

#[test]
fn app_server_window_in_minutes() {
    let w = parse_app_server_window(Some(&json(r#"{"usedPercent": 10, "windowDurationMins": 60}"#))).unwrap();
    assert_eq!(w.window_seconds, 3600);
    assert!(w.measures_used);
    assert!(!w.scales_ratios);
    assert_eq!(remaining_percent(&w), 90.0);
}

#[test]
fn collects_expirations_sorted_without_repeats() {
    let value = json(
        r#"{"credits": [
            {"expires_at": "2026-03-01T00:00:00Z"},
            {"expiresAt": "2026-01-01T00:00:00Z"},
            {"expires": "2026-03-01T00:00:00Z"},
            {"grants": [{"expirationTime": "2025-12-01T00:00:00Z"}]}
        ]}"#,
    );
    assert_eq!(
        collect_reset_credit_expirations(&value),
        vec![
            "2025-12-01T00:00:00Z".to_string(),
            "2026-01-01T00:00:00Z".to_string(),
            "2026-03-01T00:00:00Z".to_string()
        ]
    );
    assert!(collect_reset_credit_expirations(&json(r#"{"count": 3}"#)).is_empty());
}

#[test]
fn reads_the_wham_usage_document() {
    let usage = json(
        r#"{"plan_type": "plus",
            "rate_limit": {
                "primary_window": {"used_percent": 30, "limit_window_seconds": 18000, "reset_at": 1738300000},
                "secondary_window": {"used_percent": 50, "limit_window_seconds": 604800}
            },
            "rate_limit_reset_credits": {"available_count": 1, "credits": [{"expires_at": "2026-01-01T00:00:00Z"}]}}"#,
    );
    let snap = wham_snapshot_at(&usage, &None, "now".to_string()).unwrap();
    assert_eq!(snap.plan.as_deref(), Some("PLUS"));
    assert_eq!(remaining_percent(snap.short_window.as_ref().unwrap()), 70.0);
    assert_eq!(remaining_percent(snap.weekly_window.as_ref().unwrap()), 50.0);
    assert_eq!(snap.reset_credits, Some(1));
    assert_eq!(snap.reset_credit_expires_at, vec!["2026-01-01T00:00:00Z".to_string()]);
    assert_eq!(snap.updated_at, "now");
    assert!(snap.balance.is_none());

    let credits = json(r#"{"availableCount": 4, "items": [{"expiresAt": "2026-02-01T00:00:00Z"}]}"#);
    let snap = wham_snapshot_at(&usage, &Some(credits), "now".to_string()).unwrap();
    assert_eq!(snap.reset_credits, Some(4));
    assert_eq!(snap.reset_credit_expires_at, vec!["2026-02-01T00:00:00Z".to_string()]);

    let empty_credits = json(r#"{"note": "none"}"#);
    let snap = wham_snapshot_at(&usage, &Some(empty_credits), "now".to_string()).unwrap();
    assert_eq!(snap.reset_credits, Some(1));
    assert_eq!(snap.reset_credit_expires_at, vec!["2026-01-01T00:00:00Z".to_string()]);
}

#[test]
fn wham_usage_without_windows_is_an_error() {
    let usage = json(r#"{"plan_type": "plus", "rate_limit": {"allowed": true}}"#);
    assert_eq!(
        wham_snapshot_at(&usage, &None, "now".to_string()).unwrap_err(),
        "Quota response does not contain a recognized usage window."
    );
}

#[test]
fn weekly_primary_window_falls_back_to_weekly() {
    let usage = json(r#"{"rateLimit": {"primary": {"used_percent": 20, "limit_window_seconds": 604800}}}"#);
    let snap = wham_snapshot_at(&usage, &None, "now".to_string()).unwrap();
    assert!(snap.short_window.is_none());
    assert_eq!(remaining_percent(snap.weekly_window.as_ref().unwrap()), 80.0);
    assert_eq!(snap.plan, None);
}

#[test]
fn maps_http_failures() {
    assert_eq!(safe_http_failure(401), ("signed_out", "Codex login expired. Please sign in again."));
    assert_eq!(safe_http_failure(403).0, "signed_out");
    assert_eq!(
        safe_http_failure(429),
        ("unavailable", "Quota service is rate limited. It will retry automatically.")
    );
    assert_eq!(safe_http_failure(500), ("unavailable", "Quota service is temporarily unavailable."));
}

#[test]
fn matches_app_server_response_ids() {
    assert!(response_id_is(&json(r#"{"id": 2}"#), 2));
    assert!(response_id_is(&json(r#"{"id": "2"}"#), 2));
    assert!(!response_id_is(&json(r#"{"id": "02"}"#), 2));
    assert!(!response_id_is(&json(r#"{"id": 3}"#), 2));
    assert!(!response_id_is(&json(r#"{"method": "x"}"#), 2));
    let answer = json(r#"{"id": 1, "result": {"ok": true}}"#);
    match app_server_reply(&answer, 1) {
        AppServerReply::Answer(result) => assert_eq!(*result, json(r#"{"ok": true}"#)),
        other => panic!("unexpected {other:?}"),
    }
    assert_eq!(app_server_reply(&json(r#"{"id": 1, "error": {}}"#), 1), AppServerReply::Failed);
    assert_eq!(app_server_reply(&json(r#"{"id": 1}"#), 1), AppServerReply::Failed);
    assert_eq!(app_server_reply(&answer, 2), AppServerReply::Other);
}

#[test]
fn reads_app_server_output_lines() {
    assert_eq!(app_server_line("not json", 1), AppServerLine::Unreadable);
    assert_eq!(app_server_line(r#"{"method": "ready"}"#, 1), AppServerLine::Other);
    assert_eq!(app_server_line(r#"{"id": 2, "result": {}}"#, 1), AppServerLine::Other);
    assert_eq!(app_server_line(r#"{"id": 1, "error": {"code": 3}}"#, 1), AppServerLine::Failed);
    assert_eq!(app_server_line(r#"{"id": 1}"#, 1), AppServerLine::Failed);
    assert_eq!(
        app_server_line(r#"{"id": 1, "result": {"ok": true, "n": 2.5}}"#, 1),
        AppServerLine::Answer(json(r#"{"ok": true, "n": 2.5}"#))
    );
}

#[test]
fn reads_wham_answers_from_bytes() {
    assert_eq!(
        wham_snapshot_from_bytes(b"<html>", None, "now".to_string()).unwrap_err(),
        "Quota response format has changed."
    );
    assert_eq!(
        wham_snapshot_from_bytes(b"{}", None, "now".to_string()).unwrap_err(),
        "Quota response does not contain a recognized usage window."
    );
    let usage = br#"{"plan_type": "plus",
        "rate_limit": {"primary_window": {"used_percent": 30, "limit_window_seconds": 18000}},
        "rate_limit_reset_credits": {"available_count": 1}}"#;
    let snap = wham_snapshot_from_bytes(usage, Some(br#"{"available_count": 4}"#), "t".to_string()).unwrap();
    assert_eq!(snap.plan.as_deref(), Some("PLUS"));
    assert_eq!(remaining_percent(snap.short_window.as_ref().unwrap()), 70.0);
    assert_eq!(snap.reset_credits, Some(4));
    assert_eq!(snap.updated_at, "t");
    let unreadable_credits = wham_snapshot_from_bytes(usage, Some(b"oops"), "t".to_string()).unwrap();
    assert_eq!(unreadable_credits.reset_credits, Some(1));
}
