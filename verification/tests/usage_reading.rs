use codex_auth::local::{
    cache_matches, local_usage_from_cache, newest_rollout_name, numeric_dirs_descending,
    parse_latest_rollout_usage, usage_event, usage_from_rollout,
};
use codex_auth::json::{Json, JsonNumber};
use codex_auth::usage::{parse_usage_json, RemoteUsageFetcher, UsageError, UsageSnapshot, UsageWindow};

fn remaining(window: &UsageWindow) -> i64 {
    (100.0 - f64::from_bits(window.used_percent_bits)).clamp(0.0, 100.0).round() as i64
}

fn rollout_line(timestamp: &str, primary_used: f64, secondary_used: f64) -> String {
    format!(
        r#"{{"timestamp":"{timestamp}","type":"event_msg","payload":{{"type":"token_count","rate_limits":{{"limit_id":"codex","primary":{{"used_percent":{primary_used},"window_minutes":300,"resets_at":1778978811}},"secondary":{{"used_percent":{secondary_used},"window_minutes":10080,"resets_at":1779320299}},"plan_type":"plus"}}}}}}"#
    )
}

#[test]
fn parses_usage_windows() {
    let snapshot = parse_usage_json(
        br#"{
            "plan_type": "team",
            "rate_limit": {
                "primary_window": {
                    "used_percent": 11,
                    "limit_window_seconds": 18000,
                    "reset_at": 1773491460
                },
                "secondary_window": {
                    "used_percent": 94,
                    "limit_window_seconds": 604800,
                    "reset_at": 1773749620
                }
            }
        }"#,
    )
    .unwrap();

    assert_eq!(snapshot.plan.as_deref(), Some("team"));
    assert_eq!(remaining(snapshot.primary.as_ref().unwrap()), 89);
    assert_eq!(snapshot.primary.as_ref().unwrap().window_minutes, Some(300));
    assert_eq!(snapshot.secondary.as_ref().unwrap().window_minutes, Some(10080));
}

#[test]
fn rejects_payload_without_usage_windows() {
    assert!(matches!(
        parse_usage_json(br#"{"plan_type":"plus","rate_limit":null}"#),
        Err(UsageError::InvalidResponse)
    ));
}

#[test]
fn usage_with_one_window_is_kept() {
    let snapshot = parse_usage_json(
        br#"{"rate_limit":{"secondary_window":{"used_percent":50.5,"limit_window_seconds":-61}}}"#,
    )
    .unwrap();
    assert!(snapshot.primary.is_none());
    assert_eq!(snapshot.plan, None);
    let secondary = snapshot.secondary.unwrap();
    assert_eq!(f64::from_bits(secondary.used_percent_bits), 50.5);
    assert_eq!(secondary.window_minutes, Some(-1));
    assert_eq!(secondary.reset_at, None);
}

#[test]
fn usage_body_must_be_json() {
    assert!(matches!(parse_usage_json(b"<html>"), Err(UsageError::InvalidResponse)));
    assert!(matches!(
        parse_usage_json(br#"{"rate_limit":{"primary_window":{"reset_at":1}}}"#),
        Err(UsageError::InvalidResponse)
    ));
}

#[test]
fn usage_errors_have_their_messages() {
    assert_eq!(UsageError::Http(401).message(), "HTTP 401");
    assert_eq!(UsageError::Transport("offline".to_string()).message(), "offline");
    assert_eq!(UsageError::Io("denied".to_string()).message(), "denied");
    assert_eq!(UsageError::InvalidResponse.message(), "invalid response");
}

#[test]
fn usage_requests_carry_token_and_workspace() {
    let info = codex_auth::auth::AuthInfo {
        email: "a@b.c".to_string(),
        user_id: "u".to_string(),
        account_id: "acct-9".to_string(),
        access_token: "tok".to_string(),
        plan: None,
    };
    let headers = RemoteUsageFetcher::request_headers(&info);
    assert_eq!(headers[0], ("Authorization".to_string(), "Bearer tok".to_string()));
    assert_eq!(headers[1], ("ChatGPT-Account-Id".to_string(), "acct-9".to_string()));
    assert_eq!(headers[2].0, "User-Agent");
}

#[test]
fn parses_latest_rollout_usage() {
    let contents = [
        r#"{"timestamp":"2026-05-16T20:14:28.101Z","type":"event_msg","payload":{"type":"token_count","rate_limits":null}}"#,
        r#"{"timestamp":"2026-05-16T20:14:29.101Z","type":"event_msg","payload":{"type":"token_count","rate_limits":{"limit_id":"codex","primary":{"used_percent":27.0,"window_minutes":300,"resets_at":1778978811},"secondary":{"used_percent":22.0,"window_minutes":10080,"resets_at":1779320299},"plan_type":"plus"}}}"#,
    ]
    .join("\n");

    let (_, snapshot) = parse_latest_rollout_usage(contents.as_bytes()).unwrap();

    assert_eq!(snapshot.plan.as_deref(), Some("plus"));
    assert_eq!(remaining(snapshot.primary.as_ref().unwrap()), 73);
    assert_eq!(remaining(snapshot.secondary.as_ref().unwrap()), 78);
}

#[test]
fn rollout_reading_takes_the_last_event_and_skips_noise() {
    let contents = format!(
        "{}\n{}\nnot json\n\n{}\n",
        rollout_line("2026-05-16T20:14:29.101Z", 10.0, 20.0),
        rollout_line("2026-05-16T20:15:29.101Z", 30.0, 40.0),
        r#"{"timestamp":"2026-05-16T20:16:29.101Z","type":"response_item","payload":{}}"#
    );
    let (ms, snapshot) = parse_latest_rollout_usage(contents.as_bytes()).unwrap();
    assert_eq!(ms, 1_778_962_529_101);
    assert_eq!(remaining(snapshot.primary.as_ref().unwrap()), 70);
    assert!(parse_latest_rollout_usage(b"").is_none());
    assert!(parse_latest_rollout_usage(b"\n\nnot json").is_none());
}

#[test]
fn latest_local_usage_reads_newest_rollout() {
    let years = numeric_dirs_descending(vec!["2025".to_string(), "notes".to_string(), "2026".to_string()]);
    assert_eq!(years, vec!["2026".to_string(), "2025".to_string()]);
    let newest = newest_rollout_name(vec![
        "rollout-a.jsonl".to_string(),
        "other.jsonl".to_string(),
        "rollout-test.jsonl".to_string(),
        "rollout-z.json".to_string(),
    ]);
    assert_eq!(newest.as_deref(), Some("rollout-test.jsonl"));

    let contents = rollout_line("2026-05-16T20:14:29.101Z", 27.0, 22.0);
    let (local, cache) = usage_from_rollout(
        "sessions/2026/05/16/rollout-test.jsonl".to_string(),
        1_000,
        contents.len() as u64,
        contents.as_bytes(),
    );
    let local = local.unwrap();

    assert_eq!(remaining(local.snapshot.primary.as_ref().unwrap()), 73);
    assert_eq!(remaining(local.snapshot.secondary.as_ref().unwrap()), 78);
    assert!(cache.is_some());
}

#[test]
fn latest_local_usage_reuses_unchanged_cached_rollout() {
    let contents = rollout_line("2026-05-16T20:14:29.101Z", 27.0, 22.0);
    let path = "sessions/2026/05/16/rollout-test.jsonl";
    let (_, cache) = usage_from_rollout(path.to_string(), 1_000, contents.len() as u64, contents.as_bytes());
    let cache = cache.unwrap();

    assert!(cache_matches(&cache, path, 1_000, contents.len() as u64));
    assert!(!cache_matches(&cache, path, 1_001, contents.len() as u64));
    let local = local_usage_from_cache(&cache).unwrap();
    assert_eq!(remaining(local.snapshot.primary.as_ref().unwrap()), 73);
    assert_eq!(local.event_timestamp_ms, 1_778_962_469_101);
}

#[test]
fn cache_without_event_gives_no_usage() {
    let (local, cache) = usage_from_rollout("p".to_string(), 5, 0, b"");
    assert!(local.is_none());
    let cache = cache.unwrap();
    assert!(cache.event_timestamp_ms.is_none());
    assert!(local_usage_from_cache(&cache).is_none());
}

fn snapshot_used(used: f64) -> UsageSnapshot {
    UsageSnapshot {
        plan: Some("plus".to_string()),
        primary: Some(UsageWindow { used_percent_bits: used.to_bits(), window_minutes: Some(300), reset_at: Some(7) }),
        secondary: None,
    }
}

#[test]
fn snapshots_compare_as_their_float_fields() {
    assert!(snapshot_used(12.5).same_as(&snapshot_used(12.5)));
    assert!(!snapshot_used(12.5).same_as(&snapshot_used(13.0)));
    assert!(snapshot_used(0.0).same_as(&snapshot_used(-0.0)));
    assert!(!snapshot_used(f64::NAN).same_as(&snapshot_used(f64::NAN)));
    let mut other_plan = snapshot_used(12.5);
    other_plan.plan = None;
    assert!(!snapshot_used(12.5).same_as(&other_plan));
}

fn text(s: &str) -> Json {
    Json::Str(s.to_string())
}

fn number(n: i64) -> Json {
    Json::Number(JsonNumber { int: Some(n), float_bits: Some((n as f64).to_bits()) })
}

fn object(members: Vec<(&str, Json)>) -> Json {
    Json::Object(members.into_iter().map(|(k, v)| (k.to_string(), v)).collect())
}

fn event(kind: &str, payload_kind: &str) -> Json {
    let window = object(vec![("used_percent", number(40)), ("window_minutes", number(300)), ("resets_at", number(99))]);
    object(vec![
        ("payload", object(vec![("rate_limits", object(vec![("primary", window)])), ("type", text(payload_kind))])),
        ("timestamp", text("1970-01-02T00:00:01.5Z")),
        ("type", text(kind)),
    ])
}

#[test]
fn usage_events_are_read_from_parsed_lines() {
    let (ms, snapshot) = usage_event(&event("event_msg", "token_count")).unwrap();
    assert_eq!(ms, 86_401_500);
    let primary = snapshot.primary.unwrap();
    assert_eq!(remaining(&primary), 60);
    assert_eq!(primary.window_minutes, Some(300));
    assert_eq!(primary.reset_at, Some(99));
    assert!(snapshot.secondary.is_none());
    assert!(snapshot.plan.is_none());
    assert!(usage_event(&event("response_item", "token_count")).is_none());
    assert!(usage_event(&event("event_msg", "agent_message")).is_none());
    assert!(usage_event(&text("event_msg")).is_none());
}
