use base64::engine::general_purpose::URL_SAFE_NO_PAD;
use base64::Engine;
use codex_auth::auth::{parse_bytes, AuthInfo};
use codex_auth::cli::CliError;
use codex_auth::commands::{apply_local_usage, removal_successor};
use codex_auth::local::usage_from_rollout;
use codex_auth::registry::{
    bootstrap_registry, clear_active, remove_record, set_active_at, sort_accounts, upsert_account_at,
    Registry, RolloutSignature,
};
use codex_auth::rows::{
    apply_fetch_result, apply_fetch_results, build_row, cached_usage, has_usage_from_same_minute, missing_snapshot,
    refresh_candidates, table_heading, table_row, AccountRow, RowUsageMode,
};
use codex_auth::select::{
    display_label, display_record_label, duplicate_record_email, read_selection, resolve_selector,
};
use codex_auth::storage::{sort_snapshots, AccountSnapshot};
use codex_auth::usage::{UsageError, UsageSnapshot, UsageWindow};
use std::collections::HashMap;

fn jwt(payload: String) -> String {
    let header = URL_SAFE_NO_PAD.encode(br#"{"alg":"none","typ":"JWT"}"#);
    let payload = URL_SAFE_NO_PAD.encode(payload.as_bytes());
    format!("{header}.{payload}.sig")
}

fn auth_info(email: &str, user_id: &str, account_id: &str) -> AuthInfo {
    let claims = format!(
        r#"{{"email":"{email}","https://api.openai.com/auth":{{"chatgpt_account_id":"{account_id}","chatgpt_user_id":"{user_id}","chatgpt_plan_type":"plus"}}}}"#
    );
    let bytes = format!(
        r#"{{"tokens":{{"access_token":"access-{account_id}","account_id":"{account_id}","id_token":"{}"}}}}"#,
        jwt(claims)
    );
    parse_bytes(bytes.as_bytes()).unwrap()
}

/// The registry that saving these logins one after another and then loading
/// the registry for the first time gives: every saved login, the last one live.
fn saved_registry(logins: &[(&str, &str, &str)]) -> Registry {
    let mut snapshots = Vec::new();
    for (email, user, account) in logins {
        snapshots.push(AccountSnapshot { info: auth_info(email, user, account), path: String::new() });
    }
    let saved: Vec<AuthInfo> = sort_snapshots(snapshots).into_iter().map(|s| s.info).collect();
    let (email, user, account) = logins[logins.len() - 1];
    bootstrap_registry(&saved, Some(auth_info(email, user, account)))
}

fn window(used: f64, reset_at: i64) -> UsageWindow {
    UsageWindow { used_percent_bits: used.to_bits(), window_minutes: Some(300), reset_at: Some(reset_at) }
}

fn usage_snapshot() -> UsageSnapshot {
    UsageSnapshot {
        plan: Some("team".to_string()),
        primary: Some(window(10.0, 1_700_000_000)),
        secondary: Some(window(20.0, 1_700_100_000)),
    }
}

fn local_usage_snapshot() -> UsageSnapshot {
    UsageSnapshot {
        plan: Some("plus".to_string()),
        primary: Some(window(27.0, 1_700_000_000)),
        secondary: Some(window(22.0, 1_700_100_000)),
    }
}

fn remaining(window: &Option<UsageWindow>) -> Option<i64> {
    window
        .as_ref()
        .map(|w| (100.0 - f64::from_bits(w.used_percent_bits)).clamp(0.0, 100.0).round() as i64)
}

fn now_seconds() -> i64 {
    std::time::SystemTime::now().duration_since(std::time::UNIX_EPOCH).unwrap().as_secs() as i64
}

/// The table as `build_rows` makes it, with the usage endpoint answered from
/// `answers` (keyed by record key); `None` stands for a fetcher that must not
/// be called.
fn table(
    registry: &mut Registry,
    answers: Option<HashMap<String, Result<UsageSnapshot, UsageError>>>,
    mode: RowUsageMode,
) -> (Vec<AccountRow>, bool) {
    let mut usage = cached_usage(registry);
    let mut changed = false;
    if mode == RowUsageMode::RefreshDisplay {
        let started = now_seconds();
        let answers = answers.expect("this table must not fetch usage");
        for index in refresh_candidates(registry, started) {
            let result = answers
                .get(&registry.accounts[index].account_key)
                .map(|r| match r {
                    Ok(s) => Ok(s.duplicate()),
                    Err(UsageError::Http(code)) => Err(UsageError::Http(*code)),
                    Err(_) => Err(missing_snapshot()),
                })
                .unwrap_or_else(|| Err(missing_snapshot()));
            changed |= apply_fetch_result(registry, &mut usage, index, result, started);
        }
    }
    let mut rows = Vec::new();
    for (index, entry) in usage.into_iter().enumerate() {
        let (p, s) = match &entry {
            Some(Ok(snapshot)) => (remaining(&snapshot.primary), remaining(&snapshot.secondary)),
            _ => (None, None),
        };
        rows.push(build_row(registry, index, entry, p, s));
    }
    (rows, changed)
}

#[test]
fn resolves_rows_and_exact_email_selectors() {
    let registry = saved_registry(&[("a@example.com", "user-a", "acct-a"), ("b@example.com", "user-b", "acct-b")]);

    assert_eq!(resolve_selector(&registry.accounts, "1").unwrap(), 0);
    assert_eq!(resolve_selector(&registry.accounts, "b@example.com").unwrap(), 1);
}

#[test]
fn rejects_ambiguous_email_selectors() {
    let registry = saved_registry(&[("same@example.com", "user-a", "acct-a"), ("same@example.com", "user-b", "acct-b")]);

    let error = resolve_selector(&registry.accounts, "same@example.com").unwrap_err();
    assert!(error.message().contains("matches multiple accounts"));
}

#[test]
fn selectors_report_missing_rows_and_emails() {
    let registry = saved_registry(&[("a@example.com", "user-a", "acct-a")]);
    let zero = resolve_selector(&registry.accounts, "0").unwrap_err();
    assert_eq!(zero.message(), "no account at row 0");
    let two = resolve_selector(&registry.accounts, "+2").unwrap_err();
    assert_eq!(two.message(), "no account at row 2");
    let nobody = resolve_selector(&registry.accounts, "z@example.com").unwrap_err();
    assert_eq!(nobody.message(), "no account matches exact email `z@example.com`");
    assert_eq!(resolve_selector(&registry.accounts, "A@EXAMPLE.com").unwrap(), 0);
    assert!(matches!(resolve_selector(&registry.accounts, "-1"), Err(CliError::Message(_))));
}

#[test]
fn duplicate_emails_get_disambiguated_labels() {
    let registry = saved_registry(&[("same@example.com", "user-a", "acct-alpha"), ("same@example.com", "user-b", "acct-beta")]);

    assert_eq!(
        display_record_label(&registry.accounts[0], duplicate_record_email(&registry.accounts, 0)),
        "same@example.com (acct-alp)"
    );
    assert_eq!(
        display_record_label(&registry.accounts[1], duplicate_record_email(&registry.accounts, 1)),
        "same@example.com (acct-bet)"
    );
}

#[test]
fn labels_of_logins() {
    let info = auth_info("x@example.com", "u", "acct");
    assert_eq!(display_label(&info, false), "x@example.com");
    assert_eq!(display_label(&info, true), "x@example.com (acct)");
}

#[test]
fn rows_surface_usage_errors() {
    let mut registry = saved_registry(&[("user@example.com", "user-1", "acct-1")]);
    registry.accounts[0].last_usage = Some(local_usage_snapshot());
    let answers = HashMap::from([("user-1::acct-1".to_string(), Err(UsageError::Http(401)))]);

    let (rows, changed) = table(&mut registry, Some(answers), RowUsageMode::RefreshDisplay);

    assert_eq!(rows[0].five_hour, "HTTP 401");
    assert_eq!(rows[0].weekly, "HTTP 401");
    assert!(!changed);
}

#[test]
fn rows_use_remote_usage_data() {
    let mut registry = saved_registry(&[("user@example.com", "user-1", "acct-1")]);
    let answers = HashMap::from([("user-1::acct-1".to_string(), Ok(usage_snapshot()))]);

    let (rows, changed) = table(&mut registry, Some(answers), RowUsageMode::RefreshDisplay);

    assert_eq!(rows[0].plan, "team");
    assert_eq!(rows[0].five_hour, "90%");
    assert_eq!(rows[0].weekly, "80%");
    assert!(changed);
    assert!(registry.accounts[0].last_usage.is_some());
}

#[test]
fn refresh_display_replaces_stale_cached_usage() {
    let mut registry = saved_registry(&[("user@example.com", "user-1", "acct-1")]);
    let answers = HashMap::from([("user-1::acct-1".to_string(), Ok(usage_snapshot()))]);

    registry.accounts[0].last_usage = Some(local_usage_snapshot());
    let (rows, changed) = table(&mut registry, Some(answers), RowUsageMode::RefreshDisplay);

    assert_eq!(rows[0].plan, "team");
    assert_eq!(rows[0].five_hour, "90%");
    assert_eq!(rows[0].weekly, "80%");
    assert!(changed);
}

#[test]
fn successful_refresh_updates_timestamp_even_when_usage_is_unchanged() {
    let mut registry = saved_registry(&[("user@example.com", "user-1", "acct-1")]);
    registry.accounts[0].last_usage = Some(usage_snapshot());
    registry.accounts[0].last_usage_at = Some(60);
    let answers = HashMap::from([("user-1::acct-1".to_string(), Ok(usage_snapshot()))]);

    let (_, changed) = table(&mut registry, Some(answers), RowUsageMode::RefreshDisplay);

    assert!(changed);
    assert!(registry.accounts[0].last_usage_at.unwrap() > 60);
}

#[test]
fn same_minute_usage_is_fresh() {
    let mut registry = saved_registry(&[("user@example.com", "user-1", "acct-1")]);
    registry.accounts[0].last_usage = Some(usage_snapshot());
    registry.accounts[0].last_usage_at = Some(120);

    assert!(has_usage_from_same_minute(&registry.accounts[0], 179));
    assert!(!has_usage_from_same_minute(&registry.accounts[0], 180));
}

#[test]
fn active_local_usage_takes_precedence_over_remote_refresh() {
    let mut registry = saved_registry(&[("user@example.com", "user-1", "acct-1")]);
    registry.accounts[0].last_usage = Some(local_usage_snapshot());
    registry.accounts[0].last_local_rollout = Some(RolloutSignature {
        path: "sessions/rollout-test.jsonl".to_string(),
        event_timestamp_ms: 1_778_962_469_101,
    });

    let (rows, changed) = table(&mut registry, Some(HashMap::new()), RowUsageMode::RefreshDisplay);

    assert_eq!(rows[0].plan, "plus");
    assert_eq!(rows[0].five_hour, "73%");
    assert_eq!(rows[0].weekly, "78%");
    assert!(!changed);
    assert!(refresh_candidates(&registry, now_seconds()).is_empty());
}

#[test]
fn cached_only_rows_do_not_fetch_remote_usage() {
    let mut registry = saved_registry(&[("user@example.com", "user-1", "acct-1")]);

    let (rows, changed) = table(&mut registry, None, RowUsageMode::CachedOnly);

    assert_eq!(rows[0].five_hour, "-");
    assert_eq!(rows[0].weekly, "-");
    assert_eq!(rows[0].plan, "plus");
    assert!(rows[0].active);
    assert!(!changed);
}

#[test]
fn local_usage_updates_only_after_active_account_activation() {
    let mut registry = saved_registry(&[("user@example.com", "user-1", "acct-1")]);
    registry.active_account_activated_at_ms = Some(1_778_962_469_102);
    let line = format!(
        r#"{{"timestamp":"2026-05-16T20:14:29.101Z","type":"event_msg","payload":{{"type":"token_count","rate_limits":{{"limit_id":"codex","primary":{{"used_percent":27,"window_minutes":300,"resets_at":1778978811}},"secondary":{{"used_percent":22,"window_minutes":10080,"resets_at":1779320299}},"plan_type":"plus"}}}}}}"#
    );
    let read = || usage_from_rollout("sessions/2026/05/16/rollout-test.jsonl".to_string(), 1, line.len() as u64, line.as_bytes());

    let (local, cache) = read();
    apply_local_usage(&mut registry, local, cache);

    assert!(registry.accounts[0].last_usage.is_none());

    registry.active_account_activated_at_ms = Some(0);
    let (local, cache) = read();
    apply_local_usage(&mut registry, local, cache);

    assert_eq!(remaining(&registry.accounts[0].last_usage.as_ref().unwrap().primary), Some(73));
    let (local, _) = read();
    assert!(!apply_local_usage(&mut registry, local, None));
}

#[test]
fn taken_local_event_clears_usage_error_only_without_cache_change() {
    let mut registry = saved_registry(&[("user@example.com", "user-1", "acct-1")]);
    registry.active_account_activated_at_ms = Some(0);
    let line = r#"{"timestamp":"2026-05-16T20:14:29.101Z","type":"event_msg","payload":{"type":"token_count","rate_limits":{"primary":{"used_percent":27,"window_minutes":300,"resets_at":1778978811},"plan_type":"plus"}}}"#;
    let read = || usage_from_rollout("rollout-a.jsonl".to_string(), 1, line.len() as u64, line.as_bytes());

    let (local, cache) = read();
    assert!(apply_local_usage(&mut registry, local, cache));
    registry.accounts[0].last_usage_error = Some(UsageError::Transport("stale".to_string()));

    let (local, cache) = read();
    assert!(apply_local_usage(&mut registry, local, cache));
    assert!(matches!(&registry.accounts[0].last_usage_error, Some(UsageError::Transport(m)) if m == "stale"));

    let (local, _) = read();
    assert!(apply_local_usage(&mut registry, local, None));
    assert!(registry.accounts[0].last_usage_error.is_none());

    let (local, _) = read();
    assert!(!apply_local_usage(&mut registry, local, None));
}

#[test]
fn removing_active_account_promotes_first_remaining_snapshot() {
    let mut registry = saved_registry(&[("a@example.com", "user-a", "acct-a"), ("b@example.com", "user-b", "acct-b")]);
    set_active_at(&mut registry, "user-a::acct-a", 5, 5);
    let index = resolve_selector(&registry.accounts, "1").unwrap();
    let key = registry.accounts[index].account_key.clone();

    remove_record(&mut registry, &key);

    assert!(registry.active_account_key.is_none());
    let next = removal_successor(&registry).unwrap();
    assert_eq!(next, "user-b::acct-b");
    assert_eq!(registry.accounts[0].email, "b@example.com");
}

#[test]
fn removing_last_active_account_deletes_live_auth() {
    let mut registry = saved_registry(&[("a@example.com", "user-a", "acct-a")]);
    let key = registry.accounts[0].account_key.clone();

    remove_record(&mut registry, &key);

    assert!(registry.accounts.is_empty());
    assert!(removal_successor(&registry).is_none());
}

#[test]
fn registry_keeps_accounts_in_email_order() {
    let mut registry = Registry::new();
    assert!(upsert_account_at(&mut registry, &auth_info("c@example.com", "u3", "acct-3"), 30));
    assert!(upsert_account_at(&mut registry, &auth_info("a@example.com", "u1", "acct-2"), 10));
    assert!(upsert_account_at(&mut registry, &auth_info("a@example.com", "u2", "acct-1"), 20));
    let order: Vec<&str> = registry.accounts.iter().map(|r| r.account_key.as_str()).collect();
    assert_eq!(order, vec!["u2::acct-1", "u1::acct-2", "u3::acct-3"]);
    assert_eq!(registry.accounts[0].created_at, 20);
    assert!(!upsert_account_at(&mut registry, &auth_info("a@example.com", "u2", "acct-1"), 99));
    assert_eq!(registry.accounts.len(), 3);
    assert!(upsert_account_at(&mut registry, &auth_info("new@example.com", "u2", "acct-1"), 99));
    assert_eq!(registry.accounts.len(), 3);
    sort_accounts(&mut registry);
    assert_eq!(registry.accounts[2].email, "new@example.com");
}

#[test]
fn set_active_marks_use() {
    let mut registry = saved_registry(&[("a@example.com", "user-a", "acct-a")]);
    set_active_at(&mut registry, "user-a::acct-a", 1_000, 7);
    assert_eq!(registry.active_account_key.as_deref(), Some("user-a::acct-a"));
    assert_eq!(registry.active_account_activated_at_ms, Some(1_000));
    assert_eq!(registry.accounts[0].last_used_at, Some(7));
    set_active_at(&mut registry, "nobody", 2_000, 8);
    assert_eq!(registry.accounts[0].last_used_at, Some(7));
}

#[test]
fn clearing_the_active_account_reports_a_change() {
    let mut registry = saved_registry(&[("user@example.com", "user-1", "acct-1")]);

    assert!(clear_active(&mut registry));
    assert!(registry.active_account_key.is_none());
    assert!(registry.active_account_activated_at_ms.is_none());
    assert!(!clear_active(&mut registry));
}

#[test]
fn bootstrap_makes_the_live_login_active_at_time_zero() {
    let registry = saved_registry(&[("b@example.com", "user-b", "acct-b"), ("a@example.com", "user-a", "acct-a")]);
    assert_eq!(registry.accounts.len(), 2);
    assert_eq!(registry.accounts[0].email, "a@example.com");
    assert_eq!(registry.active_account_key.as_deref(), Some("user-a::acct-a"));
    assert_eq!(registry.active_account_activated_at_ms, Some(0));
}

#[test]
fn fetched_usage_is_reused_for_the_rest_of_the_minute() {
    let mut registry = saved_registry(&[("a@example.com", "user-a", "acct-a"), ("b@example.com", "user-b", "acct-b")]);
    registry.active_account_key = None;
    let mut usage = cached_usage(&registry);
    assert_eq!(refresh_candidates(&registry, 600), vec![0, 1]);

    assert!(apply_fetch_result(&mut registry, &mut usage, 1, Ok(usage_snapshot()), 600));
    assert!(usage[1].is_some());

    assert_eq!(refresh_candidates(&registry, 659), vec![0]);
    assert_eq!(refresh_candidates(&registry, 660), vec![0, 1]);
    assert!(!apply_fetch_result(&mut registry, &mut usage, 1, Ok(usage_snapshot()), 600));
    assert!(!apply_fetch_result(&mut registry, &mut usage, 0, Err(UsageError::Http(500)), 600));
    assert!(registry.accounts[0].last_usage.is_none());
}

#[test]
fn bootstrap_keeps_one_record_per_key() {
    let first = auth_info("old@example.com", "user-a", "acct-a");
    let second = auth_info("b@example.com", "user-b", "acct-b");
    let live = auth_info("new@example.com", "user-a", "acct-a");
    let registry = bootstrap_registry(&vec![first, second], Some(live));

    let keys: Vec<&str> = registry.accounts.iter().map(|r| r.account_key.as_str()).collect();
    assert_eq!(keys.len(), 2);
    assert!(keys.contains(&"user-a::acct-a"));
    assert!(keys.contains(&"user-b::acct-b"));
    let refreshed = registry.accounts.iter().find(|r| r.account_key == "user-a::acct-a").unwrap();
    assert_eq!(refreshed.email, "new@example.com");
    assert_eq!(refreshed.plan.as_deref(), Some("plus"));
    let other = registry.accounts.iter().find(|r| r.account_key == "user-b::acct-b").unwrap();
    assert_eq!(other.email, "b@example.com");
    assert_eq!(other.chatgpt_account_id, "acct-b");
    assert_eq!(other.chatgpt_user_id, "user-b");
    assert_eq!(registry.active_account_key.as_deref(), Some("user-a::acct-a"));
}


fn row(active: bool, label: &str) -> AccountRow {
    AccountRow {
        active,
        label: label.to_string(),
        plan: "plus".to_string(),
        five_hour: "73%".to_string(),
        weekly: "HTTP 503".to_string(),
        five_hour_reset: "2h 1m".to_string(),
        weekly_reset: "-".to_string(),
    }
}

#[test]
fn table_lines_are_padded_columns() {
    assert_eq!(
        table_heading(),
        format!(
            "{:<4} {:<42} {:<10} {:<14} {:<14} {:<14} {:<14}",
            "", "ACCOUNT", "PLAN", "5H LEFT", "5H RESET", "WEEKLY LEFT", "WEEKLY RESET"
        )
    );
    let active = row(true, "user@example.com");
    assert_eq!(
        table_row(0, &active),
        format!(
            "{:<4} {:<42} {:<10} {:<14} {:<14} {:<14} {:<14}",
            "*01", "user@example.com", "plus", "73%", "2h 1m", "HTTP 503", "-"
        )
    );
    let long = row(false, &"\u{e9}".repeat(50));
    assert_eq!(
        table_row(11, &long),
        format!(
            "{:<4} {:<42} {:<10} {:<14} {:<14} {:<14} {:<14}",
            " 12", "\u{e9}".repeat(50), "plus", "73%", "2h 1m", "HTTP 503", "-"
        )
    );
    assert!(table_row(99, &long).starts_with(" 100 "));
}

#[test]
fn prompt_answers_are_trimmed() {
    assert_eq!(read_selection("  2\n").unwrap(), "2");
    assert_eq!(read_selection("a@b.c\r\n").unwrap(), "a@b.c");
    assert_eq!(read_selection(" \n").unwrap_err().message(), "no account selected");
}

#[test]
fn fetched_results_are_applied_in_turn() {
    let mut registry = saved_registry(&[("a@example.com", "user-a", "acct-a"), ("b@example.com", "user-b", "acct-b")]);
    let mut usage = cached_usage(&registry);
    let results = vec![(1, Ok(usage_snapshot())), (0, Err(UsageError::Http(429)))];

    assert!(apply_fetch_results(&mut registry, &mut usage, results, 600));

    assert_eq!(registry.accounts[1].last_usage_at, Some(600));
    assert!(registry.accounts[0].last_usage.is_none());
    assert!(matches!(usage[0], Some(Err(UsageError::Http(429)))));
    assert!(matches!(usage[1], Some(Ok(_))));
    assert!(!apply_fetch_results(&mut registry, &mut usage, vec![(1, Ok(usage_snapshot()))], 600));
    assert!(!apply_fetch_results(&mut registry, &mut usage, Vec::new(), 600));
}

#[test]
fn an_empty_list_has_no_duplicate_email() {
    assert!(!duplicate_record_email(&Vec::new(), 0));
    assert!(!duplicate_record_email(&Vec::new(), 7));
}
