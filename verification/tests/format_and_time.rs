use codex_auth::format::{format_remaining, format_reset, format_reset_from};
use codex_auth::timestamp::parse_rfc3339_utc_millis;
use codex_auth::usage::UsageWindow;

#[test]
fn formats_relative_reset_times() {
    assert_eq!(format_reset_from(1_000, 1_000), "now");
    assert_eq!(format_reset_from(1_000, 1_060), "1m");
    assert_eq!(format_reset_from(1_000, 8_260), "2h 1m");
    assert_eq!(format_reset_from(1_000, 177_400), "2d 1h");
}

#[test]
fn reset_in_the_past_is_now() {
    assert_eq!(format_reset_from(5_000, 10), "now");
    assert_eq!(format_reset_from(-5, -10), "now");
}

#[test]
fn reset_rounds_up_to_whole_minutes() {
    assert_eq!(format_reset_from(0, 1), "1m");
    assert_eq!(format_reset_from(0, 59), "1m");
    assert_eq!(format_reset_from(0, 61), "2m");
    assert_eq!(format_reset_from(0, 3_600), "1h 0m");
    assert_eq!(format_reset_from(0, 86_400), "1d 0h");
}

#[test]
fn reset_handles_extreme_distances() {
    assert_eq!(format_reset_from(i64::MIN, i64::MAX), "213503982334601d 7h");
}

#[test]
fn remaining_is_a_percentage_or_dash() {
    assert_eq!(format_remaining(Some(89)), "89%");
    assert_eq!(format_remaining(Some(0)), "0%");
    assert_eq!(format_remaining(Some(-3)), "-3%");
    assert_eq!(format_remaining(None), "-");
}

#[test]
fn reset_of_missing_window_is_dash() {
    assert_eq!(format_reset(None), "-");
    let window = UsageWindow { used_percent_bits: 0, window_minutes: Some(300), reset_at: None };
    assert_eq!(format_reset(Some(&window)), "-");
}

#[test]
fn reset_of_past_window_is_now() {
    let window = UsageWindow { used_percent_bits: 0, window_minutes: Some(300), reset_at: Some(0) };
    assert_eq!(format_reset(Some(&window)), "now");
}

#[test]
fn parses_rollout_event_timestamp() {
    assert_eq!(
        parse_rfc3339_utc_millis("2026-05-16T20:14:29.101Z"),
        Some(1_778_962_469_101)
    );
}

#[test]
fn timestamp_of_epoch_is_zero() {
    assert_eq!(parse_rfc3339_utc_millis("1970-01-01T00:00:00Z"), Some(0));
    assert_eq!(parse_rfc3339_utc_millis("1969-12-31T23:59:59Z"), Some(-1_000));
}

#[test]
fn timestamp_fraction_is_padded_to_milliseconds() {
    assert_eq!(parse_rfc3339_utc_millis("1970-01-01T00:00:00.1Z"), Some(100));
    assert_eq!(parse_rfc3339_utc_millis("1970-01-01T00:00:00.12Z"), Some(120));
    assert_eq!(parse_rfc3339_utc_millis("1970-01-01T00:00:00.123456Z"), Some(123));
    assert_eq!(parse_rfc3339_utc_millis("1970-01-01T00:00:00.Z"), Some(0));
}

#[test]
fn timestamp_checks_calendar_days() {
    assert_eq!(parse_rfc3339_utc_millis("2024-02-29T00:00:00Z"), Some(1_709_164_800_000));
    assert_eq!(parse_rfc3339_utc_millis("2023-02-29T00:00:00Z"), None);
    assert_eq!(parse_rfc3339_utc_millis("2000-02-29T00:00:00Z"), Some(951_782_400_000));
    assert_eq!(parse_rfc3339_utc_millis("1900-02-29T00:00:00Z"), None);
    assert_eq!(parse_rfc3339_utc_millis("2026-13-01T00:00:00Z"), None);
    assert_eq!(parse_rfc3339_utc_millis("2026-04-31T00:00:00Z"), None);
    assert_eq!(parse_rfc3339_utc_millis("2026-01-00T00:00:00Z"), None);
}

#[test]
fn timestamp_rejects_other_shapes() {
    assert_eq!(parse_rfc3339_utc_millis("2026-05-16T20:14:29"), None);
    assert_eq!(parse_rfc3339_utc_millis("2026-05-16 20:14:29Z"), None);
    assert_eq!(parse_rfc3339_utc_millis("2026-05-16T20:14:29+00:00"), None);
    assert_eq!(parse_rfc3339_utc_millis("2026-05-16T20:14:29,1Z"), None);
    assert_eq!(parse_rfc3339_utc_millis("2026-05-16T20:14:2xZ"), None);
    assert_eq!(parse_rfc3339_utc_millis(""), None);
}

#[test]
fn timestamp_days_follow_one_another() {
    let day = 86_400_000;
    let a = parse_rfc3339_utc_millis("2024-02-28T00:00:00Z").unwrap();
    let b = parse_rfc3339_utc_millis("2024-02-29T00:00:00Z").unwrap();
    let c = parse_rfc3339_utc_millis("2024-03-01T00:00:00Z").unwrap();
    let d = parse_rfc3339_utc_millis("2024-12-31T00:00:00Z").unwrap();
    let e = parse_rfc3339_utc_millis("2025-01-01T00:00:00Z").unwrap();
    assert_eq!(b - a, day);
    assert_eq!(c - b, day);
    assert_eq!(e - d, day);
}
