//! Rate-limit usage of an account: the windows reported by the usage endpoint
//! and by Codex's local rollout files.

use vstd::prelude::*;
use crate::auth::opt_view;
use crate::json::{
    deref_opt, json_document, json_f64_bits, json_get, json_i64, json_is_object, json_str, parse_json,
    Json,
};
use crate::text::{copy_opt_string, decimal, push_decimal, push_str, string_of};

verus! {

/// One rate-limit window. The used share is kept as the bits of the `f64`
/// that the service reported.
#[derive(Debug)]
pub struct UsageWindow {
    pub used_percent_bits: u64,
    pub window_minutes: Option<i64>,
    pub reset_at: Option<i64>,
}

/// The plan and the two rate-limit windows of an account.
#[derive(Debug)]
pub struct UsageSnapshot {
    pub plan: Option<String>,
    pub primary: Option<UsageWindow>,
    pub secondary: Option<UsageWindow>,
}

/// A snapshot with its plan as text.
pub struct UsageView {
    pub plan: Option<Seq<char>>,
    pub primary: Option<UsageWindow>,
    pub secondary: Option<UsageWindow>,
}

impl View for UsageSnapshot {
    type V = UsageView;

    open spec fn view(&self) -> UsageView {
        UsageView { plan: opt_view(self.plan), primary: self.primary, secondary: self.secondary }
    }
}

/// Why usage could not be had for an account.
#[derive(Debug)]
pub enum UsageError {
    Http(u16),
    Transport(String),
    Io(String),
    InvalidResponse,
}

/// The usage endpoint of the ChatGPT backend.
pub const USAGE_ENDPOINT: &'static str = "https://chatgpt.com/backend-api/wham/usage";

/// The user agent sent with usage requests.
pub const USER_AGENT: &'static str = "codex-auth";

/// The fetcher that asks the usage endpoint over HTTPS.
pub struct RemoteUsageFetcher;

/// The headers of a usage request for a login: its access token as a bearer
/// token, its workspace id, and the user agent.
pub open spec fn usage_headers(auth: crate::auth::AuthView) -> Seq<(Seq<char>, Seq<char>)> {
    seq![
        ("Authorization"@, "Bearer "@ + auth.access_token),
        ("ChatGPT-Account-Id"@, auth.account_id),
        ("User-Agent"@, USER_AGENT@),
    ]
}

impl RemoteUsageFetcher {
    /// The headers `fetch` sends for a login.
    pub fn request_headers(auth: &crate::auth::AuthInfo) -> (res: Vec<(String, String)>)
        ensures
            res@.len() == 3,
            forall|i: int| 0 <= i < 3 ==> (#[trigger] res@[i]).0@ == usage_headers(auth@)[i].0 && res@[i].1@ == usage_headers(auth@)[i].1,
    {
        let mut bearer: Vec<char> = Vec::new();
        push_str(&mut bearer, "Bearer ");
        push_str(&mut bearer, auth.access_token.as_str());
        let mut out: Vec<(String, String)> = Vec::new();
        out.push(("Authorization".to_owned(), string_of(&bearer)));
        out.push(("ChatGPT-Account-Id".to_owned(), auth.account_id.clone()));
        out.push(("User-Agent".to_owned(), USER_AGENT.to_owned()));
        out
    }
}

/// The text of a usage error, as it is shown in the table.
pub open spec fn usage_error_text(e: UsageError) -> Seq<char> {
    match e {
        UsageError::Http(code) => "HTTP "@ + decimal(code as nat),
        UsageError::Transport(m) => m@,
        UsageError::Io(m) => m@,
        UsageError::InvalidResponse => "invalid response"@,
    }
}

impl UsageError {
    /// The `Display` text of the error.
    pub fn message(&self) -> (res: String)
        ensures
            res@ == usage_error_text(*self),
    {
        match self {
            UsageError::Http(code) => {
                let mut out: Vec<char> = Vec::new();
                push_str(&mut out, "HTTP ");
                push_decimal(&mut out, *code as u128);
                string_of(&out)
            },
            UsageError::Transport(m) => m.clone(),
            UsageError::Io(m) => m.clone(),
            UsageError::InvalidResponse => "invalid response".to_owned(),
        }
    }
}

/// Whether the bits are those of a NaN: every exponent bit set and a
/// fraction that is not zero.
pub open spec fn nan_bits(a: u64) -> bool {
    (a / 0x10_0000_0000_0000) % 0x800 == 0x7ff && a % 0x10_0000_0000_0000 != 0
}

/// Whether two `f64` values, given by their bits, compare equal: neither is
/// NaN, and they have the same bits or are both zero of either sign.
pub open spec fn same_float_bits(a: u64, b: u64) -> bool {
    &&& !nan_bits(a)
    &&& !nan_bits(b)
    &&& (a == b || (a % 0x8000_0000_0000_0000 == 0 && b % 0x8000_0000_0000_0000 == 0))
}

/// Whether two optional windows compare equal field by field, the used
/// shares as `f64` values.
pub open spec fn same_window(a: Option<UsageWindow>, b: Option<UsageWindow>) -> bool {
    match (a, b) {
        (None, None) => true,
        (Some(x), Some(y)) => same_float_bits(x.used_percent_bits, y.used_percent_bits)
            && x.window_minutes == y.window_minutes && x.reset_at == y.reset_at,
        _ => false,
    }
}

/// Whether two snapshots compare equal: the same plan and equal windows.
pub open spec fn same_usage(a: UsageView, b: UsageView) -> bool {
    a.plan == b.plan && same_window(a.primary, b.primary) && same_window(a.secondary, b.secondary)
}

fn is_nan_bits(a: u64) -> (res: bool)
    ensures
        res == nan_bits(a),
{
    (a / 0x10_0000_0000_0000) % 0x800 == 0x7ff && a % 0x10_0000_0000_0000 != 0
}

fn windows_equal(a: &Option<UsageWindow>, b: &Option<UsageWindow>) -> (res: bool)
    ensures
        res == same_window(*a, *b),
{
    match (a, b) {
        (None, None) => true,
        (Some(x), Some(y)) => {
            let (p, q) = (x.used_percent_bits, y.used_percent_bits);
            let bits_equal = !is_nan_bits(p) && !is_nan_bits(q) && (p == q || (p % 0x8000_0000_0000_0000
                == 0 && q % 0x8000_0000_0000_0000 == 0));
            bits_equal && x.window_minutes == y.window_minutes && x.reset_at == y.reset_at
        },
        _ => false,
    }
}

fn opt_text_equal(a: &Option<String>, b: &Option<String>) -> (res: bool)
    ensures
        res == (opt_view(*a) == opt_view(*b)),
{
    match (a, b) {
        (None, None) => true,
        (Some(x), Some(y)) => crate::text::same_text(x.as_str(), y.as_str()),
        _ => false,
    }
}

impl UsageWindow {
    /// A copy of the window.
    pub fn duplicate(&self) -> (res: UsageWindow)
        ensures
            res == *self,
    {
        UsageWindow {
            used_percent_bits: self.used_percent_bits,
            window_minutes: self.window_minutes,
            reset_at: self.reset_at,
        }
    }
}

fn copy_window(w: &Option<UsageWindow>) -> (res: Option<UsageWindow>)
    ensures
        res == *w,
{
    match w {
        Some(x) => Some(x.duplicate()),
        None => None,
    }
}

impl UsageSnapshot {
    /// A copy of the snapshot.
    pub fn duplicate(&self) -> (res: UsageSnapshot)
        ensures
            res == *self,
    {
        UsageSnapshot {
            plan: copy_opt_string(&self.plan),
            primary: copy_window(&self.primary),
            secondary: copy_window(&self.secondary),
        }
    }

    /// Whether the snapshots compare equal: the same plan and equal windows.
    pub fn same_as(&self, other: &UsageSnapshot) -> (res: bool)
        ensures
            res == same_usage(self@, other@),
    {
        opt_text_equal(&self.plan, &other.plan) && windows_equal(&self.primary, &other.primary)
            && windows_equal(&self.secondary, &other.secondary)
    }
}

/// `i64` division as Rust does it, rounding toward zero.
pub open spec fn div_toward_zero(a: int, b: int) -> int {
    if a >= 0 {
        a / b
    } else {
        -((-a) / b)
    }
}

/// A remote window: its used share is required; the window length is given in
/// seconds and kept in whole minutes.
pub open spec fn remote_window(v: Option<Json>) -> Option<UsageWindow> {
    if !json_is_object(v) || json_f64_bits(json_get(v, "used_percent"@)) is None {
        None
    } else {
        Some(
            UsageWindow {
                used_percent_bits: json_f64_bits(json_get(v, "used_percent"@))->0,
                window_minutes: match json_i64(json_get(v, "limit_window_seconds"@)) {
                    Some(s) => Some(div_toward_zero(s as int, 60) as i64),
                    None => None,
                },
                reset_at: json_i64(json_get(v, "reset_at"@)),
            },
        )
    }
}

/// How a usage endpoint window is read: a window object with a numeric
/// `used_percent` is kept, with that share, its `limit_window_seconds` in whole
/// minutes, and its `reset_at` as the reset time; a window without a share is
/// dropped.
pub proof fn remote_window_fields(v: Option<Json>, share: u64, seconds: Option<i64>, reset: Option<i64>)
    requires
        json_is_object(v),
        json_f64_bits(json_get(v, "used_percent"@)) == Some(share),
        json_i64(json_get(v, "limit_window_seconds"@)) == seconds,
        json_i64(json_get(v, "reset_at"@)) == reset,
    ensures
        remote_window(v) matches Some(w) && w.used_percent_bits == share && w.reset_at == reset
            && w.window_minutes == match seconds {
            Some(s) => Some(div_toward_zero(s as int, 60) as i64),
            None => None,
        },
        json_f64_bits(json_get(v, "used_percent"@)) is None ==> remote_window(v) is None,
{
}

/// How a rollout window is read: a window object with a numeric
/// `used_percent` is kept, with that share, its `window_minutes` and its
/// `resets_at` as the reset time.
pub proof fn rollout_window_fields(v: Option<Json>, share: u64, minutes: Option<i64>, reset: Option<i64>)
    requires
        json_is_object(v),
        json_f64_bits(json_get(v, "used_percent"@)) == Some(share),
        json_i64(json_get(v, "window_minutes"@)) == minutes,
        json_i64(json_get(v, "resets_at"@)) == reset,
    ensures
        rollout_window(v) matches Some(w) && w.used_percent_bits == share && w.window_minutes
            == minutes && w.reset_at == reset,
{
}

/// A usage endpoint response is read from its `rate_limit` object: the
/// primary and secondary windows are its `primary_window` and
/// `secondary_window`, and the plan is the response's `plan_type`.
pub proof fn remote_usage_fields(root: Json, rate_limit: Json, w: UsageWindow)
    requires
        json_get(Some(root), "rate_limit"@) == Some(rate_limit),
        json_is_object(Some(rate_limit)),
        remote_window(json_get(Some(rate_limit), "primary_window"@)) == Some(w),
    ensures
        remote_usage(root) matches Some(u) && u.primary == Some(w) && u.secondary == remote_window(
            json_get(Some(rate_limit), "secondary_window"@),
        ) && u.plan == json_str(json_get(Some(root), "plan_type"@)),
{
}

/// A window as a rollout file records it.
pub open spec fn rollout_window(v: Option<Json>) -> Option<UsageWindow> {
    if !json_is_object(v) || json_f64_bits(json_get(v, "used_percent"@)) is None {
        None
    } else {
        Some(
            UsageWindow {
                used_percent_bits: json_f64_bits(json_get(v, "used_percent"@))->0,
                window_minutes: json_i64(json_get(v, "window_minutes"@)),
                reset_at: json_i64(json_get(v, "resets_at"@)),
            },
        )
    }
}

/// A snapshot read from a JSON object: the two windows under the given names,
/// each read by `window`, and the plan; `None` when neither window is there.
pub open spec fn snapshot_from(
    plan: Option<Json>,
    primary: Option<UsageWindow>,
    secondary: Option<UsageWindow>,
) -> Option<UsageView> {
    if primary is None && secondary is None {
        None
    } else {
        Some(UsageView { plan: json_str(plan), primary, secondary })
    }
}

/// What `parse_usage_value` reads from a usage endpoint response.
pub open spec fn remote_usage(root: Json) -> Option<UsageView> {
    let rate_limit = json_get(Some(root), "rate_limit"@);
    if !json_is_object(rate_limit) {
        None
    } else {
        snapshot_from(
            json_get(Some(root), "plan_type"@),
            remote_window(json_get(rate_limit, "primary_window"@)),
            remote_window(json_get(rate_limit, "secondary_window"@)),
        )
    }
}

/// What `parse_rollout_rate_limits` reads from the `rate_limits` of a rollout
/// event.
pub open spec fn rollout_usage(v: Option<Json>) -> Option<UsageView> {
    if !json_is_object(v) {
        None
    } else {
        snapshot_from(
            json_get(v, "plan_type"@),
            rollout_window(json_get(v, "primary"@)),
            rollout_window(json_get(v, "secondary"@)),
        )
    }
}

fn plan_text(v: Option<&Json>) -> (res: Option<String>)
    ensures
        opt_view(res) == json_str(deref_opt(v)),
{
    match v {
        Some(j) => match j.as_str() {
            Some(s) => Some(s.to_owned()),
            None => None,
        },
        None => None,
    }
}

fn i64_member(v: &Json, key: &str) -> (res: Option<i64>)
    ensures
        res == json_i64(json_get(Some(*v), key@)),
{
    match v.get(key) {
        Some(n) => n.as_i64(),
        None => None,
    }
}

/// A window of a usage endpoint response.
fn parse_window(v: Option<&Json>) -> (res: Option<UsageWindow>)
    ensures
        res == remote_window(deref_opt(v)),
{
    let v = match v {
        Some(v) => v,
        None => return None,
    };
    if !v.is_object() {
        return None;
    }
    let used = match v.get("used_percent") {
        Some(n) => n.as_f64_bits(),
        None => None,
    };
    let used = match used {
        Some(bits) => bits,
        None => return None,
    };
    let window_minutes = match i64_member(v, "limit_window_seconds") {
        Some(seconds) => {
            if seconds >= 0 {
                Some(seconds / 60)
            } else {
                Some(-((-(seconds as i128)) / 60) as i64)
            }
        },
        None => None,
    };
    Some(UsageWindow { used_percent_bits: used, window_minutes, reset_at: i64_member(v, "reset_at") })
}

/// A window of the `rate_limits` of a rollout event.
fn parse_rollout_window(v: Option<&Json>) -> (res: Option<UsageWindow>)
    ensures
        res == rollout_window(deref_opt(v)),
{
    let v = match v {
        Some(v) => v,
        None => return None,
    };
    if !v.is_object() {
        return None;
    }
    let used = match v.get("used_percent") {
        Some(n) => n.as_f64_bits(),
        None => None,
    };
    let used = match used {
        Some(bits) => bits,
        None => return None,
    };
    Some(
        UsageWindow {
            used_percent_bits: used,
            window_minutes: i64_member(v, "window_minutes"),
            reset_at: i64_member(v, "resets_at"),
        },
    )
}

/// The snapshot in a usage endpoint response.
pub fn parse_usage_value(root: &Json) -> (res: Option<UsageSnapshot>)
    ensures
        res matches Some(s) ==> remote_usage(*root) == Some(s@),
        res is None ==> remote_usage(*root) is None,
{
    let rate_limit = match root.get("rate_limit") {
        Some(r) => r,
        None => return None,
    };
    if !rate_limit.is_object() {
        return None;
    }
    let primary = parse_window(rate_limit.get("primary_window"));
    let secondary = parse_window(rate_limit.get("secondary_window"));
    if primary.is_none() && secondary.is_none() {
        return None;
    }
    Some(UsageSnapshot { plan: plan_text(root.get("plan_type")), primary, secondary })
}

/// The snapshot in the `rate_limits` of a rollout event.
pub fn parse_rollout_rate_limits(v: Option<&Json>) -> (res: Option<UsageSnapshot>)
    ensures
        res matches Some(s) ==> rollout_usage(deref_opt(v)) == Some(s@),
        res is None ==> rollout_usage(deref_opt(v)) is None,
{
    let v = match v {
        Some(v) => v,
        None => return None,
    };
    if !v.is_object() {
        return None;
    }
    let primary = parse_rollout_window(v.get("primary"));
    let secondary = parse_rollout_window(v.get("secondary"));
    if primary.is_none() && secondary.is_none() {
        return None;
    }
    Some(UsageSnapshot { plan: plan_text(v.get("plan_type")), primary, secondary })
}

/// The snapshot in the body of a usage endpoint response;
/// `InvalidResponse` where the body is not JSON or holds no window.
pub fn parse_usage_json(body: &[u8]) -> (res: Result<UsageSnapshot, UsageError>)
    ensures
        res matches Ok(s) ==> json_document(body@) matches Some(root) && remote_usage(root) == Some(
            s@,
        ),
        res matches Err(e) ==> e == UsageError::InvalidResponse && (json_document(body@) is None
            || remote_usage(json_document(body@)->0) is None),
{
    match parse_json(body) {
        Ok(root) => match parse_usage_value(&root) {
            Some(s) => Ok(s),
            None => Err(UsageError::InvalidResponse),
        },
        Err(_) => Err(UsageError::InvalidResponse),
    }
}

} // verus!
