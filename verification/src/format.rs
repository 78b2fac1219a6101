//! How remaining limits and reset times are written in the account table.

use vstd::prelude::*;
use crate::text::{decimal, push_decimal, push_signed_decimal, signed_decimal, string_of};
use crate::usage::UsageWindow;

verus! {

/// The text shown for a remaining percentage: the number and `%`, or `-`
/// where there is no window.
pub open spec fn remaining_text(remaining: Option<i64>) -> Seq<char> {
    match remaining {
        Some(p) => signed_decimal(p as int).push('%'),
        None => seq!['-'],
    }
}

/// The text shown for a reset time `reset_at` seen at `now` (both in seconds):
/// `now` once it has passed, otherwise the time left rounded up to whole
/// minutes, as minutes, hours and minutes, or days and hours.
pub open spec fn reset_text(now: int, reset_at: int) -> Seq<char> {
    if reset_at <= now {
        seq!['n', 'o', 'w']
    } else {
        let total = (reset_at - now + 59) / 60;
        let days = total / 1440;
        let hours = (total % 1440) / 60;
        let minutes = total % 60;
        if days == 0 && hours == 0 {
            decimal(minutes as nat).push('m')
        } else if days == 0 {
            decimal(hours as nat) + seq!['h', ' '] + decimal(minutes as nat).push('m')
        } else {
            decimal(days as nat) + seq!['d', ' '] + decimal(hours as nat).push('h')
        }
    }
}

/// The text of a window's remaining share, given the remaining percentage
/// of the window (if any).
pub fn format_remaining(remaining: Option<i64>) -> (res: String)
    ensures
        res@ == remaining_text(remaining),
{
    let mut out: Vec<char> = Vec::new();
    match remaining {
        Some(p) => {
            push_signed_decimal(&mut out, p as i128);
            out.push('%');
        },
        None => {
            out.push('-');
        },
    }
    string_of(&out)
}

/// The reset time `reset_at` as seen at `now`.
pub fn format_reset_from(now: i64, reset_at: i64) -> (res: String)
    ensures
        res@ == reset_text(now as int, reset_at as int),
{
    let mut out: Vec<char> = Vec::new();
    if reset_at <= now {
        out.push('n');
        out.push('o');
        out.push('w');
        return string_of(&out);
    }
    let total: i128 = ((reset_at as i128 - now as i128) + 59) / 60;
    let days: i128 = total / 1440;
    let hours: i128 = (total % 1440) / 60;
    let minutes: i128 = total % 60;
    if days == 0 && hours == 0 {
        push_decimal(&mut out, minutes as u128);
        out.push('m');
    } else if days == 0 {
        push_decimal(&mut out, hours as u128);
        out.push('h');
        out.push(' ');
        push_decimal(&mut out, minutes as u128);
        out.push('m');
    } else {
        push_decimal(&mut out, days as u128);
        out.push('d');
        out.push(' ');
        push_decimal(&mut out, hours as u128);
        out.push('h');
    }
    string_of(&out)
}

/// The current time as whole seconds since the Unix epoch (`0` before it),
/// from `SystemTime::now`.
#[verifier::external_body]
pub(crate) fn now_seconds() -> i64 {
    std::time::SystemTime::now().duration_since(std::time::UNIX_EPOCH).map(
        |duration| duration.as_secs() as i64,
    ).unwrap_or(0)
}

/// The reset time of a window as seen now; `-` where the window or its reset
/// time is missing.
pub fn format_reset(window: Option<&UsageWindow>) -> (res: String)
    ensures
        (window matches Some(w) && w.reset_at is Some) ==> exists|now: int| res@ == reset_text(now, window->0.reset_at->0 as int),
        !(window matches Some(w) && w.reset_at is Some) ==> res@ == seq!['-'],
{
    let reset_at = match window {
        Some(w) => w.reset_at,
        None => None,
    };
    match reset_at {
        None => {
            let mut out: Vec<char> = Vec::new();
            out.push('-');
            string_of(&out)
        },
        Some(r) => {
            let now = now_seconds();
            let res = format_reset_from(now, r);
            assert(res@ == reset_text(now as int, r as int));
            res
        },
    }
}

} // verus!
