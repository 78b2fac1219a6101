//! The rows of the account table and the usage each row shows.

use vstd::prelude::*;
use crate::auth::opt_view;
use crate::format::{format_remaining, format_reset, remaining_text, reset_text};
use crate::registry::{distinct_keys, lemma_same_keys_distinct, AccountRecord, Registry};
use crate::select::{display_record_label, duplicate_record_email, email_count, label_text};
use crate::text::{chars_of, copy_opt_string, decimal, push_decimal, same_text, string_of};
use crate::usage::{div_toward_zero, same_usage, usage_error_text, UsageError, UsageSnapshot};

verus! {

/// One row of the account table.
#[derive(Debug)]
pub struct AccountRow {
    pub active: bool,
    pub label: String,
    pub plan: String,
    pub five_hour: String,
    pub weekly: String,
    pub five_hour_reset: String,
    pub weekly_reset: String,
}

/// Whether the table may ask the usage endpoint for fresh usage.
#[derive(Debug, Clone, Copy, PartialEq, Eq)]
pub enum RowUsageMode {
    CachedOnly,
    RefreshDisplay,
}

/// Whether the record is the active account with usage taken from a local
/// rollout.
pub open spec fn active_local(registry: Registry, record: AccountRecord) -> bool {
    opt_view(registry.active_account_key) == Some(record.account_key@)
        && record.last_local_rollout is Some && record.last_usage is Some
}

/// Whether the record is the active account with usage taken from a local
/// rollout.
pub fn has_active_local_usage(registry: &Registry, record: &AccountRecord) -> (res: bool)
    ensures
        res == active_local(*registry, *record),
        res ==> opt_view(registry.active_account_key) == Some(record.account_key@),
        res ==> record.last_usage is Some,
{
    let active = match &registry.active_account_key {
        Some(k) => same_text(k.as_str(), record.account_key.as_str()),
        None => false,
    };
    active && record.last_local_rollout.is_some() && record.last_usage.is_some()
}

/// Only the active account is kept off the usage endpoint for its local
/// usage: a record that is not the active one, or that holds no usage yet, is
/// never exempt on that ground.
pub proof fn only_the_active_account_uses_local_usage(registry: Registry, record: AccountRecord)
    ensures
        opt_view(registry.active_account_key) != Some(record.account_key@) ==> !active_local(
            registry,
            record,
        ),
        record.last_usage is None ==> !active_local(registry, record),
{
}

/// Whether the record's usage was fetched in the same minute as `now`.
pub open spec fn same_minute(record: AccountRecord, now: i64) -> bool {
    record.last_usage is Some && (record.last_usage_at matches Some(t) && div_toward_zero(t as int, 60)
        == div_toward_zero(now as int, 60))
}

fn minute_of(t: i64) -> (res: i64)
    ensures
        res == div_toward_zero(t as int, 60),
{
    if t >= 0 {
        t / 60
    } else {
        (-((-(t as i128)) / 60)) as i64
    }
}

/// Whether the record's usage was fetched in the same minute as
/// `now_seconds`.
pub fn has_usage_from_same_minute(record: &AccountRecord, now_seconds: i64) -> (res: bool)
    ensures
        res == same_minute(*record, now_seconds),
{
    record.last_usage.is_some() && match record.last_usage_at {
        Some(t) => minute_of(t) == minute_of(now_seconds),
        None => false,
    }
}

/// A snapshot with the record's plan and no windows.
pub fn empty_usage_snapshot(record: &AccountRecord) -> (res: UsageSnapshot)
    ensures
        res == empty_snapshot_of(*record),
{
    UsageSnapshot { plan: copy_opt_string(&record.plan), primary: None, secondary: None }
}

/// The usage each row starts from: the record's cached usage, where any.
pub fn cached_usage(registry: &Registry) -> (res: Vec<Option<Result<UsageSnapshot, UsageError>>>)
    ensures
        res@.len() == registry.accounts@.len(),
        forall|i: int|
            0 <= i < res@.len() ==> match registry.accounts@[i].last_usage {
                Some(u) => #[trigger] res@[i] == Some(Ok::<UsageSnapshot, UsageError>(u)),
                None => res@[i] is None,
            },
{
    let mut out: Vec<Option<Result<UsageSnapshot, UsageError>>> = Vec::new();
    let mut i: usize = 0;
    while i < registry.accounts.len()
        invariant
            i <= registry.accounts@.len(),
            out@.len() == i,
            forall|j: int|
                0 <= j < i ==> match registry.accounts@[j].last_usage {
                    Some(u) => #[trigger] out@[j] == Some(Ok::<UsageSnapshot, UsageError>(u)),
                    None => out@[j] is None,
                },
        decreases registry.accounts.len() - i,
    {
        let entry = match &registry.accounts[i].last_usage {
            Some(u) => Some(Ok(u.duplicate())),
            None => None,
        };
        out.push(entry);
        i = i + 1;
    }
    out
}

/// The accounts `build_rows` asks the usage endpoint about in refresh mode:
/// all but the active account with local usage and those fetched in the
/// same minute, in row order.
pub fn refresh_candidates(registry: &Registry, refresh_started_at: i64) -> (res: Vec<usize>)
    ensures
        forall|k: int| 0 <= k < res@.len() ==> #[trigger] res@[k] < registry.accounts@.len(),
        forall|k: int, l: int| 0 <= k < l < res@.len() ==> #[trigger] res@[k] < #[trigger] res@[l],
        forall|i: int|
            0 <= i < registry.accounts@.len() ==> (res@.contains(i as usize) <==> !(active_local(
                *registry,
                #[trigger] registry.accounts@[i],
            ) || same_minute(registry.accounts@[i], refresh_started_at))),
        forall|i: int|
            0 <= i < registry.accounts@.len() && opt_view(registry.active_account_key) != Some(
                (#[trigger] registry.accounts@[i]).account_key@,
            ) && !same_minute(registry.accounts@[i], refresh_started_at) ==> res@.contains(i as usize),
{
    let mut out: Vec<usize> = Vec::new();
    let mut i: usize = 0;
    while i < registry.accounts.len()
        invariant
            i <= registry.accounts@.len(),
            forall|k: int| 0 <= k < out@.len() ==> #[trigger] out@[k] < i,
            forall|k: int, l: int| 0 <= k < l < out@.len() ==> #[trigger] out@[k] < #[trigger] out@[l],
            forall|j: int|
                0 <= j < i ==> (out@.contains(j as usize) <==> !(active_local(
                    *registry,
                    #[trigger] registry.accounts@[j],
                ) || same_minute(registry.accounts@[j], refresh_started_at))),
        decreases registry.accounts.len() - i,
    {
        let record = &registry.accounts[i];
        let ghost before = out@;
        if !(has_active_local_usage(registry, record) || has_usage_from_same_minute(
            record,
            refresh_started_at,
        )) {
            out.push(i);
            assert(out@[out@.len() - 1] == i);
        }
        assert forall|j: int| 0 <= j < i + 1 implies (out@.contains(j as usize) <==> !(active_local(
            *registry,
            #[trigger] registry.accounts@[j],
        ) || same_minute(registry.accounts@[j], refresh_started_at))) by {
            if j < i {
                if out@.contains(j as usize) {
                    let k = choose|k: int| 0 <= k < out@.len() && out@[k] == j as usize;
                    if k < before.len() {
                        assert(before[k] == j as usize);
                    }
                }
                if before.contains(j as usize) {
                    let k = choose|k: int| 0 <= k < before.len() && before[k] == j as usize;
                    assert(out@[k] == j as usize);
                }
            } else {
                if out@.contains(j as usize) {
                    let k = choose|k: int| 0 <= k < out@.len() && out@[k] == j as usize;
                    if k < before.len() {
                        assert(before[k] < i);
                    }
                }
            }
        }
        i = i + 1;
    }
    out
}

/// The error shown for an account whose snapshot file could not be read.
pub fn missing_snapshot() -> (res: UsageError)
    ensures
        res matches UsageError::Transport(m) && m@ == "missing snapshot"@,
{
    UsageError::Transport("missing snapshot".to_owned())
}

/// How one fetch result changes a record: a successful fetch sets the fetch
/// time and, unless the cached usage compares equal to it, the cached usage; a
/// failure leaves the record as it was.
pub open spec fn fetched_record(prior: AccountRecord, new: AccountRecord, result: Result<UsageSnapshot, UsageError>, at: i64) -> bool {
    match result {
        Ok(s) => {
            &&& new.last_usage_at == Some(at)
            &&& new.last_usage == if prior.last_usage matches Some(o) && same_usage(o@, s@) {
                prior.last_usage
            } else {
                Some(s)
            }
            &&& new == AccountRecord { last_usage: new.last_usage, last_usage_at: new.last_usage_at, ..prior }
        },
        Err(_) => new == prior,
    }
}

/// A successful fetch caches the usage for the rest of its minute: a refresh
/// started in the same minute skips the account.
pub proof fn fetched_usage_is_reused_within_the_minute(
    prior: AccountRecord,
    new: AccountRecord,
    snapshot: UsageSnapshot,
    at: i64,
    now: i64,
)
    requires
        fetched_record(prior, new, Ok(snapshot), at),
        div_toward_zero(at as int, 60) == div_toward_zero(now as int, 60),
    ensures
        same_minute(new, now),
{
}

/// Whether a fetch result changes what the record holds.
pub open spec fn fetch_changes(prior: AccountRecord, result: Result<UsageSnapshot, UsageError>, at: i64) -> bool {
    match result {
        Ok(s) => !(prior.last_usage matches Some(o) && same_usage(o@, s@)) || prior.last_usage_at != Some(at),
        Err(_) => false,
    }
}

/// Whether `next`, `next_usage` and `changed` are what one fetched result for
/// the account at `index` makes of the registry and the row usage: the record
/// takes the result as `fetched_record` says, nothing else in the registry
/// changes, the row shows the result, and `changed` says whether the record
/// changed.
pub open spec fn fetch_applied(
    prior: Registry,
    usage: Seq<Option<Result<UsageSnapshot, UsageError>>>,
    index: usize,
    result: Result<UsageSnapshot, UsageError>,
    at: i64,
    next: Registry,
    next_usage: Seq<Option<Result<UsageSnapshot, UsageError>>>,
    changed: bool,
) -> bool {
    &&& next.accounts@.len() == prior.accounts@.len()
    &&& forall|j: int|
        0 <= j < prior.accounts@.len() && j != index ==> #[trigger] next.accounts@[j]
            == prior.accounts@[j]
    &&& fetched_record(prior.accounts@[index as int], next.accounts@[index as int], result, at)
    &&& changed == fetch_changes(prior.accounts@[index as int], result, at)
    &&& next.schema_version == prior.schema_version
    &&& next.active_account_key == prior.active_account_key
    &&& next.active_account_activated_at_ms == prior.active_account_activated_at_ms
    &&& next.latest_local_rollout == prior.latest_local_rollout
    &&& next_usage == usage.update(index as int, Some(result))
}

/// The states the registry and the row usage go through while the fetched
/// results are applied one after another, each with whether a record has
/// changed so far.
pub open spec fn fetch_steps(
    prior: Registry,
    usage: Seq<Option<Result<UsageSnapshot, UsageError>>>,
    results: Seq<(usize, Result<UsageSnapshot, UsageError>)>,
    at: i64,
    steps: Seq<(Registry, Seq<Option<Result<UsageSnapshot, UsageError>>>, bool)>,
) -> bool {
    &&& steps.len() == results.len() + 1
    &&& steps[0] == (prior, usage, false)
    &&& forall|i: int|
        0 <= i < results.len() ==> {
            &&& #[trigger] fetch_applied(
                steps[i].0,
                steps[i].1,
                results[i].0,
                results[i].1,
                at,
                steps[i + 1].0,
                steps[i + 1].1,
                fetch_changes(steps[i].0.accounts@[results[i].0 as int], results[i].1, at),
            )
            &&& steps[i + 1].2 == (steps[i].2 || fetch_changes(steps[i].0.accounts@[results[i].0 as int], results[i].1, at))
        }
}

/// Whether `next`, `next_usage` and `changed` are what applying the fetched
/// results one after another makes of the registry and the row usage;
/// `changed` says whether any record changed.
pub open spec fn fetches_applied(
    prior: Registry,
    usage: Seq<Option<Result<UsageSnapshot, UsageError>>>,
    results: Seq<(usize, Result<UsageSnapshot, UsageError>)>,
    at: i64,
    next: Registry,
    next_usage: Seq<Option<Result<UsageSnapshot, UsageError>>>,
    changed: bool,
) -> bool {
    exists|steps: Seq<(Registry, Seq<Option<Result<UsageSnapshot, UsageError>>>, bool)>|
        #[trigger] fetch_steps(prior, usage, results, at, steps) && steps.last() == (
            next,
            next_usage,
            changed,
        )
}

/// Applies one fetched result to the record at `index` and to the row usage,
/// as `build_rows` does; the result says whether the record changed.
pub fn apply_fetch_result(
    registry: &mut Registry,
    usage: &mut Vec<Option<Result<UsageSnapshot, UsageError>>>,
    index: usize,
    result: Result<UsageSnapshot, UsageError>,
    refresh_started_at: i64,
) -> (res: bool)
    requires
        index < old(registry).accounts@.len(),
        index < old(usage)@.len(),
    ensures
        distinct_keys(old(registry).accounts@) ==> distinct_keys(final(registry).accounts@),
        fetch_applied(
            *old(registry),
            old(usage)@,
            index,
            result,
            refresh_started_at,
            *final(registry),
            final(usage)@,
            res,
        ),
{
    let mut changed = false;
    if let Ok(snapshot) = &result {
        let ghost before = registry.accounts@;
        let mut record = registry.accounts.remove(index);
        let same = match &record.last_usage {
            Some(u) => u.same_as(snapshot),
            None => false,
        };
        if !same {
            record.last_usage = Some(snapshot.duplicate());
            changed = true;
        }
        if record.last_usage_at != Some(refresh_started_at) {
            record.last_usage_at = Some(refresh_started_at);
            changed = true;
        }
        registry.accounts.insert(index, record);
        assert forall|j: int| 0 <= j < before.len() && j != index implies #[trigger] registry.accounts@[j] == before[j] by {
            if j > index {
                assert(registry.accounts@[j] == before.remove(index as int)[j - 1]);
            }
        }
        proof {
            if distinct_keys(before) {
                lemma_same_keys_distinct(before, registry.accounts@);
            }
        }
    }
    usage.set(index, Some(result));
    changed
}

/// Applies the fetched results in turn, as `build_rows` does once the fetches
/// are done; the result says whether any record changed.
pub fn apply_fetch_results(
    registry: &mut Registry,
    usage: &mut Vec<Option<Result<UsageSnapshot, UsageError>>>,
    results: Vec<(usize, Result<UsageSnapshot, UsageError>)>,
    refresh_started_at: i64,
) -> (res: bool)
    requires
        forall|k: int|
            0 <= k < results@.len() ==> #[trigger] results@[k].0 < old(registry).accounts@.len()
                && results@[k].0 < old(usage)@.len(),
    ensures
        fetches_applied(
            *old(registry),
            old(usage)@,
            results@,
            refresh_started_at,
            *final(registry),
            final(usage)@,
            res,
        ),
{
    let ghost all = results@;
    let ghost r0 = *registry;
    let ghost u0 = usage@;
    let ghost mut steps: Seq<(Registry, Seq<Option<Result<UsageSnapshot, UsageError>>>, bool)> = seq![
        (r0, u0, false),
    ];
    let total = results.len();
    assert(all.len() == total);
    let mut rest = results;
    let mut changed = false;
    let mut k: usize = 0;
    assert(all.take(0) =~= Seq::<(usize, Result<UsageSnapshot, UsageError>)>::empty());
    assert(all.skip(0) =~= all);
    while rest.len() > 0
        invariant
            k <= all.len(),
            all.len() <= usize::MAX,
            rest.len() + k == all.len(),
            rest@ == all.skip(k as int),
            registry.accounts@.len() == r0.accounts@.len(),
            usage@.len() == u0.len(),
            forall|m: int|
                0 <= m < all.len() ==> #[trigger] all[m].0 < r0.accounts@.len() && all[m].0 < u0.len(),
            fetch_steps(r0, u0, all.take(k as int), refresh_started_at, steps),
            steps.last() == (*registry, usage@, changed),
        decreases rest.len(),
    {
        let ghost mid = *registry;
        let ghost mid_usage = usage@;
        let (index, result) = rest.remove(0);
        assert(all.skip(k as int)[0] == all[k as int]);
        assert(all[k as int] == (index, result));
        assert(index < registry.accounts@.len() && index < usage@.len());
        let c1 = apply_fetch_result(registry, usage, index, result, refresh_started_at);
        changed = changed || c1;
        proof {
            let before = steps;
            let done = all.take(k + 1);
            steps = steps.push((*registry, usage@, changed));
            assert forall|i: int| 0 <= i < done.len() implies {
                &&& #[trigger] fetch_applied(
                    steps[i].0,
                    steps[i].1,
                    done[i].0,
                    done[i].1,
                    refresh_started_at,
                    steps[i + 1].0,
                    steps[i + 1].1,
                    fetch_changes(steps[i].0.accounts@[done[i].0 as int], done[i].1, refresh_started_at),
                )
                &&& steps[i + 1].2 == (steps[i].2 || fetch_changes(steps[i].0.accounts@[done[i].0 as int], done[i].1, refresh_started_at))
            } by {
                if i < k {
                    let prev = all.take(k as int);
                    assert(done[i] == prev[i]);
                    assert(steps[i] == before[i] && steps[i + 1] == before[i + 1]);
                    assert(fetch_applied(
                        before[i].0,
                        before[i].1,
                        prev[i].0,
                        prev[i].1,
                        refresh_started_at,
                        before[i + 1].0,
                        before[i + 1].1,
                        fetch_changes(before[i].0.accounts@[prev[i].0 as int], prev[i].1, refresh_started_at),
                    ));
                } else {
                    assert(done[i] == (index, result));
                    assert(steps[i] == before.last());
                    assert(steps[i + 1] == (*registry, usage@, changed));
                    assert(c1 == fetch_changes(mid.accounts@[index as int], result, refresh_started_at));
                }
            }
            assert(fetch_steps(r0, u0, done, refresh_started_at, steps));
        }
        assert(rest@ =~= all.skip(k + 1));
        k = k + 1;
    }
    assert(all.take(k as int) =~= all);
    changed
}

/// The text of a row's plan: the given plan, else the record's, else `-`.
pub open spec fn plan_text(first: Option<Seq<char>>, second: Option<Seq<char>>) -> Seq<char> {
    match first {
        Some(p) => p,
        None => match second {
            Some(p) => p,
            None => seq!['-'],
        },
    }
}

/// The text shown for a window's remaining share: `-` without a window,
/// otherwise the percentage computed for it.
pub open spec fn window_text(present: bool, remaining: Option<i64>) -> Seq<char> {
    if present {
        remaining_text(remaining)
    } else {
        seq!['-']
    }
}

fn text_or_dash(first: &Option<String>, second: &Option<String>) -> (res: String)
    ensures
        res@ == plan_text(opt_view(*first), opt_view(*second)),
{
    match first {
        Some(p) => p.clone(),
        None => match second {
            Some(p) => p.clone(),
            None => {
                proof {
                    reveal_strlit("-");
                }
                "-".to_owned()
            },
        },
    }
}

fn window_cell(present: bool, remaining: Option<i64>) -> (res: String)
    ensures
        res@ == window_text(present, remaining),
{
    if present {
        format_remaining(remaining)
    } else {
        format_remaining(None)
    }
}

/// What the row of an account shows: whether it is active, its label, and,
/// for usage found, the plan, the remaining shares and the reset times of
/// the windows (each reset time as seen at some moment), or for a failed
/// fetch the error in both window cells.
pub open spec fn row_shows(
    res: AccountRow,
    account: AccountRecord,
    duplicate: bool,
    active: bool,
    usage_result: Result<UsageSnapshot, UsageError>,
    remaining_primary: Option<i64>,
    remaining_secondary: Option<i64>,
) -> bool {
    &&& res.active == active
    &&& res.label@ == label_text(account.email@, account.chatgpt_account_id@, duplicate)
    &&& usage_result matches Ok(s) ==> {
        &&& res.plan@ == plan_text(opt_view(s.plan), opt_view(account.plan))
        &&& res.five_hour@ == window_text(s.primary is Some, remaining_primary)
        &&& res.weekly@ == window_text(s.secondary is Some, remaining_secondary)
        &&& (match s.primary {
            Some(w) => match w.reset_at {
                Some(r) => exists|now: int| res.five_hour_reset@ == reset_text(now, r as int),
                None => res.five_hour_reset@ == seq!['-'],
            },
            None => res.five_hour_reset@ == seq!['-'],
        })
        &&& (match s.secondary {
            Some(w) => match w.reset_at {
                Some(r) => exists|now: int| res.weekly_reset@ == reset_text(now, r as int),
                None => res.weekly_reset@ == seq!['-'],
            },
            None => res.weekly_reset@ == seq!['-'],
        })
    }
    &&& usage_result matches Err(e) ==> {
        &&& res.plan@ == plan_text(opt_view(account.plan), None)
        &&& res.five_hour@ == usage_error_text(e)
        &&& res.weekly@ == usage_error_text(e)
        &&& res.five_hour_reset@ == seq!['-']
        &&& res.weekly_reset@ == seq!['-']
    }
}

/// The snapshot shown for an account without usage: its plan and no windows.
pub open spec fn empty_snapshot_of(record: AccountRecord) -> UsageSnapshot {
    UsageSnapshot { plan: record.plan, primary: None, secondary: None }
}

/// The table row of an account and the usage found for it. The remaining
/// percentages of the snapshot's windows are given, computed from their used
/// shares.
pub fn row_for_account(
    account: &AccountRecord,
    duplicate: bool,
    active_key: Option<&str>,
    usage_result: Result<UsageSnapshot, UsageError>,
    remaining_primary: Option<i64>,
    remaining_secondary: Option<i64>,
) -> (res: AccountRow)
    ensures
        row_shows(
            res,
            *account,
            duplicate,
            active_key matches Some(k) && k@ == account.account_key@,
            usage_result,
            remaining_primary,
            remaining_secondary,
        ),
{
    let active = match active_key {
        Some(k) => same_text(k, account.account_key.as_str()),
        None => false,
    };
    let label = display_record_label(account, duplicate);
    match usage_result {
        Ok(snapshot) => {
            AccountRow {
                active,
                label,
                plan: text_or_dash(&snapshot.plan, &account.plan),
                five_hour: window_cell(snapshot.primary.is_some(), remaining_primary),
                weekly: window_cell(snapshot.secondary.is_some(), remaining_secondary),
                five_hour_reset: format_reset(snapshot.primary.as_ref()),
                weekly_reset: format_reset(snapshot.secondary.as_ref()),
            }
        },
        Err(err) => {
            let none: Option<String> = None;
            AccountRow {
                active,
                label,
                plan: text_or_dash(&account.plan, &none),
                five_hour: err.message(),
                weekly: err.message(),
                five_hour_reset: format_reset(None),
                weekly_reset: format_reset(None),
            }
        },
    }
}

/// The row of the account at `index`, as `build_rows` makes it from the usage
/// found for it (the record's plan and no windows where there is none).
pub fn build_row(
    registry: &Registry,
    index: usize,
    usage: Option<Result<UsageSnapshot, UsageError>>,
    remaining_primary: Option<i64>,
    remaining_secondary: Option<i64>,
) -> (res: AccountRow)
    requires
        index < registry.accounts@.len(),
    ensures
        ({
            let record = registry.accounts@[index as int];
            row_shows(
                res,
                record,
                email_count(registry.accounts@, record.email@) > 1,
                opt_view(registry.active_account_key) == Some(record.account_key@),
                match usage {
                    Some(r) => r,
                    None => Ok(empty_snapshot_of(record)),
                },
                remaining_primary,
                remaining_secondary,
            )
        }),
{
    let record = &registry.accounts[index];
    let duplicate = duplicate_record_email(&registry.accounts, index);
    let active_key = match &registry.active_account_key {
        Some(k) => Some(k.as_str()),
        None => None,
    };
    let result = match usage {
        Some(r) => r,
        None => Ok(empty_usage_snapshot(record)),
    };
    row_for_account(record, duplicate, active_key, result, remaining_primary, remaining_secondary)
}

/// A cell padded with spaces on the right to `width` characters, as the
/// `{:<width}` format does; a longer cell is kept whole.
pub open spec fn pad_right(s: Seq<char>, width: nat) -> Seq<char> {
    if s.len() >= width {
        s
    } else {
        s + Seq::new((width - s.len()) as nat, |i: int| ' ')
    }
}

/// A line of the account table: seven cells of widths 4, 42, 10 and four
/// times 14, separated by single spaces.
pub open spec fn table_text(cells: Seq<Seq<char>>) -> Seq<char> {
    pad_right(cells[0], 4) + seq![' '] + pad_right(cells[1], 42) + seq![' '] + pad_right(cells[2], 10)
        + seq![' '] + pad_right(cells[3], 14) + seq![' '] + pad_right(cells[4], 14) + seq![' ']
        + pad_right(cells[5], 14) + seq![' '] + pad_right(cells[6], 14)
}

/// The first cell of a row: `*` for the active account, else a space, then
/// the row number with at least two digits.
pub open spec fn row_number_text(active: bool, number: nat) -> Seq<char> {
    seq![if active { '*' } else { ' ' }] + if number < 10 {
        seq!['0'] + decimal(number)
    } else {
        decimal(number)
    }
}

fn push_padded(out: &mut Vec<char>, cell: &[char], width: usize)
    ensures
        final(out)@ == old(out)@ + pad_right(cell@, width as nat),
{
    let mut i: usize = 0;
    while i < cell.len()
        invariant
            i <= cell.len(),
            out@ == old(out)@ + cell@.take(i as int),
        decreases cell.len() - i,
    {
        out.push(cell[i]);
        assert(cell@.take(i as int).push(cell@[i as int]) =~= cell@.take(i + 1));
        i = i + 1;
    }
    assert(cell@.take(cell.len() as int) =~= cell@);
    let mut k: usize = cell.len();
    let ghost start = out@;
    while k < width
        invariant
            cell.len() <= k <= width || (k == cell.len() && k >= width),
            start == old(out)@ + cell@,
            out@ == start + Seq::new((k - cell.len()) as nat, |j: int| ' '),
        decreases width - k,
    {
        out.push(' ');
        assert(start + Seq::new((k + 1 - cell.len()) as nat, |j: int| ' ') =~= (start + Seq::new(
            (k - cell.len()) as nat,
            |j: int| ' ',
        )).push(' '));
        k = k + 1;
    }
    assert(out@ =~= old(out)@ + pad_right(cell@, width as nat));
}

fn table_line(cells: [&[char]; 7]) -> (res: String)
    ensures
        res@ == table_text(seq![cells[0]@, cells[1]@, cells[2]@, cells[3]@, cells[4]@, cells[5]@, cells[6]@]),
{
    let mut out: Vec<char> = Vec::new();
    push_padded(&mut out, cells[0], 4);
    out.push(' ');
    push_padded(&mut out, cells[1], 42);
    out.push(' ');
    push_padded(&mut out, cells[2], 10);
    out.push(' ');
    push_padded(&mut out, cells[3], 14);
    out.push(' ');
    push_padded(&mut out, cells[4], 14);
    out.push(' ');
    push_padded(&mut out, cells[5], 14);
    out.push(' ');
    push_padded(&mut out, cells[6], 14);
    let ghost c = seq![cells[0]@, cells[1]@, cells[2]@, cells[3]@, cells[4]@, cells[5]@, cells[6]@];
    assert(out@ =~= table_text(c));
    string_of(&out)
}

/// The heading line of the account table.
pub fn table_heading() -> (res: String)
    ensures
        res@ == table_text(
            seq![
                Seq::empty(),
                "ACCOUNT"@,
                "PLAN"@,
                "5H LEFT"@,
                "5H RESET"@,
                "WEEKLY LEFT"@,
                "WEEKLY RESET"@,
            ],
        ),
{
    let empty: Vec<char> = Vec::new();
    let account = chars_of("ACCOUNT");
    let plan = chars_of("PLAN");
    let five_left = chars_of("5H LEFT");
    let five_reset = chars_of("5H RESET");
    let weekly_left = chars_of("WEEKLY LEFT");
    let weekly_reset = chars_of("WEEKLY RESET");
    assert(empty@ =~= Seq::<char>::empty());
    table_line(
        [
            empty.as_slice(),
            account.as_slice(),
            plan.as_slice(),
            five_left.as_slice(),
            five_reset.as_slice(),
            weekly_left.as_slice(),
            weekly_reset.as_slice(),
        ],
    )
}

/// The line of the row at `index` (counting from 0) in the account table: its
/// marker and number, label, plan, then the five-hour and weekly shares left
/// and reset times.
pub fn table_row(index: usize, row: &AccountRow) -> (res: String)
    ensures
        res@ == table_text(
            seq![
                row_number_text(row.active, index as nat + 1),
                row.label@,
                row.plan@,
                row.five_hour@,
                row.five_hour_reset@,
                row.weekly@,
                row.weekly_reset@,
            ],
        ),
{
    let mut number: Vec<char> = Vec::new();
    number.push(if row.active { '*' } else { ' ' });
    let n: u128 = index as u128 + 1;
    if n < 10 {
        number.push('0');
    }
    push_decimal(&mut number, n);
    assert(number@ =~= row_number_text(row.active, index as nat + 1));
    let label = chars_of(row.label.as_str());
    let plan = chars_of(row.plan.as_str());
    let five_hour = chars_of(row.five_hour.as_str());
    let five_hour_reset = chars_of(row.five_hour_reset.as_str());
    let weekly = chars_of(row.weekly.as_str());
    let weekly_reset = chars_of(row.weekly_reset.as_str());
    table_line(
        [
            number.as_slice(),
            label.as_slice(),
            plan.as_slice(),
            five_hour.as_slice(),
            five_hour_reset.as_slice(),
            weekly.as_slice(),
            weekly_reset.as_slice(),
        ],
    )
}

} // verus!
