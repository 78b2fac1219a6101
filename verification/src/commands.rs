//! The decisions of the commands that keep the registry in step with Codex.

use vstd::prelude::*;
use crate::auth::opt_view;
use crate::format::now_seconds;
use crate::local::{LocalRolloutCache, LocalUsage};
use crate::rows::active_local;
use crate::registry::{distinct_keys, find_key, lemma_same_keys_distinct, AccountRecord, Registry, RolloutSignature};
use crate::text::same_text;

verus! {

/// Whether `refresh_active_local_usage` looks at the rollout files at all:
/// only while some account is active.
pub fn needs_local_refresh(registry: &Registry) -> (res: bool)
    ensures
        res == registry.active_account_key is Some,
{
    registry.active_account_key.is_some()
}

/// How the record of the active account takes a local usage event.
pub open spec fn took_local(prior: AccountRecord, new: AccountRecord, local: LocalUsage) -> bool {
    &&& new.last_usage == Some(local.snapshot)
    &&& new.last_usage_at is Some
    &&& new.last_usage_error is None
    &&& new.last_local_rollout matches Some(sig) && sig.path@ == local.path@ && sig.event_timestamp_ms
        == local.event_timestamp_ms
    &&& new == AccountRecord {
        last_usage: new.last_usage,
        last_usage_at: new.last_usage_at,
        last_usage_error: new.last_usage_error,
        last_local_rollout: new.last_local_rollout,
        ..prior
    }
}

/// Whether the record already took this event.
pub open spec fn already_taken(r: AccountRecord, local: LocalUsage) -> bool {
    r.last_local_rollout matches Some(sig) && sig.path@ == local.path@ && sig.event_timestamp_ms
        == local.event_timestamp_ms
}

/// Whether `next` and `res` are what taking the newest rollout read (its
/// usage event and new cache entry, if any) makes of the registry `prior`:
/// only while an account is active, a new cache entry replaces the old one,
/// and a usage event no older than the activation becomes the active
/// account's usage unless its record already took it (then, where the cache
/// entry did not change, a stale usage error is cleared). The result says
/// whether the registry changed.
pub open spec fn local_applied(
    prior: Registry,
    local: Option<LocalUsage>,
    updated_cache: Option<LocalRolloutCache>,
    next: Registry,
    res: bool,
) -> bool {
    &&& next.schema_version == prior.schema_version
    &&& next.active_account_key == prior.active_account_key
    &&& next.active_account_activated_at_ms == prior.active_account_activated_at_ms
    &&& next.accounts@.len() == prior.accounts@.len()
    &&& prior.active_account_key is None ==> !res && next == prior
    &&& prior.active_account_key is Some ==> {
        let key = prior.active_account_key->0@;
        let before = prior.accounts@;
        let after = next.accounts@;
        let cache_changed = updated_cache is Some;
        let activated = match prior.active_account_activated_at_ms {
            Some(t) => t,
            None => 0,
        };
        &&& next.latest_local_rollout == if cache_changed {
            updated_cache
        } else {
            prior.latest_local_rollout
        }
        &&& match local {
            None => after == before && res == cache_changed,
            Some(l) => if l.event_timestamp_ms < activated || find_key(before, key) is None {
                after == before && res == cache_changed
            } else {
                let i = find_key(before, key)->0;
                &&& forall|j: int| 0 <= j < before.len() && j != i ==> #[trigger] after[j] == before[j]
                &&& if already_taken(before[i], l) {
                    if cache_changed {
                        after[i] == before[i] && res
                    } else {
                        &&& after[i] == AccountRecord { last_usage_error: None, ..before[i] }
                        &&& res == before[i].last_usage_error is Some
                    }
                } else {
                    &&& took_local(before[i], after[i], l)
                    &&& res
                }
            },
        }
    }
}

/// `refresh_active_local_usage` after reading the rollout files: a new cache
/// entry replaces the old one; a usage event no older than the activation of
/// the active account becomes that account's usage, unless the record already
/// took it (then, where the cache entry did not change, a stale usage error is
/// cleared). The result says whether the registry changed.
pub fn apply_local_usage(registry: &mut Registry, local: Option<LocalUsage>, updated_cache: Option<LocalRolloutCache>) -> (res: bool)
    ensures
        distinct_keys(old(registry).accounts@) ==> distinct_keys(final(registry).accounts@),
        local_applied(*old(registry), local, updated_cache, *final(registry), res),
{
    let key = match &registry.active_account_key {
        Some(k) => k.clone(),
        None => return false,
    };
    let mut changed = false;
    if let Some(cache) = updated_cache {
        registry.latest_local_rollout = Some(cache);
        changed = true;
    }
    let local = match local {
        Some(l) => l,
        None => return changed,
    };
    let activated_at_ms = match registry.active_account_activated_at_ms {
        Some(t) => t,
        None => 0,
    };
    if local.event_timestamp_ms < activated_at_ms {
        return changed;
    }
    let index = match registry.account_index(key.as_str()) {
        Some(i) => i,
        None => return changed,
    };
    proof {
        crate::registry::lemma_find_key_pub(registry.accounts@, key@);
    }
    let ghost before = registry.accounts@;
    let mut record = registry.accounts.remove(index);
    let taken = match &record.last_local_rollout {
        Some(sig) => same_text(sig.path.as_str(), local.path.as_str()) && sig.event_timestamp_ms
            == local.event_timestamp_ms,
        None => false,
    };
    let result = if taken {
        changed || record.last_usage_error.take().is_some()
    } else {
        let signature = RolloutSignature {
            path: local.path,
            event_timestamp_ms: local.event_timestamp_ms,
        };
        record.last_usage = Some(local.snapshot);
        record.last_usage_at = Some(now_seconds());
        record.last_usage_error = None;
        record.last_local_rollout = Some(signature);
        true
    };
    registry.accounts.insert(index, record);
    assert forall|j: int| 0 <= j < before.len() && j != index implies #[trigger] registry.accounts@[j] == before[j] by {
        if j > index {
            assert(registry.accounts@[j] == before.remove(index as int)[j - 1]);
        }
    }
    proof {
        if distinct_keys(before) {
            lemma_same_keys_distinct(before, registry.accounts@);
        }
    }
    result
}

/// When the active account's activation time counts, `0` where none is set.
pub open spec fn activation_time(r: Registry) -> i64 {
    match r.active_account_activated_at_ms {
        Some(t) => t,
        None => 0,
    }
}

/// A local usage event older than the active account's activation changes no
/// account; once the activation is moved back to time `0`, taking the same
/// event again makes it that account's usage and reports a change.
pub proof fn local_usage_counts_only_after_activation(
    r0: Registry,
    event: LocalUsage,
    first_cache: Option<LocalRolloutCache>,
    r1: Registry,
    first_res: bool,
    second_cache: Option<LocalRolloutCache>,
    r2: Registry,
    second_res: bool,
)
    requires
        r0.active_account_key is Some,
        find_key(r0.accounts@, r0.active_account_key->0@) is Some,
        !already_taken(r0.accounts@[find_key(r0.accounts@, r0.active_account_key->0@)->0], event),
        0 <= event.event_timestamp_ms < activation_time(r0),
        local_applied(r0, Some(event), first_cache, r1, first_res),
        local_applied(
            Registry { active_account_activated_at_ms: Some(0i64), ..r1 },
            Some(event),
            second_cache,
            r2,
            second_res,
        ),
    ensures
        r1.accounts@ == r0.accounts@,
        second_res,
        r2.accounts@[find_key(r0.accounts@, r0.active_account_key->0@)->0].last_usage == Some(
            event.snapshot,
        ),
{
}

/// Once the active account has taken a local usage event, the table shows
/// that usage as it is and does not ask the usage endpoint for the account.
pub proof fn taken_local_usage_is_not_refreshed(
    registry: Registry,
    prior: AccountRecord,
    record: AccountRecord,
    local: LocalUsage,
)
    requires
        took_local(prior, record, local),
        opt_view(registry.active_account_key) == Some(record.account_key@),
    ensures
        active_local(registry, record),
{
}

/// The account that becomes active after the active one was removed: the
/// first one left, if any.
pub fn removal_successor(registry: &Registry) -> (res: Option<String>)
    ensures
        registry.accounts@.len() == 0 ==> res is None,
        registry.accounts@.len() > 0 ==> res == Some(registry.accounts@[0].account_key),
{
    if registry.accounts.len() == 0 {
        None
    } else {
        Some(registry.accounts[0].account_key.clone())
    }
}

/// Whether the key is the active account's.
pub fn is_active_key(registry: &Registry, key: &str) -> (res: bool)
    ensures
        res == (opt_view(registry.active_account_key) == Some(key@)),
{
    match &registry.active_account_key {
        Some(k) => same_text(k.as_str(), key),
        None => false,
    }
}

} // verus!
