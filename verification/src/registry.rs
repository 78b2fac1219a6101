//! The registry of saved accounts: one record per login, the active account,
//! and cached usage.

use vstd::prelude::*;
use crate::auth::{opt_view, record_key_text, AuthInfo, AuthView};
use crate::local::LocalRolloutCache;
use crate::order::{insert_sorted, sort_by_key, sorted_by_key, AccountOrder};
use crate::text::{copy_opt_string, same_text};
use crate::usage::{UsageError, UsageSnapshot};

verus! {

/// The version of the registry file layout this library writes.
pub const REGISTRY_SCHEMA_VERSION: u32 = 1;

/// The rollout event that last set an account's usage.
#[derive(Debug)]
pub struct RolloutSignature {
    pub path: String,
    pub event_timestamp_ms: i64,
}

/// What the registry keeps of one account.
#[derive(Debug)]
pub struct AccountRecord {
    pub account_key: String,
    pub chatgpt_account_id: String,
    pub chatgpt_user_id: String,
    pub email: String,
    pub plan: Option<String>,
    pub created_at: i64,
    pub last_used_at: Option<i64>,
    pub last_usage: Option<UsageSnapshot>,
    pub last_usage_at: Option<i64>,
    pub last_usage_error: Option<UsageError>,
    pub last_local_rollout: Option<RolloutSignature>,
}

/// The registry file's contents.
#[derive(Debug)]
pub struct Registry {
    pub schema_version: u32,
    pub active_account_key: Option<String>,
    pub active_account_activated_at_ms: Option<i64>,
    pub latest_local_rollout: Option<LocalRolloutCache>,
    pub accounts: Vec<AccountRecord>,
}

impl AccountOrder for AccountRecord {
    open spec fn first_key(&self) -> Seq<char> {
        self.email@
    }

    open spec fn second_key(&self) -> Seq<char> {
        self.chatgpt_account_id@
    }

    fn first_text(&self) -> (res: &str) {
        self.email.as_str()
    }

    fn second_text(&self) -> (res: &str) {
        self.chatgpt_account_id.as_str()
    }
}

/// The index of the first record with the given key.
pub open spec fn find_key(s: Seq<AccountRecord>, key: Seq<char>) -> Option<int>
    decreases s.len(),
{
    if s.len() == 0 {
        None
    } else if s[0].account_key@ == key {
        Some(0)
    } else {
        match find_key(s.drop_first(), key) {
            Some(i) => Some(i + 1),
            None => None,
        }
    }
}

/// Whether some record has the given key.
pub open spec fn has_key(s: Seq<AccountRecord>, key: Seq<char>) -> bool {
    exists|j: int| 0 <= j < s.len() && #[trigger] s[j].account_key@ == key
}

proof fn lemma_has_key(s: Seq<AccountRecord>, key: Seq<char>)
    ensures
        has_key(s, key) <==> find_key(s, key) is Some,
{
    lemma_find_key(s, key);
}

/// What `find_key` finds: the first record with the key, or none at all.
pub proof fn lemma_find_key_pub(s: Seq<AccountRecord>, key: Seq<char>)
    ensures
        find_key(s, key) matches Some(i) ==> 0 <= i < s.len() && s[i].account_key@ == key
            && forall|j: int| 0 <= j < i ==> s[j].account_key@ != key,
        find_key(s, key) is None ==> forall|j: int| 0 <= j < s.len() ==> s[j].account_key@ != key,
{
    lemma_find_key(s, key);
}

proof fn lemma_find_key(s: Seq<AccountRecord>, key: Seq<char>)
    ensures
        find_key(s, key) matches Some(i) ==> 0 <= i < s.len() && s[i].account_key@ == key
            && forall|j: int| 0 <= j < i ==> s[j].account_key@ != key,
        find_key(s, key) is None ==> forall|j: int| 0 <= j < s.len() ==> s[j].account_key@ != key,
    decreases s.len(),
{
    if s.len() > 0 {
        lemma_find_key(s.drop_first(), key);
        if s[0].account_key@ != key {
            assert forall|j: int| 1 <= j < s.len() implies s[j] == s.drop_first()[j - 1] by {}
        }
    }
}

/// Whether no two records share a key.
pub open spec fn distinct_keys(s: Seq<AccountRecord>) -> bool {
    forall|i: int, j: int|
        0 <= i < s.len() && 0 <= j < s.len() && i != j ==> #[trigger] s[i].account_key@
            != #[trigger] s[j].account_key@
}

/// The same records in another order still have distinct keys.
proof fn lemma_permutation_keeps_distinct_keys(s: Seq<AccountRecord>, t: Seq<AccountRecord>)
    requires
        distinct_keys(s),
        s.to_multiset() == t.to_multiset(),
    ensures
        distinct_keys(t),
{
    broadcast use vstd::seq_lib::group_to_multiset_ensures;

    assert(s.no_duplicates()) by {
        assert forall|i: int, j: int| 0 <= i < s.len() && 0 <= j < s.len() && i != j implies s[i]
            != s[j] by {
            assert(s[i].account_key@ != s[j].account_key@);
        }
    }
    s.lemma_multiset_has_no_duplicates();
    t.lemma_multiset_has_no_duplicates_conv();
    assert forall|i: int, j: int| 0 <= i < t.len() && 0 <= j < t.len() && i != j implies #[trigger] t[i].account_key@
        != #[trigger] t[j].account_key@ by {
        if t[i].account_key@ == t[j].account_key@ {
            assert(t.contains(t[i]));
            assert(t.contains(t[j]));
            assert(t.to_multiset().count(t[i]) > 0);
            assert(t.to_multiset().count(t[j]) > 0);
            assert(s.to_multiset().count(t[i]) > 0);
            assert(s.to_multiset().count(t[j]) > 0);
            assert(s.contains(t[i]));
            assert(s.contains(t[j]));
            let p = choose|p: int| 0 <= p < s.len() && s[p] == t[i];
            let q = choose|q: int| 0 <= q < s.len() && s[q] == t[j];
            assert(s[p].account_key@ == s[q].account_key@);
        }
    }
}

/// Records whose keys stay in place keep them distinct.
pub proof fn lemma_same_keys_distinct(before: Seq<AccountRecord>, after: Seq<AccountRecord>)
    requires
        distinct_keys(before),
        after.len() == before.len(),
        forall|j: int| 0 <= j < before.len() ==> #[trigger] after[j].account_key == before[j].account_key,
    ensures
        distinct_keys(after),
{
    assert forall|a: int, b: int| 0 <= a < after.len() && 0 <= b < after.len() && a != b implies #[trigger] after[a].account_key@
        != #[trigger] after[b].account_key@ by {
        assert(after[a].account_key == before[a].account_key);
        assert(after[b].account_key == before[b].account_key);
    }
}

/// Removing the records of a key keeps the other keys distinct.
proof fn lemma_without_key_distinct(s: Seq<AccountRecord>, key: Seq<char>)
    requires
        distinct_keys(s),
    ensures
        distinct_keys(without_key(s, key)),
        forall|k: Seq<char>| has_key(without_key(s, key), k) ==> has_key(s, k),
    decreases s.len(),
{
    let pred = other_key(key);
    if s.len() > 0 {
        let init = s.drop_last();
        let x = s.last();
        assert(init.push(x) =~= s);
        assert(distinct_keys(init)) by {
            assert forall|i: int, j: int| 0 <= i < init.len() && 0 <= j < init.len() && i != j implies #[trigger] init[i].account_key@
                != #[trigger] init[j].account_key@ by {
                assert(init[i] == s[i] && init[j] == s[j]);
            }
        }
        lemma_without_key_distinct(init, key);
        init.lemma_filter_push(x, pred);
        let t = without_key(init, key);
        assert(t == init.filter(pred));
        assert(without_key(s, key) == init.push(x).filter(pred));
        assert(without_key(s, key) == if pred(x) { t.push(x) } else { t });
        assert forall|k: Seq<char>| has_key(without_key(s, key), k) implies has_key(s, k) by {
            let u = without_key(s, key);
            let m = choose|m: int| 0 <= m < u.len() && #[trigger] u[m].account_key@ == k;
            if pred(x) && m == t.len() {
                assert(s[s.len() - 1].account_key@ == k);
            } else {
                assert(u[m] == t[m]);
                assert(has_key(t, k));
                assert(has_key(init, k));
                let w = choose|w: int| 0 <= w < init.len() && #[trigger] init[w].account_key@ == k;
                assert(s[w] == init[w]);
            }
        }
        if pred(x) {
            assert forall|i: int, j: int| 0 <= i < t.len() + 1 && 0 <= j < t.len() + 1 && i != j implies #[trigger] t.push(x)[i].account_key@
                != #[trigger] t.push(x)[j].account_key@ by {
                if i == t.len() || j == t.len() {
                    let m = if i == t.len() { j } else { i };
                    assert(t.push(x)[m] == t[m]);
                    if t[m].account_key@ == x.account_key@ {
                        assert(has_key(t, x.account_key@));
                        assert(has_key(init, x.account_key@));
                        let w = choose|w: int| 0 <= w < init.len() && #[trigger] init[w].account_key@ == x.account_key@;
                        assert(s[w] == init[w]);
                        assert(s[s.len() - 1] == x);
                    }
                } else {
                    assert(t.push(x)[i] == t[i] && t.push(x)[j] == t[j]);
                }
            }
        }
    } else {
        assert(without_key(s, key) =~= s);
    }
}

/// Whether a record was made for a login at `created_at`: keyed by its record
/// key, with its ids, email and plan, and nothing cached yet.
pub open spec fn fresh_record(r: AccountRecord, info: AuthView, created_at: i64) -> bool {
    &&& r.account_key@ == record_key_text(info.user_id, info.account_id)
    &&& r.chatgpt_account_id@ == info.account_id
    &&& r.chatgpt_user_id@ == info.user_id
    &&& r.email@ == info.email
    &&& opt_view(r.plan) == info.plan
    &&& r.created_at == created_at
    &&& r.last_used_at is None
    &&& r.last_usage is None
    &&& r.last_usage_at is None
    &&& r.last_usage_error is None
    &&& r.last_local_rollout is None
}

/// Whether `new` is `prior` with the identity fields taken from a login.
pub open spec fn refreshed_record(prior: AccountRecord, new: AccountRecord, info: AuthView) -> bool {
    &&& new.account_key == prior.account_key
    &&& new.chatgpt_account_id@ == info.account_id
    &&& new.chatgpt_user_id@ == info.user_id
    &&& new.email@ == info.email
    &&& opt_view(new.plan) == info.plan
    &&& new.created_at == prior.created_at
    &&& new.last_used_at == prior.last_used_at
    &&& new.last_usage == prior.last_usage
    &&& new.last_usage_at == prior.last_usage_at
    &&& new.last_usage_error == prior.last_usage_error
    &&& new.last_local_rollout == prior.last_local_rollout
}

/// Whether a login's identity fields differ from a record's.
pub open spec fn identity_differs(r: AccountRecord, info: AuthView) -> bool {
    r.chatgpt_account_id@ != info.account_id || r.chatgpt_user_id@ != info.user_id || r.email@
        != info.email || opt_view(r.plan) != info.plan
}

/// Whether two registries agree on everything but their accounts.
pub open spec fn same_header(a: Registry, b: Registry) -> bool {
    &&& a.schema_version == b.schema_version
    &&& a.active_account_key == b.active_account_key
    &&& a.active_account_activated_at_ms == b.active_account_activated_at_ms
    &&& a.latest_local_rollout == b.latest_local_rollout
}

/// The milliseconds since the Unix epoch (`0` before it), from
/// `SystemTime::now`; nothing is stated of the value.
#[verifier::external_body]
pub(crate) fn now_millis() -> i64 {
    std::time::SystemTime::now().duration_since(std::time::UNIX_EPOCH).map(
        |duration| duration.as_millis() as i64,
    ).unwrap_or(0)
}

fn opt_text_same(a: &Option<String>, b: &Option<String>) -> (res: bool)
    ensures
        res == (opt_view(*a) == opt_view(*b)),
{
    match (a, b) {
        (None, None) => true,
        (Some(x), Some(y)) => same_text(x.as_str(), y.as_str()),
        _ => false,
    }
}

impl Registry {
    /// An empty registry: no accounts, nothing active.
    pub fn new() -> (res: Registry)
        ensures
            res.schema_version == REGISTRY_SCHEMA_VERSION,
            res.active_account_key is None,
            res.active_account_activated_at_ms is None,
            res.latest_local_rollout is None,
            res.accounts@.len() == 0,
    {
        Registry {
            schema_version: REGISTRY_SCHEMA_VERSION,
            active_account_key: None,
            active_account_activated_at_ms: None,
            latest_local_rollout: None,
            accounts: Vec::new(),
        }
    }

    /// The position of the first record with the given key.
    pub fn account_index(&self, key: &str) -> (res: Option<usize>)
        ensures
            res matches Some(i) ==> find_key(self.accounts@, key@) == Some(i as int),
            res is None ==> find_key(self.accounts@, key@) is None,
    {
        let mut i: usize = 0;
        proof {
            lemma_find_key(self.accounts@, key@);
        }
        while i < self.accounts.len()
            invariant
                i <= self.accounts@.len(),
                forall|j: int| 0 <= j < i ==> self.accounts@[j].account_key@ != key@,
            decreases self.accounts.len() - i,
        {
            if same_text(self.accounts[i].account_key.as_str(), key) {
                proof {
                    lemma_find_key(self.accounts@, key@);
                }
                return Some(i);
            }
            i = i + 1;
        }
        None
    }

    /// The first record with the given key.
    pub fn account(&self, key: &str) -> (res: Option<&AccountRecord>)
        ensures
            res matches Some(r) ==> find_key(self.accounts@, key@) matches Some(i) && *r
                == self.accounts@[i],
            res is None ==> find_key(self.accounts@, key@) is None,
    {
        match self.account_index(key) {
            Some(i) => {
                proof {
                    lemma_find_key(self.accounts@, key@);
                }
                Some(&self.accounts[i])
            },
            None => None,
        }
    }
}


/// A record made for a login at `created_at`.
fn record_for(info: &AuthInfo, created_at: i64) -> (res: AccountRecord)
    ensures
        fresh_record(res, info@, created_at),
{
    AccountRecord {
        account_key: info.record_key(),
        chatgpt_account_id: info.account_id.clone(),
        chatgpt_user_id: info.user_id.clone(),
        email: info.email.clone(),
        plan: copy_opt_string(&info.plan),
        created_at,
        last_used_at: None,
        last_usage: None,
        last_usage_at: None,
        last_usage_error: None,
        last_local_rollout: None,
    }
}

/// Whether `after` is what upserting a login makes of the records `before`:
/// a record already under the login's key keeps its place and has its
/// identity fields refreshed, everything else unchanged; otherwise a fresh
/// record for the login (made at some time) joins and the records are sorted
/// again by email and workspace id.
pub open spec fn upserted(before: Seq<AccountRecord>, info: AuthView, after: Seq<AccountRecord>) -> bool {
    match find_key(before, record_key_text(info.user_id, info.account_id)) {
        Some(i) => {
            &&& after.len() == before.len()
            &&& forall|j: int| 0 <= j < before.len() && j != i ==> after[j] == before[j]
            &&& refreshed_record(before[i], after[i], info)
        },
        None => exists|r: AccountRecord|
            #[trigger] fresh_record(r, info, r.created_at) && after == sorted_by_key(before.push(r)),
    }
}

/// Whether `accounts` is what upserting the logins one after another makes of
/// no records at all.
pub open spec fn upserts_to(logins: Seq<AuthView>, accounts: Seq<AccountRecord>) -> bool
    decreases logins.len(),
{
    if logins.len() == 0 {
        accounts.len() == 0
    } else {
        exists|prev: Seq<AccountRecord>|
            upserts_to(logins.drop_last(), prev) && #[trigger] upserted(prev, logins.last(), accounts)
    }
}

/// The identities of a list of logins.
pub open spec fn login_views(logins: Seq<AuthInfo>) -> Seq<AuthView> {
    logins.map_values(|a: AuthInfo| a@)
}

/// `upsert_account` with the creation time given: a login already recorded
/// under its key has its ids, email and plan refreshed, and the result says
/// whether any of them changed; a new login gets a fresh record, the accounts
/// are sorted again by email and workspace id, and the result is `true`.
pub fn upsert_account_at(registry: &mut Registry, info: &AuthInfo, created_at: i64) -> (res: bool)
    ensures
        forall|k: Seq<char>| has_key(old(registry).accounts@, k) ==> has_key(final(registry).accounts@, k),
        has_key(final(registry).accounts@, record_key_text(info.user_id@, info.account_id@)),
        forall|k: Seq<char>|
            has_key(final(registry).accounts@, k) ==> has_key(old(registry).accounts@, k) || k
                == record_key_text(info.user_id@, info.account_id@),
        distinct_keys(old(registry).accounts@) ==> distinct_keys(final(registry).accounts@),
        upserted(old(registry).accounts@, info@, final(registry).accounts@),
        same_header(*final(registry), *old(registry)),
        ({
            let key = record_key_text(info.user_id@, info.account_id@);
            let before = old(registry).accounts@;
            let after = final(registry).accounts@;
            match find_key(before, key) {
                Some(i) => {
                    &&& after.len() == before.len()
                    &&& forall|j: int| 0 <= j < before.len() && j != i ==> after[j] == before[j]
                    &&& refreshed_record(before[i], after[i], info@)
                    &&& res == identity_differs(before[i], info@)
                },
                None => {
                    &&& res
                    &&& exists|r: AccountRecord|
                        fresh_record(r, info@, created_at) && after == sorted_by_key(
                            before.push(r),
                        )
                },
            }
        }),
{
    let key = info.record_key();
    match registry.account_index(key.as_str()) {
        Some(i) => {
            proof {
                lemma_find_key(registry.accounts@, key@);
            }
            let ghost before = registry.accounts@;
            let mut record = registry.accounts.remove(i);
            let changed = !same_text(record.chatgpt_account_id.as_str(), info.account_id.as_str())
                || !same_text(record.chatgpt_user_id.as_str(), info.user_id.as_str()) || !same_text(
                record.email.as_str(),
                info.email.as_str(),
            ) || !opt_text_same(&record.plan, &info.plan);
            record.chatgpt_account_id = info.account_id.clone();
            record.chatgpt_user_id = info.user_id.clone();
            record.email = info.email.clone();
            record.plan = copy_opt_string(&info.plan);
            registry.accounts.insert(i, record);
            assert forall|j: int| 0 <= j < before.len() && j != i implies registry.accounts@[j]
                == before[j] by {
                if j > i {
                    assert(registry.accounts@[j] == before.remove(i as int)[j - 1]);
                }
            }
            proof {
                let after = registry.accounts@;
                assert forall|k: Seq<char>| has_key(before, k) implies has_key(after, k) by {
                    let j = choose|j: int| 0 <= j < before.len() && #[trigger] before[j].account_key@ == k;
                    assert(after[j].account_key@ == k);
                }
                assert(after[i as int].account_key@ == key@);
                assert forall|k: Seq<char>| has_key(after, k) implies has_key(before, k) || k == key@ by {
                    let j = choose|j: int| 0 <= j < after.len() && #[trigger] after[j].account_key@ == k;
                    assert(before[j].account_key@ == k);
                }
                if distinct_keys(before) {
                    assert forall|a: int, b: int| 0 <= a < after.len() && 0 <= b < after.len() && a != b implies #[trigger] after[a].account_key@
                        != #[trigger] after[b].account_key@ by {
                        assert(after[a].account_key@ == before[a].account_key@);
                        assert(after[b].account_key@ == before[b].account_key@);
                    }
                }
            }
            changed
        },
        None => {
            let record = record_for(info, created_at);
            let ghost r = record;
            let mut accounts = Vec::new();
            std::mem::swap(&mut accounts, &mut registry.accounts);
            let ghost before = accounts@;
            accounts.push(record);
            let ghost pushed = accounts@;
            registry.accounts = sort_by_key(accounts);
            proof {
                let after = registry.accounts@;
                assert forall|k: Seq<char>| has_key(before, k) implies has_key(after, k) by {
                    let j = choose|j: int| 0 <= j < before.len() && #[trigger] before[j].account_key@ == k;
                    assert(pushed[j] == before[j]);
                    assert(pushed.contains(before[j]));
                    crate::order::lemma_sorted_by_key_contains(pushed, before[j]);
                    let m = choose|m: int| 0 <= m < after.len() && after[m] == before[j];
                    assert(after[m].account_key@ == k);
                }
                assert(pushed[before.len() as int] == r);
                assert(pushed.contains(r));
                crate::order::lemma_sorted_by_key_contains(pushed, r);
                let m = choose|m: int| 0 <= m < after.len() && after[m] == r;
                assert(after[m].account_key@ == key@);
                crate::order::lemma_sorted_by_key_multiset(pushed);
                assert forall|k: Seq<char>| has_key(after, k) implies has_key(before, k) || k == key@ by {
                    broadcast use vstd::seq_lib::group_to_multiset_ensures;

                    let j = choose|j: int| 0 <= j < after.len() && #[trigger] after[j].account_key@ == k;
                    assert(after.contains(after[j]));
                    assert(after.to_multiset().count(after[j]) > 0);
                    assert(pushed.to_multiset().count(after[j]) > 0);
                    assert(pushed.contains(after[j]));
                    let q = choose|q: int| 0 <= q < pushed.len() && pushed[q] == after[j];
                    if q < before.len() {
                        assert(before[q] == pushed[q]);
                    }
                }
                if distinct_keys(before) {
                    lemma_find_key(before, key@);
                    assert forall|a: int, b: int| 0 <= a < pushed.len() && 0 <= b < pushed.len() && a != b implies #[trigger] pushed[a].account_key@
                        != #[trigger] pushed[b].account_key@ by {
                        if a < before.len() && b < before.len() {
                            assert(pushed[a] == before[a] && pushed[b] == before[b]);
                        } else if a < before.len() {
                            assert(pushed[a] == before[a]);
                        } else {
                            assert(pushed[b] == before[b]);
                        }
                    }
                    lemma_permutation_keeps_distinct_keys(pushed, after);
                }
            }
            true
        },
    }
}

/// Upserts a login as `upsert_account_at` does, with the creation time read
/// from the clock in whole seconds.
pub fn upsert_account(registry: &mut Registry, info: &AuthInfo) -> (res: bool)
    ensures
        forall|k: Seq<char>| has_key(old(registry).accounts@, k) ==> has_key(final(registry).accounts@, k),
        has_key(final(registry).accounts@, record_key_text(info.user_id@, info.account_id@)),
        forall|k: Seq<char>|
            has_key(final(registry).accounts@, k) ==> has_key(old(registry).accounts@, k) || k
                == record_key_text(info.user_id@, info.account_id@),
        distinct_keys(old(registry).accounts@) ==> distinct_keys(final(registry).accounts@),
        upserted(old(registry).accounts@, info@, final(registry).accounts@),
        same_header(*final(registry), *old(registry)),
        ({
            let key = record_key_text(info.user_id@, info.account_id@);
            let before = old(registry).accounts@;
            let after = final(registry).accounts@;
            match find_key(before, key) {
                Some(i) => {
                    &&& after.len() == before.len()
                    &&& forall|j: int| 0 <= j < before.len() && j != i ==> after[j] == before[j]
                    &&& refreshed_record(before[i], after[i], info@)
                    &&& res == identity_differs(before[i], info@)
                },
                None => {
                    &&& res
                    &&& exists|r: AccountRecord, t: i64|
                        fresh_record(r, info@, t) && after == sorted_by_key(before.push(r))
                },
            }
        }),
{
    let now = now_millis();
    upsert_account_at(registry, info, now / 1000)
}

/// `set_active` with the times given: the key becomes the active account,
/// activated at `activated_at_ms`; the first record with the key, if any, is
/// marked used at `used_at`.
pub fn set_active_at(registry: &mut Registry, key: &str, activated_at_ms: i64, used_at: i64)
    ensures
        opt_view(final(registry).active_account_key) == Some(key@),
        final(registry).active_account_activated_at_ms == Some(activated_at_ms),
        final(registry).schema_version == old(registry).schema_version,
        final(registry).latest_local_rollout == old(registry).latest_local_rollout,
        distinct_keys(old(registry).accounts@) ==> distinct_keys(final(registry).accounts@),
        final(registry).accounts@.len() == old(registry).accounts@.len(),
        ({
            let before = old(registry).accounts@;
            let after = final(registry).accounts@;
            match find_key(before, key@) {
                Some(i) => {
                    &&& forall|j: int| 0 <= j < before.len() && j != i ==> after[j] == before[j]
                    &&& after[i] == AccountRecord { last_used_at: Some(used_at), ..before[i] }
                },
                None => after == before,
            }
        }),
{
    registry.active_account_key = Some(key.to_owned());
    registry.active_account_activated_at_ms = Some(activated_at_ms);
    match registry.account_index(key) {
        Some(i) => {
            proof {
                lemma_find_key(registry.accounts@, key@);
            }
            let ghost before = registry.accounts@;
            let mut record = registry.accounts.remove(i);
            record.last_used_at = Some(used_at);
            registry.accounts.insert(i, record);
            assert forall|j: int| 0 <= j < before.len() && j != i implies registry.accounts@[j]
                == before[j] by {
                if j > i {
                    assert(registry.accounts@[j] == before.remove(i as int)[j - 1]);
                }
            }
            proof {
                if distinct_keys(before) {
                    lemma_same_keys_distinct(before, registry.accounts@);
                }
            }
        },
        None => {},
    }
}

/// Makes the key active as `set_active_at` does, with the time read from the
/// clock once: the activation in milliseconds, the use in whole seconds of
/// that same moment.
pub fn set_active(registry: &mut Registry, key: &str)
    ensures
        opt_view(final(registry).active_account_key) == Some(key@),
        final(registry).active_account_activated_at_ms is Some,
        final(registry).schema_version == old(registry).schema_version,
        final(registry).latest_local_rollout == old(registry).latest_local_rollout,
        distinct_keys(old(registry).accounts@) ==> distinct_keys(final(registry).accounts@),
        final(registry).accounts@.len() == old(registry).accounts@.len(),
        ({
            let before = old(registry).accounts@;
            let after = final(registry).accounts@;
            match find_key(before, key@) {
                Some(i) => {
                    &&& forall|j: int| 0 <= j < before.len() && j != i ==> after[j] == before[j]
                    &&& after[i].last_used_at is Some
                    &&& after[i] == AccountRecord { last_used_at: after[i].last_used_at, ..before[i] }
                    &&& after[i].last_used_at == Some(
                        crate::usage::div_toward_zero(
                            final(registry).active_account_activated_at_ms->0 as int,
                            1000,
                        ) as i64,
                    )
                },
                None => after == before,
            }
        }),
{
    let activated = now_millis();
    let used: i64 = if activated >= 0 {
        activated / 1000
    } else {
        (-((-(activated as i128)) / 1000)) as i64
    };
    set_active_at(registry, key, activated, used);
}

/// The records whose key differs from `key`, in their order.
pub open spec fn without_key(s: Seq<AccountRecord>, key: Seq<char>) -> Seq<AccountRecord> {
    s.filter(other_key(key))
}

/// Whether a record has another key than `key`.
pub open spec fn other_key(key: Seq<char>) -> spec_fn(AccountRecord) -> bool {
    |r: AccountRecord| r.account_key@ != key
}

/// Removes every record with the key; if the key was the active one, no
/// account is active any more.
pub fn remove_record(registry: &mut Registry, key: &str)
    ensures
        final(registry).accounts@ == without_key(old(registry).accounts@, key@),
        distinct_keys(old(registry).accounts@) ==> distinct_keys(final(registry).accounts@),
        final(registry).schema_version == old(registry).schema_version,
        final(registry).latest_local_rollout == old(registry).latest_local_rollout,
        opt_view(old(registry).active_account_key) == Some(key@) ==> final(registry).active_account_key is None && final(registry).active_account_activated_at_ms is None,
        opt_view(old(registry).active_account_key) != Some(key@) ==> final(registry).active_account_key == old(registry).active_account_key && final(registry).active_account_activated_at_ms == old(registry).active_account_activated_at_ms,
{
    let mut rest = Vec::new();
    std::mem::swap(&mut rest, &mut registry.accounts);
    let ghost s = rest@;
    let mut kept: Vec<AccountRecord> = Vec::new();
    let mut k: usize = 0;
    let n = rest.len();
    assert(s.take(0) =~= Seq::<AccountRecord>::empty());
    assert(s.skip(0) =~= s);
    while rest.len() > 0
        invariant
            k <= s.len(),
            s.len() == n,
            rest.len() + k == s.len(),
            rest@ == s.skip(k as int),
            kept@ == without_key(s.take(k as int), key@),
        decreases rest.len(),
    {
        let r = rest.remove(0);
        assert(r == s[k as int]);
        assert(s.take(k + 1).drop_last() =~= s.take(k as int));
        reveal_with_fuel(Seq::filter, 1);
        if !same_text(r.account_key.as_str(), key) {
            kept.push(r);
        }
        assert(rest@ =~= s.skip(k + 1));
        k = k + 1;
    }
    assert(s.take(k as int) =~= s);
    proof {
        if distinct_keys(s) {
            lemma_without_key_distinct(s, key@);
        }
    }
    registry.accounts = kept;
    let active_is_key = match &registry.active_account_key {
        Some(a) => same_text(a.as_str(), key),
        None => false,
    };
    if active_is_key {
        registry.active_account_key = None;
        registry.active_account_activated_at_ms = None;
    }
}

/// Sorts the accounts by email, then workspace id, as `load_registry` does
/// after reading the file.
pub fn sort_accounts(registry: &mut Registry)
    ensures
        final(registry).accounts@ == sorted_by_key(old(registry).accounts@),
        same_header(*final(registry), *old(registry)),
{
    let mut accounts = Vec::new();
    std::mem::swap(&mut accounts, &mut registry.accounts);
    registry.accounts = sort_by_key(accounts);
}


/// What `sync_active_account` does when there is no live `auth.json`: no
/// account is active any more; the result says whether anything was set.
pub fn clear_active(registry: &mut Registry) -> (res: bool)
    ensures
        final(registry).active_account_key is None,
        final(registry).active_account_activated_at_ms is None,
        final(registry).schema_version == old(registry).schema_version,
        final(registry).latest_local_rollout == old(registry).latest_local_rollout,
        final(registry).accounts == old(registry).accounts,
        res == (old(registry).active_account_key is Some || old(
            registry,
        ).active_account_activated_at_ms is Some),
{
    let key_changed = registry.active_account_key.take().is_some();
    let activation_changed = registry.active_account_activated_at_ms.take().is_some();
    key_changed || activation_changed
}

/// What `sync_active_account` does with the key of the live login once its
/// record is up to date: where another key (or none) was active, the key
/// becomes active at `now_ms` and the result is `true`; otherwise nothing
/// changes and the result is `false`.
pub fn adopt_active_key_at(registry: &mut Registry, key: String, now_ms: i64) -> (res: bool)
    ensures
        final(registry).schema_version == old(registry).schema_version,
        final(registry).latest_local_rollout == old(registry).latest_local_rollout,
        final(registry).accounts == old(registry).accounts,
        res == (opt_view(old(registry).active_account_key) != Some(key@)),
        res ==> opt_view(final(registry).active_account_key) == Some(key@)
            && final(registry).active_account_activated_at_ms == Some(now_ms),
        !res ==> final(registry).active_account_key == old(registry).active_account_key
            && final(registry).active_account_activated_at_ms == old(
            registry,
        ).active_account_activated_at_ms,
{
    let same = match &registry.active_account_key {
        Some(a) => same_text(a.as_str(), key.as_str()),
        None => false,
    };
    if same {
        return false;
    }
    registry.active_account_key = Some(key);
    registry.active_account_activated_at_ms = Some(now_ms);
    true
}

/// `adopt_active_key_at` with the activation time read from the clock only
/// where the key changes.
pub fn adopt_active_key(registry: &mut Registry, key: String) -> (res: bool)
    ensures
        final(registry).schema_version == old(registry).schema_version,
        final(registry).latest_local_rollout == old(registry).latest_local_rollout,
        final(registry).accounts == old(registry).accounts,
        res == (opt_view(old(registry).active_account_key) != Some(key@)),
        res ==> opt_view(final(registry).active_account_key) == Some(key@)
            && final(registry).active_account_activated_at_ms is Some,
        !res ==> final(registry).active_account_key == old(registry).active_account_key
            && final(registry).active_account_activated_at_ms == old(
            registry,
        ).active_account_activated_at_ms,
{
    let same = match &registry.active_account_key {
        Some(a) => same_text(a.as_str(), key.as_str()),
        None => false,
    };
    if same {
        return false;
    }
    let now = now_millis();
    adopt_active_key_at(registry, key, now)
}

/// Whether `k` is the record key of one of the logins.
pub open spec fn login_among(logins: Seq<AuthInfo>, k: Seq<char>) -> bool {
    exists|j: int| 0 <= j < logins.len() && #[trigger] record_key_text(logins[j].user_id@, logins[j].account_id@) == k
}

/// The registry made when there is none yet, from the saved snapshots' logins
/// (in the order `load_accounts` lists them) and the live login, if any: the
/// accounts are what upserting those logins in turn, the live one last, makes
/// of no records (so each login has a record, no other record is made and no
/// two records share a key), and the live login becomes active with
/// activation time `0`.
pub fn bootstrap_registry(saved: &Vec<AuthInfo>, active: Option<AuthInfo>) -> (res: Registry)
    ensures
        res.schema_version == REGISTRY_SCHEMA_VERSION,
        res.latest_local_rollout is None,
        forall|i: int|
            0 <= i < saved@.len() ==> find_key(
                res.accounts@,
                record_key_text(saved@[i].user_id@, saved@[i].account_id@),
            ) is Some,
        active matches Some(info) ==> find_key(
            res.accounts@,
            record_key_text(info.user_id@, info.account_id@),
        ) is Some && opt_view(res.active_account_key) == Some(
            record_key_text(info.user_id@, info.account_id@),
        ) && res.active_account_activated_at_ms == Some(0i64),
        active is None ==> res.active_account_key is None
            && res.active_account_activated_at_ms is None,
        distinct_keys(res.accounts@),
        forall|k: Seq<char>|
            has_key(res.accounts@, k) ==> login_among(saved@, k) || (active matches Some(info)
                && k == record_key_text(info.user_id@, info.account_id@)),
        upserts_to(
            match active {
                Some(info) => login_views(saved@).push(info@),
                None => login_views(saved@),
            },
            res.accounts@,
        ),
{
    let mut registry = Registry::new();
    let mut i: usize = 0;
    while i < saved.len()
        invariant
            i <= saved@.len(),
            registry.schema_version == REGISTRY_SCHEMA_VERSION,
            registry.latest_local_rollout is None,
            registry.active_account_key is None,
            registry.active_account_activated_at_ms is None,
            forall|j: int|
                0 <= j < i ==> find_key(
                    registry.accounts@,
                    record_key_text(saved@[j].user_id@, saved@[j].account_id@),
                ) is Some,
            distinct_keys(registry.accounts@),
            forall|k: Seq<char>| has_key(registry.accounts@, k) ==> login_among(saved@.take(i as int), k),
            upserts_to(login_views(saved@.take(i as int)), registry.accounts@),
        decreases saved.len() - i,
    {
        let ghost before = registry.accounts@;
        upsert_account(&mut registry, &saved[i]);
        proof {
            assert forall|j: int| 0 <= j < i + 1 implies find_key(
                registry.accounts@,
                record_key_text(saved@[j].user_id@, saved@[j].account_id@),
            ) is Some by {
                let k = record_key_text(saved@[j].user_id@, saved@[j].account_id@);
                lemma_has_key(before, k);
                lemma_has_key(registry.accounts@, k);
            }
            assert forall|k: Seq<char>| has_key(registry.accounts@, k) implies login_among(saved@.take(i + 1), k) by {
                if has_key(before, k) {
                    let j = choose|j: int| 0 <= j < i && #[trigger] record_key_text(saved@.take(i as int)[j].user_id@, saved@.take(i as int)[j].account_id@) == k;
                    assert(saved@.take(i as int)[j] == saved@.take(i + 1)[j]);
                } else {
                    assert(saved@.take(i + 1)[i as int] == saved@[i as int]);
                }
            }
            let logins = login_views(saved@.take(i + 1));
            assert(logins.drop_last() =~= login_views(saved@.take(i as int)));
            assert(logins.last() == saved@[i as int]@);
            assert(upserts_to(logins.drop_last(), before));
            assert(upserted(before, logins.last(), registry.accounts@));
            assert(upserts_to(logins, registry.accounts@));
        }
        i = i + 1;
    }
    assert(saved@.take(i as int) =~= saved@);
    assert(upserts_to(login_views(saved@), registry.accounts@));
    if let Some(info) = active {
        let ghost before = registry.accounts@;
        upsert_account(&mut registry, &info);
        proof {
            assert forall|j: int| 0 <= j < saved@.len() implies find_key(
                registry.accounts@,
                record_key_text(saved@[j].user_id@, saved@[j].account_id@),
            ) is Some by {
                let k = record_key_text(saved@[j].user_id@, saved@[j].account_id@);
                lemma_has_key(before, k);
                lemma_has_key(registry.accounts@, k);
            }
            lemma_has_key(registry.accounts@, record_key_text(info.user_id@, info.account_id@));
            let logins = login_views(saved@).push(info@);
            assert(logins.drop_last() =~= login_views(saved@));
            assert(upserts_to(logins.drop_last(), before));
            assert(logins.last() == info@);
            assert(upserted(before, logins.last(), registry.accounts@));
            assert(upserts_to(logins, registry.accounts@));
        }
        assert(distinct_keys(registry.accounts@));
        registry.active_account_key = Some(info.record_key());
        registry.active_account_activated_at_ms = Some(0);
    }
    registry
}


/// After `remove_record`, no record has the removed key.
pub proof fn removed_key_is_gone(s: Seq<AccountRecord>, key: Seq<char>)
    ensures
        find_key(without_key(s, key), key) is None,
{
    let pred = other_key(key);
    let t = without_key(s, key);
    broadcast use vstd::seq_lib::group_filter_ensures;

    lemma_find_key(t, key);
    if find_key(t, key) is Some {
        let i = find_key(t, key)->0;
        assert(pred(t[i]));
    }
}

/// `remove_record` keeps every record with another key, in order.
pub proof fn other_records_are_kept(s: Seq<AccountRecord>, key: Seq<char>, r: AccountRecord)
    requires
        s.contains(r),
        r.account_key@ != key,
    ensures
        without_key(s, key).contains(r),
{
    let pred = other_key(key);
    broadcast use vstd::seq_lib::group_filter_ensures;

    let i = choose|i: int| 0 <= i < s.len() && s[i] == r;
    s.lemma_filter_contains(pred, i);
}

/// Upserting a login leaves its record agreeing with it: a second upsert of
/// the same login reports no change.
pub proof fn upserted_record_matches_login(prior: AccountRecord, new: AccountRecord, info: AuthView)
    requires
        refreshed_record(prior, new, info),
    ensures
        !identity_differs(new, info),
{
}

/// A record made for a login agrees with it: upserting the same login again
/// reports no change.
pub proof fn fresh_record_matches_login(r: AccountRecord, info: AuthView, created_at: i64)
    requires
        fresh_record(r, info, created_at),
    ensures
        !identity_differs(r, info),
{
}

/// The accounts of a registry after a new login's upsert are in order of
/// email, then workspace id, and hold every earlier record and the new one.
pub proof fn upserted_accounts_are_ordered(before: Seq<AccountRecord>, r: AccountRecord)
    ensures
        crate::order::ordered(sorted_by_key(before.push(r))),
        sorted_by_key(before.push(r)).to_multiset() == before.push(r).to_multiset(),
{
    crate::order::lemma_sorted_by_key_ordered(before.push(r));
    crate::order::lemma_sorted_by_key_multiset(before.push(r));
}

} // verus!
