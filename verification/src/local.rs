//! Usage recorded by Codex itself in its rollout files under `sessions/`.

use vstd::prelude::*;
use vstd::slice::slice_subrange;
use vstd::utf8::encode_utf8;
use crate::json::{json_document, json_get, json_str, parse_json, Json};
use crate::order::{descending_names, text_before};
use crate::text::{chars_of, same_text};
use crate::timestamp::{parse_rfc3339_utc_millis, timestamp_millis};
use crate::usage::{parse_rollout_rate_limits, rollout_usage, UsageSnapshot, UsageView};

verus! {

/// The usage found in the newest rollout file.
#[derive(Debug)]
pub struct LocalUsage {
    pub path: String,
    pub event_timestamp_ms: i64,
    pub snapshot: UsageSnapshot,
}

/// What was last read from the newest rollout file, with the file's state at
/// that time.
#[derive(Debug)]
pub struct LocalRolloutCache {
    pub path: String,
    pub modified_at_ms: i64,
    pub len: u64,
    pub event_timestamp_ms: Option<i64>,
    pub snapshot: Option<UsageSnapshot>,
}

impl LocalRolloutCache {
    /// A copy of the cache entry.
    pub fn duplicate(&self) -> (res: LocalRolloutCache)
        ensures
            res == *self,
    {
        LocalRolloutCache {
            path: self.path.clone(),
            modified_at_ms: self.modified_at_ms,
            len: self.len,
            event_timestamp_ms: self.event_timestamp_ms,
            snapshot: match &self.snapshot {
                Some(s) => Some(s.duplicate()),
                None => None,
            },
        }
    }
}


/// The index of the last newline byte, `-1` where there is none.
pub open spec fn last_newline(b: Seq<u8>) -> int
    decreases b.len(),
{
    if b.len() == 0 {
        -1
    } else if b.last() == 10 {
        b.len() - 1
    } else {
        last_newline(b.drop_last())
    }
}

/// Where the last newline stands: no newline follows it.
pub proof fn lemma_last_newline(b: Seq<u8>)
    ensures
        -1 <= last_newline(b) < b.len(),
        last_newline(b) >= 0 ==> b[last_newline(b)] == 10,
        forall|j: int| last_newline(b) < j < b.len() ==> b[j] != 10,
    decreases b.len(),
{
    if b.len() > 0 && b.last() != 10 {
        lemma_last_newline(b.drop_last());
        assert forall|j: int| last_newline(b) < j < b.len() implies b[j] != 10 by {
            if j < b.len() - 1 {
                assert(b[j] == b.drop_last()[j]);
            }
        }
    }
}

/// The usage event a parsed rollout line holds, if any: an `event_msg`
/// whose payload is a `token_count` carrying rate limits, with a timestamp
/// that is read.
pub open spec fn document_event(v: Json) -> Option<(int, UsageView)> {
    let payload = json_get(Some(v), "payload"@);
    let stamp = json_str(json_get(Some(v), "timestamp"@));
    if json_str(json_get(Some(v), "type"@)) != Some("event_msg"@) {
        None
    } else if payload is None {
        None
    } else if json_str(json_get(payload, "type"@)) != Some("token_count"@) {
        None
    } else if stamp is None {
        None
    } else {
        match timestamp_millis(encode_utf8(stamp->0)) {
            None => None,
            Some(ms) => match rollout_usage(json_get(payload, "rate_limits"@)) {
                Some(u) => Some((ms, u)),
                None => None,
            },
        }
    }
}

/// The usage event of one rollout line, if it is one: a line that is a JSON
/// document holding a usage event.
pub open spec fn line_event(line: Seq<u8>) -> Option<(int, UsageView)> {
    if line.len() == 0 {
        None
    } else {
        match json_document(line) {
            None => None,
            Some(v) => document_event(v),
        }
    }
}

/// The usage event of the last line that has one.
pub open spec fn latest_event(b: Seq<u8>) -> Option<(int, UsageView)>
    decreases b.len(),
{
    let k = last_newline(b);
    let e = line_event(b.subrange(k + 1, b.len() as int));
    if e is Some {
        e
    } else if k < 0 {
        None
    } else {
        proof {
            lemma_last_newline(b);
        }
        latest_event(b.take(k))
    }
}

fn text_member_is(v: &Json, key: &str, expected: &str) -> (res: bool)
    ensures
        res == (json_str(json_get(Some(*v), key@)) == Some(expected@)),
{
    match v.get(key) {
        Some(t) => match t.as_str() {
            Some(s) => same_text(s, expected),
            None => false,
        },
        None => false,
    }
}

/// The usage event a parsed rollout line holds, if any.
pub fn usage_event(value: &Json) -> (res: Option<(i64, UsageSnapshot)>)
    ensures
        res matches Some((ms, u)) ==> document_event(*value) == Some((ms as int, u@)),
        res is None ==> document_event(*value) is None,
{
    if !text_member_is(value, "type", "event_msg") {
        return None;
    }
    let payload = match value.get("payload") {
        Some(p) => p,
        None => return None,
    };
    if !text_member_is(payload, "type", "token_count") {
        return None;
    }
    let stamp = match value.get("timestamp") {
        Some(t) => t.as_str(),
        None => None,
    };
    let stamp = match stamp {
        Some(t) => t,
        None => return None,
    };
    let ms = match parse_rfc3339_utc_millis(stamp) {
        Some(ms) => ms,
        None => return None,
    };
    match parse_rollout_rate_limits(payload.get("rate_limits")) {
        Some(snapshot) => Some((ms, snapshot)),
        None => None,
    }
}

/// The usage event of one line.
fn parse_line_event(line: &[u8]) -> (res: Option<(i64, UsageSnapshot)>)
    ensures
        res matches Some((ms, u)) ==> line_event(line@) == Some((ms as int, u@)),
        res is None ==> line_event(line@) is None,
{
    if line.len() == 0 {
        return None;
    }
    match parse_json(line) {
        Ok(value) => usage_event(&value),
        Err(_) => None,
    }
}

/// The latest usage event in the bytes of a rollout file: lines are tried
/// from the last one back, and the first usage event found is the
/// answer.
pub fn parse_latest_rollout_usage(bytes: &[u8]) -> (res: Option<(i64, UsageSnapshot)>)
    ensures
        res matches Some((ms, u)) ==> latest_event(bytes@) == Some((ms as int, u@)),
        res is None ==> latest_event(bytes@) is None,
{
    let mut end = bytes.len();
    assert(bytes@.take(end as int) =~= bytes@);
    loop
        invariant
            end <= bytes.len(),
            latest_event(bytes@) == latest_event(bytes@.take(end as int)),
        decreases end,
    {
        let ghost b = bytes@.take(end as int);
        let mut k = end;
        while k > 0 && bytes[k - 1] != 10
            invariant
                k <= end <= bytes.len(),
                forall|j: int| k <= j < end ==> bytes@[j] != 10,
            decreases k,
        {
            k = k - 1;
        }
        proof {
            lemma_last_newline(b);
            let kk = last_newline(b);
            if k > 0 {
                assert(b[k - 1] == 10);
                assert(kk == k - 1) by {
                    if kk > k - 1 {
                        assert(b[kk] == bytes@[kk]);
                    }
                    if kk < k - 1 {
                        assert(b[k - 1] != 10);
                    }
                }
            } else {
                assert(kk == -1) by {
                    if kk >= 0 {
                        assert(b[kk] == bytes@[kk]);
                    }
                }
            }
        }
        let line = slice_subrange(bytes, k, end);
        assert(line@ =~= b.subrange(k as int, b.len() as int));
        match parse_line_event(line) {
            Some(found) => {
                return Some(found);
            },
            None => {},
        }
        if k == 0 {
            return None;
        }
        assert(b.take(k - 1) =~= bytes@.take(k - 1));
        end = k - 1;
    }
}

/// Whether the cached read still describes the newest rollout file: the same
/// path, modification time and length.
pub open spec fn cache_current(cache: LocalRolloutCache, path: Seq<char>, modified_at_ms: i64, len: u64) -> bool {
    cache.path@ == path && cache.modified_at_ms == modified_at_ms && cache.len == len
}

/// Whether `latest_local_usage` may answer from the cache instead of reading
/// the file again.
pub fn cache_matches(cache: &LocalRolloutCache, path: &str, modified_at_ms: i64, len: u64) -> (res: bool)
    ensures
        res == cache_current(*cache, path@, modified_at_ms, len),
{
    same_text(cache.path.as_str(), path) && cache.modified_at_ms == modified_at_ms && cache.len
        == len
}

/// The cached usage, where the cache holds both the event time and the
/// snapshot.
pub fn local_usage_from_cache(cache: &LocalRolloutCache) -> (res: Option<LocalUsage>)
    ensures
        res == usage_in_cache(*cache),
{
    let ms = match cache.event_timestamp_ms {
        Some(ms) => ms,
        None => return None,
    };
    let snapshot = match &cache.snapshot {
        Some(s) => s.duplicate(),
        None => return None,
    };
    Some(LocalUsage { path: cache.path.clone(), event_timestamp_ms: ms, snapshot })
}

/// The usage a cache entry holds: where it has both an event time and a
/// snapshot, the usage of its file at that time.
pub open spec fn usage_in_cache(c: LocalRolloutCache) -> Option<LocalUsage> {
    match (c.event_timestamp_ms, c.snapshot) {
        (Some(ms), Some(snapshot)) => Some(LocalUsage { path: c.path, event_timestamp_ms: ms, snapshot }),
        _ => None,
    }
}

/// Whether `res` is what reading the rollout file at `path` (with its
/// modification time and length) and bytes gives: the last usage event, and
/// a new cache entry for the file holding the same event.
pub open spec fn rollout_read(
    path: String,
    modified_at_ms: i64,
    len: u64,
    bytes: Seq<u8>,
    res: (Option<LocalUsage>, Option<LocalRolloutCache>),
) -> bool {
    &&& res.1 matches Some(c) && c.path == path && c.modified_at_ms == modified_at_ms && c.len == len
    &&& match latest_event(bytes) {
        None => res.0 is None && res.1->0.event_timestamp_ms is None && res.1->0.snapshot is None,
        Some((ms, u)) => res.0 matches Some(l) && l.path == path && l.event_timestamp_ms == ms
            && l.snapshot@ == u && res.1->0.event_timestamp_ms == Some(ms as i64)
            && res.1->0.snapshot == Some(l.snapshot),
    }
}

/// A cache entry made from reading a rollout file matches that file while it
/// is unchanged, and rebuilds the same usage that the read gave, so the next
/// look at the unchanged file need not read it again.
pub proof fn rollout_cache_rebuilds_usage(
    path: String,
    modified_at_ms: i64,
    len: u64,
    bytes: Seq<u8>,
    res: (Option<LocalUsage>, Option<LocalRolloutCache>),
)
    requires
        rollout_read(path, modified_at_ms, len, bytes, res),
    ensures
        cache_current(res.1->0, path@, modified_at_ms, len),
        usage_in_cache(res.1->0) == res.0,
{
}

/// What `latest_local_usage` returns after reading the newest rollout file at
/// `path` (with its modification time and length): the last usage event, and
/// a new cache entry holding what was read.
pub fn usage_from_rollout(path: String, modified_at_ms: i64, len: u64, bytes: &[u8]) -> (res: (Option<LocalUsage>, Option<LocalRolloutCache>))
    ensures
        rollout_read(path, modified_at_ms, len, bytes@, res),
{
    match parse_latest_rollout_usage(bytes) {
        Some((ms, snapshot)) => {
            let cache = LocalRolloutCache {
                path: path.clone(),
                modified_at_ms,
                len,
                event_timestamp_ms: Some(ms),
                snapshot: Some(snapshot.duplicate()),
            };
            (Some(LocalUsage { path, event_timestamp_ms: ms, snapshot }), Some(cache))
        },
        None => (
            None,
            Some(
                LocalRolloutCache {
                    path,
                    modified_at_ms,
                    len,
                    event_timestamp_ms: None,
                    snapshot: None,
                },
            ),
        ),
    }
}


/// A directory name made of ASCII digits only.
pub open spec fn numeric_name(name: Seq<char>) -> bool {
    forall|i: int| 0 <= i < name.len() ==> '0' <= #[trigger] name[i] <= '9'
}

/// A rollout file name: `rollout-` at the start and `.jsonl` at the end.
pub open spec fn rollout_name(name: Seq<char>) -> bool {
    name.len() >= "rollout-"@.len() && name.take("rollout-"@.len() as int) == "rollout-"@
        && name.len() >= ".jsonl"@.len() && name.skip(name.len() - ".jsonl"@.len()) == ".jsonl"@
}

fn is_numeric_name(name: &str) -> (res: bool)
    ensures
        res == numeric_name(name@),
{
    let cs = chars_of(name);
    let mut i: usize = 0;
    while i < cs.len()
        invariant
            i <= cs.len(),
            cs@ == name@,
            forall|j: int| 0 <= j < i ==> '0' <= #[trigger] cs@[j] <= '9',
        decreases cs.len() - i,
    {
        if !('0' <= cs[i] && cs[i] <= '9') {
            return false;
        }
        i = i + 1;
    }
    true
}

fn starts_and_ends(cs: &Vec<char>, prefix: &str, suffix: &str) -> (res: bool)
    ensures
        res == (cs@.len() >= prefix@.len() && cs@.take(prefix@.len() as int) == prefix@ && cs@.len()
            >= suffix@.len() && cs@.skip(cs@.len() - suffix@.len()) == suffix@),
{
    let p = chars_of(prefix);
    let q = chars_of(suffix);
    if cs.len() < p.len() || cs.len() < q.len() {
        return false;
    }
    let mut i: usize = 0;
    while i < p.len()
        invariant
            i <= p.len() <= cs.len(),
            p@ == prefix@,
            forall|j: int| 0 <= j < i ==> cs@[j] == p@[j],
        decreases p.len() - i,
    {
        if cs[i] != p[i] {
            assert(cs@.take(prefix@.len() as int)[i as int] != prefix@[i as int]);
            return false;
        }
        i = i + 1;
    }
    assert(cs@.take(prefix@.len() as int) =~= prefix@);
    let off = cs.len() - q.len();
    let mut k: usize = 0;
    while k < q.len()
        invariant
            k <= q.len(),
            off + q.len() == cs.len(),
            q@ == suffix@,
            forall|j: int| 0 <= j < k ==> cs@[off + j] == q@[j],
        decreases q.len() - k,
    {
        if cs[off + k] != q[k] {
            assert(cs@.skip(off as int)[k as int] != suffix@[k as int]);
            return false;
        }
        k = k + 1;
    }
    assert(cs@.skip(off as int) =~= suffix@);
    true
}

/// The year, month or day directories among the given names, newest first:
/// those made of digits, in descending text order.
pub fn numeric_dirs_descending(names: Vec<String>) -> (res: Vec<String>)
    ensures
        res@.to_multiset() == names@.filter(|n: String| numeric_name(n@)).to_multiset(),
        forall|i: int, j: int| 0 <= i < j < res@.len() ==> !text_before(#[trigger] res@[i]@, #[trigger] res@[j]@),
{
    let ghost all = names@;
    let mut kept: Vec<String> = Vec::new();
    let mut rest = names;
    let mut k: usize = 0;
    let n = rest.len();
    assert(all.take(0) =~= Seq::<String>::empty());
    assert(all.skip(0) =~= all);
    while rest.len() > 0
        invariant
            k <= all.len(),
            all.len() == n,
            rest.len() + k == all.len(),
            rest@ == all.skip(k as int),
            kept@ == all.take(k as int).filter(|n: String| numeric_name(n@)),
        decreases rest.len(),
    {
        let x = rest.remove(0);
        assert(x == all[k as int]);
        assert(all.take(k + 1).drop_last() =~= all.take(k as int));
        reveal_with_fuel(Seq::filter, 1);
        if is_numeric_name(x.as_str()) {
            kept.push(x);
        }
        assert(rest@ =~= all.skip(k + 1));
        k = k + 1;
    }
    assert(all.take(k as int) =~= all);
    descending_names(kept)
}

/// The newest rollout among the file names of a day directory: the greatest
/// rollout file name, if any.
pub fn newest_rollout_name(names: Vec<String>) -> (res: Option<String>)
    ensures
        res matches Some(r) ==> rollout_name(r@) && names@.contains(r) && forall|j: int|
            0 <= j < names@.len() && rollout_name(#[trigger] names@[j]@) ==> !text_before(r@, names@[j]@),
        res is None ==> forall|j: int| 0 <= j < names@.len() ==> !rollout_name(#[trigger] names@[j]@),
{
    let mut best: Option<String> = None;
    let mut i: usize = 0;
    while i < names.len()
        invariant
            i <= names@.len(),
            best matches Some(r) ==> rollout_name(r@) && names@.contains(r) && forall|j: int|
                0 <= j < i && rollout_name(#[trigger] names@[j]@) ==> !text_before(r@, names@[j]@),
            best is None ==> forall|j: int| 0 <= j < i ==> !rollout_name(#[trigger] names@[j]@),
        decreases names.len() - i,
    {
        let cs = chars_of(names[i].as_str());
        if starts_and_ends(&cs, "rollout-", ".jsonl") {
            let take = match &best {
                None => true,
                Some(b) => crate::order::text_less(b.as_str(), names[i].as_str()),
            };
            if take {
                proof {
                    let nb = names@[i as int]@;
                    if let Some(b) = best {
                        assert forall|j: int| 0 <= j < i + 1 && rollout_name(#[trigger] names@[j]@) implies !text_before(nb, names@[j]@) by {
                            if j < i && text_before(nb, names@[j]@) {
                                crate::order::lemma_text_before_transitive(b@, nb, names@[j]@);
                            }
                            if j == i {
                                crate::order::lemma_text_before_irreflexive(nb);
                            }
                        }
                    } else {
                        crate::order::lemma_text_before_irreflexive(nb);
                    }
                    assert(names@.contains(names@[i as int]));
                }
                best = Some(names[i].clone());
            }
        }
        i = i + 1;
    }
    best
}

} // verus!
