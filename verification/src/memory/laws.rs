//! Properties of the memory store that span its operations.
use vstd::prelude::*;

use crate::memory::protocol::MemoryEntryView;
use crate::memory::store::{
    after_put, evict, first_with_key, has_key, insert_recent, key_index, lemma_key_index, lemma_evict_shrinks,
    lemma_first_with_key_unique, lemma_victim_range, over_quota, query_matches, query_result,
    sort_recent, total_size, touched, victim, MemoryQueryView, Timestamp, bump, merged, filled,
};
use crate::memory::protocol::{MemoryEvictionPolicy, MemoryPolicy};
use crate::memory::store::{
    eviction_keys, first_min, lemma_first_min_range, opt_ts_lt, recency, spec_parse_rfc3339, ts_lt, ttl_cutoff, ttl_pick,
};

verus! {

/// Keys are pairwise distinct.
pub open spec fn unique_keys(es: Seq<MemoryEntryView>) -> bool {
    forall|i: int, j: int| 0 <= i < j < es.len() ==> (#[trigger] es[i]).key != (#[trigger] es[j]).key
}

/// A read after a write: after `put(e)` the store holds an entry with key
/// `e.key`, and the first such entry carries the content that was written.
pub proof fn law_put_then_lookup(es: Seq<MemoryEntryView>, e: MemoryEntryView, now: Seq<char>)
    ensures
        has_key(after_put(es, e, now), e.key),
        ({
            let es2 = after_put(es, e, now);
            let f = es2[key_index(es2, e.key)];
            &&& f.key == e.key
            &&& f.value == e.value
            &&& f.title == e.title
            &&& f.scope == e.scope
            &&& f.scope_id == e.scope_id
            &&& f.memory_type == e.memory_type
            &&& f.pinned == e.pinned
            &&& f.status == e.status
            &&& f.confidence == e.confidence
            &&& f.salience == e.salience
            &&& f.tags == e.tags
        }),
{
    let es2 = after_put(es, e, now);
    if has_key(es, e.key) {
        let i = key_index(es, e.key);
        lemma_key_index(es, e.key);
        assert(first_with_key(es2, e.key, i));
        lemma_first_with_key_unique(es2, e.key, i);
    } else {
        let n = es.len() as int;
        assert(forall|j: int| 0 <= j < n ==> (#[trigger] es[j]).key != e.key);
        assert(first_with_key(es2, e.key, n));
        lemma_first_with_key_unique(es2, e.key, n);
    }
}

/// Writes never introduce a second entry with the same key.
pub proof fn law_put_keeps_keys_unique(es: Seq<MemoryEntryView>, e: MemoryEntryView, now: Seq<char>)
    requires
        unique_keys(es),
    ensures
        unique_keys(after_put(es, e, now)),
        after_put(es, e, now).len() == es.len() + (if has_key(es, e.key) { 0int } else { 1int }),
{
    let es2 = after_put(es, e, now);
    if has_key(es, e.key) {
        let k = key_index(es, e.key);
        lemma_key_index(es, e.key);
        assert forall|i: int, j: int| 0 <= i < j < es2.len() implies (#[trigger] es2[i]).key != (
        #[trigger] es2[j]).key by {
            if i == k {
                assert(es[j].key != es[k].key);
            } else if j == k {
                assert(es[i].key != es[k].key);
            } else {
                assert(es[i].key != es[j].key);
            }
        }
    } else {
        assert forall|i: int, j: int| 0 <= i < j < es2.len() implies (#[trigger] es2[i]).key != (
        #[trigger] es2[j]).key by {
            if j == es.len() {
                assert(es[i].key != e.key);
            } else {
                assert(es[i].key != es[j].key);
            }
        }
    }
}

/// A read records the access without changing what the entry holds.
pub proof fn law_read_keeps_content(e: MemoryEntryView, now: Seq<char>)
    ensures
        touched(e, now).key == e.key,
        touched(e, now).value == e.value,
        touched(e, now).tags == e.tags,
        touched(e, now).status == e.status,
        touched(e, now).last_accessed_at == now,
        touched(e, now).access_count >= e.access_count,
{
}

/// Eviction ends within quota, or with an empty store.
pub proof fn law_evict_reaches_quota(es: Seq<MemoryEntryView>, policy: MemoryPolicy, now: Timestamp)
    ensures
        !over_quota(evict(es, policy, now).0, policy) || evict(es, policy, now).0.len() == 0,
    decreases es.len(),
{
    if over_quota(es, policy) && es.len() > 0 {
        let i = victim(es, policy.eviction, now);
        lemma_victim_range(es, policy.eviction, now);
        law_evict_reaches_quota(es.remove(i), policy, now);
    }
}

/// Eviction accounts for every entry: each one is either kept or reported
/// as evicted, and the estimated size never grows.
pub proof fn law_evict_accounts_for_entries(es: Seq<MemoryEntryView>, policy: MemoryPolicy, now: Timestamp)
    ensures
        evict(es, policy, now).0.len() + evict(es, policy, now).1.len() == es.len(),
        total_size(evict(es, policy, now).0) <= total_size(es),
{
    lemma_evict_shrinks(es, policy, now);
}

/// A store within quota is left unchanged.
pub proof fn law_evict_within_quota_is_identity(es: Seq<MemoryEntryView>, policy: MemoryPolicy, now: Timestamp)
    requires
        !over_quota(es, policy),
    ensures
        evict(es, policy, now).0 == es,
        evict(es, policy, now).1.len() == 0,
{
}

pub proof fn lemma_insert_recent_elems(s: Seq<MemoryEntryView>, e: MemoryEntryView)
    ensures
        insert_recent(s, e).len() == s.len() + 1,
        forall|x: MemoryEntryView| #[trigger] insert_recent(s, e).contains(x) ==> x == e || s.contains(x),
    decreases s.len(),
{
    if s.len() > 0 {
        lemma_insert_recent_elems(s.drop_first(), e);
        let r = insert_recent(s, e);
        assert forall|x: MemoryEntryView| #[trigger] r.contains(x) implies x == e || s.contains(x) by {
            let k = choose|k: int| 0 <= k < r.len() && r[k] == x;
            if !crate::memory::store::opt_ts_lt(crate::memory::store::recency(s[0]), crate::memory::store::recency(e)) {
                if k > 0 {
                    let t = insert_recent(s.drop_first(), e);
                    assert(r[k] == t[k - 1]);
                    assert(t.contains(x));
                    if x != e {
                        let m = choose|m: int| 0 <= m < s.drop_first().len() && s.drop_first()[m] == x;
                        assert(s[m + 1] == x);
                    }
                } else {
                    assert(s[0] == x);
                }
            } else {
                if k > 0 {
                    assert(s[k - 1] == x);
                }
            }
        }
    }
}

pub proof fn lemma_sort_recent_elems(s: Seq<MemoryEntryView>)
    ensures
        sort_recent(s).len() == s.len(),
        forall|x: MemoryEntryView| #[trigger] sort_recent(s).contains(x) ==> s.contains(x),
    decreases s.len(),
{
    if s.len() > 0 {
        lemma_sort_recent_elems(s.drop_last());
        lemma_insert_recent_elems(sort_recent(s.drop_last()), s.last());
        assert forall|x: MemoryEntryView| #[trigger] sort_recent(s).contains(x) implies s.contains(x) by {
            if x == s.last() {
                assert(s[s.len() - 1] == x);
            } else {
                assert(sort_recent(s.drop_last()).contains(x));
                let m = choose|m: int| 0 <= m < s.drop_last().len() && s.drop_last()[m] == x;
                assert(s[m] == x);
            }
        }
    }
}

/// A query returns only entries that match it, at most `limit` of them
/// (50 by default), and never more than match.
pub proof fn law_query_returns_matches(es: Seq<MemoryEntryView>, q: MemoryQueryView)
    ensures
        forall|x: MemoryEntryView| #[trigger] query_result(es, q).contains(x) ==> query_matches(x, q) && es.contains(x),
        query_result(es, q).len() <= (match q.limit {
            Some(l) => l as int,
            None => 50,
        }),
        query_result(es, q).len() <= es.filter(|e: MemoryEntryView| query_matches(e, q)).len(),
{
    es.filter_lemma(|e: MemoryEntryView| query_matches(e, q));
    let f = es.filter(|e: MemoryEntryView| query_matches(e, q));
    lemma_sort_recent_elems(f);
    let r = query_result(es, q);
    assert forall|x: MemoryEntryView| #[trigger] r.contains(x) implies query_matches(x, q) && es.contains(x) by {
        let k = choose|k: int| 0 <= k < r.len() && r[k] == x;
        assert(sort_recent(f)[k] == x);
        assert(sort_recent(f).contains(x));
        assert(f.contains(x));
        es.lemma_filter_contains_rev(|e: MemoryEntryView| query_matches(e, q), x);
        es.filter_lemma(|e: MemoryEntryView| query_matches(e, q));
    }
}

/// `a` is `b` with some entries left out, the rest in their order:
/// `idx[j]` is where `a[j]` stands in `b`.
pub open spec fn subsequence_at(a: Seq<MemoryEntryView>, b: Seq<MemoryEntryView>, idx: Seq<int>) -> bool {
    &&& idx.len() == a.len()
    &&& forall|j: int| 0 <= j < a.len() ==> 0 <= #[trigger] idx[j] < b.len() && a[j] == b[idx[j]]
    &&& forall|j: int, k: int| 0 <= j < k < a.len() ==> #[trigger] idx[j] < #[trigger] idx[k]
}

/// Eviction keeps an order-preserving subsequence of the entries, and
/// removes as many entries as it reports keys.
pub proof fn law_evict_keeps_order(es: Seq<MemoryEntryView>, policy: MemoryPolicy, now: Timestamp)
    ensures
        exists|idx: Seq<int>| subsequence_at(evict(es, policy, now).0, es, idx),
        evict(es, policy, now).0.len() + evict(es, policy, now).1.len() == es.len(),
    decreases es.len(),
{
    if !over_quota(es, policy) || es.len() == 0 {
        let idx = Seq::new(es.len(), |j: int| j);
        assert(evict(es, policy, now).0 == es);
        assert(subsequence_at(evict(es, policy, now).0, es, idx));
    } else {
        let i = victim(es, policy.eviction, now);
        lemma_victim_range(es, policy.eviction, now);
        let r = es.remove(i);
        law_evict_keeps_order(r, policy, now);
        let kept = evict(r, policy, now).0;
        let idx0 = choose|idx: Seq<int>| subsequence_at(kept, r, idx);
        let idx = Seq::new(idx0.len(), |j: int| if idx0[j] < i { idx0[j] } else { idx0[j] + 1 });
        assert forall|j: int| 0 <= j < kept.len() implies 0 <= #[trigger] idx[j] < es.len() && kept[j] == es[idx[j]] by {
            assert(kept[j] == r[idx0[j]]);
        }
        assert forall|j: int, k: int| 0 <= j < k < kept.len() implies #[trigger] idx[j] < #[trigger] idx[k] by {
            assert(idx0[j] < idx0[k]);
        }
        assert(evict(es, policy, now).0 == kept);
        assert(subsequence_at(evict(es, policy, now).0, es, idx));
    }
}

/// Overwriting an entry keeps its creation time and counts one more
/// access; its content comes from the new entry.
pub proof fn law_put_existing_keeps_history(es: Seq<MemoryEntryView>, e: MemoryEntryView, now: Seq<char>)
    requires
        has_key(es, e.key),
    ensures
        ({
            let i = key_index(es, e.key);
            let f = after_put(es, e, now)[i];
            &&& after_put(es, e, now).len() == es.len()
            &&& f == merged(es[i], e, now)
            &&& f.created_at == es[i].created_at
            &&& f.access_count == bump(es[i].access_count)
            &&& f.value == e.value
            &&& forall|j: int| 0 <= j < es.len() && j != i ==> #[trigger] after_put(es, e, now)[j] == es[j]
        }),
{
    lemma_key_index(es, e.key);
}

/// The entry a `put` of `e` at `now` leaves under its key before eviction:
/// the overwritten entry merged with `e`, or `e` filled in.
pub open spec fn written_entry(es: Seq<MemoryEntryView>, e: MemoryEntryView, now: Seq<char>) -> MemoryEntryView {
    if has_key(es, e.key) {
        merged(es[key_index(es, e.key)], e, now)
    } else {
        filled(e, now)
    }
}

/// A `put` followed by eviction, as `MemoryState::put` does: keys stay
/// pairwise distinct; an entry with the written key, when eviction kept
/// it, is the written entry (an overwritten one keeps its creation time
/// and counts one more access, see [`law_put_existing_keeps_history`]);
/// every other kept entry is one of the old entries, unchanged; the quota
/// holds unless nothing is left; and where the key was already there and
/// its entry is kept, that entry keeps its creation time, counts one more
/// access (saturating) and carries the new value, title, scope, tags and
/// status.
pub proof fn law_put_with_eviction(
    es: Seq<MemoryEntryView>,
    e: MemoryEntryView,
    now: Seq<char>,
    policy: MemoryPolicy,
    ts: Timestamp,
)
    requires
        unique_keys(es),
    ensures
        unique_keys(evict(after_put(es, e, now), policy, ts).0),
        forall|j: int|
            0 <= j < evict(after_put(es, e, now), policy, ts).0.len() && (#[trigger] evict(
                after_put(es, e, now),
                policy,
                ts,
            ).0[j]).key == e.key ==> evict(after_put(es, e, now), policy, ts).0[j] == written_entry(es, e, now),
        forall|j: int|
            0 <= j < evict(after_put(es, e, now), policy, ts).0.len() && (#[trigger] evict(
                after_put(es, e, now),
                policy,
                ts,
            ).0[j]).key != e.key ==> exists|i: int| 0 <= i < es.len() && es[i] == evict(after_put(es, e, now), policy, ts).0[j],
        !over_quota(evict(after_put(es, e, now), policy, ts).0, policy) || evict(after_put(es, e, now), policy, ts).0.len() == 0,
        ({
            let r = evict(after_put(es, e, now), policy, ts).0;
            let old = es[key_index(es, e.key)];
            has_key(es, e.key) ==> forall|j: int|
                0 <= j < r.len() && (#[trigger] r[j]).key == e.key ==> {
                    &&& r[j].created_at == old.created_at
                    &&& r[j].access_count == bump(old.access_count)
                    &&& r[j].value == e.value
                    &&& r[j].title == e.title
                    &&& r[j].scope == e.scope
                    &&& r[j].scope_id == e.scope_id
                    &&& r[j].tags == e.tags
                    &&& r[j].status == e.status
                }
        }),
{
    let a = after_put(es, e, now);
    law_put_keeps_keys_unique(es, e, now);
    law_evict_keeps_order(a, policy, ts);
    law_evict_reaches_quota(a, policy, ts);
    let r = evict(a, policy, ts).0;
    let idx = choose|idx: Seq<int>| subsequence_at(r, a, idx);
    assert forall|i: int, j: int| 0 <= i < j < r.len() implies (#[trigger] r[i]).key != (#[trigger] r[j]).key by {
        assert(idx[i] < idx[j]);
        assert(r[i] == a[idx[i]] && r[j] == a[idx[j]]);
    }
    if has_key(es, e.key) {
        lemma_key_index(es, e.key);
    }
    assert forall|m: int| 0 <= m < a.len() implies (#[trigger] a[m]).key == e.key ==> a[m] == written_entry(es, e, now) by {
        if has_key(es, e.key) {
            let k = key_index(es, e.key);
            if m != k && a[m].key == e.key {
                assert(es[m].key == es[k].key);
                if m < k {
                    assert(es[m].key != es[k].key);
                } else {
                    assert(es[k].key != es[m].key);
                }
            }
        } else {
            if m < es.len() && a[m].key == e.key {
                assert(es[m].key == e.key);
            }
        }
    }
    assert forall|m: int| 0 <= m < a.len() && (#[trigger] a[m]).key != e.key implies exists|i: int|
        0 <= i < es.len() && es[i] == a[m] by {
        if has_key(es, e.key) {
            assert(es[m] == a[m]);
        } else {
            assert(m < es.len());
            assert(es[m] == a[m]);
        }
    }
    assert forall|j: int| 0 <= j < r.len() && (#[trigger] r[j]).key == e.key implies r[j] == written_entry(es, e, now) by {
        assert(r[j] == a[idx[j]]);
    }
    assert forall|j: int| 0 <= j < r.len() && (#[trigger] r[j]).key != e.key implies exists|i: int|
        0 <= i < es.len() && es[i] == r[j] by {
        assert(r[j] == a[idx[j]]);
    }
}


// ----- eviction order -----

/// The last access time of an entry, or `now` when its text does not parse.
pub open spec fn last_access_or(e: MemoryEntryView, now: Timestamp) -> Timestamp {
    match spec_parse_rfc3339(e.last_accessed_at) {
        Some(t) => t,
        None => now,
    }
}

/// The creation time of an entry, or `now` when its text does not parse.
pub open spec fn created_or(e: MemoryEntryView, now: Timestamp) -> Timestamp {
    match spec_parse_rfc3339(e.created_at) {
        Some(t) => t,
        None => now,
    }
}

proof fn lemma_first_min_least(keys: Seq<Timestamp>)
    requires
        keys.len() > 0,
    ensures
        0 <= first_min(keys) < keys.len(),
        forall|j: int| 0 <= j < keys.len() ==> !ts_lt(#[trigger] keys[j], keys[first_min(keys)]),
    decreases keys.len(),
{
    lemma_first_min_range(keys);
    if keys.len() > 1 {
        let d = keys.drop_last();
        lemma_first_min_least(d);
        let m = first_min(d);
        assert forall|j: int| 0 <= j < keys.len() implies !ts_lt(#[trigger] keys[j], keys[first_min(keys)]) by {
            if j < keys.len() - 1 {
                assert(keys[j] == d[j]);
                assert(keys[m] == d[m]);
            }
        }
    }
}

/// LRU eviction removes a least recently used entry: no entry was
/// accessed earlier than the one it picks (a time that does not parse
/// counts as `now`).
pub proof fn law_lru_victim_least_recent(es: Seq<MemoryEntryView>, now: Timestamp)
    requires
        es.len() > 0,
    ensures
        0 <= victim(es, MemoryEvictionPolicy::Lru, now) < es.len(),
        forall|j: int|
            0 <= j < es.len() ==> !ts_lt(
                last_access_or(#[trigger] es[j], now),
                last_access_or(es[victim(es, MemoryEvictionPolicy::Lru, now)], now),
            ),
{
    let keys = eviction_keys(es, true, now);
    lemma_first_min_least(keys);
    let v = victim(es, MemoryEvictionPolicy::Lru, now);
    assert(keys[v] == last_access_or(es[v], now));
    assert forall|j: int| 0 <= j < es.len() implies !ts_lt(last_access_or(#[trigger] es[j], now), last_access_or(es[v], now)) by {
        assert(keys[j] == last_access_or(es[j], now));
    }
}

/// FIFO eviction removes an oldest entry: no entry was created earlier
/// than the one it picks (a time that does not parse counts as `now`).
pub proof fn law_fifo_victim_oldest(es: Seq<MemoryEntryView>, now: Timestamp)
    requires
        es.len() > 0,
    ensures
        0 <= victim(es, MemoryEvictionPolicy::Fifo, now) < es.len(),
        forall|j: int|
            0 <= j < es.len() ==> !ts_lt(
                created_or(#[trigger] es[j], now),
                created_or(es[victim(es, MemoryEvictionPolicy::Fifo, now)], now),
            ),
{
    let keys = eviction_keys(es, false, now);
    lemma_first_min_least(keys);
    let v = victim(es, MemoryEvictionPolicy::Fifo, now);
    assert(keys[v] == created_or(es[v], now));
    assert forall|j: int| 0 <= j < es.len() implies !ts_lt(created_or(#[trigger] es[j], now), created_or(es[v], now)) by {
        assert(keys[j] == created_or(es[j], now));
    }
}

/// Over quota under LRU, eviction first removes an entry that no other
/// entry was accessed before, reports its key first, and goes on with the
/// entries left; applied step by step, every evicted entry was accessed
/// no later than every entry kept at the time it was evicted.
pub proof fn law_lru_evicts_least_recent(es: Seq<MemoryEntryView>, policy: MemoryPolicy, now: Timestamp)
    requires
        policy.eviction == MemoryEvictionPolicy::Lru,
        over_quota(es, policy),
        es.len() > 0,
    ensures
        exists|v: int|
            0 <= v < es.len() && evict(es, policy, now).0 == evict(es.remove(v), policy, now).0 && evict(es, policy, now).1 == seq![
                es[v].key,
            ] + evict(es.remove(v), policy, now).1 && forall|j: int|
                0 <= j < es.len() ==> !ts_lt(last_access_or(#[trigger] es[j], now), last_access_or(es[v], now)),
{
    law_lru_victim_least_recent(es, now);
    let v = victim(es, MemoryEvictionPolicy::Lru, now);
    assert(victim(es, policy.eviction, now) == v);
    let rest = evict(es.remove(v), policy, now);
    assert(evict(es, policy, now) == (rest.0, seq![es[v].key] + rest.1));
    assert(0 <= v < es.len() && evict(es, policy, now).0 == rest.0 && evict(es, policy, now).1 == seq![es[v].key] + rest.1);
}

/// The entry's update time parses and is before `cutoff`.
pub open spec fn expired_before(e: MemoryEntryView, cutoff: Timestamp) -> bool {
    spec_parse_rfc3339(e.updated_at) matches Some(t) && ts_lt(t, cutoff)
}

proof fn lemma_ttl_pick_least(es: Seq<MemoryEntryView>, cutoff: Timestamp)
    ensures
        ttl_pick(es, cutoff) is None <==> forall|j: int| 0 <= j < es.len() ==> !expired_before(#[trigger] es[j], cutoff),
        ttl_pick(es, cutoff) matches Some(p) ==> {
            &&& 0 <= p.0 < es.len()
            &&& spec_parse_rfc3339(es[p.0].updated_at) == Some(p.1)
            &&& ts_lt(p.1, cutoff)
            &&& forall|j: int|
                0 <= j < es.len() && expired_before(#[trigger] es[j], cutoff) ==> !ts_lt(
                    spec_parse_rfc3339(es[j].updated_at)->0,
                    p.1,
                )
        },
    decreases es.len(),
{
    if es.len() > 0 {
        let d = es.drop_last();
        lemma_ttl_pick_least(d, cutoff);
        assert forall|j: int| 0 <= j < d.len() implies #[trigger] d[j] == es[j] by {}
        let n = es.len() - 1;
        if ttl_pick(es, cutoff) is None {
            assert forall|j: int| 0 <= j < es.len() implies !expired_before(#[trigger] es[j], cutoff) by {
                if j < n {
                    assert(d[j] == es[j]);
                }
            }
        }
        if forall|j: int| 0 <= j < es.len() ==> !expired_before(#[trigger] es[j], cutoff) {
            assert forall|j: int| 0 <= j < d.len() implies !expired_before(#[trigger] d[j], cutoff) by {
                assert(d[j] == es[j]);
            }
            assert(!expired_before(es[n], cutoff));
        }
        if let Some(p) = ttl_pick(es, cutoff) {
            assert forall|j: int|
                0 <= j < es.len() && expired_before(#[trigger] es[j], cutoff) implies !ts_lt(
                    spec_parse_rfc3339(es[j].updated_at)->0,
                    p.1,
                ) by {
                if j < n {
                    assert(d[j] == es[j]);
                    assert(expired_before(d[j], cutoff));
                }
            }
        }
    }
}

/// TTL eviction removes, among the entries updated before the cutoff
/// (`now` less the TTL), one updated earliest; when no entry is, it
/// removes the first entry.
pub proof fn law_ttl_victim_oldest_expired(es: Seq<MemoryEntryView>, now: Timestamp, ttl_secs: u64)
    requires
        es.len() > 0,
    ensures
        ({
            let v = victim(es, MemoryEvictionPolicy::Ttl { ttl_secs }, now);
            let c = ttl_cutoff(now, ttl_secs);
            &&& 0 <= v < es.len()
            &&& (exists|j: int| 0 <= j < es.len() && expired_before(#[trigger] es[j], c)) ==> {
                &&& expired_before(es[v], c)
                &&& forall|j: int|
                    0 <= j < es.len() && expired_before(#[trigger] es[j], c) ==> !ts_lt(
                        spec_parse_rfc3339(es[j].updated_at)->0,
                        spec_parse_rfc3339(es[v].updated_at)->0,
                    )
            }
            &&& (forall|j: int| 0 <= j < es.len() ==> !expired_before(#[trigger] es[j], c)) ==> v == 0
        }),
{
    lemma_ttl_pick_least(es, ttl_cutoff(now, ttl_secs));
}

// ----- query order -----

/// `b` was not accessed more recently than `a`: a parsed time is later
/// than an unparsed one.
pub open spec fn not_more_recent(b: MemoryEntryView, a: MemoryEntryView) -> bool {
    match (spec_parse_rfc3339(a.last_accessed_at), spec_parse_rfc3339(b.last_accessed_at)) {
        (Some(x), Some(y)) => !ts_lt(x, y),
        (None, Some(_)) => false,
        _ => true,
    }
}

spec fn recent_first(s: Seq<MemoryEntryView>) -> bool {
    forall|k: int| 0 <= k < s.len() - 1 ==> !opt_ts_lt(recency(#[trigger] s[k]), recency(s[k + 1]))
}

proof fn lemma_insert_recent_sorted(s: Seq<MemoryEntryView>, e: MemoryEntryView)
    requires
        recent_first(s),
    ensures
        recent_first(insert_recent(s, e)),
        insert_recent(s, e).len() == s.len() + 1,
        insert_recent(s, e)[0] == if s.len() == 0 || opt_ts_lt(recency(s[0]), recency(e)) {
            e
        } else {
            s[0]
        },
    decreases s.len(),
{
    if s.len() > 0 {
        let t = s.drop_first();
        assert forall|k: int| 0 <= k < t.len() - 1 implies !opt_ts_lt(recency(#[trigger] t[k]), recency(t[k + 1])) by {
            assert(t[k] == s[k + 1] && t[k + 1] == s[k + 2]);
        }
        lemma_insert_recent_sorted(t, e);
        let r = insert_recent(s, e);
        if opt_ts_lt(recency(s[0]), recency(e)) {
            assert forall|k: int| 0 <= k < r.len() - 1 implies !opt_ts_lt(recency(#[trigger] r[k]), recency(r[k + 1])) by {
                if k > 0 {
                    assert(r[k] == s[k - 1] && r[k + 1] == s[k]);
                }
            }
        } else {
            let u = insert_recent(t, e);
            assert forall|k: int| 0 <= k < r.len() - 1 implies !opt_ts_lt(recency(#[trigger] r[k]), recency(r[k + 1])) by {
                if k > 0 {
                    assert(r[k] == u[k - 1] && r[k + 1] == u[k]);
                } else {
                    assert(r[1] == u[0]);
                    if t.len() > 0 && !opt_ts_lt(recency(t[0]), recency(e)) {
                        assert(t[0] == s[1]);
                    }
                }
            }
        }
    }
}

proof fn lemma_sort_recent_sorted(s: Seq<MemoryEntryView>)
    ensures
        recent_first(sort_recent(s)),
    decreases s.len(),
{
    if s.len() > 0 {
        lemma_sort_recent_sorted(s.drop_last());
        lemma_insert_recent_sorted(sort_recent(s.drop_last()), s.last());
    }
}

/// A query returns its entries most recently accessed first: no entry
/// comes after one that was accessed before it; and it returns as many
/// as match, up to the limit (50 by default).
pub proof fn law_query_newest_first(es: Seq<MemoryEntryView>, q: MemoryQueryView)
    ensures
        forall|k: int|
            0 <= k < query_result(es, q).len() - 1 ==> not_more_recent(
                query_result(es, q)[k + 1],
                #[trigger] query_result(es, q)[k],
            ),
        query_result(es, q).len() == if (match q.limit {
            Some(l) => l as int,
            None => 50,
        }) < es.filter(|e: MemoryEntryView| query_matches(e, q)).len() {
            match q.limit {
                Some(l) => l as int,
                None => 50,
            }
        } else {
            es.filter(|e: MemoryEntryView| query_matches(e, q)).len() as int
        },
{
    let f = es.filter(|e: MemoryEntryView| query_matches(e, q));
    lemma_sort_recent_elems(f);
    lemma_sort_recent_sorted(f);
    let s = sort_recent(f);
    let r = query_result(es, q);
    assert forall|k: int| 0 <= k < r.len() - 1 implies not_more_recent(r[k + 1], #[trigger] r[k]) by {
        assert(r[k] == s[k] && r[k + 1] == s[k + 1]);
        assert(!opt_ts_lt(recency(s[k]), recency(s[k + 1])));
    }
}

} // verus!
