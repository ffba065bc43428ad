//! In-memory state of the file-backed memory store: writes with timestamp
//! bookkeeping, reads, filtered queries, quota eviction and the AGENTS.md
//! rendering. Reading and writing the JSON file is left to the caller.
use vstd::prelude::*;

use crate::memory::protocol::{
    entries_view, opt_view, strs_view, MemoryEntry, MemoryEntryView, MemoryEvictionPolicy, MemoryEvictionReport, MemoryPolicy,
    MemoryQuery, MemoryScope, MemoryStatus, MemoryType,
};
use crate::text::{
    byte_len, owned, push_str, starts_with, str_byte_len, str_eq, str_starts_with, str_trim, trim,
};

verus! {

/// A point in time: seconds since the Unix epoch and nanoseconds within
/// the second, as `chrono::DateTime<Utc>` orders them.
pub type Timestamp = (i64, u32);

/// `a` is earlier than `b`.
pub open spec fn ts_lt(a: Timestamp, b: Timestamp) -> bool {
    a.0 < b.0 || (a.0 == b.0 && a.1 < b.1)
}

/// The instant an RFC 3339 text denotes, or `None` when chrono does not
/// parse it.
pub uninterp spec fn spec_parse_rfc3339(s: Seq<char>) -> Option<Timestamp>;

/// Parses an RFC 3339 timestamp with `chrono::DateTime::parse_from_rfc3339`.
///
/// Trusted: the result is the instant chrono parses (seconds since the
/// epoch and subsecond nanoseconds, which order instants as `DateTime<Utc>`
/// does), named by `spec_parse_rfc3339`; nothing is stated of which texts
/// parse.
#[verifier::external_body]
pub fn parse_ts(s: &str) -> (r: Option<Timestamp>)
    ensures
        r == spec_parse_rfc3339(s@),
{
    chrono::DateTime::parse_from_rfc3339(s).ok().map(|dt| (dt.timestamp(), dt.timestamp_subsec_nanos()))
}

/// `a < b` on timestamps.
pub fn ts_less(a: Timestamp, b: Timestamp) -> (r: bool)
    ensures
        r == ts_lt(a, b),
{
    a.0 < b.0 || (a.0 == b.0 && a.1 < b.1)
}

// ----- size estimate -----

pub open spec fn opt_len(o: Option<Seq<char>>) -> nat {
    match o {
        Some(s) => byte_len(s),
        None => 0,
    }
}

pub open spec fn tags_len(t: Seq<Seq<char>>) -> nat
    decreases t.len(),
{
    if t.len() == 0 {
        0
    } else {
        tags_len(t.drop_last()) + byte_len(t.last())
    }
}

/// Estimated bytes of one entry: the bytes of its text fields plus 16.
pub open spec fn entry_size(e: MemoryEntryView) -> nat {
    byte_len(e.key) + byte_len(e.value) + opt_len(e.title) + opt_len(e.scope_id) + opt_len(
        e.supersedes,
    ) + opt_len(e.owner_user_id) + opt_len(e.owner_workspace_id) + opt_len(
        e.owner_channel_account_id,
    ) + tags_len(e.tags) + byte_len(e.created_at) + byte_len(e.updated_at) + byte_len(
        e.last_accessed_at,
    ) + 16
}

/// Estimated bytes of all entries.
pub open spec fn total_size(es: Seq<MemoryEntryView>) -> nat
    decreases es.len(),
{
    if es.len() == 0 {
        0
    } else {
        total_size(es.drop_last()) + entry_size(es.last())
    }
}

fn opt_byte_len(o: &Option<String>, bound: Ghost<nat>) -> (r: usize)
    requires
        opt_len(opt_view(*o)) <= bound@ <= usize::MAX,
    ensures
        r == opt_len(opt_view(*o)),
{
    match o {
        Some(s) => str_byte_len(s.as_str()),
        None => 0,
    }
}

fn tags_byte_len(tags: &Vec<String>) -> (r: usize)
    requires
        tags_len(strs_view(tags@)) <= usize::MAX,
    ensures
        r == tags_len(strs_view(tags@)),
{
    let ghost tv = strs_view(tags@);
    let mut n: usize = 0;
    let mut i: usize = 0;
    while i < tags.len()
        invariant
            i <= tags.len(),
            tv == strs_view(tags@),
            tags_len(tv) <= usize::MAX,
            n == tags_len(tv.take(i as int)),
        decreases tags.len() - i,
    {
        proof {
            assert(tv.take(i + 1).drop_last() =~= tv.take(i as int));
            lemma_tags_len_prefix(tv, i + 1);
        }
        n = n + str_byte_len(tags[i].as_str());
        i = i + 1;
    }
    assert(tv.take(i as int) =~= tv);
    n
}

pub proof fn lemma_tags_len_prefix(t: Seq<Seq<char>>, k: int)
    requires
        0 <= k <= t.len(),
    ensures
        tags_len(t.take(k)) <= tags_len(t),
    decreases t.len() - k,
{
    if k < t.len() {
        assert(t.drop_last().take(k) =~= t.take(k));
        lemma_tags_len_prefix(t.drop_last(), k);
    } else {
        assert(t.take(k) =~= t);
    }
}

pub proof fn lemma_total_size_prefix(es: Seq<MemoryEntryView>, k: int)
    requires
        0 <= k <= es.len(),
    ensures
        total_size(es.take(k)) <= total_size(es),
    decreases es.len() - k,
{
    if k < es.len() {
        assert(es.drop_last().take(k) =~= es.take(k));
        lemma_total_size_prefix(es.drop_last(), k);
    } else {
        assert(es.take(k) =~= es);
    }
}

/// Estimated size in bytes of one entry.
pub fn entry_size_bytes(e: &MemoryEntry) -> (r: usize)
    requires
        entry_size(e@) <= usize::MAX,
    ensures
        r == entry_size(e@),
{
    let ghost b = entry_size(e@);
    let mut n = str_byte_len(e.key.as_str());
    n = n + str_byte_len(e.value.as_str());
    n = n + opt_byte_len(&e.title, Ghost(b));
    n = n + opt_byte_len(&e.scope_id, Ghost(b));
    n = n + opt_byte_len(&e.supersedes, Ghost(b));
    n = n + opt_byte_len(&e.owner_user_id, Ghost(b));
    n = n + opt_byte_len(&e.owner_workspace_id, Ghost(b));
    n = n + opt_byte_len(&e.owner_channel_account_id, Ghost(b));
    n = n + tags_byte_len(&e.tags);
    n = n + str_byte_len(e.created_at.as_str());
    n = n + str_byte_len(e.updated_at.as_str());
    n = n + str_byte_len(e.last_accessed_at.as_str());
    n + 16
}

/// Estimated size in bytes of all entries.
pub fn bytes_total(entries: &Vec<MemoryEntry>) -> (r: usize)
    requires
        total_size(entries_view(entries@)) <= usize::MAX,
    ensures
        r == total_size(entries_view(entries@)),
{
    let ghost ev = entries_view(entries@);
    let mut n: usize = 0;
    let mut i: usize = 0;
    while i < entries.len()
        invariant
            i <= entries.len(),
            ev == entries_view(entries@),
            total_size(ev) <= usize::MAX,
            n == total_size(ev.take(i as int)),
        decreases entries.len() - i,
    {
        proof {
            assert(ev.take(i + 1).drop_last() =~= ev.take(i as int));
            lemma_total_size_prefix(ev, i + 1);
            assert(ev[i as int] == entries@[i as int]@);
        }
        n = n + entry_size_bytes(&entries[i]);
        i = i + 1;
    }
    assert(ev.take(i as int) =~= ev);
    n
}

// ----- query matching and visibility -----

/// `Some(s)` matches `Some(t)` exactly when the texts are equal.
pub open spec fn opt_eq(a: Option<Seq<char>>, b: Option<Seq<char>>) -> bool {
    a == b
}

/// The entry is visible to the actor described by the query:
/// - a user entry with an owner only to that owner (by user id, or by
///   channel account when no user id is given);
/// - a thread entry with a scope id only to that thread (the query's
///   actor thread, else its scope id);
/// - a workspace entry with an owner workspace only to that workspace;
/// - everything else to everyone.
pub open spec fn visible_to_actor(e: MemoryEntryView, q: MemoryQueryView) -> bool {
    match e.scope {
        MemoryScope::User => match e.owner_user_id {
            Some(owner) => match q.actor_user_id {
                Some(actor) => owner == actor,
                None => match q.actor_channel_account_id {
                    Some(actor) => e.owner_channel_account_id == Some(actor),
                    None => false,
                },
            },
            None => true,
        },
        MemoryScope::Thread => match e.scope_id {
            Some(thread_id) => {
                let actor_thread = match q.actor_thread_id {
                    Some(t) => Some(t),
                    None => q.scope_id,
                };
                actor_thread == Some(thread_id)
            },
            None => true,
        },
        MemoryScope::Workspace => match e.owner_workspace_id {
            Some(ws) => q.actor_workspace_id == Some(ws),
            None => true,
        },
        MemoryScope::System => true,
    }
}

/// Mathematical value of a query.
pub struct MemoryQueryView {
    pub prefix: Option<Seq<char>>,
    pub tag: Option<Seq<char>>,
    pub limit: Option<usize>,
    pub scope: Option<MemoryScope>,
    pub scope_id: Option<Seq<char>>,
    pub memory_type: Option<MemoryType>,
    pub pinned: Option<bool>,
    pub status: Option<MemoryStatus>,
    pub include_inactive: bool,
    pub actor_user_id: Option<Seq<char>>,
    pub actor_thread_id: Option<Seq<char>>,
    pub actor_workspace_id: Option<Seq<char>>,
    pub actor_channel_account_id: Option<Seq<char>>,
}

impl View for MemoryQuery {
    type V = MemoryQueryView;

    open spec fn view(&self) -> MemoryQueryView {
        MemoryQueryView {
            prefix: opt_view(self.prefix),
            tag: opt_view(self.tag),
            limit: self.limit,
            scope: self.scope,
            scope_id: opt_view(self.scope_id),
            memory_type: self.memory_type,
            pinned: self.pinned,
            status: self.status,
            include_inactive: self.include_inactive,
            actor_user_id: opt_view(self.actor_user_id),
            actor_thread_id: opt_view(self.actor_thread_id),
            actor_workspace_id: opt_view(self.actor_workspace_id),
            actor_channel_account_id: opt_view(self.actor_channel_account_id),
        }
    }
}

/// Every condition set in the query holds of the entry, and the entry is
/// visible to the query's actor. With no status condition, only active
/// entries match unless inactive ones are included.
pub open spec fn query_matches(e: MemoryEntryView, q: MemoryQueryView) -> bool {
    &&& (q.prefix matches Some(p) ==> starts_with(e.key, p))
    &&& (q.tag matches Some(t) ==> e.tags.contains(t))
    &&& (q.scope matches Some(s) ==> e.scope == s)
    &&& (q.scope_id matches Some(id) ==> e.scope_id == Some(id))
    &&& (q.memory_type matches Some(m) ==> e.memory_type == m)
    &&& (q.pinned matches Some(p) ==> e.pinned == p)
    &&& match q.status {
        Some(st) => e.status == st,
        None => q.include_inactive || e.status == MemoryStatus::Active,
    }
    &&& visible_to_actor(e, q)
}

fn opt_matches(a: &Option<String>, b: &Option<String>) -> (r: bool)
    ensures
        r == (opt_view(*a) == opt_view(*b)),
{
    match (a, b) {
        (Some(x), Some(y)) => str_eq(x.as_str(), y.as_str()),
        (None, None) => true,
        _ => false,
    }
}

/// Whether the entry is visible to the actor named in the query.
pub fn is_visible_to_actor(e: &MemoryEntry, q: &MemoryQuery) -> (r: bool)
    ensures
        r == visible_to_actor(e@, q@),
{
    match e.scope {
        MemoryScope::User => match &e.owner_user_id {
            Some(owner) => {
                if let Some(actor) = &q.actor_user_id {
                    str_eq(owner.as_str(), actor.as_str())
                } else if let Some(actor) = &q.actor_channel_account_id {
                    match &e.owner_channel_account_id {
                        Some(c) => str_eq(c.as_str(), actor.as_str()),
                        None => false,
                    }
                } else {
                    false
                }
            },
            None => true,
        },
        MemoryScope::Thread => match &e.scope_id {
            Some(thread_id) => {
                let actor_thread = match &q.actor_thread_id {
                    Some(t) => Some(t),
                    None => q.scope_id.as_ref(),
                };
                match actor_thread {
                    Some(t) => str_eq(t.as_str(), thread_id.as_str()),
                    None => false,
                }
            },
            None => true,
        },
        MemoryScope::Workspace => match &e.owner_workspace_id {
            Some(ws) => match &q.actor_workspace_id {
                Some(a) => str_eq(a.as_str(), ws.as_str()),
                None => false,
            },
            None => true,
        },
        MemoryScope::System => true,
    }
}

fn tags_contain(tags: &Vec<String>, tag: &String) -> (r: bool)
    ensures
        r == strs_view(tags@).contains(tag@),
{
    let mut i: usize = 0;
    while i < tags.len()
        invariant
            i <= tags.len(),
            forall|k: int| 0 <= k < i ==> tags@[k]@ != tag@,
        decreases tags.len() - i,
    {
        if str_eq(tags[i].as_str(), tag.as_str()) {
            assert(strs_view(tags@)[i as int] == tag@);
            return true;
        }
        i = i + 1;
    }
    assert forall|k: int| 0 <= k < strs_view(tags@).len() implies strs_view(tags@)[k] != tag@ by {
        assert(strs_view(tags@)[k] == tags@[k]@);
    }
    false
}

/// Whether the entry matches every condition of the query.
pub fn matches_query(e: &MemoryEntry, q: &MemoryQuery) -> (r: bool)
    ensures
        r == query_matches(e@, q@),
{
    if let Some(prefix) = &q.prefix {
        if !str_starts_with(e.key.as_str(), prefix.as_str()) {
            return false;
        }
    }
    if let Some(tag) = &q.tag {
        if !tags_contain(&e.tags, tag) {
            return false;
        }
    }
    if let Some(scope) = q.scope {
        if e.scope != scope {
            return false;
        }
    }
    if let Some(scope_id) = &q.scope_id {
        match &e.scope_id {
            Some(s) => {
                if !str_eq(s.as_str(), scope_id.as_str()) {
                    return false;
                }
            },
            None => {
                return false;
            },
        }
    }
    if let Some(memory_type) = q.memory_type {
        if e.memory_type != memory_type {
            return false;
        }
    }
    if let Some(pinned) = q.pinned {
        if e.pinned != pinned {
            return false;
        }
    }
    if let Some(status) = q.status {
        if e.status != status {
            return false;
        }
    } else if !q.include_inactive && e.status != MemoryStatus::Active {
        return false;
    }
    is_visible_to_actor(e, q)
}


// ----- writes and reads -----

/// The in-memory state of a store.
#[derive(Debug)]
pub struct MemoryState {
    /// Whether the persisted file has been loaded.
    pub loaded: bool,
    /// Quota and eviction policy in force.
    pub policy: MemoryPolicy,
    /// Entries in insertion order.
    pub entries: Vec<MemoryEntry>,
}

/// `i` is the first index of an entry with key `key`.
pub open spec fn first_with_key(es: Seq<MemoryEntryView>, key: Seq<char>, i: int) -> bool {
    &&& 0 <= i < es.len()
    &&& es[i].key == key
    &&& forall|j: int| 0 <= j < i ==> es[j].key != key
}

pub open spec fn has_key(es: Seq<MemoryEntryView>, key: Seq<char>) -> bool {
    exists|i: int| 0 <= i < es.len() && (#[trigger] es[i]).key == key
}

/// The first index of an entry with key `key` (meaningful when one exists).
pub open spec fn key_index(es: Seq<MemoryEntryView>, key: Seq<char>) -> int {
    choose|i: int| first_with_key(es, key, i)
}

/// `u64::saturating_add(x, 1)`.
pub open spec fn bump(x: u64) -> u64 {
    if x == u64::MAX {
        x
    } else {
        (x + 1) as u64
    }
}

/// A new entry with missing timestamps set to `now` and a zero access count
/// set to one.
pub open spec fn filled(e: MemoryEntryView, now: Seq<char>) -> MemoryEntryView {
    MemoryEntryView {
        created_at: if e.created_at.len() == 0 { now } else { e.created_at },
        updated_at: if e.updated_at.len() == 0 { now } else { e.updated_at },
        last_accessed_at: if e.last_accessed_at.len() == 0 { now } else { e.last_accessed_at },
        access_count: if e.access_count == 0 { 1 } else { e.access_count },
        ..e
    }
}

/// An existing entry overwritten by a `put` of `e` at `now`: its key and
/// creation time stay, its content fields come from `e`, its update and
/// access times become `now` and its access count grows by one.
pub open spec fn merged(old: MemoryEntryView, e: MemoryEntryView, now: Seq<char>) -> MemoryEntryView {
    MemoryEntryView {
        key: old.key,
        created_at: old.created_at,
        updated_at: now,
        last_accessed_at: now,
        access_count: bump(old.access_count),
        ..e
    }
}

/// The entries after a `put` of `e` at `now`, before eviction: the first
/// entry with the same key is overwritten, or `e` is appended.
pub open spec fn after_put(es: Seq<MemoryEntryView>, e: MemoryEntryView, now: Seq<char>) -> Seq<MemoryEntryView> {
    if has_key(es, e.key) {
        let i = key_index(es, e.key);
        es.update(i, merged(es[i], e, now))
    } else {
        es.push(filled(e, now))
    }
}

/// An entry read at `now`.
pub open spec fn touched(e: MemoryEntryView, now: Seq<char>) -> MemoryEntryView {
    MemoryEntryView { last_accessed_at: now, access_count: bump(e.access_count), ..e }
}

pub proof fn lemma_first_with_key_unique(es: Seq<MemoryEntryView>, key: Seq<char>, i: int)
    requires
        first_with_key(es, key, i),
    ensures
        has_key(es, key),
        key_index(es, key) == i,
{
    let j = key_index(es, key);
    assert(first_with_key(es, key, j));
    if j < i {
        assert(es[j].key != key);
    } else if j > i {
        assert(es[i].key != key);
    }
}

pub proof fn lemma_key_index(es: Seq<MemoryEntryView>, key: Seq<char>)
    requires
        has_key(es, key),
    ensures
        first_with_key(es, key, key_index(es, key)),
{
    let w = choose|i: int| 0 <= i < es.len() && (#[trigger] es[i]).key == key;
    lemma_first_key_below(es, key, w);
}

pub proof fn lemma_first_key_below(es: Seq<MemoryEntryView>, key: Seq<char>, w: int)
    requires
        0 <= w < es.len(),
        es[w].key == key,
    ensures
        exists|i: int| first_with_key(es, key, i),
    decreases w,
{
    if exists|j: int| 0 <= j < w && (#[trigger] es[j]).key == key {
        let j = choose|j: int| 0 <= j < w && (#[trigger] es[j]).key == key;
        lemma_first_key_below(es, key, j);
    } else {
        assert(first_with_key(es, key, w));
    }
}

/// Finds the first index of an entry with key `key`.
pub fn find_key(entries: &Vec<MemoryEntry>, key: &str) -> (r: Option<usize>)
    ensures
        r matches Some(i) ==> first_with_key(entries_view(entries@), key@, i as int),
        r is None ==> !has_key(entries_view(entries@), key@),
{
    let ghost ev = entries_view(entries@);
    let mut i: usize = 0;
    while i < entries.len()
        invariant
            i <= entries.len(),
            ev == entries_view(entries@),
            forall|j: int| 0 <= j < i ==> ev[j].key != key@,
        decreases entries.len() - i,
    {
        if str_eq(entries[i].key.as_str(), key) {
            assert(ev[i as int] == entries@[i as int]@);
            return Some(i);
        }
        assert(ev[i as int] == entries@[i as int]@);
        i = i + 1;
    }
    None
}

fn copy_str(s: &str) -> (r: String)
    ensures
        r@ == s@,
{
    owned(s)
}

impl MemoryState {
    /// An unloaded, empty state with the given policy.
    pub fn new(policy: MemoryPolicy) -> (r: Self)
        ensures
            !r.loaded,
            r.policy == policy,
            r.entries@.len() == 0,
    {
        MemoryState { loaded: false, policy, entries: Vec::new() }
    }

    /// Writes `entry` at time `now` (an RFC 3339 text) without evicting:
    /// see [`after_put`].
    pub fn put_without_eviction(&mut self, entry: MemoryEntry, now: &str)
        ensures
            final(self).loaded == old(self).loaded,
            final(self).policy == old(self).policy,
            entries_view(final(self).entries@) == after_put(entries_view(old(self).entries@), entry@, now@),
    {
        let ghost ev = entries_view(self.entries@);
        let ghost e0 = entry@;
        let mut entry = entry;
        if entry.created_at.as_str().is_empty() {
            entry.created_at = copy_str(now);
        }
        if entry.updated_at.as_str().is_empty() {
            entry.updated_at = copy_str(now);
        }
        if entry.last_accessed_at.as_str().is_empty() {
            entry.last_accessed_at = copy_str(now);
        }
        if entry.access_count == 0 {
            entry.access_count = 1;
        }
        match find_key(&self.entries, entry.key.as_str()) {
            Some(i) => {
                proof {
                    lemma_first_with_key_unique(ev, e0.key, i as int);
                }
                let mut entries: Vec<MemoryEntry> = Vec::new();
                std::mem::swap(&mut entries, &mut self.entries);
                let old_e = entries[i].clone();
                let count = if old_e.access_count == u64::MAX {
                    old_e.access_count
                } else {
                    old_e.access_count + 1
                };
                let updated = MemoryEntry {
                    key: old_e.key,
                    value: entry.value,
                    title: entry.title,
                    scope: entry.scope,
                    scope_id: entry.scope_id,
                    memory_type: entry.memory_type,
                    pinned: entry.pinned,
                    status: entry.status,
                    confidence: entry.confidence,
                    salience: entry.salience,
                    supersedes: entry.supersedes,
                    owner_user_id: entry.owner_user_id,
                    owner_workspace_id: entry.owner_workspace_id,
                    owner_channel_account_id: entry.owner_channel_account_id,
                    tags: entry.tags,
                    created_at: old_e.created_at,
                    updated_at: copy_str(now),
                    last_accessed_at: copy_str(now),
                    access_count: count,
                };
                assert(updated@ == merged(ev[i as int], e0, now@));
                entries.set(i, updated);
                assert(entries_view(entries@) =~= ev.update(i as int, merged(ev[i as int], e0, now@)));
                self.entries = entries;
            },
            None => {
                assert(entry@ == filled(e0, now@));
                self.entries.push(entry);
                assert(entries_view(self.entries@) =~= ev.push(filled(e0, now@)));
            },
        }
    }

    /// Reads the entry with key `key` at time `now`, recording the access.
    pub fn get(&mut self, key: &str, now: &str) -> (r: Option<MemoryEntry>)
        ensures
            final(self).loaded == old(self).loaded,
            final(self).policy == old(self).policy,
            ({
                let ev = entries_view(old(self).entries@);
                if has_key(ev, key@) {
                    let i = key_index(ev, key@);
                    &&& r matches Some(e) && e@ == touched(ev[i], now@)
                    &&& entries_view(final(self).entries@) == ev.update(i, touched(ev[i], now@))
                } else {
                    &&& r is None
                    &&& final(self).entries@ == old(self).entries@
                }
            }),
    {
        let ghost ev = entries_view(self.entries@);
        match find_key(&self.entries, key) {
            Some(i) => {
                proof {
                    lemma_first_with_key_unique(ev, key@, i as int);
                }
                let mut entries: Vec<MemoryEntry> = Vec::new();
                std::mem::swap(&mut entries, &mut self.entries);
                let mut e = entries[i].clone();
                e.last_accessed_at = copy_str(now);
                e.access_count = if e.access_count == u64::MAX {
                    e.access_count
                } else {
                    e.access_count + 1
                };
                let out = e.clone();
                entries.set(i, e);
                assert(entries_view(entries@) =~= ev.update(i as int, touched(ev[i as int], now@)));
                self.entries = entries;
                Some(out)
            },
            None => None,
        }
    }
}


// ----- queries -----

/// The parsed last access time of an entry.
pub open spec fn recency(e: MemoryEntryView) -> Option<Timestamp> {
    spec_parse_rfc3339(e.last_accessed_at)
}

/// `a < b` where an unparsed time is earlier than every parsed one.
pub open spec fn opt_ts_lt(a: Option<Timestamp>, b: Option<Timestamp>) -> bool {
    match (a, b) {
        (None, Some(_)) => true,
        (Some(x), Some(y)) => ts_lt(x, y),
        _ => false,
    }
}

/// Inserts `e` into a list ordered from most to least recently accessed,
/// after every entry accessed at least as recently.
pub open spec fn insert_recent(s: Seq<MemoryEntryView>, e: MemoryEntryView) -> Seq<MemoryEntryView>
    decreases s.len(),
{
    if s.len() == 0 {
        seq![e]
    } else if opt_ts_lt(recency(s[0]), recency(e)) {
        seq![e] + s
    } else {
        seq![s[0]] + insert_recent(s.drop_first(), e)
    }
}

/// Stable sort from most to least recently accessed (`sort_by` on the
/// parsed `last_accessed_at`, newest first).
pub open spec fn sort_recent(s: Seq<MemoryEntryView>) -> Seq<MemoryEntryView>
    decreases s.len(),
{
    if s.len() == 0 {
        s
    } else {
        insert_recent(sort_recent(s.drop_last()), s.last())
    }
}

/// The entries a query returns: the matching entries, most recently
/// accessed first, at most `limit` of them (50 by default).
pub open spec fn query_result(es: Seq<MemoryEntryView>, q: MemoryQueryView) -> Seq<MemoryEntryView> {
    let sorted = sort_recent(es.filter(|e: MemoryEntryView| query_matches(e, q)));
    let limit: int = match q.limit {
        Some(l) => l as int,
        None => 50,
    };
    if limit < sorted.len() {
        sorted.take(limit)
    } else {
        sorted
    }
}

/// The stored entries after a query at `now` returned `out`: every entry
/// whose key was returned is marked as read.
pub open spec fn after_query(es: Seq<MemoryEntryView>, out: Seq<MemoryEntryView>, now: Seq<char>) -> Seq<MemoryEntryView> {
    es.map_values(
        |e: MemoryEntryView|
            if out.map_values(|x: MemoryEntryView| x.key).contains(e.key) {
                touched(e, now)
            } else {
                e
            },
    )
}

pub proof fn lemma_insert_recent_at(s: Seq<MemoryEntryView>, e: MemoryEntryView, p: int)
    requires
        0 <= p <= s.len(),
        forall|k: int| 0 <= k < p ==> !opt_ts_lt(recency(#[trigger] s[k]), recency(e)),
        p < s.len() ==> opt_ts_lt(recency(s[p]), recency(e)),
    ensures
        insert_recent(s, e) == s.take(p).push(e) + s.skip(p),
    decreases p,
{
    if s.len() == 0 {
        assert(s.take(p).push(e) + s.skip(p) =~= seq![e]);
    } else if p == 0 {
        assert(s.take(0).push(e) + s.skip(0) =~= seq![e] + s);
    } else {
        assert forall|k: int| 0 <= k < p - 1 implies !opt_ts_lt(recency(#[trigger] s.drop_first()[k]), recency(e)) by {
            assert(s.drop_first()[k] == s[k + 1]);
        }
        lemma_insert_recent_at(s.drop_first(), e, p - 1);
        assert(seq![s[0]] + (s.drop_first().take(p - 1).push(e) + s.drop_first().skip(p - 1)) =~= s.take(p).push(e) + s.skip(p));
    }
}

fn recency_of(e: &MemoryEntry) -> (r: Option<Timestamp>)
    ensures
        r == recency(e@),
{
    parse_ts(e.last_accessed_at.as_str())
}

fn opt_ts_less(a: Option<Timestamp>, b: Option<Timestamp>) -> (r: bool)
    ensures
        r == opt_ts_lt(a, b),
{
    match (a, b) {
        (None, Some(_)) => true,
        (Some(x), Some(y)) => ts_less(x, y),
        _ => false,
    }
}

/// Sorts entries from most to least recently accessed, keeping the order
/// of equally recent ones.
pub fn sort_by_recency(items: Vec<MemoryEntry>) -> (r: Vec<MemoryEntry>)
    ensures
        entries_view(r@) == sort_recent(entries_view(items@)),
{
    let ghost iv = entries_view(items@);
    let mut sorted: Vec<MemoryEntry> = Vec::new();
    let mut i: usize = 0;
    while i < items.len()
        invariant
            i <= items.len(),
            iv == entries_view(items@),
            entries_view(sorted@) == sort_recent(iv.take(i as int)),
        decreases items.len() - i,
    {
        let e = items[i].clone();
        let re = recency_of(&e);
        let mut p: usize = 0;
        while p < sorted.len() && !opt_ts_less(recency_of(&sorted[p]), re)
            invariant
                p <= sorted.len(),
                re == recency(e@),
                forall|k: int| 0 <= k < p ==> !opt_ts_lt(recency(#[trigger] entries_view(sorted@)[k]), re),
            decreases sorted.len() - p,
        {
            assert(entries_view(sorted@)[p as int] == sorted@[p as int]@);
            p = p + 1;
        }
        proof {
            let sv = entries_view(sorted@);
            if p < sorted.len() {
                assert(sv[p as int] == sorted@[p as int]@);
            }
            lemma_insert_recent_at(sv, e@, p as int);
            assert(iv.take(i + 1).drop_last() =~= iv.take(i as int));
            assert(iv[i as int] == items@[i as int]@);
        }
        let ghost before = entries_view(sorted@);
        sorted.insert(p, e);
        assert(entries_view(sorted@) =~= before.take(p as int).push(iv[i as int]) + before.skip(p as int));
        i = i + 1;
    }
    assert(iv.take(i as int) =~= iv);
    sorted
}

impl MemoryState {
    /// Runs a query at time `now`: returns [`query_result`] and marks every
    /// stored entry whose key was returned as read.
    pub fn query(&mut self, q: &MemoryQuery, now: &str) -> (r: Vec<MemoryEntry>)
        ensures
            final(self).loaded == old(self).loaded,
            final(self).policy == old(self).policy,
            entries_view(r@) == query_result(entries_view(old(self).entries@), q@),
            entries_view(final(self).entries@) == after_query(entries_view(old(self).entries@), entries_view(r@), now@),
    {
        let ghost ev = entries_view(self.entries@);
        let ghost pred = |e: MemoryEntryView| query_matches(e, q@);
        let mut matched: Vec<MemoryEntry> = Vec::new();
        let mut i: usize = 0;
        while i < self.entries.len()
            invariant
                i <= self.entries.len(),
                ev == entries_view(self.entries@),
                pred == (|e: MemoryEntryView| query_matches(e, q@)),
                entries_view(matched@) == ev.take(i as int).filter(pred),
            decreases self.entries.len() - i,
        {
            proof {
                crate::text::lemma_filter_push(ev.take(i as int), pred, ev[i as int]);
                assert(ev.take(i + 1) =~= ev.take(i as int).push(ev[i as int]));
                assert(ev[i as int] == self.entries@[i as int]@);
            }
            if matches_query(&self.entries[i], q) {
                let e = self.entries[i].clone();
                let ghost before = entries_view(matched@);
                matched.push(e);
                assert(entries_view(matched@) =~= before.push(ev[i as int]));
            }
            i = i + 1;
        }
        assert(ev.take(i as int) =~= ev);
        let limit = match q.limit {
            Some(l) => l,
            None => 50,
        };
        let mut out = sort_by_recency(matched);
        if limit < out.len() {
            let ghost before = entries_view(out@);
            out.truncate(limit);
            assert(entries_view(out@) =~= before.take(limit as int));
        }
        let ghost ov = entries_view(out@);
        let ghost keys = ov.map_values(|x: MemoryEntryView| x.key);
        let mut entries: Vec<MemoryEntry> = Vec::new();
        std::mem::swap(&mut entries, &mut self.entries);
        let mut j: usize = 0;
        while j < entries.len()
            invariant
                j <= entries.len(),
                entries.len() == ev.len(),
                ov == entries_view(out@),
                keys == ov.map_values(|x: MemoryEntryView| x.key),
                forall|k: int| 0 <= k < j ==> entries@[k]@ == (if keys.contains(ev[k].key) { touched(ev[k], now@) } else { ev[k] }),
                forall|k: int| j <= k < entries.len() ==> entries@[k]@ == ev[k],
            decreases entries.len() - j,
        {
            let mut hit = false;
            let mut k: usize = 0;
            while k < out.len()
                invariant
                    k <= out.len(),
                    j < entries.len(),
                    ov == entries_view(out@),
                    keys == ov.map_values(|x: MemoryEntryView| x.key),
                    hit == (exists|m: int| 0 <= m < k && keys[m] == entries@[j as int]@.key),
                decreases out.len() - k,
            {
                if str_eq(out[k].key.as_str(), entries[j].key.as_str()) {
                    hit = true;
                }
                assert(keys[k as int] == out@[k as int]@.key);
                k = k + 1;
            }
            assert(hit == keys.contains(ev[j as int].key));
            if hit {
                let mut e = entries[j].clone();
                e.last_accessed_at = copy_str(now);
                e.access_count = if e.access_count == u64::MAX {
                    e.access_count
                } else {
                    e.access_count + 1
                };
                entries.set(j, e);
            }
            j = j + 1;
        }
        assert(entries_view(entries@) =~= after_query(ev, ov, now@));
        self.entries = entries;
        out
    }
}


// ----- eviction -----

/// The earliest instant `chrono` represents (`-262143-01-01T00:00:00Z`).
pub const MIN_TIMESTAMP_SECS: i64 = -8334601315200;

/// The last second `chrono` represents (`262142-12-31T23:59:59Z`).
pub const MAX_TIMESTAMP_SECS: i64 = 8210266876799;

/// `ttl_secs as i64`: the TTL reinterpreted as a signed number of seconds.
pub open spec fn ttl_delta(ttl_secs: u64) -> int {
    if ttl_secs <= i64::MAX {
        ttl_secs as int
    } else {
        ttl_secs - 0x1_0000_0000_0000_0000
    }
}

/// `now - TimeDelta::seconds(ttl_secs as i64)` neither panics nor
/// overflows the range of `DateTime<Utc>`.
pub open spec fn ttl_cutoff_defined(now: Timestamp, ttl_secs: u64) -> bool {
    let d = ttl_delta(ttl_secs);
    &&& -(i64::MAX / 1000) <= d <= i64::MAX / 1000
    &&& MIN_TIMESTAMP_SECS <= now.0 - d <= MAX_TIMESTAMP_SECS
}

/// `now - TimeDelta::seconds(ttl_secs as i64)`.
pub open spec fn ttl_cutoff(now: Timestamp, ttl_secs: u64) -> Timestamp {
    ((now.0 - ttl_delta(ttl_secs)) as i64, now.1)
}

/// A well-formed current time: nanoseconds below one second.
pub open spec fn valid_now(now: Timestamp) -> bool {
    now.1 < 1_000_000_000
}

/// The time an entry is ordered by when evicting: its parsed creation time
/// (FIFO) or last access time (LRU), or `now` when it does not parse.
pub open spec fn eviction_key(e: MemoryEntryView, lru: bool, now: Timestamp) -> Timestamp {
    let t = if lru { spec_parse_rfc3339(e.last_accessed_at) } else { spec_parse_rfc3339(e.created_at) };
    match t {
        Some(x) => x,
        None => now,
    }
}

/// The eviction keys of the entries.
pub open spec fn eviction_keys(es: Seq<MemoryEntryView>, lru: bool, now: Timestamp) -> Seq<Timestamp> {
    es.map_values(|e: MemoryEntryView| eviction_key(e, lru, now))
}

/// Index of the first least key (`Iterator::min_by_key`).
pub open spec fn first_min(keys: Seq<Timestamp>) -> int
    decreases keys.len(),
{
    if keys.len() <= 1 {
        0
    } else {
        let m = first_min(keys.drop_last());
        if ts_lt(keys.last(), keys[m]) {
            keys.len() - 1
        } else {
            m
        }
    }
}

/// The TTL candidate chosen among the entries: the first of those with the
/// earliest parsed update time before `cutoff`, with that time.
pub open spec fn ttl_pick(es: Seq<MemoryEntryView>, cutoff: Timestamp) -> Option<(int, Timestamp)>
    decreases es.len(),
{
    if es.len() == 0 {
        None
    } else {
        let prev = ttl_pick(es.drop_last(), cutoff);
        match spec_parse_rfc3339(es.last().updated_at) {
            Some(t) => if ts_lt(t, cutoff) {
                match prev {
                    Some(p) => if ts_lt(t, p.1) { Some(((es.len() - 1) as int, t)) } else { prev },
                    None => Some(((es.len() - 1) as int, t)),
                }
            } else {
                prev
            },
            None => prev,
        }
    }
}

/// The index of the entry that one eviction step removes.
pub open spec fn victim(es: Seq<MemoryEntryView>, policy: MemoryEvictionPolicy, now: Timestamp) -> int {
    match policy {
        MemoryEvictionPolicy::Fifo => first_min(eviction_keys(es, false, now)),
        MemoryEvictionPolicy::Lru => first_min(eviction_keys(es, true, now)),
        MemoryEvictionPolicy::Ttl { ttl_secs } => match ttl_pick(es, ttl_cutoff(now, ttl_secs)) {
            Some(p) => p.0,
            None => 0,
        },
    }
}

pub proof fn lemma_first_min_range(keys: Seq<Timestamp>)
    ensures
        keys.len() > 0 ==> 0 <= first_min(keys) < keys.len(),
        keys.len() == 0 ==> first_min(keys) == 0,
    decreases keys.len(),
{
    if keys.len() > 1 {
        lemma_first_min_range(keys.drop_last());
    }
}

pub proof fn lemma_ttl_pick_range(es: Seq<MemoryEntryView>, cutoff: Timestamp)
    ensures
        ttl_pick(es, cutoff) matches Some(p) ==> 0 <= p.0 < es.len() && spec_parse_rfc3339(es[p.0].updated_at) == Some(p.1),
    decreases es.len(),
{
    if es.len() > 0 {
        lemma_ttl_pick_range(es.drop_last(), cutoff);
        if let Some(p) = ttl_pick(es.drop_last(), cutoff) {
            assert(es.drop_last()[p.0] == es[p.0]);
        }
    }
}

pub proof fn lemma_victim_range(es: Seq<MemoryEntryView>, policy: MemoryEvictionPolicy, now: Timestamp)
    requires
        es.len() > 0,
    ensures
        0 <= victim(es, policy, now) < es.len(),
{
    match policy {
        MemoryEvictionPolicy::Fifo => lemma_first_min_range(eviction_keys(es, false, now)),
        MemoryEvictionPolicy::Lru => lemma_first_min_range(eviction_keys(es, true, now)),
        MemoryEvictionPolicy::Ttl { ttl_secs } => lemma_ttl_pick_range(es, ttl_cutoff(now, ttl_secs)),
    }
}

/// The entries exceed the quota.
pub open spec fn over_quota(es: Seq<MemoryEntryView>, policy: MemoryPolicy) -> bool {
    es.len() > policy.max_entries || total_size(es) > policy.max_bytes_total
}

/// Repeated eviction: while over quota and not empty, the victim is removed.
/// Returns the remaining entries and the removed keys in removal order.
pub open spec fn evict(es: Seq<MemoryEntryView>, policy: MemoryPolicy, now: Timestamp) -> (Seq<MemoryEntryView>, Seq<Seq<char>>)
    decreases es.len(),
{
    if !over_quota(es, policy) || es.len() == 0 {
        (es, Seq::empty())
    } else {
        let i = victim(es, policy.eviction, now);
        proof {
            lemma_victim_range(es, policy.eviction, now);
        }
        let rest = evict(es.remove(i), policy, now);
        (rest.0, seq![es[i].key] + rest.1)
    }
}

pub proof fn lemma_total_size_concat(a: Seq<MemoryEntryView>, b: Seq<MemoryEntryView>)
    ensures
        total_size(a + b) == total_size(a) + total_size(b),
    decreases b.len(),
{
    if b.len() == 0 {
        assert(a + b =~= a);
    } else {
        assert((a + b).drop_last() =~= a + b.drop_last());
        lemma_total_size_concat(a, b.drop_last());
    }
}

pub proof fn lemma_total_size_remove(es: Seq<MemoryEntryView>, i: int)
    requires
        0 <= i < es.len(),
    ensures
        total_size(es.remove(i)) + entry_size(es[i]) == total_size(es),
{
    assert(es =~= es.take(i) + (seq![es[i]] + es.skip(i + 1)));
    assert(es.remove(i) =~= es.take(i) + es.skip(i + 1));
    lemma_total_size_concat(es.take(i), seq![es[i]] + es.skip(i + 1));
    lemma_total_size_concat(seq![es[i]], es.skip(i + 1));
    lemma_total_size_concat(es.take(i), es.skip(i + 1));
    let one = seq![es[i]];
    assert(one.drop_last() =~= Seq::<MemoryEntryView>::empty());
    assert(total_size(one) == total_size(one.drop_last()) + entry_size(one.last()));
}

pub proof fn lemma_evict_shrinks(es: Seq<MemoryEntryView>, policy: MemoryPolicy, now: Timestamp)
    ensures
        total_size(evict(es, policy, now).0) <= total_size(es),
        evict(es, policy, now).0.len() + evict(es, policy, now).1.len() == es.len(),
    decreases es.len(),
{
    if over_quota(es, policy) && es.len() > 0 {
        let i = victim(es, policy.eviction, now);
        lemma_victim_range(es, policy.eviction, now);
        lemma_total_size_remove(es, i);
        lemma_evict_shrinks(es.remove(i), policy, now);
    }
}

fn eviction_key_of(e: &MemoryEntry, lru: bool, now: Timestamp) -> (r: Timestamp)
    ensures
        r == eviction_key(e@, lru, now),
{
    let t = if lru {
        parse_ts(e.last_accessed_at.as_str())
    } else {
        parse_ts(e.created_at.as_str())
    };
    match t {
        Some(x) => x,
        None => now,
    }
}

fn first_min_index(entries: &Vec<MemoryEntry>, lru: bool, now: Timestamp) -> (r: usize)
    requires
        entries@.len() > 0,
    ensures
        r == first_min(eviction_keys(entries_view(entries@), lru, now)),
{
    let ghost keys = eviction_keys(entries_view(entries@), lru, now);
    let mut m: usize = 0;
    let mut best = eviction_key_of(&entries[0], lru, now);
    let mut i: usize = 1;
    proof {
        assert(keys.take(1).len() == 1);
        assert(entries_view(entries@)[0] == entries@[0]@);
    }
    while i < entries.len()
        invariant
            1 <= i <= entries.len(),
            keys == eviction_keys(entries_view(entries@), lru, now),
            m == first_min(keys.take(i as int)),
            0 <= m < i,
            best == keys[m as int],
        decreases entries.len() - i,
    {
        let k = eviction_key_of(&entries[i], lru, now);
        proof {
            assert(entries_view(entries@)[i as int] == entries@[i as int]@);
            assert(keys.take(i + 1).drop_last() =~= keys.take(i as int));
            assert(keys.take(i + 1).last() == keys[i as int]);
            assert(keys.take(i as int)[m as int] == keys[m as int]);
        }
        if ts_less(k, best) {
            m = i;
            best = k;
        }
        i = i + 1;
    }
    assert(keys.take(i as int) =~= keys);
    m
}

fn ttl_pick_index(entries: &Vec<MemoryEntry>, cutoff: Timestamp) -> (r: Option<usize>)
    ensures
        r is Some == ttl_pick(entries_view(entries@), cutoff) is Some,
        r matches Some(i) ==> i as int == ttl_pick(entries_view(entries@), cutoff).unwrap().0,
{
    let ghost ev = entries_view(entries@);
    let mut best: Option<(usize, Timestamp)> = None;
    let mut i: usize = 0;
    while i < entries.len()
        invariant
            i <= entries.len(),
            ev == entries_view(entries@),
            (match ttl_pick(ev.take(i as int), cutoff) {
                Some(p) => best matches Some(b) && b.0 as int == p.0 && b.1 == p.1,
                None => best is None,
            }),
            best matches Some(b) ==> b.0 < i,
        decreases entries.len() - i,
    {
        proof {
            assert(ev.take(i + 1).drop_last() =~= ev.take(i as int));
            assert(ev[i as int] == entries@[i as int]@);
        }
        match parse_ts(entries[i].updated_at.as_str()) {
            Some(t) => {
                if ts_less(t, cutoff) {
                    match best {
                        Some(b) => {
                            if ts_less(t, b.1) {
                                best = Some((i, t));
                            }
                        },
                        None => {
                            best = Some((i, t));
                        },
                    }
                }
            },
            None => {},
        }
        i = i + 1;
    }
    assert(ev.take(i as int) =~= ev);
    match best {
        Some(b) => Some(b.0),
        None => None,
    }
}

fn ttl_cutoff_of(now: Timestamp, ttl_secs: u64) -> (r: Timestamp)
    requires
        ttl_cutoff_defined(now, ttl_secs),
    ensures
        r == ttl_cutoff(now, ttl_secs),
{
    let d: i128 = if ttl_secs <= 9223372036854775807u64 {
        ttl_secs as i128
    } else {
        ttl_secs as i128 - 18446744073709551616i128
    };
    let c = now.0 as i128 - d;
    (c as i64, now.1)
}

fn choose_victim(entries: &Vec<MemoryEntry>, policy: MemoryEvictionPolicy, now: Timestamp) -> (r: usize)
    requires
        entries@.len() > 0,
        policy matches MemoryEvictionPolicy::Ttl { ttl_secs } ==> ttl_cutoff_defined(now, ttl_secs),
    ensures
        r == victim(entries_view(entries@), policy, now),
{
    match policy {
        MemoryEvictionPolicy::Fifo => {
            first_min_index(entries, false, now)
        },
        MemoryEvictionPolicy::Lru => {
            first_min_index(entries, true, now)
        },
        MemoryEvictionPolicy::Ttl { ttl_secs } => {
            let cutoff = ttl_cutoff_of(now, ttl_secs);
            proof {
                lemma_ttl_pick_range(entries_view(entries@), cutoff);
            }
            let picked = ttl_pick_index(entries, cutoff);
            match picked {
                Some(i) => {
                    i
                },
                None => 0,
            }
        },
    }
}

/// `before - after`, saturating at zero.
pub open spec fn sat_sub(a: usize, b: usize) -> usize {
    if a >= b {
        (a - b) as usize
    } else {
        0
    }
}

/// The policy's eviction can be carried out at `now` without panicking.
pub open spec fn eviction_defined(policy: MemoryPolicy, now: Timestamp) -> bool {
    policy.eviction matches MemoryEvictionPolicy::Ttl { ttl_secs } ==> ttl_cutoff_defined(now, ttl_secs)
}

impl MemoryState {
    /// Evicts entries at time `now` until the quota holds: see [`evict`].
    pub fn evict_if_needed(&mut self, now: Timestamp) -> (r: MemoryEvictionReport)
        requires
            total_size(entries_view(old(self).entries@)) <= usize::MAX,
            eviction_defined(old(self).policy, now),
        ensures
            final(self).loaded == old(self).loaded,
            final(self).policy == old(self).policy,
            ({
                let res = evict(entries_view(old(self).entries@), old(self).policy, now);
                &&& entries_view(final(self).entries@) == res.0
                &&& strs_view(r.evicted_keys@) == res.1
            }),
            r.before_entries == old(self).entries@.len(),
            r.after_entries == final(self).entries@.len(),
            r.evicted == sat_sub(r.before_entries, r.after_entries),
            r.before_bytes_total == total_size(entries_view(old(self).entries@)),
            r.after_bytes_total == total_size(entries_view(final(self).entries@)),
    {
        let ghost ev0 = entries_view(self.entries@);
        let before_entries = self.entries.len();
        let before_bytes_total = bytes_total(&self.entries);
        let policy = self.policy;
        let mut evicted_keys: Vec<String> = Vec::new();
        let mut entries: Vec<MemoryEntry> = Vec::new();
        std::mem::swap(&mut entries, &mut self.entries);
        loop
            invariant
                policy == self.policy,
                eviction_defined(policy, now),
                total_size(entries_view(entries@)) <= usize::MAX,
                evict(entries_view(entries@), policy, now).0 == evict(ev0, policy, now).0,
                strs_view(evicted_keys@) + evict(entries_view(entries@), policy, now).1 == evict(ev0, policy, now).1,
            ensures
                total_size(entries_view(entries@)) <= usize::MAX,
                evict(entries_view(entries@), policy, now).0 == evict(ev0, policy, now).0,
                strs_view(evicted_keys@) + evict(entries_view(entries@), policy, now).1 == evict(ev0, policy, now).1,
                !over_quota(entries_view(entries@), policy) || entries@.len() == 0,
            decreases entries.len(),
        {
            let ghost ev = entries_view(entries@);
            let total = bytes_total(&entries);
            let over_entries = entries.len() > policy.max_entries;
            let over_bytes = total > policy.max_bytes_total;
            if !over_entries && !over_bytes {
                break;
            }
            if entries.len() == 0 {
                break;
            }
            let idx = choose_victim(&entries, policy.eviction, now);
            proof {
                lemma_victim_range(ev, policy.eviction, now);
                lemma_total_size_remove(ev, idx as int);
            }
            let removed = entries.remove(idx);
            assert(entries_view(entries@) =~= ev.remove(idx as int));
            assert(removed@ == ev[idx as int]);
            let ghost keys_before = strs_view(evicted_keys@);
            evicted_keys.push(removed.key);
            assert(strs_view(evicted_keys@) =~= keys_before.push(ev[idx as int].key));
            assert(keys_before.push(ev[idx as int].key) + evict(ev.remove(idx as int), policy, now).1 =~= keys_before + (seq![ev[idx as int].key] + evict(ev.remove(idx as int), policy, now).1));
        }
        proof {
            let ev = entries_view(entries@);
            assert(evict(ev, policy, now).1 =~= Seq::<Seq<char>>::empty());
            assert(strs_view(evicted_keys@) + Seq::<Seq<char>>::empty() =~= strs_view(evicted_keys@));
        }
        let after_entries = entries.len();
        let after_bytes_total = bytes_total(&entries);
        self.entries = entries;
        MemoryEvictionReport {
            before_entries,
            after_entries,
            evicted: if before_entries >= after_entries { before_entries - after_entries } else { 0 },
            evicted_keys,
            before_bytes_total,
            after_bytes_total,
        }
    }

    /// `put`: writes `entry` at time `now` (given both as RFC 3339 text and
    /// as an instant), then evicts until the quota holds. What this keeps
    /// of the keys, the overwritten entry and the quota is stated by
    /// `crate::memory::laws::law_put_with_eviction`.
    pub fn put(&mut self, entry: MemoryEntry, now_text: &str, now: Timestamp) -> (r: MemoryEvictionReport)
        requires
            total_size(after_put(entries_view(old(self).entries@), entry@, now_text@)) <= usize::MAX,
            eviction_defined(old(self).policy, now),
        ensures
            final(self).loaded == old(self).loaded,
            final(self).policy == old(self).policy,
            entries_view(final(self).entries@) == evict(after_put(entries_view(old(self).entries@), entry@, now_text@), old(self).policy, now).0,
            strs_view(r.evicted_keys@) == evict(after_put(entries_view(old(self).entries@), entry@, now_text@), old(self).policy, now).1,
    {
        self.put_without_eviction(entry, now_text);
        self.evict_if_needed(now)
    }
}


// ----- AGENTS.md rendering -----

/// The block of one entry: active entries only, as a level-two heading with
/// the key followed by the trimmed value.
pub open spec fn agents_md_entry(e: MemoryEntryView) -> Seq<char> {
    if e.status == MemoryStatus::Active {
        "## "@ + e.key + "\n"@ + trim(e.value) + "\n\n"@
    } else {
        Seq::empty()
    }
}

pub open spec fn agents_md_body(es: Seq<MemoryEntryView>) -> Seq<char>
    decreases es.len(),
{
    if es.len() == 0 {
        Seq::empty()
    } else {
        agents_md_body(es.drop_last()) + agents_md_entry(es.last())
    }
}

/// The AGENTS.md section generated from the entries.
pub open spec fn agents_md(es: Seq<MemoryEntryView>) -> Seq<char> {
    "<auto_generated_memory_v1>\n"@ + "This section is generated from memory_store.json.\n\n"@
        + agents_md_body(es) + "</auto_generated_memory_v1>\n"@
}

/// Renders the entries as the generated AGENTS.md section.
pub fn render_agents_md_v1(entries: &Vec<MemoryEntry>) -> (r: String)
    ensures
        r@ == agents_md(entries_view(entries@)),
{
    let ghost ev = entries_view(entries@);
    let mut buf = String::new();
    push_str(&mut buf, "<auto_generated_memory_v1>\n");
    push_str(&mut buf, "This section is generated from memory_store.json.\n\n");
    let ghost head = buf@;
    let mut i: usize = 0;
    while i < entries.len()
        invariant
            i <= entries.len(),
            ev == entries_view(entries@),
            buf@ == head + agents_md_body(ev.take(i as int)),
        decreases entries.len() - i,
    {
        proof {
            assert(ev.take(i + 1).drop_last() =~= ev.take(i as int));
            assert(ev[i as int] == entries@[i as int]@);
        }
        let e = &entries[i];
        let ghost before = buf@;
        if e.status == MemoryStatus::Active {
            push_str(&mut buf, "## ");
            push_str(&mut buf, e.key.as_str());
            push_str(&mut buf, "\n");
            let v = str_trim(e.value.as_str());
            push_str(&mut buf, v.as_str());
            push_str(&mut buf, "\n\n");
            assert(buf@ =~= before + agents_md_entry(ev[i as int]));
        } else {
            assert(agents_md_entry(ev[i as int]) =~= Seq::<char>::empty());
            assert(buf@ =~= before + agents_md_entry(ev[i as int]));
        }
        i = i + 1;
    }
    assert(ev.take(i as int) =~= ev);
    push_str(&mut buf, "</auto_generated_memory_v1>\n");
    buf
}

// ----- the store -----

/// `Path::parent`, as text.
pub uninterp spec fn spec_path_parent(p: Seq<char>) -> Option<Seq<char>>;

/// `Path::join`, as text.
pub uninterp spec fn spec_path_join(base: Seq<char>, name: Seq<char>) -> Seq<char>;

/// `std::path::Path::parent` on a UTF-8 path.
///
/// Trusted: the result is the parent path that std computes, named by
/// `spec_path_parent`.
#[verifier::external_body]
pub fn path_parent(p: &str) -> (r: Option<String>)
    ensures
        opt_view(r) == spec_path_parent(p@),
{
    std::path::Path::new(p).parent().map(|q| q.to_string_lossy().into_owned())
}

/// `std::path::Path::join` of two UTF-8 paths.
///
/// Trusted: the result is the joined path that std computes, named by
/// `spec_path_join`.
#[verifier::external_body]
pub fn path_join(base: &str, name: &str) -> (r: String)
    ensures
        r@ == spec_path_join(base@, name@),
{
    std::path::Path::new(base).join(name).to_string_lossy().into_owned()
}

/// The default AGENTS.md path: `AGENTS.md` in the directory of the store
/// file (or in `.` when the path has no parent).
pub open spec fn default_agents_md_path(path: Seq<char>) -> Seq<char> {
    let dir = match spec_path_parent(path) {
        Some(d) => d,
        None => "."@,
    };
    spec_path_join(dir, "AGENTS.md"@)
}

/// The file-backed memory store: its name and paths, its default policy and
/// its in-memory state. Loading and flushing the file is done by the
/// caller; every change to the entries goes through [`MemoryState`].
#[derive(Debug)]
pub struct FileMemoryStore {
    /// The store's name.
    pub name: String,
    /// The persisted file.
    pub path: String,
    /// The generated AGENTS.md.
    pub agents_md_path: String,
    /// Policy used when the file does not exist yet.
    pub default_policy: MemoryPolicy,
    /// The in-memory state.
    pub state: MemoryState,
}

impl FileMemoryStore {
    /// A store backed by the file `path`, with AGENTS.md beside it, the
    /// default policy and an unloaded empty state.
    pub fn new(path: &str) -> (r: Self)
        ensures
            r.name@ == "file"@,
            r.path@ == path@,
            r.agents_md_path@ == default_agents_md_path(path@),
            r.default_policy == MemoryPolicy::default_spec(),
            !r.state.loaded,
            r.state.policy == MemoryPolicy::default_spec(),
            r.state.entries@.len() == 0,
    {
        let dir = match path_parent(path) {
            Some(d) => d,
            None => owned("."),
        };
        let agents_md_path = path_join(dir.as_str(), "AGENTS.md");
        let default_policy = MemoryPolicy::default();
        FileMemoryStore {
            name: owned("file"),
            path: owned(path),
            agents_md_path,
            default_policy,
            state: MemoryState::new(default_policy),
        }
    }

    /// Sets the default policy.
    pub fn with_policy(self, policy: MemoryPolicy) -> (r: Self)
        ensures
            r == (FileMemoryStore { default_policy: policy, ..self }),
    {
        let mut s = self;
        s.default_policy = policy;
        s
    }

    /// Sets the AGENTS.md path.
    pub fn with_agents_md_path(self, path: &str) -> (r: Self)
        ensures
            r.agents_md_path@ == path@,
            r.name == self.name,
            r.path == self.path,
            r.default_policy == self.default_policy,
            r.state == self.state,
    {
        let mut s = self;
        s.agents_md_path = owned(path);
        s
    }

    /// The store's name.
    pub fn name(&self) -> (r: &str)
        ensures
            r@ == self.name@,
    {
        self.name.as_str()
    }

    /// The path of the persisted file.
    pub fn store_path(&self) -> (r: &str)
        ensures
            r@ == self.path@,
    {
        self.path.as_str()
    }

    /// The path of the generated AGENTS.md.
    pub fn agents_md_path(&self) -> (r: &str)
        ensures
            r@ == self.agents_md_path@,
    {
        self.agents_md_path.as_str()
    }

    /// The default policy.
    pub fn policy(&self) -> (r: MemoryPolicy)
        ensures
            r == self.default_policy,
    {
        self.default_policy
    }
}

} // verus!
