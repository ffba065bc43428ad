//! Data model of the memory subsystem: scopes, entries, queries, quota
//! policies, reports and the error model.
use vstd::prelude::*;

use crate::str_map::StrMap;
use crate::text::{owned, push_str, str_eq};

verus! {

/// Durable memory visibility scope.
#[derive(Debug, Clone, Copy, PartialEq, Eq, Structural)]
pub enum MemoryScope {
    /// Private user memory shared across that user's channels.
    User,
    /// Thread-local memory isolated to one conversation thread.
    Thread,
    /// Workspace-shared memory visible to matching workspace members.
    Workspace,
    /// Optional agent/system-owned memory.
    System,
}

impl Default for MemoryScope {
    fn default() -> (r: Self)
        ensures
            r == MemoryScope::User,
    {
        MemoryScope::User
    }
}

/// Durable memory classification used by retrieval filtering.
#[derive(Debug, Clone, Copy, PartialEq, Eq, Structural)]
pub enum MemoryType {
    /// Stable factual knowledge.
    Semantic,
    /// Reusable instruction or preference.
    Procedural,
    /// One-off event or observation.
    Episodic,
    /// Explicitly pinned memory.
    Pinned,
    /// Profile-style identity or preference record.
    Profile,
}

impl Default for MemoryType {
    fn default() -> (r: Self)
        ensures
            r == MemoryType::Semantic,
    {
        MemoryType::Semantic
    }
}

/// Lifecycle state of one memory record.
#[derive(Debug, Clone, Copy, PartialEq, Eq, Structural)]
pub enum MemoryStatus {
    /// Visible durable memory.
    Active,
    /// Soft-deleted memory preserved for audit/query flows.
    Deleted,
    /// Non-deleted but inactive memory retained for lifecycle transitions.
    Inactive,
}

impl Default for MemoryStatus {
    fn default() -> (r: Self)
        ensures
            r == MemoryStatus::Active,
    {
        MemoryStatus::Active
    }
}

/// Which entries are removed first when the store is over quota.
///
/// - `Lru`: the least recently accessed entry (`last_accessed_at`)
/// - `Fifo`: the oldest entry (`created_at`)
/// - `Ttl`: the oldest entry updated before `now - ttl_secs`
#[derive(Debug, Clone, Copy, PartialEq, Eq, Structural)]
pub enum MemoryEvictionPolicy {
    Lru,
    Fifo,
    Ttl { ttl_secs: u64 },
}

/// Store quota: entry count and estimated byte budget, and the eviction order.
#[derive(Debug, Clone, Copy, PartialEq, Eq, Structural)]
pub struct MemoryPolicy {
    /// Maximum number of entries kept.
    pub max_entries: usize,
    /// Maximum estimated total bytes kept.
    pub max_bytes_total: usize,
    /// Eviction order used when over quota.
    pub eviction: MemoryEvictionPolicy,
}

impl MemoryPolicy {
    /// The default policy: 200 entries, 200 000 bytes, LRU eviction.
    pub open spec fn default_spec() -> MemoryPolicy {
        MemoryPolicy { max_entries: 200, max_bytes_total: 200_000, eviction: MemoryEvictionPolicy::Lru }
    }
}

impl Default for MemoryPolicy {
    fn default() -> (r: Self)
        ensures
            r == MemoryPolicy::default_spec(),
    {
        MemoryPolicy { max_entries: 200, max_bytes_total: 200_000, eviction: MemoryEvictionPolicy::Lru }
    }
}

/// One durable memory record. Timestamps are RFC 3339 strings.
#[derive(Debug)]
pub struct MemoryEntry {
    /// Unique key; a `put` with an existing key updates that entry.
    pub key: String,
    /// Record content.
    pub value: String,
    /// Optional human-readable title.
    pub title: Option<String>,
    /// Visibility scope.
    pub scope: MemoryScope,
    /// Scope identifier, such as a thread id.
    pub scope_id: Option<String>,
    /// Memory classification.
    pub memory_type: MemoryType,
    /// Explicitly pinned.
    pub pinned: bool,
    /// Lifecycle state.
    pub status: MemoryStatus,
    /// Confidence, by convention in `0..=100`.
    pub confidence: Option<i64>,
    /// Salience, by convention in `0..=100`.
    pub salience: Option<i64>,
    /// Older key superseded by this entry.
    pub supersedes: Option<String>,
    /// Owner of a user-scoped entry.
    pub owner_user_id: Option<String>,
    /// Owner of a workspace-scoped entry.
    pub owner_workspace_id: Option<String>,
    /// Channel account of the last write.
    pub owner_channel_account_id: Option<String>,
    /// Tags.
    pub tags: Vec<String>,
    /// Creation time.
    pub created_at: String,
    /// Last content update time.
    pub updated_at: String,
    /// Last read time.
    pub last_accessed_at: String,
    /// Number of reads and writes.
    pub access_count: u64,
}

/// The value of an optional string.
pub open spec fn opt_view(o: Option<String>) -> Option<Seq<char>> {
    match o {
        Some(s) => Some(s@),
        None => None,
    }
}

/// The values of a list of strings.
pub open spec fn strs_view(v: Seq<String>) -> Seq<Seq<char>> {
    v.map_values(|s: String| s@)
}

/// Mathematical value of a memory entry.
pub struct MemoryEntryView {
    pub key: Seq<char>,
    pub value: Seq<char>,
    pub title: Option<Seq<char>>,
    pub scope: MemoryScope,
    pub scope_id: Option<Seq<char>>,
    pub memory_type: MemoryType,
    pub pinned: bool,
    pub status: MemoryStatus,
    pub confidence: Option<i64>,
    pub salience: Option<i64>,
    pub supersedes: Option<Seq<char>>,
    pub owner_user_id: Option<Seq<char>>,
    pub owner_workspace_id: Option<Seq<char>>,
    pub owner_channel_account_id: Option<Seq<char>>,
    pub tags: Seq<Seq<char>>,
    pub created_at: Seq<char>,
    pub updated_at: Seq<char>,
    pub last_accessed_at: Seq<char>,
    pub access_count: u64,
}

impl View for MemoryEntry {
    type V = MemoryEntryView;

    open spec fn view(&self) -> MemoryEntryView {
        MemoryEntryView {
            key: self.key@,
            value: self.value@,
            title: opt_view(self.title),
            scope: self.scope,
            scope_id: opt_view(self.scope_id),
            memory_type: self.memory_type,
            pinned: self.pinned,
            status: self.status,
            confidence: self.confidence,
            salience: self.salience,
            supersedes: opt_view(self.supersedes),
            owner_user_id: opt_view(self.owner_user_id),
            owner_workspace_id: opt_view(self.owner_workspace_id),
            owner_channel_account_id: opt_view(self.owner_channel_account_id),
            tags: strs_view(self.tags@),
            created_at: self.created_at@,
            updated_at: self.updated_at@,
            last_accessed_at: self.last_accessed_at@,
            access_count: self.access_count,
        }
    }
}

/// The values of a list of entries.
pub open spec fn entries_view(v: Seq<MemoryEntry>) -> Seq<MemoryEntryView> {
    v.map_values(|e: MemoryEntry| e@)
}

pub fn clone_opt_string(s: &Option<String>) -> (r: Option<String>)
    ensures
        r == *s,
{
    match s {
        Some(v) => Some(v.clone()),
        None => None,
    }
}

pub fn clone_strings(v: &Vec<String>) -> (r: Vec<String>)
    ensures
        r@ == v@,
{
    let mut out: Vec<String> = Vec::new();
    let mut i: usize = 0;
    while i < v.len()
        invariant
            i <= v.len(),
            out@ == v@.take(i as int),
        decreases v.len() - i,
    {
        out.push(v[i].clone());
        assert(v@.take(i + 1) =~= v@.take(i as int).push(v@[i as int]));
        i = i + 1;
    }
    assert(v@.take(v.len() as int) =~= v@);
    out
}

impl Clone for MemoryEntry {
    fn clone(&self) -> (r: Self)
        ensures
            r@ == self@,
    {
        let tags = clone_strings(&self.tags);
        assert(strs_view(tags@) =~= strs_view(self.tags@));
        MemoryEntry {
            key: self.key.clone(),
            value: self.value.clone(),
            title: clone_opt_string(&self.title),
            scope: self.scope,
            scope_id: clone_opt_string(&self.scope_id),
            memory_type: self.memory_type,
            pinned: self.pinned,
            status: self.status,
            confidence: self.confidence,
            salience: self.salience,
            supersedes: clone_opt_string(&self.supersedes),
            owner_user_id: clone_opt_string(&self.owner_user_id),
            owner_workspace_id: clone_opt_string(&self.owner_workspace_id),
            owner_channel_account_id: clone_opt_string(&self.owner_channel_account_id),
            tags,
            created_at: self.created_at.clone(),
            updated_at: self.updated_at.clone(),
            last_accessed_at: self.last_accessed_at.clone(),
            access_count: self.access_count,
        }
    }
}

impl MemoryEntry {
    /// A new active user-scoped semantic entry with empty timestamps, which
    /// a store fills in on `put`.
    pub fn new(key: &str, value: &str) -> (r: Self)
        ensures
            r.key@ == key@,
            r.value@ == value@,
            r.title is None,
            r.scope == MemoryScope::User,
            r.scope_id is None,
            r.memory_type == MemoryType::Semantic,
            !r.pinned,
            r.status == MemoryStatus::Active,
            r.confidence is None,
            r.salience is None,
            r.supersedes is None,
            r.owner_user_id is None,
            r.owner_workspace_id is None,
            r.owner_channel_account_id is None,
            r.tags@.len() == 0,
            r.created_at@.len() == 0,
            r.updated_at@.len() == 0,
            r.last_accessed_at@.len() == 0,
            r.access_count == 0,
    {
        MemoryEntry {
            key: owned(key),
            value: owned(value),
            title: None,
            scope: MemoryScope::User,
            scope_id: None,
            memory_type: MemoryType::Semantic,
            pinned: false,
            status: MemoryStatus::Active,
            confidence: None,
            salience: None,
            supersedes: None,
            owner_user_id: None,
            owner_workspace_id: None,
            owner_channel_account_id: None,
            tags: Vec::new(),
            created_at: String::new(),
            updated_at: String::new(),
            last_accessed_at: String::new(),
            access_count: 0,
        }
    }
}

/// Query filter. Every condition that is set must hold.
#[derive(Debug)]
pub struct MemoryQuery {
    /// Key prefix (`starts_with`).
    pub prefix: Option<String>,
    /// Exact tag.
    pub tag: Option<String>,
    /// Maximum number of entries returned (50 when unset).
    pub limit: Option<usize>,
    /// Scope filter.
    pub scope: Option<MemoryScope>,
    /// Scope id filter.
    pub scope_id: Option<String>,
    /// Memory type filter.
    pub memory_type: Option<MemoryType>,
    /// Pinned filter.
    pub pinned: Option<bool>,
    /// Status filter.
    pub status: Option<MemoryStatus>,
    /// Include inactive and deleted entries when `status` is unset.
    pub include_inactive: bool,
    /// Calling user.
    pub actor_user_id: Option<String>,
    /// Calling thread.
    pub actor_thread_id: Option<String>,
    /// Calling workspace.
    pub actor_workspace_id: Option<String>,
    /// Calling channel account.
    pub actor_channel_account_id: Option<String>,
}

impl Default for MemoryQuery {
    fn default() -> (r: Self)
        ensures
            r.prefix is None,
            r.tag is None,
            r.limit is None,
            r.scope is None,
            r.scope_id is None,
            r.memory_type is None,
            r.pinned is None,
            r.status is None,
            !r.include_inactive,
            r.actor_user_id is None,
            r.actor_thread_id is None,
            r.actor_workspace_id is None,
            r.actor_channel_account_id is None,
    {
        MemoryQuery {
            prefix: None,
            tag: None,
            limit: None,
            scope: None,
            scope_id: None,
            memory_type: None,
            pinned: None,
            status: None,
            include_inactive: false,
            actor_user_id: None,
            actor_thread_id: None,
            actor_workspace_id: None,
            actor_channel_account_id: None,
        }
    }
}

/// Statistics of one eviction pass.
#[derive(Debug, Clone, Default)]
pub struct MemoryEvictionReport {
    pub before_entries: usize,
    pub after_entries: usize,
    pub evicted: usize,
    pub evicted_keys: Vec<String>,
    pub before_bytes_total: usize,
    pub after_bytes_total: usize,
}

/// Summary of a memory load/injection pass.
#[derive(Debug, Clone, Default)]
pub struct MemoryDiagnostics {
    /// Sources loaded.
    pub loaded_sources: usize,
    /// Optional sources that did not exist.
    pub skipped_not_found: usize,
    /// Errors met, as text.
    pub errors: Vec<String>,
    /// Whether the injected text was truncated.
    pub truncated: bool,
    /// Characters written to the prompt.
    pub injected_chars: usize,
    /// Characters of the combined block.
    pub combined_chars: usize,
}

/// Stable error codes of the memory subsystem.
#[derive(Debug, Clone, Copy, PartialEq, Eq, Structural)]
pub enum MemoryErrorCode {
    NotFound,
    PermissionDenied,
    Corrupt,
    IoError,
    QuotaExceeded,
    InvalidRequest,
}

/// The displayed form of each error code.
pub open spec fn error_code_text(code: MemoryErrorCode) -> Seq<char> {
    match code {
        MemoryErrorCode::NotFound => "memory_not_found"@,
        MemoryErrorCode::PermissionDenied => "memory_permission_denied"@,
        MemoryErrorCode::Corrupt => "memory_corrupt"@,
        MemoryErrorCode::IoError => "memory_io_error"@,
        MemoryErrorCode::QuotaExceeded => "memory_quota_exceeded"@,
        MemoryErrorCode::InvalidRequest => "invalid_request"@,
    }
}

impl MemoryErrorCode {
    /// The stable text of the code, as it is displayed.
    pub fn as_str(&self) -> (r: &'static str)
        ensures
            r@ == error_code_text(*self),
    {
        match self {
            MemoryErrorCode::NotFound => "memory_not_found",
            MemoryErrorCode::PermissionDenied => "memory_permission_denied",
            MemoryErrorCode::Corrupt => "memory_corrupt",
            MemoryErrorCode::IoError => "memory_io_error",
            MemoryErrorCode::QuotaExceeded => "memory_quota_exceeded",
            MemoryErrorCode::InvalidRequest => "invalid_request",
        }
    }
}

/// Error of the memory subsystem: a stable code, a message, an optional
/// underlying cause and a key-value context.
#[derive(Debug)]
pub struct MemoryError {
    pub code: MemoryErrorCode,
    pub message: String,
    pub source: Option<anyhow::Error>,
    pub context: StrMap<String>,
}

impl MemoryError {
    /// An error with no cause and an empty context.
    pub fn new(code: MemoryErrorCode, message: &str) -> (r: Self)
        ensures
            r.code == code,
            r.message@ == message@,
            r.source is None,
            r.context.map() == Map::<Seq<char>, String>::empty(),
    {
        MemoryError { code, message: owned(message), source: None, context: StrMap::new() }
    }

    /// Attaches the underlying cause.
    pub fn with_source(self, source: anyhow::Error) -> (r: Self)
        ensures
            r.code == self.code,
            r.message == self.message,
            r.source == Some(source),
            r.context == self.context,
    {
        let mut s = self;
        s.source = Some(source);
        s
    }

    /// Sets the context value of key `k` to `v`.
    pub fn with_context(self, k: &str, v: &str) -> (r: Self)
        ensures
            r.code == self.code,
            r.message == self.message,
            r.source == self.source,
            r.context.map().dom() == self.context.map().dom().insert(k@),
            r.context.map()[k@]@ == v@,
            forall|x: Seq<char>| x != k@ && self.context.map().dom().contains(x) ==> r.context.map()[x] == self.context.map()[x],
    {
        let mut s = self;
        let value = owned(v);
        s.context.insert(owned(k), value);
        s
    }

    /// The error as text: its code, a colon and space, and its message.
    pub fn to_text(&self) -> (r: String)
        ensures
            r@ == error_code_text(self.code) + ": "@ + self.message@,
    {
        let mut r = owned(self.code.as_str());
        push_str(&mut r, ": ");
        push_str(&mut r, self.message.as_str());
        r
    }
}

/// `true` when the two optional strings are both absent or both equal.
pub fn opt_str_eq(a: &Option<String>, b: &Option<String>) -> (r: bool)
    ensures
        r == (match (a, b) {
            (Some(x), Some(y)) => x@ == y@,
            (None, None) => true,
            _ => false,
        }),
{
    match (a, b) {
        (Some(x), Some(y)) => str_eq(x.as_str(), y.as_str()),
        (None, None) => true,
        _ => false,
    }
}

} // verus!
