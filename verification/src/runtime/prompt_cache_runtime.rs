//! The decisions of a prompt-cached provider step: whether the cache takes
//! part, how its keys and partitions are formed, what the provider's own
//! cache must report, and the events that record each lookup.
use vstd::prelude::*;

use crate::json::{json_of_tree, tree_to_json, JsonTree};
use crate::provider::prompt_cache::{
    ProviderPromptCacheObservation, ProviderPromptCacheSource, ProviderPromptCacheStatus,
    ProviderPromptCacheStrategy,
};
use crate::provider::prompt_cache::{PromptPrefixArtifact, ProviderPromptCacheHint};
use crate::provider::protocol::AgentStep;
use crate::runtime::cache_store::{after_insert, keys_distinct, law_insert_then_lookup, position_of, MemoryCacheStore, SlotView};
use crate::runtime::provider_cache::{
    CacheBackend, CacheKeyComponents, CacheLevel, PromptCacheNativeMode, PromptCacheOptions, ProviderCacheEvent,
};
use crate::runtime::stable_hash::{stable_hash_of, stable_json_sha256_hex};
use crate::text::{decimal, owned, push_str, u64_to_decimal};

verus! {

/// Why a prompt-cached provider step failed.
#[derive(Debug)]
pub enum CachedProviderError {
    /// The provider failed.
    Provider(anyhow::Error),
    /// The provider did not answer in time.
    Timeout,
    /// The provider's own cache was required and is not there.
    PromptCache(anyhow::Error),
}

/// `anyhow::Error::msg`: an error whose message is the given text. Nothing
/// is stated of the error value, which Verus cannot open.
#[verifier::external_body]
fn error_from_message(message: String) -> anyhow::Error {
    anyhow::Error::msg(message)
}

impl CachedProviderError {
    /// A prompt cache failure with the given message.
    pub fn prompt_cache(message: String) -> (r: Self)
        ensures
            r is PromptCache,
    {
        CachedProviderError::PromptCache(error_from_message(message))
    }
}

/// The cache takes part in a step only when it is enabled on the memory
/// backend; otherwise the step goes straight to the provider.
pub open spec fn cache_applies(opts: PromptCacheOptions) -> bool {
    opts.enabled && opts.backend == CacheBackend::Memory
}

/// Whether the cache takes part in a step (see [`cache_applies`]).
pub fn prompt_cache_applies(opts: &PromptCacheOptions) -> (r: bool)
    ensures
        r == cache_applies(*opts),
{
    opts.enabled && matches!(opts.backend, CacheBackend::Memory)
}

pub open spec fn backend_text(b: CacheBackend) -> Seq<char> {
    match b {
        CacheBackend::Memory => "memory"@,
        CacheBackend::Disk => "disk"@,
        CacheBackend::Remote => "remote"@,
    }
}

/// The partition of the cache that a configuration uses:
/// `partition:backend:ttl_ms:max_entries`.
pub open spec fn partition_text(opts: PromptCacheOptions) -> Seq<char> {
    opts.partition@ + ":"@ + backend_text(opts.backend) + ":"@ + decimal(opts.ttl_ms as nat) + ":"@ + decimal(
        opts.max_entries as nat,
    )
}

/// The partition key of a configuration, so that caches of different
/// settings never share entries.
pub fn partition_key(opts: &PromptCacheOptions) -> (r: String)
    ensures
        r@ == partition_text(*opts),
{
    let mut r = opts.partition.clone();
    push_str(&mut r, ":");
    push_str(
        &mut r,
        match opts.backend {
            CacheBackend::Memory => "memory",
            CacheBackend::Disk => "disk",
            CacheBackend::Remote => "remote",
        },
    );
    push_str(&mut r, ":");
    let ttl = u64_to_decimal(opts.ttl_ms);
    push_str(&mut r, ttl.as_str());
    push_str(&mut r, ":");
    let max = u64_to_decimal(opts.max_entries as u64);
    push_str(&mut r, max.as_str());
    r
}

// ----- cache keys -----

/// `t` is a JSON object whose members are the given keys with string
/// values, in order.
pub open spec fn string_members(t: JsonTree, kvs: Seq<(Seq<char>, Seq<char>)>) -> bool {
    match t {
        JsonTree::Object(ms) => {
            &&& ms@.len() == kvs.len()
            &&& forall|i: int|
                0 <= i < kvs.len() ==> (#[trigger] ms@[i]).0@ == kvs[i].0 && (ms@[i].1 matches JsonTree::Str(s)
                    && s@ == kvs[i].1)
        },
        _ => false,
    }
}

fn pair_hash(k1: &str, v1: &String, k2: &str, v2: &String) -> (r: String)
    ensures
        exists|t: JsonTree| string_members(t, seq![(k1@, v1@), (k2@, v2@)]) && stable_hash_of(r@, #[trigger] json_of_tree(t)),
{
    let mut ms: Vec<(String, JsonTree)> = Vec::new();
    ms.push((owned(k1), JsonTree::Str(v1.clone())));
    ms.push((owned(k2), JsonTree::Str(v2.clone())));
    let t = JsonTree::Object(ms);
    assert(string_members(t, seq![(k1@, v1@), (k2@, v2@)]));
    let v = tree_to_json(&t);
    stable_json_sha256_hex(&v)
}

/// The provider-level key: the stable hash of the provider id, the model id
/// and the plan's first-level hash.
pub fn l0_hash_with_provider(opts: &PromptCacheOptions, plan_l0_hash: &String) -> (r: String)
    ensures
        exists|t: JsonTree|
            string_members(t, seq![("provider_id"@, opts.provider_id@), ("model_id"@, opts.model_id@), ("l0_hash"@, plan_l0_hash@)])
                && stable_hash_of(r@, #[trigger] json_of_tree(t)),
{
    let mut ms: Vec<(String, JsonTree)> = Vec::new();
    ms.push((owned("provider_id"), JsonTree::Str(opts.provider_id.clone())));
    ms.push((owned("model_id"), JsonTree::Str(opts.model_id.clone())));
    ms.push((owned("l0_hash"), JsonTree::Str(plan_l0_hash.clone())));
    let t = JsonTree::Object(ms);
    assert(string_members(
        t,
        seq![("provider_id"@, opts.provider_id@), ("model_id"@, opts.model_id@), ("l0_hash"@, plan_l0_hash@)],
    ));
    let v = tree_to_json(&t);
    stable_json_sha256_hex(&v)
}

/// The prefix key: the stable hash of the provider-level key and the
/// plan's prefix hash.
pub fn l1_hash_with_l0(l0_hash: &String, plan_l1_hash: &String) -> (r: String)
    ensures
        exists|t: JsonTree|
            string_members(t, seq![("l0_hash"@, l0_hash@), ("l1_hash"@, plan_l1_hash@)]) && stable_hash_of(
                r@,
                #[trigger] json_of_tree(t),
            ),
{
    pair_hash("l0_hash", l0_hash, "l1_hash", plan_l1_hash)
}

/// The request key: the stable hash of the prefix key and the plan's
/// request hash.
pub fn l2_hash_with_l1(l1_hash: &String, plan_l2_hash: &String) -> (r: String)
    ensures
        exists|t: JsonTree|
            string_members(t, seq![("l1_hash"@, l1_hash@), ("l2_hash"@, plan_l2_hash@)]) && stable_hash_of(
                r@,
                #[trigger] json_of_tree(t),
            ),
{
    pair_hash("l1_hash", l1_hash, "l2_hash", plan_l2_hash)
}

// ----- the provider's own cache -----

pub open spec fn no_native_strategy_message() -> Seq<char> {
    "prompt_cache_native_required_but_provider_has_no_native_strategy"@
}

pub open spec fn no_native_observation_message() -> Seq<char> {
    "prompt_cache_native_required_but_provider_did_not_observe_native_cache"@
}

/// Before the call: a required native cache with a provider that has no
/// caching strategy fails, with this message.
pub fn native_strategy_failure(opts: &PromptCacheOptions, strategy: ProviderPromptCacheStrategy) -> (r: Option<String>)
    ensures
        match r {
            Some(m) => opts.native == PromptCacheNativeMode::Required && strategy
                == ProviderPromptCacheStrategy::NoCache && m@ == no_native_strategy_message(),
            None => !(opts.native == PromptCacheNativeMode::Required && strategy == ProviderPromptCacheStrategy::NoCache),
        },
{
    if matches!(opts.native, PromptCacheNativeMode::Required) && matches!(strategy, ProviderPromptCacheStrategy::NoCache) {
        Some(owned("prompt_cache_native_required_but_provider_has_no_native_strategy"))
    } else {
        None
    }
}

/// What stands for the provider's report when it gives none: with the
/// native cache off, nothing; otherwise the local cache, the plan's
/// strategy, unsupported.
pub fn fallback_provider_observation(opts: &PromptCacheOptions, strategy: ProviderPromptCacheStrategy) -> (r: Option<
    ProviderPromptCacheObservation,
>)
    ensures
        opts.native == PromptCacheNativeMode::Off ==> r is None,
        opts.native != PromptCacheNativeMode::Off ==> (r matches Some(o) && o.cache_source
            == ProviderPromptCacheSource::Local && o.provider_strategy == strategy && o.provider_cache_status
            == ProviderPromptCacheStatus::Unsupported && o.provider_handle_hash is None && o.provider_handle is None),
{
    if matches!(opts.native, PromptCacheNativeMode::Off) {
        return None;
    }
    Some(
        ProviderPromptCacheObservation {
            cache_source: ProviderPromptCacheSource::Local,
            provider_strategy: strategy,
            provider_cache_status: ProviderPromptCacheStatus::Unsupported,
            provider_handle_hash: None,
            provider_handle: None,
        },
    )
}

/// The native cache was observed working: a report that is not
/// "unsupported".
pub open spec fn observed_native(observation: Option<ProviderPromptCacheObservation>) -> bool {
    observation matches Some(o) && o.provider_cache_status != ProviderPromptCacheStatus::Unsupported
}

/// After the call: a required native cache that the (possibly fallback)
/// report does not show working fails, with this message.
pub fn native_observation_failure(
    opts: &PromptCacheOptions,
    observation: &Option<ProviderPromptCacheObservation>,
) -> (r: Option<String>)
    ensures
        match r {
            Some(m) => opts.native == PromptCacheNativeMode::Required && !observed_native(*observation) && m@
                == no_native_observation_message(),
            None => !(opts.native == PromptCacheNativeMode::Required && !observed_native(*observation)),
        },
{
    if !matches!(opts.native, PromptCacheNativeMode::Required) {
        return None;
    }
    let supported = match observation {
        Some(o) => !matches!(o.provider_cache_status, ProviderPromptCacheStatus::Unsupported),
        None => false,
    };
    if supported {
        None
    } else {
        Some(owned("prompt_cache_native_required_but_provider_did_not_observe_native_cache"))
    }
}

/// A response is kept in the response cache unless it is an error step.
pub fn cacheable_step(step: &AgentStep) -> (r: bool)
    ensures
        r == !(step is Error),
{
    !matches!(step, AgentStep::Error { .. })
}

// ----- events -----

/// The provider-side fields of an event.
pub struct EventFields {
    pub cache_source: Option<ProviderPromptCacheSource>,
    pub provider_strategy: Option<ProviderPromptCacheStrategy>,
    pub provider_cache_status: Option<ProviderPromptCacheStatus>,
    pub provider_handle_hash: Option<String>,
}

/// The fields taken from a report: its source, strategy and status, and
/// its handle hash (the stated one, else the hash of its handle).
pub open spec fn fields_from_observation(f: EventFields, o: ProviderPromptCacheObservation) -> bool {
    &&& f.cache_source == Some(o.cache_source)
    &&& f.provider_strategy == Some(o.provider_strategy)
    &&& f.provider_cache_status == Some(o.provider_cache_status)
    &&& match o.provider_handle_hash {
        Some(h) => f.provider_handle_hash matches Some(x) && x@ == h@,
        None => match o.provider_handle {
            Some(handle) => f.provider_handle_hash matches Some(x) && stable_hash_of(x@, handle.payload),
            None => f.provider_handle_hash is None,
        },
    }
}

/// The provider-side fields of an event: from the report when there is
/// one; else the local cache (for a local event) with the default strategy.
pub fn event_fields(
    observation: &Option<ProviderPromptCacheObservation>,
    local: bool,
    default_strategy: Option<ProviderPromptCacheStrategy>,
) -> (r: EventFields)
    ensures
        match *observation {
            Some(o) => fields_from_observation(r, o),
            None => {
                &&& r.cache_source == (if local { Some(ProviderPromptCacheSource::Local) } else { None })
                &&& r.provider_strategy == default_strategy
                &&& r.provider_cache_status is None
                &&& r.provider_handle_hash is None
            },
        },
{
    match observation {
        Some(o) => {
            let provider_handle_hash = match &o.provider_handle_hash {
                Some(h) => Some(h.clone()),
                None => match &o.provider_handle {
                    Some(handle) => Some(handle.hash()),
                    None => None,
                },
            };
            EventFields {
                cache_source: Some(o.cache_source),
                provider_strategy: Some(o.provider_strategy),
                provider_cache_status: Some(o.provider_cache_status),
                provider_handle_hash,
            }
        },
        None => EventFields {
            cache_source: if local { Some(ProviderPromptCacheSource::Local) } else { None },
            provider_strategy: default_strategy,
            provider_cache_status: None,
            provider_handle_hash: None,
        },
    }
}

/// An event records its level, key, components, provider-side fields and
/// the lookup outcome; `expired` appears only when true.
pub open spec fn event_is(
    e: ProviderCacheEvent,
    opts: PromptCacheOptions,
    level: CacheLevel,
    key: Seq<char>,
    l0: Seq<char>,
    l1: Seq<char>,
    l2: Option<Seq<char>>,
    lookup_hit: bool,
    inserted: Option<bool>,
    evicted: Option<u64>,
    expired: bool,
) -> bool {
    match e {
        ProviderCacheEvent::ProviderCache {
            cache_backend,
            cache_level,
            lookup_hit: hit,
            cache_key_hash,
            components,
            inserted: ins,
            evicted: ev,
            expired: exp,
            ..
        } => {
            &&& cache_backend == opts.backend
            &&& cache_level == level
            &&& hit == lookup_hit
            &&& cache_key_hash@ == key
            &&& components.l0_hash@ == l0
            &&& components.l1_hash@ == l1
            &&& match l2 {
                Some(h) => components.l2_hash matches Some(x) && x@ == h,
                None => components.l2_hash is None,
            }
            &&& ins == inserted
            &&& ev == evicted
            &&& exp == (if expired { Some(true) } else { None::<bool> })
        },
    }
}

/// The provider-side fields of an event are `f`.
pub open spec fn event_has_fields(e: ProviderCacheEvent, f: EventFields) -> bool {
    match e {
        ProviderCacheEvent::ProviderCache {
            cache_source,
            provider_strategy,
            provider_cache_status,
            provider_handle_hash,
            ..
        } => {
            &&& cache_source == f.cache_source
            &&& provider_strategy == f.provider_strategy
            &&& provider_cache_status == f.provider_cache_status
            &&& provider_handle_hash == f.provider_handle_hash
        },
    }
}

/// The event of a prefix (L1) lookup, keyed by the prefix key. The
/// provider-side fields are those of the report, or the local cache with
/// the plan's strategy.
pub fn l1_cache_event(
    opts: &PromptCacheOptions,
    strategy: ProviderPromptCacheStrategy,
    l0_hash: &String,
    l1_hash: &String,
    lookup_hit: bool,
    inserted: Option<bool>,
    evicted: Option<u64>,
    expired: bool,
    observation: &Option<ProviderPromptCacheObservation>,
) -> (r: ProviderCacheEvent)
    ensures
        event_is(r, *opts, CacheLevel::L1, l1_hash@, l0_hash@, l1_hash@, None, lookup_hit, inserted, evicted, expired),
        exists|f: EventFields|
            event_has_fields(r, f) && match *observation {
                Some(o) => fields_from_observation(f, o),
                None => f.cache_source == Some(ProviderPromptCacheSource::Local) && f.provider_strategy == Some(strategy)
                    && f.provider_cache_status is None && f.provider_handle_hash is None,
            },
{
    let f = event_fields(observation, true, Some(strategy));
    let ghost g = f;
    let e = ProviderCacheEvent::ProviderCache {
        cache_backend: opts.backend,
        cache_level: CacheLevel::L1,
        lookup_hit,
        cache_key_hash: l1_hash.clone(),
        components: CacheKeyComponents { l0_hash: l0_hash.clone(), l1_hash: l1_hash.clone(), l2_hash: None },
        cache_source: f.cache_source,
        provider_strategy: f.provider_strategy,
        provider_cache_status: f.provider_cache_status,
        provider_handle_hash: f.provider_handle_hash,
        inserted,
        evicted,
        expired: if expired { Some(true) } else { None },
    };
    assert(event_has_fields(e, g));
    e
}

/// The event of a response (L2) lookup, keyed by the request key. A hit is
/// not a local answer of the provider: its provider-side fields come from
/// the report only; a miss falls back to the local cache with the plan's
/// strategy.
pub fn l2_cache_event(
    opts: &PromptCacheOptions,
    strategy: ProviderPromptCacheStrategy,
    l0_hash: &String,
    l1_hash: &String,
    l2_hash: &String,
    lookup_hit: bool,
    inserted: Option<bool>,
    evicted: Option<u64>,
    expired: bool,
    observation: &Option<ProviderPromptCacheObservation>,
) -> (r: ProviderCacheEvent)
    ensures
        event_is(r, *opts, CacheLevel::L2, l2_hash@, l0_hash@, l1_hash@, Some(l2_hash@), lookup_hit, inserted, evicted, expired),
        exists|f: EventFields|
            event_has_fields(r, f) && match *observation {
                Some(o) => fields_from_observation(f, o),
                None => f.cache_source == (if lookup_hit { None } else { Some(ProviderPromptCacheSource::Local) })
                    && f.provider_strategy == Some(strategy) && f.provider_cache_status is None
                    && f.provider_handle_hash is None,
            },
{
    let f = event_fields(observation, !lookup_hit, Some(strategy));
    let ghost g = f;
    let e = ProviderCacheEvent::ProviderCache {
        cache_backend: opts.backend,
        cache_level: CacheLevel::L2,
        lookup_hit,
        cache_key_hash: l2_hash.clone(),
        components: CacheKeyComponents {
            l0_hash: l0_hash.clone(),
            l1_hash: l1_hash.clone(),
            l2_hash: Some(l2_hash.clone()),
        },
        cache_source: f.cache_source,
        provider_strategy: f.provider_strategy,
        provider_cache_status: f.provider_cache_status,
        provider_handle_hash: f.provider_handle_hash,
        inserted,
        evicted,
        expired: if expired { Some(true) } else { None },
    };
    assert(event_has_fields(e, g));
    e
}

// ----- the cached step: decisions around the provider call -----

/// The two caches of one partition of settings: prefix artifacts (L1) and
/// responses (L2).
pub struct PromptCachePartition<V> {
    pub l1: MemoryCacheStore<PromptPrefixArtifact>,
    pub l2: MemoryCacheStore<V>,
}

impl<V> PromptCachePartition<V> {
    /// Empty caches with the settings' lifetime and size, each at least one.
    pub fn new(opts: &PromptCacheOptions) -> (r: Self)
        ensures
            r.l1.slots().len() == 0,
            r.l2.slots().len() == 0,
            r.l1.ttl() == (if opts.ttl_ms < 1 { 1 } else { opts.ttl_ms }),
            r.l2.ttl() == (if opts.ttl_ms < 1 { 1 } else { opts.ttl_ms }),
            r.l1.max_entries() == (if opts.max_entries < 1 { 1 } else { opts.max_entries as nat }),
            r.l2.max_entries() == (if opts.max_entries < 1 { 1 } else { opts.max_entries as nat }),
    {
        let ttl = if opts.ttl_ms < 1 { 1 } else { opts.ttl_ms };
        let max = if opts.max_entries < 1 { 1 } else { opts.max_entries };
        PromptCachePartition { l1: MemoryCacheStore::new(ttl, max), l2: MemoryCacheStore::new(ttl, max) }
    }
}

/// The keys of one step: provider level, prefix, request.
pub struct CacheKeys {
    pub l0: String,
    pub l1: String,
    pub l2: String,
}

/// What the lookups before the call found, for the events after it.
pub struct PendingCacheStep {
    pub l1_hit: bool,
    pub l1_inserted: Option<bool>,
    pub l1_evicted: Option<u64>,
    pub l1_expired: bool,
    pub l2_expired: bool,
}

/// What to do after the lookups.
pub enum CachedStepStart<V> {
    /// The cache takes no part: call the provider directly.
    PassThrough,
    /// The step fails before the call, with this message.
    Failed(String),
    /// The cached response answers the step.
    Cached(V),
    /// Call the provider, with the hint when there is one.
    Call(Option<ProviderPromptCacheHint>, PendingCacheStep),
}

/// The slot of `key` is there and still live at `now`.
pub open spec fn live_at<V>(s: Seq<SlotView<V>>, key: Seq<char>, now: u64) -> bool {
    position_of(s, key) matches Some(i) && now < s[i].expires_at
}

/// The slot of `key` is there but its time has run out at `now`.
pub open spec fn expired_at<V>(s: Seq<SlotView<V>>, key: Seq<char>, now: u64) -> bool {
    position_of(s, key) matches Some(i) && now >= s[i].expires_at
}

/// The event at `k` of `evs` is the prefix lookup event of a step.
pub open spec fn l1_event_at(evs: Seq<ProviderCacheEvent>, k: int, opts: PromptCacheOptions, keys: CacheKeys, p: PendingCacheStep) -> bool {
    event_is(evs[k], opts, CacheLevel::L1, keys.l1@, keys.l0@, keys.l1@, None, p.l1_hit, p.l1_inserted, p.l1_evicted, p.l1_expired)
}

/// The slots after a lookup of `key` at `now`: an expired slot goes, a
/// live one becomes the most recently used.
pub open spec fn after_lookup<V>(s: Seq<SlotView<V>>, key: Seq<char>, now: u64) -> Seq<SlotView<V>> {
    match position_of(s, key) {
        None => s,
        Some(i) => if now >= s[i].expires_at {
            s.remove(i)
        } else {
            s.remove(i).push(s[i])
        },
    }
}

/// A prefix artifact made on a miss: for the prefix, with the provider's
/// strategy, made at `now`, with no handle yet.
pub open spec fn fresh_artifact(a: PromptPrefixArtifact, l1: Seq<char>, strategy: ProviderPromptCacheStrategy, now: u64) -> bool {
    &&& a.l1_hash@ == l1
    &&& a.strategy == strategy
    &&& a.created_at_ms == now
    &&& a.provider_handle is None
    &&& a.provider_handle_hash is None
}

/// The prefix slots after the lookup of a step: the lookup's on a live
/// hit; otherwise the lookup's with a fresh artifact stored.
pub open spec fn l1_begin_slots(
    before: Seq<SlotView<PromptPrefixArtifact>>,
    after: Seq<SlotView<PromptPrefixArtifact>>,
    key: Seq<char>,
    strategy: ProviderPromptCacheStrategy,
    now: u64,
    ttl: u64,
    max: nat,
) -> bool {
    if live_at(before, key, now) {
        after == after_lookup(before, key, now)
    } else {
        exists|a: PromptPrefixArtifact|
            fresh_artifact(a, key, strategy, now) && #[trigger] after_insert(
                after_lookup(before, key, now),
                key,
                a,
                expiry(now, ttl),
                max,
            ) == after
    }
}

/// How many prefix slots storing the fresh artifact pushed out, when any.
pub open spec fn l1_evicted_of(
    before: Seq<SlotView<PromptPrefixArtifact>>,
    after: Seq<SlotView<PromptPrefixArtifact>>,
    key: Seq<char>,
    now: u64,
) -> Option<u64> {
    if live_at(before, key, now) {
        None
    } else {
        let n = after_lookup(before, key, now).len() + 1 - after.len();
        if n > 0 {
            Some(n as u64)
        } else {
            None
        }
    }
}

/// The artifact stored for `key`.
pub open spec fn stored_artifact(s: Seq<SlotView<PromptPrefixArtifact>>, key: Seq<char>) -> PromptPrefixArtifact {
    s[position_of(s, key)->0].value
}

/// A hint carries an artifact's strategy and handle.
pub open spec fn hint_of(h: ProviderPromptCacheHint, a: PromptPrefixArtifact) -> bool {
    &&& h.strategy == a.strategy
    &&& (h.handle is Some <==> a.provider_handle is Some)
    &&& (a.provider_handle is Some ==> h.handle->0.payload == a.provider_handle->0.payload)
}

proof fn lemma_last_position<V>(s: Seq<SlotView<V>>, key: Seq<char>)
    requires
        keys_distinct(s),
        s.len() > 0,
        s.last().key == key,
    ensures
        position_of(s, key) == Some(s.len() - 1),
{
    assert(s[s.len() - 1].key == key);
    let c = choose|i: int| 0 <= i < s.len() && #[trigger] s[i].key == key;
    if c != s.len() - 1 {
        assert(s[c].key != s[s.len() - 1].key);
    }
}

/// Before the provider call: look the prefix up (storing a fresh artifact
/// on a miss), fail a required native cache the provider has no strategy
/// for, answer from the response cache when it holds the request, and
/// otherwise call the provider with the hint of the stored prefix artifact
/// (none when the native cache is off). Each outcome that ends the step
/// records its events.
pub fn begin_cached_step<V: Clone>(
    cache: &mut PromptCachePartition<V>,
    opts: &PromptCacheOptions,
    strategy: ProviderPromptCacheStrategy,
    keys: &CacheKeys,
    now: u64,
    events: &mut Vec<ProviderCacheEvent>,
) -> (r: CachedStepStart<V>)
    ensures
        !cache_applies(*opts) ==> {
            &&& r is PassThrough
            &&& final(events)@ == old(events)@
            &&& final(cache).l1.slots() == old(cache).l1.slots()
            &&& final(cache).l2.slots() == old(cache).l2.slots()
        },
        cache_applies(*opts) ==> {
            let found = live_at(old(cache).l1.slots(), keys.l1@, now);
            let ins = if found { None } else { Some(true) };
            let ev = l1_evicted_of(old(cache).l1.slots(), final(cache).l1.slots(), keys.l1@, now);
            let exp = expired_at(old(cache).l1.slots(), keys.l1@, now);
            &&& l1_begin_slots(old(cache).l1.slots(), final(cache).l1.slots(), keys.l1@, strategy, now,
                old(cache).l1.ttl(), old(cache).l1.max_entries())
            &&& position_of(final(cache).l1.slots(), keys.l1@) is Some
            &&& if opts.native == PromptCacheNativeMode::Required && strategy == ProviderPromptCacheStrategy::NoCache {
                &&& r matches CachedStepStart::Failed(m) && m@ == no_native_strategy_message()
                &&& final(events)@.len() == old(events)@.len() + 1
                &&& final(events)@.drop_last() == old(events)@
                &&& event_is(final(events)@.last(), *opts, CacheLevel::L1, keys.l1@, keys.l0@, keys.l1@, None, found, ins, ev, exp)
                &&& final(cache).l2.slots() == old(cache).l2.slots()
            } else if opts.enable_l2_response_cache && live_at(old(cache).l2.slots(), keys.l2@, now) {
                &&& r matches CachedStepStart::Cached(v) && cloned(
                    old(cache).l2.slots()[position_of(old(cache).l2.slots(), keys.l2@)->0].value,
                    v,
                )
                &&& final(cache).l2.slots() == after_lookup(old(cache).l2.slots(), keys.l2@, now)
                &&& final(events)@.len() == old(events)@.len() + 2
                &&& final(events)@.take(old(events)@.len() as int) == old(events)@
                &&& event_is(final(events)@[old(events)@.len() as int], *opts, CacheLevel::L1, keys.l1@, keys.l0@,
                    keys.l1@, None, found, ins, ev, exp)
                &&& event_is(final(events)@.last(), *opts, CacheLevel::L2, keys.l2@, keys.l0@, keys.l1@, Some(keys.l2@),
                    true, None, None, false)
            } else {
                &&& r matches CachedStepStart::Call(hint, q) && {
                    &&& (hint is None <==> opts.native == PromptCacheNativeMode::Off)
                    &&& (hint matches Some(h) ==> hint_of(h, stored_artifact(final(cache).l1.slots(), keys.l1@)))
                    &&& q.l1_hit == found
                    &&& q.l1_inserted == ins
                    &&& q.l1_evicted == ev
                    &&& q.l1_expired == exp
                    &&& q.l2_expired == (opts.enable_l2_response_cache && expired_at(old(cache).l2.slots(), keys.l2@, now))
                }
                &&& final(cache).l2.slots() == if opts.enable_l2_response_cache {
                    after_lookup(old(cache).l2.slots(), keys.l2@, now)
                } else {
                    old(cache).l2.slots()
                }
                &&& final(events)@ == old(events)@
            }
        },
{
    if !prompt_cache_applies(opts) {
        return CachedStepStart::PassThrough;
    }
    let ghost l1_before = cache.l1.slots();
    let lookup = cache.l1.get(keys.l1.as_str(), now);
    let ghost l1_looked = cache.l1.slots();
    assert(l1_looked == after_lookup(l1_before, keys.l1@, now));
    let l1_hit = lookup.value.is_some();
    let mut l1_inserted: Option<bool> = None;
    let mut l1_evicted: Option<u64> = None;
    let artifact = match lookup.value {
        Some(a) => {
            proof {
                lemma_last_position(cache.l1.slots(), keys.l1@);
            }
            a
        },
        None => {
            let a = PromptPrefixArtifact::new(keys.l1.clone(), strategy, None, now);
            let c = a.clone();
            let ghost gc = c;
            let ins = cache.l1.insert(keys.l1.clone(), c, now);
            l1_inserted = Some(ins.inserted);
            if ins.evicted > 0 {
                l1_evicted = Some(ins.evicted);
            }
            proof {
                lemma_last_position(cache.l1.slots(), keys.l1@);
                assert(fresh_artifact(gc, keys.l1@, strategy, now));
                assert(after_insert(l1_looked, keys.l1@, gc, expiry(now, old(cache).l1.ttl()), old(cache).l1.max_entries())
                    == cache.l1.slots());
            }
            a
        },
    };
    let pending = PendingCacheStep { l1_hit, l1_inserted, l1_evicted, l1_expired: lookup.expired, l2_expired: false };
    if let Some(msg) = native_strategy_failure(opts, strategy) {
        let obs = fallback_provider_observation(opts, strategy);
        events.push(l1_cache_event(opts, strategy, &keys.l0, &keys.l1, l1_hit, l1_inserted, l1_evicted, lookup.expired, &obs));
        return CachedStepStart::Failed(msg);
    }
    let mut l2_expired = false;
    if opts.enable_l2_response_cache {
        let l2_lookup = cache.l2.get(keys.l2.as_str(), now);
        l2_expired = l2_lookup.expired;
        if let Some(output) = l2_lookup.value {
            events.push(l1_cache_event(opts, strategy, &keys.l0, &keys.l1, l1_hit, l1_inserted, l1_evicted, lookup.expired, &None));
            events.push(l2_cache_event(opts, strategy, &keys.l0, &keys.l1, &keys.l2, true, None, None, l2_lookup.expired, &None));
            return CachedStepStart::Cached(output);
        }
    }
    let hint = if matches!(opts.native, PromptCacheNativeMode::Off) {
        None
    } else {
        Some(artifact.hint())
    };
    CachedStepStart::Call(hint, PendingCacheStep { l2_expired, ..pending })
}

/// The prefix artifact stored after a call whose provider reported a
/// handle: for the prefix, with the reported strategy and handle, made at
/// `now`.
pub open spec fn refreshed_artifact(a: PromptPrefixArtifact, l1: Seq<char>, o: ProviderPromptCacheObservation, now: u64) -> bool {
    &&& a.l1_hash@ == l1
    &&& a.strategy == o.provider_strategy
    &&& a.created_at_ms == now
    &&& a.provider_handle is Some
    &&& o.provider_handle is Some
    &&& a.provider_handle->0.payload == o.provider_handle->0.payload
    &&& a.provider_handle_hash matches Some(x) && stable_hash_of(x@, a.provider_handle->0.payload)
}

/// How many slots storing `key` pushed out, when any.
pub open spec fn insert_evicted<V>(before: Seq<SlotView<V>>, after: Seq<SlotView<V>>, key: Seq<char>) -> Option<u64> {
    let n = before.len() + (if position_of(before, key) is None { 1int } else { 0int }) - after.len();
    if n > 0 {
        Some(n as u64)
    } else {
        None
    }
}

/// What the provider call gave.
pub enum ProviderCallOutcome<V> {
    /// The step output, whether it may be cached (error steps may not),
    /// and what the provider reported of its own cache.
    Output(V, bool, Option<ProviderPromptCacheObservation>),
    /// The provider failed.
    Failed,
    /// The provider did not answer in time.
    TimedOut,
}

/// How a cached step ends.
pub enum CachedStepEnd<V> {
    Done(V),
    ProviderFailed,
    TimedOut,
    /// A required native cache was not observed working, with this message.
    PromptCacheFailed(String),
}

/// The report is missing or says the native cache did not work.
pub open spec fn native_unobserved(obs: Option<ProviderPromptCacheObservation>) -> bool {
    !observed_native(obs)
}

/// When an entry stored at `now` expires in a cache of lifetime `ttl`.
pub open spec fn expiry(now: u64, ttl: u64) -> u64 {
    if now + ttl > u64::MAX { u64::MAX } else { (now + ttl) as u64 }
}

/// After the provider call: a failure or timeout records the prefix event
/// (and a response miss, when responses are cached) and ends the step; a
/// required native cache the provider did not report working fails it;
/// otherwise the prefix artifact takes the provider's new handle, the
/// prefix event is recorded, and a cacheable response is stored and its
/// event recorded.
#[verifier::rlimit(60)]
pub fn finish_cached_step<V: Clone>(
    cache: &mut PromptCachePartition<V>,
    opts: &PromptCacheOptions,
    strategy: ProviderPromptCacheStrategy,
    keys: &CacheKeys,
    pending: &PendingCacheStep,
    outcome: ProviderCallOutcome<V>,
    now: u64,
    events: &mut Vec<ProviderCacheEvent>,
) -> (r: CachedStepEnd<V>)
    ensures
        final(events)@.take(old(events)@.len() as int) == old(events)@,
        (outcome is Failed || outcome is TimedOut) ==> {
                &&& (outcome is Failed ==> r is ProviderFailed)
                &&& (outcome is TimedOut ==> r is TimedOut)
                &&& final(events)@.len() == old(events)@.len() + 1 + (if opts.enable_l2_response_cache { 1int } else { 0int })
                &&& l1_event_at(final(events)@, old(events)@.len() as int, *opts, *keys, *pending)
                &&& opts.enable_l2_response_cache ==> event_is(final(events)@.last(), *opts, CacheLevel::L2, keys.l2@,
                    keys.l0@, keys.l1@, Some(keys.l2@), false, Some(false), None, pending.l2_expired)
                &&& final(cache).l1.slots() == old(cache).l1.slots()
                &&& final(cache).l2.slots() == old(cache).l2.slots()
            },
        outcome matches ProviderCallOutcome::Output(out, cacheable, obs) ==> if opts.native == PromptCacheNativeMode::Required
                && native_unobserved(obs) {
                &&& r matches CachedStepEnd::PromptCacheFailed(m) && m@ == no_native_observation_message()
                &&& final(events)@.len() == old(events)@.len() + 1
                &&& l1_event_at(final(events)@, old(events)@.len() as int, *opts, *keys, *pending)
                &&& final(cache).l1.slots() == old(cache).l1.slots()
                &&& final(cache).l2.slots() == old(cache).l2.slots()
            } else {
                &&& r == CachedStepEnd::Done(out)
                &&& final(events)@.len() == old(events)@.len() + 1 + (if opts.enable_l2_response_cache { 1int } else { 0int })
                &&& l1_event_at(final(events)@, old(events)@.len() as int, *opts, *keys, *pending)
                &&& ((obs matches Some(o) && o.provider_handle is Some) ==> exists|a: PromptPrefixArtifact|
                    refreshed_artifact(a, keys.l1@, obs->0, now) && #[trigger] after_insert(
                        old(cache).l1.slots(),
                        keys.l1@,
                        a,
                        expiry(now, old(cache).l1.ttl()),
                        old(cache).l1.max_entries(),
                    ) == final(cache).l1.slots())
                &&& (!(obs matches Some(o) && o.provider_handle is Some) ==> final(cache).l1.slots() == old(cache).l1.slots())
                &&& if opts.enable_l2_response_cache && cacheable {
                    &&& exists|v: V| cloned(out, v) && #[trigger] final(cache).l2.slots() == after_insert(
                        old(cache).l2.slots(),
                        keys.l2@,
                        v,
                        expiry(now, old(cache).l2.ttl()),
                        old(cache).l2.max_entries(),
                    )
                    &&& event_is(final(events)@.last(), *opts, CacheLevel::L2, keys.l2@, keys.l0@, keys.l1@, Some(keys.l2@),
                        false, Some(position_of(old(cache).l2.slots(), keys.l2@) is None), insert_evicted(
                            old(cache).l2.slots(),
                            final(cache).l2.slots(),
                            keys.l2@,
                        ), pending.l2_expired)
                } else {
                    &&& final(cache).l2.slots() == old(cache).l2.slots()
                    &&& opts.enable_l2_response_cache ==> event_is(final(events)@.last(), *opts, CacheLevel::L2, keys.l2@,
                        keys.l0@, keys.l1@, Some(keys.l2@), false, Some(false), None, pending.l2_expired)
                }
            },
{
    let start = events.len();
    match outcome {
        ProviderCallOutcome::Failed | ProviderCallOutcome::TimedOut => {
            let obs = fallback_provider_observation(opts, strategy);
            events.push(l1_cache_event(opts, strategy, &keys.l0, &keys.l1, pending.l1_hit, pending.l1_inserted,
                pending.l1_evicted, pending.l1_expired, &obs));
            let ghost first = events@;
            assert(l1_event_at(first, start as int, *opts, *keys, *pending));
            if opts.enable_l2_response_cache {
                events.push(l2_cache_event(opts, strategy, &keys.l0, &keys.l1, &keys.l2, false, Some(false), None,
                    pending.l2_expired, &obs));
                assert(events@[start as int] == first[start as int]);
            }
            assert(events@.take(start as int) =~= old(events)@);
            match outcome {
                ProviderCallOutcome::TimedOut => CachedStepEnd::TimedOut,
                _ => CachedStepEnd::ProviderFailed,
            }
        },
        ProviderCallOutcome::Output(out, cacheable, reported) => {
            let obs = match reported {
                Some(o) => Some(o),
                None => fallback_provider_observation(opts, strategy),
            };
            if let Some(msg) = native_observation_failure(opts, &obs) {
                let fb = fallback_provider_observation(opts, strategy);
                events.push(l1_cache_event(opts, strategy, &keys.l0, &keys.l1, pending.l1_hit, pending.l1_inserted,
                    pending.l1_evicted, pending.l1_expired, &fb));
                return CachedStepEnd::PromptCacheFailed(msg);
            }
            if let Some(o) = &obs {
                if let Some(handle) = &o.provider_handle {
                    let artifact = PromptPrefixArtifact::new(keys.l1.clone(), o.provider_strategy, Some(handle.duplicate()), now);
                    let ghost ga = artifact;
                    let _ = cache.l1.insert(keys.l1.clone(), artifact, now);
                    assert(refreshed_artifact(ga, keys.l1@, *o, now));
                    assert(after_insert(old(cache).l1.slots(), keys.l1@, ga, expiry(now, old(cache).l1.ttl()),
                        old(cache).l1.max_entries()) == cache.l1.slots());
                    proof {
                        let sl = cache.l1.slots();
                        assert(sl[sl.len() - 1].key == keys.l1@);
                    }
                }
            }
            let ghost l2_before = cache.l2.slots();
            assert(l2_before == old(cache).l2.slots());
            events.push(l1_cache_event(opts, strategy, &keys.l0, &keys.l1, pending.l1_hit, pending.l1_inserted,
                pending.l1_evicted, pending.l1_expired, &obs));
            let ghost first = events@;
            assert(l1_event_at(first, start as int, *opts, *keys, *pending));
            if opts.enable_l2_response_cache {
                let mut inserted = Some(false);
                let mut evicted: Option<u64> = None;
                if cacheable {
                    let copy = out.clone();
                    assert(cloned(out, copy));
                    let ghost gv = copy;
                    let ins = cache.l2.insert(keys.l2.clone(), copy, now);
                    assert(cache.l2.slots() == after_insert(
                        old(cache).l2.slots(),
                        keys.l2@,
                        gv,
                        expiry(now, old(cache).l2.ttl()),
                        old(cache).l2.max_entries(),
                    ));
                    inserted = Some(ins.inserted);
                    if ins.evicted > 0 {
                        evicted = Some(ins.evicted);
                    }
                }
                events.push(l2_cache_event(opts, strategy, &keys.l0, &keys.l1, &keys.l2, false, inserted, evicted,
                    pending.l2_expired, &obs));
                assert(events@[start as int] == first[start as int]);
            }
            assert(events@.take(start as int) =~= old(events)@);
            CachedStepEnd::Done(out)
        },
    }
}

/// The handle a provider reports for a prefix is the one the next step for
/// that prefix hands back: once `finish_cached_step` has stored the
/// refreshed artifact, a lookup before it expires finds it live and keeps
/// it as the stored artifact, whose strategy and handle the hint of
/// `begin_cached_step` carries.
pub proof fn law_handle_round_trip(
    s: Seq<SlotView<PromptPrefixArtifact>>,
    key: Seq<char>,
    a: PromptPrefixArtifact,
    expires_at: u64,
    max: nat,
    now: u64,
)
    requires
        keys_distinct(s),
        s.len() <= max,
        max >= 1,
        now < expires_at,
    ensures
        live_at(after_insert(s, key, a, expires_at, max), key, now),
        stored_artifact(after_lookup(after_insert(s, key, a, expires_at, max), key, now), key) == a,
{
    law_insert_then_lookup(s, key, a, expires_at, max);
    let t = after_insert(s, key, a, expires_at, max);
    let i = position_of(t, key)->0;
    let u = t.remove(i).push(t[i]);
    assert(after_lookup(t, key, now) == u);
    assert forall|j: int| 0 <= j < u.len() - 1 implies #[trigger] u[j].key != key by {
        if j < i {
            assert(u[j] == t[j]);
        } else {
            assert(u[j] == t[j + 1]);
        }
    }
    assert(u[u.len() - 1].key == key);
    let c = choose|j: int| 0 <= j < u.len() && #[trigger] u[j].key == key;
    assert(c == u.len() - 1);
}

} // verus!
