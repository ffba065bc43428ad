//! Settings and events of the provider response cache.
use vstd::prelude::*;

use crate::provider::prompt_cache::{ProviderPromptCacheSource, ProviderPromptCacheStatus, ProviderPromptCacheStrategy};
use crate::json::{json_array_items, json_from_items, json_items_of, json_kind_of, JsonKind};
use crate::state::AgentState;
use crate::text::owned;

verus! {

/// Where cached responses live.
#[derive(Debug, Clone, Copy, PartialEq, Eq, Structural)]
pub enum CacheBackend {
    Memory,
    Disk,
    Remote,
}

/// Which layer of the cache answered.
#[derive(Debug, Clone, Copy, PartialEq, Eq, Structural)]
pub enum CacheLevel {
    L0,
    L1,
    L2,
}

/// Whether a provider's own prompt cache is used.
#[derive(Debug, Clone, Copy, PartialEq, Eq, Structural)]
pub enum PromptCacheNativeMode {
    Auto,
    Off,
    Required,
}

/// How the instruction prefix is laid out for caching.
#[derive(Debug, Clone, Copy, PartialEq, Eq, Structural)]
pub enum PromptCacheLayoutMode {
    Auto,
    SingleSystem,
}

/// Prompt cache settings.
#[derive(Debug, Clone)]
pub struct PromptCacheOptions {
    pub enabled: bool,
    pub backend: CacheBackend,
    pub native: PromptCacheNativeMode,
    pub layout: PromptCacheLayoutMode,
    pub enable_l2_response_cache: bool,
    pub ttl_ms: u64,
    pub max_entries: usize,
    pub provider_id: String,
    pub model_id: String,
    pub partition: String,
}

impl PromptCacheOptions {
    /// Settings with every cache off.
    pub fn disabled() -> (r: Self)
        ensures
            !r.enabled,
            r.backend == CacheBackend::Memory,
            r.native == PromptCacheNativeMode::Auto,
            r.layout == PromptCacheLayoutMode::Auto,
            !r.enable_l2_response_cache,
            r.ttl_ms == 0,
            r.max_entries == 0,
            r.provider_id@ == Seq::<char>::empty(),
            r.model_id@ == Seq::<char>::empty(),
            r.partition@ == Seq::<char>::empty(),
    {
        PromptCacheOptions {
            enabled: false,
            backend: CacheBackend::Memory,
            native: PromptCacheNativeMode::Auto,
            layout: PromptCacheLayoutMode::Auto,
            enable_l2_response_cache: false,
            ttl_ms: 0,
            max_entries: 0,
            provider_id: String::new(),
            model_id: String::new(),
            partition: String::new(),
        }
    }

    /// The values a field takes when settings leave it out: the memory
    /// backend, five minutes, 1024 entries.
    pub fn with_defaults(enabled: bool) -> (r: Self)
        ensures
            r.enabled == enabled,
            r.backend == CacheBackend::Memory,
            r.ttl_ms == 300_000,
            r.max_entries == 1024,
            !r.enable_l2_response_cache,
    {
        PromptCacheOptions {
            enabled,
            backend: CacheBackend::Memory,
            native: PromptCacheNativeMode::Auto,
            layout: PromptCacheLayoutMode::Auto,
            enable_l2_response_cache: false,
            ttl_ms: 300_000,
            max_entries: 1024,
            provider_id: String::new(),
            model_id: String::new(),
            partition: String::new(),
        }
    }
}

/// The hashes a cache key is made of: the provider-level key, the prefix
/// key, and (for responses) the request key.
#[derive(Debug, Clone)]
pub struct CacheKeyComponents {
    pub l0_hash: String,
    pub l1_hash: String,
    pub l2_hash: Option<String>,
}

/// One cache lookup or insertion, with what the provider's own cache
/// reported.
#[derive(Debug)]
pub enum ProviderCacheEvent {
    ProviderCache {
        cache_backend: CacheBackend,
        cache_level: CacheLevel,
        lookup_hit: bool,
        cache_key_hash: String,
        components: CacheKeyComponents,
        cache_source: Option<ProviderPromptCacheSource>,
        provider_strategy: Option<ProviderPromptCacheStrategy>,
        provider_cache_status: Option<ProviderPromptCacheStatus>,
        provider_handle_hash: Option<String>,
        inserted: Option<bool>,
        evicted: Option<u64>,
        expired: Option<bool>,
    },
}

/// The extras key of the cache events of a run.
pub fn provider_cache_events_key() -> (r: String)
    ensures
        r@ == "_provider_cache_events"@,
{
    owned("_provider_cache_events")
}

/// The extras key of the prompt cache settings.
pub fn prompt_cache_options_key() -> (r: String)
    ensures
        r@ == "_prompt_cache_options"@,
{
    owned("_prompt_cache_options")
}

/// The events array after one more event: the old array with the event
/// appended, or a new array of the event when the state held no array.
pub open spec fn events_after_push(old: Option<serde_json::Value>, event: serde_json::Value, new: serde_json::Value) -> bool {
    &&& json_kind_of(new) == JsonKind::Array
    &&& json_items_of(new) == match old {
        Some(a) => if json_kind_of(a) == JsonKind::Array {
            json_items_of(a).push(event)
        } else {
            seq![event]
        },
        None => seq![event],
    }
}

/// Records one cache event (in its JSON form) in the state's events array,
/// as [`events_after_push`] says; every other key of the state is kept.
pub fn push_provider_cache_event(state: &mut AgentState, event: serde_json::Value)
    ensures
        final(state).extra.map().dom() == old(state).extra.map().dom().insert("_provider_cache_events"@),
        events_after_push(
            if old(state).extra.map().dom().contains("_provider_cache_events"@) {
                Some(old(state).extra.map()["_provider_cache_events"@])
            } else {
                None
            },
            event,
            final(state).extra.map()["_provider_cache_events"@],
        ),
        forall|k: Seq<char>| k != "_provider_cache_events"@ && #[trigger] old(state).extra.map().dom().contains(k)
            ==> final(state).extra.map()[k] == old(state).extra.map()[k],
        final(state).filesystem == old(state).filesystem,
        final(state).todos == old(state).todos,
{
    let ghost prior = if old(state).extra.map().dom().contains("_provider_cache_events"@) {
        Some(old(state).extra.map()["_provider_cache_events"@])
    } else {
        None::<serde_json::Value>
    };
    let mut items: Vec<serde_json::Value> = match state.extra.get("_provider_cache_events") {
        Some(v) => match json_array_items(v) {
            Some(xs) => xs,
            None => Vec::new(),
        },
        None => Vec::new(),
    };
    let ghost before = items@;
    items.push(event);
    assert(items@ == match prior {
        Some(a) => if json_kind_of(a) == JsonKind::Array {
            json_items_of(a).push(event)
        } else {
            seq![event]
        },
        None => seq![event],
    }) by {
        assert(items@ =~= before.push(event));
        if prior is None || json_kind_of(prior->0) != JsonKind::Array {
            assert(before.len() == 0);
            assert(items@ =~= seq![event]);
        }
    }
    state.extra.insert(provider_cache_events_key(), json_from_items(items));
    assert(state.extra.map().dom() =~= old(state).extra.map().dom().insert("_provider_cache_events"@));
}

/// Takes the state's cache events out of it.
pub fn take_provider_cache_events(state: &mut AgentState) -> (r: Option<serde_json::Value>)
    ensures
        final(state).extra.map() == old(state).extra.map().remove("_provider_cache_events"@),
        r == if old(state).extra.map().dom().contains("_provider_cache_events"@) {
            Some(old(state).extra.map()["_provider_cache_events"@])
        } else {
            None
        },
        final(state).filesystem == old(state).filesystem,
        final(state).todos == old(state).todos,
{
    state.extra.remove("_provider_cache_events")
}

} // verus!
