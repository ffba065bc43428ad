use deepagents::provider::prompt_cache::{
    PromptCachePlan, PromptPrefixArtifact, ProviderPromptCacheHandle, ProviderPromptCacheObservation,
    ProviderPromptCacheSource, ProviderPromptCacheStatus, ProviderPromptCacheStrategy,
};
use deepagents::provider::protocol::{AgentProviderError, AgentStep};
use deepagents::runtime::prompt_cache_runtime::{
    cacheable_step, event_fields, fallback_provider_observation, l0_hash_with_provider, l1_cache_event,
    l1_hash_with_l0, l2_cache_event, l2_hash_with_l1, native_observation_failure, native_strategy_failure,
    partition_key, prompt_cache_applies, CachedProviderError,
};
use deepagents::runtime::provider_cache::{
    CacheBackend, CacheLevel, PromptCacheNativeMode, PromptCacheOptions, ProviderCacheEvent,
};
use deepagents::runtime::stable_hash::stable_json_sha256_hex;

fn j(text: &str) -> serde_json::Value {
    serde_json::from_str(text).unwrap()
}

fn opts() -> PromptCacheOptions {
    let mut o = PromptCacheOptions::with_defaults(true);
    o.partition = "p1".to_string();
    o.provider_id = "prov".to_string();
    o.model_id = "m".to_string();
    o
}

#[test]
fn partition_key_joins_settings() {
    assert_eq!(partition_key(&opts()), "p1:memory:300000:1024");
    let mut o = opts();
    o.backend = CacheBackend::Remote;
    o.ttl_ms = 5;
    o.max_entries = 0;
    o.partition = String::new();
    assert_eq!(partition_key(&o), ":remote:5:0");
}

#[test]
fn cache_applies_only_when_enabled_in_memory() {
    assert!(prompt_cache_applies(&opts()));
    let mut o = opts();
    o.backend = CacheBackend::Disk;
    assert!(!prompt_cache_applies(&o));
    assert!(!prompt_cache_applies(&PromptCacheOptions::disabled()));
}

#[test]
fn cache_keys_are_stable_hashes_of_their_parts() {
    let o = opts();
    let l0 = l0_hash_with_provider(&o, &"h0".to_string());
    assert_eq!(l0, stable_json_sha256_hex(&j(r#"{"l0_hash":"h0","model_id":"m","provider_id":"prov"}"#)));
    let l1 = l1_hash_with_l0(&l0, &"h1".to_string());
    assert_eq!(l1, stable_json_sha256_hex(&j(&format!(r#"{{"l1_hash":"h1","l0_hash":"{}"}}"#, l0))));
    let l2 = l2_hash_with_l1(&l1, &"h2".to_string());
    assert_ne!(l2, l1);
    assert_eq!(l2.len(), 64);
}

#[test]
fn native_required_needs_a_strategy_and_an_observation() {
    let mut o = opts();
    assert!(native_strategy_failure(&o, ProviderPromptCacheStrategy::NoCache).is_none());
    o.native = PromptCacheNativeMode::Required;
    assert_eq!(
        native_strategy_failure(&o, ProviderPromptCacheStrategy::NoCache).as_deref(),
        Some("prompt_cache_native_required_but_provider_has_no_native_strategy")
    );
    assert!(native_strategy_failure(&o, ProviderPromptCacheStrategy::StablePrefix).is_none());

    let fallback = fallback_provider_observation(&o, ProviderPromptCacheStrategy::StablePrefix);
    assert_eq!(
        native_observation_failure(&o, &fallback).as_deref(),
        Some("prompt_cache_native_required_but_provider_did_not_observe_native_cache")
    );
    let hit = Some(ProviderPromptCacheObservation {
        cache_source: ProviderPromptCacheSource::Provider,
        provider_strategy: ProviderPromptCacheStrategy::StablePrefix,
        provider_cache_status: ProviderPromptCacheStatus::Hit,
        provider_handle_hash: None,
        provider_handle: None,
    });
    assert!(native_observation_failure(&o, &hit).is_none());
    assert!(native_observation_failure(&opts(), &None).is_none());
    assert!(matches!(CachedProviderError::prompt_cache("x".to_string()), CachedProviderError::PromptCache(_)));
}

#[test]
fn fallback_observation_is_local_and_unsupported() {
    let o = opts();
    let f = fallback_provider_observation(&o, ProviderPromptCacheStrategy::CacheControl).unwrap();
    assert_eq!(f.cache_source, ProviderPromptCacheSource::Local);
    assert_eq!(f.provider_strategy, ProviderPromptCacheStrategy::CacheControl);
    assert_eq!(f.provider_cache_status, ProviderPromptCacheStatus::Unsupported);
    let mut off = opts();
    off.native = PromptCacheNativeMode::Off;
    assert!(fallback_provider_observation(&off, ProviderPromptCacheStrategy::CacheControl).is_none());
}

#[test]
fn event_fields_hash_the_handle() {
    let handle = ProviderPromptCacheHandle { payload: j(r#"{"b":1,"a":2}"#) };
    let obs = Some(ProviderPromptCacheObservation {
        cache_source: ProviderPromptCacheSource::Hybrid,
        provider_strategy: ProviderPromptCacheStrategy::KvReuse,
        provider_cache_status: ProviderPromptCacheStatus::Applied,
        provider_handle_hash: None,
        provider_handle: Some(handle),
    });
    let f = event_fields(&obs, false, None);
    assert_eq!(f.cache_source, Some(ProviderPromptCacheSource::Hybrid));
    assert_eq!(f.provider_handle_hash, Some(stable_json_sha256_hex(&j(r#"{"a":2,"b":1}"#))));
    let none = event_fields(&None, false, Some(ProviderPromptCacheStrategy::KvReuse));
    assert_eq!(none.cache_source, None);
    assert_eq!(none.provider_strategy, Some(ProviderPromptCacheStrategy::KvReuse));
}

#[test]
fn lookup_events_record_keys_and_outcome() {
    let o = opts();
    let e = l1_cache_event(
        &o,
        ProviderPromptCacheStrategy::StablePrefix,
        &"l0".to_string(),
        &"l1".to_string(),
        false,
        Some(true),
        Some(2),
        true,
        &None,
    );
    let ProviderCacheEvent::ProviderCache {
        cache_level, cache_key_hash, components, cache_source, provider_strategy, inserted, evicted, expired, ..
    } = e;
    assert_eq!(cache_level, CacheLevel::L1);
    assert_eq!(cache_key_hash, "l1");
    assert_eq!(components.l2_hash, None);
    assert_eq!(cache_source, Some(ProviderPromptCacheSource::Local));
    assert_eq!(provider_strategy, Some(ProviderPromptCacheStrategy::StablePrefix));
    assert_eq!((inserted, evicted, expired), (Some(true), Some(2), Some(true)));

    let e = l2_cache_event(
        &o,
        ProviderPromptCacheStrategy::StablePrefix,
        &"l0".to_string(),
        &"l1".to_string(),
        &"l2".to_string(),
        true,
        None,
        None,
        false,
        &None,
    );
    let ProviderCacheEvent::ProviderCache { cache_level, cache_key_hash, components, cache_source, expired, .. } = e;
    assert_eq!(cache_level, CacheLevel::L2);
    assert_eq!(cache_key_hash, "l2");
    assert_eq!(components.l2_hash.as_deref(), Some("l2"));
    assert_eq!(cache_source, None);
    assert_eq!(expired, None);
}

#[test]
fn plans_and_artifacts_hash_their_views() {
    let plan = PromptCachePlan::new(j("{}"), j("[1]"), j("null"), ProviderPromptCacheStrategy::NoCache);
    assert_eq!(plan.l0_hash, stable_json_sha256_hex(&j("{}")));
    assert_eq!(plan.l1_hash, stable_json_sha256_hex(&j("[1]")));
    let artifact = PromptPrefixArtifact::new(
        "k".to_string(),
        ProviderPromptCacheStrategy::ContextCache,
        Some(ProviderPromptCacheHandle { payload: j(r#"{"id":"x"}"#) }),
        42,
    );
    assert_eq!(artifact.provider_handle_hash, Some(stable_json_sha256_hex(&j(r#"{"id":"x"}"#))));
    assert_eq!(artifact.created_at_ms, 42);
    let hint = artifact.hint();
    assert_eq!(hint.strategy, ProviderPromptCacheStrategy::ContextCache);
    assert_eq!(hint.handle.unwrap().payload, j(r#"{"id":"x"}"#));
}

#[test]
fn error_steps_are_not_cached() {
    assert!(cacheable_step(&AgentStep::FinalText { text: "ok".to_string() }));
    let err = AgentStep::Error { error: AgentProviderError { code: "c".to_string(), message: "m".to_string() } };
    assert!(!cacheable_step(&err));
}

use deepagents::runtime::prompt_cache_runtime::{
    begin_cached_step, finish_cached_step, CacheKeys, CachedStepEnd, CachedStepStart, PromptCachePartition,
    ProviderCallOutcome,
};

fn keys() -> CacheKeys {
    CacheKeys { l0: "k0".to_string(), l1: "k1".to_string(), l2: "k2".to_string() }
}

#[test]
fn cached_step_stores_and_answers_responses() {
    let mut o = opts();
    o.enable_l2_response_cache = true;
    let mut cache: PromptCachePartition<String> = PromptCachePartition::new(&o);
    let mut events = Vec::new();
    let start = begin_cached_step(&mut cache, &o, ProviderPromptCacheStrategy::StablePrefix, &keys(), 10, &mut events);
    let CachedStepStart::Call(hint, pending) = start else { panic!("expected a call") };
    assert!(hint.is_some());
    assert!(!pending.l1_hit);
    assert_eq!(pending.l1_inserted, Some(true));
    assert!(events.is_empty());
    let end = finish_cached_step(
        &mut cache,
        &o,
        ProviderPromptCacheStrategy::StablePrefix,
        &keys(),
        &pending,
        ProviderCallOutcome::Output("answer".to_string(), true, None),
        20,
        &mut events,
    );
    assert!(matches!(end, CachedStepEnd::Done(ref v) if v == "answer"));
    assert_eq!(events.len(), 2);
    let ProviderCacheEvent::ProviderCache { cache_level, inserted, .. } = &events[1];
    assert_eq!(*cache_level, CacheLevel::L2);
    assert_eq!(*inserted, Some(true));

    let mut events = Vec::new();
    let again = begin_cached_step(&mut cache, &o, ProviderPromptCacheStrategy::StablePrefix, &keys(), 30, &mut events);
    assert!(matches!(again, CachedStepStart::Cached(ref v) if v == "answer"));
    assert_eq!(events.len(), 2);
    let ProviderCacheEvent::ProviderCache { lookup_hit, .. } = &events[0];
    assert!(*lookup_hit);

    let mut events = Vec::new();
    let late = begin_cached_step(&mut cache, &o, ProviderPromptCacheStrategy::StablePrefix, &keys(), 10_000_000, &mut events);
    let CachedStepStart::Call(_, pending) = late else { panic!("expired entries do not answer") };
    assert!(pending.l1_expired && pending.l2_expired);
}

#[test]
fn cached_step_failures_record_events() {
    let mut o = opts();
    o.native = PromptCacheNativeMode::Required;
    let mut cache: PromptCachePartition<String> = PromptCachePartition::new(&o);
    let mut events = Vec::new();
    let start = begin_cached_step(&mut cache, &o, ProviderPromptCacheStrategy::NoCache, &keys(), 1, &mut events);
    assert!(matches!(start, CachedStepStart::Failed(ref m) if m == "prompt_cache_native_required_but_provider_has_no_native_strategy"));
    assert_eq!(events.len(), 1);

    let mut events = Vec::new();
    let start = begin_cached_step(&mut cache, &o, ProviderPromptCacheStrategy::KvReuse, &keys(), 2, &mut events);
    let CachedStepStart::Call(_, pending) = start else { panic!("expected a call") };
    let end = finish_cached_step(
        &mut cache,
        &o,
        ProviderPromptCacheStrategy::KvReuse,
        &keys(),
        &pending,
        ProviderCallOutcome::Output("x".to_string(), true, None),
        3,
        &mut events,
    );
    assert!(matches!(end, CachedStepEnd::PromptCacheFailed(_)));
    let end = finish_cached_step(&mut cache, &o, ProviderPromptCacheStrategy::KvReuse, &keys(), &pending, ProviderCallOutcome::TimedOut, 4, &mut events);
    assert!(matches!(end, CachedStepEnd::TimedOut));

    let disabled = PromptCacheOptions::disabled();
    let mut events = Vec::new();
    assert!(matches!(
        begin_cached_step(&mut cache, &disabled, ProviderPromptCacheStrategy::KvReuse, &keys(), 5, &mut events),
        CachedStepStart::PassThrough
    ));
}
