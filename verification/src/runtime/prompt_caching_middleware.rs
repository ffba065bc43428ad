//! The middleware that hands prompt cache settings to the provider layer.
use vstd::prelude::*;

use crate::runtime::provider_cache::{CacheBackend, PromptCacheLayoutMode, PromptCacheNativeMode, PromptCacheOptions};

verus! {

/// Writes the prompt cache settings into the state before each run and
/// provider step.
#[derive(Debug, Clone)]
pub struct PromptCachingMiddleware {
    options: PromptCacheOptions,
}

impl PromptCachingMiddleware {
    pub closed spec fn options(&self) -> PromptCacheOptions {
        self.options
    }

    pub fn new(options: PromptCacheOptions) -> (r: Self)
        ensures
            r.options() == options,
    {
        PromptCachingMiddleware { options }
    }

    /// A middleware with caching off.
    pub fn disabled() -> (r: Self)
        ensures
            !r.options().enabled,
            r.options().backend == CacheBackend::Memory,
            r.options().native == PromptCacheNativeMode::Auto,
            r.options().layout == PromptCacheLayoutMode::Auto,
            !r.options().enable_l2_response_cache,
            r.options().ttl_ms == 0,
            r.options().max_entries == 0,
            r.options().provider_id@ == Seq::<char>::empty(),
            r.options().model_id@ == Seq::<char>::empty(),
            r.options().partition@ == Seq::<char>::empty(),
    {
        PromptCachingMiddleware { options: PromptCacheOptions::disabled() }
    }

    /// The settings it writes.
    pub fn settings(&self) -> (r: &PromptCacheOptions)
        ensures
            *r == self.options(),
    {
        &self.options
    }
}

} // verus!
