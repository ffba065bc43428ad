//! How a provider caches prompts, and what it reports of it.
use vstd::prelude::*;

use crate::json::{
    json_array_items, json_empty_object, json_field, json_field_of, json_from_items, json_get_str, json_insert_field,
    json_items_of, json_kind_of, json_null, json_str_field, JsonKind,
};
use crate::runtime::stable_hash::{stable_hash_of, stable_json_sha256_hex};
use crate::state::AgentState;
use crate::text::str_eq;

verus! {

/// The prompt caching strategy of a provider.
#[derive(Debug, Clone, Copy, PartialEq, Eq, Structural)]
pub enum ProviderPromptCacheStrategy {
    /// No prompt caching (`none` on the wire).
    NoCache,
    StablePrefix,
    CacheControl,
    ContextCache,
    CommonPrefix,
    KvReuse,
}

/// What became of a prompt cache request.
#[derive(Debug, Clone, Copy, PartialEq, Eq, Structural)]
pub enum ProviderPromptCacheStatus {
    Applied,
    Hit,
    Miss,
    Unsupported,
}

/// Which cache answered.
#[derive(Debug, Clone, Copy, PartialEq, Eq, Structural)]
pub enum ProviderPromptCacheSource {
    Local,
    Provider,
    Hybrid,
}

/// A provider's handle on a cached prompt prefix, as the provider wrote it.
#[derive(Debug)]
pub struct ProviderPromptCacheHandle {
    pub payload: serde_json::Value,
}

impl ProviderPromptCacheHandle {
    /// The stable hash of the handle's payload.
    pub fn hash(&self) -> (r: String)
        ensures
            stable_hash_of(r@, self.payload),
    {
        stable_json_sha256_hex(&self.payload)
    }

    /// A copy of the handle.
    pub fn duplicate(&self) -> (r: Self)
        ensures
            r.payload == self.payload,
    {
        ProviderPromptCacheHandle { payload: self.payload.clone() }
    }
}

/// A copy of an optional handle.
pub fn duplicate_handle(h: &Option<ProviderPromptCacheHandle>) -> (r: Option<ProviderPromptCacheHandle>)
    ensures
        r is Some <==> h is Some,
        h is Some ==> r->0.payload == h->0.payload,
{
    match h {
        Some(h) => Some(h.duplicate()),
        None => None,
    }
}

/// What a request asks of the provider's own prompt cache.
#[derive(Debug)]
pub struct ProviderPromptCacheHint {
    pub strategy: ProviderPromptCacheStrategy,
    pub handle: Option<ProviderPromptCacheHandle>,
}

/// What a provider reported of its prompt cache for one call.
#[derive(Debug)]
pub struct ProviderPromptCacheObservation {
    pub cache_source: ProviderPromptCacheSource,
    pub provider_strategy: ProviderPromptCacheStrategy,
    pub provider_cache_status: ProviderPromptCacheStatus,
    pub provider_handle_hash: Option<String>,
    pub provider_handle: Option<ProviderPromptCacheHandle>,
}

/// The three views of a request that the prompt cache keys on, their
/// stable hashes, and the provider's caching strategy.
#[derive(Debug)]
pub struct PromptCachePlan {
    pub l0_view: serde_json::Value,
    pub l1_view: serde_json::Value,
    pub l2_view: serde_json::Value,
    pub l0_hash: String,
    pub l1_hash: String,
    pub l2_hash: String,
    pub provider_strategy: ProviderPromptCacheStrategy,
}

impl PromptCachePlan {
    /// A plan over three views, each hashed.
    pub fn new(
        l0_view: serde_json::Value,
        l1_view: serde_json::Value,
        l2_view: serde_json::Value,
        provider_strategy: ProviderPromptCacheStrategy,
    ) -> (r: Self)
        ensures
            r.l0_view == l0_view,
            r.l1_view == l1_view,
            r.l2_view == l2_view,
            stable_hash_of(r.l0_hash@, l0_view),
            stable_hash_of(r.l1_hash@, l1_view),
            stable_hash_of(r.l2_hash@, l2_view),
            r.provider_strategy == provider_strategy,
    {
        let l0_hash = stable_json_sha256_hex(&l0_view);
        let l1_hash = stable_json_sha256_hex(&l1_view);
        let l2_hash = stable_json_sha256_hex(&l2_view);
        PromptCachePlan { l0_view, l1_view, l2_view, l0_hash, l1_hash, l2_hash, provider_strategy }
    }
}

/// What the local cache keeps of a prompt prefix: its key, the strategy,
/// when it was made, and the provider's handle with its hash, if any.
#[derive(Debug)]
pub struct PromptPrefixArtifact {
    pub l1_hash: String,
    pub strategy: ProviderPromptCacheStrategy,
    pub created_at_ms: u64,
    pub provider_handle: Option<ProviderPromptCacheHandle>,
    pub provider_handle_hash: Option<String>,
}

impl Clone for PromptPrefixArtifact {
    /// A copy holding the same key, strategy, time, handle and hash.
    fn clone(&self) -> (r: Self)
        ensures
            r.l1_hash == self.l1_hash,
            r.strategy == self.strategy,
            r.created_at_ms == self.created_at_ms,
            r.provider_handle is Some <==> self.provider_handle is Some,
            self.provider_handle is Some ==> r.provider_handle->0.payload == self.provider_handle->0.payload,
            r.provider_handle_hash == self.provider_handle_hash,
    {
        PromptPrefixArtifact {
            l1_hash: self.l1_hash.clone(),
            strategy: self.strategy,
            created_at_ms: self.created_at_ms,
            provider_handle: duplicate_handle(&self.provider_handle),
            provider_handle_hash: match &self.provider_handle_hash {
                Some(h) => Some(h.clone()),
                None => None,
            },
        }
    }
}

impl PromptPrefixArtifact {
    /// An artifact made at `created_at_ms` (milliseconds since the epoch,
    /// read by the caller); the handle's hash is computed here.
    pub fn new(
        l1_hash: String,
        strategy: ProviderPromptCacheStrategy,
        provider_handle: Option<ProviderPromptCacheHandle>,
        created_at_ms: u64,
    ) -> (r: Self)
        ensures
            r.l1_hash@ == l1_hash@,
            r.strategy == strategy,
            r.created_at_ms == created_at_ms,
            r.provider_handle == provider_handle,
            match provider_handle {
                Some(h) => r.provider_handle_hash matches Some(x) && stable_hash_of(x@, h.payload),
                None => r.provider_handle_hash is None,
            },
    {
        let provider_handle_hash = match &provider_handle {
            Some(h) => Some(h.hash()),
            None => None,
        };
        PromptPrefixArtifact { l1_hash, strategy, created_at_ms, provider_handle, provider_handle_hash }
    }

    /// The hint that asks the provider to reuse this prefix.
    pub fn hint(&self) -> (r: ProviderPromptCacheHint)
        ensures
            r.strategy == self.strategy,
            r.handle is Some <==> self.provider_handle is Some,
            self.provider_handle is Some ==> r.handle->0.payload == self.provider_handle->0.payload,
    {
        ProviderPromptCacheHint { strategy: self.strategy, handle: duplicate_handle(&self.provider_handle) }
    }
}

/// The field `key` of `v` is `src`, or `null` when `src` is `None`.
pub open spec fn field_is(v: serde_json::Value, key: Seq<char>, src: Option<serde_json::Value>) -> bool {
    match src {
        Some(x) => json_field_of(v, key) == Some(x),
        None => json_field_of(v, key) matches Some(n) && json_kind_of(n) == JsonKind::Null,
    }
}

/// `v` is an object with exactly the three fields `k0`, `k1`, `k2` holding
/// `s0`, `s1`, `s2` as [`field_is`] says.
pub open spec fn object_of3(
    v: serde_json::Value,
    k0: Seq<char>,
    s0: Option<serde_json::Value>,
    k1: Seq<char>,
    s1: Option<serde_json::Value>,
    k2: Seq<char>,
    s2: Option<serde_json::Value>,
) -> bool {
    &&& json_kind_of(v) == JsonKind::Object
    &&& field_is(v, k0, s0)
    &&& field_is(v, k1, s1)
    &&& field_is(v, k2, s2)
    &&& forall|k: Seq<char>| k != k0 && k != k1 && k != k2 ==> #[trigger] json_field_of(v, k) is None
}

/// `v` is an object with exactly two fields: `k0` an array of `items`,
/// and `k1` as [`field_is`] says of `s1`.
pub open spec fn object_of_items(
    v: serde_json::Value,
    k0: Seq<char>,
    items: Seq<serde_json::Value>,
    k1: Seq<char>,
    s1: Option<serde_json::Value>,
) -> bool {
    &&& json_kind_of(v) == JsonKind::Object
    &&& json_field_of(v, k0) matches Some(a) && json_kind_of(a) == JsonKind::Array && json_items_of(a) == items
    &&& field_is(v, k1, s1)
    &&& forall|k: Seq<char>| k != k0 && k != k1 ==> #[trigger] json_field_of(v, k) is None
}

/// The messages of a chat payload: its `messages` array, or none.
pub open spec fn payload_messages(payload: serde_json::Value) -> Seq<serde_json::Value> {
    match json_field_of(payload, "messages"@) {
        Some(m) => if json_kind_of(m) == JsonKind::Array {
            json_items_of(m)
        } else {
            Seq::empty()
        },
        None => Seq::empty(),
    }
}

/// A payload message whose role is `system` or `developer`.
pub open spec fn is_instruction_message(m: serde_json::Value) -> bool {
    json_str_field(m, "role"@) == Some("system"@) || json_str_field(m, "role"@) == Some("developer"@)
}

/// How many leading messages are instruction messages.
pub open spec fn instruction_prefix_len(ms: Seq<serde_json::Value>) -> nat
    decreases ms.len(),
{
    if ms.len() > 0 && is_instruction_message(ms[0]) {
        1 + instruction_prefix_len(ms.drop_first())
    } else {
        0
    }
}

/// The tools of a payload: its `tools`, else its `tools_payload`.
pub open spec fn payload_tools(payload: serde_json::Value) -> Option<serde_json::Value> {
    match json_field_of(payload, "tools"@) {
        Some(t) => Some(t),
        None => json_field_of(payload, "tools_payload"@),
    }
}

/// The three views a payload is hashed by: settings (`l0`), the stable
/// prefix of instruction messages with the tools (`l1`), and the rest of
/// the conversation with the pending summarization event (`l2`).
pub open spec fn payload_views(
    payload: serde_json::Value,
    summarization_event: Option<serde_json::Value>,
    l0: serde_json::Value,
    l1: serde_json::Value,
    l2: serde_json::Value,
) -> bool {
    let ms = payload_messages(payload);
    let p = instruction_prefix_len(ms) as int;
    &&& object_of3(
        l0,
        "tool_choice"@,
        json_field_of(payload, "tool_choice"@),
        "response_format"@,
        json_field_of(payload, "response_format"@),
        "structured_output"@,
        json_field_of(payload, "structured_output"@),
    )
    &&& object_of_items(l1, "prefix_messages"@, ms.take(p), "tools"@, payload_tools(payload))
    &&& object_of_items(l2, "messages"@, ms.skip(p), "summarization_event"@, summarization_event)
}

proof fn lemma_instruction_prefix_exact(ms: Seq<serde_json::Value>, n: int)
    requires
        0 <= n <= ms.len(),
        forall|i: int| 0 <= i < n ==> is_instruction_message(#[trigger] ms[i]),
        n < ms.len() ==> !is_instruction_message(ms[n]),
    ensures
        instruction_prefix_len(ms) == n,
    decreases n,
{
    if n > 0 {
        assert forall|i: int| 0 <= i < n - 1 implies is_instruction_message(#[trigger] ms.drop_first()[i]) by {
            assert(ms.drop_first()[i] == ms[i + 1]);
        }
        if n - 1 < ms.drop_first().len() {
            assert(ms.drop_first()[n - 1] == ms[n]);
        }
        lemma_instruction_prefix_exact(ms.drop_first(), n - 1);
    }
}

fn or_null(v: Option<serde_json::Value>) -> (r: serde_json::Value)
    ensures
        match v {
            Some(x) => r == x,
            None => json_kind_of(r) == JsonKind::Null,
        },
{
    match v {
        Some(x) => x,
        None => json_null(),
    }
}

fn copy_items(xs: &Vec<serde_json::Value>, a: usize, b: usize) -> (r: Vec<serde_json::Value>)
    requires
        a <= b <= xs.len(),
    ensures
        r@ == xs@.subrange(a as int, b as int),
{
    let mut out: Vec<serde_json::Value> = Vec::new();
    let mut i: usize = a;
    while i < b
        invariant
            a <= i <= b <= xs.len(),
            out@ == xs@.subrange(a as int, i as int),
        decreases b - i,
    {
        out.push(xs[i].clone());
        assert(out@ =~= xs@.subrange(a as int, i as int + 1));
        i = i + 1;
    }
    out
}

/// The cache plan of a chat payload: its three views as
/// [`payload_views`] says (the summarization event is the state's
/// `_summarization_event`), hashed, with the stable-prefix strategy.
pub fn build_prompt_cache_plan_from_payload(payload: &serde_json::Value, state: &AgentState) -> (r: PromptCachePlan)
    ensures
        payload_views(
            *payload,
            if state.extra.map().dom().contains("_summarization_event"@) {
                Some(state.extra.map()["_summarization_event"@])
            } else {
                None
            },
            r.l0_view,
            r.l1_view,
            r.l2_view,
        ),
        stable_hash_of(r.l0_hash@, r.l0_view),
        stable_hash_of(r.l1_hash@, r.l1_view),
        stable_hash_of(r.l2_hash@, r.l2_view),
        r.provider_strategy == ProviderPromptCacheStrategy::StablePrefix,
{
    proof {
        reveal_strlit("tool_choice");
        reveal_strlit("response_format");
        reveal_strlit("structured_output");
        reveal_strlit("prefix_messages");
        reveal_strlit("tools");
        reveal_strlit("messages");
        reveal_strlit("summarization_event");
        assert("tool_choice"@.len() == 11 && "response_format"@.len() == 15 && "structured_output"@.len() == 17);
        assert("prefix_messages"@.len() == 15 && "tools"@.len() == 5);
        assert("messages"@.len() == 8 && "summarization_event"@.len() == 19);
    }
    let mut l0 = json_empty_object();
    let ghost e0 = l0;
    json_insert_field(&mut l0, "tool_choice", or_null(json_field(payload, "tool_choice")));
    let ghost a0 = l0;
    json_insert_field(&mut l0, "response_format", or_null(json_field(payload, "response_format")));
    let ghost b0 = l0;
    json_insert_field(&mut l0, "structured_output", or_null(json_field(payload, "structured_output")));
    proof {
        assert forall|k: Seq<char>| k != "tool_choice"@ && k != "response_format"@ && k != "structured_output"@ implies #[trigger] json_field_of(l0, k) is None by {
            assert(json_field_of(l0, k) == json_field_of(b0, k));
            assert(json_field_of(b0, k) == json_field_of(a0, k));
            assert(json_field_of(a0, k) == json_field_of(e0, k));
        }
        assert(json_field_of(l0, "tool_choice"@) == json_field_of(b0, "tool_choice"@));
        assert(json_field_of(b0, "tool_choice"@) == json_field_of(a0, "tool_choice"@));
        assert(json_field_of(l0, "response_format"@) == json_field_of(b0, "response_format"@));
    }
    let messages = match json_field(payload, "messages") {
        Some(m) => match json_array_items(&m) {
            Some(xs) => xs,
            None => Vec::new(),
        },
        None => Vec::new(),
    };
    let ghost ms = messages@;
    assert(ms == payload_messages(*payload));
    let mut p: usize = 0;
    while p < messages.len()
        invariant
            p <= messages.len(),
            ms == messages@,
            forall|i: int| 0 <= i < p ==> is_instruction_message(#[trigger] ms[i]),
        ensures
            p <= messages.len(),
            forall|i: int| 0 <= i < p ==> is_instruction_message(#[trigger] ms[i]),
            p < messages.len() ==> !is_instruction_message(ms[p as int]),
        decreases messages.len() - p,
    {
        let is_instruction = match json_get_str(&messages[p], "role") {
            Some(role) => str_eq(role.as_str(), "system") || str_eq(role.as_str(), "developer"),
            None => false,
        };
        if !is_instruction {
            break;
        }
        p = p + 1;
    }
    proof {
        lemma_instruction_prefix_exact(ms, p as int);
    }
    let tools = match json_field(payload, "tools") {
        Some(t) => Some(t),
        None => json_field(payload, "tools_payload"),
    };
    let mut l1 = json_empty_object();
    let ghost e1 = l1;
    json_insert_field(&mut l1, "prefix_messages", json_from_items(copy_items(&messages, 0, p)));
    let ghost a1 = l1;
    json_insert_field(&mut l1, "tools", or_null(tools));
    proof {
        assert(ms.subrange(0, p as int) =~= ms.take(p as int));
        assert(json_field_of(l1, "prefix_messages"@) == json_field_of(a1, "prefix_messages"@));
        assert forall|k: Seq<char>| k != "prefix_messages"@ && k != "tools"@ implies #[trigger] json_field_of(l1, k) is None by {
            assert(json_field_of(l1, k) == json_field_of(a1, k));
            assert(json_field_of(a1, k) == json_field_of(e1, k));
        }
    }
    let summarization_event = match state.extra.get("_summarization_event") {
        Some(v) => Some(v.clone()),
        None => None,
    };
    let mut l2 = json_empty_object();
    let ghost e2 = l2;
    json_insert_field(&mut l2, "messages", json_from_items(copy_items(&messages, p, messages.len())));
    let ghost a2 = l2;
    json_insert_field(&mut l2, "summarization_event", or_null(summarization_event));
    proof {
        assert(ms.subrange(p as int, ms.len() as int) =~= ms.skip(p as int));
        assert(json_field_of(l2, "messages"@) == json_field_of(a2, "messages"@));
        assert forall|k: Seq<char>| k != "messages"@ && k != "summarization_event"@ implies #[trigger] json_field_of(l2, k) is None by {
            assert(json_field_of(l2, k) == json_field_of(a2, k));
            assert(json_field_of(a2, k) == json_field_of(e2, k));
        }
    }
    PromptCachePlan::new(l0, l1, l2, ProviderPromptCacheStrategy::StablePrefix)
}

} // verus!
