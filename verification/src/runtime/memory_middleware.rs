//! Injection of AGENTS.md memory into a conversation: the sources read are
//! combined, cut to a budget and framed in one system message.
use vstd::prelude::*;

use crate::memory::identity::MemoryActorInput;
use crate::memory::protocol::{MemoryDiagnostics, MemoryPolicy};
use crate::runtime::summarization_middleware::{truncate_chars, truncated};
use crate::str_map::StrMap;
use crate::text::{char_count, contains, joined, join, owned, push_str, str_contains, str_eq, u64_to_decimal, decimal};
use crate::types::{Message, MessageView, messages_view};

verus! {

/// Where memory comes from: AGENTS.md files, or the scoped store.
#[derive(Debug, Clone, Copy, PartialEq, Eq, Structural)]
pub enum MemoryRuntimeMode {
    Compatibility,
    Scoped,
}

/// How memory is loaded and injected.
#[derive(Debug, Clone)]
pub struct MemoryLoadOptions {
    pub allow_host_paths: bool,
    pub max_injected_chars: usize,
    pub max_source_bytes: usize,
    pub strict: bool,
    pub runtime_mode: MemoryRuntimeMode,
    pub store_path: String,
    pub store_policy: MemoryPolicy,
    pub actor: MemoryActorInput,
}

impl Default for MemoryLoadOptions {
    /// Host paths refused, 30 000 characters injected at most, sources of
    /// 10 MiB at most, errors fatal, AGENTS.md mode, the store at
    /// `.deepagents/memory_store.json`.
    fn default() -> (r: Self)
        ensures
            !r.allow_host_paths,
            r.max_injected_chars == 30_000,
            r.max_source_bytes == 10 * 1024 * 1024,
            r.strict,
            r.runtime_mode == MemoryRuntimeMode::Compatibility,
            r.store_path@ == ".deepagents/memory_store.json"@,
            r.store_policy == MemoryPolicy::default_spec(),
            r.actor.user_id is None && r.actor.thread_id is None && r.actor.workspace_ids@.len() == 0,
    {
        MemoryLoadOptions {
            allow_host_paths: false,
            max_injected_chars: 30_000,
            max_source_bytes: 10 * 1024 * 1024,
            strict: true,
            runtime_mode: MemoryRuntimeMode::Compatibility,
            store_path: owned(".deepagents/memory_store.json"),
            store_policy: MemoryPolicy::default(),
            actor: MemoryActorInput { user_id: None, thread_id: None, workspace_ids: Vec::new() },
        }
    }
}

/// What reading one memory source gave.
#[derive(Debug, Clone)]
pub enum SourceOutcome {
    Loaded(String),
    NotFound,
    Failed(String),
}

/// The contents read, by source (a later read of a source replaces an
/// earlier one).
pub open spec fn loaded_of(sources: Seq<String>, outcomes: Seq<SourceOutcome>) -> Map<Seq<char>, String>
    decreases outcomes.len(),
{
    if outcomes.len() == 0 || sources.len() == 0 {
        Map::empty()
    } else {
        let m = loaded_of(sources.drop_last(), outcomes.drop_last());
        match outcomes.last() {
            SourceOutcome::Loaded(c) => m.insert(sources.last()@, c),
            _ => m,
        }
    }
}

pub open spec fn count_loaded(outcomes: Seq<SourceOutcome>) -> nat
    decreases outcomes.len(),
{
    if outcomes.len() == 0 {
        0
    } else {
        count_loaded(outcomes.drop_last()) + if outcomes.last() is Loaded {
            1nat
        } else {
            0nat
        }
    }
}

pub open spec fn count_not_found(outcomes: Seq<SourceOutcome>) -> nat
    decreases outcomes.len(),
{
    if outcomes.len() == 0 {
        0
    } else {
        count_not_found(outcomes.drop_last()) + if outcomes.last() is NotFound {
            1nat
        } else {
            0nat
        }
    }
}

/// The errors met, in order.
pub open spec fn errors_of(outcomes: Seq<SourceOutcome>) -> Seq<Seq<char>>
    decreases outcomes.len(),
{
    if outcomes.len() == 0 {
        Seq::empty()
    } else {
        let e = errors_of(outcomes.drop_last());
        match outcomes.last() {
            SourceOutcome::Failed(m) => e.push(m@),
            _ => e,
        }
    }
}

/// The blocks of the sources read, `<source>\n<content>`, in the order of
/// the sources.
pub open spec fn source_blocks(sources: Seq<String>, m: Map<Seq<char>, String>) -> Seq<Seq<char>>
    decreases sources.len(),
{
    if sources.len() == 0 {
        Seq::empty()
    } else {
        let b = source_blocks(sources.drop_last(), m);
        let s = sources.last()@;
        if m.dom().contains(s) {
            b.push(s + "\n"@ + m[s]@)
        } else {
            b
        }
    }
}

/// The text that marks a cut in the combined memory.
pub open spec fn memory_cut_text() -> Seq<char> {
    "\n\n...(memory truncated)...\n\n"@
}

/// The key under which the combined memory is kept once it is cut.
pub open spec fn combined_key() -> Seq<char> {
    "__combined__"@
}

/// What combining the sources read gives: where `strict` and a source
/// failed, the first failure; else the contents by source (or, over the
/// budget, the combined text cut to it under `__combined__`) and the
/// diagnostics.
pub open spec fn combined_sources_ok(
    sources: Seq<String>,
    outcomes: Seq<SourceOutcome>,
    max_injected_chars: nat,
    contents: StrMap<String>,
    d: MemoryDiagnostics,
) -> bool {
    let m = loaded_of(sources, outcomes);
    let combined = joined(source_blocks(sources, m), "\n\n"@);
    &&& d.loaded_sources == count_loaded(outcomes)
    &&& d.skipped_not_found == count_not_found(outcomes)
    &&& d.errors@.map_values(|e: String| e@) == errors_of(outcomes)
    &&& d.combined_chars == combined.len()
    &&& if combined.len() > max_injected_chars {
        let cut = truncated(combined, max_injected_chars, memory_cut_text());
        &&& d.truncated
        &&& d.injected_chars == cut.len()
        &&& contents.map().dom() == set![combined_key()]
        &&& contents.map()[combined_key()]@ == cut
    } else {
        &&& !d.truncated
        &&& d.injected_chars == combined.len()
        &&& contents.map() == m
    }
}

/// The first error among the outcomes.
pub open spec fn first_failure(outcomes: Seq<SourceOutcome>) -> Option<Seq<char>> {
    let e = errors_of(outcomes);
    if e.len() == 0 {
        None
    } else {
        Some(e[0])
    }
}

proof fn lemma_counts_bounded(outcomes: Seq<SourceOutcome>)
    ensures
        count_loaded(outcomes) + count_not_found(outcomes) + errors_of(outcomes).len() == outcomes.len(),
    decreases outcomes.len(),
{
    if outcomes.len() > 0 {
        lemma_counts_bounded(outcomes.drop_last());
    }
}

/// Combines what reading each source gave (`outcomes[i]` for
/// `sources[i]`).
pub fn combine_sources(
    sources: &[String],
    outcomes: &[SourceOutcome],
    strict: bool,
    max_injected_chars: usize,
) -> (r: Result<(StrMap<String>, MemoryDiagnostics), String>)
    requires
        sources.len() == outcomes.len(),
    ensures
        strict && first_failure(outcomes@) is Some ==> (r matches Err(e) && first_failure(outcomes@) == Some(e@)),
        !(strict && first_failure(outcomes@) is Some) ==> (r matches Ok((c, d)) && combined_sources_ok(
            sources@,
            outcomes@,
            max_injected_chars as nat,
            c,
            d,
        )),
{
    let mut loaded: StrMap<String> = StrMap::new();
    let mut n_loaded: usize = 0;
    let mut n_missing: usize = 0;
    let mut errors: Vec<String> = Vec::new();
    let mut i: usize = 0;
    while i < sources.len()
        invariant
            i <= sources.len(),
            sources.len() == outcomes.len(),
            loaded.map() == loaded_of(sources@.take(i as int), outcomes@.take(i as int)),
            n_loaded == count_loaded(outcomes@.take(i as int)),
            n_missing == count_not_found(outcomes@.take(i as int)),
            errors@.map_values(|e: String| e@) == errors_of(outcomes@.take(i as int)),
            strict ==> errors@.len() == 0,
            n_loaded + n_missing + errors@.len() == i,
        decreases sources.len() - i,
    {
        proof {
            assert(sources@.take(i as int + 1).drop_last() =~= sources@.take(i as int));
            assert(outcomes@.take(i as int + 1).drop_last() =~= outcomes@.take(i as int));
            assert(sources@.take(i as int + 1).last() == sources@[i as int]);
            assert(outcomes@.take(i as int + 1).last() == outcomes@[i as int]);
            lemma_counts_bounded(outcomes@.take(i as int));
        }
        match &outcomes[i] {
            SourceOutcome::Loaded(c) => {
                loaded.insert(sources[i].clone(), c.clone());
                n_loaded = n_loaded + 1;
            },
            SourceOutcome::NotFound => {
                n_missing = n_missing + 1;
            },
            SourceOutcome::Failed(e) => {
                if strict {
                    proof {
                        lemma_first_failure_prefix(outcomes@, i as int);
                    }
                    return Err(e.clone());
                }
                let ghost prev = errors@.map_values(|e: String| e@);
                errors.push(e.clone());
                assert(errors@.map_values(|e: String| e@) =~= prev.push(e@));
            },
        }
        i = i + 1;
    }
    proof {
        assert(sources@.take(i as int) =~= sources@);
        assert(outcomes@.take(i as int) =~= outcomes@);
    }
    let ghost m = loaded.map();
    let mut blocks: Vec<String> = Vec::new();
    let mut k: usize = 0;
    while k < sources.len()
        invariant
            k <= sources.len(),
            m == loaded.map(),
            blocks@.map_values(|b: String| b@) == source_blocks(sources@.take(k as int), m),
        decreases sources.len() - k,
    {
        proof {
            assert(sources@.take(k as int + 1).drop_last() =~= sources@.take(k as int));
            assert(sources@.take(k as int + 1).last() == sources@[k as int]);
        }
        let ghost prev = blocks@.map_values(|b: String| b@);
        match loaded.get(sources[k].as_str()) {
            Some(content) => {
                let mut b = sources[k].clone();
                push_str(&mut b, "\n");
                push_str(&mut b, content.as_str());
                blocks.push(b);
                assert(blocks@.map_values(|b: String| b@) =~= prev.push(sources@[k as int]@ + "\n"@ + m[sources@[k as int]@]@));
            },
            None => {},
        }
        k = k + 1;
    }
    assert(sources@.take(k as int) =~= sources@);
    let combined = join(&blocks, "\n\n");
    let combined_chars = char_count(combined.as_str());
    if combined_chars > max_injected_chars {
        let cut = truncate_chars(combined.as_str(), max_injected_chars, "\n\n...(memory truncated)...\n\n");
        let injected = char_count(cut.as_str());
        let mut contents: StrMap<String> = StrMap::new();
        contents.insert(owned("__combined__"), cut);
        assert(contents.map().dom() =~= set![combined_key()]);
        let d = MemoryDiagnostics {
            loaded_sources: n_loaded,
            skipped_not_found: n_missing,
            errors,
            truncated: true,
            injected_chars: injected,
            combined_chars,
        };
        Ok((contents, d))
    } else {
        let d = MemoryDiagnostics {
            loaded_sources: n_loaded,
            skipped_not_found: n_missing,
            errors,
            truncated: false,
            injected_chars: combined_chars,
            combined_chars,
        };
        Ok((loaded, d))
    }
}

proof fn lemma_first_failure_prefix(outcomes: Seq<SourceOutcome>, i: int)
    requires
        0 <= i < outcomes.len(),
        outcomes[i] is Failed,
        errors_of(outcomes.take(i)).len() == 0,
    ensures
        first_failure(outcomes) == Some(outcomes[i]->Failed_0@),
    decreases outcomes.len(),
{
    if i < outcomes.len() - 1 {
        assert(outcomes.drop_last().take(i) =~= outcomes.take(i));
        lemma_first_failure_prefix(outcomes.drop_last(), i);
        lemma_errors_prefix_kept(outcomes);
    } else {
        assert(outcomes.drop_last() =~= outcomes.take(i));
    }
}

proof fn lemma_errors_prefix_kept(outcomes: Seq<SourceOutcome>)
    requires
        outcomes.len() > 0,
    ensures
        errors_of(outcomes.drop_last()).len() > 0 ==> errors_of(outcomes)[0] == errors_of(outcomes.drop_last())[0],
{
}

/// The guidelines and diagnostics that follow the memory in the block.
pub open spec fn memory_block_tail(d: MemoryDiagnostics) -> Seq<char> {
    "\n</agent_memory>\n\n<memory_guidelines>\nThe above <agent_memory> was loaded from files in your filesystem.\nNever store API keys, access tokens, passwords, or any other credentials in memory.\nIf the user asks you to remember something persistent (preferences, role, workflows), update memory immediately using file tools.\nIf the information is transient or sensitive, do not write it to memory.\n</memory_guidelines>\n\n<memory_diagnostics>\nloaded_sources="@
        + decimal(d.loaded_sources as nat) + "; skipped_not_found="@ + decimal(d.skipped_not_found as nat) + "; truncated="@
        + (if d.truncated {
        "true"@
    } else {
        "false"@
    }) + "; injected_chars="@ + decimal(d.injected_chars as nat) + "; combined_chars="@ + decimal(d.combined_chars as nat)
        + "\n</memory_diagnostics>\n"@
}

/// The memory in the block: the combined text where it was cut, else the
/// sources read in order (or a note that none was).
pub open spec fn memory_body(contents: Map<Seq<char>, String>, sources: Seq<String>) -> Seq<char> {
    if contents.dom().contains(combined_key()) {
        contents[combined_key()]@
    } else {
        let blocks = source_blocks(sources, contents);
        if blocks.len() == 0 {
            "(No memory loaded)"@
        } else {
            joined(blocks, "\n\n"@)
        }
    }
}

/// The system message text that injects memory.
pub open spec fn memory_block_text(contents: Map<Seq<char>, String>, sources: Seq<String>, d: MemoryDiagnostics) -> Seq<char> {
    "DEEPAGENTS_MEMORY_INJECTED_V1\n<agent_memory>\n"@ + memory_body(contents, sources) + memory_block_tail(d)
}

/// Builds the system message text that injects memory.
pub fn build_memory_block(contents: &StrMap<String>, sources: &[String], diagnostics: &MemoryDiagnostics) -> (r: String)
    ensures
        r@ == memory_block_text(contents.map(), sources@, *diagnostics),
{
    let body = match contents.get("__combined__") {
        Some(c) => c.clone(),
        None => {
            let ghost m = contents.map();
            let mut blocks: Vec<String> = Vec::new();
            let mut k: usize = 0;
            while k < sources.len()
                invariant
                    k <= sources.len(),
                    m == contents.map(),
                    blocks@.map_values(|b: String| b@) == source_blocks(sources@.take(k as int), m),
                decreases sources.len() - k,
            {
                proof {
                    assert(sources@.take(k as int + 1).drop_last() =~= sources@.take(k as int));
                    assert(sources@.take(k as int + 1).last() == sources@[k as int]);
                }
                let ghost prev = blocks@.map_values(|b: String| b@);
                match contents.get(sources[k].as_str()) {
                    Some(content) => {
                        let mut b = sources[k].clone();
                        push_str(&mut b, "\n");
                        push_str(&mut b, content.as_str());
                        blocks.push(b);
                        assert(blocks@.map_values(|b: String| b@) =~= prev.push(sources@[k as int]@ + "\n"@ + m[sources@[k as int]@]@));
                    },
                    None => {},
                }
                k = k + 1;
            }
            assert(sources@.take(k as int) =~= sources@);
            if blocks.len() == 0 {
                owned("(No memory loaded)")
            } else {
                join(&blocks, "\n\n")
            }
        },
    };
    let mut buf = owned("DEEPAGENTS_MEMORY_INJECTED_V1\n<agent_memory>\n");
    push_str(&mut buf, body.as_str());
    push_str(
        &mut buf,
        "\n</agent_memory>\n\n<memory_guidelines>\nThe above <agent_memory> was loaded from files in your filesystem.\nNever store API keys, access tokens, passwords, or any other credentials in memory.\nIf the user asks you to remember something persistent (preferences, role, workflows), update memory immediately using file tools.\nIf the information is transient or sensitive, do not write it to memory.\n</memory_guidelines>\n\n<memory_diagnostics>\nloaded_sources=",
    );
    push_str(&mut buf, u64_to_decimal(diagnostics.loaded_sources as u64).as_str());
    push_str(&mut buf, "; skipped_not_found=");
    push_str(&mut buf, u64_to_decimal(diagnostics.skipped_not_found as u64).as_str());
    push_str(&mut buf, "; truncated=");
    push_str(&mut buf, if diagnostics.truncated {
        "true"
    } else {
        "false"
    });
    push_str(&mut buf, "; injected_chars=");
    push_str(&mut buf, u64_to_decimal(diagnostics.injected_chars as u64).as_str());
    push_str(&mut buf, "; combined_chars=");
    push_str(&mut buf, u64_to_decimal(diagnostics.combined_chars as u64).as_str());
    push_str(&mut buf, "\n</memory_diagnostics>\n");
    buf
}

/// The marker that memory was injected already.
pub open spec fn injection_marker() -> Seq<char> {
    "DEEPAGENTS_MEMORY_INJECTED_V"@
}

/// Some system message carries the injection marker.
pub open spec fn has_marker(ms: Seq<MessageView>) -> bool {
    exists|i: int| 0 <= i < ms.len() && ms[i].role == "system"@ && contains(#[trigger] ms[i].content, injection_marker())
}

/// Whether memory was injected into the conversation already.
pub fn has_injection_marker(messages: &[Message]) -> (r: bool)
    ensures
        r == has_marker(messages_view(messages@)),
{
    let ghost mv = messages_view(messages@);
    let mut i: usize = 0;
    while i < messages.len()
        invariant
            i <= messages.len(),
            mv == messages_view(messages@),
            forall|k: int| 0 <= k < i ==> !(mv[k].role == "system"@ && contains(#[trigger] mv[k].content, injection_marker())),
        decreases messages.len() - i,
    {
        if str_eq(messages[i].role.as_str(), "system") && str_contains(messages[i].content.as_str(), "DEEPAGENTS_MEMORY_INJECTED_V") {
            assert(mv[i as int].content == messages@[i as int].content@);
            return true;
        }
        i = i + 1;
    }
    false
}

/// Puts the memory block first in the conversation, unless memory was
/// injected already.
pub fn inject_memory_block(messages: Vec<Message>, block: &str) -> (r: Vec<Message>)
    ensures
        has_marker(messages_view(messages@)) ==> messages_view(r@) == messages_view(messages@),
        !has_marker(messages_view(messages@)) ==> {
            &&& r@.len() == messages@.len() + 1
            &&& messages_view(r@.drop_first()) == messages_view(messages@)
            &&& r@[0].role@ == "system"@
            &&& r@[0].content@ == block@
            &&& r@[0].content_blocks is None
            &&& r@[0].tool_calls is None
            &&& r@[0].tool_call_id is None
        },
{
    if has_injection_marker(messages.as_slice()) {
        return messages;
    }
    let mut out = messages;
    let ghost before = out@;
    out.insert(0, Message::text("system", block));
    assert(out@.drop_first() =~= before);
    out
}

} // verus!
