//! Run events: the kind of a provider step and short previews of text.
use vstd::prelude::*;

use crate::provider::protocol::AgentStep;
use crate::text::{char_count, owned, push_str, take_chars};
use crate::types::{Message, ToolCall, clone_opt, opt_str_view};

verus! {

/// The kind of a provider step, as events report it.
#[derive(Debug, Clone, Copy, PartialEq, Eq, Structural)]
pub enum ProviderStepKind {
    AssistantMessage,
    FinalText,
    ToolCalls,
    SkillCall,
    Error,
}

/// A message in a few words.
#[derive(Debug, Clone)]
pub struct MessageSummary {
    pub role: String,
    pub content_preview: String,
    pub tool_call_ids: Vec<String>,
    pub tool_call_id: Option<String>,
    pub status: Option<String>,
}

/// An event sink that drops every event.
#[derive(Debug, Clone, Copy, Default)]
pub struct NoopRunEventSink;

/// The kind of a step: a step that carries tool calls counts as tool calls.
pub open spec fn step_kind(step: AgentStep) -> ProviderStepKind {
    match step {
        AgentStep::AssistantMessage { .. } => ProviderStepKind::AssistantMessage,
        AgentStep::AssistantMessageWithToolCalls { .. } => ProviderStepKind::ToolCalls,
        AgentStep::FinalText { .. } => ProviderStepKind::FinalText,
        AgentStep::ToolCalls { .. } => ProviderStepKind::ToolCalls,
        AgentStep::Error { .. } => ProviderStepKind::Error,
    }
}

/// The kind of a provider step.
pub fn provider_step_kind(step: &AgentStep) -> (r: ProviderStepKind)
    ensures
        r == step_kind(*step),
{
    match step {
        AgentStep::AssistantMessage { .. } => ProviderStepKind::AssistantMessage,
        AgentStep::AssistantMessageWithToolCalls { .. } => ProviderStepKind::ToolCalls,
        AgentStep::FinalText { .. } => ProviderStepKind::FinalText,
        AgentStep::ToolCalls { .. } => ProviderStepKind::ToolCalls,
        AgentStep::Error { .. } => ProviderStepKind::Error,
    }
}

/// A text cut to `max_chars` characters, with `...` after a cut.
pub open spec fn preview_of(text: Seq<char>, max_chars: nat) -> Seq<char> {
    if text.len() <= max_chars {
        text
    } else {
        text.take(max_chars as int) + "..."@
    }
}

/// Cuts a text to `max_chars` characters for an event.
pub fn preview_text(text: &str, max_chars: usize) -> (r: String)
    ensures
        r@ == preview_of(text@, max_chars as nat),
{
    if char_count(text) <= max_chars {
        return owned(text);
    }
    let mut head = take_chars(text, max_chars);
    push_str(&mut head, "...");
    head
}

/// The summary of one message: its role, 120 characters of its content and
/// the ids of its tool calls.
pub open spec fn summary_of(m: Message, s: MessageSummary) -> bool {
    &&& s.role@ == m.role@
    &&& s.content_preview@ == preview_of(m.content@, 120)
    &&& s.tool_call_ids@.map_values(|t: String| t@) == match m.tool_calls {
        Some(calls) => calls@.map_values(|c: ToolCall| c.id@),
        None => Seq::<Seq<char>>::empty(),
    }
    &&& opt_str_view(s.tool_call_id) == opt_str_view(m.tool_call_id)
    &&& opt_str_view(s.status) == opt_str_view(m.status)
}

fn call_ids(calls: &Vec<ToolCall>) -> (r: Vec<String>)
    ensures
        r@.map_values(|t: String| t@) == calls@.map_values(|c: ToolCall| c.id@),
{
    let mut out: Vec<String> = Vec::new();
    let mut i: usize = 0;
    while i < calls.len()
        invariant
            i <= calls.len(),
            out.len() == i,
            forall|k: int| 0 <= k < i ==> #[trigger] out@[k]@ == calls@[k].id@,
        decreases calls.len() - i,
    {
        out.push(calls[i].id.clone());
        i = i + 1;
    }
    assert(out@.map_values(|t: String| t@) =~= calls@.map_values(|c: ToolCall| c.id@));
    out
}

/// Summarizes each message for an event.
pub fn summarize_messages(messages: &[Message]) -> (r: Vec<MessageSummary>)
    ensures
        r.len() == messages.len(),
        forall|k: int| 0 <= k < messages.len() ==> summary_of(messages@[k], #[trigger] r@[k]),
{
    let mut out: Vec<MessageSummary> = Vec::new();
    let mut i: usize = 0;
    while i < messages.len()
        invariant
            i <= messages.len(),
            out.len() == i,
            forall|k: int| 0 <= k < i ==> summary_of(messages@[k], #[trigger] out@[k]),
        decreases messages.len() - i,
    {
        let m = &messages[i];
        let ids = match &m.tool_calls {
            Some(calls) => call_ids(calls),
            None => {
                let v: Vec<String> = Vec::new();
                assert(v@.map_values(|t: String| t@) =~= Seq::<Seq<char>>::empty());
                v
            },
        };
        out.push(
            MessageSummary {
                role: m.role.clone(),
                content_preview: preview_text(m.content.as_str(), 120),
                tool_call_ids: ids,
                tool_call_id: clone_opt(&m.tool_call_id),
                status: clone_opt(&m.status),
            },
        );
        i = i + 1;
    }
    out
}

} // verus!
