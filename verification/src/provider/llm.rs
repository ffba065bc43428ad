//! What a provider can do, as reported in diagnostics.
use vstd::prelude::*;

use crate::provider::catalog::MultimodalInputRoles;
use crate::provider::protocol::{AgentStep, AgentToolCall};
use crate::text::{join, joined, owned, str_eq};
use crate::types::{clone_messages, messages_view, Message, MessageView};

verus! {

/// The JSON shape a final answer must take.
#[derive(Debug)]
pub struct StructuredOutputSpec {
    pub name: String,
    pub schema: serde_json::Value,
    pub description: Option<String>,
    pub strict: bool,
}

/// Whether, and which, tools the model is asked to call.
#[derive(Debug)]
pub enum ToolChoice {
    /// The model decides.
    Auto,
    /// Tools are off for the request.
    NoTools,
    /// At least one tool call is owed.
    Required,
    /// Every call must be of the named tool.
    Named { name: String },
}

impl Clone for ToolChoice {
    fn clone(&self) -> (r: Self)
        ensures
            r == *self,
    {
        match self {
            ToolChoice::Auto => ToolChoice::Auto,
            ToolChoice::NoTools => ToolChoice::NoTools,
            ToolChoice::Required => ToolChoice::Required,
            ToolChoice::Named { name } => ToolChoice::Named { name: name.clone() },
        }
    }
}

/// Capabilities of the provider surface that the runtime relies on.
#[derive(Debug, Clone, Copy, Default, PartialEq, Eq, Structural)]
pub struct ProviderSurfaceCapabilities {
    pub supports_provider_streaming: bool,
    pub supports_tool_choice: bool,
    pub reports_usage: bool,
    pub supports_structured_output: bool,
}

impl ProviderSurfaceCapabilities {
    /// No capability is on.
    pub fn is_disabled(&self) -> (r: bool)
        ensures
            r == (!self.supports_provider_streaming && !self.supports_tool_choice && !self.reports_usage
                && !self.supports_structured_output),
    {
        !self.supports_provider_streaming && !self.supports_tool_choice && !self.reports_usage
            && !self.supports_structured_output
    }
}

/// What an underlying chat model provider supports.
#[derive(Debug, Clone, Copy, PartialEq, Eq)]
pub struct LlmProviderCapabilities {
    pub supports_streaming: bool,
    pub supports_tool_calling: bool,
    pub reports_usage: bool,
    pub supports_structured_output: bool,
    pub supports_reasoning_content: bool,
    /// The roles whose messages may carry images.
    pub image_input_roles: MultimodalInputRoles,
}

/// The surface a chat model provider gives the runtime: streaming, usage
/// and structured output as the model reports them, tool choice always.
pub open spec fn surface_of(c: LlmProviderCapabilities) -> ProviderSurfaceCapabilities {
    ProviderSurfaceCapabilities {
        supports_provider_streaming: c.supports_streaming,
        supports_tool_choice: true,
        reports_usage: c.reports_usage,
        supports_structured_output: c.supports_structured_output,
    }
}

impl LlmProviderCapabilities {
    /// The surface capabilities these give.
    pub fn surface(&self) -> (r: ProviderSurfaceCapabilities)
        ensures
            r == surface_of(*self),
    {
        ProviderSurfaceCapabilities {
            supports_provider_streaming: self.supports_streaming,
            supports_tool_choice: true,
            reports_usage: self.reports_usage,
            supports_structured_output: self.supports_structured_output,
        }
    }
}

/// A provider's id and capabilities.
#[derive(Debug, Clone)]
pub struct ProviderDiagnostics {
    pub provider_id: String,
    pub surface_capabilities: ProviderSurfaceCapabilities,
    pub llm_capabilities: Option<LlmProviderCapabilities>,
}

/// A provider ready for the runtime, with what it reports of itself.
#[derive(Debug)]
pub struct ProviderInitBundle<P> {
    pub provider: P,
    pub diagnostics: ProviderDiagnostics,
}

/// The bundle of a chat model provider with capabilities `capabilities`:
/// its surface as [`surface_of`] says, and the capabilities themselves.
pub fn llm_provider_bundle<P>(provider_id: &str, provider: P, capabilities: LlmProviderCapabilities) -> (r: ProviderInitBundle<P>)
    ensures
        r.provider == provider,
        r.diagnostics.provider_id@ == provider_id@,
        r.diagnostics.surface_capabilities == surface_of(capabilities),
        r.diagnostics.llm_capabilities == Some(capabilities),
{
    let surface = capabilities.surface();
    ProviderInitBundle { provider, diagnostics: ProviderDiagnostics::new(provider_id, surface, Some(capabilities)) }
}

impl ProviderDiagnostics {
    pub fn new(
        provider_id: &str,
        surface_capabilities: ProviderSurfaceCapabilities,
        llm_capabilities: Option<LlmProviderCapabilities>,
    ) -> (r: Self)
        ensures
            r.provider_id@ == provider_id@,
            r.surface_capabilities == surface_capabilities,
            r.llm_capabilities == llm_capabilities,
    {
        ProviderDiagnostics { provider_id: crate::text::owned(provider_id), surface_capabilities, llm_capabilities }
    }

    pub fn supports_provider_streaming(&self) -> (r: bool)
        ensures
            r == self.surface_capabilities.supports_provider_streaming,
    {
        self.surface_capabilities.supports_provider_streaming
    }

    pub fn supports_tool_choice(&self) -> (r: bool)
        ensures
            r == self.surface_capabilities.supports_tool_choice,
    {
        self.surface_capabilities.supports_tool_choice
    }

    pub fn reports_usage(&self) -> (r: bool)
        ensures
            r == self.surface_capabilities.reports_usage,
    {
        self.surface_capabilities.reports_usage
    }

    pub fn supports_structured_output(&self) -> (r: bool)
        ensures
            r == self.surface_capabilities.supports_structured_output,
    {
        self.surface_capabilities.supports_structured_output
    }

    /// Diagnostics of a scripted provider: tool choice and structured output.
    pub fn for_mock(provider_id: &str) -> (r: Self)
        ensures
            r.provider_id@ == provider_id@,
            r.surface_capabilities == (ProviderSurfaceCapabilities {
                supports_provider_streaming: false,
                supports_tool_choice: true,
                reports_usage: false,
                supports_structured_output: true,
            }),
            r.llm_capabilities is None,
    {
        ProviderDiagnostics::new(
            provider_id,
            ProviderSurfaceCapabilities {
                supports_provider_streaming: false,
                supports_tool_choice: true,
                reports_usage: false,
                supports_structured_output: true,
            },
            None,
        )
    }

    /// Diagnostics of a chat model provider.
    pub fn for_llm(provider_id: &str, caps: LlmProviderCapabilities) -> (r: Self)
        ensures
            r.provider_id@ == provider_id@,
            r.surface_capabilities == surface_of(caps),
            r.llm_capabilities == Some(caps),
    {
        ProviderDiagnostics::new(provider_id, caps.surface(), Some(caps))
    }
}

/// An agent provider over a chat model provider: it turns agent requests
/// into chat requests and chat answers into steps.
#[derive(Debug)]
pub struct LlmProviderAdapter<P> {
    pub inner: P,
}

impl<P> LlmProviderAdapter<P> {
    pub fn new(inner: P) -> (r: Self)
        ensures
            r.inner == inner,
    {
        LlmProviderAdapter { inner }
    }
}

/// How a chat model provider takes tools: not at all, as function tools
/// (`tools` of them), or described in the prompt.
#[derive(Debug, Clone, Copy, PartialEq, Eq, Structural)]
pub enum ToolsPayloadKind {
    NoTools,
    FunctionTools { tools: usize },
    PromptGuided,
}

/// The choice asks for at least one call.
pub open spec fn needs_tools(choice: ToolChoice) -> bool {
    choice is Required || choice is Named
}

/// Whether a tool choice can be served, and the error when not: without
/// native tool calling only prompt-guided tools can serve a choice that
/// requires calls (`prompt_guided_error` is the prompt-guided check's
/// answer); with it, a choice that requires calls needs tools offered and,
/// for function tools or none, tools in the payload.
pub open spec fn tool_choice_support_error(
    supports_tool_calling: bool,
    tool_specs: nat,
    choice: ToolChoice,
    payload: ToolsPayloadKind,
    prompt_guided_error: Option<Seq<char>>,
) -> Option<Seq<char>> {
    if !supports_tool_calling {
        match payload {
            ToolsPayloadKind::PromptGuided => prompt_guided_error,
            _ => if needs_tools(choice) {
                Some("provider_unsupported_tool_calling"@)
            } else {
                None
            },
        }
    } else if needs_tools(choice) && tool_specs == 0 {
        Some("tool_choice_requires_tools"@)
    } else {
        match payload {
            ToolsPayloadKind::PromptGuided => None,
            ToolsPayloadKind::FunctionTools { tools } => if needs_tools(choice) && tools == 0 {
                Some("tool_choice_requires_tools"@)
            } else {
                None
            },
            ToolsPayloadKind::NoTools => if needs_tools(choice) {
                Some("tool_choice_requires_tools"@)
            } else {
                None
            },
        }
    }
}

/// Checks that a tool choice can be served, as
/// [`tool_choice_support_error`] says; `prompt_guided_check` is the answer
/// of `validate_prompt_guided_tool_choice` for the same choice and tools.
pub fn validate_tool_choice_support(
    supports_tool_calling: bool,
    tool_specs: usize,
    tool_choice: &ToolChoice,
    payload: ToolsPayloadKind,
    prompt_guided_check: Result<(), String>,
) -> (r: Result<(), String>)
    ensures
        match tool_choice_support_error(
            supports_tool_calling,
            tool_specs as nat,
            *tool_choice,
            payload,
            match prompt_guided_check {
                Ok(()) => None,
                Err(e) => Some(e@),
            },
        ) {
            None => r is Ok,
            Some(e) => r matches Err(x) && x@ == e,
        },
{
    let needs = match tool_choice {
        ToolChoice::Required | ToolChoice::Named { .. } => true,
        _ => false,
    };
    if !supports_tool_calling {
        return match payload {
            ToolsPayloadKind::PromptGuided => prompt_guided_check,
            _ => if needs {
                Err(owned("provider_unsupported_tool_calling"))
            } else {
                Ok(())
            },
        };
    }
    if needs && tool_specs == 0 {
        return Err(owned("tool_choice_requires_tools"));
    }
    match payload {
        ToolsPayloadKind::PromptGuided => Ok(()),
        ToolsPayloadKind::FunctionTools { tools } => if needs && tools == 0 {
            Err(owned("tool_choice_requires_tools"))
        } else {
            Ok(())
        },
        ToolsPayloadKind::NoTools => if needs {
            Err(owned("tool_choice_requires_tools"))
        } else {
            Ok(())
        },
    }
}

/// The prompt-guided contract applies: tools are described in the prompt,
/// some are offered, and the choice does not turn them off.
pub open spec fn prompt_guided_applies(payload: ToolsPayloadKind, tool_specs: nat, choice: ToolChoice) -> bool {
    payload is PromptGuided && tool_specs > 0 && !(choice is NoTools)
}

pub fn uses_prompt_guided(payload: ToolsPayloadKind, tool_specs: usize, choice: &ToolChoice) -> (r: bool)
    ensures
        r == prompt_guided_applies(payload, tool_specs as nat, *choice),
{
    match payload {
        ToolsPayloadKind::PromptGuided => tool_specs > 0 && !matches!(choice, ToolChoice::NoTools),
        _ => false,
    }
}

/// The step of a chat answer: final text without calls; the calls, with
/// the text when there is any.
pub fn adapted_step(text: String, calls: Vec<AgentToolCall>) -> (r: AgentStep)
    ensures
        calls.len() == 0 ==> r == (AgentStep::FinalText { text }),
        calls.len() > 0 && text@.len() == 0 ==> r == (AgentStep::ToolCalls { calls }),
        calls.len() > 0 && text@.len() > 0 ==> r == (AgentStep::AssistantMessageWithToolCalls { text, calls }),
{
    if calls.len() == 0 {
        AgentStep::FinalText { text }
    } else if crate::text::char_count(text.as_str()) == 0 {
        AgentStep::ToolCalls { calls }
    } else {
        AgentStep::AssistantMessageWithToolCalls { text, calls }
    }
}

/// A role of the stable instruction prefix: `system` or `developer`.
pub open spec fn is_prefix_role(role: Seq<char>) -> bool {
    role == "system"@ || role == "developer"@
}

/// The number of leading messages with a prefix role.
pub open spec fn prefix_len(ms: Seq<MessageView>) -> nat
    decreases ms.len(),
{
    if ms.len() > 0 && is_prefix_role(ms[0].role) {
        1 + prefix_len(ms.drop_first())
    } else {
        0
    }
}

/// A message carries text only.
pub open spec fn text_only(m: MessageView) -> bool {
    m.content_blocks is None && m.reasoning_content is None && m.tool_calls is None && m.tool_call_id is None
        && m.name is None && m.status is None
}

/// The messages with a prefix of two or more text-only instruction
/// messages merged into one system message, their texts joined by a blank
/// line; other lists stay as they are.
pub open spec fn prefix_merged(ms: Seq<MessageView>, out: Seq<MessageView>) -> bool {
    let n = prefix_len(ms) as int;
    if n <= 1 || !(forall|i: int| 0 <= i < n ==> text_only(#[trigger] ms[i])) {
        out == ms
    } else {
        &&& out.len() == ms.len() - n + 1
        &&& out[0].role == "system"@
        &&& out[0].content == joined(ms.take(n).map_values(|m: MessageView| m.content), "\n\n"@)
        &&& text_only(out[0])
        &&& out.skip(1) == ms.skip(n)
    }
}

proof fn lemma_prefix_len_bound(ms: Seq<MessageView>)
    ensures
        prefix_len(ms) <= ms.len(),
        forall|i: int| 0 <= i < prefix_len(ms) ==> is_prefix_role(#[trigger] ms[i].role),
        prefix_len(ms) < ms.len() ==> !is_prefix_role(ms[prefix_len(ms) as int].role),
    decreases ms.len(),
{
    if ms.len() > 0 && is_prefix_role(ms[0].role) {
        lemma_prefix_len_bound(ms.drop_first());
        assert forall|i: int| 0 <= i < prefix_len(ms) implies is_prefix_role(#[trigger] ms[i].role) by {
            if i > 0 {
                assert(ms[i] == ms.drop_first()[i - 1]);
            }
        }
        if prefix_len(ms) < ms.len() {
            assert(ms[prefix_len(ms) as int] == ms.drop_first()[prefix_len(ms.drop_first()) as int]);
        }
    }
}

proof fn lemma_prefix_len_exact(ms: Seq<MessageView>, n: int)
    requires
        0 <= n <= ms.len(),
        forall|i: int| 0 <= i < n ==> is_prefix_role(#[trigger] ms[i].role),
        n < ms.len() ==> !is_prefix_role(ms[n].role),
    ensures
        prefix_len(ms) == n,
    decreases n,
{
    if n > 0 {
        assert forall|i: int| 0 <= i < n - 1 implies is_prefix_role(#[trigger] ms.drop_first()[i].role) by {
            assert(ms.drop_first()[i] == ms[i + 1]);
        }
        if n - 1 < ms.drop_first().len() {
            assert(ms.drop_first()[n - 1] == ms[n]);
        }
        lemma_prefix_len_exact(ms.drop_first(), n - 1);
    }
}

/// Merges the instruction prefix of a conversation, as [`prefix_merged`]
/// says.
pub fn merge_prefix_messages(messages: &[Message]) -> (r: Vec<Message>)
    ensures
        prefix_merged(messages_view(messages@), messages_view(r@)),
{
    let ghost ms = messages_view(messages@);
    let mut n: usize = 0;
    while n < messages.len() && (str_eq(messages[n].role.as_str(), "system") || str_eq(messages[n].role.as_str(), "developer"))
        invariant
            n <= messages.len(),
            ms == messages_view(messages@),
            forall|i: int| 0 <= i < n ==> is_prefix_role(#[trigger] ms[i].role),
        decreases messages.len() - n,
    {
        n = n + 1;
    }
    proof {
        lemma_prefix_len_exact(ms, n as int);
    }
    if n <= 1 {
        return clone_messages(messages);
    }
    let mut k: usize = 0;
    while k < n
        invariant
            k <= n <= messages.len(),
            ms == messages_view(messages@),
            prefix_len(ms) == n as nat,
            forall|i: int| 0 <= i < k ==> text_only(#[trigger] ms[i]),
        decreases n - k,
    {
        let m = &messages[k];
        if !(m.content_blocks.is_none() && m.reasoning_content.is_none() && m.tool_calls.is_none()
            && m.tool_call_id.is_none() && m.name.is_none() && m.status.is_none()) {
            assert(!text_only(ms[k as int]));
            return clone_messages(messages);
        }
        k = k + 1;
    }
    let mut texts: Vec<String> = Vec::new();
    let mut i: usize = 0;
    while i < n
        invariant
            i <= n <= messages.len(),
            ms == messages_view(messages@),
            texts.len() == i,
            texts@.map_values(|t: String| t@) == ms.take(i as int).map_values(|m: MessageView| m.content),
        decreases n - i,
    {
        let ghost before = texts@;
        texts.push(messages[i].content.clone());
        assert(ms[i as int].content == messages@[i as int].content@);
        assert(texts@.map_values(|t: String| t@) =~= before.map_values(|t: String| t@).push(ms[i as int].content));
        assert(texts@.map_values(|t: String| t@) =~= ms.take(i as int + 1).map_values(|m: MessageView| m.content));
        i = i + 1;
    }
    let joined_text = join(texts.as_slice(), "\n\n");
    let mut out: Vec<Message> = Vec::new();
    out.push(Message::text("system", joined_text.as_str()));
    let mut j: usize = n;
    while j < messages.len()
        invariant
            n <= j <= messages.len(),
            ms == messages_view(messages@),
            out.len() == j - n + 1,
            messages_view(out@).skip(1) == ms.subrange(n as int, j as int),
            out@[0]@.role == "system"@,
            out@[0]@.content == joined(ms.take(n as int).map_values(|m: MessageView| m.content), "\n\n"@),
            text_only(out@[0]@),
        decreases messages.len() - j,
    {
        let ghost before = out@;
        out.push(messages[j].clone());
        assert(messages_view(out@).skip(1) =~= ms.subrange(n as int, j as int + 1)) by {
            assert(messages_view(out@) =~= messages_view(before).push(ms[j as int]));
        }
        j = j + 1;
    }
    assert(ms.subrange(n as int, ms.len() as int) =~= ms.skip(n as int));
    out
}

} // verus!
