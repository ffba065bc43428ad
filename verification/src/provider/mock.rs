//! A scripted provider: it answers each step with the next step of its
//! script, for tests and demonstrations.
use vstd::prelude::*;

use crate::json::{json_get_str, json_str_field};
use crate::provider::llm::{ProviderDiagnostics, ProviderInitBundle, ProviderSurfaceCapabilities};
use crate::provider::protocol::{AgentProviderError, AgentStep, AgentToolCall};
use crate::runtime::call_queue::clone_calls;
use crate::text::{chars_find, contains, first_occurrence, from_chars, lines, lines_of, occurs_at, push_str, slice_range, to_chars};
use crate::types::{clone_opt, opt_str_view};

verus! {

/// One scripted step.
#[derive(Debug)]
pub enum MockStep {
    AssistantMessage { text: String },
    AssistantMessageWithToolCalls { text: String, calls: Vec<AgentToolCall> },
    FinalText { text: String },
    /// A final text: the prefix, then the first line of the last tool
    /// result's `content` (what follows its first arrow, when it has one).
    FinalFromLastToolFirstLine { prefix: Option<String> },
    ToolCalls { calls: Vec<AgentToolCall> },
    Error { code: String, message: String },
    /// Waits `ms` milliseconds, then answers an empty final text.
    DelayMs { ms: u64 },
}

/// The steps, in the order they are answered.
#[derive(Debug)]
pub struct MockScript {
    pub steps: Vec<MockStep>,
}

/// A provider that plays a script; past its end it answers an empty final
/// text.
#[derive(Debug)]
pub struct MockProvider {
    script: MockScript,
    omit_call_ids: bool,
    next_idx: usize,
}

/// The arrow a numbered file line carries after its number.
pub open spec fn arrow() -> Seq<char> {
    seq!['\u{2192}']
}

/// What follows the first arrow of a line, or the whole line.
pub open spec fn after_first_arrow(line: Seq<char>) -> Seq<char> {
    if contains(line, arrow()) {
        let i = choose|i: int| first_occurrence(line, arrow(), i);
        line.subrange(i + 1, line.len() as int)
    } else {
        line
    }
}

/// The first line of a tool output's `content`, after its first arrow;
/// `None` without a string `content` or with an empty one.
pub open spec fn first_tool_line(output: serde_json::Value) -> Option<Seq<char>> {
    match json_str_field(output, "content"@) {
        Some(c) => if lines_of(c).len() > 0 {
            Some(after_first_arrow(lines_of(c)[0]))
        } else {
            None
        },
        None => None,
    }
}

/// The final text of a `FinalFromLastToolFirstLine` step.
pub open spec fn final_from_last_tool(prefix: Option<String>, last_output: Option<serde_json::Value>) -> Seq<char> {
    let p = match prefix {
        Some(p) => p@,
        None => Seq::empty(),
    };
    let l = match last_output {
        Some(o) => match first_tool_line(o) {
            Some(l) => l,
            None => Seq::empty(),
        },
        None => Seq::empty(),
    };
    p + l
}

/// `calls` with every call id dropped when `omit`.
pub open spec fn calls_as_sent(calls: Seq<AgentToolCall>, omit: bool, r: Seq<AgentToolCall>) -> bool {
    &&& r.len() == calls.len()
    &&& forall|i: int|
        0 <= i < calls.len() ==> {
            &&& (#[trigger] r[i]).tool_name == calls[i].tool_name
            &&& r[i].arguments == calls[i].arguments
            &&& r[i].call_id == if omit {
                None
            } else {
                calls[i].call_id
            }
        }
}

/// The answer to scripted step `step` (`None` past the end of the script),
/// with the delay waited before it.
pub open spec fn mock_answer(step: Option<MockStep>, omit: bool, last_output: Option<serde_json::Value>, r: (AgentStep, u64)) -> bool {
    match step {
        None => r.0 matches AgentStep::FinalText { text } && text@.len() == 0 && r.1 == 0,
        Some(MockStep::DelayMs { ms }) => r.0 matches AgentStep::FinalText { text } && text@.len() == 0 && r.1 == ms,
        Some(MockStep::AssistantMessage { text }) => r.0 == (AgentStep::AssistantMessage { text }) && r.1 == 0,
        Some(MockStep::AssistantMessageWithToolCalls { text, calls }) => r.0 matches AgentStep::AssistantMessageWithToolCalls {
            text: t,
            calls: cs,
        } && t == text && cs@ == calls@ && r.1 == 0,
        Some(MockStep::FinalText { text }) => r.0 == (AgentStep::FinalText { text }) && r.1 == 0,
        Some(MockStep::FinalFromLastToolFirstLine { prefix }) => r.0 matches AgentStep::FinalText { text } && text@
            == final_from_last_tool(prefix, last_output) && r.1 == 0,
        Some(MockStep::ToolCalls { calls }) => r.0 matches AgentStep::ToolCalls { calls: cs } && calls_as_sent(calls@, omit, cs@)
            && r.1 == 0,
        Some(MockStep::Error { code, message }) => r.0 matches AgentStep::Error { error } && error.code == code && error.message
            == message && r.1 == 0,
    }
}

/// The step at `idx` of a script, `None` past its end.
pub open spec fn step_at(steps: Seq<MockStep>, idx: nat) -> Option<MockStep> {
    if idx < steps.len() {
        Some(steps[idx as int])
    } else {
        None
    }
}

/// Two steps alike: equal, their call lists by their items.
spec fn same_step(a: MockStep, b: MockStep) -> bool {
    match (a, b) {
        (
            MockStep::AssistantMessageWithToolCalls { text: t1, calls: c1 },
            MockStep::AssistantMessageWithToolCalls { text: t2, calls: c2 },
        ) => t1 == t2 && c1@ == c2@,
        (MockStep::ToolCalls { calls: c1 }, MockStep::ToolCalls { calls: c2 }) => c1@ == c2@,
        _ => a == b,
    }
}

fn copy_step(s: &MockStep) -> (r: MockStep)
    ensures
        same_step(r, *s),
{
    match s {
        MockStep::AssistantMessage { text } => MockStep::AssistantMessage { text: text.clone() },
        MockStep::AssistantMessageWithToolCalls { text, calls } => MockStep::AssistantMessageWithToolCalls {
            text: text.clone(),
            calls: clone_calls(calls),
        },
        MockStep::FinalText { text } => MockStep::FinalText { text: text.clone() },
        MockStep::FinalFromLastToolFirstLine { prefix } => MockStep::FinalFromLastToolFirstLine { prefix: clone_opt(prefix) },
        MockStep::ToolCalls { calls } => MockStep::ToolCalls { calls: clone_calls(calls) },
        MockStep::Error { code, message } => MockStep::Error { code: code.clone(), message: message.clone() },
        MockStep::DelayMs { ms } => MockStep::DelayMs { ms: *ms },
    }
}

/// What follows the first arrow of a line, or the whole line.
fn strip_to_arrow(line: &str) -> (r: String)
    ensures
        r@ == after_first_arrow(line@),
{
    let cs = to_chars(line);
    let a = vec!['\u{2192}'];
    proof {
        assert(a@ =~= arrow());
    }
    match chars_find(cs.as_slice(), a.as_slice()) {
        Some(i) => {
            proof {
                let j = choose|j: int| first_occurrence(line@, arrow(), j);
                assert(occurs_at(line@, arrow(), i as int));
                if j < i {
                    assert(!occurs_at(line@, arrow(), j));
                } else if i < j {
                    assert(!occurs_at(line@, arrow(), i as int));
                }
            }
            {
            assert(i < cs.len()) by {
                assert(occurs_at(line@, arrow(), i as int));
            }
            from_chars(slice_range(cs.as_slice(), i + 1, cs.len()).as_slice())
        }
        },
        None => from_chars(cs.as_slice()),
    }
}

/// The first line of a tool output's `content`, after its first arrow.
fn first_line(output: &serde_json::Value) -> (r: Option<String>)
    ensures
        opt_str_view(r) == first_tool_line(*output),
{
    match json_get_str(output, "content") {
        Some(c) => {
            let ls = lines(c.as_str());
            if ls.len() > 0 {
                Some(strip_to_arrow(ls[0].as_str()))
            } else {
                None
            }
        },
        None => None,
    }
}

fn calls_for_sending(calls: Vec<AgentToolCall>, omit: bool) -> (r: Vec<AgentToolCall>)
    ensures
        calls_as_sent(calls@, omit, r@),
{
    if !omit {
        return calls;
    }
    let mut out: Vec<AgentToolCall> = Vec::new();
    let mut i: usize = 0;
    while i < calls.len()
        invariant
            i <= calls.len(),
            out@.len() == i,
            forall|k: int|
                0 <= k < i ==> {
                    &&& (#[trigger] out@[k]).tool_name == calls@[k].tool_name
                    &&& out@[k].arguments == calls@[k].arguments
                    &&& out@[k].call_id is None
                },
        decreases calls.len() - i,
    {
        let c = &calls[i];
        out.push(AgentToolCall { tool_name: c.tool_name.clone(), arguments: c.arguments.clone(), call_id: None });
        i = i + 1;
    }
    out
}

impl MockProvider {
    pub closed spec fn steps(&self) -> Seq<MockStep> {
        self.script.steps@
    }

    pub closed spec fn omits_call_ids(&self) -> bool {
        self.omit_call_ids
    }

    /// The index of the step answered next.
    pub closed spec fn next_index(&self) -> nat {
        self.next_idx as nat
    }

    /// A provider that plays `script` from its first step.
    pub fn from_script(script: MockScript) -> (r: Self)
        ensures
            r.steps() == script.steps@,
            !r.omits_call_ids(),
            r.next_index() == 0,
    {
        MockProvider { script, omit_call_ids: false, next_idx: 0 }
    }

    /// Like [`MockProvider::from_script`], with the call ids of its tool
    /// calls left out.
    pub fn from_script_without_call_ids(script: MockScript) -> (r: Self)
        ensures
            r.steps() == script.steps@,
            r.omits_call_ids(),
            r.next_index() == 0,
    {
        MockProvider { script, omit_call_ids: true, next_idx: 0 }
    }

    /// Answers the next step of the script, and how long to wait before
    /// answering (non-zero only for a delay step); `last_tool_output` is
    /// the output of the last tool result the request carries. The index
    /// moves on by one, wrapping at its largest value.
    pub fn step(&mut self, last_tool_output: Option<&serde_json::Value>) -> (r: (AgentStep, u64))
        ensures
            final(self).steps() == old(self).steps(),
            final(self).omits_call_ids() == old(self).omits_call_ids(),
            final(self).next_index() == if old(self).next_index() == usize::MAX {
                0
            } else {
                old(self).next_index() + 1
            },
            mock_answer(
                step_at(old(self).steps(), old(self).next_index()),
                old(self).omits_call_ids(),
                match last_tool_output {
                    Some(o) => Some(*o),
                    None => None,
                },
                r,
            ),
    {
        let idx = self.next_idx;
        self.next_idx = if idx == usize::MAX { 0 } else { idx + 1 };
        if idx >= self.script.steps.len() {
            return (AgentStep::FinalText { text: String::new() }, 0);
        }
        let step = copy_step(&self.script.steps[idx]);
        match step {
            MockStep::DelayMs { ms } => (AgentStep::FinalText { text: String::new() }, ms),
            MockStep::AssistantMessage { text } => (AgentStep::AssistantMessage { text }, 0),
            MockStep::AssistantMessageWithToolCalls { text, calls } => (AgentStep::AssistantMessageWithToolCalls { text, calls }, 0),
            MockStep::FinalText { text } => (AgentStep::FinalText { text }, 0),
            MockStep::FinalFromLastToolFirstLine { prefix } => {
                let mut out = match prefix {
                    Some(p) => p,
                    None => String::new(),
                };
                if let Some(o) = last_tool_output {
                    if let Some(line) = first_line(o) {
                        push_str(&mut out, line.as_str());
                    }
                }
                (AgentStep::FinalText { text: out }, 0)
            },
            MockStep::ToolCalls { calls } => (AgentStep::ToolCalls { calls: calls_for_sending(calls, self.omit_call_ids) }, 0),
            MockStep::Error { code, message } => (AgentStep::Error { error: AgentProviderError { code, message } }, 0),
        }
    }
}


/// The bundle of a scripted provider: it supports tool choice and
/// structured output, streams nothing, reports no usage and has no model
/// capabilities.
pub fn mock_provider_bundle(provider_id: &str, script: MockScript, omit_call_ids: bool) -> (r: ProviderInitBundle<MockProvider>)
    ensures
        r.provider.steps() == script.steps@,
        r.provider.omits_call_ids() == omit_call_ids,
        r.provider.next_index() == 0,
        r.diagnostics.provider_id@ == provider_id@,
        r.diagnostics.surface_capabilities == (ProviderSurfaceCapabilities {
            supports_provider_streaming: false,
            supports_tool_choice: true,
            reports_usage: false,
            supports_structured_output: true,
        }),
        r.diagnostics.llm_capabilities is None,
{
    let provider = if omit_call_ids {
        MockProvider::from_script_without_call_ids(script)
    } else {
        MockProvider::from_script(script)
    };
    let surface = ProviderSurfaceCapabilities {
        supports_provider_streaming: false,
        supports_tool_choice: true,
        reports_usage: false,
        supports_structured_output: true,
    };
    ProviderInitBundle { provider, diagnostics: ProviderDiagnostics::new(provider_id, surface, None) }
}

} // verus!
