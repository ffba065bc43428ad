//! What a provider returns for one step, and the events it streams.
use vstd::prelude::*;

use crate::json::{JsonKind, json_as_string, json_empty_object, json_kind, json_kind_of, json_parse, json_parsed, json_parses_to_object, json_str_of};
use crate::text::{decimal, is_blank, owned, push_str, str_is_blank, u64_to_decimal};
use crate::types::{ToolCall, clone_opt, opt_str_view};

verus! {

/// A tool call as a provider reports it.
#[derive(Debug)]
pub struct AgentToolCall {
    pub tool_name: String,
    pub arguments: serde_json::Value,
    pub call_id: Option<String>,
}

impl Clone for AgentToolCall {
    fn clone(&self) -> (r: Self)
        ensures
            r == *self,
    {
        AgentToolCall {
            tool_name: self.tool_name.clone(),
            arguments: self.arguments.clone(),
            call_id: clone_opt(&self.call_id),
        }
    }
}

/// An error a provider reports in place of a step.
#[derive(Debug, Clone)]
pub struct AgentProviderError {
    pub code: String,
    pub message: String,
}

/// What a provider returns for one step.
#[derive(Debug)]
pub enum AgentStep {
    AssistantMessage { text: String },
    AssistantMessageWithToolCalls { text: String, calls: Vec<AgentToolCall> },
    FinalText { text: String },
    ToolCalls { calls: Vec<AgentToolCall> },
    Error { error: AgentProviderError },
}

/// An event streamed while a step runs.
#[derive(Debug, Clone, PartialEq, Eq)]
pub enum AgentProviderEvent {
    AssistantTextDelta { text: String },
    ToolCallArgsDelta { tool_call_id: String, delta: String },
    Usage { input_tokens: Option<u64>, output_tokens: Option<u64>, total_tokens: Option<u64> },
}

/// Collects streamed events in order.
#[derive(Debug)]
pub struct VecAgentProviderEventCollector {
    events: Vec<AgentProviderEvent>,
}

impl VecAgentProviderEventCollector {
    pub closed spec fn events(&self) -> Seq<AgentProviderEvent> {
        self.events@
    }

    /// An empty collector.
    pub fn new() -> (r: Self)
        ensures
            r.events() == Seq::<AgentProviderEvent>::empty(),
    {
        VecAgentProviderEventCollector { events: Vec::new() }
    }

    /// Records one event after the others.
    pub fn emit(&mut self, event: AgentProviderEvent)
        ensures
            final(self).events() == old(self).events().push(event),
    {
        self.events.push(event);
    }

    /// The events, in the order they came (see
    /// [`law_emits_then_into_events`]).
    pub fn into_events(self) -> (r: Vec<AgentProviderEvent>)
        ensures
            r@ == self.events(),
    {
        self.events
    }
}

/// The events a collector holds after `emit` of each of `es`, in order,
/// starting from `start`: each call's contract appends its event.
pub open spec fn after_emits(start: Seq<AgentProviderEvent>, es: Seq<AgentProviderEvent>) -> Seq<AgentProviderEvent>
    decreases es.len(),
{
    if es.len() == 0 {
        start
    } else {
        after_emits(start, es.drop_last()).push(es.last())
    }
}

/// Emitting events one by one and then taking them with `into_events`
/// gives them all, in the order they were emitted, after those already
/// held; from a new collector, exactly the emitted events.
pub proof fn law_emits_then_into_events(start: Seq<AgentProviderEvent>, es: Seq<AgentProviderEvent>)
    ensures
        after_emits(start, es) == start + es,
        after_emits(Seq::empty(), es) == es,
    decreases es.len(),
{
    if es.len() > 0 {
        law_emits_then_into_events(start, es.drop_last());
        assert(start + es =~= (start + es.drop_last()).push(es.last()));
        assert(es =~= es.drop_last().push(es.last()));
    } else {
        assert(start + es =~= start);
    }
    assert(Seq::<AgentProviderEvent>::empty() + es =~= es);
    if es.len() > 0 {
        law_emits_then_into_events(Seq::empty(), es.drop_last());
    }
}

/// The name a call keeps: `unknown` in place of a blank one.
pub open spec fn normalized_name(name: Seq<char>) -> Seq<char> {
    if is_blank(name) {
        "unknown"@
    } else {
        name
    }
}

/// Number of calls among `calls` that come without an id.
pub open spec fn missing_ids(calls: Seq<AgentToolCall>) -> nat
    decreases calls.len(),
{
    if calls.len() == 0 {
        0
    } else {
        missing_ids(calls.drop_last()) + if calls.last().call_id is None {
            1nat
        } else {
            0nat
        }
    }
}

/// What normalizing does to call `k` of `calls`, the counter starting at
/// `next`: the name as [`normalized_name`] gives it; the id kept, or
/// `call-<n>` with the counter's value; and the arguments kept when they
/// are an object, an empty object in place of `null`, and a JSON string
/// that holds an object replaced by that object.
pub open spec fn normalized_call(calls: Seq<AgentToolCall>, next: nat, k: int, r: AgentToolCall) -> bool {
    let c = calls[k];
    &&& r.tool_name@ == normalized_name(c.tool_name@)
    &&& match c.call_id {
        Some(id) => r.call_id == Some(id),
        None => opt_str_view(r.call_id) == Some("call-"@ + decimal(next + missing_ids(calls.take(k)))),
    }
    &&& match json_kind_of(c.arguments) {
        JsonKind::Null => json_kind_of(r.arguments) == JsonKind::Object,
        JsonKind::String => if json_parses_to_object(json_str_of(c.arguments)) {
            json_parsed(json_str_of(c.arguments)) == Some(r.arguments)
        } else {
            r.arguments == c.arguments
        },
        _ => r.arguments == c.arguments,
    }
}

/// Makes provider tool calls safe to handle: every call gets a name, an id
/// and object arguments where they can be had.
pub fn normalize_provider_tool_calls(calls: Vec<AgentToolCall>, next_call_id: &mut u64) -> (r: Vec<AgentToolCall>)
    requires
        *old(next_call_id) + calls.len() <= u64::MAX,
    ensures
        r.len() == calls.len(),
        forall|k: int| 0 <= k < calls.len() ==> normalized_call(calls@, *old(next_call_id) as nat, k, #[trigger] r@[k]),
        *final(next_call_id) == *old(next_call_id) + missing_ids(calls@),
{
    let ghost start = *next_call_id as nat;
    let mut out: Vec<AgentToolCall> = Vec::new();
    let mut i: usize = 0;
    while i < calls.len()
        invariant
            i <= calls.len(),
            out.len() == i,
            start + calls.len() <= u64::MAX,
            *next_call_id == start + missing_ids(calls@.take(i as int)),
            missing_ids(calls@.take(i as int)) <= i,
            forall|k: int| 0 <= k < i ==> normalized_call(calls@, start, k, #[trigger] out@[k]),
        decreases calls.len() - i,
    {
        let c = &calls[i];
        assert(calls@.take(i as int + 1).drop_last() =~= calls@.take(i as int));
        let tool_name = if str_is_blank(c.tool_name.as_str()) {
            owned("unknown")
        } else {
            c.tool_name.clone()
        };
        let call_id = match &c.call_id {
            Some(id) => Some(id.clone()),
            None => {
                let mut id = owned("call-");
                let n = u64_to_decimal(*next_call_id);
                push_str(&mut id, n.as_str());
                *next_call_id = *next_call_id + 1;
                Some(id)
            },
        };
        let arguments = match json_kind(&c.arguments) {
            JsonKind::Null => json_empty_object(),
            JsonKind::String => {
                let text = json_as_string(&c.arguments).unwrap();
                match json_parse(text.as_str()) {
                    Ok(v) => if json_kind(&v) == JsonKind::Object {
                        v
                    } else {
                        c.arguments.clone()
                    },
                    Err(_) => c.arguments.clone(),
                }
            },
            _ => c.arguments.clone(),
        };
        let call = AgentToolCall { tool_name, arguments, call_id };
        assert(normalized_call(calls@, start, i as int, call));
        out.push(call);
        i = i + 1;
    }
    assert(calls@.take(calls.len() as int) =~= calls@);
    out
}

/// The conversation form of provider tool calls: an absent id becomes empty.
pub fn tool_calls_from_provider_calls(calls: &[AgentToolCall]) -> (r: Vec<ToolCall>)
    ensures
        r.len() == calls.len(),
        forall|k: int| 0 <= k < calls.len() ==> {
            &&& (#[trigger] r@[k]).name@ == calls@[k].tool_name@
            &&& r@[k].arguments == calls@[k].arguments
            &&& r@[k].id@ == match calls@[k].call_id {
                Some(id) => id@,
                None => Seq::<char>::empty(),
            }
        },
{
    let mut out: Vec<ToolCall> = Vec::new();
    for i in 0..calls.len()
        invariant
            out.len() == i,
            forall|k: int| 0 <= k < i ==> {
                &&& (#[trigger] out@[k]).name@ == calls@[k].tool_name@
                &&& out@[k].arguments == calls@[k].arguments
                &&& out@[k].id@ == match calls@[k].call_id {
                    Some(id) => id@,
                    None => Seq::<char>::empty(),
                }
            },
    {
        let c = &calls[i];
        let id = match &c.call_id {
            Some(id) => id.clone(),
            None => String::new(),
        };
        out.push(ToolCall { id, name: c.tool_name.clone(), arguments: c.arguments.clone() });
    }
    out
}

} // verus!
