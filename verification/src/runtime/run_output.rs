//! What a run hands back when it ends: its status, final text and error,
//! the records it kept, and a trace that names where and why it stopped,
//! with the provider cache events of the run attached.
use vstd::prelude::*;

use crate::json::{
    json_empty_object, json_field_of, json_from_str, json_from_u64, json_insert_field, json_kind, json_kind_of,
    json_str_of, json_u64_of, JsonKind,
};
use crate::runtime::protocol::{HitlHints, HitlPolicy, RunStatus, RuntimeError};
use crate::runtime::run_loop::{reason_text, FinishReason};
use crate::state::AgentState;
use crate::text::owned;

verus! {

/// A tool call the run made.
#[derive(Debug)]
pub struct ToolCallRecord {
    pub tool_name: String,
    pub arguments: serde_json::Value,
    pub call_id: Option<String>,
}

/// The result of a tool call.
#[derive(Debug)]
pub struct ToolResultRecord {
    pub tool_name: String,
    pub call_id: Option<String>,
    pub output: serde_json::Value,
    pub error: Option<String>,
    pub error_code: Option<String>,
    pub error_message: Option<String>,
    pub status: Option<String>,
}

/// A tool call held for a human decision.
#[derive(Debug)]
pub struct HitlInterrupt {
    pub interrupt_id: String,
    pub tool_name: String,
    pub tool_call_id: String,
    pub proposed_args: serde_json::Value,
    pub policy: HitlPolicy,
    pub hints: Option<HitlHints>,
}

/// What a run hands back.
#[derive(Debug)]
pub struct RunOutput {
    pub status: RunStatus,
    pub interrupts: Vec<HitlInterrupt>,
    pub final_text: String,
    pub tool_calls: Vec<ToolCallRecord>,
    pub tool_results: Vec<ToolResultRecord>,
    pub state: AgentState,
    pub error: Option<RuntimeError>,
    pub structured_output: Option<serde_json::Value>,
    pub summarization_events: Option<serde_json::Value>,
    pub trace: Option<serde_json::Value>,
}

/// The error a run ends with, by code and message: none for a run that
/// completed or waits on a human; the fixed code of each failure with the
/// message of its cause (`cause` carries what came from outside: the
/// middleware's, provider's or parser's message, the provider's own error,
/// or the reason a resume was refused); fixed texts for a timeout and for
/// running out of steps.
pub open spec fn run_error_of(reason: FinishReason, cause_code: Seq<char>, cause_message: Seq<char>) -> Option<(Seq<char>, Seq<char>)> {
    match reason {
        FinishReason::FinalText | FinishReason::Interrupt | FinishReason::InterruptPending => None,
        FinishReason::MiddlewareBeforeRunError
        | FinishReason::MiddlewareBeforeProviderStepError
        | FinishReason::MiddlewarePatchProviderStepError => Some(("middleware_error"@, cause_message)),
        FinishReason::ProviderError => Some(("provider_error"@, cause_message)),
        FinishReason::PromptCacheError => Some(("prompt_cache_error"@, cause_message)),
        FinishReason::ProviderTimeout => Some(("provider_timeout"@, "provider timed out"@)),
        FinishReason::ProviderStepError => Some((cause_code, cause_message)),
        FinishReason::StructuredOutputInvalidResponse => Some(("structured_output_invalid_response"@, cause_message)),
        FinishReason::MaxStepsExceeded => Some(("max_steps_exceeded"@, "runtime exceeded max_steps"@)),
        FinishReason::InterruptNotFound => Some(("interrupt_not_found"@, cause_message)),
        FinishReason::InvalidResume => Some(("invalid_resume"@, cause_message)),
    }
}

pub open spec fn error_view(e: Option<RuntimeError>) -> Option<(Seq<char>, Seq<char>)> {
    match e {
        Some(e) => Some((e.code@, e.message@)),
        None => None,
    }
}

/// The error a run ends with, as [`run_error_of`] says.
pub fn run_error(reason: FinishReason, cause: &RuntimeError) -> (r: Option<RuntimeError>)
    ensures
        error_view(r) == run_error_of(reason, cause.code@, cause.message@),
{
    let pair = |code: String| -> (e: Option<RuntimeError>)
        ensures
            e matches Some(x) && x.code@ == code@ && x.message@ == cause.message@,
        { Some(RuntimeError { code, message: cause.message.clone() }) };
    match reason {
        FinishReason::FinalText | FinishReason::Interrupt | FinishReason::InterruptPending => None,
        FinishReason::MiddlewareBeforeRunError
        | FinishReason::MiddlewareBeforeProviderStepError
        | FinishReason::MiddlewarePatchProviderStepError => pair(owned("middleware_error")),
        FinishReason::ProviderError => pair(owned("provider_error")),
        FinishReason::PromptCacheError => pair(owned("prompt_cache_error")),
        FinishReason::ProviderTimeout => Some(
            RuntimeError { code: owned("provider_timeout"), message: owned("provider timed out") },
        ),
        FinishReason::ProviderStepError => pair(cause.code.clone()),
        FinishReason::StructuredOutputInvalidResponse => pair(owned("structured_output_invalid_response")),
        FinishReason::MaxStepsExceeded => Some(
            RuntimeError { code: owned("max_steps_exceeded"), message: owned("runtime exceeded max_steps") },
        ),
        FinishReason::InterruptNotFound => pair(owned("interrupt_not_found")),
        FinishReason::InvalidResume => pair(owned("invalid_resume")),
    }
}

/// The run ended inside its step loop, so its trace names the step and the
/// reason; runs that wait on a human or refused a resume carry no trace.
pub open spec fn traced(reason: FinishReason) -> bool {
    !(reason is Interrupt || reason is InterruptPending || reason is InterruptNotFound || reason is InvalidResume)
}

/// `v` is the object `{"terminated_at_step": step, "reason": reason}`.
pub open spec fn is_trace(v: serde_json::Value, step: nat, reason: Seq<char>) -> bool {
    &&& json_kind_of(v) == JsonKind::Object
    &&& json_field_of(v, "terminated_at_step"@) matches Some(n) && json_u64_of(n) == Some(step as u64)
    &&& json_field_of(v, "reason"@) matches Some(t) && json_kind_of(t) == JsonKind::String && json_str_of(t) == reason
    &&& forall|k: Seq<char>|
        k != "terminated_at_step"@ && k != "reason"@ ==> #[trigger] json_field_of(v, k) is None
}

/// The trace of a run that stopped at `step` for `reason`.
pub fn run_trace(reason: FinishReason, step: u64) -> (r: Option<serde_json::Value>)
    ensures
        traced(reason) <==> r is Some,
        r matches Some(v) ==> is_trace(v, step as nat, reason_text(reason)),
{
    match reason {
        FinishReason::Interrupt | FinishReason::InterruptPending | FinishReason::InterruptNotFound
        | FinishReason::InvalidResume => None,
        _ => {
            proof {
                reveal_strlit("terminated_at_step");
                reveal_strlit("reason");
                assert("terminated_at_step"@.len() == 18 && "reason"@.len() == 6);
            }
            let mut v = json_empty_object();
            let ghost v0 = v;
            json_insert_field(&mut v, "terminated_at_step", json_from_u64(step));
            let ghost v1 = v;
            let text = reason.as_text();
            json_insert_field(&mut v, "reason", json_from_str(text.as_str()));
            proof {
                assert(json_field_of(v, "terminated_at_step"@) == json_field_of(v1, "terminated_at_step"@));
                assert forall|k: Seq<char>| k != "terminated_at_step"@ && k != "reason"@ implies #[trigger] json_field_of(v, k) is None by {
                    assert(json_field_of(v, k) == json_field_of(v1, k));
                    assert(json_field_of(v1, k) == json_field_of(v0, k));
                }
            }
            Some(v)
        },
    }
}

/// The trace with the run's cache events attached: without events the
/// trace stays; otherwise an object trace (an empty one in place of none)
/// takes them under `provider_cache_events`, and a trace that is not an
/// object stays.
pub open spec fn trace_with_events(
    trace: Option<serde_json::Value>,
    events: Option<serde_json::Value>,
    r: Option<serde_json::Value>,
) -> bool {
    match events {
        None => r == trace,
        Some(ev) => match trace {
            Some(t) if json_kind_of(t) != JsonKind::Object => r == Some(t),
            _ => r matches Some(v) && {
                &&& json_kind_of(v) == JsonKind::Object
                &&& json_field_of(v, "provider_cache_events"@) == Some(ev)
                &&& forall|k: Seq<char>|
                    k != "provider_cache_events"@ ==> #[trigger] json_field_of(v, k) == match trace {
                        Some(t) => json_field_of(t, k),
                        None => None,
                    }
            },
        },
    }
}

/// Attaches a run's cache events to its trace, as [`trace_with_events`]
/// says.
pub fn attach_provider_cache_events_to_trace(trace: Option<serde_json::Value>, events: Option<serde_json::Value>) -> (r:
    Option<serde_json::Value>)
    ensures
        trace_with_events(trace, events, r),
{
    match events {
        None => trace,
        Some(ev) => {
            let mut t = match trace {
                Some(t) => t,
                None => json_empty_object(),
            };
            if json_kind(&t) != JsonKind::Object {
                return Some(t);
            }
            json_insert_field(&mut t, "provider_cache_events", ev);
            Some(t)
        },
    }
}

/// The value under `key`, if any.
pub open spec fn extra_value(m: Map<Seq<char>, serde_json::Value>, key: Seq<char>) -> Option<serde_json::Value> {
    if m.dom().contains(key) {
        Some(m[key])
    } else {
        None
    }
}

/// The last touches to a run's output: the cache events the run gathered
/// leave the state for the trace, and the summarization events are copied
/// out of the state.
pub fn finalize_run_output(out: RunOutput) -> (r: RunOutput)
    ensures
        r.status == out.status,
        r.final_text == out.final_text,
        r.error == out.error,
        r.structured_output == out.structured_output,
        r.interrupts == out.interrupts,
        r.tool_calls == out.tool_calls,
        r.tool_results == out.tool_results,
        r.state.extra.map() == out.state.extra.map().remove("_provider_cache_events"@),
        r.state.filesystem == out.state.filesystem,
        r.state.todos == out.state.todos,
        trace_with_events(
            out.trace,
            extra_value(out.state.extra.map(), "_provider_cache_events"@),
            r.trace,
        ),
        r.summarization_events == extra_value(out.state.extra.map(), "_summarization_events"@),
{
    let RunOutput {
        status,
        interrupts,
        final_text,
        tool_calls,
        tool_results,
        mut state,
        error,
        structured_output,
        summarization_events: _,
        trace,
    } = out;
    let events = state.extra.remove("_provider_cache_events");
    let trace = attach_provider_cache_events_to_trace(trace, events);
    proof {
        reveal_strlit("_provider_cache_events");
        reveal_strlit("_summarization_events");
        assert("_provider_cache_events"@.len() == 22 && "_summarization_events"@.len() == 21);
    }
    let summarization_events = match state.extra.get("_summarization_events") {
        Some(v) => Some(v.clone()),
        None => None,
    };
    RunOutput {
        status,
        interrupts,
        final_text,
        tool_calls,
        tool_results,
        state,
        error,
        structured_output,
        summarization_events,
        trace,
    }
}

/// The records a run kept, handed over when it ends.
pub struct RunRecords {
    pub interrupts: Vec<HitlInterrupt>,
    pub tool_calls: Vec<ToolCallRecord>,
    pub tool_results: Vec<ToolResultRecord>,
    pub state: AgentState,
}

/// The output of a run that ended for `reason` with `status` at loop step
/// `step`: the final text (the model's, for a run that completed or whose
/// structured output was refused; none otherwise), its error by
/// [`run_error_of`], the structured output when it completed, the trace by
/// [`run_trace`], then finalized by [`finalize_run_output`].
pub fn run_output(
    status: RunStatus,
    reason: FinishReason,
    step: u64,
    final_text: String,
    cause: &RuntimeError,
    structured_output: Option<serde_json::Value>,
    records: RunRecords,
) -> (r: RunOutput)
    ensures
        r.status == status,
        r.final_text@ == if reason is FinalText || reason is StructuredOutputInvalidResponse {
            final_text@
        } else {
            Seq::empty()
        },
        error_view(r.error) == run_error_of(reason, cause.code@, cause.message@),
        r.structured_output == if reason is FinalText {
            structured_output
        } else {
            None
        },
        r.interrupts == records.interrupts,
        r.tool_calls == records.tool_calls,
        r.tool_results == records.tool_results,
        r.state.extra.map() == records.state.extra.map().remove("_provider_cache_events"@),
        exists|t: Option<serde_json::Value>|
            (traced(reason) <==> t is Some) && (t matches Some(v) ==> is_trace(v, step as nat, reason_text(reason)))
                && #[trigger] trace_with_events(
                t,
                extra_value(records.state.extra.map(), "_provider_cache_events"@),
                r.trace,
            ),
        r.summarization_events == extra_value(records.state.extra.map(), "_summarization_events"@),
{
    let keeps_text = match reason {
        FinishReason::FinalText | FinishReason::StructuredOutputInvalidResponse => true,
        _ => false,
    };
    let final_text = if keeps_text {
        final_text
    } else {
        String::new()
    };
    let structured_output = match reason {
        FinishReason::FinalText => structured_output,
        _ => None,
    };
    let trace = run_trace(reason, step);
    let RunRecords { interrupts, tool_calls, tool_results, state } = records;
    let out = RunOutput {
        status,
        interrupts,
        final_text,
        tool_calls,
        tool_results,
        state,
        error: run_error(reason, cause),
        structured_output,
        summarization_events: None,
        trace,
    };
    finalize_run_output(out)
}

} // verus!
