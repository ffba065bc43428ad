use deepagents::runtime::protocol::{RunStatus, RuntimeError};
use deepagents::runtime::provider_cache::{push_provider_cache_event, take_provider_cache_events};
use deepagents::runtime::run_loop::FinishReason;
use deepagents::runtime::run_output::{
    attach_provider_cache_events_to_trace, run_error, run_output, run_trace, RunRecords,
};
use deepagents::state::AgentState;

fn j(text: &str) -> serde_json::Value {
    serde_json::from_str(text).unwrap()
}

fn cause(code: &str, message: &str) -> RuntimeError {
    RuntimeError { code: code.to_string(), message: message.to_string() }
}

fn records(state: AgentState) -> RunRecords {
    RunRecords { interrupts: Vec::new(), tool_calls: Vec::new(), tool_results: Vec::new(), state }
}

#[test]
fn run_errors_by_reason() {
    let c = cause("rate_limited", "slow down");
    assert!(run_error(FinishReason::FinalText, &c).is_none());
    assert!(run_error(FinishReason::Interrupt, &c).is_none());
    let e = run_error(FinishReason::MiddlewarePatchProviderStepError, &c).unwrap();
    assert_eq!((e.code.as_str(), e.message.as_str()), ("middleware_error", "slow down"));
    let e = run_error(FinishReason::ProviderStepError, &c).unwrap();
    assert_eq!((e.code.as_str(), e.message.as_str()), ("rate_limited", "slow down"));
    let e = run_error(FinishReason::ProviderTimeout, &c).unwrap();
    assert_eq!((e.code.as_str(), e.message.as_str()), ("provider_timeout", "provider timed out"));
    let e = run_error(FinishReason::MaxStepsExceeded, &c).unwrap();
    assert_eq!((e.code.as_str(), e.message.as_str()), ("max_steps_exceeded", "runtime exceeded max_steps"));
    let e = run_error(FinishReason::StructuredOutputInvalidResponse, &c).unwrap();
    assert_eq!(e.code, "structured_output_invalid_response");
}

#[test]
fn run_traces_name_step_and_reason() {
    assert_eq!(run_trace(FinishReason::FinalText, 3), Some(j(r#"{"terminated_at_step":3,"reason":"final_text"}"#)));
    assert_eq!(run_trace(FinishReason::MaxStepsExceeded, 8), Some(j(r#"{"terminated_at_step":8,"reason":"max_steps_exceeded"}"#)));
    assert_eq!(run_trace(FinishReason::Interrupt, 1), None);
    assert_eq!(run_trace(FinishReason::InvalidResume, 1), None);
}

#[test]
fn cache_events_attach_to_trace() {
    assert_eq!(attach_provider_cache_events_to_trace(Some(j("{\"a\":1}")), None), Some(j("{\"a\":1}")));
    assert_eq!(
        attach_provider_cache_events_to_trace(Some(j("{\"a\":1}")), Some(j("[1]"))),
        Some(j("{\"a\":1,\"provider_cache_events\":[1]}"))
    );
    assert_eq!(attach_provider_cache_events_to_trace(None, Some(j("[]"))), Some(j("{\"provider_cache_events\":[]}")));
    assert_eq!(attach_provider_cache_events_to_trace(Some(j("5")), Some(j("[]"))), Some(j("5")));
}

#[test]
fn run_output_is_finalized() {
    let mut state = AgentState::new();
    state.extra.insert("_provider_cache_events".to_string(), j("[{\"x\":1}]"));
    state.extra.insert("_summarization_events".to_string(), j("[2]"));
    let out = run_output(
        RunStatus::Completed,
        FinishReason::FinalText,
        2,
        "done".to_string(),
        &cause("", ""),
        Some(j("{\"ok\":true}")),
        records(state),
    );
    assert_eq!(out.status, RunStatus::Completed);
    assert_eq!(out.final_text, "done");
    assert!(out.error.is_none());
    assert_eq!(out.structured_output, Some(j("{\"ok\":true}")));
    assert_eq!(
        out.trace,
        Some(j(r#"{"terminated_at_step":2,"reason":"final_text","provider_cache_events":[{"x":1}]}"#))
    );
    assert_eq!(out.summarization_events, Some(j("[2]")));
    assert!(out.state.extra.get("_provider_cache_events").is_none());

    let out = run_output(
        RunStatus::Error,
        FinishReason::ProviderError,
        0,
        "ignored".to_string(),
        &cause("", "boom"),
        None,
        records(AgentState::new()),
    );
    assert_eq!(out.final_text, "");
    let e = out.error.unwrap();
    assert_eq!((e.code.as_str(), e.message.as_str()), ("provider_error", "boom"));
    assert_eq!(out.trace, Some(j(r#"{"terminated_at_step":0,"reason":"provider_error"}"#)));
    assert!(out.summarization_events.is_none());
}

#[test]
fn provider_cache_events_are_pushed_and_taken() {
    let mut state = AgentState::new();
    state.extra.insert("other".to_string(), j("1"));
    push_provider_cache_event(&mut state, j("{\"a\":1}"));
    push_provider_cache_event(&mut state, j("{\"b\":2}"));
    assert_eq!(state.extra.get("_provider_cache_events"), Some(&j(r#"[{"a":1},{"b":2}]"#)));
    state.extra.insert("_provider_cache_events".to_string(), j("\"broken\""));
    push_provider_cache_event(&mut state, j("3"));
    assert_eq!(state.extra.get("_provider_cache_events"), Some(&j("[3]")));
    assert_eq!(take_provider_cache_events(&mut state), Some(j("[3]")));
    assert_eq!(take_provider_cache_events(&mut state), None);
    assert_eq!(state.extra.get("other"), Some(&j("1")));
}
