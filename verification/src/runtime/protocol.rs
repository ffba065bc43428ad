//! Records and settings of a runtime run.
use vstd::prelude::*;

verus! {

/// A tool offered to the model.
#[derive(Debug)]
pub struct ToolSpec {
    pub name: String,
    pub description: String,
    /// The JSON schema of the tool's input.
    pub input_schema: serde_json::Value,
}

impl Clone for ToolSpec {
    fn clone(&self) -> (r: Self)
        ensures
            r.name@ == self.name@,
            r.description@ == self.description@,
            r.input_schema == self.input_schema,
    {
        ToolSpec {
            name: self.name.clone(),
            description: self.description.clone(),
            input_schema: self.input_schema.clone(),
        }
    }
}

/// An error that ended a run.
#[derive(Debug, Clone)]
pub struct RuntimeError {
    pub code: String,
    pub message: String,
}

/// How a run ended.
#[derive(Debug, Clone, Copy, PartialEq, Eq, Structural)]
pub enum RunStatus {
    Completed,
    Interrupted,
    Error,
}

impl Default for RunStatus {
    fn default() -> (r: Self)
        ensures
            r == RunStatus::Completed,
    {
        RunStatus::Completed
    }
}

/// What a person asked to approve a tool call may do with it.
#[derive(Debug, Clone)]
pub struct HitlPolicy {
    pub allow_approve: bool,
    pub allow_reject: bool,
    pub allow_edit: bool,
}

impl Default for HitlPolicy {
    fn default() -> (r: Self)
        ensures
            r.allow_approve && r.allow_reject && r.allow_edit,
    {
        HitlPolicy { allow_approve: true, allow_reject: true, allow_edit: true }
    }
}

/// How an interrupt is shown.
#[derive(Debug, Clone)]
pub struct HitlHints {
    pub display: Option<String>,
    pub danger_level: Option<String>,
}

/// Limits of a run.
#[derive(Debug, Clone)]
pub struct RuntimeConfig {
    pub max_steps: usize,
    pub provider_timeout_ms: u64,
}

impl Default for RuntimeConfig {
    /// 8 steps, one second per provider call.
    fn default() -> (r: Self)
        ensures
            r.max_steps == 8,
            r.provider_timeout_ms == 1000,
    {
        RuntimeConfig { max_steps: 8, provider_timeout_ms: 1000 }
    }
}

/// What a middleware made of a tool call it served.
#[derive(Debug)]
pub struct HandledToolCall {
    pub output: serde_json::Value,
    pub error: Option<String>,
}

} // verus!
