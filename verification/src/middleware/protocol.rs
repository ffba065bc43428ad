//! What a tool run leaves for the middlewares that follow it.
use vstd::prelude::*;

verus! {

/// A tool's failure: a stable code, a message, and the error that caused it.
#[derive(Debug)]
pub struct ToolError {
    pub code: String,
    pub message: String,
    pub source: anyhow::Error,
}

/// One tool run: its name, input, output and failure.
#[derive(Debug)]
pub struct ToolExecution {
    pub tool_name: String,
    pub input: serde_json::Value,
    pub output: Option<serde_json::Value>,
    pub error: Option<ToolError>,
}

} // verus!
