//! Middlewares that run after a tool: what a tool's outcome does to the
//! agent state.
pub mod filesystem;
pub mod protocol;
