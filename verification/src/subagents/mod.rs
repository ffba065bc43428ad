//! Sub-agents: what a parent hands a child and takes back from it.
pub mod protocol;
