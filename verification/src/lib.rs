//! Verified core of an agent runtime: scoped memory, provider selection,
//! tool-call hygiene, todo lists, caching and the skill system.
pub mod json;
pub mod memory;
pub mod middleware;
pub mod outside;
pub mod provider;
pub mod runtime;
pub mod skills;
pub mod state;
pub mod str_map;
pub mod string_set;
pub mod subagents;
pub mod text;
pub mod types;
