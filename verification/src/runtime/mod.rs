//! Decisions of the agent runtime that do not wait on anything.
pub mod assembly;
pub mod cache_store;
pub mod call_policy;
pub mod call_queue;
pub mod events;
pub mod filesystem_runtime_middleware;
pub mod memory_middleware;
pub mod patch_tool_calls;
pub mod prompt_cache_runtime;
pub mod prompt_caching_middleware;
pub mod protocol;
pub mod run_loop;
pub mod run_output;
pub mod provider_cache;
pub mod skills_middleware;
pub mod stable_hash;
pub mod structured_output;
pub mod summarization_middleware;
pub mod todolist_middleware;
pub mod tool_args;
pub mod tool_compat;
pub mod tool_errors;
