//! Providers: the model catalog and level resolution, provider
//! diagnostics, and the wire-level helpers of OpenAI-compatible APIs.
pub mod catalog;
pub mod llm;
pub mod mock;
pub mod openai_compatible;
pub mod prompt_cache;
pub mod prompt_guided;
pub mod protocol;
