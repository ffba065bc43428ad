//! The OpenAI-compatible surface: server-sent event framing and the
//! content blocks of its messages.
pub mod provider;
pub mod stream;
pub mod transport;
