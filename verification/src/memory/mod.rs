//! The memory subsystem: data model, scope-aware access control, identity
//! resolution, the in-memory state of the file-backed store, and retrieval
//! helpers.
pub mod access;
pub mod gather;
pub mod identity;
pub mod laws;
pub mod protocol;
pub mod query_plan;
pub mod retrieval;
pub mod store;

pub use protocol::{
    MemoryDiagnostics, MemoryEntry, MemoryError, MemoryErrorCode, MemoryEvictionPolicy,
    MemoryEvictionReport, MemoryPolicy, MemoryQuery, MemoryScope, MemoryStatus, MemoryType,
};

