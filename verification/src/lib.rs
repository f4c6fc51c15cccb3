//! Verified core of the agent runtime: chat projection state machine,
//! semantic event replay stores, and the runtime's synchronous decisions.

pub mod text;
pub mod ids;
pub mod dup;
pub mod find;
pub mod domain;
pub mod error;
pub mod event;
pub mod thread;
pub mod projection;
pub mod turn_ops;
pub mod projector;
pub mod store;
pub mod jsonl;
pub mod runtime_types;
pub mod compaction;
pub mod runtime;
pub mod plan;
pub mod subscription;
pub mod semantic;
pub mod laws;
pub mod operation_laws;
pub mod subagents;
