//! Runtime state store: events, per-scope ring buffers, wait queues,
//! partition subgraphs, limits and spill diagnostics.

pub mod diag;
pub mod event;
pub mod limits;
pub mod ring;
pub mod store;
pub mod subgraph;
pub mod waitqueue;
