//! AirPulse diagnostic graph language: domain types, verified IR shapes, the
//! predicate interpreter, the runtime store (ring buffers, wait queues,
//! partition subgraphs), the topology oracle, action sinks, SARIF emission,
//! the lexer and the static catalog.

pub mod types;
pub mod ir;
pub mod store;
pub mod eval;
pub mod fuzz;
pub mod catalog;
pub mod syntax;
pub mod text;
