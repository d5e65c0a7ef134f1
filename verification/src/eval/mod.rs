//! The evaluator: binding values, the scope-key interner, the topology
//! oracle, the predicate interpreter, action sinks and SARIF emission.

pub mod binding;
pub mod diag;
pub mod engine;
pub mod error;
pub mod evidence;
pub mod extract;
pub mod fixtures;
pub mod sarif;
pub mod interner;
pub mod predicate;
pub mod sink;
pub mod topology;
