//! Catalog schema shapes: fields, routes, event/cause/action/topology
//! schemas and their plain-value views.
use vstd::prelude::*;

use crate::ir::{FieldIdx, TopoFuncIdx};
use crate::types::{ActionKind, CauseKind, EventType, ScopeType, Severity};

verus! {

/// Field type carried by the catalog.
#[derive(Debug, Clone, Copy, PartialEq, Eq, Structural)]
pub enum FieldType {
    /// `Int` scalar.
    Int,
    /// `String` scalar.
    String,
    /// `Severity` enum.
    Severity,
    /// `Confidence` scalar (0..100).
    Confidence,
    /// Stable symbolic SARIF id.
    SarifId,
    /// `ScopeId(scope_type)`.
    ScopeId(ScopeType),
    /// `List<ScopeId>`.
    ScopeIdList,
    /// `List<Int>`.
    IntList,
    /// `List<NodeId>`.
    NodeIdList,
}

/// One named field inside an event/cause/problem schema.
#[derive(Debug, Clone, Copy, PartialEq, Eq)]
pub struct FieldSchema {
    /// DSL field name.
    pub name: &'static str,
    /// Field type.
    pub field_type: FieldType,
    /// Privacy marker (`[pii]`).
    pub pii: bool,
    /// Stable field index used by IR opcodes.
    pub idx: FieldIdx,
}

/// Route from an event payload to a scope key.
#[derive(Debug, Clone, Copy, PartialEq, Eq)]
pub struct ScopeRoute {
    /// Scope type this path can route to.
    pub scope: ScopeType,
    /// Field path (e.g. `target`, `vlan`, `path`).
    pub path: &'static str,
}

/// Event catalog schema.
#[derive(Debug, Clone, PartialEq, Eq)]
pub struct EventSchema {
    /// Surface event name, e.g. `tcp.retransmission_burst`.
    pub name: &'static str,
    /// Typed event id.
    pub event_type: EventType,
    /// Declared fields in deterministic order.
    pub fields: Vec<FieldSchema>,
    /// Scope routing paths available from this event.
    pub routing_paths: Vec<ScopeRoute>,
}

/// Cause catalog schema.
#[derive(Debug, Clone, PartialEq, Eq)]
pub struct CauseSchema {
    /// Surface cause kind, e.g. `PmtudBlackhole`.
    pub name: &'static str,
    /// Typed cause id.
    pub kind: CauseKind,
    /// Valid target scopes.
    pub valid_scopes: Vec<ScopeType>,
    /// Optional default severity.
    pub default_severity: Option<Severity>,
}

/// Action target argument type.
#[derive(Debug, Clone, Copy, PartialEq, Eq, Structural)]
pub enum ActionTargetType {
    /// `ScopeId`.
    ScopeId,
    /// `List<ScopeId>`.
    ScopeIdList,
}

/// Action argument contract.
#[derive(Debug, Clone, Copy, PartialEq, Eq, Structural)]
pub enum ActionArgKind {
    /// Catalog observation kind (`request_observation`).
    ObservationKind,
    /// Catalog check kind (`run_check`).
    CheckKind,
    /// In-scope `ProblemRef` binding (`suppress_symptom`).
    ProblemRefBinding,
    /// No argument.
    NoArgument,
}

/// Action catalog schema.
#[derive(Debug, Clone, PartialEq, Eq)]
pub struct ActionSchema {
    /// Action kind.
    pub kind: ActionKind,
    /// DSL keyword spelling.
    pub name: &'static str,
    /// Argument contract for the verifier.
    pub arg_kind: ActionArgKind,
    /// Allowed target value types.
    pub target_types: Vec<ActionTargetType>,
    /// Allowed kind symbols for kind-bearing actions.
    pub allowed_kinds: Vec<&'static str>,
}

/// Topology function argument type.
#[derive(Debug, Clone, Copy, PartialEq, Eq, Structural)]
pub enum TopoArgType {
    /// `ScopeId`.
    ScopeId,
}

/// Topology function schema.
#[derive(Debug, Clone, PartialEq, Eq)]
pub struct TopoFnSchema {
    /// Function name in the DSL (`same_session`, ...).
    pub name: &'static str,
    /// Stable IR function index.
    pub func_idx: TopoFuncIdx,
    /// Arity.
    pub arity: usize,
    /// Argument types.
    pub arg_types: Vec<TopoArgType>,
}

/// One default mutual-exclusivity pair of cause kinds.
#[derive(Debug, Clone, PartialEq, Eq)]
pub struct ExclusivityPair {
    /// Left cause kind.
    pub left: CauseKind,
    /// Right cause kind.
    pub right: CauseKind,
}

/// Plain view of a topology function schema: name, index, arity, argument
/// types.
pub open spec fn topo_fn_view(s: TopoFnSchema) -> (Seq<char>, u8, usize, Seq<TopoArgType>) {
    (s.name@, s.func_idx.0, s.arity, s.arg_types@)
}

/// Plain view of an action schema.
pub open spec fn action_view(s: ActionSchema) -> (
    ActionKind,
    Seq<char>,
    ActionArgKind,
    Seq<ActionTargetType>,
    Seq<&'static str>,
) {
    (s.kind, s.name@, s.arg_kind, s.target_types@, s.allowed_kinds@)
}

/// Plain view of a cause schema: name, kind text, valid scopes, default
/// severity.
pub open spec fn cause_view(s: CauseSchema) -> (Seq<char>, Seq<char>, Seq<ScopeType>, Option<Severity>) {
    (s.name@, s.kind@, s.valid_scopes@, s.default_severity)
}

} // verus!
