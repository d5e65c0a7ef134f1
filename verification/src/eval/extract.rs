//! Deterministic result extraction: the final causes, problems and audited
//! actions of a run, read out in a stable order.
use vstd::prelude::*;

use crate::eval::sink::AuditEntry;
use crate::types::{CauseKind, Confidence, EventTime, ProblemKind, SarifId, ScopeId, Severity};

verus! {

/// One cause with its final accumulated confidence.
#[derive(Debug, Clone, PartialEq, Eq)]
pub struct CauseView {
    /// Partition the cause lives in.
    pub scope: ScopeId,
    /// Cause kind.
    pub kind: CauseKind,
    /// Hypothesis target.
    pub target: ScopeId,
    /// First-infer time.
    pub time: EventTime,
    /// Final confidence.
    pub confidence: Confidence,
}

/// One emitted problem with its suppression flag.
#[derive(Debug, Clone, PartialEq, Eq)]
pub struct ProblemView {
    /// Partition the problem lives in.
    pub scope: ScopeId,
    /// Problem kind.
    pub kind: ProblemKind,
    /// Problem target.
    pub target: ScopeId,
    /// Emission watermark.
    pub time: EventTime,
    /// Emission severity.
    pub severity: Severity,
    /// Stable SARIF id.
    pub sarif_id: SarifId,
    /// Cause kinds referenced by this problem's evidence list, in stable
    /// order.
    pub cause_kinds: Vec<CauseKind>,
    /// Event field values linked through cause evidence edges: field name
    /// and rendered value, in field-name order.
    pub evidence_fields: Vec<(String, String)>,
    /// `suppress_symptom` flag (append-only retraction).
    pub superseded: bool,
}

/// Deterministically ordered extraction of the final engine state.
#[derive(Debug, Clone, PartialEq, Eq)]
pub struct Snapshot {
    /// All causes, sorted by `(scope, kind, target)`.
    pub causes: Vec<CauseView>,
    /// All problems, scopes in sorted order, per-scope emission order.
    pub problems: Vec<ProblemView>,
    /// Audited actions, sorted by `(wm, rule, kind, target)`.
    pub audit: Vec<AuditEntry>,
}

} // verus!
