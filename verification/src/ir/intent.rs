//! Effect intents: the directives a rule body dispatches over the graph
//! store, in order.
use vstd::prelude::*;

use crate::ir::{ProvKey, Symbol};
use crate::types::{ActionKind, CauseKind, MetricPath, ProblemKind, SarifId, Severity, Weight};

verus! {

/// Two competing cause kinds.
#[derive(Debug, Clone, PartialEq, Eq)]
pub struct CausePair(pub CauseKind, pub CauseKind);

/// One effect directive.
#[derive(Debug, Clone, PartialEq, Eq)]
pub enum Intent {
    /// `infer Cause(K) { target, weight, evidence }`: a clamped confidence
    /// change plus an evidence edge (evidence rules only).
    InferCause {
        /// Cause kind.
        cause: CauseKind,
        /// Target scope-key path, e.g. `rtx.target`.
        target: MetricPath,
        /// Confidence weight; negative contradicts.
        weight: Weight,
        /// Evidence binding references.
        evidence: Vec<Symbol>,
        /// Static provenance-dedup prefix.
        provenance_key: ProvKey,
        /// PII field paths of the evidence, for strict redaction.
        evidence_pii: Vec<MetricPath>,
    },
    /// `emit Problem(P) { target?, severity, evidence, sarif_id }`
    /// (decision rules only).
    EmitProblem {
        /// Problem kind.
        problem: ProblemKind,
        /// Optional target; `None` means the rule scope.
        target: Option<MetricPath>,
        /// Emission severity.
        severity: Severity,
        /// Evidence binding references.
        evidence: Vec<Symbol>,
        /// Stable SARIF id.
        sarif_id: SarifId,
        /// PII field paths, for strict redaction.
        pii: Vec<MetricPath>,
    },
    /// `action <kind>(arg?) { target?, reason?, evidence? }` for the action
    /// sink (both rule layers).
    EmitAction {
        /// Action kind.
        kind: ActionKind,
        /// Catalog observation/check kind argument, if any.
        arg: Option<Symbol>,
        /// Optional target path.
        target: Option<MetricPath>,
        /// Optional human-readable reason.
        reason: Option<String>,
        /// Evidence binding references.
        evidence: Vec<Symbol>,
    },
    /// Lowered `suppress_symptom(binding)`: marks the problem superseded
    /// (never deleted).
    SupersedeProblem {
        /// Problem kind of the suppressed binding.
        problem: ProblemKind,
        /// Target path of the suppressed problem.
        target: MetricPath,
    },
    /// `mark_ambiguous` over a mutually exclusive cause pair.
    MarkAmbiguous {
        /// The competing cause pair.
        causes: CausePair,
        /// Common target path.
        target: MetricPath,
    },
}

} // verus!
