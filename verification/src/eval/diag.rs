//! Engine-level diagnostics: the engine records these and continues;
//! nothing on the data path panics.
use vstd::prelude::*;

use crate::eval::error::CorrelateError;
use crate::store::diag::StoreDiagnostic;
use crate::types::{EventId, EventTime, EventType, MetricPath, RuleId, ScopeId};

verus! {

/// A non-fatal engine diagnostic.
#[derive(Debug, Clone, PartialEq, Eq)]
pub enum EngineDiagnostic {
    /// A store spill surfaced through ingest or suspend (`ADGL3004` /
    /// `ADGL3005`).
    Store(StoreDiagnostic),
    /// A predicate or correlate evaluation error; the rule instance was
    /// skipped (`ADGL3007`).
    PredicateError {
        /// The rule whose predicate failed.
        rule: RuleId,
        /// The error value.
        error: CorrelateError,
    },
    /// An intent's target path did not resolve to a scope; the intent was
    /// skipped.
    UnresolvedTarget {
        /// The rule owning the intent.
        rule: RuleId,
        /// The unresolved target path.
        path: MetricPath,
    },
    /// A target path used a tail the bound value does not support
    /// (`ADGL3008`).
    UnsupportedTargetTail {
        /// The rule owning the intent.
        rule: RuleId,
        /// The whole target path.
        path: MetricPath,
        /// The binding segment at the head of the path.
        binding: String,
        /// The unsupported tail segment.
        tail: String,
    },
    /// `max_causes_per_scope` reached; the new cause was rejected
    /// (`ADGL3102`).
    CauseCapacity {
        /// The partition at capacity.
        scope: ScopeId,
    },
    /// `max_rule_firings_per_event` reached; further firings for this
    /// ingest or resume were stopped (`ADGL3103`).
    RuleFiringsExceeded {
        /// The partition where the budget ran out.
        scope: ScopeId,
    },
    /// A `RuntimeCheck` correlate window was met; the binding resolved
    /// `Absent`.
    RuntimeCheckWindow {
        /// The rule with the unsupported window.
        rule: RuleId,
    },
    /// A resumed match referenced an anchor event no longer in the ring.
    MissingAnchor {
        /// The suspended rule.
        rule: RuleId,
    },
    /// A resumed match referenced a rule the image does not hold.
    RuleNotInImage {
        /// The missing rule id.
        rule: RuleId,
    },
    /// Offline: an out-of-order event fell inside a correlate window that
    /// had already resolved absent; audited, nothing re-inferred
    /// (`ADGL3002`).
    LateEvidence {
        /// Partition of the late event.
        scope: ScopeId,
        /// The rule whose window resolved absent.
        rule: RuleId,
        /// The late event.
        event: EventId,
        /// Its type.
        event_type: EventType,
        /// Watermark when it arrived.
        wm: EventTime,
    },
    /// Live: an event later than the allowed lateness was dropped to the
    /// late side output (`ADGL3003`).
    LateEventDropped {
        /// Partition of the dropped event.
        scope: ScopeId,
        /// The dropped event.
        event: EventId,
        /// Its time.
        time: EventTime,
        /// Watermark when it arrived.
        wm: EventTime,
    },
}

/// The stable code of a diagnostic, where one is assigned.
pub open spec fn engine_code(d: EngineDiagnostic) -> Option<Seq<char>> {
    match d {
        EngineDiagnostic::Store(StoreDiagnostic::RingBufferSpill { .. }) => Some("ADGL3005"@),
        EngineDiagnostic::Store(StoreDiagnostic::WaitQueueSpill { .. }) => Some("ADGL3004"@),
        EngineDiagnostic::PredicateError { .. } => Some("ADGL3007"@),
        EngineDiagnostic::UnsupportedTargetTail { .. } => Some("ADGL3008"@),
        EngineDiagnostic::CauseCapacity { .. } => Some("ADGL3102"@),
        EngineDiagnostic::RuleFiringsExceeded { .. } => Some("ADGL3103"@),
        EngineDiagnostic::LateEvidence { .. } => Some("ADGL3002"@),
        EngineDiagnostic::LateEventDropped { .. } => Some("ADGL3003"@),
        _ => None,
    }
}

impl EngineDiagnostic {
    /// The stable diagnostic code, where one is assigned.
    pub fn code(&self) -> (c: Option<&'static str>)
        ensures
            match c {
                Some(s) => engine_code(*self) == Some(s@),
                None => engine_code(*self) is None,
            },
    {
        match self {
            EngineDiagnostic::Store(s) => Some(s.code()),
            EngineDiagnostic::PredicateError { .. } => Some("ADGL3007"),
            EngineDiagnostic::UnsupportedTargetTail { .. } => Some("ADGL3008"),
            EngineDiagnostic::CauseCapacity { .. } => Some("ADGL3102"),
            EngineDiagnostic::RuleFiringsExceeded { .. } => Some("ADGL3103"),
            EngineDiagnostic::LateEvidence { .. } => Some("ADGL3002"),
            EngineDiagnostic::LateEventDropped { .. } => Some("ADGL3003"),
            EngineDiagnostic::UnresolvedTarget { .. }
            | EngineDiagnostic::RuntimeCheckWindow { .. }
            | EngineDiagnostic::MissingAnchor { .. }
            | EngineDiagnostic::RuleNotInImage { .. } => None,
        }
    }
}

} // verus!
