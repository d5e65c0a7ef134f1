//! Action sinks. Actions are declarative intents; the sink decides the effect
//! by run mode. Offline (replay) never performs a control-plane effect: it
//! audits, and tags `request_observation` with `ADGL3001`.
use vstd::prelude::*;

use crate::ir::Symbol;
use crate::store::subgraph::EdgeEndpoint;
use crate::types::{ActionKind, CauseKind, EventTime, MetricPath, RuleId, ScopeId};

verus! {

/// Execution mode.
#[derive(Debug, Clone, Copy, PartialEq, Eq, Structural)]
pub enum RunMode {
    /// Capture replay: actions are audited, never executed.
    Offline,
    /// Live capture: a host sink may drive controllers.
    Live,
}

/// How a sink handled an intent.
#[derive(Debug, Clone, Copy, PartialEq, Eq, Structural)]
pub enum SinkOutcome {
    /// Recorded for audit; no control-plane effect.
    Audited,
    /// Offline `request_observation`, audited as `ADGL3001`.
    NoOpInReplay,
    /// A live control-plane effect was applied.
    Applied,
    /// A live control-plane effect was refused (no controller wired).
    NotSupported,
}

/// A fully resolved runtime action.
#[derive(Debug, Clone, PartialEq, Eq)]
pub struct ActionIntent {
    /// Action kind.
    pub kind: ActionKind,
    /// Emitting rule.
    pub rule: RuleId,
    /// Kind argument, e.g. `icmp.visibility`.
    pub arg: Option<Symbol>,
    /// Resolved target scope, when the target path resolved.
    pub target: Option<ScopeId>,
    /// The raw target expression from the rule.
    pub target_path: Option<MetricPath>,
    /// Human-readable reason.
    pub reason: Option<String>,
    /// Evidence references.
    pub evidence: Vec<EdgeEndpoint>,
    /// The competing cause pair for `mark_ambiguous`.
    pub causes: Option<(CauseKind, CauseKind)>,
}

/// The control-plane kinds: observation requests, topology requests and
/// external checks.
pub open spec fn control_plane_kind(k: ActionKind) -> bool {
    k == ActionKind::RequestObservation || k == ActionKind::RequestTopology || k == ActionKind::RunCheck
}

impl ActionIntent {
    /// Whether this action is a live control-plane side effect.
    pub fn is_control_plane(&self) -> (b: bool)
        ensures
            b == control_plane_kind(self.kind),
    {
        match self.kind {
            ActionKind::RequestObservation | ActionKind::RequestTopology | ActionKind::RunCheck => true,
            _ => false,
        }
    }
}

/// Consumes action intents.
pub trait ActionSink {
    /// Delivers one action; `wm` is the watermark at emission time. Offline
    /// mode must not execute control-plane actions.
    fn emit(&mut self, intent: ActionIntent, mode: RunMode, wm: EventTime);
}

/// One audited action.
#[derive(Debug, Clone, PartialEq, Eq)]
pub struct AuditEntry {
    /// `Some("ADGL3001")` for a replayed `request_observation`, else `None`.
    pub code: Option<&'static str>,
    /// The audited intent.
    pub intent: ActionIntent,
    /// Watermark at emission.
    pub wm: EventTime,
}

/// The outcome the audit-only sink records: `NoOpInReplay` for an offline
/// `request_observation`, `Audited` otherwise.
pub open spec fn offline_sink_outcome(mode: RunMode, kind: ActionKind) -> SinkOutcome {
    if mode == RunMode::Offline && kind == ActionKind::RequestObservation {
        SinkOutcome::NoOpInReplay
    } else {
        SinkOutcome::Audited
    }
}

/// The outcome the live stub records: offline as the audit-only sink; live
/// control-plane kinds are refused, other kinds audited.
pub open spec fn live_stub_outcome(mode: RunMode, kind: ActionKind) -> SinkOutcome {
    match mode {
        RunMode::Offline => offline_sink_outcome(mode, kind),
        RunMode::Live => if control_plane_kind(kind) {
            SinkOutcome::NotSupported
        } else {
            SinkOutcome::Audited
        },
    }
}

/// The audit code that goes with an outcome.
pub open spec fn audit_code(o: SinkOutcome) -> Option<&'static str> {
    if o == SinkOutcome::NoOpInReplay {
        Some("ADGL3001")
    } else {
        None
    }
}

fn code_for(o: SinkOutcome) -> (c: Option<&'static str>)
    ensures
        c == audit_code(o),
{
    if o == SinkOutcome::NoOpInReplay {
        Some("ADGL3001")
    } else {
        None
    }
}

/// Replay sink: records every action, executes none (also when handed the
/// live mode by mistake).
#[derive(Debug)]
pub struct OfflineAuditSink {
    entries: Vec<AuditEntry>,
    outcomes: Vec<SinkOutcome>,
}

impl OfflineAuditSink {
    /// Audited actions in emission order.
    pub closed spec fn entries_view(&self) -> Seq<AuditEntry> {
        self.entries@
    }

    /// Outcomes in emission order.
    pub closed spec fn outcomes_view(&self) -> Seq<SinkOutcome> {
        self.outcomes@
    }

    /// An empty audit log.
    pub fn new() -> (s: OfflineAuditSink)
        ensures
            s.entries_view().len() == 0,
            s.outcomes_view().len() == 0,
    {
        OfflineAuditSink { entries: Vec::new(), outcomes: Vec::new() }
    }

    /// Audited actions in emission order.
    pub fn entries(&self) -> (s: &[AuditEntry])
        ensures
            s@ == self.entries_view(),
    {
        self.entries.as_slice()
    }

    /// Per-emission outcomes in emission order.
    pub fn outcomes(&self) -> (s: &[SinkOutcome])
        ensures
            s@ == self.outcomes_view(),
    {
        self.outcomes.as_slice()
    }
}

impl ActionSink for OfflineAuditSink {
    fn emit(&mut self, intent: ActionIntent, mode: RunMode, wm: EventTime)
        ensures
            final(self).outcomes_view() == old(self).outcomes_view().push(offline_sink_outcome(mode, intent.kind)),
            final(self).entries_view() == old(self).entries_view().push(
                AuditEntry { code: audit_code(offline_sink_outcome(mode, intent.kind)), intent, wm },
            ),
    {
        let outcome = if matches!(mode, RunMode::Offline) && matches!(intent.kind, ActionKind::RequestObservation) {
            SinkOutcome::NoOpInReplay
        } else {
            SinkOutcome::Audited
        };
        let code = code_for(outcome);
        self.entries.push(AuditEntry { code, intent, wm });
        self.outcomes.push(outcome);
    }
}

/// Live stub: offline it audits like [`OfflineAuditSink`]; live it refuses
/// control-plane kinds (`NotSupported`) and audits the rest. It never
/// applies an effect.
#[derive(Debug)]
pub struct LiveActionSink {
    entries: Vec<AuditEntry>,
    outcomes: Vec<SinkOutcome>,
}

impl LiveActionSink {
    /// Audited actions in emission order.
    pub closed spec fn entries_view(&self) -> Seq<AuditEntry> {
        self.entries@
    }

    /// Outcomes in emission order.
    pub closed spec fn outcomes_view(&self) -> Seq<SinkOutcome> {
        self.outcomes@
    }

    /// An empty stub.
    pub fn new() -> (s: LiveActionSink)
        ensures
            s.entries_view().len() == 0,
            s.outcomes_view().len() == 0,
    {
        LiveActionSink { entries: Vec::new(), outcomes: Vec::new() }
    }

    /// Audited actions in emission order.
    pub fn entries(&self) -> (s: &[AuditEntry])
        ensures
            s@ == self.entries_view(),
    {
        self.entries.as_slice()
    }

    /// Per-emission outcomes in emission order.
    pub fn outcomes(&self) -> (s: &[SinkOutcome])
        ensures
            s@ == self.outcomes_view(),
    {
        self.outcomes.as_slice()
    }
}

impl ActionSink for LiveActionSink {
    fn emit(&mut self, intent: ActionIntent, mode: RunMode, wm: EventTime)
        ensures
            final(self).outcomes_view() == old(self).outcomes_view().push(live_stub_outcome(mode, intent.kind)),
            final(self).entries_view() == old(self).entries_view().push(
                AuditEntry { code: audit_code(live_stub_outcome(mode, intent.kind)), intent, wm },
            ),
    {
        let outcome = match mode {
            RunMode::Offline => if matches!(intent.kind, ActionKind::RequestObservation) {
                SinkOutcome::NoOpInReplay
            } else {
                SinkOutcome::Audited
            },
            RunMode::Live => if intent.is_control_plane() {
                SinkOutcome::NotSupported
            } else {
                SinkOutcome::Audited
            },
        };
        let code = code_for(outcome);
        self.entries.push(AuditEntry { code, intent, wm });
        self.outcomes.push(outcome);
    }
}

/// Neither sink ever applies a control-plane effect, and in offline mode
/// both only audit (`NoOpInReplay` exactly for `request_observation`).
pub proof fn lemma_sinks_never_apply(mode: RunMode, kind: ActionKind)
    ensures
        offline_sink_outcome(mode, kind) != SinkOutcome::Applied,
        offline_sink_outcome(mode, kind) != SinkOutcome::NotSupported,
        live_stub_outcome(mode, kind) != SinkOutcome::Applied,
        mode == RunMode::Offline ==> live_stub_outcome(mode, kind) == offline_sink_outcome(mode, kind),
        mode == RunMode::Offline ==> (offline_sink_outcome(mode, kind) == SinkOutcome::NoOpInReplay
            <==> kind == ActionKind::RequestObservation),
{
}

} // verus!
