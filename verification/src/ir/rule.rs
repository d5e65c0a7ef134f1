//! One verified rule: its anchor, correlate clauses with their proven
//! windows, the branch table, the body intents and the annotations the
//! engine consumes.
use vstd::prelude::*;

use crate::ir::intent::Intent;
use crate::ir::{Predicate, RuleKind, Symbol, TopoFuncIdx};
use crate::types::{CauseKind, DurationMs, EventType, MetricPath, ProblemKind, RuleId, ScopeType};

verus! {

/// What an anchor matches on: a raw event (evidence rules), or a cause or
/// problem (decision rules).
#[derive(Debug, Clone, PartialEq, Eq)]
pub enum AnchorSource {
    /// Evidence anchor on a raw event.
    Event(EventType),
    /// Decision anchor on a cause (fires on a confidence change).
    Cause(CauseKind),
    /// Decision anchor on a problem (fires on its emission).
    Problem(ProblemKind),
}

/// The anchor clause of a rule.
#[derive(Debug, Clone, PartialEq, Eq)]
pub struct AnchorSpec {
    /// Binding name, e.g. `rtx`.
    pub binding: Symbol,
    /// What the anchor matches on.
    pub source: AnchorSource,
    /// Compiled anchor predicate ([`Predicate::always_true`] when the
    /// anchor has none).
    pub predicate: Predicate,
}

/// Where correlate candidates come from.
#[derive(Debug, Clone, PartialEq, Eq)]
pub enum CorrelateSource {
    /// Events of this type in the partition ring buffer.
    Event(EventType),
    /// Problems already emitted in the partition.
    Problem(ProblemKind),
    /// Causes in the partition.
    Cause(CauseKind),
}

/// A topology-function call in a correlate clause, e.g.
/// `same_session(rtx.target, ptb.target)`.
#[derive(Debug, Clone, PartialEq, Eq)]
pub struct TopoCall {
    /// Catalog topology function name.
    pub func: String,
    /// Catalog function index.
    pub func_idx: TopoFuncIdx,
    /// Scope-key argument paths.
    pub args: Vec<MetricPath>,
}

/// The proven window of a correlate clause.
#[derive(Debug, Clone, Copy, PartialEq, Eq)]
pub enum WindowProof {
    /// `[anchor.time - back, anchor.time + forward]`, both ends inclusive.
    Calculable {
        /// Backward extent from the anchor time.
        back: DurationMs,
        /// Forward extent from the anchor time.
        forward: DurationMs,
    },
    /// The window is checked at run time.
    RuntimeCheck,
}

/// One `correlate` clause.
#[derive(Debug, Clone, PartialEq, Eq)]
pub struct CorrelateSpec {
    /// Binding name, e.g. `ptb`.
    pub binding: Symbol,
    /// Where candidates come from.
    pub source: CorrelateSource,
    /// Topology filter; `Unknown` makes the binding `Unknown`.
    pub topo: TopoCall,
    /// Proven window.
    pub window: WindowProof,
    /// How many matching candidates make the binding present (`having
    /// count >= n`; 1 when the clause has no `having`).
    pub min_match: u8,
}

/// The if/else branch table of a rule body.
#[derive(Debug, Clone, PartialEq, Eq)]
pub struct BranchTable {
    /// Three-valued condition.
    pub cond: Predicate,
    /// Intents run when the condition is `True`.
    pub then_body: Vec<Intent>,
    /// Intents run when it is `False` (optional `else`).
    pub else_body: Option<Vec<Intent>>,
    /// Intents run when it is `Unknown`.
    pub unknown_body: Vec<Intent>,
}

/// Annotations attached by the verifier and consumed by the engine.
#[derive(Debug, Clone, Copy, PartialEq, Eq)]
pub struct VerifiedAnnotations {
    /// Largest backward extent over the correlate windows.
    pub max_backward: DurationMs,
    /// Largest forward extent over the correlate windows; zero means the
    /// rule runs at once.
    pub max_forward: DurationMs,
    /// Proven scope type of the intents' targets; `None` when every
    /// intent targets the rule scope.
    pub target_scope: Option<ScopeType>,
}

/// The largest backward (`forward == false`) or forward extent over the
/// `Calculable` windows of `cs`; zero when there is none.
pub open spec fn max_extent(cs: Seq<CorrelateSpec>, forward: bool) -> int
    decreases cs.len(),
{
    if cs.len() == 0 {
        0
    } else {
        let rest = max_extent(cs.drop_last(), forward);
        match cs.last().window {
            WindowProof::Calculable { back, forward: fwd } => {
                let e = if forward {
                    fwd.ms_of()
                } else {
                    back.ms_of()
                };
                if e > rest {
                    e
                } else {
                    rest
                }
            },
            WindowProof::RuntimeCheck => rest,
        }
    }
}

impl VerifiedAnnotations {
    /// Recomputes the backward and forward extents from the `Calculable`
    /// correlate windows; `RuntimeCheck` windows contribute nothing.
    pub fn from_correlates(correlates: &[CorrelateSpec], target_scope: Option<ScopeType>) -> (a: VerifiedAnnotations)
        ensures
            a.max_backward.ms_of() == max_extent(correlates@, false),
            a.max_forward.ms_of() == max_extent(correlates@, true),
            a.target_scope == target_scope,
    {
        let mut max_backward = DurationMs::zero();
        let mut max_forward = DurationMs::zero();
        let mut i: usize = 0;
        while i < correlates.len()
            invariant
                0 <= i <= correlates@.len(),
                max_backward.ms_of() == max_extent(correlates@.take(i as int), false),
                max_forward.ms_of() == max_extent(correlates@.take(i as int), true),
            decreases correlates@.len() - i,
        {
            proof {
                let t = correlates@.take(i + 1);
                assert(t.drop_last() =~= correlates@.take(i as int));
                assert(t.last() == correlates@[i as int]);
            }
            match correlates[i].window {
                WindowProof::Calculable { back, forward } => {
                    max_backward = max_backward.max(back);
                    max_forward = max_forward.max(forward);
                },
                WindowProof::RuntimeCheck => {},
            }
            i = i + 1;
        }
        proof {
            assert(correlates@.take(correlates@.len() as int) =~= correlates@);
        }
        VerifiedAnnotations { max_backward, max_forward, target_scope }
    }
}

/// One verified rule; rules keep their declaration order in the image.
#[derive(Debug, Clone, PartialEq, Eq)]
pub struct RuleInstance {
    /// Stable symbolic id.
    pub id: RuleId,
    /// Evidence or decision.
    pub kind: RuleKind,
    /// Partition scope the rule runs in.
    pub scope: ScopeType,
    /// Anchor clause.
    pub anchor: AnchorSpec,
    /// Correlate clauses.
    pub correlates: Vec<CorrelateSpec>,
    /// Branch table; `None` for an unconditional body.
    pub branches: Option<BranchTable>,
    /// Ordered body intents, run when there is no branch table.
    pub body: Vec<Intent>,
    /// Verifier annotations.
    pub annotations: VerifiedAnnotations,
}

impl RuleInstance {
    /// The proven largest forward window: a match waits until the
    /// watermark passes `anchor.time + max_forward`.
    pub fn max_forward(&self) -> (d: DurationMs)
        ensures
            d == self.annotations.max_forward,
    {
        self.annotations.max_forward
    }
}

} // verus!
