//! Anchor/correlate binding values: a binding is `Bound` to a snapshot of an
//! event, cause or problem, `Absent`, or `Unknown` (three-valued).
use vstd::prelude::*;

use crate::eval::interner::ScopeInterner;
use crate::ir::FieldIdx;
use crate::store::event::EventNode;
use crate::store::subgraph::EdgeEndpoint;
use crate::types::{CauseKind, Confidence, EventTime, NodeId, ProblemKind, ScopeId};

verus! {

/// Reserved event field holding the interned key of the event's *target*
/// scope (when it differs from the partition scope).
pub const EVENT_FIELD_TARGET: u16 = 65535;

/// Reserved event field resolving to the event's time in milliseconds.
pub const EVENT_FIELD_TIME: u16 = 65534;

/// Snapshot of a cause node taken when a Cause anchor fires.
#[derive(Debug)]
pub struct CauseSnapshot {
    /// Stable node id.
    pub node: NodeId,
    /// Cause kind.
    pub kind: CauseKind,
    /// Hypothesis target.
    pub target: ScopeId,
    /// First-infer time.
    pub time: EventTime,
    /// Confidence at snapshot time.
    pub confidence: Confidence,
}

/// Snapshot of a problem node for Problem anchors and correlates.
#[derive(Debug)]
pub struct ProblemSnapshot {
    /// Stable node id.
    pub node: NodeId,
    /// Problem kind.
    pub kind: ProblemKind,
    /// Problem target.
    pub target: ScopeId,
    /// Emission time.
    pub time: EventTime,
}

/// A bound anchor/correlate value.
#[derive(Debug)]
pub enum Bound {
    /// An event from the ring buffer.
    Event(EventNode),
    /// A cause snapshot.
    Cause(CauseSnapshot),
    /// A problem snapshot.
    Problem(ProblemSnapshot),
}

/// The time of a bound value.
pub open spec fn bound_time(b: Bound) -> EventTime {
    match b {
        Bound::Event(e) => e.time,
        Bound::Cause(c) => c.time,
        Bound::Problem(p) => p.time,
    }
}

/// The target scope of a bound value: for events the interned
/// `EVENT_FIELD_TARGET` key when present (`None` if never interned), else the
/// partition scope; for causes and problems their target.
pub open spec fn bound_target(b: Bound, interned: Map<i64, ScopeId>) -> Option<ScopeId> {
    match b {
        Bound::Event(e) => match e.field_spec(EVENT_FIELD_TARGET) {
            Some(key) => if interned.contains_key(key) {
                Some(interned[key])
            } else {
                None
            },
            None => Some(e.scope),
        },
        Bound::Cause(c) => Some(c.target),
        Bound::Problem(p) => Some(p.target),
    }
}

/// The evidence-edge endpoint of a bound value.
pub open spec fn bound_endpoint(b: Bound) -> EdgeEndpoint {
    match b {
        Bound::Event(e) => EdgeEndpoint::Event(e.id),
        Bound::Cause(c) => EdgeEndpoint::Node(c.node),
        Bound::Problem(p) => EdgeEndpoint::Node(p.node),
    }
}

/// `w` is a copy of `x`: the same variant with the same identity, time
/// and values.
pub open spec fn copy_of(x: Bound, w: Bound) -> bool {
    match (x, w) {
        (Bound::Cause(c), Bound::Cause(d)) => d.node == c.node && d.kind@ == c.kind@ && d.target == c.target && d.time
            == c.time && d.confidence == c.confidence,
        (Bound::Problem(p), Bound::Problem(q)) => q.node == p.node && q.kind@ == p.kind@ && q.target == p.target
            && q.time == p.time,
        (Bound::Event(e), Bound::Event(f)) => f.id == e.id && f.event_type@ == e.event_type@ && f.time == e.time
            && f.scope == e.scope && f.fields_view() == e.fields_view(),
        _ => false,
    }
}

impl Bound {
    /// The bound value's time (the anchor time for correlate windows).
    pub fn time(&self) -> (t: EventTime)
        ensures
            t == bound_time(*self),
    {
        match self {
            Bound::Event(e) => e.time,
            Bound::Cause(c) => c.time,
            Bound::Problem(p) => p.time,
        }
    }

    /// Resolves `<binding>.target` (see [`bound_target`]).
    pub fn target(&self, interner: &ScopeInterner) -> (s: Option<ScopeId>)
        ensures
            s == bound_target(*self, interner@),
    {
        match self {
            Bound::Event(e) => match e.field(FieldIdx(EVENT_FIELD_TARGET)) {
                Some(key) => interner.resolve(key),
                None => Some(e.scope),
            },
            Bound::Cause(c) => Some(c.target),
            Bound::Problem(p) => Some(p.target),
        }
    }

    /// Evidence-edge endpoint for this value.
    pub fn endpoint(&self) -> (ep: EdgeEndpoint)
        ensures
            ep == bound_endpoint(*self),
    {
        match self {
            Bound::Event(e) => EdgeEndpoint::Event(e.id),
            Bound::Cause(c) => EdgeEndpoint::Node(c.node),
            Bound::Problem(p) => EdgeEndpoint::Node(p.node),
        }
    }
}

/// One binding's resolution state.
#[derive(Debug)]
pub enum Binding {
    /// The earliest true match.
    Bound(Bound),
    /// No candidate matched and none was `Unknown`.
    Absent,
    /// Some candidate was `Unknown` and none was `True`.
    Unknown,
}

impl Binding {
    /// The bound value, when present.
    pub fn bound(&self) -> (b: Option<&Bound>)
        ensures
            match *self {
                Binding::Bound(v) => b matches Some(x) && *x == v,
                _ => b is None,
            },
    {
        match self {
            Binding::Bound(b) => Some(b),
            Binding::Absent | Binding::Unknown => None,
        }
    }
}

impl CauseSnapshot {
    /// A copy of the snapshot.
    pub fn duplicate(&self) -> (c: CauseSnapshot)
        ensures
            c.node == self.node && c.kind@ == self.kind@ && c.target == self.target && c.time == self.time
                && c.confidence == self.confidence,
    {
        CauseSnapshot {
            node: self.node,
            kind: self.kind.duplicate(),
            target: self.target,
            time: self.time,
            confidence: self.confidence,
        }
    }
}

impl ProblemSnapshot {
    /// A copy of the snapshot.
    pub fn duplicate(&self) -> (p: ProblemSnapshot)
        ensures
            p.node == self.node && p.kind@ == self.kind@ && p.target == self.target && p.time == self.time,
    {
        ProblemSnapshot { node: self.node, kind: self.kind.duplicate(), target: self.target, time: self.time }
    }
}

impl Bound {
    /// A copy of the bound value (events are cloned).
    pub fn duplicate(&self) -> (b: Bound)
        ensures
            copy_of(*self, b),
    {
        match self {
            Bound::Event(e) => Bound::Event(e.duplicate()),
            Bound::Cause(c) => Bound::Cause(c.duplicate()),
            Bound::Problem(p) => Bound::Problem(p.duplicate()),
        }
    }
}

} // verus!
