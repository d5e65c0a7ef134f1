//! `GraphStore`: the per-scope partitions, rings and wait queues, and the
//! global monotone watermark.
use vstd::prelude::*;

use crate::ir::{pending_lt, PendingMatch};
use crate::store::diag::StoreDiagnostic;
use crate::store::event::EventNode;
use crate::store::limits::Limits;
use crate::store::ring::{lead_before, RingBuffer};
use crate::store::subgraph::{EmitRecord, SubGraph};
use crate::store::waitqueue::{pending_sorted, WaitQueue};
use crate::types::{clamp_i64, DurationMs, EventTime, ScopeId};

verus! {

broadcast use {vstd::seq_lib::group_to_multiset_ensures, vstd::multiset::group_multiset_axioms};

/// The emission records held over all the partitions.
pub open spec fn emitted_total(ps: Seq<(ScopeId, SubGraph)>) -> int
    decreases ps.len(),
{
    if ps.len() == 0 {
        0
    } else {
        emitted_total(ps.drop_last()) + ps.last().1.emitted_view().len()
    }
}

/// `b` is `a` with the emission records older than `wm - cooldown`
/// swept, all else kept.
pub open spec fn emitted_pruned(a: SubGraph, b: SubGraph, wm: EventTime, cooldown: DurationMs) -> bool {
    &&& b.wf()
    &&& b.emitted_view() == a.emitted_view().filter(|r: EmitRecord| r.wm >= clamp_i64(wm.ms - cooldown.ms_of()))
    &&& b.causes_view() == a.causes_view()
    &&& b.problems_view() == a.problems_view()
    &&& b.ambiguities_view() == a.ambiguities_view()
    &&& b.edges_view() == a.edges_view()
    &&& b.provenance_view() == a.provenance_view()
}

/// Position of `scope` in a scope-keyed list (meaningful when present).
pub open spec fn scope_pos<V>(s: Seq<(ScopeId, V)>, scope: ScopeId) -> int {
    choose|i: int| 0 <= i < s.len() && (#[trigger] s[i]).0 == scope
}

/// The partition of `scope`, when the list holds one.
pub open spec fn partition_of(ps: Seq<(ScopeId, SubGraph)>, scope: ScopeId) -> Option<SubGraph> {
    if has_scope(ps, scope) {
        Some(ps[scope_pos(ps, scope)].1)
    } else {
        None
    }
}

/// The problems of `scope`'s partition (none without one).
pub open spec fn problems_in(ps: Seq<(ScopeId, SubGraph)>, scope: ScopeId) -> Seq<crate::store::subgraph::ProblemNode> {
    match partition_of(ps, scope) {
        Some(g) => g.problems_view(),
        None => Seq::empty(),
    }
}

/// The emission records of `scope`'s partition (none without one).
pub open spec fn emitted_in(ps: Seq<(ScopeId, SubGraph)>, scope: ScopeId) -> Seq<EmitRecord> {
    match partition_of(ps, scope) {
        Some(g) => g.emitted_view(),
        None => Seq::empty(),
    }
}

/// The causes of `scope`'s partition (none without one).
pub open spec fn causes_in(ps: Seq<(ScopeId, SubGraph)>, scope: ScopeId) -> Seq<crate::store::subgraph::CauseNode> {
    match partition_of(ps, scope) {
        Some(g) => g.causes_view(),
        None => Seq::empty(),
    }
}

/// The ambiguities of `scope`'s partition (none without one).
pub open spec fn ambiguities_in(ps: Seq<(ScopeId, SubGraph)>, scope: ScopeId) -> Seq<
    crate::store::subgraph::AmbiguityNode,
> {
    match partition_of(ps, scope) {
        Some(g) => g.ambiguities_view(),
        None => Seq::empty(),
    }
}

/// The evidence edges of `scope`'s partition (none without one).
pub open spec fn edges_in(ps: Seq<(ScopeId, SubGraph)>, scope: ScopeId) -> Seq<crate::store::subgraph::EvidenceEdge> {
    match partition_of(ps, scope) {
        Some(g) => g.edges_view(),
        None => Seq::empty(),
    }
}

/// The provenance keys of `scope`'s partition (none without one).
pub open spec fn provenance_in(ps: Seq<(ScopeId, SubGraph)>, scope: ScopeId) -> Seq<(Seq<char>, Seq<char>, u64, i64)> {
    match partition_of(ps, scope) {
        Some(g) => g.provenance_view(),
        None => Seq::empty(),
    }
}

/// Whether a scope-keyed list holds `scope`.
pub open spec fn has_scope<V>(s: Seq<(ScopeId, V)>, scope: ScopeId) -> bool {
    exists|i: int| 0 <= i < s.len() && (#[trigger] s[i]).0 == scope
}

/// No scope occurs twice.
pub open spec fn scopes_unique<V>(s: Seq<(ScopeId, V)>) -> bool {
    forall|i: int, j: int| 0 <= i < j < s.len() ==> (#[trigger] s[i]).0 != (#[trigger] s[j]).0
}

/// Every match held by a list of wait queues.
pub open spec fn all_pending(s: Seq<(ScopeId, WaitQueue)>) -> vstd::multiset::Multiset<PendingMatch>
    decreases s.len(),
{
    if s.len() == 0 {
        vstd::multiset::Multiset::empty()
    } else {
        all_pending(s.drop_last()).add(s.last().1.matches().to_multiset())
    }
}

/// The runtime state store.
#[derive(Debug)]
pub struct GraphStore {
    partitions: Vec<(ScopeId, SubGraph)>,
    rings: Vec<(ScopeId, RingBuffer)>,
    pending: Vec<(ScopeId, WaitQueue)>,
    watermark: i64,
    limits: Limits,
}

fn find_scope<V>(s: &Vec<(ScopeId, V)>, scope: ScopeId) -> (r: Option<usize>)
    requires
        scopes_unique(s@),
    ensures
        match r {
            Some(i) => i < s@.len() && s@[i as int].0 == scope && scope_pos(s@, scope) == i,
            None => !has_scope(s@, scope),
        },
{
    let mut i: usize = 0;
    while i < s.len()
        invariant
            0 <= i <= s@.len(),
            scopes_unique(s@),
            forall|j: int| 0 <= j < i ==> (#[trigger] s@[j]).0 != scope,
        decreases s@.len() - i,
    {
        if s[i].0.same(&scope) {
            proof {
                let c = scope_pos(s@, scope);
                assert(s@[i as int].0 == scope);
                if c < i {
                    assert(s@[c].0 != s@[i as int].0);
                } else if c > i {
                    assert(s@[i as int].0 != s@[c].0);
                }
            }
            return Some(i);
        }
        i = i + 1;
    }
    None
}

impl GraphStore {
    /// Per-scope subgraphs.
    pub closed spec fn partitions_view(&self) -> Seq<(ScopeId, SubGraph)> {
        self.partitions@
    }

    /// Per-scope rings.
    pub closed spec fn rings_view(&self) -> Seq<(ScopeId, RingBuffer)> {
        self.rings@
    }

    /// Per-scope wait queues.
    pub closed spec fn pending_view(&self) -> Seq<(ScopeId, WaitQueue)> {
        self.pending@
    }

    /// The watermark in ms (`i64::MIN` before the first advance).
    pub closed spec fn watermark_view(&self) -> i64 {
        self.watermark
    }

    /// The configured limits.
    pub closed spec fn limits_view(&self) -> Limits {
        self.limits
    }

    /// Each scope has at most one partition, ring and queue, each ring and
    /// queue belongs to its key's scope, and every partition is well formed.
    pub closed spec fn wf(&self) -> bool {
        &&& scopes_unique(self.partitions@)
        &&& scopes_unique(self.rings@)
        &&& scopes_unique(self.pending@)
        &&& forall|i: int| 0 <= i < self.partitions@.len() ==> (#[trigger] self.partitions@[i]).1.wf()
        &&& forall|i: int| 0 <= i < self.rings@.len() ==> (#[trigger] self.rings@[i]).1.scope_of() == self.rings@[i].0
        &&& forall|i: int| 0 <= i < self.pending@.len() ==> (#[trigger] self.pending@[i]).1.scope_of() == self.pending@[i].0
    }

    /// An empty store with the given limits.
    pub fn new(limits: Limits) -> (s: GraphStore)
        ensures
            s.wf(),
            s.partitions_view().len() == 0,
            s.rings_view().len() == 0,
            s.pending_view().len() == 0,
            s.watermark_view() == i64::MIN,
            s.limits_view() == limits,
    {
        GraphStore {
            partitions: Vec::new(),
            rings: Vec::new(),
            pending: Vec::new(),
            watermark: i64::MIN,
            limits,
        }
    }

    /// The configured limits.
    pub fn limits(&self) -> (l: &Limits)
        ensures
            *l == self.limits_view(),
    {
        &self.limits
    }

    /// The current watermark.
    pub fn watermark(&self) -> (t: EventTime)
        ensures
            t.ms == self.watermark_view(),
    {
        EventTime { ms: self.watermark }
    }

    /// Monotone watermark advance: the watermark becomes
    /// `max(previous, t)`, which is returned; it never regresses.
    pub fn advance_watermark(&mut self, t: EventTime) -> (w: EventTime)
        requires
            old(self).wf(),
        ensures
            final(self).wf(),
            w.ms == if t.ms > old(self).watermark_view() {
                t.ms
            } else {
                old(self).watermark_view()
            },
            final(self).watermark_view() == w.ms,
            final(self).watermark_view() >= old(self).watermark_view(),
            final(self).partitions_view() == old(self).partitions_view(),
            final(self).rings_view() == old(self).rings_view(),
            final(self).pending_view() == old(self).pending_view(),
            final(self).limits_view() == old(self).limits_view(),
    {
        if t.ms > self.watermark {
            self.watermark = t.ms;
        }
        EventTime { ms: self.watermark }
    }

    /// Pushes an event into its scope's ring, creating the ring (capacity
    /// `max_ringbuffer_events_per_scope`) on first use. Returns the ring's
    /// spill diagnostic when it was full.
    pub fn push_event(&mut self, event: EventNode) -> (d: Option<StoreDiagnostic>)
        requires
            old(self).wf(),
        ensures
            final(self).wf(),
            has_scope(final(self).rings_view(), event.scope),
            forall|s: ScopeId| s != event.scope ==> (has_scope(old(self).rings_view(), s) <==> has_scope(final(self).rings_view(), s)),
            final(self).partitions_view() == old(self).partitions_view(),
            final(self).pending_view() == old(self).pending_view(),
            final(self).watermark_view() == old(self).watermark_view(),
            final(self).limits_view() == old(self).limits_view(),
    {
        let scope = event.scope;
        let mut rings: Vec<(ScopeId, RingBuffer)> = Vec::new();
        std::mem::swap(&mut rings, &mut self.rings);
        let idx = match find_scope(&rings, scope) {
            Some(i) => i,
            None => {
                let ghost r0 = rings@;
                rings.push((scope, RingBuffer::new(scope, self.limits.max_ringbuffer_events_per_scope)));
                proof {
                    assert forall|i: int, j: int| 0 <= i < j < rings@.len() implies (#[trigger] rings@[i]).0 != (#[trigger] rings@[j]).0 by {
                        if j == r0.len() {
                            assert(rings@[i] == r0[i]);
                        } else {
                            assert(rings@[i] == r0[i]);
                            assert(rings@[j] == r0[j]);
                        }
                    }
                }
                rings.len() - 1
            },
        };
        let ghost r1 = rings@;
        let (s, mut ring) = rings.remove(idx);
        let d = ring.push(event);
        rings.insert(idx, (s, ring));
        proof {
            assert(rings@ =~= r1.update(idx as int, rings@[idx as int]));
            assert(rings@[idx as int].0 == scope);
            assert forall|i: int, j: int| 0 <= i < j < rings@.len() implies (#[trigger] rings@[i]).0 != (#[trigger] rings@[j]).0 by {
                assert(rings@[i].0 == r1[i].0);
                assert(rings@[j].0 == r1[j].0);
            }
            assert forall|x: ScopeId| x != scope implies (has_scope(old(self).rings@, x) <==> has_scope(rings@, x)) by {
                if has_scope(old(self).rings@, x) {
                    let i = choose|i: int| 0 <= i < old(self).rings@.len() && (#[trigger] old(self).rings@[i]).0 == x;
                    assert(r1[i] == old(self).rings@[i]);
                    assert(rings@[i].0 == x);
                }
                if has_scope(rings@, x) {
                    let i = choose|i: int| 0 <= i < rings@.len() && (#[trigger] rings@[i]).0 == x;
                    assert(r1[i].0 == x);
                    assert(i < old(self).rings@.len());
                    assert(old(self).rings@[i].0 == x);
                }
            }
        }
        self.rings = rings;
        d
    }

    /// The ring of `scope`, if one was created.
    pub fn ring(&self, scope: ScopeId) -> (r: Option<&RingBuffer>)
        requires
            self.wf(),
        ensures
            r is Some <==> has_scope(self.rings_view(), scope),
            r matches Some(ring) ==> *ring == self.rings_view()[scope_pos(self.rings_view(), scope)].1,
    {
        match find_scope(&self.rings, scope) {
            Some(i) => Some(&self.rings[i].1),
            None => None,
        }
    }

    /// The subgraph of `scope`, if one was created.
    pub fn partition(&self, scope: ScopeId) -> (r: Option<&SubGraph>)
        requires
            self.wf(),
        ensures
            r is Some <==> has_scope(self.partitions_view(), scope),
            r matches Some(g) ==> *g == self.partitions_view()[scope_pos(self.partitions_view(), scope)].1
                && g.wf(),
    {
        match find_scope(&self.partitions, scope) {
            Some(i) => Some(&self.partitions[i].1),
            None => None,
        }
    }

    /// Takes the subgraph of `scope` out of the store (an empty one when the
    /// scope had none); hand it back with [`GraphStore::put_partition`].
    pub fn take_partition(&mut self, scope: ScopeId) -> (g: SubGraph)
        requires
            old(self).wf(),
        ensures
            final(self).wf(),
            g.wf(),
            has_scope(old(self).partitions_view(), scope) ==> g == old(self).partitions_view()[scope_pos(
                old(self).partitions_view(),
                scope,
            )].1,
            !has_scope(old(self).partitions_view(), scope) ==> g.causes_view().len() == 0
                && g.problems_view().len() == 0 && g.ambiguities_view().len() == 0
                && g.edges_view().len() == 0 && g.provenance_view().len() == 0
                && g.emitted_view().len() == 0,
            !has_scope(final(self).partitions_view(), scope),
            g.problems_view() == problems_in(old(self).partitions_view(), scope),
            g.emitted_view() == emitted_in(old(self).partitions_view(), scope),
            g.causes_view() == causes_in(old(self).partitions_view(), scope),
            g.ambiguities_view() == ambiguities_in(old(self).partitions_view(), scope),
            g.edges_view() == edges_in(old(self).partitions_view(), scope),
            g.provenance_view() == provenance_in(old(self).partitions_view(), scope),
            forall|s: ScopeId|
                s != scope ==> #[trigger] partition_of(final(self).partitions_view(), s) == partition_of(
                    old(self).partitions_view(),
                    s,
                ),
            forall|s: ScopeId| s != scope ==> (has_scope(old(self).partitions_view(), s) <==> has_scope(final(self).partitions_view(), s)),
            forall|s: ScopeId| s != scope && has_scope(old(self).partitions_view(), s) ==>
                final(self).partitions_view()[scope_pos(final(self).partitions_view(), s)].1
                    == old(self).partitions_view()[scope_pos(old(self).partitions_view(), s)].1,
            final(self).rings_view() == old(self).rings_view(),
            final(self).pending_view() == old(self).pending_view(),
            final(self).watermark_view() == old(self).watermark_view(),
            final(self).limits_view() == old(self).limits_view(),
    {
        let ghost p0 = self.partitions@;
        match find_scope(&self.partitions, scope) {
            Some(i) => {
                let (_, g) = self.partitions.remove(i);
                proof {
                    let p1 = self.partitions@;
                    assert(p1 =~= p0.remove(i as int));
                    assert forall|a: int, b: int| 0 <= a < b < p1.len() implies (#[trigger] p1[a]).0 != (#[trigger] p1[b]).0 by {
                        let a0 = if a < i { a } else { a + 1 };
                        let b0 = if b < i { b } else { b + 1 };
                        assert(p1[a] == p0[a0]);
                        assert(p1[b] == p0[b0]);
                    }
                    assert forall|a: int| 0 <= a < p1.len() implies (#[trigger] p1[a]).1.wf() by {
                        let a0 = if a < i { a } else { a + 1 };
                        assert(p1[a] == p0[a0]);
                    }
                    assert(!has_scope(p1, scope)) by {
                        if has_scope(p1, scope) {
                            let a = choose|a: int| 0 <= a < p1.len() && (#[trigger] p1[a]).0 == scope;
                            let a0 = if a < i { a } else { a + 1 };
                            assert(p1[a] == p0[a0]);
                        }
                    }
                    assert forall|s: ScopeId| s != scope implies (has_scope(p0, s) <==> has_scope(p1, s)) by {
                        if has_scope(p0, s) {
                            let a = choose|a: int| 0 <= a < p0.len() && (#[trigger] p0[a]).0 == s;
                            assert(a != i);
                            let a1 = if a < i { a } else { a - 1 };
                            assert(p1[a1] == p0[a]);
                        }
                        if has_scope(p1, s) {
                            let a = choose|a: int| 0 <= a < p1.len() && (#[trigger] p1[a]).0 == s;
                            let a0 = if a < i { a } else { a + 1 };
                            assert(p1[a] == p0[a0]);
                        }
                    }
                    assert forall|s: ScopeId| s != scope && has_scope(p0, s) implies
                        p1[scope_pos(p1, s)].1 == p0[scope_pos(p0, s)].1 by {
                        let a = scope_pos(p0, s);
                        assert(a != i);
                        let a1 = if a < i { a } else { a - 1 };
                        assert(p1[a1] == p0[a]);
                        let c = scope_pos(p1, s);
                        let c0 = if c < i { c } else { c + 1 };
                        assert(p1[c] == p0[c0]);
                        if c0 != a {
                            if c0 < a {
                                assert(p0[c0].0 != p0[a].0);
                            } else {
                                assert(p0[a].0 != p0[c0].0);
                            }
                        }
                    }
                }
                g
            },
            None => SubGraph::new(),
        }
    }

    /// Stores `g` as the subgraph of `scope` (which must have none).
    pub fn put_partition(&mut self, scope: ScopeId, g: SubGraph)
        requires
            old(self).wf(),
            g.wf(),
            !has_scope(old(self).partitions_view(), scope),
        ensures
            final(self).wf(),
            final(self).partitions_view() == old(self).partitions_view().push((scope, g)),
            partition_of(final(self).partitions_view(), scope) == Some(g),
            forall|s: ScopeId|
                s != scope ==> #[trigger] partition_of(final(self).partitions_view(), s) == partition_of(
                    old(self).partitions_view(),
                    s,
                ),
            final(self).rings_view() == old(self).rings_view(),
            final(self).pending_view() == old(self).pending_view(),
            final(self).watermark_view() == old(self).watermark_view(),
            final(self).limits_view() == old(self).limits_view(),
    {
        let ghost p0 = self.partitions@;
        self.partitions.push((scope, g));
        proof {
            let p1 = self.partitions@;
            assert forall|a: int, b: int| 0 <= a < b < p1.len() implies (#[trigger] p1[a]).0 != (#[trigger] p1[b]).0 by {
                if b == p0.len() {
                    assert(p1[a] == p0[a]);
                    assert(p0[a].0 != scope);
                } else {
                    assert(p1[a] == p0[a]);
                    assert(p1[b] == p0[b]);
                }
            }
            assert forall|a: int| 0 <= a < p1.len() implies (#[trigger] p1[a]).1.wf() by {
                if a < p0.len() {
                    assert(p1[a] == p0[a]);
                }
            }
            let last = p0.len() as int;
            assert(p1[last].0 == scope);
            assert(has_scope(p1, scope));
            let c = scope_pos(p1, scope);
            if c != last {
                assert(p1[c] == p0[c]);
                assert(has_scope(p0, scope));
            }
            assert forall|s: ScopeId| s != scope implies #[trigger] partition_of(p1, s) == partition_of(p0, s) by {
                if has_scope(p0, s) {
                    let j = scope_pos(p0, s);
                    assert(p1[j] == p0[j]);
                    assert(has_scope(p1, s));
                    let i = scope_pos(p1, s);
                    assert(i != last);
                    assert(p1[i] == p0[i]);
                    assert(i == j);
                } else {
                    if has_scope(p1, s) {
                        let i = scope_pos(p1, s);
                        assert(p1[i] == p0[i]);
                    }
                }
            }
        }
    }

    /// Suspends a match into its scope's wait queue, creating the queue
    /// (capacity `max_pending_per_scope`) on first use. Returns the queue's
    /// spill diagnostic on overflow.
    pub fn suspend(&mut self, pending: PendingMatch) -> (d: Option<StoreDiagnostic>)
        requires
            old(self).wf(),
        ensures
            final(self).wf(),
            has_scope(final(self).pending_view(), pending.scope),
            final(self).partitions_view() == old(self).partitions_view(),
            final(self).rings_view() == old(self).rings_view(),
            final(self).watermark_view() == old(self).watermark_view(),
            final(self).limits_view() == old(self).limits_view(),
    {
        let scope = pending.scope;
        let mut queues: Vec<(ScopeId, WaitQueue)> = Vec::new();
        std::mem::swap(&mut queues, &mut self.pending);
        let idx = match find_scope(&queues, scope) {
            Some(i) => i,
            None => {
                let ghost q0 = queues@;
                queues.push((scope, WaitQueue::new(scope, self.limits.max_pending_per_scope)));
                proof {
                    assert forall|i: int, j: int| 0 <= i < j < queues@.len() implies (#[trigger] queues@[i]).0 != (#[trigger] queues@[j]).0 by {
                        if j == q0.len() {
                            assert(queues@[i] == q0[i]);
                        } else {
                            assert(queues@[i] == q0[i]);
                            assert(queues@[j] == q0[j]);
                        }
                    }
                }
                queues.len() - 1
            },
        };
        let ghost q1 = queues@;
        let (s, mut wq) = queues.remove(idx);
        let d = wq.push(pending);
        queues.insert(idx, (s, wq));
        proof {
            assert(queues@ =~= q1.update(idx as int, queues@[idx as int]));
            assert forall|i: int, j: int| 0 <= i < j < queues@.len() implies (#[trigger] queues@[i]).0 != (#[trigger] queues@[j]).0 by {
                assert(queues@[i].0 == q1[i].0);
                assert(queues@[j].0 == q1[j].0);
            }
            assert(queues@[idx as int].0 == scope);
        }
        self.pending = queues;
        d
    }

    /// Pops every suspended match with `upper_bound < wm` in every scope and
    /// returns them sorted by `pending_lt`.
    pub fn pop_expired(&mut self, wm: EventTime) -> (r: Vec<PendingMatch>)
        requires
            old(self).wf(),
        ensures
            final(self).wf(),
            pending_sorted(r@),
            forall|i: int| 0 <= i < r@.len() ==> (#[trigger] r@[i]).upper_bound.ms < wm.ms,
            r@.to_multiset().add(all_pending(final(self).pending_view())) == all_pending(old(self).pending_view()),
            final(self).pending_view().len() == old(self).pending_view().len(),
            forall|i: int|
                0 <= i < final(self).pending_view().len() ==> (#[trigger] final(self).pending_view()[i]).0
                    == old(self).pending_view()[i].0,
            forall|i: int, j: int|
                0 <= i < final(self).pending_view().len() && 0 <= j < final(self).pending_view()[i].1.matches().len()
                    ==> (#[trigger] final(self).pending_view()[i].1.matches()[j]).upper_bound.ms >= wm.ms,
            final(self).partitions_view() == old(self).partitions_view(),
            final(self).rings_view() == old(self).rings_view(),
            final(self).watermark_view() == old(self).watermark_view(),
            final(self).limits_view() == old(self).limits_view(),
    {
        let mut queues: Vec<(ScopeId, WaitQueue)> = Vec::new();
        std::mem::swap(&mut queues, &mut self.pending);
        let ghost q0 = queues@;
        let mut done: Vec<(ScopeId, WaitQueue)> = Vec::new();
        let mut out: Vec<PendingMatch> = Vec::new();
        let total = queues.len();
        while queues.len() > 0
            invariant
                q0.len() == total,
                queues@ == q0.skip(done@.len() as int),
                done@.len() + queues@.len() == total,
                forall|i: int| 0 <= i < done@.len() ==> (#[trigger] done@[i]).0 == q0[i].0,
                forall|i: int| 0 <= i < done@.len() ==> (#[trigger] done@[i]).1.scope_of() == q0[i].1.scope_of(),
                forall|i: int, j: int|
                    0 <= i < done@.len() && 0 <= j < done@[i].1.matches().len() ==> (#[trigger] done@[i].1.matches()[j]).upper_bound.ms
                        >= wm.ms,
                pending_sorted(out@),
                forall|i: int| 0 <= i < out@.len() ==> (#[trigger] out@[i]).upper_bound.ms < wm.ms,
                out@.to_multiset().add(all_pending(done@)) == all_pending(q0.take(done@.len() as int)),
            decreases queues@.len(),
        {
            let ghost n = done@.len() as int;
            let (s, mut wq) = queues.remove(0);
            proof {
                assert(queues@ =~= q0.skip(n + 1));
                assert(q0.take(n + 1).drop_last() =~= q0.take(n));
                assert(q0.take(n + 1).last() == (s, wq));
            }
            let ghost m0 = wq.matches();
            let ghost first = q0[n];
            proof {
                assert(first.1.matches() == m0);
                assert(all_pending(q0.take(n + 1)) == all_pending(q0.take(n)).add(m0.to_multiset()));
            }
            let mut popped = wq.pop_expired(wm);
            let ghost pm = popped@;
            let ghost out0 = out@;
            proof {
                assert(m0 =~= pm + wq.matches());
                vstd::seq_lib::lemma_multiset_commutative(pm, wq.matches());
            }
            while popped.len() > 0
                invariant
                    pending_sorted(out@),
                    forall|i: int| 0 <= i < out@.len() ==> (#[trigger] out@[i]).upper_bound.ms < wm.ms,
                    forall|i: int| 0 <= i < popped@.len() ==> (#[trigger] popped@[i]).upper_bound.ms < wm.ms,
                    out@.to_multiset().add(popped@.to_multiset()) == out0.to_multiset().add(pm.to_multiset()),
                decreases popped@.len(),
            {
                let ghost before = popped@;
                match popped.pop() {
                    Some(p) => {
                        proof {
                            assert(before =~= popped@.push(p));
                            assert(p == before[before.len() - 1]);
                        }
                        let ghost ob = out@;
                        insert_sorted_vec(&mut out, p);
                        proof {
                            assert forall|i: int| 0 <= i < out@.len() implies (#[trigger] out@[i]).upper_bound.ms < wm.ms by {
                                assert(out@.contains(out@[i]));
                                if ob.contains(out@[i]) {
                                    let j = choose|j: int| 0 <= j < ob.len() && ob[j] == out@[i];
                                    assert(ob[j].upper_bound.ms < wm.ms);
                                }
                            }
                            assert(out@.to_multiset().add(popped@.to_multiset()) =~= ob.to_multiset().add(
                                before.to_multiset(),
                            ));
                        }
                    },
                    None => {},
                }
            }
            proof {
                assert(popped@.to_multiset() =~= vstd::multiset::Multiset::<PendingMatch>::empty());
            }
            let ghost d0 = done@;
            done.push((s, wq));
            proof {
                assert(done@.drop_last() =~= d0);
                assert(done@.last() == (s, wq));
                assert(all_pending(done@) == all_pending(d0).add(wq.matches().to_multiset()));
                assert(out@.to_multiset() =~= out0.to_multiset().add(pm.to_multiset()));
                assert(m0.to_multiset() =~= pm.to_multiset().add(wq.matches().to_multiset()));
                assert(out@.to_multiset().add(all_pending(done@)) =~= all_pending(q0.take(n + 1)));
                assert forall|i: int, j: int|
                    0 <= i < done@.len() && 0 <= j < done@[i].1.matches().len() implies (#[trigger] done@[i].1.matches()[j]).upper_bound.ms
                        >= wm.ms by {
                    if i < d0.len() {
                        assert(done@[i] == d0[i]);
                    }
                }
            }
        }
        proof {
            let d = done@;
            assert forall|i: int, j: int| 0 <= i < j < d.len() implies (#[trigger] d[i]).0 != (#[trigger] d[j]).0 by {
                assert(q0[i].0 != q0[j].0);
            }
            assert(q0.take(q0.len() as int) =~= q0);
        }
        self.pending = done;
        out
    }

    /// Watermark GC over every ring (evicting events older than
    /// `watermark - max_lookback`) and provenance pruning over every
    /// partition with the same horizon. Returns the evicted event count.
    pub fn gc(&mut self, watermark: EventTime, max_lookback: DurationMs) -> (n: usize)
        requires
            old(self).wf(),
        ensures
            final(self).wf(),
            final(self).rings_view().len() == old(self).rings_view().len(),
            forall|i: int|
                0 <= i < final(self).rings_view().len() ==> (#[trigger] final(self).rings_view()[i]).1.events()
                    == old(self).rings_view()[i].1.events().skip(
                    lead_before(old(self).rings_view()[i].1.events(), clamp_i64(watermark.ms - max_lookback.ms_of())),
                ),
            final(self).pending_view() == old(self).pending_view(),
            final(self).watermark_view() == old(self).watermark_view(),
            final(self).limits_view() == old(self).limits_view(),
    {
        let mut rings: Vec<(ScopeId, RingBuffer)> = Vec::new();
        std::mem::swap(&mut rings, &mut self.rings);
        let ghost r0 = rings@;
        let ghost cutoff = clamp_i64(watermark.ms - max_lookback.ms_of());
        let mut done: Vec<(ScopeId, RingBuffer)> = Vec::new();
        let mut evicted: usize = 0;
        let total = rings.len();
        while rings.len() > 0
            invariant
                r0.len() == total,
                cutoff == clamp_i64(watermark.ms - max_lookback.ms_of()),
                rings@ == r0.skip(done@.len() as int),
                done@.len() + rings@.len() == total,
                forall|i: int| 0 <= i < done@.len() ==> (#[trigger] done@[i]).0 == r0[i].0,
                forall|i: int| 0 <= i < done@.len() ==> (#[trigger] done@[i]).1.scope_of() == r0[i].1.scope_of(),
                forall|i: int|
                    0 <= i < done@.len() ==> (#[trigger] done@[i]).1.events() == r0[i].1.events().skip(
                        lead_before(r0[i].1.events(), cutoff),
                    ),
            decreases rings@.len(),
        {
            let ghost n = done@.len() as int;
            let (s, mut ring) = rings.remove(0);
            let ghost ring0 = ring;
            proof {
                assert(rings@ =~= r0.skip(n + 1));
                assert(ring == r0[n].1);
            }
            let e = ring.gc(watermark, max_lookback);
            proof {
                assert(ring0 == r0[n].1);
                assert(e == lead_before(ring0.events(), cutoff));
                assert(ring.events() == ring0.events().skip(lead_before(ring0.events(), cutoff)));
            }
            evicted = evicted.saturating_add(e);
            let ghost d0 = done@;
            done.push((s, ring));
            proof {
                assert forall|i: int| 0 <= i < done@.len() implies (#[trigger] done@[i]).1.events() == r0[i].1.events().skip(
                    lead_before(r0[i].1.events(), cutoff),
                ) by {
                    if i < d0.len() {
                        assert(done@[i] == d0[i]);
                    } else {
                        assert(done@[i] == (s, ring));
                        assert(i == n);
                    }
                }
            }
        }
        proof {
            let d = done@;
            assert forall|i: int, j: int| 0 <= i < j < d.len() implies (#[trigger] d[i]).0 != (#[trigger] d[j]).0 by {
                assert(r0[i].0 != r0[j].0);
            }
        }
        self.rings = done;
        let dedup = self.limits.dedup_window;
        let mut parts: Vec<(ScopeId, SubGraph)> = Vec::new();
        std::mem::swap(&mut parts, &mut self.partitions);
        let ghost p0 = parts@;
        let mut pdone: Vec<(ScopeId, SubGraph)> = Vec::new();
        let ptotal = parts.len();
        while parts.len() > 0
            invariant
                p0.len() == ptotal,
                parts@ == p0.skip(pdone@.len() as int),
                pdone@.len() + parts@.len() == ptotal,
                forall|i: int| 0 <= i < pdone@.len() ==> (#[trigger] pdone@[i]).0 == p0[i].0,
                forall|i: int| 0 <= i < pdone@.len() ==> (#[trigger] pdone@[i]).1.wf(),
                forall|i: int| 0 <= i < p0.len() ==> (#[trigger] p0[i]).1.wf(),
            decreases parts@.len(),
        {
            let ghost n = pdone@.len() as int;
            let (s, mut g) = parts.remove(0);
            proof {
                assert(parts@ =~= p0.skip(n + 1));
                assert(g == p0[n].1);
            }
            let _ = g.prune_provenance(watermark, max_lookback, dedup);
            let ghost d0 = pdone@;
            pdone.push((s, g));
            proof {
                assert forall|i: int| 0 <= i < pdone@.len() implies (#[trigger] pdone@[i]).1.wf() by {
                    if i < d0.len() {
                        assert(pdone@[i] == d0[i]);
                    }
                }
            }
        }
        proof {
            let d = pdone@;
            assert forall|i: int, j: int| 0 <= i < j < d.len() implies (#[trigger] d[i]).0 != (#[trigger] d[j]).0 by {
                assert(p0[i].0 != p0[j].0);
            }
        }
        self.partitions = pdone;
        evicted
    }

    /// Sweeps stale problem-emission records in every partition; returns
    /// the total pruned count.
    pub fn prune_emitted(&mut self, wm: EventTime, max_cooldown: DurationMs) -> (n: usize)
        requires
            old(self).wf(),
        ensures
            final(self).wf(),
            final(self).rings_view() == old(self).rings_view(),
            final(self).pending_view() == old(self).pending_view(),
            final(self).watermark_view() == old(self).watermark_view(),
            final(self).limits_view() == old(self).limits_view(),
            final(self).partitions_view().len() == old(self).partitions_view().len(),
            forall|i: int|
                0 <= i < old(self).partitions_view().len() ==> (#[trigger] final(self).partitions_view()[i]).0
                    == old(self).partitions_view()[i].0 && emitted_pruned(
                    old(self).partitions_view()[i].1,
                    final(self).partitions_view()[i].1,
                    wm,
                    max_cooldown,
                ),
            n == (if emitted_total(old(self).partitions_view()) - emitted_total(final(self).partitions_view())
                > usize::MAX {
                usize::MAX as int
            } else {
                emitted_total(old(self).partitions_view()) - emitted_total(final(self).partitions_view())
            }),
    {
        let mut parts: Vec<(ScopeId, SubGraph)> = Vec::new();
        std::mem::swap(&mut parts, &mut self.partitions);
        let ghost p0 = parts@;
        let mut pdone: Vec<(ScopeId, SubGraph)> = Vec::new();
        let mut pruned: usize = 0;
        let ptotal = parts.len();
        while parts.len() > 0
            invariant
                p0.len() == ptotal,
                parts@ == p0.skip(pdone@.len() as int),
                pdone@.len() + parts@.len() == ptotal,
                forall|i: int| 0 <= i < pdone@.len() ==> (#[trigger] pdone@[i]).0 == p0[i].0,
                forall|i: int| 0 <= i < pdone@.len() ==> (#[trigger] pdone@[i]).1.wf(),
                forall|i: int| 0 <= i < p0.len() ==> (#[trigger] p0[i]).1.wf(),
                forall|i: int|
                    0 <= i < pdone@.len() ==> emitted_pruned(p0[i].1, (#[trigger] pdone@[i]).1, wm, max_cooldown),
                pruned == (if emitted_total(p0.take(pdone@.len() as int)) - emitted_total(pdone@) > usize::MAX {
                    usize::MAX as int
                } else {
                    emitted_total(p0.take(pdone@.len() as int)) - emitted_total(pdone@)
                }),
            decreases parts@.len(),
        {
            let ghost n = pdone@.len() as int;
            let (s, mut g) = parts.remove(0);
            proof {
                assert(parts@ =~= p0.skip(n + 1));
                assert(g == p0[n].1);
            }
            let k = g.prune_emitted(wm, max_cooldown);
            pruned = pruned.saturating_add(k);
            let ghost d0 = pdone@;
            pdone.push((s, g));
            proof {
                assert(pdone@.drop_last() =~= d0);
                assert(p0.take(n + 1).drop_last() =~= p0.take(n));
                assert(emitted_pruned(p0[n].1, pdone@[n].1, wm, max_cooldown));
                assert forall|i: int|
                    0 <= i < pdone@.len() implies emitted_pruned(p0[i].1, (#[trigger] pdone@[i]).1, wm, max_cooldown) by {
                    if i < d0.len() {
                        assert(pdone@[i] == d0[i]);
                    }
                }
                assert forall|i: int| 0 <= i < pdone@.len() implies (#[trigger] pdone@[i]).1.wf() by {
                    if i < d0.len() {
                        assert(pdone@[i] == d0[i]);
                    }
                }
            }
        }
        proof {
            let d = pdone@;
            assert forall|i: int, j: int| 0 <= i < j < d.len() implies (#[trigger] d[i]).0 != (#[trigger] d[j]).0 by {
                assert(p0[i].0 != p0[j].0);
            }
        }
        proof {
            assert(p0.take(ptotal as int) =~= p0);
        }
        self.partitions = pdone;
        pruned
    }

    /// Number of matches suspended for `scope`.
    pub fn pending_len(&self, scope: ScopeId) -> (n: usize)
        requires
            self.wf(),
        ensures
            n == if has_scope(self.pending_view(), scope) {
                self.pending_view()[scope_pos(self.pending_view(), scope)].1.matches().len()
            } else {
                0
            },
    {
        match find_scope(&self.pending, scope) {
            Some(i) => self.pending[i].1.len(),
            None => 0,
        }
    }
}

/// Inserts `p` into a sorted vector after every match that does not come
/// strictly after it.
fn insert_sorted_vec(v: &mut Vec<PendingMatch>, p: PendingMatch)
    requires
        pending_sorted(old(v)@),
    ensures
        pending_sorted(final(v)@),
        final(v)@.to_multiset() == old(v)@.to_multiset().insert(p),
        forall|x: PendingMatch| #[trigger] final(v)@.contains(x) <==> old(v)@.contains(x) || x == p,
{
    let ghost base = v@;
    let mut pos: usize = v.len();
    while pos > 0 && p.precedes(&v[pos - 1])
        invariant
            0 <= pos <= base.len(),
            v@ == base,
            forall|i: int| pos <= i < base.len() ==> pending_lt(p, #[trigger] base[i]),
        decreases pos,
    {
        pos = pos - 1;
    }
    proof {
        let after = base.insert(pos as int, p);
        assert forall|i: int, j: int| 0 <= i < j < after.len() implies !pending_lt(after[j], after[i]) by {
            if j == pos {
                crate::ir::lemma_pending_order(base[i], base[pos - 1], p);
                if i < pos - 1 {
                    assert(!pending_lt(base[pos - 1], base[i]));
                }
            } else if i == pos {
                assert(pending_lt(p, base[j - 1]));
                crate::ir::lemma_pending_order(p, base[j - 1], p);
                crate::ir::lemma_pending_order(base[j - 1], p, base[j - 1]);
            } else {
                let a = if i < pos { i } else { i - 1 };
                let b = if j < pos { j } else { j - 1 };
                assert(after[i] == base[a]);
                assert(after[j] == base[b]);
            }
        }
        assert forall|x: PendingMatch| #[trigger] after.contains(x) <==> base.contains(x) || x == p by {
            if base.contains(x) {
                let i = choose|i: int| 0 <= i < base.len() && base[i] == x;
                if i < pos {
                    assert(after[i] == x);
                } else {
                    assert(after[i + 1] == x);
                }
            }
            if x == p {
                assert(after[pos as int] == p);
            }
            if after.contains(x) {
                let i = choose|i: int| 0 <= i < after.len() && after[i] == x;
                if i < pos {
                    assert(base[i] == x);
                } else if i > pos {
                    assert(base[i - 1] == x);
                }
            }
        }
    }
    v.insert(pos, p);
}

} // verus!
