//! Per-partition diagnostic subgraph: causes, append-only problems,
//! ambiguities, evidence edges, and the provenance / emission dedup sets.
use vstd::prelude::*;

use crate::ir::ProvKey;
use crate::types::{
    clamp_confidence, clamp_i64, mix64, mix64_exec, CauseKind, Confidence, DurationMs, EventId, EventTime, NodeId,
    ProblemKind, RuleId, SarifId, ScopeId, Severity, Weight,
};

verus! {

/// Full runtime provenance-dedup key: the static prefix joined with the
/// dedup window of the driving event.
#[derive(Debug, Clone, PartialEq, Eq)]
pub struct RuntimeProvKey {
    /// Static prefix `(rule, cause, target_expr_hash)`.
    pub key: ProvKey,
    /// `floor(time / dedup_window)`.
    pub window_id: i64,
}

/// The value identity of a provenance key.
pub open spec fn prov_view(k: RuntimeProvKey) -> (Seq<char>, Seq<char>, u64, i64) {
    (k.key.rule@, k.key.cause@, k.key.target_expr_hash, k.window_id)
}

/// One confidence mutation of `(kind, target)` over a partition's causes
/// `s`, edges `e0` and seen provenance keys `p0`, giving `s1`, `e1`, `p1`:
/// a new cause beyond `max_causes`, or an already seen `key`, changes
/// nothing; otherwise the key is recorded, the cause (created with
/// `fresh_id` and `time` when new) gets the confidence `prior + weight`
/// (clamped; prior 0 when new) and keeps its id, time and evidence, and
/// one edge of the weight's kind is added from each source.
pub open spec fn infer_effect(
    s: Seq<CauseNode>,
    e0: Seq<EvidenceEdge>,
    p0: Seq<(Seq<char>, Seq<char>, u64, i64)>,
    s1: Seq<CauseNode>,
    e1: Seq<EvidenceEdge>,
    p1: Seq<(Seq<char>, Seq<char>, u64, i64)>,
    kind: Seq<char>,
    target: ScopeId,
    key: (Seq<char>, Seq<char>, u64, i64),
    weight: Weight,
    time: EventTime,
    sources: Seq<EdgeEndpoint>,
    max_causes: int,
    fresh_id: NodeId,
) -> bool {
    let exists = has_cause(s, kind, target);
    if (!exists && s.len() >= max_causes) || p0.contains(key) {
        s1 == s && e1 == e0 && p1 == p0
    } else {
        let i = if exists {
            cause_at(s, kind, target)
        } else {
            s.len() as int
        };
        let n = s1[i];
        let prior = if exists {
            s[i].confidence.val()
        } else {
            0
        };
        &&& p1 == p0.push(key)
        &&& s1.len() == if exists {
            s.len()
        } else {
            s.len() + 1
        }
        &&& forall|j: int| 0 <= j < s.len() && j != i ==> #[trigger] s1[j] == s[j]
        &&& n.kind@ == kind && n.target == target
        &&& n.confidence.val() == clamp_confidence(prior + weight.val())
        &&& (exists ==> n.id == s[i].id && n.time == s[i].time && n.evidence == s[i].evidence)
        &&& (!exists ==> n.id == fresh_id && n.time == time && n.evidence@.len() == 0)
        &&& e1 == e0 + infer_edges(sources, edge_kind_for(weight), n.id)
    }
}

impl RuntimeProvKey {
    /// A copy of this key.
    pub fn duplicate(&self) -> (k: RuntimeProvKey)
        ensures
            prov_view(k) == prov_view(*self),
    {
        RuntimeProvKey { key: self.key.duplicate(), window_id: self.window_id }
    }

    /// Value equality.
    pub fn same(&self, other: &RuntimeProvKey) -> (b: bool)
        ensures
            b == (prov_view(*self) == prov_view(*other)),
    {
        self.window_id == other.window_id && self.key.target_expr_hash
            == other.key.target_expr_hash && self.key.rule.same(&other.key.rule)
            && self.key.cause.same(&other.key.cause)
    }
}

/// The dedup window width actually used: at least 1 ms.
pub open spec fn window_width(d: DurationMs) -> int {
    if d.ms_of() >= 1 {
        d.ms_of()
    } else {
        1
    }
}

/// The provenance target hash of an evaluated target: the static
/// target-expression hash mixed with the target scope's hash key, so two
/// different evaluated targets of one expression get different keys.
pub open spec fn mix_target_spec(expr_hash: u64, target_key: u64) -> u64 {
    mix64(expr_hash ^ (((target_key as int * 0x9E37_79B9_7F4A_7C15int) % 0x1_0000_0000_0000_0000int) as u64))
}

/// Mixes the static target-expression hash with the evaluated target's
/// scope key (splitmix64 finalization).
pub fn mix_target(expr_hash: u64, target_key: u64) -> (h: u64)
    ensures
        h == mix_target_spec(expr_hash, target_key),
{
    mix64_exec(expr_hash ^ target_key.wrapping_mul(0x9E37_79B9_7F4A_7C15u64))
}

/// `floor(time / max(1, dedup_window))`.
pub open spec fn window_of(t: EventTime, d: DurationMs) -> i64 {
    (t.ms as int / window_width(d)) as i64
}

/// `window_id = floor(time / dedup_window)`; a zero window counts as 1 ms,
/// and negative times still floor.
pub fn window_id(time: EventTime, dedup_window: DurationMs) -> (w: i64)
    ensures
        w == window_of(time, dedup_window),
{
    let d = dedup_window.millis();
    let width: i64 = if d >= 1 {
        d
    } else {
        1
    };
    let t = time.millis();
    proof {
        assert(t as int / width as int <= i64::MAX) by (nonlinear_arith)
            requires
                width >= 1,
                t <= i64::MAX,
        ;
        assert(t as int / width as int >= i64::MIN) by (nonlinear_arith)
            requires
                width >= 1,
                t >= i64::MIN,
        ;
    }
    match t.checked_div_euclid(width) {
        Some(q) => q,
        None => 0,
    }
}

/// A hypothesis node; its confidence mutates, its `time` is the first-infer
/// time and stays.
#[derive(Debug, Clone, PartialEq, Eq)]
pub struct CauseNode {
    /// Stable node id.
    pub id: NodeId,
    /// Cause kind.
    pub kind: CauseKind,
    /// Entity the hypothesis is about.
    pub target: ScopeId,
    /// First-infer event time.
    pub time: EventTime,
    /// Accumulated confidence.
    pub confidence: Confidence,
    /// Evidence node references.
    pub evidence: Vec<NodeId>,
    /// Provenance keys that contributed, in order.
    pub provenance: Vec<RuntimeProvKey>,
}

/// An emitted problem; never removed, retraction sets `superseded`.
#[derive(Debug, Clone, PartialEq, Eq)]
pub struct ProblemNode {
    /// Stable node id.
    pub id: NodeId,
    /// Problem kind.
    pub kind: ProblemKind,
    /// Entity the problem is about.
    pub target: ScopeId,
    /// Emission watermark.
    pub time: EventTime,
    /// Emission severity.
    pub severity: Severity,
    /// Evidence node references.
    pub evidence: Vec<NodeId>,
    /// Stable SARIF id.
    pub sarif_id: SarifId,
    /// Suppression flag.
    pub superseded: bool,
}

/// Ambiguity lifecycle state.
#[derive(Debug, Clone, Copy, PartialEq, Eq, Structural)]
pub enum AmbiguityState {
    /// Both causes are probable and too close to call.
    Active,
    /// One cause won or they separated.
    Resolved,
}

/// A competing-hypotheses node.
#[derive(Debug, PartialEq, Eq)]
pub struct AmbiguityNode {
    /// Stable node id.
    pub id: NodeId,
    /// The competing cause pair.
    pub causes: (CauseKind, CauseKind),
    /// Common target.
    pub target: ScopeId,
    /// Lifecycle state.
    pub state: AmbiguityState,
}

/// Evidence-edge kind.
#[derive(Debug, Clone, Copy, PartialEq, Eq, Structural)]
pub enum EvidenceEdgeKind {
    /// Positive-weight support.
    Supports,
    /// Negative-weight contradiction.
    Contradicts,
    /// Neutral correlation.
    Explains,
    /// A child partition's cause rolled up into the parent's.
    RollsUp,
}

/// Edge source: a ring event (by id) or another graph node.
#[derive(Debug, Clone, Copy, PartialEq, Eq, Structural)]
pub enum EdgeEndpoint {
    /// A ring event.
    Event(EventId),
    /// A subgraph node.
    Node(NodeId),
}

/// A directed evidence edge.
#[derive(Debug, Clone, Copy, PartialEq, Eq, Structural)]
pub struct EvidenceEdge {
    /// Supports / Contradicts / Explains.
    pub kind: EvidenceEdgeKind,
    /// Evidence source.
    pub src: EdgeEndpoint,
    /// Destination node.
    pub dst: NodeId,
}

/// One problem-emission record: `(rule, problem, target, watermark)`.
#[derive(Debug, Clone, PartialEq, Eq)]
pub struct EmitRecord {
    /// Emitting rule.
    pub rule: RuleId,
    /// Emitted problem kind.
    pub problem: ProblemKind,
    /// Problem target.
    pub target: ScopeId,
    /// Emission watermark in ms.
    pub wm: i64,
}

/// Whether record `r` is for `(rule, problem, target)`.
pub open spec fn same_emit_key(r: EmitRecord, rule: Seq<char>, problem: Seq<char>, target: ScopeId) -> bool {
    r.rule@ == rule && r.problem@ == problem && r.target == target
}

/// Records of other keys decide the cooldown of other keys: two record
/// lists that agree on them agree on those keys' cooldowns.
proof fn lemma_cooldown_other_keys(
    s0: Seq<EmitRecord>,
    s1: Seq<EmitRecord>,
    rule: Seq<char>,
    problem: Seq<char>,
    target: ScopeId,
    r2: Seq<char>,
    p2: Seq<char>,
    t2: ScopeId,
    w2: i64,
    c2: int,
)
    requires
        forall|r: EmitRecord| !same_emit_key(r, rule, problem, target) ==> (s0.contains(r) <==> s1.contains(r)),
        !(r2 == rule && p2 == problem && t2 == target),
    ensures
        within_cooldown(s1, r2, p2, t2, w2, c2) == within_cooldown(s0, r2, p2, t2, w2, c2),
{
    if within_cooldown(s1, r2, p2, t2, w2, c2) {
        let i = choose|i: int|
            0 <= i < s1.len() && same_emit_key(#[trigger] s1[i], r2, p2, t2) && clamp_i64(w2 - s1[i].wm) <= c2;
        assert(s1.contains(s1[i]));
        assert(!same_emit_key(s1[i], rule, problem, target));
        let j = choose|j: int| 0 <= j < s0.len() && s0[j] == s1[i];
        assert(same_emit_key(s0[j], r2, p2, t2));
    }
    if within_cooldown(s0, r2, p2, t2, w2, c2) {
        let i = choose|i: int|
            0 <= i < s0.len() && same_emit_key(#[trigger] s0[i], r2, p2, t2) && clamp_i64(w2 - s0[i].wm) <= c2;
        assert(s0.contains(s0[i]));
        assert(!same_emit_key(s0[i], rule, problem, target));
        let j = choose|j: int| 0 <= j < s1.len() && s1[j] == s0[i];
        assert(same_emit_key(s1[j], r2, p2, t2));
    }
}

/// Whether an emission at `wm` of `(rule, problem, target)` is still within
/// the cooldown of a recorded one (`wm - prev <= cooldown`, saturating).
pub open spec fn within_cooldown(
    s: Seq<EmitRecord>,
    rule: Seq<char>,
    problem: Seq<char>,
    target: ScopeId,
    wm: i64,
    cooldown: int,
) -> bool {
    exists|i: int|
        0 <= i < s.len() && same_emit_key(#[trigger] s[i], rule, problem, target) && clamp_i64(
            wm - s[i].wm,
        ) <= cooldown
}

/// Whether the cause list holds `(kind, target)`.
pub open spec fn has_cause(s: Seq<CauseNode>, kind: Seq<char>, target: ScopeId) -> bool {
    exists|i: int| 0 <= i < s.len() && (#[trigger] s[i]).kind@ == kind && s[i].target == target
}

/// Position of the `(kind, target)` cause (meaningful when it exists).
pub open spec fn cause_at(s: Seq<CauseNode>, kind: Seq<char>, target: ScopeId) -> int {
    choose|i: int| 0 <= i < s.len() && (#[trigger] s[i]).kind@ == kind && s[i].target == target
}

/// The edge kind an infer of weight `w` creates.
pub open spec fn edge_kind_for(w: Weight) -> EvidenceEdgeKind {
    if w.val() >= 0 {
        EvidenceEdgeKind::Supports
    } else {
        EvidenceEdgeKind::Contradicts
    }
}

/// The edges an infer adds: one per evidence source, into `dst`.
pub open spec fn infer_edges(sources: Seq<EdgeEndpoint>, kind: EvidenceEdgeKind, dst: NodeId) -> Seq<
    EvidenceEdge,
> {
    Seq::new(sources.len(), |j: int| EvidenceEdge { kind, src: sources[j], dst })
}

/// Whether `a` is the ambiguity of the pair `(first, second)` over
/// `target`.
pub open spec fn ambiguity_is(a: AmbiguityNode, first: Seq<char>, second: Seq<char>, target: ScopeId) -> bool {
    a.causes.0@ == first && a.causes.1@ == second && a.target == target
}

/// Whether `s` holds an ambiguity of the pair over `target`.
pub open spec fn has_ambiguity(s: Seq<AmbiguityNode>, first: Seq<char>, second: Seq<char>, target: ScopeId) -> bool {
    exists|i: int| 0 <= i < s.len() && ambiguity_is(#[trigger] s[i], first, second, target)
}

/// Position of the first ambiguity of the pair over `target` (meaningful
/// when one exists).
pub open spec fn first_ambiguity(s: Seq<AmbiguityNode>, first: Seq<char>, second: Seq<char>, target: ScopeId) -> int {
    choose|i: int|
        0 <= i < s.len() && ambiguity_is(#[trigger] s[i], first, second, target) && forall|j: int|
            0 <= j < i ==> !ambiguity_is(#[trigger] s[j], first, second, target)
}

proof fn lemma_first_ambiguity(s: Seq<AmbiguityNode>, first: Seq<char>, second: Seq<char>, target: ScopeId, i: int)
    requires
        0 <= i < s.len(),
        ambiguity_is(s[i], first, second, target),
        forall|j: int| 0 <= j < i ==> !ambiguity_is(#[trigger] s[j], first, second, target),
    ensures
        first_ambiguity(s, first, second, target) == i,
{
    let k = first_ambiguity(s, first, second, target);
    assert(0 <= k < s.len() && ambiguity_is(s[k], first, second, target));
    if k < i {
        assert(!ambiguity_is(s[k], first, second, target));
    } else if k > i {
        assert(!ambiguity_is(s[i], first, second, target));
    }
}

/// What a partition-level infer did.
#[derive(Debug, Clone, Copy, PartialEq, Eq, Structural)]
pub enum InferOutcome {
    /// The partition already holds `max_causes` causes and this one is new:
    /// nothing changed.
    CapacityExceeded,
    /// The provenance key was already seen this window: nothing changed.
    Duplicate,
    /// The confidence mutation was applied.
    Applied {
        /// The mutated cause node.
        node: NodeId,
        /// Whether the node was created by this infer.
        created: bool,
        /// The node's (first-infer) time.
        time: EventTime,
        /// The node's confidence after the mutation.
        confidence: Confidence,
    },
}

/// `problem` with its `superseded` flag set.
pub open spec fn superseded_copy(p: ProblemNode) -> ProblemNode {
    ProblemNode { superseded: true, ..p }
}

/// Whether `p` is one `supersede_problems(kind, target)` newly marks.
pub open spec fn supersede_hit(p: ProblemNode, kind: Seq<char>, target: ScopeId) -> bool {
    !p.superseded && p.kind@ == kind && p.target == target
}

/// Number of problems `supersede_problems(kind, target)` newly marks.
pub open spec fn supersede_count(s: Seq<ProblemNode>, kind: Seq<char>, target: ScopeId) -> nat
    decreases s.len(),
{
    if s.len() == 0 {
        0
    } else {
        supersede_count(s.drop_last(), kind, target) + if supersede_hit(s.last(), kind, target) {
            1nat
        } else {
            0nat
        }
    }
}

/// One partition's diagnostic graph.
#[derive(Debug)]
pub struct SubGraph {
    causes: Vec<CauseNode>,
    problems: Vec<ProblemNode>,
    ambiguities: Vec<AmbiguityNode>,
    edges: Vec<EvidenceEdge>,
    seen_provenance: Vec<RuntimeProvKey>,
    emitted_problems: Vec<EmitRecord>,
}

impl SubGraph {
    /// The causes, in creation order.
    pub closed spec fn causes_view(&self) -> Seq<CauseNode> {
        self.causes@
    }

    /// The problems, in emission order.
    pub closed spec fn problems_view(&self) -> Seq<ProblemNode> {
        self.problems@
    }

    /// The ambiguity nodes, in creation order.
    pub closed spec fn ambiguities_view(&self) -> Seq<AmbiguityNode> {
        self.ambiguities@
    }

    /// The evidence edges, in insertion order.
    pub closed spec fn edges_view(&self) -> Seq<EvidenceEdge> {
        self.edges@
    }

    /// The provenance dedup keys, in insertion order.
    pub closed spec fn provenance_view(&self) -> Seq<(Seq<char>, Seq<char>, u64, i64)> {
        self.seen_provenance@.map_values(|k: RuntimeProvKey| prov_view(k))
    }

    /// The problem-emission records.
    pub closed spec fn emitted_view(&self) -> Seq<EmitRecord> {
        self.emitted_problems@
    }

    /// No `(kind, target)` cause twice, no provenance key twice, no
    /// `(rule, problem, target)` emission record twice.
    pub closed spec fn wf(&self) -> bool {
        &&& forall|i: int, j: int|
            0 <= i < j < self.causes@.len() ==> !((#[trigger] self.causes@[i]).kind@
                == (#[trigger] self.causes@[j]).kind@ && self.causes@[i].target
                == self.causes@[j].target)
        &&& self.provenance_view().no_duplicates()
        &&& forall|i: int, j: int|
            0 <= i < j < self.emitted_problems@.len() ==> !same_emit_key(
                #[trigger] self.emitted_problems@[i],
                (#[trigger] self.emitted_problems@[j]).rule@,
                self.emitted_problems@[j].problem@,
                self.emitted_problems@[j].target,
            )
    }

    /// An empty partition graph.
    pub fn new() -> (g: SubGraph)
        ensures
            g.wf(),
            g.causes_view().len() == 0,
            g.problems_view().len() == 0,
            g.ambiguities_view().len() == 0,
            g.edges_view().len() == 0,
            g.provenance_view().len() == 0,
            g.emitted_view().len() == 0,
    {
        let g = SubGraph {
            causes: Vec::new(),
            problems: Vec::new(),
            ambiguities: Vec::new(),
            edges: Vec::new(),
            seen_provenance: Vec::new(),
            emitted_problems: Vec::new(),
        };
        proof {
            assert(g.provenance_view() =~= Seq::<(Seq<char>, Seq<char>, u64, i64)>::empty());
        }
        g
    }

    fn find_provenance(&self, key: &RuntimeProvKey) -> (r: Option<usize>)
        ensures
            match r {
                Some(i) => i < self.provenance_view().len() && self.provenance_view()[i as int]
                    == prov_view(*key),
                None => !self.provenance_view().contains(prov_view(*key)),
            },
    {
        let mut i: usize = 0;
        while i < self.seen_provenance.len()
            invariant
                0 <= i <= self.seen_provenance@.len(),
                forall|j: int| 0 <= j < i ==> prov_view(self.seen_provenance@[j]) != prov_view(*key),
            decreases self.seen_provenance@.len() - i,
        {
            if self.seen_provenance[i].same(key) {
                return Some(i);
            }
            i = i + 1;
        }
        None
    }

    /// Whether a provenance key has been seen.
    pub fn has_provenance(&self, key: &RuntimeProvKey) -> (b: bool)
        ensures
            b == self.provenance_view().contains(prov_view(*key)),
    {
        self.find_provenance(key).is_some()
    }

    /// Registers a provenance key: `true` when it was new (the infer
    /// proceeds), `false` when it was already seen (the infer is a no-op).
    pub fn try_insert_provenance(&mut self, key: RuntimeProvKey) -> (fresh: bool)
        requires
            old(self).wf(),
        ensures
            final(self).wf(),
            fresh == !old(self).provenance_view().contains(prov_view(key)),
            final(self).provenance_view() == if fresh {
                old(self).provenance_view().push(prov_view(key))
            } else {
                old(self).provenance_view()
            },
            final(self).causes_view() == old(self).causes_view(),
            final(self).problems_view() == old(self).problems_view(),
            final(self).ambiguities_view() == old(self).ambiguities_view(),
            final(self).edges_view() == old(self).edges_view(),
            final(self).emitted_view() == old(self).emitted_view(),
    {
        if self.find_provenance(&key).is_some() {
            return false;
        }
        let ghost v = prov_view(key);
        self.seen_provenance.push(key);
        proof {
            assert(self.provenance_view() =~= old(self).provenance_view().push(v));
        }
        true
    }

    /// Problem-emission cooldown check and record: `false` (nothing
    /// changes) when `(rule, problem, target)` was emitted within `cooldown`
    /// of `wm`; otherwise the key's older record is replaced by `wm` and the
    /// result is `true`.
    pub fn try_mark_emitted(
        &mut self,
        rule: &RuleId,
        problem: &ProblemKind,
        target: ScopeId,
        wm: EventTime,
        cooldown: DurationMs,
    ) -> (fresh: bool)
        requires
            old(self).wf(),
        ensures
            final(self).wf(),
            fresh == !within_cooldown(
                old(self).emitted_view(),
                rule@,
                problem@,
                target,
                wm.ms,
                cooldown.ms_of(),
            ),
            !fresh ==> final(self).emitted_view() == old(self).emitted_view(),
            fresh ==> (forall|i: int|
                0 <= i < final(self).emitted_view().len() ==> (same_emit_key(
                    #[trigger] final(self).emitted_view()[i],
                    rule@,
                    problem@,
                    target,
                ) <==> final(self).emitted_view()[i].wm == wm.ms && i
                    == final(self).emitted_view().len() - 1)),
            fresh ==> final(self).emitted_view().len() > 0,
            fresh ==> same_emit_key(final(self).emitted_view().last(), rule@, problem@, target)
                && final(self).emitted_view().last().wm == wm.ms,
            fresh ==> (forall|r: EmitRecord|
                !same_emit_key(r, rule@, problem@, target) ==> (old(self).emitted_view().contains(r)
                    <==> final(self).emitted_view().contains(r))),
            final(self).causes_view() == old(self).causes_view(),
            forall|r2: Seq<char>, p2: Seq<char>, t2: ScopeId, w2: i64, c2: int|
                !(r2 == rule@ && p2 == problem@ && t2 == target) ==> #[trigger] within_cooldown(
                    final(self).emitted_view(),
                    r2,
                    p2,
                    t2,
                    w2,
                    c2,
                ) == within_cooldown(old(self).emitted_view(), r2, p2, t2, w2, c2),
            final(self).problems_view() == old(self).problems_view(),
            final(self).ambiguities_view() == old(self).ambiguities_view(),
            final(self).edges_view() == old(self).edges_view(),
            final(self).provenance_view() == old(self).provenance_view(),
    {
        let cd = cooldown.millis();
        let ghost s0 = self.emitted_problems@;
        let mut i: usize = 0;
        while i < self.emitted_problems.len()
            invariant
                0 <= i <= s0.len(),
                self.emitted_problems@ == s0,
                *self == *old(self),
                self.wf(),
                cd == cooldown.ms_of(),
                forall|j: int|
                    0 <= j < i ==> !(same_emit_key(#[trigger] s0[j], rule@, problem@, target)
                        && clamp_i64(wm.ms - s0[j].wm) <= cd),
            decreases s0.len() - i,
        {
            let r = &self.emitted_problems[i];
            if r.target.same(&target) && r.rule.same(rule) && r.problem.same(problem) {
                let diff: i64 = match wm.ms.checked_sub(r.wm) {
                    Some(x) => x,
                    None => if r.wm > 0 {
                        i64::MIN
                    } else {
                        i64::MAX
                    },
                };
                assert(diff == clamp_i64(wm.ms - s0[i as int].wm));
                if diff <= cd {
                    proof {
                        assert(same_emit_key(s0[i as int], rule@, problem@, target));
                        assert(clamp_i64(wm.ms - s0[i as int].wm) <= cooldown.ms_of());
                        assert(within_cooldown(s0, rule@, problem@, target, wm.ms, cooldown.ms_of()));
                    }
                    return false;
                }
            }
            i = i + 1;
        }
        // Drop the key's expired record, then record `wm`.
        let mut kept: Vec<EmitRecord> = Vec::new();
        let mut old_records: Vec<EmitRecord> = Vec::new();
        std::mem::swap(&mut old_records, &mut self.emitted_problems);
        let ghost src = old_records@;
        let mut k: usize = 0;
        let mut rest = old_records;
        proof {
            assert(rest@ == src);
        }
        let total = rest.len();
        while rest.len() > 0
            invariant
                src.len() == total,
                src == s0,
                rest@ == src.skip(k as int),
                k <= src.len(),
                rest@.len() == src.len() - k,
                forall|j: int| 0 <= j < kept@.len() ==> !same_emit_key(#[trigger] kept@[j], rule@, problem@, target),
                forall|r: EmitRecord|
                    !same_emit_key(r, rule@, problem@, target) ==> (src.take(k as int).contains(r)
                        <==> kept@.contains(r)),
                forall|a: int, b: int|
                    0 <= a < b < kept@.len() ==> !same_emit_key(
                        #[trigger] kept@[a],
                        (#[trigger] kept@[b]).rule@,
                        kept@[b].problem@,
                        kept@[b].target,
                    ),
                forall|a: int| 0 <= a < kept@.len() ==> #[trigger] src.take(k as int).contains(kept@[a]),
                forall|a: int, b: int|
                    0 <= a < b < src.len() ==> !same_emit_key(
                        #[trigger] src[a],
                        (#[trigger] src[b]).rule@,
                        src[b].problem@,
                        src[b].target,
                    ),
            decreases rest@.len(),
        {
            let r = rest.remove(0);
            let ghost kk = k as int;
            let ghost t0 = src.take(kk);
            let ghost t1 = src.take(kk + 1);
            proof {
                assert(r == src[kk]);
                assert(t1 =~= t0.push(r));
                assert(rest@ =~= src.skip(kk + 1));
            }
            if r.target.same(&target) && r.rule.same(rule) && r.problem.same(problem) {
                proof {
                    assert forall|x: EmitRecord|
                        !same_emit_key(x, rule@, problem@, target) implies (t1.contains(x)
                        <==> kept@.contains(x)) by {
                        if t1.contains(x) {
                            let j = choose|j: int| 0 <= j < kk + 1 && t1[j] == x;
                            if j < kk {
                                assert(t0[j] == x);
                            }
                        }
                        if t0.contains(x) {
                            let j = choose|j: int| 0 <= j < kk && t0[j] == x;
                            assert(t1[j] == x);
                        }
                    }
                    assert forall|a: int| 0 <= a < kept@.len() implies #[trigger] t1.contains(kept@[a]) by {
                        assert(t0.contains(kept@[a]));
                        let j = choose|j: int| 0 <= j < kk && t0[j] == kept@[a];
                        assert(t1[j] == kept@[a]);
                    }
                }
            } else {
                let ghost before = kept@;
                kept.push(r);
                proof {
                    assert forall|x: EmitRecord|
                        !same_emit_key(x, rule@, problem@, target) implies (t1.contains(x)
                        <==> kept@.contains(x)) by {
                        if t1.contains(x) {
                            let j = choose|j: int| 0 <= j < kk + 1 && t1[j] == x;
                            if j < kk {
                                assert(t0[j] == x);
                                assert(before.contains(x));
                                let m = choose|m: int| 0 <= m < before.len() && before[m] == x;
                                assert(kept@[m] == x);
                            } else {
                                assert(kept@[before.len() as int] == x);
                            }
                        }
                        if kept@.contains(x) {
                            let m = choose|m: int| 0 <= m < kept@.len() && kept@[m] == x;
                            if m < before.len() {
                                assert(before[m] == x);
                                assert(t0.contains(x));
                                let j = choose|j: int| 0 <= j < kk && t0[j] == x;
                                assert(t1[j] == x);
                            } else {
                                assert(t1[kk] == x);
                            }
                        }
                    }
                    assert forall|a: int| 0 <= a < kept@.len() implies #[trigger] t1.contains(kept@[a]) by {
                        if a < before.len() {
                            assert(kept@[a] == before[a]);
                            assert(t0.contains(before[a]));
                            let j = choose|j: int| 0 <= j < kk && t0[j] == before[a];
                            assert(t1[j] == kept@[a]);
                        } else {
                            assert(t1[kk] == kept@[a]);
                        }
                    }
                    assert forall|a: int, b: int|
                        0 <= a < b < kept@.len() implies !same_emit_key(
                        #[trigger] kept@[a],
                        (#[trigger] kept@[b]).rule@,
                        kept@[b].problem@,
                        kept@[b].target,
                    ) by {
                        if b == before.len() {
                            assert(kept@[a] == before[a]);
                            assert(t0.contains(before[a]));
                            let j = choose|j: int| 0 <= j < kk && t0[j] == before[a];
                            assert(src[j] == before[a]);
                            assert(kept@[b] == src[kk]);
                        } else {
                            assert(kept@[a] == before[a]);
                            assert(kept@[b] == before[b]);
                        }
                    }
                }
            }
            k = k + 1;
        }
        proof {
            assert(src.take(src.len() as int) =~= src);
        }
        let ghost before = kept@;
        kept.push(EmitRecord { rule: rule.duplicate(), problem: problem.duplicate(), target, wm: wm.ms });
        proof {
            let fin = kept@;
            assert forall|x: EmitRecord|
                !same_emit_key(x, rule@, problem@, target) implies (s0.contains(x) <==> fin.contains(x)) by {
                if fin.contains(x) {
                    let m = choose|m: int| 0 <= m < fin.len() && fin[m] == x;
                    if m < before.len() {
                        assert(before[m] == x);
                    }
                }
                if before.contains(x) {
                    let m = choose|m: int| 0 <= m < before.len() && before[m] == x;
                    assert(fin[m] == x);
                }
            }
            assert forall|a: int, b: int|
                0 <= a < b < fin.len() implies !same_emit_key(
                #[trigger] fin[a],
                (#[trigger] fin[b]).rule@,
                fin[b].problem@,
                fin[b].target,
            ) by {
                if b < before.len() {
                    assert(fin[a] == before[a]);
                    assert(fin[b] == before[b]);
                } else {
                    assert(fin[a] == before[a]);
                }
            }
            assert forall|a: int| 0 <= a < fin.len() implies (same_emit_key(
                #[trigger] fin[a],
                rule@,
                problem@,
                target,
            ) <==> fin[a].wm == wm.ms && a == fin.len() - 1) by {
                if a < before.len() {
                    assert(fin[a] == before[a]);
                }
            }
        }
        self.emitted_problems = kept;
        proof {
            assert forall|r2: Seq<char>, p2: Seq<char>, t2: ScopeId, w2: i64, c2: int|
                !(r2 == rule@ && p2 == problem@ && t2 == target) implies #[trigger] within_cooldown(
                    self.emitted_problems@,
                    r2,
                    p2,
                    t2,
                    w2,
                    c2,
                ) == within_cooldown(s0, r2, p2, t2, w2, c2) by {
                lemma_cooldown_other_keys(s0, self.emitted_problems@, rule@, problem@, target, r2, p2, t2, w2, c2);
            }
        }
        true
    }

    /// Sweeps the emission records older than `wm - max_cooldown`
    /// (saturating); returns how many were removed.
    pub fn prune_emitted(&mut self, wm: EventTime, max_cooldown: DurationMs) -> (n: usize)
        requires
            old(self).wf(),
        ensures
            final(self).wf(),
            final(self).emitted_view() == old(self).emitted_view().filter(
                |r: EmitRecord| r.wm >= clamp_i64(wm.ms - max_cooldown.ms_of()),
            ),
            n == old(self).emitted_view().len() - final(self).emitted_view().len(),
            final(self).causes_view() == old(self).causes_view(),
            final(self).problems_view() == old(self).problems_view(),
            final(self).ambiguities_view() == old(self).ambiguities_view(),
            final(self).edges_view() == old(self).edges_view(),
            final(self).provenance_view() == old(self).provenance_view(),
    {
        let horizon = wm.sub(max_cooldown).ms;
        let ghost keep = |r: EmitRecord| r.wm >= horizon;
        let mut old_records: Vec<EmitRecord> = Vec::new();
        std::mem::swap(&mut old_records, &mut self.emitted_problems);
        let ghost src = old_records@;
        let mut rest = old_records;
        let mut kept: Vec<EmitRecord> = Vec::new();
        let mut k: usize = 0;
        proof {
            assert(src.take(0).filter(keep) =~= kept@);
        }
        let total = rest.len();
        while rest.len() > 0
            invariant
                src.len() == total,
                rest@ == src.skip(k as int),
                k <= src.len(),
                rest@.len() == src.len() - k,
                kept@ == src.take(k as int).filter(keep),
                kept@.len() <= k,
                keep == (|r: EmitRecord| r.wm >= horizon),
            decreases rest@.len(),
        {
            let r = rest.remove(0);
            let ghost kk = k as int;
            proof {
                assert(r == src[kk]);
                assert(src.take(kk + 1) =~= src.take(kk).push(r));
                assert(rest@ =~= src.skip(kk + 1));
                reveal(Seq::filter);
                assert(src.take(kk + 1).drop_last() =~= src.take(kk));
            }
            if r.wm >= horizon {
                kept.push(r);
            }
            k = k + 1;
        }
        proof {
            assert(src.take(src.len() as int) =~= src);
            assert forall|a: int, b: int|
                0 <= a < b < kept@.len() implies !same_emit_key(
                #[trigger] kept@[a],
                (#[trigger] kept@[b]).rule@,
                kept@[b].problem@,
                kept@[b].target,
            ) by {
                lemma_filter_keeps_order(src, keep, a, b);
            }
        }
        let n = k - kept.len();
        self.emitted_problems = kept;
        n
    }

    /// Sweeps the provenance keys whose window can no longer occur:
    /// `window_id < window_of(wm - max_lookback)`. Returns how many were
    /// removed.
    pub fn prune_provenance(
        &mut self,
        wm: EventTime,
        max_lookback: DurationMs,
        dedup_window: DurationMs,
    ) -> (n: usize)
        requires
            old(self).wf(),
        ensures
            final(self).wf(),
            final(self).provenance_view() == old(self).provenance_view().filter(
                |v: (Seq<char>, Seq<char>, u64, i64)|
                    v.3 >= window_of(
                        EventTime { ms: clamp_i64(wm.ms - max_lookback.ms_of()) },
                        dedup_window,
                    ),
            ),
            n == old(self).provenance_view().len() - final(self).provenance_view().len(),
            final(self).causes_view() == old(self).causes_view(),
            final(self).problems_view() == old(self).problems_view(),
            final(self).ambiguities_view() == old(self).ambiguities_view(),
            final(self).edges_view() == old(self).edges_view(),
            final(self).emitted_view() == old(self).emitted_view(),
    {
        let horizon = window_id(wm.sub(max_lookback), dedup_window);
        let ghost keep = |v: (Seq<char>, Seq<char>, u64, i64)| v.3 >= horizon;
        let ghost pv = self.provenance_view();
        let mut old_keys: Vec<RuntimeProvKey> = Vec::new();
        std::mem::swap(&mut old_keys, &mut self.seen_provenance);
        let ghost src = old_keys@;
        let ghost srcv = src.map_values(|x: RuntimeProvKey| prov_view(x));
        let mut rest = old_keys;
        let mut kept: Vec<RuntimeProvKey> = Vec::new();
        let mut k: usize = 0;
        proof {
            assert(srcv == pv);
            assert(srcv.take(0).filter(keep) =~= kept@.map_values(|x: RuntimeProvKey| prov_view(x)));
        }
        let total = rest.len();
        while rest.len() > 0
            invariant
                src.len() == total,
                rest@ == src.skip(k as int),
                k <= src.len(),
                rest@.len() == src.len() - k,
                srcv == src.map_values(|x: RuntimeProvKey| prov_view(x)),
                kept@.map_values(|x: RuntimeProvKey| prov_view(x)) == srcv.take(k as int).filter(keep),
                kept@.len() <= k,
                keep == (|v: (Seq<char>, Seq<char>, u64, i64)| v.3 >= horizon),
            decreases rest@.len(),
        {
            let r = rest.remove(0);
            let ghost kk = k as int;
            let ghost before = kept@;
            proof {
                assert(r == src[kk]);
                assert(srcv.take(kk + 1) =~= srcv.take(kk).push(prov_view(r)));
                assert(rest@ =~= src.skip(kk + 1));
                reveal(Seq::filter);
                assert(srcv.take(kk + 1).drop_last() =~= srcv.take(kk));
            }
            if r.window_id >= horizon {
                kept.push(r);
                proof {
                    assert(kept@.map_values(|x: RuntimeProvKey| prov_view(x)) =~= before.map_values(
                        |x: RuntimeProvKey| prov_view(x),
                    ).push(prov_view(r)));
                }
            }
            k = k + 1;
        }
        proof {
            assert(srcv.take(src.len() as int) =~= srcv);
            let fv = kept@.map_values(|x: RuntimeProvKey| prov_view(x));
            lemma_filter_no_duplicates(srcv, keep);
        }
        let n = k - kept.len();
        self.seen_provenance = kept;
        n
    }

    /// Appends a problem; problems are never removed.
    pub fn push_problem(&mut self, problem: ProblemNode)
        requires
            old(self).wf(),
        ensures
            final(self).wf(),
            final(self).problems_view() == old(self).problems_view().push(problem),
            final(self).causes_view() == old(self).causes_view(),
            final(self).ambiguities_view() == old(self).ambiguities_view(),
            final(self).edges_view() == old(self).edges_view(),
            final(self).provenance_view() == old(self).provenance_view(),
            final(self).emitted_view() == old(self).emitted_view(),
    {
        self.problems.push(problem);
    }

    fn find_cause(&self, kind: &CauseKind, target: ScopeId) -> (r: Option<usize>)
        requires
            self.wf(),
        ensures
            match r {
                Some(i) => i < self.causes@.len() && self.causes@[i as int].kind@ == kind@
                    && self.causes@[i as int].target == target && cause_at(self.causes@, kind@, target)
                    == i,
                None => !has_cause(self.causes@, kind@, target),
            },
    {
        let mut i: usize = 0;
        while i < self.causes.len()
            invariant
                0 <= i <= self.causes@.len(),
                self.wf(),
                forall|j: int|
                    0 <= j < i ==> !((#[trigger] self.causes@[j]).kind@ == kind@ && self.causes@[j].target
                        == target),
            decreases self.causes@.len() - i,
        {
            if self.causes[i].target.same(&target) && self.causes[i].kind.same(kind) {
                proof {
                    let cs = self.causes@;
                    assert(cs[i as int].kind@ == kind@ && cs[i as int].target == target);
                    let c = cause_at(cs, kind@, target);
                    assert(0 <= c < cs.len() && cs[c].kind@ == kind@ && cs[c].target == target);
                    if c < i {
                        assert(!(cs[c].kind@ == cs[i as int].kind@ && cs[c].target == cs[i as int].target));
                    } else if c > i {
                        assert(!(cs[i as int].kind@ == cs[c].kind@ && cs[i as int].target == cs[c].target));
                    }
                }
                return Some(i);
            }
            i = i + 1;
        }
        None
    }

    /// The cause node for `(kind, target)`, if any.
    pub fn cause(&self, kind: &CauseKind, target: ScopeId) -> (r: Option<&CauseNode>)
        requires
            self.wf(),
        ensures
            r is Some <==> has_cause(self.causes_view(), kind@, target),
            r matches Some(n) ==> *n == self.causes_view()[cause_at(self.causes_view(), kind@, target)]
                && n.kind@ == kind@ && n.target == target,
    {
        match self.find_cause(kind, target) {
            Some(i) => Some(&self.causes[i]),
            None => None,
        }
    }

    /// Number of cause nodes.
    pub fn cause_count(&self) -> (n: usize)
        ensures
            n == self.causes_view().len(),
    {
        self.causes.len()
    }

    /// The partition-level effect of `infer Cause(kind) { target, weight }`:
    /// a new `(kind, target)` beyond `max_causes` is rejected; a provenance
    /// key already seen is a no-op; otherwise the key is recorded, the node
    /// is created if needed (id `fresh_id`, time `time`, confidence 0), its
    /// confidence becomes `clamp(confidence + weight, 0, 100)`, the key is
    /// appended to its provenance, and one edge per evidence source is added
    /// (`Supports` for a non-negative weight, `Contradicts` otherwise).
    pub fn apply_infer(
        &mut self,
        kind: &CauseKind,
        target: ScopeId,
        key: RuntimeProvKey,
        weight: Weight,
        time: EventTime,
        sources: &Vec<EdgeEndpoint>,
        max_causes: usize,
        fresh_id: NodeId,
    ) -> (o: InferOutcome)
        requires
            old(self).wf(),
        ensures
            final(self).wf(),
            ({
                let s = old(self).causes_view();
                let exists = has_cause(s, kind@, target);
                if !exists && s.len() >= max_causes {
                    &&& o == InferOutcome::CapacityExceeded
                    &&& final(self).causes_view() == s
                    &&& final(self).edges_view() == old(self).edges_view()
                    &&& final(self).provenance_view() == old(self).provenance_view()
                } else if old(self).provenance_view().contains(prov_view(key)) {
                    &&& o == InferOutcome::Duplicate
                    &&& final(self).causes_view() == s
                    &&& final(self).edges_view() == old(self).edges_view()
                    &&& final(self).provenance_view() == old(self).provenance_view()
                } else {
                    let i = if exists {
                        cause_at(s, kind@, target)
                    } else {
                        s.len() as int
                    };
                    let n = final(self).causes_view()[i];
                    let prior = if exists {
                        s[i].confidence.val()
                    } else {
                        0
                    };
                    &&& final(self).provenance_view() == old(self).provenance_view().push(prov_view(key))
                    &&& final(self).causes_view().len() == if exists {
                        s.len()
                    } else {
                        s.len() + 1
                    }
                    &&& forall|j: int| 0 <= j < s.len() && j != i ==> #[trigger] final(self).causes_view()[j] == s[j]
                    &&& n.kind@ == kind@ && n.target == target
                    &&& n.confidence.val() == clamp_confidence(prior + weight.val())
                    &&& (exists ==> n.id == s[i].id && n.time == s[i].time && n.evidence == s[i].evidence
                        && n.provenance@.len() == s[i].provenance@.len() + 1
                        && n.provenance@.take(s[i].provenance@.len() as int) == s[i].provenance@)
                    &&& (!exists ==> n.id == fresh_id && n.time == time && n.evidence@.len() == 0
                        && n.provenance@.len() == 1)
                    &&& prov_view(n.provenance@.last()) == prov_view(key)
                    &&& final(self).edges_view() == old(self).edges_view() + infer_edges(sources@, edge_kind_for(weight), n.id)
                    &&& o == InferOutcome::Applied { node: n.id, created: !exists, time: n.time, confidence: n.confidence }
                }
            }),
            final(self).problems_view() == old(self).problems_view(),
            final(self).ambiguities_view() == old(self).ambiguities_view(),
            final(self).emitted_view() == old(self).emitted_view(),
            infer_effect(
                old(self).causes_view(),
                old(self).edges_view(),
                old(self).provenance_view(),
                final(self).causes_view(),
                final(self).edges_view(),
                final(self).provenance_view(),
                kind@,
                target,
                prov_view(key),
                weight,
                time,
                sources@,
                max_causes as int,
                fresh_id,
            ),
    {
        let found = self.find_cause(kind, target);
        if found.is_none() && self.causes.len() >= max_causes {
            return InferOutcome::CapacityExceeded;
        }
        if self.find_provenance(&key).is_some() {
            return InferOutcome::Duplicate;
        }
        let ghost pv0 = self.provenance_view();
        let ghost v = prov_view(key);
        let recorded = key.duplicate();
        self.seen_provenance.push(key);
        proof {
            assert(self.provenance_view() =~= pv0.push(v));
        }
        let ghost s = self.causes@;
        let idx: usize = match found {
            Some(i) => i,
            None => {
                self.causes.push(
                    CauseNode {
                        id: fresh_id,
                        kind: kind.duplicate(),
                        target,
                        time,
                        confidence: Confidence::min_value(),
                        evidence: Vec::new(),
                        provenance: Vec::new(),
                    },
                );
                proof {
                    assert forall|a: int, b: int|
                        0 <= a < b < self.causes@.len() implies !((#[trigger] self.causes@[a]).kind@
                        == (#[trigger] self.causes@[b]).kind@ && self.causes@[a].target
                        == self.causes@[b].target) by {
                        if b == s.len() {
                            assert(self.causes@[a] == s[a]);
                        } else {
                            assert(self.causes@[a] == s[a]);
                            assert(self.causes@[b] == s[b]);
                        }
                    }
                }
                self.causes.len() - 1
            },
        };
        let ghost s1 = self.causes@;
        let node_id = self.causes[idx].id;
        let node_time = self.causes[idx].time;
        let conf = self.causes[idx].confidence.apply(weight);
        let mut node = self.causes.remove(idx);
        node.confidence = conf;
        node.provenance.push(recorded);
        self.causes.insert(idx, node);
        proof {
            assert(self.causes@ =~= s1.update(idx as int, self.causes@[idx as int]));
            assert forall|a: int, b: int|
                0 <= a < b < self.causes@.len() implies !((#[trigger] self.causes@[a]).kind@
                == (#[trigger] self.causes@[b]).kind@ && self.causes@[a].target
                == self.causes@[b].target) by {
                if a != idx {
                    assert(self.causes@[a] == s1[a]);
                }
                if b != idx {
                    assert(self.causes@[b] == s1[b]);
                }
            }
            assert(self.causes@[idx as int].provenance@.take(s1[idx as int].provenance@.len() as int)
                =~= s1[idx as int].provenance@);
        }
        let ek = if weight.is_supporting() {
            EvidenceEdgeKind::Supports
        } else {
            EvidenceEdgeKind::Contradicts
        };
        let mut added: Vec<EvidenceEdge> = Vec::new();
        let mut j: usize = 0;
        while j < sources.len()
            invariant
                0 <= j <= sources@.len(),
                added@ == infer_edges(sources@.take(j as int), ek, node_id),
            decreases sources@.len() - j,
        {
            added.push(EvidenceEdge { kind: ek, src: sources[j], dst: node_id });
            proof {
                assert(infer_edges(sources@.take(j + 1), ek, node_id) =~= infer_edges(
                    sources@.take(j as int),
                    ek,
                    node_id,
                ).push(EvidenceEdge { kind: ek, src: sources@[j as int], dst: node_id }));
            }
            j = j + 1;
        }
        proof {
            assert(sources@.take(sources@.len() as int) =~= sources@);
        }
        self.edges.append(&mut added);
        InferOutcome::Applied { node: node_id, created: found.is_none(), time: node_time, confidence: conf }
    }

    /// The emitted problems in emission order.
    pub fn problems(&self) -> (s: &[ProblemNode])
        ensures
            s@ == self.problems_view(),
    {
        self.problems.as_slice()
    }

    /// The causes in creation order.
    pub fn causes(&self) -> (s: &[CauseNode])
        ensures
            s@ == self.causes_view(),
    {
        self.causes.as_slice()
    }

    /// The evidence edges in insertion order.
    pub fn edges(&self) -> (s: &[EvidenceEdge])
        ensures
            s@ == self.edges_view(),
    {
        self.edges.as_slice()
    }

    /// Appends an evidence edge.
    pub fn add_edge(&mut self, edge: EvidenceEdge)
        requires
            old(self).wf(),
        ensures
            final(self).wf(),
            final(self).edges_view() == old(self).edges_view().push(edge),
            final(self).causes_view() == old(self).causes_view(),
            final(self).problems_view() == old(self).problems_view(),
            final(self).ambiguities_view() == old(self).ambiguities_view(),
            final(self).provenance_view() == old(self).provenance_view(),
            final(self).emitted_view() == old(self).emitted_view(),
    {
        self.edges.push(edge);
    }

    /// The cross-scope roll-up of `(kind, target)` into this partition: a
    /// new cause beyond `max_causes` is rejected (`None`, nothing changes);
    /// otherwise the node is created if needed (id `fresh_id`, time `time`)
    /// and its confidence set to `confidence`. Returns the node's id, time
    /// and whether it was created.
    pub fn set_rollup(
        &mut self,
        kind: &CauseKind,
        target: ScopeId,
        confidence: Confidence,
        time: EventTime,
        max_causes: usize,
        fresh_id: NodeId,
    ) -> (r: Option<(NodeId, EventTime, bool)>)
        requires
            old(self).wf(),
        ensures
            final(self).wf(),
            ({
                let s = old(self).causes_view();
                let exists = has_cause(s, kind@, target);
                if !exists && s.len() >= max_causes {
                    r is None && final(self).causes_view() == s
                } else {
                    let i = if exists {
                        cause_at(s, kind@, target)
                    } else {
                        s.len() as int
                    };
                    let n = final(self).causes_view()[i];
                    &&& final(self).causes_view().len() == if exists {
                        s.len()
                    } else {
                        s.len() + 1
                    }
                    &&& forall|j: int| 0 <= j < s.len() && j != i ==> #[trigger] final(self).causes_view()[j] == s[j]
                    &&& n.kind@ == kind@ && n.target == target && n.confidence == confidence
                    &&& (exists ==> n.id == s[i].id && n.time == s[i].time)
                    &&& (!exists ==> n.id == fresh_id && n.time == time)
                    &&& r == Some((n.id, n.time, !exists))
                }
            }),
            final(self).problems_view() == old(self).problems_view(),
            final(self).ambiguities_view() == old(self).ambiguities_view(),
            final(self).edges_view() == old(self).edges_view(),
            final(self).provenance_view() == old(self).provenance_view(),
            final(self).emitted_view() == old(self).emitted_view(),
    {
        let found = self.find_cause(kind, target);
        match found {
            Some(i) => {
                let ghost s = self.causes@;
                let mut node = self.causes.remove(i);
                node.confidence = confidence;
                let id = node.id;
                let t = node.time;
                self.causes.insert(i, node);
                proof {
                    assert(self.causes@ =~= s.update(i as int, self.causes@[i as int]));
                    assert forall|a: int, b: int|
                        0 <= a < b < self.causes@.len() implies !((#[trigger] self.causes@[a]).kind@
                        == (#[trigger] self.causes@[b]).kind@ && self.causes@[a].target
                        == self.causes@[b].target) by {
                        if a != i {
                            assert(self.causes@[a] == s[a]);
                        }
                        if b != i {
                            assert(self.causes@[b] == s[b]);
                        }
                    }
                }
                Some((id, t, false))
            },
            None => {
                if self.causes.len() >= max_causes {
                    return None;
                }
                let ghost s = self.causes@;
                self.causes.push(
                    CauseNode {
                        id: fresh_id,
                        kind: kind.duplicate(),
                        target,
                        time,
                        confidence,
                        evidence: Vec::new(),
                        provenance: Vec::new(),
                    },
                );
                proof {
                    assert forall|a: int, b: int|
                        0 <= a < b < self.causes@.len() implies !((#[trigger] self.causes@[a]).kind@
                        == (#[trigger] self.causes@[b]).kind@ && self.causes@[a].target
                        == self.causes@[b].target) by {
                        assert(self.causes@[a] == s[a]);
                        if b < s.len() {
                            assert(self.causes@[b] == s[b]);
                        }
                    }
                }
                Some((fresh_id, time, true))
            },
        }
    }

    /// Appends `edge` unless an equal edge is already there.
    pub fn add_edge_once(&mut self, edge: EvidenceEdge)
        requires
            old(self).wf(),
        ensures
            final(self).wf(),
            final(self).edges_view() == if old(self).edges_view().contains(edge) {
                old(self).edges_view()
            } else {
                old(self).edges_view().push(edge)
            },
            final(self).causes_view() == old(self).causes_view(),
            final(self).problems_view() == old(self).problems_view(),
            final(self).ambiguities_view() == old(self).ambiguities_view(),
            final(self).provenance_view() == old(self).provenance_view(),
            final(self).emitted_view() == old(self).emitted_view(),
    {
        let mut i: usize = 0;
        while i < self.edges.len()
            invariant
                0 <= i <= self.edges@.len(),
                self.wf(),
                forall|j: int| 0 <= j < i ==> self.edges@[j] != edge,
            decreases self.edges@.len() - i,
        {
            if self.edges[i] == edge {
                return;
            }
            i = i + 1;
        }
        self.edges.push(edge);
    }

    fn find_ambiguity(&self, first: &CauseKind, second: &CauseKind, target: ScopeId) -> (r: Option<usize>)
        ensures
            match r {
                Some(i) => i < self.ambiguities@.len() && ambiguity_is(self.ambiguities@[i as int], first@, second@, target)
                    && forall|j: int| 0 <= j < i ==> !ambiguity_is(#[trigger] self.ambiguities@[j], first@, second@, target),
                None => !has_ambiguity(self.ambiguities@, first@, second@, target),
            },
    {
        let mut i: usize = 0;
        while i < self.ambiguities.len()
            invariant
                0 <= i <= self.ambiguities@.len(),
                forall|j: int| 0 <= j < i ==> !ambiguity_is(#[trigger] self.ambiguities@[j], first@, second@, target),
            decreases self.ambiguities@.len() - i,
        {
            let a = &self.ambiguities[i];
            if a.causes.0.same(first) && a.causes.1.same(second) && a.target.same(&target) {
                return Some(i);
            }
            i = i + 1;
        }
        None
    }

    /// Opens an `Active` ambiguity node for the pair over `target` unless
    /// one already exists; returns whether it was created.
    pub fn open_ambiguity(&mut self, first: &CauseKind, second: &CauseKind, target: ScopeId, id: NodeId) -> (created: bool)
        requires
            old(self).wf(),
        ensures
            final(self).wf(),
            created == !has_ambiguity(old(self).ambiguities_view(), first@, second@, target),
            created ==> final(self).ambiguities_view().len() == old(self).ambiguities_view().len() + 1
                && final(self).ambiguities_view().take(old(self).ambiguities_view().len() as int)
                == old(self).ambiguities_view() && ({
                let a = final(self).ambiguities_view().last();
                ambiguity_is(a, first@, second@, target) && a.id == id && a.state == AmbiguityState::Active
            }),
            !created ==> final(self).ambiguities_view() == old(self).ambiguities_view(),
            final(self).causes_view() == old(self).causes_view(),
            final(self).problems_view() == old(self).problems_view(),
            final(self).edges_view() == old(self).edges_view(),
            final(self).provenance_view() == old(self).provenance_view(),
            final(self).emitted_view() == old(self).emitted_view(),
    {
        if self.find_ambiguity(first, second, target).is_some() {
            return false;
        }
        let ghost s = self.ambiguities@;
        self.ambiguities.push(
            AmbiguityNode {
                id,
                causes: (first.duplicate(), second.duplicate()),
                target,
                state: AmbiguityState::Active,
            },
        );
        proof {
            assert(self.ambiguities@.take(s.len() as int) =~= s);
        }
        true
    }

    /// Marks the pair's ambiguity over `target` resolved, if it is active.
    pub fn resolve_ambiguity(&mut self, first: &CauseKind, second: &CauseKind, target: ScopeId)
        requires
            old(self).wf(),
        ensures
            final(self).wf(),
            final(self).ambiguities_view().len() == old(self).ambiguities_view().len(),
            forall|i: int|
                0 <= i < old(self).ambiguities_view().len() ==> {
                    let a = old(self).ambiguities_view()[i];
                    let b = #[trigger] final(self).ambiguities_view()[i];
                    &&& b.id == a.id && b.causes == a.causes && b.target == a.target
                    &&& b.state == if ambiguity_is(a, first@, second@, target) && i == first_ambiguity(
                        old(self).ambiguities_view(),
                        first@,
                        second@,
                        target,
                    ) {
                        AmbiguityState::Resolved
                    } else {
                        a.state
                    }
                },
            final(self).causes_view() == old(self).causes_view(),
            final(self).problems_view() == old(self).problems_view(),
            final(self).edges_view() == old(self).edges_view(),
            final(self).provenance_view() == old(self).provenance_view(),
            final(self).emitted_view() == old(self).emitted_view(),
    {
        match self.find_ambiguity(first, second, target) {
            Some(i) => {
                proof {
                    lemma_first_ambiguity(self.ambiguities@, first@, second@, target, i as int);
                }
                self.ambiguities[i].state = AmbiguityState::Resolved;
            },
            None => {},
        }
    }

    /// The ambiguity nodes in creation order.
    pub fn ambiguities(&self) -> (s: &[AmbiguityNode])
        ensures
            s@ == self.ambiguities_view(),
    {
        self.ambiguities.as_slice()
    }

    /// Marks every not yet superseded problem of `(kind, target)`
    /// superseded; nothing is removed and no other field changes. Returns
    /// how many were newly marked.
    pub fn supersede_problems(&mut self, kind: &ProblemKind, target: ScopeId) -> (n: usize)
        requires
            old(self).wf(),
        ensures
            final(self).wf(),
            final(self).problems_view().len() == old(self).problems_view().len(),
            forall|i: int|
                0 <= i < old(self).problems_view().len() ==> #[trigger] final(self).problems_view()[i]
                    == if supersede_hit(old(self).problems_view()[i], kind@, target) {
                    superseded_copy(old(self).problems_view()[i])
                } else {
                    old(self).problems_view()[i]
                },
            n == supersede_count(old(self).problems_view(), kind@, target),
            final(self).causes_view() == old(self).causes_view(),
            final(self).ambiguities_view() == old(self).ambiguities_view(),
            final(self).edges_view() == old(self).edges_view(),
            final(self).provenance_view() == old(self).provenance_view(),
            final(self).emitted_view() == old(self).emitted_view(),
    {
        let ghost s0 = self.problems@;
        let mut marked: usize = 0;
        let mut i: usize = 0;
        while i < self.problems.len()
            invariant
                0 <= i <= s0.len(),
                self.problems@.len() == s0.len(),
                forall|j: int|
                    0 <= j < i ==> #[trigger] self.problems@[j] == if supersede_hit(s0[j], kind@, target) {
                        superseded_copy(s0[j])
                    } else {
                        s0[j]
                    },
                forall|j: int| i <= j < s0.len() ==> #[trigger] self.problems@[j] == s0[j],
                marked == supersede_count(s0.take(i as int), kind@, target),
                marked <= i,
                self.causes@ == old(self).causes@,
                self.ambiguities@ == old(self).ambiguities@,
                self.edges@ == old(self).edges@,
                self.seen_provenance@ == old(self).seen_provenance@,
                self.emitted_problems@ == old(self).emitted_problems@,
            decreases s0.len() - i,
        {
            proof {
                assert(s0.take(i + 1).drop_last() =~= s0.take(i as int));
                assert(s0.take(i + 1).last() == s0[i as int]);
            }
            let hit = {
                let p = &self.problems[i];
                !p.superseded && p.kind.same(kind) && p.target.same(&target)
            };
            if hit {
                self.problems[i].superseded = true;
                marked = marked + 1;
            }
            i = i + 1;
        }
        proof {
            assert(s0.take(s0.len() as int) =~= s0);
        }
        marked
    }
}

/// Filtering keeps relative order: entries `a < b` of the filtered sequence
/// come from entries `i < j` of the source.
proof fn lemma_filter_keeps_order(src: Seq<EmitRecord>, keep: spec_fn(EmitRecord) -> bool, a: int, b: int)
    requires
        0 <= a < b < src.filter(keep).len(),
        forall|x: int, y: int|
            0 <= x < y < src.len() ==> !same_emit_key(
                #[trigger] src[x],
                (#[trigger] src[y]).rule@,
                src[y].problem@,
                src[y].target,
            ),
    ensures
        !same_emit_key(
            src.filter(keep)[a],
            src.filter(keep)[b].rule@,
            src.filter(keep)[b].problem@,
            src.filter(keep)[b].target,
        ),
    decreases src.len(),
{
    reveal(Seq::filter);
    let f = src.filter(keep);
    let init = src.drop_last();
    assert forall|x: int, y: int|
        0 <= x < y < init.len() implies !same_emit_key(
        #[trigger] init[x],
        (#[trigger] init[y]).rule@,
        init[y].problem@,
        init[y].target,
    ) by {
        assert(init[x] == src[x]);
        assert(init[y] == src[y]);
    }
    if keep(src.last()) && b == f.len() - 1 {
        // f = init.filter(keep).push(last)
        assert(f =~= init.filter(keep).push(src.last()));
        let x = f[a];
        assert(init.filter(keep).contains(x)) by {
            assert(init.filter(keep)[a] == x);
        }
        lemma_filter_subset(init, keep, x);
        let i = choose|i: int| 0 <= i < init.len() && init[i] == x;
        assert(src[i] == x);
        assert(src[src.len() - 1] == src.last());
    } else if keep(src.last()) {
        assert(f =~= init.filter(keep).push(src.last()));
        assert(f[a] == init.filter(keep)[a]);
        assert(f[b] == init.filter(keep)[b]);
        lemma_filter_keeps_order(init, keep, a, b);
    } else {
        assert(f =~= init.filter(keep));
        lemma_filter_keeps_order(init, keep, a, b);
    }
}

/// Whatever a filter keeps was in the source.
proof fn lemma_filter_subset<A>(s: Seq<A>, keep: spec_fn(A) -> bool, x: A)
    requires
        s.filter(keep).contains(x),
    ensures
        s.contains(x),
    decreases s.len(),
{
    reveal(Seq::filter);
    if s.len() > 0 {
        let init = s.drop_last();
        if keep(s.last()) {
            assert(s.filter(keep) =~= init.filter(keep).push(s.last()));
        } else {
            assert(s.filter(keep) =~= init.filter(keep));
        }
        if x == s.last() {
            assert(s[s.len() - 1] == x);
        } else {
            if keep(s.last()) {
                let j = choose|j: int| 0 <= j < s.filter(keep).len() && s.filter(keep)[j] == x;
                assert(init.filter(keep)[j] == x);
            }
            lemma_filter_subset(init, keep, x);
            let i = choose|i: int| 0 <= i < init.len() && init[i] == x;
            assert(s[i] == x);
        }
    }
}

/// Filtering a duplicate-free sequence leaves it duplicate-free.
proof fn lemma_filter_no_duplicates<A>(s: Seq<A>, keep: spec_fn(A) -> bool)
    requires
        s.no_duplicates(),
    ensures
        s.filter(keep).no_duplicates(),
    decreases s.len(),
{
    reveal(Seq::filter);
    if s.len() > 0 {
        let init = s.drop_last();
        assert(init.no_duplicates()) by {
            assert forall|i: int, j: int| 0 <= i < init.len() && 0 <= j < init.len() && i != j implies init[i] != init[j] by {
                assert(init[i] == s[i]);
                assert(init[j] == s[j]);
            }
        }
        lemma_filter_no_duplicates(init, keep);
        if keep(s.last()) {
            let f = s.filter(keep);
            assert(f =~= init.filter(keep).push(s.last()));
            assert(!init.filter(keep).contains(s.last())) by {
                if init.filter(keep).contains(s.last()) {
                    lemma_filter_subset(init, keep, s.last());
                    let i = choose|i: int| 0 <= i < init.len() && init[i] == s.last();
                    assert(s[i] == s[s.len() - 1]);
                }
            }
            assert forall|i: int, j: int| 0 <= i < f.len() && 0 <= j < f.len() && i != j implies f[i] != f[j] by {
                if i == f.len() - 1 {
                    assert(f[j] == init.filter(keep)[j]);
                } else if j == f.len() - 1 {
                    assert(f[i] == init.filter(keep)[i]);
                } else {
                    assert(f[i] == init.filter(keep)[i]);
                    assert(f[j] == init.filter(keep)[j]);
                }
            }
        } else {
            assert(s.filter(keep) =~= init.filter(keep));
        }
    }
}

} // verus!
