//! The execution engine: ingest an event, route it to the rules anchored on
//! it, suspend matches whose forward window is still open, advance the
//! watermark, resume expired matches, resolve correlate bindings, and run
//! the selected intents over the graph store — with the watermark policy of
//! the run mode (offline: max seen time and late-evidence audit; live:
//! bounded disorder per source, idle sources left out, late events dropped
//! to a side output).
use vstd::prelude::*;

use crate::catalog::events::{event_index, event_row, resolve_event};
use crate::catalog::metric::{metric_path_spec, resolve_metric_path, EventOrBindingType};
use crate::catalog::schema::{FieldType, ScopeRoute};
use crate::catalog::tables::exclusivity_defaults;
use crate::eval::binding::{Binding, Bound, CauseSnapshot, ProblemSnapshot};
use crate::eval::diag::EngineDiagnostic;
use crate::eval::error::CorrelateError;
use crate::eval::evidence::collect_problem_evidence;
use crate::eval::extract::{CauseView, ProblemView, Snapshot};
use crate::eval::interner::ScopeInterner;
use crate::eval::predicate::{answers, eval_predicate, eval_spec, PredCtx};
use crate::eval::sarif::{to_sarif_with_options, SarifOptions};
use crate::eval::sink::{ActionIntent, ActionSink, AuditEntry, OfflineAuditSink, RunMode};
use crate::eval::topology::{TopoFunc, TopologyProvider};
use crate::ir::image::{AnchorKey, ExclusivityGroup, ProgramImage};
use crate::ir::intent::{CausePair, Intent};
use crate::ir::rule::{CorrelateSource, CorrelateSpec, RuleInstance, WindowProof};
use crate::ir::{PendingMatch, Predicate, ProvKey, RuleKind, Symbol};
use crate::store::event::EventNode;
use crate::store::limits::Limits;
use crate::store::store::{
    ambiguities_in, causes_in, edges_in, has_scope, scope_pos, emitted_in, partition_of, problems_in, provenance_in, GraphStore,
};
use crate::store::subgraph::{
    ambiguity_is, cause_at, first_ambiguity, has_ambiguity, has_cause, infer_effect, AmbiguityNode, AmbiguityState, mix_target, prov_view, same_emit_key, window_id, within_cooldown, EdgeEndpoint, EvidenceEdge, EvidenceEdgeKind,
    InferOutcome, ProblemNode, RuntimeProvKey, SubGraph,
};
use crate::text::push_char;
use crate::types::{
    chars_lt, scope_lt, ActionKind, CauseKind, Confidence, DurationMs, EventTime, EventType, MetricPath,
    NodeId, ProblemKind, RuleId, SarifId, ScopeId, Severity, T3, Weight,
};

verus! {

/// A correlate window that resolved absent; an offline event landing in it
/// later is audited as late evidence.
#[derive(Debug)]
struct ResolvedAbsent {
    scope: ScopeId,
    rule: RuleId,
    event_type: EventType,
    lo: EventTime,
    hi: EventTime,
}

/// One problem emission on `scope`'s partition, from the store `ps0` at
/// watermark `wm` to `ps1`: within the cooldown of the last emission of
/// `(rule, problem, target)` nothing changes; otherwise exactly one
/// `ProblemNode { kind: problem, target, time: wm, superseded: false }`
/// with the given severity and evidence is appended and the key is
/// recorded at `wm`. Other partitions and the scope's causes, ambiguities
/// and edges are kept.
pub open spec fn emission_step(
    ps0: Seq<(ScopeId, SubGraph)>,
    ps1: Seq<(ScopeId, SubGraph)>,
    scope: ScopeId,
    rule: Seq<char>,
    problem: Seq<char>,
    target: ScopeId,
    severity: Severity,
    evidence: Seq<NodeId>,
    wm: i64,
    cooldown: int,
) -> bool {
    &&& forall|s: ScopeId| s != scope ==> #[trigger] partition_of(ps1, s) == partition_of(ps0, s)
    &&& causes_in(ps1, scope) == causes_in(ps0, scope)
    &&& ambiguities_in(ps1, scope) == ambiguities_in(ps0, scope)
    &&& edges_in(ps1, scope) == edges_in(ps0, scope)
    &&& if within_cooldown(emitted_in(ps0, scope), rule, problem, target, wm, cooldown) {
        &&& problems_in(ps1, scope) == problems_in(ps0, scope)
        &&& emitted_in(ps1, scope) == emitted_in(ps0, scope)
    } else {
        let p = problems_in(ps1, scope).last();
        &&& problems_in(ps1, scope).len() == problems_in(ps0, scope).len() + 1
        &&& problems_in(ps1, scope).drop_last() == problems_in(ps0, scope)
        &&& p.kind@ == problem && p.target == target && p.time.ms == wm && p.severity == severity
        &&& !p.superseded && p.evidence@ == evidence
        &&& same_emit_key(emitted_in(ps1, scope).last(), rule, problem, target)
        &&& emitted_in(ps1, scope).last().wm == wm
        &&& emitted_in(ps1, scope).len() > 0
    }
}

/// One confidence mutation on `scope`'s partition (see [`infer_effect`]),
/// other partitions and the scope's problems, ambiguities and emission
/// records kept.
pub open spec fn infer_step(
    ps0: Seq<(ScopeId, SubGraph)>,
    ps1: Seq<(ScopeId, SubGraph)>,
    scope: ScopeId,
    kind: Seq<char>,
    target: ScopeId,
    key: (Seq<char>, Seq<char>, u64, i64),
    weight: Weight,
    time: EventTime,
    sources: Seq<EdgeEndpoint>,
    max_causes: int,
    fresh_id: NodeId,
) -> bool {
    &&& forall|s: ScopeId| s != scope ==> #[trigger] partition_of(ps1, s) == partition_of(ps0, s)
    &&& problems_in(ps1, scope) == problems_in(ps0, scope)
    &&& ambiguities_in(ps1, scope) == ambiguities_in(ps0, scope)
    &&& emitted_in(ps1, scope) == emitted_in(ps0, scope)
    &&& infer_effect(
        causes_in(ps0, scope),
        edges_in(ps0, scope),
        provenance_in(ps0, scope),
        causes_in(ps1, scope),
        edges_in(ps1, scope),
        provenance_in(ps1, scope),
        kind,
        target,
        key,
        weight,
        time,
        sources,
        max_causes,
        fresh_id,
    )
}

/// `c` describes the cause node `n`: same node, kind, target, time and
/// confidence.
pub open spec fn shows_mutation(n: crate::store::subgraph::CauseNode, c: CauseSnapshot) -> bool {
    n.id == c.node && n.kind@ == c.kind@ && n.target == c.target && n.time == c.time && n.confidence == c.confidence
}

/// The provenance key of an infer through `pk` on target `t` at `time`:
/// the rule, the cause, the target-expression hash mixed with the
/// target's scope hash, and the dedup window of `time`.
#[verifier::opaque]
pub open spec fn infer_key(pk: ProvKey, t: ScopeId, time: EventTime, dedup: DurationMs) -> (Seq<char>, Seq<char>, u64, i64) {
    (
        pk.rule@,
        pk.cause@,
        crate::store::subgraph::mix_target_spec(pk.target_expr_hash, crate::types::scope_hash(t)),
        crate::store::subgraph::window_of(time, dedup),
    )
}

/// Whether an infer of `(kind, t)` with provenance `key` changes
/// `scope`'s partition: the key is new and the cause exists or fits.
pub open spec fn infer_applies(
    ps: Seq<(ScopeId, SubGraph)>,
    scope: ScopeId,
    kind: Seq<char>,
    t: ScopeId,
    key: (Seq<char>, Seq<char>, u64, i64),
    max: int,
) -> bool {
    let s = causes_in(ps, scope);
    !((!has_cause(s, kind, t) && s.len() >= max) || provenance_in(ps, scope).contains(key))
}

/// What child scope `c` contributes to the roll-up of `(kind, target)`
/// into `parent`: its cause's confidence when `c` is another scope whose
/// type `parent`'s subsumes and it holds the cause, else 0.
pub open spec fn child_conf(ps: Seq<(ScopeId, SubGraph)>, c: ScopeId, parent: ScopeId, kind: Seq<char>, target: ScopeId) -> int {
    if c != parent && crate::types::subsumed(c.kind, parent.kind) && has_cause(causes_in(ps, c), kind, target)
        && partition_of(ps, c) is Some {
        causes_in(ps, c)[cause_at(causes_in(ps, c), kind, target)].confidence.val() as int
    } else {
        0
    }
}

/// The largest contribution over the scopes `ts` (0 for none).
pub open spec fn rollup_max(ps: Seq<(ScopeId, SubGraph)>, ts: Seq<ScopeId>, parent: ScopeId, kind: Seq<char>, target: ScopeId) -> int
    decreases ts.len(),
{
    if ts.len() == 0 {
        0
    } else {
        let m = rollup_max(ps, ts.drop_last(), parent, kind, target);
        let c = child_conf(ps, ts.last(), parent, kind, target);
        if m >= c {
            m
        } else {
            c
        }
    }
}

/// The node of `(kind, target)` in `scope`'s partition, if any.
pub open spec fn cause_node_in(ps: Seq<(ScopeId, SubGraph)>, scope: ScopeId, kind: Seq<char>, target: ScopeId) -> Option<NodeId> {
    if partition_of(ps, scope) is Some && has_cause(causes_in(ps, scope), kind, target) {
        Some(causes_in(ps, scope)[cause_at(causes_in(ps, scope), kind, target)].id)
    } else {
        None
    }
}

/// One roll-up into `parent`'s partition: beyond `max_causes` for a new
/// cause nothing changes; otherwise `(kind, target)` gets the confidence
/// `conf` (a new node takes `fresh` and `time`, an existing one keeps its
/// id and time) and, when the child holds the node `child`, one `RollsUp`
/// edge from it (none if already there). Other partitions and the
/// parent's problems, ambiguities, provenance and records are kept.
pub open spec fn rollup_step(
    ps0: Seq<(ScopeId, SubGraph)>,
    ps1: Seq<(ScopeId, SubGraph)>,
    parent: ScopeId,
    kind: Seq<char>,
    target: ScopeId,
    conf: int,
    time: EventTime,
    max_causes: int,
    fresh: NodeId,
    child: Option<NodeId>,
) -> bool {
    let s = causes_in(ps0, parent);
    let s1 = causes_in(ps1, parent);
    let e0 = edges_in(ps0, parent);
    let e1 = edges_in(ps1, parent);
    let exists = has_cause(s, kind, target);
    &&& forall|x: ScopeId| x != parent ==> #[trigger] partition_of(ps1, x) == partition_of(ps0, x)
    &&& problems_in(ps1, parent) == problems_in(ps0, parent)
    &&& ambiguities_in(ps1, parent) == ambiguities_in(ps0, parent)
    &&& provenance_in(ps1, parent) == provenance_in(ps0, parent)
    &&& emitted_in(ps1, parent) == emitted_in(ps0, parent)
    &&& if !exists && s.len() >= max_causes {
        s1 == s && e1 == e0
    } else {
        let i = if exists {
            cause_at(s, kind, target)
        } else {
            s.len() as int
        };
        let n = s1[i];
        &&& s1.len() == if exists {
            s.len()
        } else {
            s.len() + 1
        }
        &&& forall|j: int| 0 <= j < s.len() && j != i ==> #[trigger] s1[j] == s[j]
        &&& n.kind@ == kind && n.target == target && n.confidence.val() == conf
        &&& (exists ==> n.id == s[i].id && n.time == s[i].time)
        &&& (!exists ==> n.id == fresh && n.time == time)
        &&& match child {
            Some(c) => {
                let e = EvidenceEdge { kind: EvidenceEdgeKind::RollsUp, src: EdgeEndpoint::Node(c), dst: n.id };
                e1 == if e0.contains(e) {
                    e0
                } else {
                    e0.push(e)
                }
            },
            None => e1 == e0,
        }
    }
}

/// The confidence of `(kind, target)` in `scope`'s partition (0 without
/// one).
pub open spec fn conf_in(ps: Seq<(ScopeId, SubGraph)>, scope: ScopeId, kind: Seq<char>, target: ScopeId) -> int {
    if has_cause(causes_in(ps, scope), kind, target) {
        causes_in(ps, scope)[cause_at(causes_in(ps, scope), kind, target)].confidence.val() as int
    } else {
        0
    }
}

/// `a1` is `a0` with the first active-or-not ambiguity of the pair over
/// `target` marked resolved, all else kept.
pub open spec fn ambiguity_resolved(
    a0: Seq<AmbiguityNode>,
    a1: Seq<AmbiguityNode>,
    first: Seq<char>,
    second: Seq<char>,
    target: ScopeId,
) -> bool {
    &&& a1.len() == a0.len()
    &&& forall|i: int|
        0 <= i < a0.len() ==> {
            let a = a0[i];
            let b = #[trigger] a1[i];
            &&& b.id == a.id && b.causes == a.causes && b.target == a.target
            &&& b.state == if ambiguity_is(a, first, second, target) && i == first_ambiguity(a0, first, second, target) {
                AmbiguityState::Resolved
            } else {
                a.state
            }
        }
}

/// Weighing two exclusive causes `first < second` over `target` in
/// `scope` with confidences `c1`, `c2` at watermark `wm`: both probable and
/// less than 15 apart opens an active ambiguity and emits one
/// `AmbiguousDiagnosis` problem (medium, at `wm`) unless the pair already
/// has one; otherwise, once the larger is confirmed or they are 15 or more
/// apart, the pair's ambiguity is resolved; otherwise nothing changes.
/// Nothing else in the store changes.
pub open spec fn weigh_step(
    ps0: Seq<(ScopeId, SubGraph)>,
    ps1: Seq<(ScopeId, SubGraph)>,
    scope: ScopeId,
    first: Seq<char>,
    second: Seq<char>,
    target: ScopeId,
    c1: int,
    c2: int,
    wm: i64,
) -> bool {
    let close = (if c1 >= c2 {
        c1 - c2
    } else {
        c2 - c1
    }) < 15;
    let both = c1 >= crate::types::PROBABLE_THRESHOLD && c2 >= crate::types::PROBABLE_THRESHOLD;
    let a0 = ambiguities_in(ps0, scope);
    let a1 = ambiguities_in(ps1, scope);
    let p0 = problems_in(ps0, scope);
    let p1 = problems_in(ps1, scope);
    &&& forall|s: ScopeId| s != scope ==> #[trigger] partition_of(ps1, s) == partition_of(ps0, s)
    &&& causes_in(ps1, scope) == causes_in(ps0, scope)
    &&& edges_in(ps1, scope) == edges_in(ps0, scope)
    &&& provenance_in(ps1, scope) == provenance_in(ps0, scope)
    &&& emitted_in(ps1, scope) == emitted_in(ps0, scope)
    &&& if both && close {
        if has_ambiguity(a0, first, second, target) {
            a1 == a0 && p1 == p0
        } else {
            &&& a1.len() == a0.len() + 1 && a1.drop_last() == a0
            &&& ambiguity_is(a1.last(), first, second, target) && a1.last().state == AmbiguityState::Active
            &&& p1.len() == p0.len() + 1 && p1.drop_last() == p0
            &&& p1.last().kind@ == "AmbiguousDiagnosis"@ && p1.last().target == target && p1.last().time.ms == wm
            &&& p1.last().severity == Severity::Medium && !p1.last().superseded
        }
    } else if (if c1 >= c2 {
        c1
    } else {
        c2
    }) >= crate::types::CONFIRMED_THRESHOLD || !close {
        ambiguity_resolved(a0, a1, first, second, target) && p1 == p0
    } else {
        a1 == a0 && p1 == p0
    }
}

/// Whether weighing `first` against `second` (confidences `c1`, `c2`) in
/// `scope` opens a new ambiguity: both probable, less than 15 apart, and
/// no ambiguity on the pair and target yet.
pub open spec fn opens_ambiguity(
    ps0: Seq<(ScopeId, SubGraph)>,
    scope: ScopeId,
    first: Seq<char>,
    second: Seq<char>,
    target: ScopeId,
    c1: int,
    c2: int,
) -> bool {
    &&& c1 >= crate::types::PROBABLE_THRESHOLD && c2 >= crate::types::PROBABLE_THRESHOLD
    &&& (if c1 >= c2 {
        c1 - c2
    } else {
        c2 - c1
    }) < 15
    &&& !has_ambiguity(ambiguities_in(ps0, scope), first, second, target)
}

/// `i` is the `mark_ambiguous` action for the pair on `target`.
pub open spec fn marks_ambiguity(i: ActionIntent, first: Seq<char>, second: Seq<char>, target: ScopeId) -> bool {
    &&& i.kind == ActionKind::MarkAmbiguous
    &&& i.target == Some(target)
    &&& i.causes matches Some(p) && p.0@ == first && p.1@ == second
}

/// The intents handed to the sink by one weighing: one `mark_ambiguous`
/// exactly when it opens an ambiguity, else none.
pub open spec fn handed_step(
    h0: Seq<ActionIntent>,
    h1: Seq<ActionIntent>,
    ps0: Seq<(ScopeId, SubGraph)>,
    scope: ScopeId,
    first: Seq<char>,
    second: Seq<char>,
    target: ScopeId,
    c1: int,
    c2: int,
) -> bool {
    if opens_ambiguity(ps0, scope, first, second, target, c1, c2) {
        h1.len() == h0.len() + 1 && h1.drop_last() == h0 && marks_ambiguity(h1.last(), first, second, target)
    } else {
        h1 == h0
    }
}

/// The problems of the partitions of `ts`, in that order, each in
/// emission order and with its scope.
pub open spec fn problem_rows(ps: Seq<(ScopeId, SubGraph)>, ts: Seq<ScopeId>) -> Seq<(ScopeId, ProblemNode)>
    decreases ts.len(),
{
    if ts.len() == 0 {
        Seq::empty()
    } else {
        problem_rows(ps, ts.drop_last()) + problems_in(ps, ts.last()).map_values(|p: ProblemNode| (ts.last(), p))
    }
}

/// The number of causes over the partitions of `ts`.
pub open spec fn cause_total(ps: Seq<(ScopeId, SubGraph)>, ts: Seq<ScopeId>) -> int
    decreases ts.len(),
{
    if ts.len() == 0 {
        0
    } else {
        cause_total(ps, ts.drop_last()) + causes_in(ps, ts.last()).len()
    }
}

/// Whether cause view `v` shows cause `n` of partition `scope`.
pub open spec fn shows_cause(v: CauseView, scope: ScopeId, n: crate::store::subgraph::CauseNode) -> bool {
    v.scope == scope && v.kind@ == n.kind@ && v.target == n.target && v.time == n.time && v.confidence == n.confidence
}

/// Whether `v` shows some cause of the partitions of `ts`.
pub open spec fn from_partitions(v: CauseView, ps: Seq<(ScopeId, SubGraph)>, ts: Seq<ScopeId>) -> bool {
    exists|a: int, b: int|
        0 <= a < ts.len() && 0 <= b < causes_in(ps, ts[a]).len() && #[trigger] shows_cause(
            v,
            ts[a],
            causes_in(ps, ts[a])[b],
        )
}

/// Whether some view of `vs` shows cause `n` of partition `scope`.
pub open spec fn shown_in(vs: Seq<CauseView>, scope: ScopeId, n: crate::store::subgraph::CauseNode) -> bool {
    exists|i: int| 0 <= i < vs.len() && #[trigger] shows_cause(vs[i], scope, n)
}

proof fn lemma_shown_after_insert(
    pre: Seq<CauseView>,
    k: int,
    c: CauseView,
    scope: ScopeId,
    n: crate::store::subgraph::CauseNode,
)
    requires
        0 <= k <= pre.len(),
        shown_in(pre, scope, n),
    ensures
        shown_in(pre.insert(k, c), scope, n),
{
    let i = choose|i: int| 0 <= i < pre.len() && #[trigger] shows_cause(pre[i], scope, n);
    let j = if i < k {
        i
    } else {
        i + 1
    };
    assert(pre.insert(k, c)[j] == pre[i]);
}

/// Whether problem view `v` shows problem `p` of partition `scope`.
pub open spec fn shows_problem(v: ProblemView, scope: ScopeId, p: ProblemNode) -> bool {
    &&& v.scope == scope && v.kind@ == p.kind@ && v.target == p.target && v.time == p.time
    &&& v.severity == p.severity && v.sarif_id@ == p.sarif_id@ && v.superseded == p.superseded
}

/// Whether every suspended match waits for a deadline at or after `t`.
pub open spec fn none_due_before(pv: Seq<(ScopeId, crate::store::waitqueue::WaitQueue)>, t: int) -> bool {
    forall|i: int, j: int|
        0 <= i < pv.len() && 0 <= j < pv[i].1.matches().len() ==> (#[trigger] pv[i].1.matches()[j]).upper_bound.ms
            >= t
}

/// The names of `s` other than `kind`, in order.
pub open spec fn without(s: Seq<Seq<char>>, kind: Seq<char>) -> Seq<Seq<char>>
    decreases s.len(),
{
    if s.len() == 0 {
        Seq::empty()
    } else if s.last() == kind {
        without(s.drop_last(), kind)
    } else {
        without(s.drop_last(), kind).push(s.last())
    }
}

/// For each group holding `kind`, in order, its other members in order.
pub open spec fn pair_others(gs: Seq<Seq<Seq<char>>>, kind: Seq<char>) -> Seq<Seq<char>>
    decreases gs.len(),
{
    if gs.len() == 0 {
        Seq::empty()
    } else if gs.last().contains(kind) {
        pair_others(gs.drop_last(), kind) + without(gs.last(), kind)
    } else {
        pair_others(gs.drop_last(), kind)
    }
}

/// The sorted pair of `kind` and `other`.
pub open spec fn pair_first(kind: Seq<char>, other: Seq<char>) -> Seq<char> {
    if !crate::types::chars_lt(other, kind) {
        kind
    } else {
        other
    }
}

/// The other element of the sorted pair.
pub open spec fn pair_second(kind: Seq<char>, other: Seq<char>) -> Seq<char> {
    if !crate::types::chars_lt(other, kind) {
        other
    } else {
        kind
    }
}

/// `ps1` follows from `ps0` by weighing `kind` (confidence `c1`) against
/// each of `others` in turn (see [`weigh_step`]), each against its
/// confidence at that point.
pub open spec fn weigh_all(
    ps0: Seq<(ScopeId, SubGraph)>,
    ps1: Seq<(ScopeId, SubGraph)>,
    h0: Seq<ActionIntent>,
    h1: Seq<ActionIntent>,
    scope: ScopeId,
    kind: Seq<char>,
    others: Seq<Seq<char>>,
    target: ScopeId,
    c1: int,
    wm: i64,
) -> bool
    decreases others.len(),
{
    if others.len() == 0 {
        ps1 == ps0 && h1 == h0
    } else {
        exists|mid: Seq<(ScopeId, SubGraph)>, hmid: Seq<ActionIntent>|
            weigh_all(ps0, mid, h0, hmid, scope, kind, others.drop_last(), target, c1, wm) && #[trigger] weigh_step(
                mid,
                ps1,
                scope,
                pair_first(kind, others.last()),
                pair_second(kind, others.last()),
                target,
                c1,
                conf_in(mid, scope, others.last(), target),
                wm,
            ) && #[trigger] handed_step(
                hmid,
                h1,
                mid,
                scope,
                pair_first(kind, others.last()),
                pair_second(kind, others.last()),
                target,
                c1,
                conf_in(mid, scope, others.last(), target),
            )
    }
}

/// The store changed at most in `scope`'s ambiguities and problems.
pub open spec fn only_verdicts_changed(ps0: Seq<(ScopeId, SubGraph)>, ps1: Seq<(ScopeId, SubGraph)>, scope: ScopeId) -> bool {
    &&& forall|s: ScopeId| s != scope ==> #[trigger] partition_of(ps1, s) == partition_of(ps0, s)
    &&& causes_in(ps1, scope) == causes_in(ps0, scope)
    &&& edges_in(ps1, scope) == edges_in(ps0, scope)
    &&& provenance_in(ps1, scope) == provenance_in(ps0, scope)
    &&& emitted_in(ps1, scope) == emitted_in(ps0, scope)
}

/// How many topology results are `True`.
pub open spec fn count_true(rs: Seq<T3>) -> int
    decreases rs.len(),
{
    if rs.len() == 0 {
        0
    } else {
        count_true(rs.drop_last()) + if rs.last() is True {
            1int
        } else {
            0int
        }
    }
}

/// The position of the first `True` result.
pub open spec fn first_true(rs: Seq<T3>) -> Option<int>
    decreases rs.len(),
{
    if rs.len() == 0 {
        None
    } else {
        match first_true(rs.drop_last()) {
            Some(i) => Some(i),
            None => if rs.last() is True {
                Some(rs.len() - 1)
            } else {
                None
            },
        }
    }
}

/// Whether some topology result is `Unknown`.
pub open spec fn has_unknown(rs: Seq<T3>) -> bool
    decreases rs.len(),
{
    rs.len() > 0 && (has_unknown(rs.drop_last()) || rs.last() is Unknown)
}

/// A correlate's binding from the topology results `rs` of its candidates
/// `cands` (in order): with at least `min` true, the first true candidate
/// (`Unknown` if none is true); else `Unknown` when some result is
/// `Unknown`; else `Absent`.
pub open spec fn settled(b: Binding, rs: Seq<T3>, cands: Seq<Bound>, min: u8) -> bool {
    if count_true(rs) >= min {
        match first_true(rs) {
            Some(i) => b matches Binding::Bound(w) && crate::eval::binding::copy_of(cands[i], w),
            None => b is Unknown,
        }
    } else if has_unknown(rs) {
        b is Unknown
    } else {
        b is Absent
    }
}

/// Binding `b` of correlate `spec` from the topology results `rs` of its
/// candidates `cands`: settled and evaluated as above, and every result
/// `Unknown` when the correlate names no topology function.
pub open spec fn resolved_from(b: Binding, rs: Seq<T3>, cands: Seq<Bound>, spec: CorrelateSpec) -> bool {
    &&& settled(b, rs, cands, spec.min_match)
    &&& evaluated(rs, cands, spec.min_match)
    &&& crate::eval::topology::topo_func_of(spec.topo.func_idx.0) is None ==> forall|k: int|
        0 <= k < rs.len() ==> #[trigger] rs[k] is Unknown
}

/// The results `rs` cover the candidates in order, stopping early only
/// once `min` (and at least one) are true.
pub open spec fn evaluated(rs: Seq<T3>, cands: Seq<Bound>, min: u8) -> bool {
    &&& rs.len() <= cands.len()
    &&& rs.len() < cands.len() ==> count_true(rs) >= min && count_true(rs) >= 1
}

/// Whether the late event `e` falls into the absent window `ra`.
spec fn late_hit(ra: ResolvedAbsent, e: EventNode) -> bool {
    ra.scope == e.scope && ra.event_type@ == e.event_type@ && ra.lo.ms <= e.time.ms <= ra.hi.ms
}

/// Whether some window of `s` is hit by `e`.
spec fn some_late_hit(s: Seq<ResolvedAbsent>, e: EventNode) -> bool {
    exists|i: int| 0 <= i < s.len() && late_hit(#[trigger] s[i], e)
}

/// Live watermark state of one source.
#[derive(Debug, Clone, Copy)]
struct SourceWm {
    local_wm: EventTime,
    last_seen_wall: EventTime,
}

/// The parts of a metric path `head.tail.rest`: the first segment, the
/// second (if any), and whether more follow.
pub open spec fn dot_from(s: Seq<char>, k: int) -> int
    decreases s.len() - k,
{
    if k < 0 || k >= s.len() {
        s.len() as int
    } else if s[k] == '.' {
        k
    } else {
        dot_from(s, k + 1)
    }
}

proof fn lemma_dot_from(s: Seq<char>, k: int)
    requires
        0 <= k <= s.len(),
    ensures
        k <= dot_from(s, k) <= s.len(),
        dot_from(s, k) < s.len() ==> s[dot_from(s, k)] == '.',
        forall|j: int| k <= j < dot_from(s, k) ==> s[j] != '.',
    decreases s.len() - k,
{
    if k < s.len() && s[k] != '.' {
        lemma_dot_from(s, k + 1);
    }
}

/// The first segment of a dotted path.
pub open spec fn path_head(s: Seq<char>) -> Seq<char> {
    s.take(dot_from(s, 0))
}

/// The second segment of a dotted path, if there is a dot.
pub open spec fn path_tail(s: Seq<char>) -> Option<Seq<char>> {
    let d1 = dot_from(s, 0);
    if d1 >= s.len() {
        None
    } else {
        Some(s.subrange(d1 + 1, dot_from(s, d1 + 1)))
    }
}

/// Whether a dotted path has a third segment.
pub open spec fn path_has_more(s: Seq<char>) -> bool {
    let d1 = dot_from(s, 0);
    d1 < s.len() && dot_from(s, d1 + 1) < s.len()
}

/// Whether some routing path of `routes` is `t`.
pub open spec fn routes_to(routes: Seq<ScopeRoute>, t: Seq<char>) -> bool {
    exists|j: int| 0 <= j < routes.len() && (#[trigger] routes[j]).path@ == t
}

/// The scope a target path names through the bound value `b`: with no
/// second segment or `target`, the value's target; for an event, a routing
/// field or scope-typed field of its schema, looked up among the interned
/// scopes; otherwise (or with a third segment) none.
#[verifier::opaque]
pub open spec fn path_scope(path: Seq<char>, b: Bound, interned: Map<i64, ScopeId>) -> Option<ScopeId> {
    if path_has_more(path) {
        None
    } else if path_tail(path) is None || path_tail(path)->0 == "target"@ {
        crate::eval::binding::bound_target(b, interned)
    } else {
        let t = path_tail(path)->0;
        match b {
            Bound::Event(e) => match event_index(e.event_type@) {
                None => None,
                Some(k) => match metric_path_spec(EventOrBindingType::Event(&e.event_type), t) {
                    None => None,
                    Some((idx, ty)) => if routes_to(event_row(k).3, t) || ty is ScopeId {
                        match e.field_spec(idx.0) {
                            Some(key) => if interned.contains_key(key) {
                                Some(interned[key])
                            } else {
                                None
                            },
                            None => None,
                        }
                    } else {
                        None
                    },
                },
            },
            _ => None,
        }
    }
}

/// The scope a rule's target path names: its first segment picks a bound
/// binding, the rest goes through [`path_scope`].
pub open spec fn target_scope(rule: RuleInstance, path: Seq<char>, bs: Seq<Binding>, interned: Map<i64, ScopeId>) -> Option<ScopeId> {
    match bound_named(rule, path_head(path), bs) {
        Some(b) => path_scope(path, b, interned),
        None => None,
    }
}

/// The value bound to the binding called `name`, if it is bound.
pub open spec fn bound_named(rule: RuleInstance, name: Seq<char>, bs: Seq<Binding>) -> Option<Bound> {
    match binding_index_spec(rule, name) {
        Some(i) => if i < bs.len() {
            match bs[i] {
                Binding::Bound(b) => Some(b),
                _ => None,
            }
        } else {
            None
        },
        None => None,
    }
}

/// The evidence endpoints of the names `ev`: each name bound to a value
/// gives that value's endpoint, in order; other names give none.
pub open spec fn endpoints_of(rule: RuleInstance, ev: Seq<Symbol>, bs: Seq<Binding>) -> Seq<EdgeEndpoint>
    decreases ev.len(),
{
    if ev.len() == 0 {
        Seq::empty()
    } else {
        let rest = endpoints_of(rule, ev.drop_last(), bs);
        match bound_named(rule, ev.last()@, bs) {
            Some(b) => rest.push(crate::eval::binding::bound_endpoint(b)),
            None => rest,
        }
    }
}

/// The evidence nodes of the names `ev`: each name bound to a cause or
/// problem gives its node, in order.
pub open spec fn evidence_nodes_of(rule: RuleInstance, ev: Seq<Symbol>, bs: Seq<Binding>) -> Seq<NodeId>
    decreases ev.len(),
{
    if ev.len() == 0 {
        Seq::empty()
    } else {
        let rest = evidence_nodes_of(rule, ev.drop_last(), bs);
        match bound_named(rule, ev.last()@, bs) {
            Some(Bound::Cause(c)) => rest.push(c.node),
            Some(Bound::Problem(p)) => rest.push(p.node),
            _ => rest,
        }
    }
}

fn string_of(cs: &Vec<char>, lo: usize, hi: usize) -> (s: String)
    requires
        lo <= hi <= cs@.len(),
    ensures
        s@ == cs@.subrange(lo as int, hi as int),
{
    let mut s = String::new();
    let mut i = lo;
    while i < hi
        invariant
            lo <= i <= hi <= cs@.len(),
            s@ == cs@.subrange(lo as int, i as int),
        decreases hi - i,
    {
        push_char(&mut s, cs[i]);
        proof {
            assert(s@ =~= cs@.subrange(lo as int, i + 1));
        }
        i = i + 1;
    }
    s
}

fn next_dot(cs: &Vec<char>, k: usize) -> (d: usize)
    requires
        k <= cs@.len(),
    ensures
        d == dot_from(cs@, k as int),
{
    proof {
        lemma_dot_from(cs@, k as int);
    }
    let mut i = k;
    while i < cs.len() && cs[i] != '.'
        invariant
            k <= i <= cs@.len(),
            dot_from(cs@, k as int) == dot_from(cs@, i as int),
        decreases cs@.len() - i,
    {
        i = i + 1;
    }
    i
}

/// Splits a dotted path into its head, its tail segment (if any), and
/// whether further segments follow.
pub fn path_parts(path: &str) -> (r: (String, Option<String>, bool))
    ensures
        r.0@ == path_head(path@),
        match path_tail(path@) {
            Some(t) => r.1 matches Some(x) && x@ == t,
            None => r.1 is None,
        },
        r.2 == path_has_more(path@),
{
    let cs = crate::types::chars_of(path);
    let d1 = next_dot(&cs, 0);
    proof {
        lemma_dot_from(cs@, 0);
    }
    let head = string_of(&cs, 0, d1);
    proof {
        assert(cs@.subrange(0, d1 as int) =~= cs@.take(d1 as int));
    }
    if d1 >= cs.len() {
        return (head, None, false);
    }
    proof {
        lemma_dot_from(cs@, d1 + 1);
    }
    let d2 = next_dot(&cs, d1 + 1);
    let tail = string_of(&cs, d1 + 1, d2);
    (head, Some(tail), d2 < cs.len())
}

/// The binding index of `name` in `rule`: the anchor is binding 0, the
/// correlates follow in declaration order.
pub open spec fn binding_index_spec(rule: RuleInstance, name: Seq<char>) -> Option<int> {
    if rule.anchor.binding@ == name {
        Some(0)
    } else if exists|i: int| 0 <= i < rule.correlates@.len() && (#[trigger] rule.correlates@[i]).binding@ == name {
        Some(
            (choose|i: int|
                0 <= i < rule.correlates@.len() && (#[trigger] rule.correlates@[i]).binding@ == name && forall|j: int|
                    0 <= j < i ==> (#[trigger] rule.correlates@[j]).binding@ != name) + 1,
        )
    } else {
        None
    }
}

proof fn lemma_first_correlate(rule: RuleInstance, name: Seq<char>, i0: int)
    requires
        0 <= i0 < rule.correlates@.len(),
        rule.correlates@[i0].binding@ == name,
    ensures
        exists|i: int|
            0 <= i < rule.correlates@.len() && (#[trigger] rule.correlates@[i]).binding@ == name && forall|j: int|
                0 <= j < i ==> (#[trigger] rule.correlates@[j]).binding@ != name,
    decreases i0,
{
    if exists|j: int| 0 <= j < i0 && (#[trigger] rule.correlates@[j]).binding@ == name {
        let j = choose|j: int| 0 <= j < i0 && (#[trigger] rule.correlates@[j]).binding@ == name;
        lemma_first_correlate(rule, name, j);
    } else {
        assert(forall|j: int| 0 <= j < i0 ==> (#[trigger] rule.correlates@[j]).binding@ != name);
    }
}

/// A resolved binding index is at most the number of correlates.
proof fn lemma_binding_index_bound(rule: RuleInstance, name: Seq<char>)
    ensures
        binding_index_spec(rule, name) matches Some(i) ==> 0 <= i <= rule.correlates@.len(),
{
    if rule.anchor.binding@ != name && exists|i: int|
        0 <= i < rule.correlates@.len() && (#[trigger] rule.correlates@[i]).binding@ == name {
        let i0 = choose|i: int| 0 <= i < rule.correlates@.len() && (#[trigger] rule.correlates@[i]).binding@ == name;
        lemma_first_correlate(rule, name, i0);
    }
}

/// The value bound to the binding called `name` (see [`bound_named`]).
fn bound_of_name<'b>(rule: &RuleInstance, name: &str, bindings: &'b Vec<Binding>) -> (r: Option<&'b Bound>)
    ensures
        match bound_named(*rule, name@, bindings@) {
            Some(b) => r matches Some(x) && *x == b,
            None => r is None,
        },
{
    let nc = rule.correlates.len();
    proof {
        lemma_binding_index_bound(*rule, name@);
        assert(nc == rule.correlates@.len());
    }
    match binding_index_of(rule, name) {
        Some(idx) => if idx < bindings.len() {
            bindings[idx].bound()
        } else {
            None
        },
        None => None,
    }
}

/// Binding-name to binding-index resolution (see [`binding_index_spec`]).
pub fn binding_index_of(rule: &RuleInstance, name: &str) -> (r: Option<usize>)
    ensures
        match binding_index_spec(*rule, name@) {
            Some(i) => r == Some(i as usize),
            None => r is None,
        },
{
    if crate::types::text_eq(rule.anchor.binding.as_str(), name) {
        return Some(0);
    }
    let mut i: usize = 0;
    while i < rule.correlates.len()
        invariant
            0 <= i <= rule.correlates@.len(),
            rule.anchor.binding@ != name@,
            forall|j: int| 0 <= j < i ==> (#[trigger] rule.correlates@[j]).binding@ != name@,
        decreases rule.correlates@.len() - i,
    {
        if crate::types::text_eq(rule.correlates[i].binding.as_str(), name) {
            proof {
                let c = choose|k: int|
                    0 <= k < rule.correlates@.len() && (#[trigger] rule.correlates@[k]).binding@ == name@
                        && forall|j: int| 0 <= j < k ==> (#[trigger] rule.correlates@[j]).binding@ != name@;
                assert(rule.correlates@[i as int].binding@ == name@);
                if c < i {
                } else if c > i {
                    assert(rule.correlates@[i as int].binding@ != name@);
                }
            }
            return Some(i + 1);
        }
        i = i + 1;
    }
    None
}

/// Whether `v` is strictly increasing in scope order.
pub open spec fn scopes_sorted(v: Seq<ScopeId>) -> bool {
    forall|i: int, j: int| 0 <= i < j < v.len() ==> scope_lt(#[trigger] v[i], #[trigger] v[j])
}

/// Adds `s` to a strictly sorted scope list unless it is already there.
fn insert_scope(v: &mut Vec<ScopeId>, s: ScopeId)
    requires
        scopes_sorted(old(v)@),
    ensures
        scopes_sorted(final(v)@),
        forall|x: ScopeId| final(v)@.contains(x) <==> (old(v)@.contains(x) || x == s),
{
    let n = v.len();
    let mut i: usize = 0;
    while i < n && v[i].lt(&s)
        invariant
            0 <= i <= n,
            n == v@.len(),
            v@ == old(v)@,
            scopes_sorted(v@),
            forall|k: int| 0 <= k < i ==> scope_lt(#[trigger] v@[k], s),
        decreases n - i,
    {
        i = i + 1;
    }
    if i < n && v[i].same(&s) {
        proof {
            assert(v@[i as int] == s);
        }
        return;
    }
    let ghost old_v = v@;
    proof {
        if i < n {
            crate::types::lemma_scope_order(v@[i as int], s, s);
            assert(scope_lt(s, v@[i as int]));
            assert forall|k: int| i <= k < n implies scope_lt(s, #[trigger] old_v[k]) by {
                if k > i {
                    crate::types::lemma_scope_order(s, old_v[i as int], old_v[k]);
                }
            }
        }
    }
    v.insert(i, s);
    proof {
        assert forall|a: int, b: int| 0 <= a < b < v@.len() implies scope_lt(#[trigger] v@[a], #[trigger] v@[b]) by {
            if b < i {
                assert(v@[a] == old_v[a] && v@[b] == old_v[b]);
            } else if b == i {
                assert(v@[a] == old_v[a]);
            } else if a < i {
                assert(v@[a] == old_v[a] && v@[b] == old_v[b - 1]);
                crate::types::lemma_scope_order(old_v[a], s, old_v[b - 1]);
            } else if a == i {
                assert(v@[b] == old_v[b - 1]);
            } else {
                assert(v@[a] == old_v[a - 1] && v@[b] == old_v[b - 1]);
            }
        }
        assert forall|x: ScopeId|
            #![trigger v@.contains(x)]
            #![trigger old_v.contains(x)]
            v@.contains(x) <==> (old_v.contains(x) || x == s) by {
            if v@.contains(x) {
                let w = choose|w: int| 0 <= w < v@.len() && v@[w] == x;
                if w < i {
                    assert(old_v[w] == x);
                } else if w > i {
                    assert(old_v[w - 1] == x);
                }
            }
            if old_v.contains(x) {
                let w = choose|w: int| 0 <= w < old_v.len() && old_v[w] == x;
                if w < i {
                    assert(v@[w] == x);
                } else {
                    assert(v@[w + 1] == x);
                }
            }
            if x == s {
                assert(v@[i as int] == x);
            }
        }
    }
}

/// Candidate order: earliest time first, node or event id breaking ties.
pub open spec fn bound_key_lt(a: Bound, b: Bound) -> bool {
    let (ta, ia) = bound_key(a);
    let (tb, ib) = bound_key(b);
    ta < tb || (ta == tb && ia < ib)
}

/// The `(time, id)` ordering key of a candidate.
pub open spec fn bound_key(b: Bound) -> (i64, u64) {
    match b {
        Bound::Event(e) => (e.time.ms, e.id.id),
        Bound::Cause(c) => (c.time.ms, c.node.id),
        Bound::Problem(p) => (p.time.ms, p.node.id),
    }
}

fn bound_sort_key(b: &Bound) -> (k: (i64, u64))
    ensures
        k == bound_key(*b),
{
    match b {
        Bound::Event(e) => (e.time.ms, e.id.id),
        Bound::Cause(c) => (c.time.ms, c.node.id),
        Bound::Problem(p) => (p.time.ms, p.node.id),
    }
}

/// Inserts `b` after every candidate whose key is not greater (a stable
/// insertion into key order).
fn insert_candidate(v: &mut Vec<Bound>, b: Bound)
    requires
        forall|i: int, j: int| 0 <= i < j < old(v)@.len() ==> !bound_key_lt(#[trigger] old(v)@[j], #[trigger] old(v)@[i]),
    ensures
        final(v)@.len() == old(v)@.len() + 1,
        forall|i: int, j: int| 0 <= i < j < final(v)@.len() ==> !bound_key_lt(#[trigger] final(v)@[j], #[trigger] final(v)@[i]),
{
    let key = bound_sort_key(&b);
    let n = v.len();
    let mut i: usize = n;
    while i > 0 && key_before(key, &v[i - 1])
        invariant
            0 <= i <= n,
            n == v@.len(),
            v@ == old(v)@,
            key == bound_key(b),
            forall|k: int| i <= k < n ==> bound_key_lt(b, #[trigger] v@[k]),
        decreases i,
    {
        i = i - 1;
    }
    let ghost old_v = v@;
    v.insert(i, b);
    proof {
        assert forall|a: int, c: int| 0 <= a < c < v@.len() implies !bound_key_lt(#[trigger] v@[c], #[trigger] v@[a]) by {
            if c < i {
                assert(v@[a] == old_v[a] && v@[c] == old_v[c]);
            } else if c == i {
                assert(v@[a] == old_v[a]);
                assert(!bound_key_lt(b, old_v[i - 1]));
                if a < i - 1 {
                    assert(!bound_key_lt(old_v[i - 1], old_v[a]));
                }
            } else if a < i {
                assert(v@[a] == old_v[a] && v@[c] == old_v[c - 1]);
            } else if a == i {
                assert(v@[c] == old_v[c - 1]);
                assert(bound_key_lt(b, old_v[c - 1]));
            } else {
                assert(v@[a] == old_v[a - 1] && v@[c] == old_v[c - 1]);
            }
        }
    }
}

fn key_before(key: (i64, u64), other: &Bound) -> (r: bool)
    ensures
        r == (key.0 < bound_key(*other).0 || (key.0 == bound_key(*other).0 && key.1 < bound_key(*other).1)),
{
    let k = bound_sort_key(other);
    key.0 < k.0 || (key.0 == k.0 && key.1 < k.1)
}

/// The ruleset's exclusivity groups followed by every catalog default pair
/// not already declared as a two-kind group (in either order).
/// The cause names of an exclusivity group.
pub open spec fn group_names(g: ExclusivityGroup) -> Seq<Seq<char>> {
    g.causes@.map_values(|c: CauseKind| c@)
}

/// The cause names of each group.
pub open spec fn groups_names(gs: Seq<ExclusivityGroup>) -> Seq<Seq<Seq<char>>> {
    gs.map_values(|g: ExclusivityGroup| group_names(g))
}

/// Whether the group is exactly the pair `{l, r}`.
pub open spec fn is_pair_group(g: Seq<Seq<char>>, l: Seq<char>, r: Seq<char>) -> bool {
    g.len() == 2 && ((g[0] == l && g[1] == r) || (g[0] == r && g[1] == l))
}

/// The groups `base` followed by each catalog default pair of the first
/// `k` rows that no earlier group already states.
pub open spec fn merged_groups(base: Seq<Seq<Seq<char>>>, k: int) -> Seq<Seq<Seq<char>>>
    decreases k,
{
    if k <= 0 {
        base
    } else {
        let prev = merged_groups(base, k - 1);
        let row = crate::catalog::tables::exclusivity_table()[k - 1];
        if exists|i: int| 0 <= i < prev.len() && is_pair_group(#[trigger] prev[i], row.0@, row.1@) {
            prev
        } else {
            prev.push(seq![row.0@, row.1@])
        }
    }
}

/// The ruleset's exclusivity groups, then each catalog default pair that
/// no group already states as a pair.
pub fn effective_exclusivity_groups(image: &ProgramImage) -> (r: Vec<ExclusivityGroup>)
    ensures
        r@.len() >= image.exclusivity@.len(),
        groups_names(r@) == merged_groups(
            groups_names(image.exclusivity@),
            crate::catalog::tables::exclusivity_table().len() as int,
        ),
{
    let mut groups: Vec<ExclusivityGroup> = Vec::new();
    let mut i: usize = 0;
    while i < image.exclusivity.len()
        invariant
            0 <= i <= image.exclusivity@.len(),
            groups@.len() == i,
            groups_names(groups@) == groups_names(image.exclusivity@.take(i as int)),
        decreases image.exclusivity@.len() - i,
    {
        let src = &image.exclusivity[i].causes;
        let mut causes: Vec<CauseKind> = Vec::new();
        let mut m: usize = 0;
        while m < src.len()
            invariant
                0 <= m <= src@.len(),
                causes@.len() == m,
                forall|j: int| 0 <= j < m ==> (#[trigger] causes@[j])@ == src@[j]@,
            decreases src@.len() - m,
        {
            causes.push(src[m].duplicate());
            m = m + 1;
        }
        let ghost before = groups@;
        groups.push(ExclusivityGroup { causes });
        i = i + 1;
        proof {
            assert(group_names(groups@.last()) =~= group_names(image.exclusivity@[i - 1]));
            assert forall|j: int| 0 <= j < i implies groups_names(groups@)[j] == groups_names(
                image.exclusivity@.take(i as int),
            )[j] by {
                if j < i - 1 {
                    assert(groups@[j] == before[j]);
                    assert(groups_names(before)[j] == groups_names(image.exclusivity@.take(i - 1))[j]);
                }
            }
            assert(groups_names(groups@) =~= groups_names(image.exclusivity@.take(i as int)));
        }
    }
    proof {
        assert(image.exclusivity@.take(image.exclusivity@.len() as int) =~= image.exclusivity@);
    }
    let ghost base = groups_names(image.exclusivity@);
    let defaults = exclusivity_defaults();
    let mut k: usize = 0;
    while k < defaults.len()
        invariant
            0 <= k <= defaults@.len(),
            defaults@.len() == crate::catalog::tables::exclusivity_table().len(),
            forall|q: int|
                0 <= q < defaults@.len() ==> (#[trigger] defaults@[q]).left@
                    == crate::catalog::tables::exclusivity_table()[q].0@ && defaults@[q].right@
                    == crate::catalog::tables::exclusivity_table()[q].1@,
            groups@.len() >= image.exclusivity@.len(),
            groups_names(groups@) == merged_groups(base, k as int),
        decreases defaults@.len() - k,
    {
        let left = &defaults[k].left;
        let right = &defaults[k].right;
        let mut duplicate = false;
        let mut g: usize = 0;
        while g < groups.len()
            invariant
                0 <= g <= groups@.len(),
                duplicate == exists|i: int|
                    0 <= i < g && is_pair_group(#[trigger] groups_names(groups@)[i], left@, right@),
            decreases groups@.len() - g,
        {
            let cs = &groups[g].causes;
            proof {
                assert(groups_names(groups@)[g as int] == group_names(groups@[g as int]));
            }
            if cs.len() == 2 && ((cs[0].same(left) && cs[1].same(right)) || (cs[0].same(right) && cs[1].same(left))) {
                duplicate = true;
                proof {
                    assert(is_pair_group(groups_names(groups@)[g as int], left@, right@));
                }
            }
            g = g + 1;
        }
        let ghost before = groups@;
        if !duplicate {
            let mut causes: Vec<CauseKind> = Vec::new();
            causes.push(left.duplicate());
            causes.push(right.duplicate());
            groups.push(ExclusivityGroup { causes });
            proof {
                assert(group_names(groups@.last()) =~= seq![left@, right@]);
                assert(groups_names(groups@) =~= groups_names(before).push(seq![left@, right@]));
            }
        }
        k = k + 1;
    }
    groups
}

/// Cause order of a snapshot: by partition scope, then kind, then target.
pub open spec fn cause_view_lt(a: CauseView, b: CauseView) -> bool {
    ||| scope_lt(a.scope, b.scope)
    ||| (a.scope == b.scope && chars_lt(a.kind@, b.kind@))
    ||| (a.scope == b.scope && a.kind@ == b.kind@ && scope_lt(a.target, b.target))
}

/// Whether `v` is in nondecreasing `cause_view_lt` order.
pub open spec fn causes_in_order(v: Seq<CauseView>) -> bool {
    forall|i: int, j: int| 0 <= i < j < v.len() ==> !cause_view_lt(#[trigger] v[j], #[trigger] v[i])
}

fn cause_view_before(a: &CauseView, b: &CauseView) -> (r: bool)
    ensures
        r == cause_view_lt(*a, *b),
{
    a.scope.lt(&b.scope) || (a.scope.same(&b.scope) && a.kind.precedes(&b.kind)) || (a.scope.same(&b.scope)
        && a.kind.same(&b.kind) && a.target.lt(&b.target))
}

proof fn lemma_cause_view_order(a: CauseView, b: CauseView, c: CauseView)
    ensures
        !cause_view_lt(a, b) && !cause_view_lt(b, c) ==> !cause_view_lt(a, c),
{
    crate::types::lemma_scope_order(a.scope, b.scope, c.scope);
    crate::types::lemma_scope_order(c.scope, b.scope, a.scope);
    crate::types::lemma_scope_order(a.target, b.target, c.target);
    crate::types::lemma_scope_order(c.target, b.target, a.target);
    crate::types::lemma_scope_order(b.scope, a.scope, c.scope);
    crate::types::lemma_scope_order(b.target, a.target, c.target);
    crate::types::lemma_chars_order(a.kind@, b.kind@, c.kind@);
    crate::types::lemma_chars_order(c.kind@, b.kind@, a.kind@);
    crate::types::lemma_chars_order(b.kind@, a.kind@, c.kind@);
    crate::types::lemma_chars_order(b.kind@, c.kind@, a.kind@);
    crate::types::lemma_chars_order(a.kind@, c.kind@, b.kind@);
    crate::types::lemma_chars_order(c.kind@, a.kind@, b.kind@);
}

/// Inserts `c` after every view not greater than it (stable).
fn insert_cause_view(v: &mut Vec<CauseView>, c: CauseView) -> (k: usize)
    requires
        causes_in_order(old(v)@),
    ensures
        causes_in_order(final(v)@),
        final(v)@.len() == old(v)@.len() + 1,
        k <= old(v)@.len(),
        final(v)@ == old(v)@.insert(k as int, c),
{
    let n = v.len();
    let mut i: usize = n;
    while i > 0 && cause_view_before(&c, &v[i - 1])
        invariant
            0 <= i <= n,
            n == v@.len(),
            v@ == old(v)@,
            forall|k: int| i <= k < n ==> cause_view_lt(c, #[trigger] v@[k]),
        decreases i,
    {
        i = i - 1;
    }
    let ghost old_v = v@;
    v.insert(i, c);
    proof {
        assert forall|a: int, b: int| 0 <= a < b < v@.len() implies !cause_view_lt(#[trigger] v@[b], #[trigger] v@[a]) by {
            if b < i {
                assert(v@[a] == old_v[a] && v@[b] == old_v[b]);
            } else if b == i {
                assert(v@[a] == old_v[a]);
                assert(!cause_view_lt(c, old_v[i - 1]));
                if a < i - 1 {
                    assert(!cause_view_lt(old_v[i - 1], old_v[a]));
                    lemma_cause_view_order(c, old_v[i - 1], old_v[a]);
                }
            } else if a < i {
                assert(v@[a] == old_v[a] && v@[b] == old_v[b - 1]);
            } else if a == i {
                assert(v@[b] == old_v[b - 1]);
                assert(cause_view_lt(c, old_v[b - 1]));
                lemma_cause_view_antisym(c, old_v[b - 1]);
            } else {
                assert(v@[a] == old_v[a - 1] && v@[b] == old_v[b - 1]);
            }
        }
    }
    i
}

proof fn lemma_cause_view_antisym(a: CauseView, b: CauseView)
    ensures
        cause_view_lt(a, b) ==> !cause_view_lt(b, a),
{
    crate::types::lemma_scope_order(a.scope, b.scope, a.scope);
    crate::types::lemma_scope_order(a.target, b.target, a.target);
    crate::types::lemma_chars_order(a.kind@, b.kind@, a.kind@);
}

/// Declaration rank of an action kind.
pub open spec fn action_rank(k: ActionKind) -> int {
    match k {
        ActionKind::RequestObservation => 0,
        ActionKind::RunCheck => 1,
        ActionKind::SuppressSymptom => 2,
        ActionKind::MarkAmbiguous => 3,
        ActionKind::RequestTopology => 4,
    }
}

fn action_rank_exec(k: ActionKind) -> (r: u8)
    ensures
        r == action_rank(k),
{
    match k {
        ActionKind::RequestObservation => 0,
        ActionKind::RunCheck => 1,
        ActionKind::SuppressSymptom => 2,
        ActionKind::MarkAmbiguous => 3,
        ActionKind::RequestTopology => 4,
    }
}

/// Target order: no target first, then by scope order.
pub open spec fn target_lt(a: Option<ScopeId>, b: Option<ScopeId>) -> bool {
    match (a, b) {
        (None, Some(_)) => true,
        (Some(x), Some(y)) => scope_lt(x, y),
        _ => false,
    }
}

/// Audit order: by watermark, then rule id, then action kind, then target.
pub open spec fn audit_lt(a: AuditEntry, b: AuditEntry) -> bool {
    ||| a.wm.ms < b.wm.ms
    ||| (a.wm.ms == b.wm.ms && chars_lt(a.intent.rule@, b.intent.rule@))
    ||| (a.wm.ms == b.wm.ms && a.intent.rule@ == b.intent.rule@ && action_rank(a.intent.kind) < action_rank(b.intent.kind))
    ||| (a.wm.ms == b.wm.ms && a.intent.rule@ == b.intent.rule@ && a.intent.kind == b.intent.kind && target_lt(
        a.intent.target,
        b.intent.target,
    ))
}

/// Whether `v` is in nondecreasing `audit_lt` order.
pub open spec fn audit_in_order(v: Seq<AuditEntry>) -> bool {
    forall|i: int, j: int| 0 <= i < j < v.len() ==> !audit_lt(#[trigger] v[j], #[trigger] v[i])
}

fn audit_before(a: &AuditEntry, b: &AuditEntry) -> (r: bool)
    ensures
        r == audit_lt(*a, *b),
{
    let ra = action_rank_exec(a.intent.kind);
    let rb = action_rank_exec(b.intent.kind);
    let tl = match (a.intent.target, b.intent.target) {
        (None, Some(_)) => true,
        (Some(x), Some(y)) => x.lt(&y),
        _ => false,
    };
    a.wm.ms < b.wm.ms || (a.wm.ms == b.wm.ms && a.intent.rule.precedes(&b.intent.rule)) || (a.wm.ms == b.wm.ms
        && a.intent.rule.same(&b.intent.rule) && ra < rb) || (a.wm.ms == b.wm.ms && a.intent.rule.same(&b.intent.rule)
        && ra == rb && tl)
}

proof fn lemma_audit_order(a: AuditEntry, b: AuditEntry, c: AuditEntry)
    ensures
        !audit_lt(a, b) && !audit_lt(b, c) ==> !audit_lt(a, c),
        audit_lt(a, b) ==> !audit_lt(b, a),
{
    crate::types::lemma_chars_order(a.intent.rule@, b.intent.rule@, c.intent.rule@);
    crate::types::lemma_chars_order(c.intent.rule@, b.intent.rule@, a.intent.rule@);
    crate::types::lemma_chars_order(b.intent.rule@, a.intent.rule@, c.intent.rule@);
    crate::types::lemma_chars_order(b.intent.rule@, c.intent.rule@, a.intent.rule@);
    crate::types::lemma_chars_order(a.intent.rule@, c.intent.rule@, b.intent.rule@);
    crate::types::lemma_chars_order(c.intent.rule@, a.intent.rule@, b.intent.rule@);
    match (a.intent.target, b.intent.target, c.intent.target) {
        (Some(x), Some(y), Some(z)) => {
            crate::types::lemma_scope_order(x, y, z);
            crate::types::lemma_scope_order(z, y, x);
            crate::types::lemma_scope_order(y, x, z);
            crate::types::lemma_scope_order(y, z, x);
            crate::types::lemma_scope_order(x, z, y);
            crate::types::lemma_scope_order(z, x, y);
        },
        (Some(x), Some(y), None) => {
            crate::types::lemma_scope_order(x, y, x);
        },
        (None, Some(y), Some(z)) => {
            crate::types::lemma_scope_order(y, z, y);
        },
        (Some(x), None, Some(z)) => {
            crate::types::lemma_scope_order(x, z, x);
        },
        _ => {},
    }
    if a.intent.kind != b.intent.kind {
        assert(action_rank(a.intent.kind) != action_rank(b.intent.kind));
    }
    if b.intent.kind != c.intent.kind {
        assert(action_rank(b.intent.kind) != action_rank(c.intent.kind));
    }
    if a.intent.kind != c.intent.kind {
        assert(action_rank(a.intent.kind) != action_rank(c.intent.kind));
    }
}

fn insert_audit(v: &mut Vec<AuditEntry>, e: AuditEntry)
    requires
        audit_in_order(old(v)@),
    ensures
        audit_in_order(final(v)@),
        final(v)@.len() == old(v)@.len() + 1,
{
    let n = v.len();
    let mut i: usize = n;
    while i > 0 && audit_before(&e, &v[i - 1])
        invariant
            0 <= i <= n,
            n == v@.len(),
            v@ == old(v)@,
            forall|k: int| i <= k < n ==> audit_lt(e, #[trigger] v@[k]),
        decreases i,
    {
        i = i - 1;
    }
    let ghost old_v = v@;
    v.insert(i, e);
    proof {
        assert forall|a: int, b: int| 0 <= a < b < v@.len() implies !audit_lt(#[trigger] v@[b], #[trigger] v@[a]) by {
            if b < i {
                assert(v@[a] == old_v[a] && v@[b] == old_v[b]);
            } else if b == i {
                assert(v@[a] == old_v[a]);
                assert(!audit_lt(e, old_v[i - 1]));
                if a < i - 1 {
                    assert(!audit_lt(old_v[i - 1], old_v[a]));
                    lemma_audit_order(e, old_v[i - 1], old_v[a]);
                }
            } else if a < i {
                assert(v@[a] == old_v[a] && v@[b] == old_v[b - 1]);
            } else if a == i {
                assert(v@[b] == old_v[b - 1]);
                assert(audit_lt(e, old_v[b - 1]));
                lemma_audit_order(e, old_v[b - 1], e);
            } else {
                assert(v@[a] == old_v[a - 1] && v@[b] == old_v[b - 1]);
            }
        }
    }
}

/// The execution engine over a [`GraphStore`], a loaded image, a topology
/// oracle and an action sink.
pub struct Engine<'img, T, S> {
    store: GraphStore,
    image: &'img ProgramImage,
    topo: T,
    sink: S,
    mode: RunMode,
    interner: ScopeInterner,
    diagnostics: Vec<EngineDiagnostic>,
    touched: Vec<ScopeId>,
    next_node_id: u64,
    last_event_time: Option<EventTime>,
    image_max_forward: DurationMs,
    problem_cooldown: DurationMs,
    strict_privacy: bool,
    finished: bool,
    suspended: u64,
    resumed: u64,
    late_side_output: Vec<EventNode>,
    resolved_absent: Vec<ResolvedAbsent>,
    sources: Vec<(ScopeId, SourceWm)>,
    wall_clock: EventTime,
    handed: Ghost<Seq<ActionIntent>>,
}

/// The largest `max_forward` annotation over `rules` (zero for none).
pub open spec fn max_forward_of(rules: Seq<RuleInstance>) -> int
    decreases rules.len(),
{
    if rules.len() == 0 {
        0
    } else {
        let rest = max_forward_of(rules.drop_last());
        let f = rules.last().annotations.max_forward.ms_of();
        if f > rest {
            f
        } else {
            rest
        }
    }
}

impl<'img, T: TopologyProvider, S: ActionSink> Engine<'img, T, S> {
    /// The store is well formed and the touched partitions are kept in
    /// scope order.
    pub closed spec fn wf(&self) -> bool {
        &&& self.store.wf()
        &&& scopes_sorted(self.touched@)
    }

    /// The graph store.
    pub closed spec fn store_view(&self) -> GraphStore {
        self.store
    }

    /// The diagnostics recorded so far, in order.
    pub closed spec fn diagnostics_view(&self) -> Seq<EngineDiagnostic> {
        self.diagnostics@
    }

    /// Matches suspended so far.
    pub closed spec fn suspended_view(&self) -> u64 {
        self.suspended
    }

    /// Suspended matches resumed so far.
    pub closed spec fn resumed_view(&self) -> u64 {
        self.resumed
    }

    /// The problem-emission cooldown.
    pub closed spec fn cooldown_view(&self) -> DurationMs {
        self.problem_cooldown
    }

    /// Whether SARIF evidence is redacted.
    pub closed spec fn strict_view(&self) -> bool {
        self.strict_privacy
    }

    /// Whether the end-of-stream flush ran.
    pub closed spec fn finished_view(&self) -> bool {
        self.finished
    }

    /// The live wall clock.
    pub closed spec fn wall_clock_view(&self) -> EventTime {
        self.wall_clock
    }

    /// The topology provider.
    pub closed spec fn topo_view(&self) -> T {
        self.topo
    }

    /// The action sink.
    pub closed spec fn sink_view(&self) -> S {
        self.sink
    }

    /// The run mode.
    pub closed spec fn mode_view(&self) -> RunMode {
        self.mode
    }

    /// The late-event side output.
    pub closed spec fn late_view(&self) -> Seq<EventNode> {
        self.late_side_output@
    }

    /// Every action intent handed to the sink so far, in order.
    pub closed spec fn handed_view(&self) -> Seq<ActionIntent> {
        self.handed@
    }

    /// The partitions touched so far, in ascending scope order.
    pub closed spec fn touched_view(&self) -> Seq<ScopeId> {
        self.touched@
    }

    /// The newest event time ingested so far.
    pub closed spec fn last_event_view(&self) -> Option<EventTime> {
        self.last_event_time
    }

    /// The image's largest forward correlate window.
    pub closed spec fn max_forward_view(&self) -> DurationMs {
        self.image_max_forward
    }

    /// The scope-key intern table.
    pub closed spec fn interned_view(&self) -> Map<i64, ScopeId> {
        self.interner@
    }

    /// An engine over a fresh store with the given limits: no
    /// diagnostics, nothing suspended or resumed, the cooldown equal to the
    /// dedup window, strict privacy off.
    pub fn new(image: &'img ProgramImage, topo: T, sink: S, limits: Limits, mode: RunMode) -> (e: Self)
        ensures
            e.wf(),
            e.store_view().watermark_view() == i64::MIN,
            e.store_view().limits_view() == limits,
            e.store_view().partitions_view().len() == 0,
            e.store_view().rings_view().len() == 0,
            e.store_view().pending_view().len() == 0,
            e.diagnostics_view().len() == 0,
            e.suspended_view() == 0,
            e.resumed_view() == 0,
            e.cooldown_view() == limits.dedup_window,
            !e.strict_view(),
            !e.finished_view(),
            e.mode_view() == mode,
            e.late_view().len() == 0,
            e.last_event_view() is None,
            e.max_forward_view().ms_of() == max_forward_of(image.rules@),
    {
        let mut image_max_forward = DurationMs::zero();
        let mut i: usize = 0;
        while i < image.rules.len()
            invariant
                0 <= i <= image.rules@.len(),
                image_max_forward.ms_of() == max_forward_of(image.rules@.take(i as int)),
            decreases image.rules@.len() - i,
        {
            proof {
                let t = image.rules@.take(i + 1);
                assert(t.drop_last() =~= image.rules@.take(i as int));
                assert(t.last() == image.rules@[i as int]);
            }
            image_max_forward = image_max_forward.max(image.rules[i].max_forward());
            i = i + 1;
        }
        proof {
            assert(image.rules@.take(image.rules@.len() as int) =~= image.rules@);
        }
        let problem_cooldown = limits.dedup_window;
        Engine {
            store: GraphStore::new(limits),
            image,
            topo,
            sink,
            mode,
            interner: ScopeInterner::new(),
            diagnostics: Vec::new(),
            touched: Vec::new(),
            next_node_id: 0,
            last_event_time: None,
            image_max_forward,
            problem_cooldown,
            strict_privacy: false,
            finished: false,
            suspended: 0,
            resumed: 0,
            handed: Ghost(Seq::empty()),
            late_side_output: Vec::new(),
            resolved_absent: Vec::new(),
            sources: Vec::new(),
            wall_clock: EventTime::from_millis(i64::MIN),
        }
    }

    /// Overrides the engine-wide problem-emission cooldown.
    pub fn with_problem_cooldown(self, cooldown: DurationMs) -> (e: Self)
        requires
            self.wf(),
        ensures
            e.wf(),
            e.cooldown_view() == cooldown,
            e.store_view() == self.store_view(),
            e.strict_view() == self.strict_view(),
    {
        let mut e = self;
        e.problem_cooldown = cooldown;
        e
    }

    /// Turns strict-privacy redaction of SARIF evidence on or off.
    pub fn with_strict_privacy(self, strict_privacy: bool) -> (e: Self)
        requires
            self.wf(),
        ensures
            e.wf(),
            e.strict_view() == strict_privacy,
            e.store_view() == self.store_view(),
            e.cooldown_view() == self.cooldown_view(),
    {
        let mut e = self;
        e.strict_privacy = strict_privacy;
        e
    }

    /// Whether strict-privacy redaction is on.
    pub fn strict_privacy(&self) -> (b: bool)
        ensures
            b == self.strict_view(),
    {
        self.strict_privacy
    }

    /// Interns a scope for target-key resolution and returns its key.
    pub fn intern_scope(&mut self, scope: ScopeId) -> (k: i64)
        ensures
            k == crate::eval::interner::scope_key(scope),
            final(self).interned_view() == old(self).interned_view().insert(k, scope),
            final(self).store_view() == old(self).store_view(),
            final(self).wf() == old(self).wf(),
    {
        self.interner.intern(scope)
    }

    /// The graph store.
    pub fn store(&self) -> (s: &GraphStore)
        ensures
            *s == self.store_view(),
    {
        &self.store
    }

    /// The topology provider.
    pub fn topo(&self) -> (t: &T)
        ensures
            *t == self.topo_view(),
    {
        &self.topo
    }

    /// The action sink.
    pub fn sink(&self) -> (s: &S)
        ensures
            *s == self.sink_view(),
    {
        &self.sink
    }

    /// The diagnostics recorded so far, in order.
    pub fn diagnostics(&self) -> (d: &[EngineDiagnostic])
        ensures
            d@ == self.diagnostics_view(),
    {
        self.diagnostics.as_slice()
    }

    /// Matches suspended so far.
    pub fn suspended(&self) -> (n: u64)
        ensures
            n == self.suspended_view(),
    {
        self.suspended
    }

    /// Suspended matches resumed so far.
    pub fn resumed(&self) -> (n: u64)
        ensures
            n == self.resumed_view(),
    {
        self.resumed
    }

    /// The events dropped as late (live mode).
    pub fn late_side_output(&self) -> (s: &[EventNode])
        ensures
            s@ == self.late_view(),
    {
        self.late_side_output.as_slice()
    }

    /// Advances the live wall clock (used for idle-source detection); a
    /// smaller `t` changes nothing, and offline it changes nothing.
    pub fn advance_wall_clock(&mut self, t: EventTime)
        ensures
            final(self).wall_clock_view() == if old(self).mode_view() == RunMode::Live && (
            old(self).wall_clock_view().ms == i64::MIN || t.ms > old(self).wall_clock_view().ms) {
                t
            } else {
                old(self).wall_clock_view()
            },
            final(self).store_view() == old(self).store_view(),
            final(self).wf() == old(self).wf(),
    {
        if self.mode != RunMode::Live {
            return;
        }
        if self.wall_clock.ms == i64::MIN || t.ms > self.wall_clock.ms {
            self.wall_clock = t;
        }
    }

    /// What every step of the pipeline keeps: the engine stays well
    /// formed, the watermark never regresses, the limits, mode, image,
    /// cooldown and privacy setting do not change, and the counters and the
    /// diagnostics and late logs only grow.
    pub closed spec fn evolved_from(&self, prev: Self) -> bool {
        &&& self.wf()
        &&& self.store.watermark_view() >= prev.store.watermark_view()
        &&& self.store.limits_view() == prev.store.limits_view()
        &&& self.mode == prev.mode
        &&& self.image == prev.image
        &&& self.problem_cooldown == prev.problem_cooldown
        &&& self.strict_privacy == prev.strict_privacy
        &&& self.suspended >= prev.suspended
        &&& self.resumed >= prev.resumed
        &&& self.diagnostics@.len() >= prev.diagnostics@.len()
        &&& self.late_side_output@.len() >= prev.late_side_output@.len()
        &&& self.image_max_forward == prev.image_max_forward
    }

    fn diag(&mut self, d: EngineDiagnostic)
        requires
            old(self).wf(),
        ensures
            final(self).evolved_from(*old(self)),
            final(self).store_view().pending_view() == old(self).store_view().pending_view(),
            final(self).diagnostics_view() == old(self).diagnostics_view().push(d),
            final(self).store_view() == old(self).store_view(),
            final(self).finished == old(self).finished,
            final(self).last_event_time == old(self).last_event_time,
            final(self).late_side_output == old(self).late_side_output,
            final(self).resolved_absent == old(self).resolved_absent,
            final(self).next_node_id == old(self).next_node_id,
            final(self).touched == old(self).touched,
            final(self).interner == old(self).interner,
            final(self).handed == old(self).handed,
    {
        self.diagnostics.push(d);
    }

    /// Ingests one event under the run mode's watermark policy, then
    /// resumes expired matches, collects garbage and matches anchors.
    /// Offline: the watermark becomes the largest time seen; a late event
    /// that falls into a correlate window already resolved absent is
    /// audited (`ADGL3002`) and nothing is re-inferred. Live: a source's
    /// watermark trails its newest event by `max_disorder`, sources idle
    /// for `idle_timeout` are left out of the global minimum, and an event
    /// older than `watermark - allowed_lateness` is dropped to the late
    /// side output (`ADGL3003`).
    pub fn ingest(&mut self, event: EventNode)
        requires
            old(self).wf(),
        ensures
            final(self).evolved_from(*old(self)),
            final(self).finished_view() == old(self).finished_view(),
            ({
                let prev = old(self).store_view().watermark_view();
                let late = prev != i64::MIN && event.time.ms <= prev;
                let dropped = old(self).mode_view() == RunMode::Live && late && event.time.ms <= crate::types::clamp_i64(
                    prev - old(self).store_view().limits_view().allowed_lateness.ms_of(),
                );
                &&& dropped ==> final(self).late_view() == old(self).late_view().push(event)
                    && final(self).store_view() == old(self).store_view()
                    && final(self).diagnostics_view() == old(self).diagnostics_view().push(
                    EngineDiagnostic::LateEventDropped {
                        scope: event.scope,
                        event: event.id,
                        time: event.time,
                        wm: EventTime { ms: prev },
                    },
                )
                &&& !dropped ==> final(self).late_view() == old(self).late_view()
                &&& (old(self).mode_view() == RunMode::Offline ==> final(self).store_view().watermark_view()
                    >= event.time.ms)
            }),
            final(self).last_event_view() == Some(
                match old(self).last_event_view() {
                    Some(t) => if event.time.ms > t.ms {
                        event.time
                    } else {
                        t
                    },
                    None => event.time,
                },
            ),
            final(self).max_forward_view() == old(self).max_forward_view(),
    {
        let scope = event.scope;
        self.touch(scope);
        let newest = match self.last_event_time {
            Some(t) => if event.time.ms > t.ms {
                event.time
            } else {
                t
            },
            None => event.time,
        };
        let prev_wm = self.store.watermark();
        let watermark_initialized = prev_wm.ms != i64::MIN;
        let is_late = watermark_initialized && event.time.ms <= prev_wm.ms;

        if self.mode == RunMode::Live && is_late {
            let cutoff = prev_wm.sub(self.store.limits().allowed_lateness);
            if event.time.ms <= cutoff.ms {
                self.diag(EngineDiagnostic::LateEventDropped { scope, event: event.id, time: event.time, wm: prev_wm });
                self.late_side_output.push(event);
                self.last_event_time = Some(newest);
                return;
            }
        }
        if self.mode == RunMode::Offline && is_late {
            self.audit_offline_late_evidence(&event, prev_wm);
        }
        let wm = match self.mode {
            RunMode::Offline => self.store.advance_watermark(event.time),
            RunMode::Live => self.advance_live_watermark(scope, event.time),
        };
        let pushed = event.clone();
        match self.store.push_event(pushed) {
            Some(d) => self.diag(EngineDiagnostic::Store(d)),
            None => {},
        }
        self.resume_expired(wm);
        self.gc_sweep(wm);
        self.match_anchors(&event, wm);
        self.last_event_time = Some(newest);
    }

    /// Live per-source watermark advance with idle-source exclusion.
    fn advance_live_watermark(&mut self, scope: ScopeId, event_time: EventTime) -> (w: EventTime)
        requires
            old(self).wf(),
        ensures
            final(self).evolved_from(*old(self)),
            final(self).diagnostics_view() == old(self).diagnostics_view(),
            final(self).late_view() == old(self).late_view(),
            final(self).finished == old(self).finished,
            w.ms == final(self).store_view().watermark_view(),
    {
        if self.wall_clock.ms == i64::MIN || event_time.ms > self.wall_clock.ms {
            self.wall_clock = event_time;
        }
        let wall = self.wall_clock;
        let candidate = event_time.sub(self.store.limits().max_disorder);
        let mut found: Option<usize> = None;
        let mut k: usize = 0;
        while k < self.sources.len()
            invariant
                0 <= k <= self.sources@.len(),
                found matches Some(j) ==> j < self.sources@.len(),
            decreases self.sources@.len() - k,
        {
            if found.is_none() && self.sources[k].0.same(&scope) {
                found = Some(k);
            }
            k = k + 1;
        }
        match found {
            Some(j) => {
                let mut entry = self.sources[j].1;
                if candidate.ms > entry.local_wm.ms {
                    entry.local_wm = candidate;
                }
                entry.last_seen_wall = wall;
                self.sources.set(j, (scope, entry));
            },
            None => {
                self.sources.push((scope, SourceWm { local_wm: candidate, last_seen_wall: wall }));
            },
        }
        let idle = self.store.limits().idle_timeout.millis();
        let mut global: Option<EventTime> = None;
        let mut i: usize = 0;
        while i < self.sources.len()
            invariant
                0 <= i <= self.sources@.len(),
            decreases self.sources@.len() - i,
        {
            let src = self.sources[i].1;
            let diff: i128 = wall.ms as i128 - src.last_seen_wall.ms as i128;
            let idle_for: i64 = if diff > i64::MAX as i128 {
                i64::MAX
            } else if diff < i64::MIN as i128 {
                i64::MIN
            } else {
                diff as i64
            };
            if idle_for < idle {
                global = match global {
                    Some(g) => if src.local_wm.ms < g.ms {
                        Some(src.local_wm)
                    } else {
                        Some(g)
                    },
                    None => Some(src.local_wm),
                };
            }
            i = i + 1;
        }
        let target = match global {
            Some(g) => g,
            None => self.store.watermark(),
        };
        self.store.advance_watermark(target)
    }

    /// Offline `ADGL3002`: a late event inside a window that already
    /// resolved absent is audited once; nothing is re-inferred.
    fn audit_offline_late_evidence(&mut self, event: &EventNode, wm: EventTime)
        requires
            old(self).wf(),
        ensures
            !some_late_hit(old(self).resolved_absent@, *event) ==> final(self).diagnostics_view()
                == old(self).diagnostics_view(),
            some_late_hit(old(self).resolved_absent@, *event) ==> ({
                let d = final(self).diagnostics_view();
                &&& d.len() == old(self).diagnostics_view().len() + 1
                &&& d.take(old(self).diagnostics_view().len() as int) == old(self).diagnostics_view()
                &&& d.last() matches EngineDiagnostic::LateEvidence { scope, rule, event: id, event_type, wm: at }
                    && scope == event.scope && id == event.id && event_type@ == event.event_type@ && at == wm
                    && exists|i: int|
                    0 <= i < old(self).resolved_absent@.len() && late_hit(
                        #[trigger] old(self).resolved_absent@[i],
                        *event,
                    ) && rule@ == old(self).resolved_absent@[i].rule@ && forall|j: int|
                        0 <= j < i ==> !late_hit(#[trigger] old(self).resolved_absent@[j], *event)
            }),
            final(self).evolved_from(*old(self)),
            final(self).store_view() == old(self).store_view(),
            final(self).late_view() == old(self).late_view(),
            final(self).finished == old(self).finished,
    {
        let mut i: usize = 0;
        let mut done = false;
        while i < self.resolved_absent.len() && !done
            invariant
                0 <= i <= self.resolved_absent@.len(),
                self.evolved_from(*old(self)),
                self.store == old(self).store,
                self.late_side_output@ == old(self).late_side_output@,
                self.finished == old(self).finished,
                self.resolved_absent@ == old(self).resolved_absent@,
                !done ==> self.diagnostics_view() == old(self).diagnostics_view(),
                !done ==> forall|j: int| 0 <= j < i ==> !late_hit(#[trigger] self.resolved_absent@[j], *event),
                done ==> some_late_hit(old(self).resolved_absent@, *event) && ({
                    let d = self.diagnostics_view();
                    &&& d.len() == old(self).diagnostics_view().len() + 1
                    &&& d.take(old(self).diagnostics_view().len() as int) == old(self).diagnostics_view()
                    &&& d.last() matches EngineDiagnostic::LateEvidence { scope, rule, event: id, event_type, wm: at }
                        && scope == event.scope && id == event.id && event_type@ == event.event_type@ && at == wm
                        && exists|k: int|
                        0 <= k < old(self).resolved_absent@.len() && late_hit(
                            #[trigger] old(self).resolved_absent@[k],
                            *event,
                        ) && rule@ == old(self).resolved_absent@[k].rule@ && forall|j: int|
                            0 <= j < k ==> !late_hit(#[trigger] old(self).resolved_absent@[j], *event)
                }),
            decreases self.resolved_absent@.len() - i,
        {
            let hit = {
                let ra = &self.resolved_absent[i];
                ra.scope.same(&event.scope) && ra.event_type.same(&event.event_type) && event.time.ms >= ra.lo.ms
                    && event.time.ms <= ra.hi.ms
            };
            if hit {
                let d = EngineDiagnostic::LateEvidence {
                    scope: event.scope,
                    rule: self.resolved_absent[i].rule.duplicate(),
                    event: event.id,
                    event_type: event.event_type.duplicate(),
                    wm,
                };
                let ghost k = i as int;
                self.diag(d);
                done = true;
                proof {
                    assert(late_hit(old(self).resolved_absent@[k], *event));
                    assert(self.diagnostics_view().take(old(self).diagnostics_view().len() as int)
                        =~= old(self).diagnostics_view());
                }
            }
            i = i + 1;
        }
    }

    /// Records the absent event-correlate windows of a run so later
    /// offline late evidence can be audited.
    fn record_resolved_absent(&mut self, rule: &RuleInstance, bindings: &Vec<Binding>, anchor: &Bound, scope: ScopeId)
        requires
            old(self).wf(),
        ensures
            final(self).evolved_from(*old(self)),
            final(self).store_view().pending_view() == old(self).store_view().pending_view(),
            final(self).store_view() == old(self).store_view(),
            final(self).diagnostics_view() == old(self).diagnostics_view(),
            final(self).late_view() == old(self).late_view(),
            final(self).finished == old(self).finished,
    {
        let anchor_time = anchor.time();
        let mut idx: usize = 0;
        while idx < rule.correlates.len()
            invariant
                0 <= idx <= rule.correlates@.len(),
                self.evolved_from(*old(self)),
                self.store_view().pending_view() == old(self).store_view().pending_view(),
                self.store == old(self).store,
                self.diagnostics@ == old(self).diagnostics@,
                self.late_side_output@ == old(self).late_side_output@,
                self.finished == old(self).finished,
            decreases rule.correlates@.len() - idx,
        {
            let spec = &rule.correlates[idx];
            let absent = idx + 1 < bindings.len() && matches!(bindings[idx + 1], Binding::Absent);
            if absent {
                match (&spec.source, spec.window) {
                    (CorrelateSource::Event(event_type), WindowProof::Calculable { back, forward }) => {
                        self.resolved_absent.push(
                            ResolvedAbsent {
                                scope,
                                rule: rule.id.duplicate(),
                                event_type: event_type.duplicate(),
                                lo: anchor_time.sub(back),
                                hi: anchor_time.add(forward),
                            },
                        );
                    },
                    _ => {},
                }
            }
            idx = idx + 1;
        }
    }

    /// Explicit watermark advance (monotone), then resume and garbage
    /// collection.
    pub fn advance_watermark(&mut self, t: EventTime)
        requires
            old(self).wf(),
        ensures
            final(self).evolved_from(*old(self)),
            final(self).store_view().watermark_view() >= t.ms,
            final(self).finished_view() == old(self).finished_view(),
            final(self).late_view() == old(self).late_view(),
            none_due_before(final(self).store_view().pending_view(), t.ms as int),
    {
        let wm = self.store.advance_watermark(t);
        self.resume_expired(wm);
        self.gc_sweep(wm);
    }

    /// End-of-stream flush: pushes the watermark past every possible
    /// pending deadline (`last event time + max forward window + 1 ms`) so
    /// absent branches resolve, then collects garbage. Runs once; later
    /// calls change nothing.
    pub fn finish(&mut self)
        requires
            old(self).wf(),
        ensures
            final(self).evolved_from(*old(self)),
            final(self).finished_view(),
            old(self).finished_view() ==> *final(self) == *old(self),
            final(self).late_view() == old(self).late_view(),
            !old(self).finished_view() ==> (old(self).last_event_view() matches Some(l) ==> final(self).store_view().watermark_view() >= crate::types::clamp_i64(
                crate::types::clamp_i64(l.ms + old(self).max_forward_view().ms_of()) + 1,
            ) && none_due_before(
                final(self).store_view().pending_view(),
                crate::types::clamp_i64(crate::types::clamp_i64(l.ms + old(self).max_forward_view().ms_of()) + 1) as int,
            )),
    {
        if self.finished {
            return;
        }
        self.finished = true;
        match self.last_event_time {
            Some(last) => {
                let one_ms = match DurationMs::from_millis(1) {
                    Some(d) => d,
                    None => DurationMs::zero(),
                };
                let flush = last.add(self.image_max_forward).add(one_ms);
                self.advance_watermark(flush);
            },
            None => {},
        }
    }

    fn gc_sweep(&mut self, wm: EventTime)
        requires
            old(self).wf(),
        ensures
            final(self).store_view().rings_view().len() == old(self).store_view().rings_view().len(),
            forall|i: int|
                0 <= i < final(self).store_view().rings_view().len() ==> (#[trigger] final(self).store_view().rings_view()[i]).1.events()
                    == old(self).store_view().rings_view()[i].1.events().skip(
                    crate::store::ring::lead_before(
                        old(self).store_view().rings_view()[i].1.events(),
                        crate::types::clamp_i64(wm.ms - old(self).store_view().limits_view().max_lookback.ms_of()),
                    ),
                ),
            final(self).store_view().pending_view() == old(self).store_view().pending_view(),
            final(self).store_view().watermark_view() == old(self).store_view().watermark_view(),
            final(self).evolved_from(*old(self)),
            final(self).diagnostics_view() == old(self).diagnostics_view(),
            final(self).late_view() == old(self).late_view(),
            final(self).finished == old(self).finished,
    {
        let lookback = self.store.limits().max_lookback;
        let _ = self.store.gc(wm, lookback);
        let cooldown = self.problem_cooldown;
        let _ = self.store.prune_emitted(wm, cooldown);
    }

    /// Resume sweep: pops every pending match whose deadline the
    /// watermark passed, in deadline order, and runs its rule against the
    /// now complete window.
    fn resume_expired(&mut self, wm: EventTime)
        requires
            old(self).wf(),
        ensures
            final(self).evolved_from(*old(self)),
            final(self).late_view() == old(self).late_view(),
            final(self).finished == old(self).finished,
            none_due_before(final(self).store_view().pending_view(), wm.ms as int),
    {
        let expired = self.store.pop_expired(wm);
        let ghost pv1 = self.store_view().pending_view();
        let img: &'img ProgramImage = self.image;
        let mut k: usize = 0;
        while k < expired.len()
            invariant
                0 <= k <= expired@.len(),
                self.evolved_from(*old(self)),
                self.late_side_output@ == old(self).late_side_output@,
                self.finished == old(self).finished,
                img == self.image,
                self.store_view().pending_view() == pv1,
                none_due_before(pv1, wm.ms as int),
            decreases expired@.len() - k,
        {
            let m = &expired[k];
            let anchor_event: Option<EventNode> = match self.store.ring(m.scope) {
                Some(ring) => match ring.get(m.anchor_event) {
                    Some(e) => Some(e.clone()),
                    None => None,
                },
                None => None,
            };
            match anchor_event {
                None => {
                    self.diag(EngineDiagnostic::MissingAnchor { rule: m.rule.duplicate() });
                },
                Some(evt) => {
                    let mut found: Option<usize> = None;
                    let mut r: usize = 0;
                    while r < img.rules.len()
                        invariant
                            0 <= r <= img.rules@.len(),
                            found matches Some(j) ==> j < img.rules@.len(),
                        decreases img.rules@.len() - r,
                    {
                        if found.is_none() && img.rules[r].id.same(&m.rule) {
                            found = Some(r);
                        }
                        r = r + 1;
                    }
                    match found {
                        None => {
                            self.diag(EngineDiagnostic::RuleNotInImage { rule: m.rule.duplicate() });
                        },
                        Some(j) => {
                            let rule: &'img RuleInstance = &img.rules[j];
                            if self.resumed < u64::MAX {
                                self.resumed = self.resumed + 1;
                            }
                            let budget = self.store.limits().max_rule_firings_per_event;
                            let _ = self.run_rule(rule, Bound::Event(evt), m.scope, budget);
                        },
                    }
                },
            }
            k = k + 1;
        }
    }

    /// Anchor matching for one routed event: each evidence rule anchored
    /// on its type whose anchor predicate is `True` either waits (its
    /// forward window is still open) or runs now.
    fn match_anchors(&mut self, event: &EventNode, wm: EventTime)
        requires
            old(self).wf(),
        ensures
            final(self).evolved_from(*old(self)),
            final(self).late_view() == old(self).late_view(),
            final(self).finished == old(self).finished,
    {
        let img: &'img ProgramImage = self.image;
        let scope = event.scope;
        let rules = img.rules_for(AnchorKey::Event(&event.event_type), scope.scope_type(), RuleKind::Evidence);
        let mut budget = self.store.limits().max_rule_firings_per_event;
        let mut i: usize = 0;
        while i < rules.len()
            invariant
                0 <= i <= rules@.len(),
                self.evolved_from(*old(self)),
                self.late_side_output@ == old(self).late_side_output@,
                self.finished == old(self).finished,
            decreases rules@.len() - i,
        {
            let rule: &'img RuleInstance = rules[i];
            let mut bindings: Vec<Binding> = Vec::new();
            bindings.push(Binding::Bound(Bound::Event(event.clone())));
            let fires = match self.eval_pred(rule, &rule.anchor.predicate, &bindings, scope) {
                Some(t) => t.is_true(),
                None => false,
            };
            if fires {
                let upper = event.time.add(rule.max_forward());
                if upper.ms > wm.ms {
                    if self.suspended < u64::MAX {
                        self.suspended = self.suspended + 1;
                    }
                    let pending = PendingMatch { rule: rule.id.duplicate(), anchor_event: event.id, upper_bound: upper, scope };
                    match self.store.suspend(pending) {
                        Some(d) => self.diag(EngineDiagnostic::Store(d)),
                        None => {},
                    }
                } else {
                    budget = self.run_rule(rule, Bound::Event(event.clone()), scope, budget);
                }
            }
            i = i + 1;
        }
    }

    /// Runs one rule instance: resolves the correlate bindings, records
    /// absent windows, and runs the selected branch (or the unconditional
    /// body). Each run spends one unit of the firing budget; with none
    /// left it records `RuleFiringsExceeded` and does nothing.
    fn run_rule(&mut self, rule: &'img RuleInstance, anchor: Bound, scope: ScopeId, budget: usize) -> (rest: usize)
        requires
            old(self).wf(),
        ensures
            final(self).evolved_from(*old(self)),
            final(self).store_view().pending_view() == old(self).store_view().pending_view(),
            final(self).late_view() == old(self).late_view(),
            final(self).finished == old(self).finished,
            rest <= budget,
        decreases budget, 0nat,
    {
        if budget == 0 {
            self.diag(EngineDiagnostic::RuleFiringsExceeded { scope });
            return 0;
        }
        let budget = budget - 1;
        let bindings = self.resolve_bindings(rule, &anchor, scope);
        self.record_resolved_absent(rule, &bindings, &anchor, scope);
        match &rule.branches {
            Some(bt) => match self.eval_pred(rule, &bt.cond, &bindings, scope) {
                Some(T3::True) => self.exec_intents(&bt.then_body, rule, &bindings, &anchor, scope, budget),
                Some(T3::False) => match &bt.else_body {
                    Some(else_body) => self.exec_intents(else_body, rule, &bindings, &anchor, scope, budget),
                    None => budget,
                },
                Some(T3::Unknown) => self.exec_intents(&bt.unknown_body, rule, &bindings, &anchor, scope, budget),
                None => budget,
            },
            None => self.exec_intents(&rule.body, rule, &bindings, &anchor, scope, budget),
        }
    }

    /// Resolves every correlate binding: candidates in the inclusive
    /// window (events in ring order, causes and problems by time then id),
    /// filtered by the topology call. Stops at `min_match` true candidates
    /// and binds the earliest; fewer true candidates with an `Unknown`
    /// among them resolve `Unknown`, otherwise `Absent`.
    fn resolve_bindings(&mut self, rule: &RuleInstance, anchor: &Bound, scope: ScopeId) -> (b: Vec<Binding>)
        requires
            old(self).wf(),
        ensures
            final(self).evolved_from(*old(self)),
            final(self).store_view().pending_view() == old(self).store_view().pending_view(),
            final(self).store_view() == old(self).store_view(),
            final(self).late_view() == old(self).late_view(),
            final(self).finished == old(self).finished,
            b@.len() == rule.correlates@.len() + 1,
            b@[0] matches Binding::Bound(x) && crate::eval::binding::bound_time(x) == crate::eval::binding::bound_time(
                *anchor,
            ),
            forall|c: int|
                0 <= c < rule.correlates@.len() && (#[trigger] rule.correlates@[c]).window is RuntimeCheck ==> b@[c
                    + 1] is Absent,
            forall|c: int|
                0 <= c < rule.correlates@.len() && (#[trigger] rule.correlates@[c]).window is Calculable ==> exists|
                    rs: Seq<T3>,
                    cands: Seq<Bound>,
                |
                    #[trigger] resolved_from(b@[c + 1], rs, cands, rule.correlates@[c]),
    {
        let mut bindings: Vec<Binding> = Vec::new();
        bindings.push(Binding::Bound(anchor.duplicate()));
        let mut c: usize = 0;
        while c < rule.correlates.len()
            invariant
                0 <= c <= rule.correlates@.len(),
                bindings@.len() == c + 1,
                bindings@[0] matches Binding::Bound(x) && crate::eval::binding::bound_time(x)
                    == crate::eval::binding::bound_time(*anchor),
                forall|j: int|
                    0 <= j < c && (#[trigger] rule.correlates@[j]).window is RuntimeCheck ==> bindings@[j + 1] is Absent,
                forall|j: int|
                    0 <= j < c && (#[trigger] rule.correlates@[j]).window is Calculable ==> exists|
                        rs: Seq<T3>,
                        cands: Seq<Bound>,
                    |
                        #[trigger] resolved_from(bindings@[j + 1], rs, cands, rule.correlates@[j]),
                self.evolved_from(*old(self)),
                self.store_view().pending_view() == old(self).store_view().pending_view(),
                self.store == old(self).store,
                self.late_side_output@ == old(self).late_side_output@,
                self.finished == old(self).finished,
            decreases rule.correlates@.len() - c,
        {
            let spec = &rule.correlates[c];
            match spec.window {
                WindowProof::RuntimeCheck => {
                    self.diag(EngineDiagnostic::RuntimeCheckWindow { rule: rule.id.duplicate() });
                    let ghost before = bindings@;
                    bindings.push(Binding::Absent);
                    proof {
                        assert forall|j: int|
                            0 <= j < c + 1 && (#[trigger] rule.correlates@[j]).window is Calculable implies exists|
                                rs2: Seq<T3>,
                                cands2: Seq<Bound>,
                            |
                                #[trigger] resolved_from(bindings@[j + 1], rs2, cands2, rule.correlates@[j]) by {
                            assert(j < c);
                            assert(bindings@[j + 1] == before[j + 1]);
                            let (r0, c0) = choose|r0: Seq<T3>, c0: Seq<Bound>|
                                #[trigger] resolved_from(before[j + 1], r0, c0, rule.correlates@[j]);
                            assert(resolved_from(bindings@[j + 1], r0, c0, rule.correlates@[j]));
                        }
                    }
                },
                WindowProof::Calculable { back, forward } => {
                    let anchor_time = anchor.time();
                    let lo = anchor_time.sub(back);
                    let hi = anchor_time.add(forward);
                    let mut candidates: Vec<Bound> = Vec::new();
                    match &spec.source {
                        CorrelateSource::Event(event_type) => {
                            match self.store.ring(scope) {
                                Some(ring) => {
                                    let window = ring.scan_window(anchor_time, back, forward);
                                    let mut w: usize = 0;
                                    while w < window.len()
                                        invariant
                                            0 <= w <= window@.len(),
                                        decreases window@.len() - w,
                                    {
                                        let e = window[w];
                                        let self_match = match anchor {
                                            Bound::Event(a) => a.id == e.id,
                                            _ => false,
                                        };
                                        if e.event_type.same(event_type) && !self_match {
                                            candidates.push(Bound::Event(e.clone()));
                                        }
                                        w = w + 1;
                                    }
                                },
                                None => {},
                            }
                        },
                        CorrelateSource::Problem(kind) => {
                            match self.store.partition(scope) {
                                Some(part) => {
                                    let ps = part.problems();
                                    let mut w: usize = 0;
                                    while w < ps.len()
                                        invariant
                                            0 <= w <= ps@.len(),
                                            forall|i: int, j: int|
                                                0 <= i < j < candidates@.len() ==> !bound_key_lt(
                                                    #[trigger] candidates@[j],
                                                    #[trigger] candidates@[i],
                                                ),
                                        decreases ps@.len() - w,
                                    {
                                        let p = &ps[w];
                                        let self_match = match anchor {
                                            Bound::Problem(a) => a.node == p.id,
                                            _ => false,
                                        };
                                        if p.kind.same(kind) && p.time.ms >= lo.ms && p.time.ms <= hi.ms && !self_match {
                                            insert_candidate(
                                                &mut candidates,
                                                Bound::Problem(
                                                    ProblemSnapshot { node: p.id, kind: p.kind.duplicate(), target: p.target, time: p.time },
                                                ),
                                            );
                                        }
                                        w = w + 1;
                                    }
                                },
                                None => {},
                            }
                        },
                        CorrelateSource::Cause(kind) => {
                            match self.store.partition(scope) {
                                Some(part) => {
                                    let cs = part.causes();
                                    let mut w: usize = 0;
                                    while w < cs.len()
                                        invariant
                                            0 <= w <= cs@.len(),
                                            forall|i: int, j: int|
                                                0 <= i < j < candidates@.len() ==> !bound_key_lt(
                                                    #[trigger] candidates@[j],
                                                    #[trigger] candidates@[i],
                                                ),
                                        decreases cs@.len() - w,
                                    {
                                        let n = &cs[w];
                                        let self_match = match anchor {
                                            Bound::Cause(a) => a.node == n.id,
                                            _ => false,
                                        };
                                        if n.kind.same(kind) && n.time.ms >= lo.ms && n.time.ms <= hi.ms && !self_match {
                                            insert_candidate(
                                                &mut candidates,
                                                Bound::Cause(
                                                    CauseSnapshot {
                                                        node: n.id,
                                                        kind: n.kind.duplicate(),
                                                        target: n.target,
                                                        time: n.time,
                                                        confidence: n.confidence,
                                                    },
                                                ),
                                            );
                                        }
                                        w = w + 1;
                                    }
                                },
                                None => {},
                            }
                        },
                    }
                    let func = TopoFunc::from_idx(spec.topo.func_idx);
                    if func.is_none() {
                        self.diag(
                            EngineDiagnostic::PredicateError {
                                rule: rule.id.duplicate(),
                                error: CorrelateError::UnknownTopoFunction { func: spec.topo.func_idx.0 },
                            },
                        );
                    }
                    let mut match_count: u8 = 0;
                    let mut witness: Option<Bound> = None;
                    let mut saw_unknown = false;
                    let mut done = false;
                    let mut k: usize = 0;
                    let ghost mut rs: Seq<T3> = Seq::empty();
                    let ghost min = spec.min_match;
                    while k < candidates.len() && !done
                        invariant
                            0 <= k <= candidates@.len(),
                            rs.len() == k,
                            min == spec.min_match,
                            func == crate::eval::topology::topo_func_of(spec.topo.func_idx.0),
                            func is None ==> forall|q: int| 0 <= q < rs.len() ==> #[trigger] rs[q] is Unknown,
                            match_count == count_true(rs),
                            done == (count_true(rs) >= min && count_true(rs) >= 1),
                            saw_unknown == has_unknown(rs),
                            match first_true(rs) {
                                Some(i) => 0 <= i < k && (witness matches Some(w) && crate::eval::binding::copy_of(
                                    candidates@[i],
                                    w,
                                )),
                                None => witness is None && count_true(rs) == 0,
                            },
                            bindings@.len() == c + 1,
                            self.evolved_from(*old(self)),
                        self.store_view().pending_view() == old(self).store_view().pending_view(),
                self.store_view().pending_view() == old(self).store_view().pending_view(),
                            self.store == old(self).store,
                            self.late_side_output@ == old(self).late_side_output@,
                            self.finished == old(self).finished,
                        decreases candidates@.len() - k,
                    {
                        let t = self.eval_topo(spec, func, rule, &bindings, &candidates[k]);
                        proof {
                            let rs2 = rs.push(t);
                            assert(rs2.drop_last() =~= rs);
                            assert forall|q: int| 0 <= q < rs2.len() && func is None implies #[trigger] rs2[q] is Unknown by {
                                if q < rs.len() {
                                    assert(rs2[q] == rs[q]);
                                }
                            }
                            rs = rs2;
                        }
                        match t {
                            T3::True => {
                                if match_count < u8::MAX {
                                    match_count = match_count + 1;
                                }
                                if witness.is_none() {
                                    witness = Some(candidates[k].duplicate());
                                }
                                if match_count >= spec.min_match {
                                    done = true;
                                }
                            },
                            T3::Unknown => {
                                saw_unknown = true;
                            },
                            T3::False => {},
                        }
                        k = k + 1;
                    }
                    let binding = if match_count >= spec.min_match {
                        match witness {
                            Some(w) => Binding::Bound(w),
                            None => Binding::Unknown,
                        }
                    } else if saw_unknown {
                        Binding::Unknown
                    } else {
                        Binding::Absent
                    };
                    let ghost before = bindings@;
                    bindings.push(binding);
                    proof {
                        assert(settled(bindings@[c + 1], rs, candidates@, spec.min_match));
                        assert(evaluated(rs, candidates@, spec.min_match));
                        assert(resolved_from(bindings@[c + 1], rs, candidates@, rule.correlates@[c as int]));
                        assert forall|j: int|
                            0 <= j < c + 1 && (#[trigger] rule.correlates@[j]).window is Calculable implies exists|
                                rs2: Seq<T3>,
                                cands2: Seq<Bound>,
                            |
                                #[trigger] resolved_from(bindings@[j + 1], rs2, cands2, rule.correlates@[j]) by {
                            if j < c {
                                assert(bindings@[j + 1] == before[j + 1]);
                                let (r0, c0) = choose|r0: Seq<T3>, c0: Seq<Bound>|
                                    #[trigger] resolved_from(before[j + 1], r0, c0, rule.correlates@[j]);
                                assert(resolved_from(bindings@[j + 1], r0, c0, rule.correlates@[j]));
                            } else {
                                assert(settled(bindings@[j + 1], rs, candidates@, rule.correlates@[j].min_match));
                            }
                        }
                    }
                },
            }
            c = c + 1;
        }
        bindings
    }

    /// The topology call of a correlate against one candidate; arguments
    /// that do not resolve (unbound binding, un-interned key) give
    /// `Unknown`, as does an unknown function.
    fn eval_topo(
        &mut self,
        spec: &CorrelateSpec,
        func: Option<TopoFunc>,
        rule: &RuleInstance,
        partial: &Vec<Binding>,
        candidate: &Bound,
    ) -> (t: T3)
        requires
            old(self).wf(),
        ensures
            final(self).evolved_from(*old(self)),
            final(self).store_view().pending_view() == old(self).store_view().pending_view(),
            final(self).store_view() == old(self).store_view(),
            final(self).late_view() == old(self).late_view(),
            final(self).finished == old(self).finished,
            func is None ==> t is Unknown,
            spec.topo.args@.len() != 2 ==> t is Unknown,
    {
        let f = match func {
            Some(f) => f,
            None => {
                return T3::Unknown;
            },
        };
        if spec.topo.args.len() != 2 {
            return T3::Unknown;
        }
        let a = self.resolve_topo_arg(spec, rule, partial, candidate, &spec.topo.args[0]);
        let b = self.resolve_topo_arg(spec, rule, partial, candidate, &spec.topo.args[1]);
        match (a, b) {
            (Some(x), Some(y)) => f.call(&mut self.topo, x, y),
            _ => T3::Unknown,
        }
    }

    fn resolve_topo_arg(
        &mut self,
        spec: &CorrelateSpec,
        rule: &RuleInstance,
        partial: &Vec<Binding>,
        candidate: &Bound,
        path: &MetricPath,
    ) -> (r: Option<ScopeId>)
        requires
            old(self).wf(),
        ensures
            final(self).evolved_from(*old(self)),
            final(self).store_view().pending_view() == old(self).store_view().pending_view(),
            final(self).store_view() == old(self).store_view(),
            final(self).late_view() == old(self).late_view(),
            final(self).finished == old(self).finished,
    {
        let (head, _tail, _more) = path_parts(path.as_str());
        if crate::types::text_eq(head.as_str(), spec.binding.as_str()) {
            return self.resolve_scope_path_from_bound(rule, path, candidate);
        }
        match binding_index_of(rule, head.as_str()) {
            Some(idx) => if idx < partial.len() {
                match partial[idx].bound() {
                    Some(b) => self.resolve_scope_path_from_bound(rule, path, b),
                    None => None,
                }
            } else {
                None
            },
            None => None,
        }
    }

    fn eval_pred(&mut self, rule: &RuleInstance, pred: &Predicate, bindings: &Vec<Binding>, scope: ScopeId) -> (r: Option<T3>)
        requires
            old(self).wf(),
        ensures
            r == (match eval_spec(*pred, bindings@, scope, old(self).interner@, answers(old(self).topo)) {
                Ok(t) => Some(t),
                Err(_) => None::<T3>,
            }),
            match eval_spec(*pred, bindings@, scope, old(self).interner@, answers(old(self).topo)) {
                Ok(_) => final(self).diagnostics_view() == old(self).diagnostics_view(),
                Err(error) => {
                    let d = final(self).diagnostics_view();
                    &&& d.len() == old(self).diagnostics_view().len() + 1
                    &&& d.take(old(self).diagnostics_view().len() as int) == old(self).diagnostics_view()
                    &&& d.last() matches EngineDiagnostic::PredicateError { rule: rid, error: e }
                        && rid@ == rule.id@ && e == error
                },
            },
            final(self).evolved_from(*old(self)),
            final(self).store_view().pending_view() == old(self).store_view().pending_view(),
            final(self).store_view() == old(self).store_view(),
            final(self).late_view() == old(self).late_view(),
            final(self).finished == old(self).finished,
    {
        let result = {
            let ctx = PredCtx { bindings: bindings.as_slice(), scope, interner: &self.interner };
            eval_predicate(pred, &ctx, &mut self.topo)
        };
        match result {
            Ok(t) => Some(t),
            Err(error) => {
                self.diag(EngineDiagnostic::PredicateError { rule: rule.id.duplicate(), error });
                None
            },
        }
    }

    /// Resolves an intent target path `<binding>.<tail>` to a scope.
    fn resolve_target(&mut self, rule: &RuleInstance, path: &MetricPath, bindings: &Vec<Binding>) -> (r: Option<ScopeId>)
        requires
            old(self).wf(),
        ensures
            final(self).evolved_from(*old(self)),
            final(self).store_view().pending_view() == old(self).store_view().pending_view(),
            final(self).store_view() == old(self).store_view(),
            final(self).late_view() == old(self).late_view(),
            final(self).finished == old(self).finished,
            final(self).interner == old(self).interner,
            final(self).next_node_id == old(self).next_node_id,
            final(self).touched == old(self).touched,
            final(self).handed == old(self).handed,
            r == target_scope(*rule, path@, bindings@, old(self).interned_view()),
    {
        let (head, _tail, _more) = path_parts(path.as_str());
        assert(head@ == path_head(path@));
        match bound_of_name(rule, head.as_str(), bindings) {
            Some(b) => self.resolve_scope_path_from_bound(rule, path, b),
            None => None,
        }
    }

    fn unsupported_tail(&mut self, rule: &RuleInstance, path: &MetricPath, binding: String, tail: String)
        requires
            old(self).wf(),
        ensures
            final(self).diagnostics_view().len() == old(self).diagnostics_view().len() + 1,
            final(self).diagnostics_view().take(old(self).diagnostics_view().len() as int)
                == old(self).diagnostics_view(),
            final(self).diagnostics_view().last() matches EngineDiagnostic::UnsupportedTargetTail {
                rule: rid,
                path: p,
                binding: b,
                tail: t,
            } && rid@ == rule.id@ && p@ == path@ && b@ == binding@ && t@ == tail@,
            final(self).evolved_from(*old(self)),
            final(self).store_view().pending_view() == old(self).store_view().pending_view(),
            final(self).store_view() == old(self).store_view(),
            final(self).late_view() == old(self).late_view(),
            final(self).finished == old(self).finished,
            final(self).interner == old(self).interner,
            final(self).next_node_id == old(self).next_node_id,
            final(self).touched == old(self).touched,
            final(self).handed == old(self).handed,
    {
        self.diag(
            EngineDiagnostic::UnsupportedTargetTail { rule: rule.id.duplicate(), path: path.duplicate(), binding, tail },
        );
    }

    /// `<binding>` or `<binding>.target` gives the bound value's target;
    /// for an event, `<binding>.<field>` reads a scope-typed or routing
    /// field of its catalog schema and resolves the interned key. Other
    /// tails, and paths of three or more segments, record
    /// `UnsupportedTargetTail` (`ADGL3008`) and give `None`.
    fn resolve_scope_path_from_bound(&mut self, rule: &RuleInstance, path: &MetricPath, bound: &Bound) -> (r: Option<ScopeId>)
        requires
            old(self).wf(),
        ensures
            final(self).evolved_from(*old(self)),
            final(self).store_view().pending_view() == old(self).store_view().pending_view(),
            final(self).store_view() == old(self).store_view(),
            final(self).late_view() == old(self).late_view(),
            final(self).finished == old(self).finished,
            final(self).interner == old(self).interner,
            final(self).next_node_id == old(self).next_node_id,
            final(self).touched == old(self).touched,
            final(self).handed == old(self).handed,
            r == path_scope(path@, *bound, old(self).interned_view()),
    {
        proof {
            reveal(path_scope);
        }
        let (head, tail, more) = path_parts(path.as_str());
        if more {
            let t = match tail {
                Some(t) => t,
                None => String::new(),
            };
            self.unsupported_tail(rule, path, head, t);
            return None;
        }
        let is_target = match &tail {
            None => true,
            Some(t) => crate::types::text_eq(t.as_str(), "target"),
        };
        if is_target {
            return bound.target(&self.interner);
        }
        let tail_name = match tail {
            Some(t) => t,
            None => String::new(),
        };
        match bound {
            Bound::Event(event) => {
                let schema = match resolve_event(event.event_type.as_str()) {
                    Some(s) => s,
                    None => {
                        return None;
                    },
                };
                match resolve_metric_path(EventOrBindingType::Event(&event.event_type), tail_name.as_str()) {
                    None => {
                        self.unsupported_tail(rule, path, head, tail_name);
                        None
                    },
                    Some((field_idx, field_ty)) => {
                        let is_scope_field = matches!(field_ty, FieldType::ScopeId(_));
                        let mut is_routing_path = false;
                        let mut k: usize = 0;
                        while k < schema.routing_paths.len()
                            invariant
                                0 <= k <= schema.routing_paths@.len(),
                                is_routing_path == routes_to(schema.routing_paths@.take(k as int), tail_name@),
                            decreases schema.routing_paths@.len() - k,
                        {
                            let ghost t0 = schema.routing_paths@.take(k as int);
                            let ghost t1 = schema.routing_paths@.take(k + 1);
                            if crate::types::text_eq(schema.routing_paths[k].path, tail_name.as_str()) {
                                is_routing_path = true;
                            }
                            proof {
                                assert(t1.len() == k + 1 && t1[k as int] == schema.routing_paths@[k as int]);
                                assert forall|j: int| 0 <= j < k implies t1[j] == t0[j] by {}
                                if routes_to(t0, tail_name@) {
                                    let j = choose|j: int| 0 <= j < t0.len() && (#[trigger] t0[j]).path@ == tail_name@;
                                    assert(t1[j] == t0[j]);
                                }
                                if routes_to(t1, tail_name@) {
                                    let j = choose|j: int| 0 <= j < t1.len() && (#[trigger] t1[j]).path@ == tail_name@;
                                    if j < k {
                                        assert(t0[j] == t1[j]);
                                    }
                                }
                            }
                            k = k + 1;
                        }
                        proof {
                            assert(schema.routing_paths@.take(schema.routing_paths@.len() as int) =~= schema.routing_paths@);
                        }
                        if !(is_routing_path || is_scope_field) {
                            self.unsupported_tail(rule, path, head, tail_name);
                            return None;
                        }
                        match event.field(field_idx) {
                            Some(key) => self.interner.resolve(key),
                            None => None,
                        }
                    },
                }
            },
            Bound::Cause(_) | Bound::Problem(_) => {
                self.unsupported_tail(rule, path, head, tail_name);
                None
            },
        }
    }

    /// The evidence-edge endpoints of the named bindings that are bound.
    fn evidence_endpoints(&self, rule: &RuleInstance, evidence: &Vec<Symbol>, bindings: &Vec<Binding>) -> (r: Vec<EdgeEndpoint>)
        ensures
            r@ == endpoints_of(*rule, evidence@, bindings@),
    {
        let mut out: Vec<EdgeEndpoint> = Vec::new();
        let mut i: usize = 0;
        while i < evidence.len()
            invariant
                0 <= i <= evidence@.len(),
                out@ == endpoints_of(*rule, evidence@.take(i as int), bindings@),
            decreases evidence@.len() - i,
        {
            proof {
                assert(evidence@.take(i + 1).drop_last() =~= evidence@.take(i as int));
                assert(evidence@.take(i + 1).last() == evidence@[i as int]);
            }
            match bound_of_name(rule, evidence[i].as_str(), bindings) {
                Some(b) => out.push(b.endpoint()),
                None => {},
            }
            i = i + 1;
        }
        proof {
            assert(evidence@.take(evidence@.len() as int) =~= evidence@);
        }
        out
    }

    /// Runs a body's intents in order.
    fn exec_intents(
        &mut self,
        intents: &'img Vec<Intent>,
        rule: &'img RuleInstance,
        bindings: &Vec<Binding>,
        anchor: &Bound,
        scope: ScopeId,
        budget: usize,
    ) -> (rest: usize)
        requires
            old(self).wf(),
        ensures
            final(self).evolved_from(*old(self)),
            final(self).store_view().pending_view() == old(self).store_view().pending_view(),
            final(self).late_view() == old(self).late_view(),
            final(self).finished == old(self).finished,
            rest <= budget,
        decreases budget, 4nat,
    {
        let mut budget_left = budget;
        let mut i: usize = 0;
        while i < intents.len()
            invariant
                0 <= i <= intents@.len(),
                budget_left <= budget,
                self.evolved_from(*old(self)),
                self.store_view().pending_view() == old(self).store_view().pending_view(),
                self.late_side_output@ == old(self).late_side_output@,
                self.finished == old(self).finished,
            decreases intents@.len() - i,
        {
            budget_left = match &intents[i] {
                Intent::InferCause { cause, target, weight, evidence, provenance_key, .. } => {
                    match self.exec_infer(rule, cause, target, *weight, evidence, provenance_key, bindings, anchor, scope) {
                        Some(mutation) => self.after_infer(&mutation, scope, budget_left),
                        None => budget_left,
                    }
                },
                Intent::EmitProblem { problem, target, severity, evidence, sarif_id, .. } => {
                    match self.exec_emit_problem(rule, problem, target, *severity, evidence, sarif_id, bindings, scope) {
                        Some(snapshot) => self.on_problem_emission(&snapshot, scope, budget_left),
                        None => budget_left,
                    }
                },
                Intent::EmitAction { kind, arg, target, reason, evidence } => {
                    self.exec_action(rule, *kind, arg, target, reason, evidence, bindings);
                    budget_left
                },
                Intent::SupersedeProblem { problem, target } => {
                    self.exec_supersede(rule, problem, target, bindings, scope);
                    budget_left
                },
                Intent::MarkAmbiguous { causes, target } => {
                    self.exec_mark_ambiguous(rule, causes, target, bindings, scope);
                    budget_left
                },
            };
            i = i + 1;
        }
        budget_left
    }

    /// `infer Cause(K)` in the rule's partition: the target path is
    /// resolved (else `UnresolvedTarget`), then provenance dedup, the
    /// clamped confidence change and the evidence edges. The mutated cause
    /// comes back for the rules anchored on `K` (see [`Engine::after_infer`]).
    fn exec_infer(
        &mut self,
        rule: &'img RuleInstance,
        cause: &CauseKind,
        target_path: &MetricPath,
        weight: Weight,
        evidence: &Vec<Symbol>,
        provenance_key: &ProvKey,
        bindings: &Vec<Binding>,
        anchor: &Bound,
        scope: ScopeId,
    ) -> (m: Option<CauseSnapshot>)
        requires
            old(self).wf(),
        ensures
            final(self).evolved_from(*old(self)),
            final(self).store_view().pending_view() == old(self).store_view().pending_view(),
            final(self).late_view() == old(self).late_view(),
            final(self).finished == old(self).finished,
            final(self).touched_view() == old(self).touched_view(),
            match target_scope(*rule, target_path@, bindings@, old(self).interned_view()) {
                None => {
                    &&& m is None
                    &&& final(self).store_view() == old(self).store_view()
                    &&& final(self).diagnostics_view().len() > 0
                    &&& final(self).diagnostics_view().last() matches EngineDiagnostic::UnresolvedTarget { rule: rid, path: p }
                        && rid@ == rule.id@ && p@ == target_path@
                },
                Some(t) => {
                    let ps0 = old(self).store_view().partitions_view();
                    let ps1 = final(self).store_view().partitions_view();
                    let key = infer_key(
                        *provenance_key,
                        t,
                        crate::eval::binding::bound_time(*anchor),
                        old(self).store_view().limits_view().dedup_window,
                    );
                    let max = old(self).store_view().limits_view().max_causes_per_scope as int;
                    &&& exists|fid: NodeId|
                        #[trigger] infer_step(
                            ps0,
                            ps1,
                            scope,
                            cause@,
                            t,
                            key,
                            weight,
                            crate::eval::binding::bound_time(*anchor),
                            endpoints_of(*rule, evidence@, bindings@),
                            max,
                            fid,
                        )
                    &&& (m is Some <==> infer_applies(ps0, scope, cause@, t, key, max))
                    &&& m matches Some(c) ==> c.kind@ == cause@ && c.target == t && exists|j: int|
                        0 <= j < causes_in(ps1, scope).len() && shows_mutation(#[trigger] causes_in(ps1, scope)[j], c)
                },
            },
    {
        match self.resolve_target(rule, target_path, bindings) {
            Some(t) => self.infer_at(rule, cause, t, weight, evidence, provenance_key, bindings, anchor, scope),
            None => {
                self.diag(EngineDiagnostic::UnresolvedTarget { rule: rule.id.duplicate(), path: target_path.duplicate() });
                None
            },
        }
    }

    /// The infer itself on the resolved target `t` (see [`infer_step`]).
    #[verifier::rlimit(60)]
    #[verifier::spinoff_prover]
    fn infer_at(
        &mut self,
        rule: &'img RuleInstance,
        cause: &CauseKind,
        t: ScopeId,
        weight: Weight,
        evidence: &Vec<Symbol>,
        provenance_key: &ProvKey,
        bindings: &Vec<Binding>,
        anchor: &Bound,
        scope: ScopeId,
    ) -> (m: Option<CauseSnapshot>)
        requires
            old(self).wf(),
        ensures
            final(self).evolved_from(*old(self)),
            final(self).store_view().pending_view() == old(self).store_view().pending_view(),
            final(self).late_view() == old(self).late_view(),
            final(self).finished == old(self).finished,
            final(self).touched_view() == old(self).touched_view(),
            exists|fid: NodeId|
                #[trigger] infer_step(
                    old(self).store_view().partitions_view(),
                    final(self).store_view().partitions_view(),
                    scope,
                    cause@,
                    t,
                    infer_key(
                        *provenance_key,
                        t,
                        crate::eval::binding::bound_time(*anchor),
                        old(self).store_view().limits_view().dedup_window,
                    ),
                    weight,
                    crate::eval::binding::bound_time(*anchor),
                    endpoints_of(*rule, evidence@, bindings@),
                    old(self).store_view().limits_view().max_causes_per_scope as int,
                    fid,
                ),
            m is Some <==> infer_applies(
                old(self).store_view().partitions_view(),
                scope,
                cause@,
                t,
                infer_key(
                    *provenance_key,
                    t,
                    crate::eval::binding::bound_time(*anchor),
                    old(self).store_view().limits_view().dedup_window,
                ),
                old(self).store_view().limits_view().max_causes_per_scope as int,
            ),
            match m {
                Some(c) => c.kind@ == cause@ && c.target == t && exists|j: int|
                    0 <= j < causes_in(final(self).store_view().partitions_view(), scope).len() && shows_mutation(
                        #[trigger] causes_in(final(self).store_view().partitions_view(), scope)[j],
                        c,
                    ),
                None => true,
            },
    {
        let target = t;
        let anchor_time = anchor.time();
        let dedup_window = self.store.limits().dedup_window;
        let key = RuntimeProvKey {
            key: ProvKey {
                rule: provenance_key.rule.duplicate(),
                cause: provenance_key.cause.duplicate(),
                target_expr_hash: mix_target(provenance_key.target_expr_hash, target.hash_key()),
            },
            window_id: window_id(anchor_time, dedup_window),
        };
        let endpoints = self.evidence_endpoints(rule, evidence, bindings);
        let ghost pre = *self;
        assert(pre == *old(self));
        let ghost kv = prov_view(key);
        let max_causes = self.store.limits().max_causes_per_scope;
        let candidate_id = self.next_node_id.wrapping_add(1);
        let fresh = NodeId::new(candidate_id);
        let mut part = self.store.take_partition(scope);
        let outcome = part.apply_infer(cause, target, key, weight, anchor_time, &endpoints, max_causes, fresh);
        self.store.put_partition(scope, part);
        proof {
            assert(kv == infer_key(*provenance_key, target, anchor_time, dedup_window)) by {
                reveal(infer_key);
            }
            assert(infer_step(
                pre.store_view().partitions_view(),
                self.store_view().partitions_view(),
                scope,
                cause@,
                target,
                kv,
                weight,
                anchor_time,
                endpoints@,
                pre.store_view().limits_view().max_causes_per_scope as int,
                fresh,
            ));
        }
        let ghost ps1 = self.store_view().partitions_view();
        let ghost applies = infer_applies(
            pre.store_view().partitions_view(),
            scope,
            cause@,
            target,
            kv,
            max_causes as int,
        );
        match outcome {
            InferOutcome::CapacityExceeded => {
                assert(!applies);
                self.diag(EngineDiagnostic::CauseCapacity { scope });
                assert(self.store_view().partitions_view() == ps1);
                assert(infer_step(
                    old(self).store_view().partitions_view(),
                    self.store_view().partitions_view(),
                    scope,
                    cause@,
                    target,
                    kv,
                    weight,
                    anchor_time,
                    endpoints@,
                    old(self).store_view().limits_view().max_causes_per_scope as int,
                    fresh,
                ));
                assert(endpoints@ == endpoints_of(*rule, evidence@, bindings@));
                assert(!infer_applies(
                    old(self).store_view().partitions_view(),
                    scope,
                    cause@,
                    target,
                    infer_key(*provenance_key, target, crate::eval::binding::bound_time(*anchor), old(self).store_view().limits_view().dedup_window),
                    old(self).store_view().limits_view().max_causes_per_scope as int,
                ));
                assert(exists|fid: NodeId| #[trigger] infer_step(
                    old(self).store_view().partitions_view(),
                    self.store_view().partitions_view(),
                    scope,
                    cause@,
                    target,
                    infer_key(*provenance_key, target, crate::eval::binding::bound_time(*anchor), old(self).store_view().limits_view().dedup_window),
                    weight,
                    crate::eval::binding::bound_time(*anchor),
                    endpoints_of(*rule, evidence@, bindings@),
                    old(self).store_view().limits_view().max_causes_per_scope as int,
                    fid,
                ));
                None
            },
            InferOutcome::Duplicate => {
                assert(!applies);
                None
            },
            InferOutcome::Applied { node, created, time, confidence } => {
                assert(applies);
                if created {
                    self.next_node_id = candidate_id;
                }
                let snap = CauseSnapshot { node, kind: cause.duplicate(), target, time, confidence };
                proof {
                    let s0 = causes_in(pre.store_view().partitions_view(), scope);
                    let j = if has_cause(s0, cause@, target) {
                        cause_at(s0, cause@, target)
                    } else {
                        s0.len() as int
                    };
                    assert(0 <= j < causes_in(ps1, scope).len());
                    assert(shows_mutation(causes_in(ps1, scope)[j], snap));
                    assert(self.store_view().partitions_view() == ps1);
                }
                Some(snap)
            },
        }
    }

    /// What follows an applied infer: the decision rules anchored on the
    /// cause's kind and ambiguity synthesis, then, for a cause on a wider
    /// target, the roll-up into the target's partition and the rules
    /// anchored on the rolled-up cause.
    fn after_infer(&mut self, mutation: &CauseSnapshot, scope: ScopeId, budget: usize) -> (rest: usize)
        requires
            old(self).wf(),
        ensures
            final(self).evolved_from(*old(self)),
            final(self).store_view().pending_view() == old(self).store_view().pending_view(),
            final(self).late_view() == old(self).late_view(),
            final(self).finished == old(self).finished,
            rest <= budget,
        decreases budget, 3nat,
    {
        let target = mutation.target;
        let mut rest = self.on_confidence_mutation(mutation, scope, budget);
        if !scope.same(&target) && scope.scope_type().is_subsumed_by(target.scope_type()) {
            match self.rollup_cause_to_parent(&mutation.kind, target, scope) {
                Some(parent) => {
                    rest = self.on_confidence_mutation(&parent, target, rest);
                },
                None => {},
            }
        }
        rest
    }

    /// What `c` contributes to the roll-up of `(cause, target)` into
    /// `parent` (see [`child_conf`]).
    fn child_confidence(&self, c: ScopeId, parent: ScopeId, cause: &CauseKind, target: ScopeId) -> (r: Confidence)
        requires
            self.wf(),
        ensures
            r.val() == child_conf(self.store_view().partitions_view(), c, parent, cause@, target),
    {
        let ghost ps = self.store_view().partitions_view();
        if !c.same(&parent) && c.scope_type().is_subsumed_by(parent.scope_type()) {
            match self.store.partition(c) {
                Some(part) => {
                    proof {
                        assert(causes_in(ps, c) == part.causes_view());
                    }
                    match part.cause(cause, target) {
                        Some(node) => node.confidence,
                        None => Confidence::min_value(),
                    }
                },
                None => Confidence::min_value(),
            }
        } else {
            Confidence::min_value()
        }
    }

    /// Cross-scope roll-up: the parent partition's `(K, target)` confidence
    /// becomes the largest over the child partitions that inferred it, with
    /// one `RollsUp` edge from the child's node; the rolled-up cause comes
    /// back for the rules anchored on it.
    fn rollup_cause_to_parent(&mut self, cause: &CauseKind, target: ScopeId, child_scope: ScopeId) -> (m: Option<CauseSnapshot>)
        requires
            old(self).wf(),
        ensures
            final(self).evolved_from(*old(self)),
            final(self).store_view().pending_view() == old(self).store_view().pending_view(),
            final(self).late_view() == old(self).late_view(),
            final(self).finished == old(self).finished,
            exists|fresh: NodeId|
                #[trigger] rollup_step(
                    old(self).store_view().partitions_view(),
                    final(self).store_view().partitions_view(),
                    target,
                    cause@,
                    target,
                    rollup_max(old(self).store_view().partitions_view(), old(self).touched@, target, cause@, target),
                    EventTime { ms: old(self).store_view().watermark_view() },
                    old(self).store_view().limits_view().max_causes_per_scope as int,
                    fresh,
                    cause_node_in(old(self).store_view().partitions_view(), child_scope, cause@, target),
                ),
            ({
                let s = causes_in(old(self).store_view().partitions_view(), target);
                m is None <==> !has_cause(s, cause@, target) && s.len() >= old(self).store_view().limits_view().max_causes_per_scope
            }),
            m matches Some(c) ==> c.kind@ == cause@ && c.target == target && c.confidence.val() == rollup_max(
                old(self).store_view().partitions_view(),
                old(self).touched@,
                target,
                cause@,
                target,
            ),
    {
        let parent_scope = target;
        let mut max_conf = Confidence::min_value();
        let mut i: usize = 0;
        while i < self.touched.len()
            invariant
                0 <= i <= self.touched@.len(),
                self.wf(),
                *self == *old(self),
                max_conf.val() == rollup_max(
                    self.store_view().partitions_view(),
                    self.touched@.take(i as int),
                    parent_scope,
                    cause@,
                    target,
                ),
            decreases self.touched@.len() - i,
        {
            let scope = self.touched[i];
            proof {
                assert(self.touched@.take(i + 1).drop_last() =~= self.touched@.take(i as int));
                assert(self.touched@.take(i + 1).last() == scope);
            }
            max_conf = max_conf.max(self.child_confidence(scope, parent_scope, cause, target));
            i = i + 1;
        }
        proof {
            assert(self.touched@.take(self.touched@.len() as int) =~= self.touched@);
        }
        let child_node: Option<NodeId> = match self.store.partition(child_scope) {
            Some(part) => match part.cause(cause, target) {
                Some(node) => Some(node.id),
                None => None,
            },
            None => None,
        };
        self.touch(parent_scope);
        let max_causes = self.store.limits().max_causes_per_scope;
        let candidate_id = self.next_node_id.wrapping_add(1);
        let fresh = NodeId::new(candidate_id);
        let wm = self.store.watermark();
        let mut part = self.store.take_partition(parent_scope);
        let r = part.set_rollup(cause, target, max_conf, wm, max_causes, fresh);
        let mutation = match r {
            None => {
                self.store.put_partition(parent_scope, part);
                self.diag(EngineDiagnostic::CauseCapacity { scope: parent_scope });
                proof {
                    assert(rollup_step(
                        old(self).store_view().partitions_view(),
                        self.store_view().partitions_view(),
                        target,
                        cause@,
                        target,
                        rollup_max(old(self).store_view().partitions_view(), old(self).touched@, target, cause@, target),
                        EventTime { ms: old(self).store_view().watermark_view() },
                        old(self).store_view().limits_view().max_causes_per_scope as int,
                        fresh,
                        cause_node_in(old(self).store_view().partitions_view(), child_scope, cause@, target),
                    ));
                }
                return None;
            },
            Some((id, time, created)) => {
                match child_node {
                    Some(src) => {
                        part.add_edge_once(EvidenceEdge { kind: EvidenceEdgeKind::RollsUp, src: EdgeEndpoint::Node(src), dst: id });
                    },
                    None => {},
                }
                self.store.put_partition(parent_scope, part);
                if created {
                    self.next_node_id = candidate_id;
                }
                CauseSnapshot { node: id, kind: cause.duplicate(), target, time, confidence: max_conf }
            },
        };
        proof {
            assert(rollup_step(
                old(self).store_view().partitions_view(),
                self.store_view().partitions_view(),
                target,
                cause@,
                target,
                rollup_max(old(self).store_view().partitions_view(), old(self).touched@, target, cause@, target),
                EventTime { ms: old(self).store_view().watermark_view() },
                old(self).store_view().limits_view().max_causes_per_scope as int,
                fresh,
                cause_node_in(old(self).store_view().partitions_view(), child_scope, cause@, target),
            ));
        }
        Some(mutation)
    }

    /// A cause's confidence changed: the decision rules anchored on its
    /// kind whose anchor predicate is `True` run, then ambiguity synthesis.
    fn on_confidence_mutation(&mut self, snapshot: &CauseSnapshot, scope: ScopeId, budget: usize) -> (rest: usize)
        requires
            old(self).wf(),
        ensures
            final(self).evolved_from(*old(self)),
            final(self).store_view().pending_view() == old(self).store_view().pending_view(),
            final(self).late_view() == old(self).late_view(),
            final(self).finished == old(self).finished,
            rest <= budget,
        decreases budget, 1nat,
    {
        let img: &'img ProgramImage = self.image;
        let rules = img.rules_for(AnchorKey::Cause(&snapshot.kind), scope.scope_type(), RuleKind::Decision);
        let mut rest = budget;
        let mut i: usize = 0;
        while i < rules.len()
            invariant
                0 <= i <= rules@.len(),
                rest <= budget,
                self.evolved_from(*old(self)),
                self.store_view().pending_view() == old(self).store_view().pending_view(),
                self.late_side_output@ == old(self).late_side_output@,
                self.finished == old(self).finished,
            decreases rules@.len() - i,
        {
            let rule: &'img RuleInstance = rules[i];
            let mut bindings: Vec<Binding> = Vec::new();
            bindings.push(Binding::Bound(Bound::Cause(snapshot.duplicate())));
            let fires = match self.eval_pred(rule, &rule.anchor.predicate, &bindings, scope) {
                Some(t) => t.is_true(),
                None => false,
            };
            if fires {
                rest = self.run_rule(rule, Bound::Cause(snapshot.duplicate()), scope, rest);
            }
            i = i + 1;
        }
        self.synthesize_ambiguity(snapshot, scope);
        rest
    }

    /// Ambiguity over the mutually exclusive groups (ruleset groups plus
    /// catalog defaults): two probable causes within 15 points of each
    /// other over the same target open an ambiguity, emit an
    /// `AmbiguousDiagnosis` problem and a `mark_ambiguous` action; once one
    /// is confirmed or they separate, the ambiguity is resolved.
    fn synthesize_ambiguity(&mut self, snapshot: &CauseSnapshot, scope: ScopeId)
        requires
            old(self).wf(),
        ensures
            final(self).evolved_from(*old(self)),
            final(self).store_view().pending_view() == old(self).store_view().pending_view(),
            final(self).late_view() == old(self).late_view(),
            final(self).finished == old(self).finished,
            only_verdicts_changed(old(self).store_view().partitions_view(), final(self).store_view().partitions_view(), scope),
            weigh_all(
                old(self).store_view().partitions_view(),
                final(self).store_view().partitions_view(),
                old(self).handed_view(),
                final(self).handed_view(),
                scope,
                snapshot.kind@,
                pair_others(
                    merged_groups(
                        groups_names(old(self).image.exclusivity@),
                        crate::catalog::tables::exclusivity_table().len() as int,
                    ),
                    snapshot.kind@,
                ),
                snapshot.target,
                snapshot.confidence.val() as int,
                old(self).store_view().watermark_view(),
            ),
    {
        let img: &'img ProgramImage = self.image;
        let target = snapshot.target;
        let wm = self.store.watermark();
        let groups = effective_exclusivity_groups(img);
        let ghost gn = groups_names(groups@);
        let ghost kind = snapshot.kind@;
        let ghost c1 = snapshot.confidence.val() as int;
        let ghost ps0 = self.store_view().partitions_view();
        let ghost h0 = self.handed_view();
        proof {
            assert(gn.take(0) =~= Seq::<Seq<Seq<char>>>::empty());
            assert(pair_others(gn.take(0), kind) =~= Seq::<Seq<char>>::empty());
        }
        let mut g: usize = 0;
        while g < groups.len()
            invariant
                0 <= g <= groups@.len(),
                self.evolved_from(*old(self)),
                self.store_view().pending_view() == old(self).store_view().pending_view(),
                self.late_side_output@ == old(self).late_side_output@,
                self.finished == old(self).finished,
                img == self.image,
                only_verdicts_changed(old(self).store_view().partitions_view(), self.store_view().partitions_view(), scope),
                gn == groups_names(groups@),
                kind == snapshot.kind@,
                c1 == snapshot.confidence.val() as int,
                target == snapshot.target,
                ps0 == old(self).store_view().partitions_view(),
                wm.ms == old(self).store_view().watermark_view(),
                weigh_all(ps0, self.store_view().partitions_view(), h0, self.handed_view(), scope, kind, pair_others(gn.take(g as int), kind), target, c1, wm.ms),
            decreases groups@.len() - g,
        {
            let causes = &groups[g].causes;
            let mut member = false;
            let mut m: usize = 0;
            while m < causes.len()
                invariant
                    0 <= m <= causes@.len(),
                    kind == snapshot.kind@,
                    member == exists|j: int| 0 <= j < m && (#[trigger] causes@[j])@ == kind,
                decreases causes@.len() - m,
            {
                if causes[m].same(&snapshot.kind) {
                    member = true;
                }
                m = m + 1;
            }
            let ghost names = gn[g as int];
            let ghost acc = pair_others(gn.take(g as int), kind);
            proof {
                assert(names == group_names(groups@[g as int]));
                assert(gn.take(g + 1).drop_last() =~= gn.take(g as int));
                assert(gn.take(g + 1).last() == names);
                if member {
                    let j = choose|j: int| 0 <= j < causes@.len() && (#[trigger] causes@[j])@ == kind;
                    assert(names[j] == kind);
                    assert(names.contains(kind));
                } else {
                    if names.contains(kind) {
                        let j = choose|j: int| 0 <= j < names.len() && names[j] == kind;
                        assert(causes@[j]@ == kind);
                    }
                }
                assert(names.take(0) =~= Seq::<Seq<char>>::empty());
                assert(acc + without(names.take(0), kind) =~= acc);
            }
            if member {
                let mut o: usize = 0;
                while o < causes.len()
                    invariant
                        0 <= o <= causes@.len(),
                        self.evolved_from(*old(self)),
                        self.store_view().pending_view() == old(self).store_view().pending_view(),
                self.store_view().pending_view() == old(self).store_view().pending_view(),
                        self.late_side_output@ == old(self).late_side_output@,
                        self.finished == old(self).finished,
                        img == self.image,
                only_verdicts_changed(old(self).store_view().partitions_view(), self.store_view().partitions_view(), scope),
                        names == group_names(groups@[g as int]),
                        causes@ == groups@[g as int].causes@,
                        kind == snapshot.kind@,
                        c1 == snapshot.confidence.val() as int,
                        target == snapshot.target,
                        wm.ms == old(self).store_view().watermark_view(),
                        weigh_all(ps0, self.store_view().partitions_view(), h0, self.handed_view(), scope, kind, acc + without(names.take(o as int), kind), target, c1, wm.ms),
                    decreases causes@.len() - o,
                {
                    let other = &causes[o];
                    let ghost cur = self.store_view().partitions_view();
                    let ghost hcur = self.handed_view();
                    let ghost prev_list = acc + without(names.take(o as int), kind);
                    proof {
                        assert(names.take(o + 1).drop_last() =~= names.take(o as int));
                        assert(names.take(o + 1).last() == other@);
                    }
                    if !other.same(&snapshot.kind) {
                        self.weigh_pair(snapshot, other, scope, target, wm);
                        proof {
                            let nl = acc + without(names.take(o + 1), kind);
                            assert(nl =~= prev_list.push(other@));
                            assert(nl.drop_last() =~= prev_list);
                            assert(weigh_all(ps0, cur, h0, hcur, scope, kind, nl.drop_last(), target, c1, wm.ms));
                            assert(nl.last() == other@);
                            assert(weigh_step(
                                cur,
                                self.store_view().partitions_view(),
                                scope,
                                pair_first(kind, nl.last()),
                                pair_second(kind, nl.last()),
                                target,
                                c1,
                                conf_in(cur, scope, nl.last(), target),
                                wm.ms,
                            ));
                            let new_ps = self.store_view().partitions_view();
                            let new_h = self.handed_view();
                            assert(handed_step(
                                hcur,
                                new_h,
                                cur,
                                scope,
                                pair_first(kind, nl.last()),
                                pair_second(kind, nl.last()),
                                target,
                                c1,
                                conf_in(cur, scope, nl.last(), target),
                            ));
                            assert(nl.len() > 0);
                            assert(weigh_all(ps0, new_ps, h0, new_h, scope, kind, nl, target, c1, wm.ms));
                        }
                    } else {
                        proof {
                            assert(acc + without(names.take(o + 1), kind) =~= prev_list);
                        }
                    }
                    o = o + 1;
                }
                proof {
                    assert(names.take(causes@.len() as int) =~= names);
                    assert(pair_others(gn.take(g + 1), kind) =~= acc + without(names, kind));
                }
            } else {
                proof {
                    assert(pair_others(gn.take(g + 1), kind) =~= acc);
                }
            }
            g = g + 1;
        }
        proof {
            assert(gn.take(groups@.len() as int) =~= gn);
        }
    }

    /// The confidence of `(kind, target)` in `scope`'s partition (see
    /// [`conf_in`]).
    fn confidence_in(&self, scope: ScopeId, kind: &CauseKind, target: ScopeId) -> (r: Confidence)
        requires
            self.wf(),
        ensures
            r.val() == conf_in(self.store_view().partitions_view(), scope, kind@, target),
    {
        let ghost ps = self.store_view().partitions_view();
        match self.store.partition(scope) {
            Some(part) => {
                proof {
                    assert(causes_in(ps, scope) == part.causes_view());
                }
                match part.cause(kind, target) {
                    Some(n) => n.confidence,
                    None => Confidence::min_value(),
                }
            },
            None => Confidence::min_value(),
        }
    }

    fn weigh_pair(&mut self, snapshot: &CauseSnapshot, other: &CauseKind, scope: ScopeId, target: ScopeId, wm: EventTime)
        requires
            old(self).wf(),
        ensures
            final(self).evolved_from(*old(self)),
            final(self).store_view().pending_view() == old(self).store_view().pending_view(),
            final(self).late_view() == old(self).late_view(),
            final(self).finished == old(self).finished,
            weigh_step(
                old(self).store_view().partitions_view(),
                final(self).store_view().partitions_view(),
                scope,
                if !crate::types::chars_lt(other@, snapshot.kind@) {
                    snapshot.kind@
                } else {
                    other@
                },
                if !crate::types::chars_lt(other@, snapshot.kind@) {
                    other@
                } else {
                    snapshot.kind@
                },
                target,
                snapshot.confidence.val() as int,
                conf_in(old(self).store_view().partitions_view(), scope, other@, target),
                wm.ms,
            ),
            handed_step(
                old(self).handed_view(),
                final(self).handed_view(),
                old(self).store_view().partitions_view(),
                scope,
                if !crate::types::chars_lt(other@, snapshot.kind@) {
                    snapshot.kind@
                } else {
                    other@
                },
                if !crate::types::chars_lt(other@, snapshot.kind@) {
                    other@
                } else {
                    snapshot.kind@
                },
                target,
                snapshot.confidence.val() as int,
                conf_in(old(self).store_view().partitions_view(), scope, other@, target),
            ),
    {
        let (first, second) = if !other.precedes(&snapshot.kind) {
            (snapshot.kind.duplicate(), other.duplicate())
        } else {
            (other.duplicate(), snapshot.kind.duplicate())
        };
        let c1 = snapshot.confidence;
        let c2 = self.confidence_in(scope, other, target);
        let v1 = c1.value();
        let v2 = c2.value();
        let diff = if v1 >= v2 {
            v1 - v2
        } else {
            v2 - v1
        };
        let close = diff < 15;
        let both_probable = c1.is_probable() && c2.is_probable();
        if both_probable && close {
            let amb_node_id = self.next_node_id.wrapping_add(1);
            let problem_node_id = amb_node_id.wrapping_add(1);
            let mut part = self.store.take_partition(scope);
            let ghost a0 = part.ambiguities_view();
            proof {
                assert(a0 == ambiguities_in(old(self).store_view().partitions_view(), scope));
            }
            let other_node: Option<NodeId> = match part.cause(other, target) {
                Some(n) => Some(n.id),
                None => None,
            };
            let created = part.open_ambiguity(&first, &second, target, NodeId::new(amb_node_id));
            proof {
                assert(created == opens_ambiguity(
                    old(self).store_view().partitions_view(),
                    scope,
                    first@,
                    second@,
                    target,
                    c1.val() as int,
                    c2.val() as int,
                ));
            }
            if created {
                let mut evidence: Vec<NodeId> = Vec::new();
                evidence.push(snapshot.node);
                match other_node {
                    Some(n) => if n != snapshot.node {
                        evidence.push(n);
                    },
                    None => {},
                }
                part.push_problem(
                    ProblemNode {
                        id: NodeId::new(problem_node_id),
                        kind: ProblemKind::new("AmbiguousDiagnosis"),
                        target,
                        time: wm,
                        severity: Severity::Medium,
                        evidence,
                        sarif_id: SarifId::new("ap_ambiguous"),
                        superseded: false,
                    },
                );
            }
            self.store.put_partition(scope, part);
            proof {
                let ps0 = old(self).store_view().partitions_view();
                let ps1 = self.store_view().partitions_view();
                if created {
                    assert(ambiguities_in(ps1, scope).drop_last() =~= ambiguities_in(ps0, scope));
                    assert(problems_in(ps1, scope).drop_last() =~= problems_in(ps0, scope));
                }
            }
            if created {
                self.next_node_id = problem_node_id;
                let intent = ActionIntent {
                    kind: ActionKind::MarkAmbiguous,
                    rule: RuleId::new(self.image.ruleset_id.as_str()),
                    arg: None,
                    target: Some(target),
                    target_path: None,
                    reason: None,
                    evidence: Vec::new(),
                    causes: Some((first, second)),
                };
                let mode = self.mode;
                proof {
                    self.handed@ = self.handed@.push(intent);
                    assert(self.handed@.drop_last() =~= old(self).handed@);
                }
                self.sink.emit(intent, mode, wm);
            }
        } else {
            let resolvable = c1.max(c2).is_confirmed() || !close;
            if resolvable {
                let mut part = self.store.take_partition(scope);
                part.resolve_ambiguity(&first, &second, target);
                self.store.put_partition(scope, part);
            }
        }
    }

    /// `emit Problem(P)`: cooldown dedup per `(rule, problem, target)` and
    /// append-only emission at the watermark; the emitted problem comes back
    /// for the decision rules anchored on `P`.
    fn exec_emit_problem(
        &mut self,
        rule: &'img RuleInstance,
        problem: &ProblemKind,
        target_path: &Option<MetricPath>,
        severity: Severity,
        evidence: &Vec<Symbol>,
        sarif_id: &SarifId,
        bindings: &Vec<Binding>,
        scope: ScopeId,
    ) -> (m: Option<ProblemSnapshot>)
        requires
            old(self).wf(),
        ensures
            final(self).evolved_from(*old(self)),
            final(self).store_view().pending_view() == old(self).store_view().pending_view(),
            final(self).late_view() == old(self).late_view(),
            final(self).finished == old(self).finished,
            match (match *target_path {
                Some(p) => target_scope(*rule, p@, bindings@, old(self).interned_view()),
                None => Some(scope),
            }) {
                None => {
                    &&& m is None
                    &&& final(self).store_view() == old(self).store_view()
                    &&& final(self).diagnostics_view().len() > 0
                    &&& final(self).diagnostics_view().last() matches EngineDiagnostic::UnresolvedTarget { rule: rid, .. }
                        && rid@ == rule.id@
                },
                Some(t) => {
                    &&& emission_step(
                        old(self).store_view().partitions_view(),
                        final(self).store_view().partitions_view(),
                        scope,
                        rule.id@,
                        problem@,
                        t,
                        severity,
                        evidence_nodes_of(*rule, evidence@, bindings@),
                        old(self).store_view().watermark_view(),
                        old(self).cooldown_view().ms_of(),
                    )
                    &&& (m is Some <==> !within_cooldown(
                        emitted_in(old(self).store_view().partitions_view(), scope),
                        rule.id@,
                        problem@,
                        t,
                        old(self).store_view().watermark_view(),
                        old(self).cooldown_view().ms_of(),
                    ))
                    &&& m matches Some(sn) ==> sn.kind@ == problem@ && sn.target == t && sn.time.ms
                        == old(self).store_view().watermark_view()
                },
            },
    {
        let target = match target_path {
            Some(path) => match self.resolve_target(rule, path, bindings) {
                Some(t) => t,
                None => {
                    self.diag(EngineDiagnostic::UnresolvedTarget { rule: rule.id.duplicate(), path: path.duplicate() });
                    return None;
                },
            },
            None => scope,
        };
        let mut evidence_nodes: Vec<NodeId> = Vec::new();
        let mut i: usize = 0;
        while i < evidence.len()
            invariant
                0 <= i <= evidence@.len(),
                evidence_nodes@ == evidence_nodes_of(*rule, evidence@.take(i as int), bindings@),
            decreases evidence@.len() - i,
        {
            proof {
                assert(evidence@.take(i + 1).drop_last() =~= evidence@.take(i as int));
                assert(evidence@.take(i + 1).last() == evidence@[i as int]);
            }
            match bound_of_name(rule, evidence[i].as_str(), bindings) {
                Some(Bound::Cause(c)) => evidence_nodes.push(c.node),
                Some(Bound::Problem(p)) => evidence_nodes.push(p.node),
                _ => {},
            }
            i = i + 1;
        }
        proof {
            assert(evidence@.take(evidence@.len() as int) =~= evidence@);
        }
        self.record_emission(&rule.id, problem, target, severity, evidence_nodes, sarif_id, scope)
    }

    /// The emission itself (see [`emission_step`]): returns the emitted
    /// problem's snapshot, or `None` inside the cooldown.
    fn record_emission(
        &mut self,
        rule_id: &RuleId,
        problem: &ProblemKind,
        target: ScopeId,
        severity: Severity,
        evidence_nodes: Vec<NodeId>,
        sarif_id: &SarifId,
        scope: ScopeId,
    ) -> (snap: Option<ProblemSnapshot>)
        requires
            old(self).wf(),
        ensures
            final(self).evolved_from(*old(self)),
            final(self).store_view().pending_view() == old(self).store_view().pending_view(),
            final(self).late_view() == old(self).late_view(),
            final(self).finished == old(self).finished,
            final(self).diagnostics_view() == old(self).diagnostics_view(),
            final(self).store_view().watermark_view() == old(self).store_view().watermark_view(),
            emission_step(
                old(self).store_view().partitions_view(),
                final(self).store_view().partitions_view(),
                scope,
                rule_id@,
                problem@,
                target,
                severity,
                evidence_nodes@,
                old(self).store_view().watermark_view(),
                old(self).cooldown_view().ms_of(),
            ),
            snap is None <==> within_cooldown(
                emitted_in(old(self).store_view().partitions_view(), scope),
                rule_id@,
                problem@,
                target,
                old(self).store_view().watermark_view(),
                old(self).cooldown_view().ms_of(),
            ),
            snap matches Some(p) ==> p.kind@ == problem@ && p.target == target && p.time.ms
                == old(self).store_view().watermark_view(),
    {
        let wm = self.store.watermark();
        let cooldown = self.problem_cooldown;
        let node_id = self.next_node_id.wrapping_add(1);
        let mut part = self.store.take_partition(scope);
        let fresh = part.try_mark_emitted(rule_id, problem, target, wm, cooldown);
        if !fresh {
            self.store.put_partition(scope, part);
            return None;
        }
        let ghost ev = evidence_nodes@;
        part.push_problem(
            ProblemNode {
                id: NodeId::new(node_id),
                kind: problem.duplicate(),
                target,
                time: wm,
                severity,
                evidence: evidence_nodes,
                sarif_id: sarif_id.duplicate(),
                superseded: false,
            },
        );
        self.store.put_partition(scope, part);
        self.next_node_id = node_id;
        proof {
            let ps1 = self.store_view().partitions_view();
            assert(problems_in(ps1, scope).drop_last() =~= problems_in(old(self).store_view().partitions_view(), scope));
        }
        Some(ProblemSnapshot { node: NodeId::new(node_id), kind: problem.duplicate(), target, time: wm })
    }

    /// A problem was emitted: the decision rules anchored on its kind whose
    /// anchor predicate is `True` run.
    fn on_problem_emission(&mut self, snapshot: &ProblemSnapshot, scope: ScopeId, budget: usize) -> (rest: usize)
        requires
            old(self).wf(),
        ensures
            final(self).evolved_from(*old(self)),
            final(self).store_view().pending_view() == old(self).store_view().pending_view(),
            final(self).late_view() == old(self).late_view(),
            final(self).finished == old(self).finished,
            rest <= budget,
        decreases budget, 1nat,
    {
        let img: &'img ProgramImage = self.image;
        let rules = img.rules_for(AnchorKey::Problem(&snapshot.kind), scope.scope_type(), RuleKind::Decision);
        let mut rest = budget;
        let mut i: usize = 0;
        while i < rules.len()
            invariant
                0 <= i <= rules@.len(),
                rest <= budget,
                self.evolved_from(*old(self)),
                self.store_view().pending_view() == old(self).store_view().pending_view(),
                self.late_side_output@ == old(self).late_side_output@,
                self.finished == old(self).finished,
            decreases rules@.len() - i,
        {
            let rule: &'img RuleInstance = rules[i];
            let mut bindings: Vec<Binding> = Vec::new();
            bindings.push(Binding::Bound(Bound::Problem(snapshot.duplicate())));
            let fires = match self.eval_pred(rule, &rule.anchor.predicate, &bindings, scope) {
                Some(t) => t.is_true(),
                None => false,
            };
            if fires {
                rest = self.run_rule(rule, Bound::Problem(snapshot.duplicate()), scope, rest);
            }
            i = i + 1;
        }
        rest
    }

    /// `action <kind>(...)`: resolves the target and hands the action to
    /// the sink, which decides its effect by run mode.
    fn exec_action(
        &mut self,
        rule: &RuleInstance,
        kind: ActionKind,
        arg: &Option<Symbol>,
        target_path: &Option<MetricPath>,
        reason: &Option<String>,
        evidence: &Vec<Symbol>,
        bindings: &Vec<Binding>,
    )
        requires
            old(self).wf(),
        ensures
            final(self).evolved_from(*old(self)),
            final(self).store_view().pending_view() == old(self).store_view().pending_view(),
            final(self).store_view() == old(self).store_view(),
            final(self).late_view() == old(self).late_view(),
            final(self).finished == old(self).finished,
            final(self).handed_view().len() > 0,
            ({
                let i = final(self).handed_view().last();
                i.kind == kind && i.rule@ == rule.id@ && i.causes is None
            }),
    {
        let target = match target_path {
            Some(p) => self.resolve_target(rule, p, bindings),
            None => None,
        };
        let intent = ActionIntent {
            kind,
            rule: rule.id.duplicate(),
            arg: arg.clone(),
            target,
            target_path: match target_path {
                Some(p) => Some(p.duplicate()),
                None => None,
            },
            reason: reason.clone(),
            evidence: self.evidence_endpoints(rule, evidence, bindings),
            causes: None,
        };
        let wm = self.store.watermark();
        let mode = self.mode;
        proof {
            self.handed@ = self.handed@.push(intent);
        }
        self.sink.emit(intent, mode, wm);
    }

    /// Lowered `suppress_symptom`: marks the target's problems of that
    /// kind superseded (never deleted).
    fn exec_supersede(&mut self, rule: &RuleInstance, problem: &ProblemKind, target_path: &MetricPath, bindings: &Vec<Binding>, scope: ScopeId)
        requires
            old(self).wf(),
        ensures
            final(self).evolved_from(*old(self)),
            final(self).store_view().pending_view() == old(self).store_view().pending_view(),
            final(self).late_view() == old(self).late_view(),
            final(self).finished == old(self).finished,
    {
        let target = match self.resolve_target(rule, target_path, bindings) {
            Some(t) => t,
            None => {
                self.diag(EngineDiagnostic::UnresolvedTarget { rule: rule.id.duplicate(), path: target_path.duplicate() });
                return;
            },
        };
        let mut part = self.store.take_partition(scope);
        let _marked = part.supersede_problems(problem, target);
        self.store.put_partition(scope, part);
    }

    /// An explicit `mark_ambiguous` intent: opens the ambiguity node (once
    /// per ordered pair and target) and hands the action to the sink.
    fn exec_mark_ambiguous(&mut self, rule: &RuleInstance, causes: &CausePair, target_path: &MetricPath, bindings: &Vec<Binding>, scope: ScopeId)
        requires
            old(self).wf(),
        ensures
            final(self).evolved_from(*old(self)),
            final(self).store_view().pending_view() == old(self).store_view().pending_view(),
            final(self).late_view() == old(self).late_view(),
            final(self).finished == old(self).finished,
            ({
                ||| (final(self).diagnostics_view().len() > 0 && (final(self).diagnostics_view().last() matches EngineDiagnostic::UnresolvedTarget { rule: rid, .. } && rid@ == rule.id@))
                ||| (final(self).handed_view().len() > 0 && final(self).handed_view().last().rule@ == rule.id@ && marks_ambiguity(
                    final(self).handed_view().last(),
                    pair_first(causes.0@, causes.1@),
                    pair_second(causes.0@, causes.1@),
                    final(self).handed_view().last().target->0,
                ))
            }),
    {
        let target = match self.resolve_target(rule, target_path, bindings) {
            Some(t) => t,
            None => {
                self.diag(EngineDiagnostic::UnresolvedTarget { rule: rule.id.duplicate(), path: target_path.duplicate() });
                return;
            },
        };
        let (first, second) = if !causes.1.precedes(&causes.0) {
            (causes.0.duplicate(), causes.1.duplicate())
        } else {
            (causes.1.duplicate(), causes.0.duplicate())
        };
        let node_id = self.next_node_id.wrapping_add(1);
        let mut part = self.store.take_partition(scope);
        let created = part.open_ambiguity(&first, &second, target, NodeId::new(node_id));
        self.store.put_partition(scope, part);
        if created {
            self.next_node_id = node_id;
        }
        let intent = ActionIntent {
            kind: ActionKind::MarkAmbiguous,
            rule: rule.id.duplicate(),
            arg: None,
            target: Some(target),
            target_path: Some(target_path.duplicate()),
            reason: None,
            evidence: Vec::new(),
            causes: Some((first, second)),
        };
        let wm = self.store.watermark();
        let mode = self.mode;
        proof {
            self.handed@ = self.handed@.push(intent);
        }
        self.sink.emit(intent, mode, wm);
    }

    /// The final graph state: every cause of every partition the engine
    /// created, sorted by scope, kind and target; every problem, partitions
    /// in scope order and each partition's problems in emission order, with
    /// the kinds of the causes its evidence cites (each once, in citation
    /// order) and the event fields behind them. The audit log is left
    /// empty (sinks keep their own).
    pub fn graph_snapshot(&self) -> (snap: Snapshot)
        requires
            self.wf(),
        ensures
            causes_in_order(snap.causes@),
            snap.audit@.len() == 0,
            snap.causes@.len() == cause_total(self.store_view().partitions_view(), self.touched_view()),
            forall|i: int|
                0 <= i < snap.causes@.len() ==> from_partitions(
                    #[trigger] snap.causes@[i],
                    self.store_view().partitions_view(),
                    self.touched_view(),
                ),
            forall|a: int, b: int|
                0 <= a < self.touched_view().len() && 0 <= b < causes_in(
                    self.store_view().partitions_view(),
                    self.touched_view()[a],
                ).len() ==> #[trigger] shown_in(
                    snap.causes@,
                    self.touched_view()[a],
                    causes_in(self.store_view().partitions_view(), self.touched_view()[a])[b],
                ),
            snap.problems@.len() == problem_rows(self.store_view().partitions_view(), self.touched_view()).len(),
            forall|i: int|
                0 <= i < snap.problems@.len() ==> shows_problem(
                    #[trigger] snap.problems@[i],
                    problem_rows(self.store_view().partitions_view(), self.touched_view())[i].0,
                    problem_rows(self.store_view().partitions_view(), self.touched_view())[i].1,
                ),
    {
        let mut causes: Vec<CauseView> = Vec::new();
        let mut problems: Vec<ProblemView> = Vec::new();
        let mut t: usize = 0;
        while t < self.touched.len()
            invariant
                0 <= t <= self.touched@.len(),
                self.wf(),
                causes_in_order(causes@),
                causes@.len() == cause_total(self.store_view().partitions_view(), self.touched@.take(t as int)),
                forall|i: int|
                    0 <= i < causes@.len() ==> from_partitions(
                        #[trigger] causes@[i],
                        self.store_view().partitions_view(),
                        self.touched@.take(t as int),
                    ),
                forall|a: int, b: int|
                    0 <= a < t && 0 <= b < causes_in(self.store_view().partitions_view(), self.touched@[a]).len()
                        ==> #[trigger] shown_in(
                        causes@,
                        self.touched@[a],
                        causes_in(self.store_view().partitions_view(), self.touched@[a])[b],
                    ),
                problems@.len() == problem_rows(self.store_view().partitions_view(), self.touched@.take(t as int)).len(),
                forall|i: int|
                    0 <= i < problems@.len() ==> shows_problem(
                        #[trigger] problems@[i],
                        problem_rows(self.store_view().partitions_view(), self.touched@.take(t as int))[i].0,
                        problem_rows(self.store_view().partitions_view(), self.touched@.take(t as int))[i].1,
                    ),
            decreases self.touched@.len() - t,
        {
            let scope = self.touched[t];
            let ghost pv = self.store_view().partitions_view();
            let ghost rows0 = problem_rows(pv, self.touched@.take(t as int));
            let ghost n0 = causes@.len();
            let ghost before = problems@;
            proof {
                assert(self.touched@.take(t + 1).drop_last() =~= self.touched@.take(t as int));
                assert(self.touched@.take(t + 1).last() == scope);
                assert forall|i: int| 0 <= i < causes@.len() implies from_partitions(
                    #[trigger] causes@[i],
                    pv,
                    self.touched@.take(t + 1),
                ) by {
                    let tk0 = self.touched@.take(t as int);
                    let (a, b) = choose|a: int, b: int|
                        0 <= a < tk0.len() && 0 <= b < causes_in(pv, tk0[a]).len() && #[trigger] shows_cause(
                            causes@[i],
                            tk0[a],
                            causes_in(pv, tk0[a])[b],
                        );
                    assert(self.touched@.take(t + 1)[a] == tk0[a]);
                }
            }
            match self.store.partition(scope) {
                Some(part) => {
                    proof {
                        assert(causes_in(pv, scope) == part.causes_view());
                        assert(problems_in(pv, scope) == part.problems_view());
                    }
                    let cs = part.causes();
                    let mut c: usize = 0;
                    while c < cs.len()
                        invariant
                            0 <= c <= cs@.len(),
                            causes_in_order(causes@),
                            causes@.len() == n0 + c,
                            cs@ == causes_in(pv, scope),
                            pv == self.store_view().partitions_view(),
                            0 <= t < self.touched@.len(),
                            scope == self.touched@[t as int],
                            forall|i: int|
                                0 <= i < causes@.len() ==> from_partitions(
                                    #[trigger] causes@[i],
                                    pv,
                                    self.touched@.take(t + 1),
                                ),
                            forall|a: int, b: int|
                                0 <= a < t && 0 <= b < causes_in(pv, self.touched@[a]).len() ==> #[trigger] shown_in(
                                    causes@,
                                    self.touched@[a],
                                    causes_in(pv, self.touched@[a])[b],
                                ),
                            forall|b: int| 0 <= b < c ==> #[trigger] shown_in(causes@, scope, cs@[b]),
                        decreases cs@.len() - c,
                    {
                        let node = &cs[c];
                        let cv = CauseView { scope, kind: node.kind.duplicate(), target: node.target, time: node.time, confidence: node.confidence };
                        let ghost pre = causes@;
                        let ghost tk = self.touched@.take(t + 1);
                        proof {
                            assert(tk[t as int] == scope);
                            assert(shows_cause(cv, tk[t as int], causes_in(pv, tk[t as int])[c as int]));
                            assert(from_partitions(cv, pv, tk));
                        }
                        let k = insert_cause_view(&mut causes, cv);
                        proof {
                            assert forall|i: int| 0 <= i < causes@.len() implies from_partitions(
                                #[trigger] causes@[i],
                                pv,
                                tk,
                            ) by {
                                if i < k {
                                    assert(causes@[i] == pre[i]);
                                } else if i == k {
                                } else {
                                    assert(causes@[i] == pre[i - 1]);
                                }
                            }
                            assert forall|a: int, b: int|
                                0 <= a < t && 0 <= b < causes_in(pv, self.touched@[a]).len() implies #[trigger] shown_in(
                                    causes@,
                                    self.touched@[a],
                                    causes_in(pv, self.touched@[a])[b],
                                ) by {
                                lemma_shown_after_insert(pre, k as int, cv, self.touched@[a], causes_in(pv, self.touched@[a])[b]);
                            }
                            assert forall|b: int| 0 <= b < c + 1 implies #[trigger] shown_in(causes@, scope, cs@[b]) by {
                                if b < c {
                                    lemma_shown_after_insert(pre, k as int, cv, scope, cs@[b]);
                                } else {
                                    assert(causes@[k as int] == cv);
                                    assert(shows_cause(causes@[k as int], scope, cs@[b]));
                                }
                            }
                        }
                        c = c + 1;
                    }
                    let ps = part.problems();
                    let mut p: usize = 0;
                    while p < ps.len()
                        invariant
                            0 <= p <= ps@.len(),
                            self.wf(),
                            part.wf(),
                            problems@.len() == before.len() + p,
                            problems@.take(before.len() as int) == before,
                            forall|j: int|
                                0 <= j < p ==> shows_problem(#[trigger] problems@[before.len() + j], scope, ps@[j]),
                        decreases ps@.len() - p,
                    {
                        let prob = &ps[p];
                        let mut cause_kinds: Vec<CauseKind> = Vec::new();
                        let mut e: usize = 0;
                        while e < prob.evidence.len()
                            invariant
                                0 <= e <= prob.evidence@.len(),
                            decreases prob.evidence@.len() - e,
                        {
                            let node_id = prob.evidence[e];
                            let mut k: usize = 0;
                            let mut kind: Option<&CauseKind> = None;
                            while k < cs.len()
                                invariant
                                    0 <= k <= cs@.len(),
                                decreases cs@.len() - k,
                            {
                                if kind.is_none() && cs[k].id == node_id {
                                    kind = Some(&cs[k].kind);
                                }
                                k = k + 1;
                            }
                            match kind {
                                Some(kd) => {
                                    let mut seen = false;
                                    let mut q: usize = 0;
                                    while q < cause_kinds.len()
                                        invariant
                                            0 <= q <= cause_kinds@.len(),
                                        decreases cause_kinds@.len() - q,
                                    {
                                        if cause_kinds[q].same(kd) {
                                            seen = true;
                                        }
                                        q = q + 1;
                                    }
                                    if !seen {
                                        cause_kinds.push(kd.duplicate());
                                    }
                                },
                                None => {},
                            }
                            e = e + 1;
                        }
                        let evidence_fields = collect_problem_evidence(&self.store, scope, prob, part);
                        let ghost pre = problems@;
                        problems.push(
                            ProblemView {
                                scope,
                                kind: prob.kind.duplicate(),
                                target: prob.target,
                                time: prob.time,
                                severity: prob.severity,
                                sarif_id: prob.sarif_id.duplicate(),
                                cause_kinds,
                                evidence_fields,
                                superseded: prob.superseded,
                            },
                        );
                        proof {
                            assert(problems@.take(before.len() as int) =~= pre.take(before.len() as int));
                            assert forall|j: int| 0 <= j < p + 1 implies shows_problem(
                                #[trigger] problems@[before.len() + j],
                                scope,
                                ps@[j],
                            ) by {
                                if j < p {
                                    assert(problems@[before.len() + j] == pre[before.len() + j]);
                                }
                            }
                        }
                        p = p + 1;
                    }
                    proof {
                        let rows1 = problem_rows(pv, self.touched@.take(t + 1));
                        let tail = problems_in(pv, scope).map_values(|q: ProblemNode| (scope, q));
                        assert(rows1 =~= rows0 + tail);
                        assert forall|i: int| 0 <= i < problems@.len() implies shows_problem(
                            #[trigger] problems@[i],
                            rows1[i].0,
                            rows1[i].1,
                        ) by {
                            if i < before.len() {
                                assert(problems@[i] == before[i]);
                            } else {
                                assert(problems@[before.len() + (i - before.len())] == problems@[i]);
                            }
                        }
                    }
                },
                None => {
                    proof {
                        assert(problem_rows(pv, self.touched@.take(t + 1)) =~= rows0);
                        assert(causes_in(pv, scope).len() == 0);
                    }
                },
            }
            proof {
                assert forall|a: int, b: int|
                    0 <= a < t + 1 && 0 <= b < causes_in(pv, self.touched@[a]).len() implies #[trigger] shown_in(
                        causes@,
                        self.touched@[a],
                        causes_in(pv, self.touched@[a])[b],
                    ) by {
                    if a == t {
                        assert(self.touched@[a] == scope);
                    }
                }
            }
            t = t + 1;
        }
        proof {
            assert(self.touched@.take(self.touched@.len() as int) =~= self.touched@);
        }
        Snapshot { causes, problems, audit: Vec::new() }
    }

    fn touch(&mut self, scope: ScopeId)
        requires
            old(self).wf(),
        ensures
            final(self).evolved_from(*old(self)),
            final(self).store_view().pending_view() == old(self).store_view().pending_view(),
            final(self).late_view() == old(self).late_view(),
            final(self).finished == old(self).finished,
            final(self).last_event_time == old(self).last_event_time,
            final(self).store_view() == old(self).store_view(),
            final(self).diagnostics_view() == old(self).diagnostics_view(),
            final(self).suspended_view() == old(self).suspended_view(),
            final(self).resumed_view() == old(self).resumed_view(),
            forall|x: ScopeId| final(self).touched@.contains(x) <==> (old(self).touched@.contains(x) || x == scope),
            final(self).interned_view() == old(self).interned_view().insert(
                crate::eval::interner::scope_key(scope),
                scope,
            ),
    {
        insert_scope(&mut self.touched, scope);
        self.interner.intern(scope);
    }
}

impl<'img, T: TopologyProvider> Engine<'img, T, OfflineAuditSink> {
    /// The graph snapshot with the sink's audit log, sorted by watermark,
    /// rule id, action kind and target.
    pub fn snapshot(&self) -> (snap: Snapshot)
        requires
            self.wf(),
        ensures
            causes_in_order(snap.causes@),
            audit_in_order(snap.audit@),
            snap.audit@.len() == self.sink_view().entries_view().len(),
    {
        let mut snap = self.graph_snapshot();
        let entries = self.sink.entries();
        let mut audit: Vec<AuditEntry> = Vec::new();
        let mut i: usize = 0;
        while i < entries.len()
            invariant
                0 <= i <= entries@.len(),
                audit_in_order(audit@),
                audit@.len() == i,
            decreases entries@.len() - i,
        {
            insert_audit(&mut audit, entries[i].clone());
            i = i + 1;
        }
        snap.audit = audit;
        snap
    }

    /// SARIF for the current state, redacting `[pii]` evidence when strict
    /// privacy is on.
    pub fn sarif(&self) -> (r: String)
        requires
            self.wf(),
    {
        let options = SarifOptions { strict_privacy: self.strict_privacy };
        to_sarif_with_options(&self.snapshot(), options)
    }
}

} // verus!
