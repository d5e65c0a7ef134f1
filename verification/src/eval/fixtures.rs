//! Hand-built program images used as ground truth for the evaluator: the
//! path-MTU blackhole ruleset (an evidence rule and its verdict) and the
//! downstream-suppression ruleset.
use vstd::prelude::*;

use crate::catalog::fields::CAUSE_FIELD_CONFIDENCE;
use crate::ir::image::{ExclusivityGroup, ProgramImage};
use crate::ir::intent::Intent;
use crate::ir::rule::{
    AnchorSource, AnchorSpec, BranchTable, CorrelateSource, CorrelateSpec, RuleInstance, TopoCall,
    VerifiedAnnotations, WindowProof,
};
use crate::ir::{BindingIdx, CatalogRef, FieldIdx, PredOp, Predicate, ProvKey, RuleKind, SlotIdx, Symbol, TopoFuncIdx};
use crate::types::{ActionKind, DurationMs, Name, ScopeType, Severity, Weight};

verus! {

/// Field index of `tcp.retransmission_burst.segment_size`.
pub const F_SEGMENT_SIZE: u16 = 0;

fn slot(i: u8) -> (s: SlotIdx)
    requires
        (i as usize) < crate::ir::MAX_SLOTS,
    ensures
        s.idx() == i,
{
    SlotIdx::new(i).unwrap()
}

fn dur(ms: i64) -> (d: DurationMs)
    requires
        ms >= 0,
    ensures
        d.ms_of() == ms,
{
    DurationMs::from_millis(ms).unwrap()
}

fn weight(v: i8) -> (w: Weight)
    requires
        -100 <= v <= 100,
    ensures
        w.val() == v,
{
    Weight::new(v).unwrap()
}

fn catalog_ref() -> (c: CatalogRef)
    ensures
        c.id@ == "airpulse.catalog"@,
        c.version@ == "1.0"@,
{
    CatalogRef { id: "airpulse.catalog".to_owned(), version: "1.0".to_owned() }
}

/// `rtx.segment_size > 1400`.
fn segment_size_gt_1400() -> (p: Predicate)
    ensures
        p.ops@.len() == 3,
        p.ops@[0] matches PredOp::LoadEventField { binding, field, dst } && binding == BindingIdx(0) && field
            == FieldIdx(F_SEGMENT_SIZE) && dst.idx() == 0,
        p.ops@[1] matches PredOp::LoadConst { imm, dst } && imm == 1400 && dst.idx() == 1,
        p.ops@[2] matches PredOp::CmpGt { lhs, rhs, dst } && lhs.idx() == 0 && rhs.idx() == 1 && dst.idx() == 2,
        p.result.idx() == 2,
{
    let mut ops: Vec<PredOp> = Vec::new();
    ops.push(PredOp::LoadEventField { binding: BindingIdx(0), field: FieldIdx(F_SEGMENT_SIZE), dst: slot(0) });
    ops.push(PredOp::LoadConst { imm: 1400, dst: slot(1) });
    ops.push(PredOp::CmpGt { lhs: slot(0), rhs: slot(1), dst: slot(2) });
    Predicate { ops, result: slot(2) }
}

/// `c.confidence >= 80`.
fn confidence_ge_80() -> (p: Predicate)
    ensures
        p.ops@.len() == 3,
        p.ops@[0] matches PredOp::LoadCauseField { binding, field, dst } && binding == BindingIdx(0) && field
            == FieldIdx(CAUSE_FIELD_CONFIDENCE) && dst.idx() == 0,
        p.ops@[1] matches PredOp::LoadConst { imm, dst } && imm == 80 && dst.idx() == 1,
        p.ops@[2] matches PredOp::CmpGe { lhs, rhs, dst } && lhs.idx() == 0 && rhs.idx() == 1 && dst.idx() == 2,
        p.result.idx() == 2,
{
    let mut ops: Vec<PredOp> = Vec::new();
    ops.push(PredOp::LoadCauseField { binding: BindingIdx(0), field: FieldIdx(CAUSE_FIELD_CONFIDENCE), dst: slot(0) });
    ops.push(PredOp::LoadConst { imm: 80, dst: slot(1) });
    ops.push(PredOp::CmpGe { lhs: slot(0), rhs: slot(1), dst: slot(2) });
    Predicate { ops, result: slot(2) }
}

/// `if present(<correlate 1>)`.
fn present_first_correlate() -> (p: Predicate)
    ensures
        p.ops@.len() == 1,
        p.ops@[0] matches PredOp::Present { binding, dst } && binding == BindingIdx(1) && dst.idx() == 0,
        p.result.idx() == 0,
{
    let mut ops: Vec<PredOp> = Vec::new();
    ops.push(PredOp::Present { binding: BindingIdx(1), dst: slot(0) });
    Predicate { ops, result: slot(0) }
}

/// The Unknown branch body: `request_topology`.
fn request_topology_body() -> (v: Vec<Intent>)
    ensures
        v@.len() == 1,
{
    let mut v: Vec<Intent> = Vec::new();
    v.push(
        Intent::EmitAction { kind: ActionKind::RequestTopology, arg: None, target: None, reason: None, evidence: Vec::new() },
    );
    v
}

/// `ptb: event(icmp.ptb)` with `same_session(rtx.target, ptb.target)` and
/// the window `[rtx.time - 500ms, rtx.time + 1s]`.
fn ptb_correlate() -> (c: CorrelateSpec)
    ensures
        c.window == (WindowProof::Calculable { back: c.window->back, forward: c.window->forward }),
        c.window->back.ms_of() == 500,
        c.window->forward.ms_of() == 1000,
        c.min_match == 1,
{
    let mut args: Vec<Name> = Vec::new();
    args.push(Name::new("rtx.target"));
    args.push(Name::new("ptb.target"));
    CorrelateSpec {
        binding: Symbol::new("ptb"),
        source: CorrelateSource::Event(Name::new("icmp.ptb")),
        topo: TopoCall { func: "same_session".to_owned(), func_idx: TopoFuncIdx(0), args },
        window: WindowProof::Calculable { back: dur(500), forward: dur(1000) },
        min_match: 1,
    }
}

fn pmtud_prov() -> (k: ProvKey)
    ensures
        k.rule@ == "pmtud_hypothesis"@,
        k.cause@ == "PmtudBlackhole"@,
        k.target_expr_hash == 0x9e37_79b9,
{
    ProvKey { rule: Name::new("pmtud_hypothesis"), cause: Name::new("PmtudBlackhole"), target_expr_hash: 0x9e37_79b9 }
}

/// The `pmtud_hypothesis` evidence rule: anchor a retransmission burst
/// with `segment_size > 1400`, correlate an ICMP packet-too-big in the
/// same session within `[-500ms, +1s]`; present: infer `PmtudBlackhole`
/// +85 on `[rtx, ptb]`; else: +35 on `[rtx]` and request the ICMP
/// visibility observation on `rtx.path`; Unknown: request topology.
pub fn pmtud_hypothesis_rule() -> (r: RuleInstance)
    ensures
        r.kind == RuleKind::Evidence,
        r.scope == ScopeType::Session,
        r.correlates@.len() == 1,
        r.annotations.max_forward.ms_of() == 1000,
        r.annotations.max_backward.ms_of() == 500,
{
    let mut correlates: Vec<CorrelateSpec> = Vec::new();
    correlates.push(ptb_correlate());
    let mut then_evidence: Vec<Symbol> = Vec::new();
    then_evidence.push(Symbol::new("rtx"));
    then_evidence.push(Symbol::new("ptb"));
    let mut then_body: Vec<Intent> = Vec::new();
    then_body.push(
        Intent::InferCause {
            cause: Name::new("PmtudBlackhole"),
            target: Name::new("rtx.target"),
            weight: weight(85),
            evidence: then_evidence,
            provenance_key: pmtud_prov(),
            evidence_pii: Vec::new(),
        },
    );
    let mut else_evidence: Vec<Symbol> = Vec::new();
    else_evidence.push(Symbol::new("rtx"));
    let mut else_body: Vec<Intent> = Vec::new();
    else_body.push(
        Intent::InferCause {
            cause: Name::new("PmtudBlackhole"),
            target: Name::new("rtx.target"),
            weight: weight(35),
            evidence: else_evidence,
            provenance_key: pmtud_prov(),
            evidence_pii: Vec::new(),
        },
    );
    else_body.push(
        Intent::EmitAction {
            kind: ActionKind::RequestObservation,
            arg: Some(Symbol::new("icmp.visibility")),
            target: Some(Name::new("rtx.path")),
            reason: None,
            evidence: Vec::new(),
        },
    );
    let branches = BranchTable {
        cond: present_first_correlate(),
        then_body,
        else_body: Some(else_body),
        unknown_body: request_topology_body(),
    };
    let annotations = VerifiedAnnotations::from_correlates(correlates.as_slice(), Some(ScopeType::Session));
    proof {
        let cs = correlates@;
        reveal_with_fuel(crate::ir::rule::max_extent, 2);
        assert(cs.drop_last().len() == 0);
    }
    RuleInstance {
        id: Name::new("pmtud_hypothesis"),
        kind: RuleKind::Evidence,
        scope: ScopeType::Session,
        anchor: AnchorSpec {
            binding: Symbol::new("rtx"),
            source: AnchorSource::Event(Name::new("tcp.retransmission_burst")),
            predicate: segment_size_gt_1400(),
        },
        correlates,
        branches: Some(branches),
        body: Vec::new(),
        annotations,
    }
}

/// The `pmtud_hypothesis` rule with its branch written `if absent(ptb)`:
/// absent infers +35 and requests the observation; present infers +85.
pub fn pmtud_hypothesis_if_absent_rule() -> (r: RuleInstance)
    ensures
        r.kind == RuleKind::Evidence,
        r.scope == ScopeType::Session,
        r.correlates@.len() == 1,
{
    let mut r = pmtud_hypothesis_rule();
    match r.branches {
        Some(bt) => {
            let mut ops: Vec<PredOp> = Vec::new();
            ops.push(PredOp::Absent { binding: BindingIdx(1), dst: slot(0) });
            let cond = Predicate { ops, result: slot(0) };
            let then_body = match bt.else_body {
                Some(b) => b,
                None => Vec::new(),
            };
            r.branches = Some(BranchTable { cond, then_body, else_body: Some(bt.then_body), unknown_body: bt.unknown_body });
        },
        None => {},
    }
    r
}

/// The `pmtud_verdict` decision rule: anchored on `PmtudBlackhole` with
/// `confidence >= 80`, it emits `XlIcmpTcpMss` (severity high, SARIF id
/// `l3_pmtud_blackhole`) on the rule scope with `[c]` as evidence.
pub fn pmtud_verdict_rule() -> (r: RuleInstance)
    ensures
        r.kind == RuleKind::Decision,
        r.scope == ScopeType::Session,
        r.correlates@.len() == 0,
{
    let mut evidence: Vec<Symbol> = Vec::new();
    evidence.push(Symbol::new("c"));
    let mut body: Vec<Intent> = Vec::new();
    body.push(
        Intent::EmitProblem {
            problem: Name::new("XlIcmpTcpMss"),
            target: None,
            severity: Severity::High,
            evidence,
            sarif_id: Name::new("l3_pmtud_blackhole"),
            pii: Vec::new(),
        },
    );
    let no_correlates: Vec<CorrelateSpec> = Vec::new();
    RuleInstance {
        id: Name::new("pmtud_verdict"),
        kind: RuleKind::Decision,
        scope: ScopeType::Session,
        anchor: AnchorSpec {
            binding: Symbol::new("c"),
            source: AnchorSource::Cause(Name::new("PmtudBlackhole")),
            predicate: confidence_ge_80(),
        },
        correlates: Vec::new(),
        branches: None,
        body,
        annotations: VerifiedAnnotations::from_correlates(no_correlates.as_slice(), None),
    }
}

fn tcp_exclusivity() -> (v: Vec<ExclusivityGroup>)
    ensures
        v@.len() == 1,
{
    let mut causes: Vec<Name> = Vec::new();
    causes.push(Name::new("PmtudBlackhole"));
    causes.push(Name::new("Congestion"));
    causes.push(Name::new("TransientL2Disruption"));
    let mut v: Vec<ExclusivityGroup> = Vec::new();
    v.push(ExclusivityGroup { causes });
    v
}

fn tcp_requirements() -> (v: Vec<Name>)
    ensures
        v@.len() == 2,
        v@[0]@ == "l3-deep"@,
        v@[1]@ == "topology"@,
{
    let mut v: Vec<Name> = Vec::new();
    v.push(Name::new("l3-deep"));
    v.push(Name::new("topology"));
    v
}

/// The `airpulse.tcp_diagnostics` ruleset: `pmtud_hypothesis` then
/// `pmtud_verdict`, with the exclusivity group
/// `(PmtudBlackhole, Congestion, TransientL2Disruption)`.
pub fn rule3_pmtud() -> (img: ProgramImage)
    ensures
        img.rules@.len() == 2,
        img.exclusivity@.len() == 1,
{
    let mut rules: Vec<RuleInstance> = Vec::new();
    rules.push(pmtud_hypothesis_rule());
    rules.push(pmtud_verdict_rule());
    ProgramImage::new(
        ProgramImage::pack_version(1, 0, 0),
        "airpulse.tcp_diagnostics",
        tcp_requirements(),
        tcp_exclusivity(),
        rules,
        catalog_ref(),
    )
}

/// [`rule3_pmtud`] with the `if absent(ptb)` form of the evidence rule.
pub fn rule3_pmtud_if_absent() -> (img: ProgramImage)
    ensures
        img.rules@.len() == 2,
{
    let mut rules: Vec<RuleInstance> = Vec::new();
    rules.push(pmtud_hypothesis_if_absent_rule());
    rules.push(pmtud_verdict_rule());
    ProgramImage::new(
        ProgramImage::pack_version(1, 0, 0),
        "airpulse.tcp_diagnostics",
        tcp_requirements(),
        tcp_exclusivity(),
        rules,
        catalog_ref(),
    )
}

fn upstream_correlate() -> (c: CorrelateSpec)
    ensures
        c.binding@ == "upstream"@,
        c.source matches CorrelateSource::Problem(k) && k@ == "DeviceUnreachable"@,
        c.topo.func@ == "upstream_of"@,
        c.topo.func_idx == TopoFuncIdx(5),
        c.topo.args@.len() == 2,
        c.topo.args@[0]@ == "upstream.target"@,
        c.topo.args@[1]@ == "downstream.target"@,
        c.window matches WindowProof::Calculable { back, forward } && back.ms_of() == 30_000 && forward.ms_of()
            == 5_000,
        c.min_match == 1,
{
    let mut args: Vec<Name> = Vec::new();
    args.push(Name::new("upstream.target"));
    args.push(Name::new("downstream.target"));
    CorrelateSpec {
        binding: Symbol::new("upstream"),
        source: CorrelateSource::Problem(Name::new("DeviceUnreachable")),
        topo: TopoCall { func: "upstream_of".to_owned(), func_idx: TopoFuncIdx(5), args },
        window: WindowProof::Calculable { back: dur(30_000), forward: dur(5_000) },
        min_match: 1,
    }
}

/// The `suppress_downstream` decision rule: anchored on a
/// `DeviceUnreachable` problem, it correlates an upstream
/// `DeviceUnreachable` within `[-30s, +5s]`; present: supersede the
/// downstream problem and audit `suppress_symptom` with its reason;
/// Unknown: request topology.
pub fn suppress_downstream_rule() -> (r: RuleInstance)
    ensures
        r.kind == RuleKind::Decision,
        r.scope == ScopeType::Global,
        r.correlates@.len() == 1,
{
    let mut correlates: Vec<CorrelateSpec> = Vec::new();
    correlates.push(upstream_correlate());
    let mut then_body: Vec<Intent> = Vec::new();
    then_body.push(
        Intent::SupersedeProblem { problem: Name::new("DeviceUnreachable"), target: Name::new("downstream.target") },
    );
    let mut audit_evidence: Vec<Symbol> = Vec::new();
    audit_evidence.push(Symbol::new("upstream"));
    then_body.push(
        Intent::EmitAction {
            kind: ActionKind::SuppressSymptom,
            arg: Some(Symbol::new("downstream")),
            target: Some(Name::new("downstream.target")),
            reason: Some("Masked by upstream topology failure".to_owned()),
            evidence: audit_evidence,
        },
    );
    let annotations = VerifiedAnnotations::from_correlates(correlates.as_slice(), None);
    RuleInstance {
        id: Name::new("suppress_downstream"),
        kind: RuleKind::Decision,
        scope: ScopeType::Global,
        anchor: AnchorSpec {
            binding: Symbol::new("downstream"),
            source: AnchorSource::Problem(Name::new("DeviceUnreachable")),
            predicate: Predicate::always_true(),
        },
        correlates,
        branches: Some(
            BranchTable { cond: present_first_correlate(), then_body, else_body: None, unknown_body: request_topology_body() },
        ),
        body: Vec::new(),
        annotations,
    }
}

/// The `airpulse.topo_suppression` ruleset: the given emitter rules (in
/// order) followed by `suppress_downstream`.
pub fn rule8_suppression(emitter_rules: Vec<RuleInstance>) -> (img: ProgramImage)
    ensures
        img.rules@.len() == emitter_rules@.len() + 1,
        img.rules@.take(emitter_rules@.len() as int) == emitter_rules@,
{
    let mut rules = emitter_rules;
    rules.push(suppress_downstream_rule());
    proof {
        assert(rules@.take(emitter_rules@.len() as int) =~= emitter_rules@);
    }
    let mut required: Vec<Name> = Vec::new();
    required.push(Name::new("topology"));
    ProgramImage::new(
        ProgramImage::pack_version(1, 0, 0),
        "airpulse.topo_suppression",
        required,
        Vec::new(),
        rules,
        catalog_ref(),
    )
}

} // verus!
