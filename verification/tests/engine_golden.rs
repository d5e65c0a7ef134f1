use airpulse_dsl::eval::binding::EVENT_FIELD_TARGET;
use airpulse_dsl::eval::engine::Engine;
use airpulse_dsl::eval::fixtures;
use airpulse_dsl::eval::sarif::to_sarif;
use airpulse_dsl::eval::sink::{OfflineAuditSink, RunMode};
use airpulse_dsl::eval::topology::{StaticTopology, TopologyDiagnostic};
use airpulse_dsl::catalog::fields::CAUSE_FIELD_CONFIDENCE;
use airpulse_dsl::ir::image::ProgramImage;
use airpulse_dsl::ir::intent::Intent;
use airpulse_dsl::ir::rule::{AnchorSource, AnchorSpec, RuleInstance, VerifiedAnnotations};
use airpulse_dsl::ir::{BindingIdx, FieldIdx, PredOp, Predicate, ProvKey, RuleKind, SlotIdx, Symbol};
use airpulse_dsl::store::event::{EventNode, EventProvenance};
use airpulse_dsl::store::limits::Limits;
use airpulse_dsl::types::{ActionKind, EventId, EventTime, Name, ScopeId, ScopeType, Severity, Weight};

const STUB_EVENT_TYPE: &str = "net.device_unreachable";

fn slot(i: u8) -> SlotIdx {
    SlotIdx::new(i).expect("stub slot within MAX_SLOTS")
}

fn device_unreachable_evidence() -> RuleInstance {
    RuleInstance {
        id: Name::new("stub_device_unreachable_evidence"),
        kind: RuleKind::Evidence,
        scope: ScopeType::Global,
        anchor: AnchorSpec {
            binding: Symbol::new("ev"),
            source: AnchorSource::Event(Name::new(STUB_EVENT_TYPE)),
            predicate: Predicate::always_true(),
        },
        correlates: vec![],
        branches: None,
        body: vec![Intent::InferCause {
            cause: Name::new("DeviceDown"),
            target: Name::new("ev.target"),
            weight: Weight::new(100).expect("weight in domain"),
            evidence: vec![Symbol::new("ev")],
            provenance_key: ProvKey {
                rule: Name::new("stub_device_unreachable_evidence"),
                cause: Name::new("DeviceDown"),
                target_expr_hash: 0x5f0d_11e5,
            },
            evidence_pii: vec![],
        }],
        annotations: VerifiedAnnotations::from_correlates(&[], None),
    }
}

fn device_unreachable_verdict() -> RuleInstance {
    RuleInstance {
        id: Name::new("stub_device_unreachable_verdict"),
        kind: RuleKind::Decision,
        scope: ScopeType::Global,
        anchor: AnchorSpec {
            binding: Symbol::new("c"),
            source: AnchorSource::Cause(Name::new("DeviceDown")),
            predicate: Predicate {
                ops: vec![
                    PredOp::LoadCauseField { binding: BindingIdx(0), field: FieldIdx(CAUSE_FIELD_CONFIDENCE), dst: slot(0) },
                    PredOp::LoadConst { imm: 80, dst: slot(1) },
                    PredOp::CmpGe { lhs: slot(0), rhs: slot(1), dst: slot(2) },
                ],
                result: slot(2),
            },
        },
        correlates: vec![],
        branches: None,
        body: vec![Intent::EmitProblem {
            problem: Name::new("DeviceUnreachable"),
            target: Some(Name::new("c.target")),
            severity: Severity::High,
            evidence: vec![Symbol::new("c")],
            sarif_id: Name::new("ap_device_unreachable"),
            pii: vec![],
        }],
        annotations: VerifiedAnnotations::from_correlates(&[], None),
    }
}

fn device_unreachable_stub_rules() -> Vec<RuleInstance> {
    vec![device_unreachable_evidence(), device_unreachable_verdict()]
}

fn t(ms: i64) -> EventTime {
    EventTime::from_millis(ms)
}

fn session_scope() -> ScopeId {
    ScopeId::session((0x0a00_0001, 443), (0x0a00_0002, 51234))
}

fn evt(id: u64, event_type: &str, time_ms: i64, scope: ScopeId, fields: Vec<(FieldIdx, i64)>) -> EventNode {
    EventNode::new(EventId::new(id), Name::new(event_type), t(time_ms), scope, fields, EventProvenance::default())
}

fn rtx(id: u64, time_ms: i64, scope: ScopeId, segment_size: i64) -> EventNode {
    evt(id, "tcp.retransmission_burst", time_ms, scope, vec![(FieldIdx(fixtures::F_SEGMENT_SIZE), segment_size)])
}

type OfflineEngine<'img> = Engine<'img, StaticTopology, OfflineAuditSink>;

fn pmtud_engine(img: &ProgramImage) -> OfflineEngine<'_> {
    Engine::new(
        img,
        StaticTopology::new(Limits::default().max_topology_hops),
        OfflineAuditSink::new(),
        Limits::default(),
        RunMode::Offline,
    )
}

#[test]
fn g01_present_ptb_in_window_confirms_and_emits_problem() {
    let img = fixtures::rule3_pmtud();
    let mut eng = pmtud_engine(&img);
    let s = session_scope();

    eng.ingest(rtx(1, 10_000, s, 1500));
    assert_eq!(eng.store().pending_len(s), 1);
    assert_eq!(eng.suspended(), 1);

    eng.ingest(evt(2, "icmp.ptb", 10_400, s, vec![]));
    assert_eq!(eng.store().pending_len(s), 1);

    eng.finish();
    assert_eq!(eng.resumed(), 1);
    assert_eq!(eng.store().pending_len(s), 0);

    let snap = eng.snapshot();
    assert_eq!(snap.causes.len(), 1);
    let cause = &snap.causes[0];
    assert_eq!(cause.kind.as_str(), "PmtudBlackhole");
    assert_eq!(cause.target, s);
    assert_eq!(cause.confidence.value(), 85);
    assert_eq!(cause.time, t(10_000), "Cause.time = first-infer anchor time");

    assert_eq!(snap.problems.len(), 1);
    let p = &snap.problems[0];
    assert_eq!(p.kind.as_str(), "XlIcmpTcpMss");
    assert_eq!(p.sarif_id.as_str(), "l3_pmtud_blackhole");
    assert_eq!(p.severity, Severity::High);
    assert_eq!(p.target, s, "omitted target = rule scope");
    assert!(!p.superseded);
    assert_eq!(p.time, t(11_401));

    assert!(snap.audit.is_empty());
    assert!(eng.diagnostics().is_empty());
}

#[test]
fn g01_absent_ptb_fires_absent_branch_after_window_closes() {
    let img = fixtures::rule3_pmtud();
    let mut eng = pmtud_engine(&img);
    let s = session_scope();

    eng.ingest(rtx(1, 10_000, s, 1500));
    assert_eq!(eng.store().pending_len(s), 1);
    assert_eq!(eng.suspended(), 1);
    assert_eq!(eng.resumed(), 0);

    eng.advance_watermark(t(11_000));
    assert_eq!(eng.store().pending_len(s), 1, "wm == upper: window not provably closed");
    assert_eq!(eng.resumed(), 0);

    eng.advance_watermark(t(11_001));
    assert_eq!(eng.store().pending_len(s), 0);
    assert_eq!(eng.resumed(), 1, "resumed exactly when wm > upper");

    let snap = eng.snapshot();
    assert_eq!(snap.causes.len(), 1);
    assert_eq!(snap.causes[0].confidence.value(), 35, "absent branch weight +35");
    assert!(snap.problems.is_empty(), "35 < 80: no verdict");

    assert_eq!(snap.audit.len(), 1);
    let entry = &snap.audit[0];
    assert_eq!(entry.code, Some("ADGL3001"));
    assert_eq!(entry.intent.kind, ActionKind::RequestObservation);
    assert_eq!(entry.intent.rule.as_str(), "pmtud_hypothesis");
    assert_eq!(entry.intent.arg.as_ref().map(|a| a.as_str()), Some("icmp.visibility"));
    assert_eq!(entry.intent.target_path.as_ref().map(|p| p.as_str()), Some("rtx.path"), "raw target path preserved for audit");
    assert_eq!(entry.wm, t(11_001), "audited at the resume watermark");
}

#[test]
fn g01_anchor_predicate_rejects_small_segments() {
    let img = fixtures::rule3_pmtud();
    let mut eng = pmtud_engine(&img);
    let s = session_scope();

    eng.ingest(rtx(1, 10_000, s, 1200));
    assert_eq!(eng.store().pending_len(s), 0);
    assert_eq!(eng.suspended(), 0);
    eng.finish();
    let snap = eng.snapshot();
    assert!(snap.causes.is_empty());
    assert!(snap.problems.is_empty());
    assert!(snap.audit.is_empty());
}

#[test]
fn c10_topology_unknown_fires_unknown_branch_request_topology() {
    let img = fixtures::rule3_pmtud();
    let mut eng = pmtud_engine(&img);
    let s = session_scope();
    let other = ScopeId::session((0x0a00_0009, 80), (0x0a00_000a, 40000));
    let other_key = eng.intern_scope(other);

    eng.ingest(rtx(1, 10_000, s, 1500));
    eng.ingest(evt(2, "icmp.ptb", 10_400, s, vec![(FieldIdx(EVENT_FIELD_TARGET), other_key)]));
    eng.finish();

    let snap = eng.snapshot();
    assert!(snap.causes.is_empty(), "Unknown skips then AND else bodies");
    assert!(snap.problems.is_empty());
    assert_eq!(snap.audit.len(), 1);
    assert_eq!(snap.audit[0].intent.kind, ActionKind::RequestTopology);
    assert_eq!(snap.audit[0].code, None, "request_topology is a plain audit record");
}

fn routers() -> (ScopeId, ScopeId) {
    (ScopeId::port(1, 1), ScopeId::port(2, 1))
}

fn suppression_engine(img: &ProgramImage, topo: StaticTopology) -> (OfflineEngine<'_>, i64, i64) {
    let mut eng = Engine::new(img, topo, OfflineAuditSink::new(), Limits::default(), RunMode::Offline);
    let (r1, r2) = routers();
    let k1 = eng.intern_scope(r1);
    let k2 = eng.intern_scope(r2);
    (eng, k1, k2)
}

#[test]
fn g05_upstream_failure_supersedes_downstream_problem() {
    let img = fixtures::rule8_suppression(device_unreachable_stub_rules());
    let (r1, r2) = routers();
    let mut topo = StaticTopology::new(Limits::default().max_topology_hops);
    topo.upstream_edge(r1, r2);
    let (mut eng, k1, k2) = suppression_engine(&img, topo);

    eng.ingest(evt(1, STUB_EVENT_TYPE, 1_000, ScopeId::global(), vec![(FieldIdx(EVENT_FIELD_TARGET), k1)]));
    eng.ingest(evt(2, STUB_EVENT_TYPE, 2_000, ScopeId::global(), vec![(FieldIdx(EVENT_FIELD_TARGET), k2)]));
    eng.finish();

    let snap = eng.snapshot();
    assert_eq!(snap.causes.len(), 2);
    assert!(snap.causes.iter().all(|c| c.kind.as_str() == "DeviceDown"));
    assert!(snap.causes.iter().all(|c| c.confidence.value() == 100));

    assert_eq!(snap.problems.len(), 2);
    let by_target = |target: ScopeId| snap.problems.iter().find(|p| p.target == target).expect("problem for target");
    assert!(!by_target(r1).superseded, "upstream problem stays live");
    assert!(by_target(r2).superseded, "downstream problem masked");
    assert!(snap.problems.iter().all(|p| p.kind.as_str() == "DeviceUnreachable"));

    let suppress: Vec<_> = snap.audit.iter().filter(|e| e.intent.kind == ActionKind::SuppressSymptom).collect();
    assert_eq!(suppress.len(), 1);
    assert_eq!(suppress[0].intent.rule.as_str(), "suppress_downstream");
    assert_eq!(suppress[0].intent.target, Some(r2));
    assert_eq!(suppress[0].intent.reason.as_deref(), Some("Masked by upstream topology failure"));
    assert!(eng.topo().diagnostics().is_empty(), "acyclic topology: no ADGL3006");

    let sarif = to_sarif(&snap);
    assert_eq!(sarif.matches("\"ruleId\":\"ap_device_unreachable\"").count(), 1);
}

#[test]
fn g05_topology_cycle_isolates_no_suppression_with_diagnostic() {
    let img = fixtures::rule8_suppression(device_unreachable_stub_rules());
    let (r1, r2) = routers();
    let mut topo = StaticTopology::new(Limits::default().max_topology_hops);
    topo.upstream_edge(r1, r2);
    topo.upstream_edge(r2, r1);
    let (mut eng, k1, k2) = suppression_engine(&img, topo);

    eng.ingest(evt(1, STUB_EVENT_TYPE, 1_000, ScopeId::global(), vec![(FieldIdx(EVENT_FIELD_TARGET), k1)]));
    eng.ingest(evt(2, STUB_EVENT_TYPE, 2_000, ScopeId::global(), vec![(FieldIdx(EVENT_FIELD_TARGET), k2)]));
    eng.finish();

    let snap = eng.snapshot();
    assert_eq!(snap.problems.len(), 2);
    assert!(snap.problems.iter().all(|p| !p.superseded), "cycle isolation: nothing suppressed");
    assert!(!snap.audit.iter().any(|e| e.intent.kind == ActionKind::SuppressSymptom), "no suppress action emitted");
    let diags = eng.topo().diagnostics();
    assert!(!diags.is_empty(), "cycle diagnostic present");
    assert!(diags.iter().all(|d| d.code() == "ADGL3006"));
    assert!(diags.iter().any(|d| matches!(d, TopologyDiagnostic::UpstreamCycle { .. })));
}

type EngineFor<'img> = Engine<'img, StaticTopology, OfflineAuditSink>;

fn offline_engine(img: &ProgramImage, topo: StaticTopology) -> EngineFor<'_> {
    Engine::new(img, topo, OfflineAuditSink::new(), Limits::default(), RunMode::Offline)
}

#[test]
fn g01_sarif_snapshot_contains_expected_rule_id() {
    let img = fixtures::rule3_pmtud();
    let topo = StaticTopology::new(Limits::default().max_topology_hops);
    let mut eng = offline_engine(&img, topo);
    let s = session_scope();

    eng.ingest(rtx(1, 10_000, s, 1500));
    eng.ingest(evt(2, "icmp.ptb", 10_400, s, vec![]));
    eng.finish();

    let snap = eng.snapshot();
    assert_eq!(snap.problems[0].cause_kinds.iter().map(|k| k.as_str()).collect::<Vec<_>>(), vec!["PmtudBlackhole"]);
    let sarif = to_sarif(&snap);
    assert!(sarif.contains("\"ruleId\":\"l3_pmtud_blackhole\""));
    assert!(sarif.contains("\"causes\":[\"PmtudBlackhole\"]"));
}

#[test]
fn sarif_is_deterministic_for_same_snapshot() {
    let img = fixtures::rule3_pmtud();
    let s = session_scope();

    let mut eng_a = offline_engine(&img, StaticTopology::new(Limits::default().max_topology_hops));
    eng_a.ingest(rtx(1, 10_000, s, 1500));
    eng_a.ingest(evt(2, "icmp.ptb", 10_400, s, vec![]));
    eng_a.finish();
    let snap_a = eng_a.snapshot();

    let mut eng_b = offline_engine(&img, StaticTopology::new(Limits::default().max_topology_hops));
    eng_b.ingest(rtx(1, 10_000, s, 1500));
    eng_b.ingest(evt(2, "icmp.ptb", 10_400, s, vec![]));
    eng_b.finish();
    let snap_b = eng_b.snapshot();

    assert_eq!(to_sarif(&snap_a), to_sarif(&snap_b));
    assert_eq!(eng_a.sarif(), eng_b.sarif());
}

#[test]
fn superseded_problems_are_excluded_from_results() {
    let img = fixtures::rule8_suppression(device_unreachable_stub_rules());
    let (r1, r2) = (ScopeId::port(1, 1), ScopeId::port(2, 1));
    let mut topo = StaticTopology::new(Limits::default().max_topology_hops);
    topo.upstream_edge(r1, r2);
    let mut eng = offline_engine(&img, topo);
    let k1 = eng.intern_scope(r1);
    let k2 = eng.intern_scope(r2);

    eng.ingest(evt(1, STUB_EVENT_TYPE, 1_000, ScopeId::global(), vec![(FieldIdx(EVENT_FIELD_TARGET), k1)]));
    eng.ingest(evt(2, STUB_EVENT_TYPE, 2_000, ScopeId::global(), vec![(FieldIdx(EVENT_FIELD_TARGET), k2)]));
    eng.finish();

    let snap = eng.snapshot();
    assert_eq!(snap.problems.iter().filter(|p| p.superseded).count(), 1);

    let sarif = to_sarif(&snap);
    assert_eq!(sarif.matches("\"ruleId\":\"ap_device_unreachable\"").count(), 1);
}

#[test]
fn strict_privacy_engine_sarif_redacts_pii_evidence() {
    let img = fixtures::rule3_pmtud();
    let s = session_scope();
    let t_burst = Name::new("tcp.retransmission_burst");
    let dst = airpulse_dsl::catalog::metric::resolve_metric_path(
        airpulse_dsl::catalog::metric::EventOrBindingType::Event(&t_burst),
        "dst_ip",
    )
    .unwrap()
    .0;
    let run = |strict: bool| {
        let mut eng = offline_engine(&img, StaticTopology::new(16)).with_strict_privacy(strict);
        eng.ingest(evt(1, "tcp.retransmission_burst", 10_000, s, vec![(FieldIdx(fixtures::F_SEGMENT_SIZE), 1500), (dst, 167772161)]));
        eng.ingest(evt(2, "icmp.ptb", 10_400, s, vec![]));
        eng.finish();
        eng.sarif()
    };
    let open = run(false);
    let strict = run(true);
    assert!(open.contains("\"dst_ip\":\"167772161\""), "{open}");
    assert!(strict.contains("\"dst_ip\":\"<redacted>\""), "{strict}");
    assert!(strict.contains("\"segment_size\":\"1500\""), "{strict}");
}
