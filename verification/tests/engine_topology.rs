use airpulse_dsl::eval::binding::EVENT_FIELD_TARGET;
use airpulse_dsl::eval::engine::Engine;
use airpulse_dsl::eval::fixtures;
use airpulse_dsl::eval::sink::{LiveActionSink, OfflineAuditSink, RunMode, SinkOutcome};
use airpulse_dsl::eval::topology::StaticTopology;
use airpulse_dsl::ir::FieldIdx;
use airpulse_dsl::store::event::{EventNode, EventProvenance};
use airpulse_dsl::store::limits::Limits;
use airpulse_dsl::store::subgraph::EvidenceEdgeKind;
use airpulse_dsl::types::{ActionKind, DurationMs, EventId, EventTime, Name, ScopeId};

fn t(ms: i64) -> EventTime {
    EventTime::from_millis(ms)
}

fn session() -> ScopeId {
    ScopeId::session((0x0a00_0001, 443), (0x0a00_0002, 51234))
}

fn session_b() -> ScopeId {
    ScopeId::session((0x0a00_0003, 443), (0x0a00_0004, 51235))
}

fn rtx(id: u64, time_ms: i64, scope: ScopeId, target_key: Option<i64>) -> EventNode {
    let mut fields = vec![(FieldIdx(fixtures::F_SEGMENT_SIZE), 1500)];
    if let Some(k) = target_key {
        fields.push((FieldIdx(EVENT_FIELD_TARGET), k));
    }
    EventNode::new(EventId::new(id), Name::new("tcp.retransmission_burst"), t(time_ms), scope, fields, EventProvenance::default())
}

fn ptb(id: u64, time_ms: i64, scope: ScopeId, target_key: Option<i64>) -> EventNode {
    let mut fields = vec![];
    if let Some(k) = target_key {
        fields.push((FieldIdx(EVENT_FIELD_TARGET), k));
    }
    EventNode::new(EventId::new(id), Name::new("icmp.ptb"), t(time_ms), scope, fields, EventProvenance::default())
}

fn offline(topo: StaticTopology) -> Engine<'static, StaticTopology, OfflineAuditSink> {
    let img = Box::leak(Box::new(fixtures::rule3_pmtud()));
    Engine::new(img, topo, OfflineAuditSink::new(), Limits::default(), RunMode::Offline)
}

fn live(topo: StaticTopology) -> Engine<'static, StaticTopology, LiveActionSink> {
    let img = Box::leak(Box::new(fixtures::rule3_pmtud()));
    Engine::new(
        img,
        topo,
        LiveActionSink::new(),
        Limits {
            max_disorder: DurationMs::from_millis(0).unwrap(),
            allowed_lateness: DurationMs::from_millis(0).unwrap(),
            ..Limits::default()
        },
        RunMode::Live,
    )
}

#[test]
fn unknown_topo_drives_request_topology_not_absent_branch() {
    let mut eng = offline(StaticTopology::new(16));
    let s = session();
    let ta = ScopeId::vlan(11);
    let tb = ScopeId::vlan(22);
    let ka = eng.intern_scope(ta);
    let kb = eng.intern_scope(tb);

    eng.ingest(rtx(1, 10_000, s, Some(ka)));
    eng.ingest(ptb(2, 10_400, s, Some(kb)));
    eng.finish();

    let snap = eng.snapshot();
    assert!(snap.causes.is_empty(), "Unknown must not collapse to absent or present; causes={:?}", snap.causes);
    assert_eq!(snap.audit.len(), 1, "only request_topology expected, audit={:?}", snap.audit);
    assert_eq!(snap.audit[0].intent.kind, ActionKind::RequestTopology);
    assert_eq!(snap.audit[0].code, None);
    assert!(
        !snap.audit.iter().any(|e| e.intent.kind == ActionKind::RequestObservation),
        "False/absent else-branch must not run under Unknown"
    );
}

#[test]
fn known_unrelated_topo_takes_absent_else_not_request_topology() {
    let ta = ScopeId::vlan(11);
    let tb = ScopeId::vlan(22);
    let mut topo = StaticTopology::new(16);
    topo.declare(ta);
    topo.declare(tb);

    let mut eng = offline(topo);
    let s = session();
    let ka = eng.intern_scope(ta);
    let kb = eng.intern_scope(tb);

    eng.ingest(rtx(1, 10_000, s, Some(ka)));
    eng.ingest(ptb(2, 10_400, s, Some(kb)));
    eng.finish();

    let snap = eng.snapshot();
    let session_cause = snap.causes.iter().find(|c| c.scope == s).expect("absent-branch infer on session partition");
    assert_eq!(session_cause.confidence.value(), 35);
    assert_eq!(session_cause.target, ta);
    assert!(
        snap.audit.iter().any(|e| e.intent.kind == ActionKind::RequestObservation),
        "absent else should request_observation, audit={:?}",
        snap.audit
    );
    assert!(snap.audit.iter().all(|e| e.intent.kind != ActionKind::RequestTopology), "False topo must not take unknown_body");
}

#[test]
fn live_unknown_request_topology_soft_fails_not_supported() {
    let mut eng = live(StaticTopology::new(16));
    let s = session();
    let ta = ScopeId::vlan(11);
    let tb = ScopeId::vlan(22);
    let ka = eng.intern_scope(ta);
    let kb = eng.intern_scope(tb);

    eng.ingest(rtx(1, 10_000, s, Some(ka)));
    eng.ingest(ptb(2, 10_400, s, Some(kb)));
    eng.finish();

    assert!(eng.graph_snapshot().causes.is_empty());
    assert_eq!(eng.sink().entries().len(), 1);
    assert_eq!(eng.sink().entries()[0].intent.kind, ActionKind::RequestTopology);
    assert_eq!(eng.sink().outcomes(), &[SinkOutcome::NotSupported]);
}

#[test]
fn cross_scope_rollup_parent_confidence_is_max() {
    let vlan = ScopeId::vlan(42);
    let mut eng = offline(StaticTopology::new(16));
    let kv = eng.intern_scope(vlan);
    let s1 = session();
    let s2 = session_b();

    eng.ingest(rtx(1, 10_000, s1, Some(kv)));
    eng.ingest(ptb(2, 10_400, s1, Some(kv)));
    eng.advance_watermark(t(11_001));

    eng.ingest(rtx(3, 20_000, s2, Some(kv)));
    eng.finish();

    let snap = eng.snapshot();
    let parent = snap.causes.iter().find(|c| c.scope == vlan && c.target == vlan).expect("rolled-up cause on VLAN parent");
    assert_eq!(parent.confidence.value(), 85, "parent confidence must be MAX(85, 35), snap={:?}", snap.causes);

    let part = eng.store().partition(vlan).expect("vlan partition after roll-up");
    assert!(part.edges().iter().any(|e| e.kind == EvidenceEdgeKind::RollsUp), "RollsUp provenance edge required on parent");
    assert!(part.cause(&Name::new("PmtudBlackhole"), vlan).is_some(), "parent cause key (PmtudBlackhole, vlan)");
}
