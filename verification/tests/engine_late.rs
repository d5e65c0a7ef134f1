use airpulse_dsl::eval::diag::EngineDiagnostic;
use airpulse_dsl::eval::engine::Engine;
use airpulse_dsl::eval::fixtures;
use airpulse_dsl::eval::sink::{OfflineAuditSink, RunMode};
use airpulse_dsl::eval::topology::StaticTopology;
use airpulse_dsl::store::event::{EventNode, EventProvenance};
use airpulse_dsl::store::limits::Limits;
use airpulse_dsl::ir::FieldIdx;
use airpulse_dsl::types::{DurationMs, EventId, EventTime, Name, ScopeId};

fn t(ms: i64) -> EventTime {
    EventTime::from_millis(ms)
}

fn d(ms: i64) -> DurationMs {
    DurationMs::from_millis(ms).expect("non-negative duration in test")
}

fn session() -> ScopeId {
    ScopeId::session((0x0a00_0001, 443), (0x0a00_0002, 51234))
}

fn session_b() -> ScopeId {
    ScopeId::session((0x0a00_0003, 443), (0x0a00_0004, 51235))
}

fn rtx(id: u64, time_ms: i64, scope: ScopeId) -> EventNode {
    EventNode::new(
        EventId::new(id),
        Name::new("tcp.retransmission_burst"),
        t(time_ms),
        scope,
        vec![(FieldIdx(fixtures::F_SEGMENT_SIZE), 1500)],
        EventProvenance::default(),
    )
}

fn ptb(id: u64, time_ms: i64, scope: ScopeId) -> EventNode {
    EventNode::new(EventId::new(id), Name::new("icmp.ptb"), t(time_ms), scope, vec![], EventProvenance::default())
}

fn offline_engine(limits: Limits) -> Engine<'static, StaticTopology, OfflineAuditSink> {
    let img = Box::leak(Box::new(fixtures::rule3_pmtud()));
    Engine::new(img, StaticTopology::new(limits.max_topology_hops), OfflineAuditSink::new(), limits, RunMode::Offline)
}

fn live_engine(limits: Limits) -> Engine<'static, StaticTopology, OfflineAuditSink> {
    let img = Box::leak(Box::new(fixtures::rule3_pmtud()));
    Engine::new(img, StaticTopology::new(limits.max_topology_hops), OfflineAuditSink::new(), limits, RunMode::Live)
}

#[test]
fn offline_late_evidence_after_absent_audits_adgl3002_without_retroactive_infer() {
    let mut eng = offline_engine(Limits::default());
    let s = session();

    eng.ingest(rtx(1, 10_000, s));
    assert_eq!(eng.suspended(), 1);
    eng.advance_watermark(t(11_001));
    assert_eq!(eng.resumed(), 1);

    let snap_before = eng.snapshot();
    assert_eq!(snap_before.causes.len(), 1);
    assert_eq!(snap_before.causes[0].confidence.value(), 35);

    eng.ingest(ptb(2, 10_400, s));

    let diags: Vec<_> = eng.diagnostics().iter().filter(|d| d.code() == Some("ADGL3002")).collect();
    assert_eq!(diags.len(), 1, "offline late evidence must audit ADGL3002, got: {:?}", eng.diagnostics());
    assert!(
        matches!(diags[0], EngineDiagnostic::LateEvidence { event_type, .. } if event_type.as_str() == "icmp.ptb"),
        "LateEvidence should name the late correlate event type"
    );

    let snap = eng.snapshot();
    assert_eq!(snap.causes.len(), 1);
    assert_eq!(snap.causes[0].confidence.value(), 35, "append-only: must not retroactively re-apply present-branch infer");
    assert!(
        eng.store().ring(s).is_some_and(|r| r.iter().iter().any(|e| e.id == EventId::new(2))),
        "offline late evidence stays in the ring"
    );
    assert!(eng.late_side_output().is_empty(), "offline does not use the live drop side-output");
}

#[test]
fn offline_late_evidence_after_if_absent_true_audits_adgl3002() {
    let img = Box::leak(Box::new(fixtures::rule3_pmtud_if_absent()));
    let mut eng = Engine::new(
        img,
        StaticTopology::new(Limits::default().max_topology_hops),
        OfflineAuditSink::new(),
        Limits::default(),
        RunMode::Offline,
    );
    let s = session();

    eng.ingest(rtx(1, 10_000, s));
    eng.advance_watermark(t(11_001));
    assert_eq!(eng.resumed(), 1);

    let snap_before = eng.snapshot();
    assert_eq!(snap_before.causes.len(), 1);
    assert_eq!(snap_before.causes[0].confidence.value(), 35);

    eng.ingest(ptb(2, 10_400, s));

    let diags: Vec<_> = eng.diagnostics().iter().filter(|d| d.code() == Some("ADGL3002")).collect();
    assert_eq!(diags.len(), 1, "if absent(...) True path must still record resolved-absent for ADGL3002, got: {:?}", eng.diagnostics());
    assert_eq!(eng.snapshot().causes[0].confidence.value(), 35);
}

#[test]
fn offline_late_event_while_pending_is_accepted_without_3002() {
    let mut eng = offline_engine(Limits::default());
    let s = session();

    eng.ingest(rtx(1, 10_000, s));
    eng.ingest(ptb(2, 9_900, s));

    assert!(eng.diagnostics().iter().all(|d| d.code() != Some("ADGL3002")), "pending-open late evidence must not emit ADGL3002");
    eng.finish();
    let snap = eng.snapshot();
    assert_eq!(snap.causes[0].confidence.value(), 85);
}

#[test]
fn live_late_event_dropped_to_side_output_adgl3003() {
    let limits = Limits { max_disorder: d(0), allowed_lateness: d(0), ..Limits::default() };
    let mut eng = live_engine(limits);
    let s = session();

    eng.ingest(rtx(1, 10_000, s));
    assert_eq!(eng.store().watermark(), t(10_000));

    eng.ingest(ptb(2, 9_500, s));

    assert_eq!(
        eng.diagnostics().iter().filter(|d| d.code() == Some("ADGL3003")).count(),
        1,
        "live late drop must audit ADGL3003, got: {:?}",
        eng.diagnostics()
    );
    assert_eq!(eng.late_side_output().len(), 1);
    assert_eq!(eng.late_side_output()[0].id, EventId::new(2));
    assert!(
        eng.store().ring(s).is_none_or(|r| !r.iter().iter().any(|e| e.id == EventId::new(2))),
        "dropped late event must not enter the ring"
    );
}

#[test]
fn live_allowed_lateness_accepts_event_inside_grace_window() {
    let limits = Limits { max_disorder: d(0), allowed_lateness: d(1_000), ..Limits::default() };
    let mut eng = live_engine(limits);
    let s = session();

    eng.ingest(rtx(1, 10_000, s));
    eng.ingest(ptb(2, 9_500, s));

    assert!(eng.diagnostics().iter().all(|d| d.code() != Some("ADGL3003")), "within allowed_lateness must not drop");
    assert!(eng.late_side_output().is_empty());
    assert!(eng.store().ring(s).is_some_and(|r| r.iter().iter().any(|e| e.id == EventId::new(2))));
}

#[test]
fn live_idle_source_excluded_from_global_watermark_min() {
    let limits = Limits { max_disorder: d(0), idle_timeout: d(1_000), ..Limits::default() };
    let mut eng = live_engine(limits);
    let a = session();
    let b = session_b();

    eng.ingest(rtx(1, 10_000, a));
    eng.ingest(rtx(2, 10_000, b));
    assert_eq!(eng.store().watermark(), t(10_000));

    eng.advance_wall_clock(t(12_000));
    eng.ingest(rtx(3, 12_000, a));

    assert_eq!(eng.store().watermark(), t(12_000), "idle source B must not pin global watermark at 10000");
}

#[test]
fn lookback_gc_keeps_pending_anchor_until_resume() {
    let limits = Limits { max_lookback: d(1_200), ..Limits::default() };
    let mut eng = offline_engine(limits);
    let s = session();

    eng.ingest(rtx(1, 10_000, s));
    assert_eq!(eng.suspended(), 1);
    assert_eq!(eng.store().pending_len(s), 1);

    eng.advance_watermark(t(10_500));
    assert!(
        eng.store().ring(s).is_some_and(|r| r.iter().iter().any(|e| e.id == EventId::new(1))),
        "pending anchor must not be GC'd while WaitQueue entry is live"
    );
    assert_eq!(eng.store().pending_len(s), 1);

    eng.advance_watermark(t(11_001));
    assert_eq!(eng.resumed(), 1);
    assert_eq!(eng.store().pending_len(s), 0);
}

#[test]
fn finish_is_idempotent_and_counts_never_shrink() {
    let mut eng = offline_engine(Limits::default());
    let s = session();
    eng.ingest(rtx(1, 10_000, s));
    eng.finish();
    let wm = eng.store().watermark();
    let snap = eng.snapshot();
    eng.finish();
    assert_eq!(eng.store().watermark(), wm);
    assert_eq!(eng.snapshot(), snap);
    eng.advance_watermark(t(0));
    assert_eq!(eng.store().watermark(), wm, "the watermark never regresses");
}
