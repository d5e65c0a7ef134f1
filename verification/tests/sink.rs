use airpulse_dsl::eval::sink::{ActionIntent, ActionSink, LiveActionSink, OfflineAuditSink, RunMode, SinkOutcome};
use airpulse_dsl::ir::Symbol;
use airpulse_dsl::types::{ActionKind, EventTime, Name, ScopeId};

fn wm(ms: i64) -> EventTime {
    EventTime::from_millis(ms)
}

fn intent(kind: ActionKind) -> ActionIntent {
    ActionIntent {
        kind,
        rule: Name::new("test.rule"),
        arg: Some(Symbol::new("icmp.visibility")),
        target: Some(ScopeId::vlan(1)),
        target_path: Some(Name::new("rtx.path")),
        reason: Some(String::from("unit")),
        evidence: Vec::new(),
        causes: None,
    }
}

#[test]
fn offline_request_observation_audits_adgl3001_noop_in_replay() {
    let mut sink = OfflineAuditSink::new();
    sink.emit(intent(ActionKind::RequestObservation), RunMode::Offline, wm(1));

    assert_eq!(sink.entries().len(), 1);
    assert_eq!(sink.entries()[0].code, Some("ADGL3001"));
    assert_eq!(sink.entries()[0].intent.kind, ActionKind::RequestObservation);
    assert_eq!(sink.outcomes(), &[SinkOutcome::NoOpInReplay]);
}

#[test]
fn offline_non_observation_actions_audit_without_adgl3001() {
    let kinds = [ActionKind::RunCheck, ActionKind::SuppressSymptom, ActionKind::MarkAmbiguous, ActionKind::RequestTopology];
    let mut sink = OfflineAuditSink::new();
    for (i, kind) in kinds.into_iter().enumerate() {
        sink.emit(intent(kind), RunMode::Offline, wm(i as i64));
    }

    assert_eq!(sink.entries().len(), kinds.len());
    assert!(sink.entries().iter().all(|e| e.code.is_none()));
    assert!(sink.outcomes().iter().all(|o| *o == SinkOutcome::Audited));
}

#[test]
fn offline_sink_never_applies_even_when_engine_mode_is_live() {
    let mut sink = OfflineAuditSink::new();
    for kind in [
        ActionKind::RequestObservation,
        ActionKind::RequestTopology,
        ActionKind::RunCheck,
        ActionKind::MarkAmbiguous,
        ActionKind::SuppressSymptom,
    ] {
        sink.emit(intent(kind), RunMode::Live, wm(0));
    }

    assert_eq!(sink.entries().len(), 5);
    assert!(sink.entries().iter().all(|e| e.code.is_none()));
    assert!(
        sink.outcomes().iter().all(|o| *o == SinkOutcome::Audited),
        "OfflineAuditSink must never report Applied/NotSupported — it has no controllers"
    );
    assert!(!sink.outcomes().contains(&SinkOutcome::Applied));
}

#[test]
fn live_stub_offline_request_observation_is_adgl3001() {
    let mut sink = LiveActionSink::new();
    sink.emit(intent(ActionKind::RequestObservation), RunMode::Offline, wm(2));

    assert_eq!(sink.entries()[0].code, Some("ADGL3001"));
    assert_eq!(sink.outcomes(), &[SinkOutcome::NoOpInReplay]);
}

#[test]
fn live_stub_control_plane_kinds_return_not_supported() {
    let mut sink = LiveActionSink::new();
    for kind in [ActionKind::RequestObservation, ActionKind::RequestTopology, ActionKind::RunCheck] {
        sink.emit(intent(kind), RunMode::Live, wm(3));
    }

    assert_eq!(sink.entries().len(), 3);
    assert!(sink.entries().iter().all(|e| e.code.is_none()));
    assert!(sink.outcomes().iter().all(|o| *o == SinkOutcome::NotSupported));
    assert!(!sink.outcomes().contains(&SinkOutcome::Applied), "stub must not pretend to apply eBPF/topology/check");
}

#[test]
fn live_stub_graph_audit_kinds_are_audited_not_applied() {
    let mut sink = LiveActionSink::new();
    sink.emit(intent(ActionKind::MarkAmbiguous), RunMode::Live, wm(4));
    sink.emit(intent(ActionKind::SuppressSymptom), RunMode::Live, wm(5));

    assert_eq!(sink.outcomes(), &[SinkOutcome::Audited, SinkOutcome::Audited]);
}

#[test]
fn control_plane_classification_matches_spec() {
    assert!(intent(ActionKind::RequestObservation).is_control_plane());
    assert!(intent(ActionKind::RequestTopology).is_control_plane());
    assert!(intent(ActionKind::RunCheck).is_control_plane());
    assert!(!intent(ActionKind::MarkAmbiguous).is_control_plane());
    assert!(!intent(ActionKind::SuppressSymptom).is_control_plane());
}

#[test]
fn audited_entries_keep_the_intent_and_watermark() {
    let mut sink = OfflineAuditSink::new();
    let i = intent(ActionKind::MarkAmbiguous);
    sink.emit(i.clone(), RunMode::Offline, wm(42));
    assert_eq!(sink.entries()[0].intent, i);
    assert_eq!(sink.entries()[0].wm, wm(42));
}
