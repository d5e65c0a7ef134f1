use airpulse_dsl::ir::image::{AnchorKey, ExclusivityGroup, ProgramImage};
use airpulse_dsl::ir::intent::Intent;
use airpulse_dsl::ir::rule::{
    AnchorSource, AnchorSpec, BranchTable, CorrelateSource, CorrelateSpec, RuleInstance, TopoCall,
    VerifiedAnnotations, WindowProof,
};
use airpulse_dsl::ir::{BindingIdx, CatalogRef, FieldIdx, PredOp, Predicate, ProvKey, RuleKind, SlotIdx, Symbol, TopoFuncIdx, MAX_SLOTS};
use airpulse_dsl::types::{ActionKind, DurationMs, Name, ScopeType, Severity, Weight};

fn slot(i: u8) -> SlotIdx {
    SlotIdx::new(i).expect("test slot within MAX_SLOTS")
}

fn dur(ms: i64) -> DurationMs {
    DurationMs::from_millis(ms).expect("non-negative test duration")
}

fn segment_size_gt_1400() -> Predicate {
    Predicate {
        ops: vec![
            PredOp::LoadEventField { binding: BindingIdx(0), field: FieldIdx(0), dst: slot(0) },
            PredOp::LoadConst { imm: 1400, dst: slot(1) },
            PredOp::CmpGt { lhs: slot(0), rhs: slot(1), dst: slot(2) },
        ],
        result: slot(2),
    }
}

#[test]
fn slot_idx_is_bounded_by_max_slots() {
    assert!(SlotIdx::new(0).is_some());
    let last = SlotIdx::new((MAX_SLOTS - 1) as u8).expect("last slot is valid");
    assert_eq!(last.index(), MAX_SLOTS - 1);
    assert!(SlotIdx::new(MAX_SLOTS as u8).is_none());
    assert!(SlotIdx::new(u8::MAX).is_none());
}

#[test]
fn always_true_shape() {
    let p = Predicate::always_true();
    assert_eq!(p.ops.len(), 1);
    assert!(matches!(p.ops[0], PredOp::LoadConst { imm: 1, dst } if dst == p.result));
}

#[test]
fn symbol_value_semantics() {
    assert_eq!(Symbol::new("rtx"), Symbol::from("rtx"));
    assert_ne!(Symbol::new("rtx"), Symbol::new("ptb"));
    assert_eq!(Symbol::new("upstream").as_str(), "upstream");
}

#[test]
fn predicate_opcode_round_trip() {
    let p = segment_size_gt_1400();
    assert_eq!(p.ops.len(), 3);
    assert_eq!(p.ops[0], PredOp::LoadEventField { binding: BindingIdx(0), field: FieldIdx(0), dst: slot(0) });
    assert_eq!(p.ops[1], PredOp::LoadConst { imm: 1400, dst: slot(1) });
    assert_eq!(p.ops[2], PredOp::CmpGt { lhs: slot(0), rhs: slot(1), dst: slot(2) });
    assert_eq!(p.result, slot(2));
    assert_eq!(p, segment_size_gt_1400());
    assert_ne!(p, Predicate::always_true());

    let win = Predicate {
        ops: vec![
            PredOp::LoadEventField { binding: BindingIdx(0), field: FieldIdx(3), dst: slot(0) },
            PredOp::LoadDuration { dur: dur(500), dst: slot(1) },
            PredOp::WinBack { time: slot(0), dur: slot(1), dst: slot(2) },
            PredOp::LoadDuration { dur: dur(1000), dst: slot(3) },
            PredOp::WinFwd { time: slot(0), dur: slot(3), dst: slot(4) },
            PredOp::LoadEventField { binding: BindingIdx(1), field: FieldIdx(3), dst: slot(5) },
            PredOp::WinIn { x: slot(5), lo: slot(2), hi: slot(4), dst: slot(6) },
        ],
        result: slot(6),
    };
    assert!(matches!(win.ops[6], PredOp::WinIn { dst, .. } if dst == win.result));
}

#[test]
fn slot_index_round_trips_every_register() {
    for raw in 0..MAX_SLOTS as u8 {
        assert_eq!(slot(raw).index(), raw as usize);
    }
}

#[test]
fn pack_version_places_major_minor_patch_bytes() {
    assert_eq!(ProgramImage::pack_version(1, 2, 3), 0x0001_0203);
    assert_eq!(ProgramImage::pack_version(0, 0, 0), 0);
    assert_eq!(ProgramImage::pack_version(255, 255, 255), 0x00FF_FFFF);
}

fn catalog_ref() -> CatalogRef {
    CatalogRef { id: "airpulse.catalog".to_string(), version: "1.0".to_string() }
}

fn pmtud_hypothesis() -> RuleInstance {
    let correlates = vec![CorrelateSpec {
        binding: Symbol::new("ptb"),
        source: CorrelateSource::Event(Name::new("icmp.ptb")),
        topo: TopoCall {
            func: "same_session".to_string(),
            func_idx: TopoFuncIdx(0),
            args: vec![Name::new("rtx.target"), Name::new("ptb.target")],
        },
        window: WindowProof::Calculable { back: dur(500), forward: dur(1000) },
        min_match: 1,
    }];
    let prov = ProvKey {
        rule: Name::new("pmtud_hypothesis"),
        cause: Name::new("PmtudBlackhole"),
        target_expr_hash: 0x9e37_79b9,
    };
    let branches = BranchTable {
        cond: Predicate { ops: vec![PredOp::Present { binding: BindingIdx(1), dst: slot(0) }], result: slot(0) },
        then_body: vec![Intent::InferCause {
            cause: Name::new("PmtudBlackhole"),
            target: Name::new("rtx.target"),
            weight: Weight::new(85).expect("weight in domain"),
            evidence: vec![Symbol::new("rtx"), Symbol::new("ptb")],
            provenance_key: prov.clone(),
            evidence_pii: vec![],
        }],
        else_body: Some(vec![
            Intent::InferCause {
                cause: Name::new("PmtudBlackhole"),
                target: Name::new("rtx.target"),
                weight: Weight::new(35).expect("weight in domain"),
                evidence: vec![Symbol::new("rtx")],
                provenance_key: prov,
                evidence_pii: vec![],
            },
            Intent::EmitAction {
                kind: ActionKind::RequestObservation,
                arg: Some(Symbol::new("icmp.visibility")),
                target: Some(Name::new("rtx.path")),
                reason: None,
                evidence: vec![],
            },
        ]),
        unknown_body: vec![Intent::EmitAction {
            kind: ActionKind::RequestTopology,
            arg: None,
            target: None,
            reason: None,
            evidence: vec![],
        }],
    };
    let annotations = VerifiedAnnotations::from_correlates(&correlates, Some(ScopeType::Session));
    RuleInstance {
        id: Name::new("pmtud_hypothesis"),
        kind: RuleKind::Evidence,
        scope: ScopeType::Session,
        anchor: AnchorSpec {
            binding: Symbol::new("rtx"),
            source: AnchorSource::Event(Name::new("tcp.retransmission_burst")),
            predicate: segment_size_gt_1400(),
        },
        correlates,
        branches: Some(branches),
        body: vec![],
        annotations,
    }
}

fn pmtud_verdict() -> RuleInstance {
    RuleInstance {
        id: Name::new("pmtud_verdict"),
        kind: RuleKind::Decision,
        scope: ScopeType::Session,
        anchor: AnchorSpec {
            binding: Symbol::new("c"),
            source: AnchorSource::Cause(Name::new("PmtudBlackhole")),
            predicate: Predicate {
                ops: vec![
                    PredOp::LoadCauseField { binding: BindingIdx(0), field: FieldIdx(0), dst: slot(0) },
                    PredOp::LoadConst { imm: 80, dst: slot(1) },
                    PredOp::CmpGe { lhs: slot(0), rhs: slot(1), dst: slot(2) },
                ],
                result: slot(2),
            },
        },
        correlates: vec![],
        branches: None,
        body: vec![Intent::EmitProblem {
            problem: Name::new("XlIcmpTcpMss"),
            target: None,
            severity: Severity::High,
            evidence: vec![Symbol::new("c")],
            sarif_id: Name::new("l3_pmtud_blackhole"),
            pii: vec![],
        }],
        annotations: VerifiedAnnotations::from_correlates(&[], None),
    }
}

fn tcp_diagnostics_image() -> ProgramImage {
    ProgramImage::new(
        ProgramImage::pack_version(1, 0, 0),
        "airpulse.tcp_diagnostics",
        vec![Name::new("l3-deep"), Name::new("topology")],
        vec![ExclusivityGroup {
            causes: vec![Name::new("PmtudBlackhole"), Name::new("Congestion"), Name::new("TransientL2Disruption")],
        }],
        vec![pmtud_hypothesis(), pmtud_verdict()],
        catalog_ref(),
    )
}

#[test]
fn rules_for_routes_by_anchor_and_class() {
    let img = tcp_diagnostics_image();
    assert_eq!(img.magic, *b"ADGL");
    assert_eq!(img.version, (1 << 16));

    let evt = Name::new("tcp.retransmission_burst");
    let hits: Vec<_> = img
        .rules_for(AnchorKey::Event(&evt), ScopeType::Session, RuleKind::Evidence)
        .into_iter()
        .map(|r| r.id.as_str())
        .collect();
    assert_eq!(hits, ["pmtud_hypothesis"]);

    let cause = Name::new("PmtudBlackhole");
    let hits: Vec<_> = img
        .rules_for(AnchorKey::Cause(&cause), ScopeType::Session, RuleKind::Decision)
        .into_iter()
        .map(|r| r.id.as_str())
        .collect();
    assert_eq!(hits, ["pmtud_verdict"]);

    assert_eq!(img.rules_for(AnchorKey::Event(&evt), ScopeType::Session, RuleKind::Decision).len(), 0);
    assert_eq!(img.rules_for(AnchorKey::Event(&evt), ScopeType::Global, RuleKind::Evidence).len(), 0);
    let other = Name::new("icmp.ptb");
    assert_eq!(img.rules_for(AnchorKey::Event(&other), ScopeType::Session, RuleKind::Evidence).len(), 0);
}

#[test]
fn rule3_pmtud_shape_is_expressible() {
    let rule = pmtud_hypothesis();

    assert!(matches!(
        &rule.anchor.source,
        AnchorSource::Event(t) if t.as_str() == "tcp.retransmission_burst"
    ));
    assert_eq!(rule.anchor.binding, Symbol::new("rtx"));
    assert_eq!(rule.anchor.predicate.ops.len(), 3);

    assert_eq!(rule.correlates.len(), 1);
    assert_eq!(rule.correlates[0].window, WindowProof::Calculable { back: dur(500), forward: dur(1000) });
    assert_eq!(rule.max_forward(), dur(1000));
    assert_eq!(rule.annotations.max_backward, dur(500));
    assert_eq!(rule.annotations.target_scope, Some(ScopeType::Session));

    let branches = rule.branches.as_ref().expect("rule 3 has an if/else");
    assert!(matches!(branches.cond.ops[0], PredOp::Present { binding: BindingIdx(1), .. }));
    match &branches.then_body[0] {
        Intent::InferCause { cause, target, weight, evidence, .. } => {
            assert_eq!(cause.as_str(), "PmtudBlackhole");
            assert_eq!(target.as_str(), "rtx.target");
            assert_eq!(weight.value(), 85);
            assert_eq!(evidence.len(), 2);
        }
        other => panic!("expected InferCause, got {other:?}"),
    }
    let else_body = branches.else_body.as_ref().expect("rule 3 has else");
    assert!(matches!(
        &else_body[0],
        Intent::InferCause { weight, evidence, .. } if weight.value() == 35 && evidence.len() == 1
    ));
    assert!(matches!(
        &else_body[1],
        Intent::EmitAction { kind: ActionKind::RequestObservation, arg: Some(a), .. }
            if a.as_str() == "icmp.visibility"
    ));
    assert!(matches!(&branches.unknown_body[0], Intent::EmitAction { kind: ActionKind::RequestTopology, .. }));

    let key_of = |i: &Intent| match i {
        Intent::InferCause { provenance_key, .. } => provenance_key.clone(),
        other => panic!("expected InferCause, got {other:?}"),
    };
    assert_eq!(key_of(&branches.then_body[0]), key_of(&else_body[0]));
}

#[test]
fn rule8_suppress_downstream_shape_is_expressible() {
    let correlates = vec![CorrelateSpec {
        binding: Symbol::new("upstream"),
        source: CorrelateSource::Problem(Name::new("DeviceUnreachable")),
        topo: TopoCall {
            func: "upstream_of".to_string(),
            func_idx: TopoFuncIdx(5),
            args: vec![Name::new("upstream.target"), Name::new("downstream.target")],
        },
        window: WindowProof::Calculable { back: dur(30_000), forward: dur(5_000) },
        min_match: 1,
    }];
    let rule = RuleInstance {
        id: Name::new("suppress_downstream"),
        kind: RuleKind::Decision,
        scope: ScopeType::Global,
        anchor: AnchorSpec {
            binding: Symbol::new("downstream"),
            source: AnchorSource::Problem(Name::new("DeviceUnreachable")),
            predicate: Predicate::always_true(),
        },
        correlates,
        branches: Some(BranchTable {
            cond: Predicate { ops: vec![PredOp::Present { binding: BindingIdx(1), dst: slot(0) }], result: slot(0) },
            then_body: vec![Intent::SupersedeProblem {
                problem: Name::new("DeviceUnreachable"),
                target: Name::new("downstream.target"),
            }],
            else_body: None,
            unknown_body: vec![Intent::EmitAction {
                kind: ActionKind::RequestTopology,
                arg: None,
                target: None,
                reason: None,
                evidence: vec![],
            }],
        }),
        body: vec![],
        annotations: VerifiedAnnotations { max_backward: dur(30_000), max_forward: dur(5_000), target_scope: None },
    };

    let img = ProgramImage::new(
        ProgramImage::pack_version(1, 0, 0),
        "airpulse.topo_suppression",
        vec![Name::new("topology")],
        vec![],
        vec![rule],
        catalog_ref(),
    );

    let p = Name::new("DeviceUnreachable");
    let hits: Vec<_> = img.rules_for(AnchorKey::Problem(&p), ScopeType::Global, RuleKind::Decision);
    assert_eq!(hits.len(), 1);
    let rule = hits[0];
    assert!(matches!(rule.correlates[0].source, CorrelateSource::Problem(_)));
    assert_eq!(rule.correlates[0].topo.func.as_str(), "upstream_of");
    let then_body = &rule.branches.as_ref().expect("has branch").then_body;
    assert!(matches!(
        &then_body[0],
        Intent::SupersedeProblem { target, .. } if target.as_str() == "downstream.target"
    ));
}

#[test]
fn annotations_take_the_largest_calculable_window() {
    let spec = |back: i64, forward: i64| CorrelateSpec {
        binding: Symbol::new("x"),
        source: CorrelateSource::Event(Name::new("icmp.ptb")),
        topo: TopoCall { func: "same_session".to_string(), func_idx: TopoFuncIdx(0), args: vec![] },
        window: WindowProof::Calculable { back: dur(back), forward: dur(forward) },
        min_match: 1,
    };
    let mut runtime = spec(0, 0);
    runtime.window = WindowProof::RuntimeCheck;
    let a = VerifiedAnnotations::from_correlates(&[spec(500, 10), runtime, spec(200, 3000)], None);
    assert_eq!(a.max_backward, dur(500));
    assert_eq!(a.max_forward, dur(3000));
    let none = VerifiedAnnotations::from_correlates(&[], Some(ScopeType::Vlan));
    assert_eq!(none.max_forward, dur(0));
    assert_eq!(none.target_scope, Some(ScopeType::Vlan));
}
