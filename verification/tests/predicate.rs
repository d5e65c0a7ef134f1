use airpulse_dsl::eval::binding::{Binding, Bound};
use airpulse_dsl::eval::error::CorrelateError;
use airpulse_dsl::eval::interner::{scope_key_i64, ScopeInterner};
use airpulse_dsl::eval::predicate::{eval_predicate, PredCtx};
use airpulse_dsl::eval::topology::StaticTopology;
use airpulse_dsl::ir::{BindingIdx, FieldIdx, PredOp, Predicate, SlotIdx, TopoFuncIdx};
use airpulse_dsl::store::event::{EventNode, EventProvenance};
use airpulse_dsl::types::{DurationMs, EventId, EventTime, Name, ScopeId, T3};

fn slot(i: u8) -> SlotIdx {
    SlotIdx::new(i).expect("test slot within MAX_SLOTS")
}

fn event(fields: Vec<(FieldIdx, i64)>) -> EventNode {
    EventNode::new(
        EventId::new(1),
        Name::new("tcp.retransmission_burst"),
        EventTime::from_millis(10_000),
        ScopeId::vlan(1),
        fields,
        EventProvenance::default(),
    )
}

fn run_pred(pred: &Predicate, bindings: &[Binding]) -> Result<T3, CorrelateError> {
    let mut topo = StaticTopology::new(4);
    let mut interner = ScopeInterner::new();
    interner.intern(ScopeId::vlan(1));
    let ctx = PredCtx { bindings, scope: ScopeId::vlan(1), interner: &interner };
    eval_predicate(pred, &ctx, &mut topo)
}

#[test]
fn checked_arithmetic_yields_error_values_not_panics() {
    let overflow = Predicate {
        ops: vec![
            PredOp::LoadConst { imm: i64::MAX, dst: slot(0) },
            PredOp::LoadConst { imm: 1, dst: slot(1) },
            PredOp::Add { lhs: slot(0), rhs: slot(1), dst: slot(2) },
        ],
        result: slot(2),
    };
    assert_eq!(run_pred(&overflow, &[]), Err(CorrelateError::ArithOverflow));

    let div_zero = Predicate {
        ops: vec![
            PredOp::LoadConst { imm: 7, dst: slot(0) },
            PredOp::LoadConst { imm: 0, dst: slot(1) },
            PredOp::Div { lhs: slot(0), rhs: slot(1), dst: slot(2) },
        ],
        result: slot(2),
    };
    assert_eq!(run_pred(&div_zero, &[]), Err(CorrelateError::DivisionByZero));

    let min_div = Predicate {
        ops: vec![
            PredOp::LoadConst { imm: i64::MIN, dst: slot(0) },
            PredOp::LoadConst { imm: -1, dst: slot(1) },
            PredOp::Div { lhs: slot(0), rhs: slot(1), dst: slot(2) },
        ],
        result: slot(2),
    };
    assert_eq!(run_pred(&min_div, &[]), Err(CorrelateError::ArithOverflow));
}

#[test]
fn metric_comparison_lifts_to_t3() {
    let gt_1400 = Predicate {
        ops: vec![
            PredOp::LoadEventField { binding: BindingIdx(0), field: FieldIdx(0), dst: slot(0) },
            PredOp::LoadConst { imm: 1400, dst: slot(1) },
            PredOp::CmpGt { lhs: slot(0), rhs: slot(1), dst: slot(2) },
        ],
        result: slot(2),
    };
    let big = [Binding::Bound(Bound::Event(event(vec![(FieldIdx(0), 1500)])))];
    let small = [Binding::Bound(Bound::Event(event(vec![(FieldIdx(0), 1200)])))];
    assert_eq!(run_pred(&gt_1400, &big), Ok(T3::True));
    assert_eq!(run_pred(&gt_1400, &small), Ok(T3::False));
    let missing = [Binding::Bound(Bound::Event(event(vec![])))];
    assert_eq!(run_pred(&gt_1400, &missing), Ok(T3::Unknown));
}

#[test]
fn kleene_absorbs_guarded_unbound_access() {
    let guarded = Predicate {
        ops: vec![
            PredOp::Present { binding: BindingIdx(0), dst: slot(0) },
            PredOp::LoadEventField { binding: BindingIdx(0), field: FieldIdx(0), dst: slot(1) },
            PredOp::LoadConst { imm: 1, dst: slot(2) },
            PredOp::CmpEq { lhs: slot(1), rhs: slot(2), dst: slot(3) },
            PredOp::And { lhs: slot(0), rhs: slot(3), dst: slot(4) },
        ],
        result: slot(4),
    };
    assert_eq!(run_pred(&guarded, &[Binding::Absent]), Ok(T3::False));
    assert_eq!(run_pred(&guarded, &[Binding::Unknown]), Ok(T3::Unknown));
    let bound = [Binding::Bound(Bound::Event(event(vec![(FieldIdx(0), 1)])))];
    assert_eq!(run_pred(&guarded, &bound), Ok(T3::True));
}

#[test]
fn present_absent_are_three_valued() {
    let present = Predicate { ops: vec![PredOp::Present { binding: BindingIdx(0), dst: slot(0) }], result: slot(0) };
    let absent = Predicate { ops: vec![PredOp::Absent { binding: BindingIdx(0), dst: slot(0) }], result: slot(0) };
    let bound = [Binding::Bound(Bound::Event(event(vec![])))];
    assert_eq!(run_pred(&present, &bound), Ok(T3::True));
    assert_eq!(run_pred(&absent, &bound), Ok(T3::False));
    assert_eq!(run_pred(&present, &[Binding::Absent]), Ok(T3::False));
    assert_eq!(run_pred(&absent, &[Binding::Absent]), Ok(T3::True));
    assert_eq!(run_pred(&present, &[Binding::Unknown]), Ok(T3::Unknown));
    assert_eq!(run_pred(&absent, &[Binding::Unknown]), Ok(T3::Unknown));
    assert_eq!(run_pred(&present, &[]), Err(CorrelateError::UnknownBinding { binding: 0 }));
}

#[test]
fn win_in_is_inclusive_both_ends() {
    let win = |x: i64| Predicate {
        ops: vec![
            PredOp::LoadConst { imm: x, dst: slot(0) },
            PredOp::LoadConst { imm: 100, dst: slot(1) },
            PredOp::LoadConst { imm: 200, dst: slot(2) },
            PredOp::WinIn { x: slot(0), lo: slot(1), hi: slot(2), dst: slot(3) },
        ],
        result: slot(3),
    };
    assert_eq!(run_pred(&win(100), &[]), Ok(T3::True));
    assert_eq!(run_pred(&win(200), &[]), Ok(T3::True));
    assert_eq!(run_pred(&win(99), &[]), Ok(T3::False));
    assert_eq!(run_pred(&win(201), &[]), Ok(T3::False));
}

#[test]
fn remainder_and_window_bounds_follow_checked_arithmetic() {
    let rem = Predicate {
        ops: vec![
            PredOp::LoadConst { imm: -7, dst: slot(0) },
            PredOp::LoadConst { imm: 3, dst: slot(1) },
            PredOp::Mod { lhs: slot(0), rhs: slot(1), dst: slot(2) },
            PredOp::LoadConst { imm: -1, dst: slot(3) },
            PredOp::CmpEq { lhs: slot(2), rhs: slot(3), dst: slot(4) },
        ],
        result: slot(4),
    };
    assert_eq!(run_pred(&rem, &[]), Ok(T3::True), "remainder truncates toward zero");

    let back = Predicate {
        ops: vec![
            PredOp::LoadConst { imm: i64::MIN, dst: slot(0) },
            PredOp::LoadDuration { dur: DurationMs::from_millis(1).unwrap(), dst: slot(1) },
            PredOp::WinBack { time: slot(0), dur: slot(1), dst: slot(2) },
            PredOp::LoadConst { imm: 0, dst: slot(3) },
            PredOp::CmpLt { lhs: slot(2), rhs: slot(3), dst: slot(4) },
        ],
        result: slot(4),
    };
    assert_eq!(run_pred(&back, &[]), Err(CorrelateError::ArithOverflow));

    let not_unknown = Predicate {
        ops: vec![
            PredOp::Present { binding: BindingIdx(0), dst: slot(0) },
            PredOp::Not { src: slot(0), dst: slot(1) },
        ],
        result: slot(1),
    };
    assert_eq!(run_pred(&not_unknown, &[Binding::Unknown]), Ok(T3::Unknown));
    assert_eq!(run_pred(&not_unknown, &[Binding::Absent]), Ok(T3::True));
}

#[test]
fn topology_call_with_unknown_function_is_an_error_value() {
    let call = Predicate {
        ops: vec![
            PredOp::LoadScopeKey { dst: slot(0) },
            PredOp::TopoCall { func: TopoFuncIdx(9), a: slot(0), b: slot(0), dst: slot(1) },
        ],
        result: slot(1),
    };
    assert_eq!(run_pred(&call, &[]), Err(CorrelateError::UnknownTopoFunction { func: 9 }));
}

#[test]
fn intern_round_trips_and_is_deterministic() {
    let mut i = ScopeInterner::new();
    let s = ScopeId::vlan(100);
    let k = i.intern(s);
    assert_eq!(k, scope_key_i64(s), "intern key is the deterministic hash");
    assert_eq!(i.resolve(k), Some(s));
    assert_eq!(i.resolve(k.wrapping_add(1)), None);
    // Re-interning is idempotent.
    assert_eq!(i.intern(s), k);
}
