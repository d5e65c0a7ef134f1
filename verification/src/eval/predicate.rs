//! The predicate interpreter: straight-line opcode programs over a fixed
//! array of slot registers. Arithmetic is checked `i64` (overflow and
//! division by zero are error values), comparisons are booleans lifted to
//! `T3`, `And`/`Or`/`Not` are Kleene, and loads from an absent or unknown
//! binding (or of a field the bound value lacks) produce `Unknown`, which
//! propagates through arithmetic and comparisons.
use vstd::prelude::*;

use crate::catalog::fields::{
    CAUSE_FIELD_CONFIDENCE, CAUSE_FIELD_TARGET, CAUSE_FIELD_TIME, PROBLEM_FIELD_TARGET,
    PROBLEM_FIELD_TIME,
};
use crate::eval::binding::{Binding, Bound, EVENT_FIELD_TARGET, EVENT_FIELD_TIME};
use crate::eval::error::CorrelateError;
use crate::eval::interner::{scope_key, scope_key_i64, ScopeInterner};
use crate::eval::topology::{topo_func_of, TopoFunc, TopologyProvider};
use crate::ir::{BindingIdx, FieldIdx, PredOp, Predicate, SlotIdx, MAX_SLOTS};
use crate::types::{kleene_and, kleene_not, kleene_or, t3_of, DurationMs, ScopeId, T3};

verus! {

/// Evaluation context: the resolved bindings (anchor first, correlates in
/// declaration order), the partition scope and the scope-key intern table.
pub struct PredCtx<'a> {
    /// Binding states, anchor first.
    pub bindings: &'a [Binding],
    /// Partition scope (`LOAD_SCOPE_KEY`).
    pub scope: ScopeId,
    /// Scope-key intern table (topology argument resolution).
    pub interner: &'a ScopeInterner,
}

/// One slot register value. `Truth(Unknown)` doubles as the missing/unbound
/// marker.
#[derive(Debug, Clone, Copy, PartialEq, Eq)]
pub enum Slot {
    /// Never written.
    Empty,
    /// An `i64` value.
    Int(i64),
    /// A three-valued logic value.
    Truth(T3),
}

/// Numeric operand view: ints pass, `Unknown` propagates as `None`, anything
/// else is a type mismatch of `op`.
pub open spec fn num_spec(s: Slot, op: &'static str) -> Result<Option<i64>, CorrelateError> {
    match s {
        Slot::Int(i) => Ok(Some(i)),
        Slot::Truth(T3::Unknown) => Ok(None),
        _ => Err(CorrelateError::TypeMismatch { op }),
    }
}

/// Truth operand view: `T3` passes, ints lift (`0 → False`, else `True`).
pub open spec fn truth_spec(s: Slot, op: &'static str) -> Result<T3, CorrelateError> {
    match s {
        Slot::Truth(t) => Ok(t),
        Slot::Int(i) => Ok(t3_of(i != 0)),
        Slot::Empty => Err(CorrelateError::TypeMismatch { op }),
    }
}

/// The checked binary integer operations.
#[derive(Debug, Clone, Copy, PartialEq, Eq, Structural)]
pub enum ArithKind {
    /// `ADD`.
    Add,
    /// `SUB`.
    Sub,
    /// `MUL`.
    Mul,
    /// `DIV` (truncating).
    Div,
    /// `MOD` (remainder of truncating division).
    Mod,
    /// `WIN_BACK`: `time - dur`.
    WinBack,
    /// `WIN_FWD`: `time + dur`.
    WinFwd,
}

/// Opcode-group name of an arithmetic operation.
pub open spec fn arith_name(k: ArithKind) -> &'static str {
    match k {
        ArithKind::Add => "ADD",
        ArithKind::Sub => "SUB",
        ArithKind::Mul => "MUL",
        ArithKind::Div => "DIV",
        ArithKind::Mod => "MOD",
        ArithKind::WinBack => "WIN_BACK",
        ArithKind::WinFwd => "WIN_FWD",
    }
}

/// Lifts a checked result: `None` is an overflow.
pub open spec fn overflow_or(r: Option<i64>) -> Result<i64, CorrelateError> {
    match r {
        Some(v) => Ok(v),
        None => Err(CorrelateError::ArithOverflow),
    }
}

/// Value of a checked operation on two integers.
pub open spec fn arith_value(k: ArithKind, a: i64, b: i64) -> Result<i64, CorrelateError> {
    match k {
        ArithKind::Add | ArithKind::WinFwd => overflow_or(a.checked_add(b)),
        ArithKind::Sub | ArithKind::WinBack => overflow_or(a.checked_sub(b)),
        ArithKind::Mul => overflow_or(a.checked_mul(b)),
        ArithKind::Div => if b == 0 {
            Err(CorrelateError::DivisionByZero)
        } else {
            overflow_or(a.checked_div(b))
        },
        ArithKind::Mod => if b == 0 {
            Err(CorrelateError::DivisionByZero)
        } else {
            overflow_or(a.checked_rem(b))
        },
    }
}

/// Checked binary arithmetic with `Unknown` propagation.
pub open spec fn arith_spec(k: ArithKind, l: Slot, r: Slot) -> Result<Slot, CorrelateError> {
    match num_spec(l, arith_name(k)) {
        Err(e) => Err(e),
        Ok(a) => match num_spec(r, arith_name(k)) {
            Err(e) => Err(e),
            Ok(b) => match (a, b) {
                (Some(x), Some(y)) => match arith_value(k, x, y) {
                    Ok(v) => Ok(Slot::Int(v)),
                    Err(e) => Err(e),
                },
                _ => Ok(Slot::Truth(T3::Unknown)),
            },
        },
    }
}

/// The six integer comparisons.
#[derive(Debug, Clone, Copy, PartialEq, Eq, Structural)]
pub enum CompareKind {
    /// `==`.
    Eq,
    /// `!=`.
    Ne,
    /// `<`.
    Lt,
    /// `<=`.
    Le,
    /// `>`.
    Gt,
    /// `>=`.
    Ge,
}

/// Opcode-group name of a comparison.
pub open spec fn compare_name(k: CompareKind) -> &'static str {
    match k {
        CompareKind::Eq => "CMP_EQ",
        CompareKind::Ne => "CMP_NE",
        CompareKind::Lt => "CMP_LT",
        CompareKind::Le => "CMP_LE",
        CompareKind::Gt => "CMP_GT",
        CompareKind::Ge => "CMP_GE",
    }
}

/// Whether a comparison holds.
pub open spec fn compare_holds(k: CompareKind, a: i64, b: i64) -> bool {
    match k {
        CompareKind::Eq => a == b,
        CompareKind::Ne => a != b,
        CompareKind::Lt => a < b,
        CompareKind::Le => a <= b,
        CompareKind::Gt => a > b,
        CompareKind::Ge => a >= b,
    }
}

/// Comparison lifted to `T3`, with `Unknown` propagation.
pub open spec fn compare_spec(k: CompareKind, l: Slot, r: Slot) -> Result<Slot, CorrelateError> {
    match num_spec(l, compare_name(k)) {
        Err(e) => Err(e),
        Ok(a) => match num_spec(r, compare_name(k)) {
            Err(e) => Err(e),
            Ok(b) => match (a, b) {
                (Some(x), Some(y)) => Ok(Slot::Truth(t3_of(compare_holds(k, x, y)))),
                _ => Ok(Slot::Truth(T3::Unknown)),
            },
        },
    }
}

/// The binding at `idx`, or `UnknownBinding`.
pub open spec fn binding_spec(bs: Seq<Binding>, idx: BindingIdx) -> Result<Binding, CorrelateError> {
    if (idx.0 as int) < bs.len() {
        Ok(bs[idx.0 as int])
    } else {
        Err(CorrelateError::UnknownBinding { binding: idx.0 })
    }
}

/// `LOAD_EVENT_FIELD` on one binding.
pub open spec fn event_field_spec(b: Binding, f: FieldIdx) -> Result<Slot, CorrelateError> {
    match b {
        Binding::Bound(Bound::Event(e)) => Ok(
            if f.0 == EVENT_FIELD_TIME {
                Slot::Int(e.time.ms)
            } else if f.0 == EVENT_FIELD_TARGET {
                Slot::Int(
                    match e.field_spec(EVENT_FIELD_TARGET) {
                        Some(v) => v,
                        None => scope_key(e.scope),
                    },
                )
            } else {
                match e.field_spec(f.0) {
                    Some(v) => Slot::Int(v),
                    None => Slot::Truth(T3::Unknown),
                }
            },
        ),
        Binding::Bound(_) => Err(CorrelateError::TypeMismatch { op: "LOAD_EVENT_FIELD" }),
        _ => Ok(Slot::Truth(T3::Unknown)),
    }
}

/// `LOAD_CAUSE_FIELD` on one binding.
pub open spec fn cause_field_spec(b: Binding, f: FieldIdx) -> Result<Slot, CorrelateError> {
    match b {
        Binding::Bound(Bound::Cause(c)) => Ok(
            if f.0 == CAUSE_FIELD_CONFIDENCE {
                Slot::Int(c.confidence.val() as i64)
            } else if f.0 == CAUSE_FIELD_TARGET {
                Slot::Int(scope_key(c.target))
            } else if f.0 == CAUSE_FIELD_TIME {
                Slot::Int(c.time.ms)
            } else {
                Slot::Truth(T3::Unknown)
            },
        ),
        Binding::Bound(_) => Err(CorrelateError::TypeMismatch { op: "LOAD_CAUSE_FIELD" }),
        _ => Ok(Slot::Truth(T3::Unknown)),
    }
}

/// `LOAD_PROBLEM_FIELD` on one binding.
pub open spec fn problem_field_spec(b: Binding, f: FieldIdx) -> Result<Slot, CorrelateError> {
    match b {
        Binding::Bound(Bound::Problem(p)) => Ok(
            if f.0 == PROBLEM_FIELD_TARGET {
                Slot::Int(scope_key(p.target))
            } else if f.0 == PROBLEM_FIELD_TIME {
                Slot::Int(p.time.ms)
            } else {
                Slot::Truth(T3::Unknown)
            },
        ),
        Binding::Bound(_) => Err(CorrelateError::TypeMismatch { op: "LOAD_PROBLEM_FIELD" }),
        _ => Ok(Slot::Truth(T3::Unknown)),
    }
}

/// `present(x)` over a binding state.
pub open spec fn present_of(b: Binding) -> T3 {
    match b {
        Binding::Bound(_) => T3::True,
        Binding::Absent => T3::False,
        Binding::Unknown => T3::Unknown,
    }
}

/// `absent(x)` over a binding state.
pub open spec fn absent_of(b: Binding) -> T3 {
    match b {
        Binding::Absent => T3::True,
        Binding::Bound(_) => T3::False,
        Binding::Unknown => T3::Unknown,
    }
}

/// `TOPO_CALL` on two operand keys: the oracle's answer on the two interned
/// scopes; `Unknown` when an operand is `Unknown` or a key was never interned.
pub open spec fn topo_value(
    f: TopoFunc,
    ka: Option<i64>,
    kb: Option<i64>,
    interned: Map<i64, ScopeId>,
    ans: spec_fn(TopoFunc, ScopeId, ScopeId) -> T3,
) -> T3 {
    match (ka, kb) {
        (Some(x), Some(y)) => if interned.contains_key(x) && interned.contains_key(y) {
            ans(f, interned[x], interned[y])
        } else {
            T3::Unknown
        },
        _ => T3::Unknown,
    }
}

/// The oracle's answers as a function.
pub open spec fn answers<P: TopologyProvider>(t: P) -> spec_fn(TopoFunc, ScopeId, ScopeId) -> T3 {
    |f: TopoFunc, a: ScopeId, b: ScopeId| t.answer(f, a, b)
}

/// Register `i` of a slot file.
pub open spec fn get(s: Seq<Slot>, i: SlotIdx) -> Slot {
    s[i.idx()]
}

/// Writes `v` to register `dst` when `r` is a value.
pub open spec fn put(s: Seq<Slot>, dst: SlotIdx, r: Result<Slot, CorrelateError>) -> Result<
    Seq<Slot>,
    CorrelateError,
> {
    match r {
        Ok(v) => Ok(s.update(dst.idx(), v)),
        Err(e) => Err(e),
    }
}

/// Kleene binary connective on two truth operands of opcode group `op`.
pub open spec fn logic_spec(is_and: bool, l: Slot, r: Slot) -> Result<Slot, CorrelateError> {
    let op: &'static str = if is_and {
        "AND"
    } else {
        "OR"
    };
    match truth_spec(l, op) {
        Err(e) => Err(e),
        Ok(a) => match truth_spec(r, op) {
            Err(e) => Err(e),
            Ok(b) => Ok(
                Slot::Truth(
                    if is_and {
                        kleene_and(a, b)
                    } else {
                        kleene_or(a, b)
                    },
                ),
            ),
        },
    }
}

/// `WIN_IN`: `lo <= x <= hi`, inclusive at both ends.
pub open spec fn win_in_spec(x: Slot, lo: Slot, hi: Slot) -> Result<Slot, CorrelateError> {
    match num_spec(x, "WIN_IN") {
        Err(e) => Err(e),
        Ok(vx) => match num_spec(lo, "WIN_IN") {
            Err(e) => Err(e),
            Ok(vlo) => match num_spec(hi, "WIN_IN") {
                Err(e) => Err(e),
                Ok(vhi) => Ok(
                    Slot::Truth(
                        match (vx, vlo, vhi) {
                            (Some(a), Some(l), Some(h)) => t3_of(l <= a && a <= h),
                            _ => T3::Unknown,
                        },
                    ),
                ),
            },
        },
    }
}

/// `TOPO_CALL`.
pub open spec fn topo_call_spec(
    func: u8,
    a: Slot,
    b: Slot,
    interned: Map<i64, ScopeId>,
    ans: spec_fn(TopoFunc, ScopeId, ScopeId) -> T3,
) -> Result<Slot, CorrelateError> {
    match topo_func_of(func) {
        None => Err(CorrelateError::UnknownTopoFunction { func }),
        Some(f) => match num_spec(a, "TOPO_CALL") {
            Err(e) => Err(e),
            Ok(ka) => match num_spec(b, "TOPO_CALL") {
                Err(e) => Err(e),
                Ok(kb) => Ok(Slot::Truth(topo_value(f, ka, kb, interned, ans))),
            },
        },
    }
}

/// A binding lookup followed by a field load.
pub open spec fn load_spec(
    bs: Seq<Binding>,
    idx: BindingIdx,
    load: spec_fn(Binding) -> Result<Slot, CorrelateError>,
) -> Result<Slot, CorrelateError> {
    match binding_spec(bs, idx) {
        Err(e) => Err(e),
        Ok(b) => load(b),
    }
}

/// The register an opcode writes.
pub open spec fn op_dst(op: PredOp) -> SlotIdx {
    match op {
        PredOp::LoadEventField { dst, .. } => dst,
        PredOp::LoadCauseField { dst, .. } => dst,
        PredOp::LoadProblemField { dst, .. } => dst,
        PredOp::LoadConst { dst, .. } => dst,
        PredOp::LoadDuration { dst, .. } => dst,
        PredOp::LoadScopeKey { dst } => dst,
        PredOp::Add { dst, .. } => dst,
        PredOp::Sub { dst, .. } => dst,
        PredOp::Mul { dst, .. } => dst,
        PredOp::Div { dst, .. } => dst,
        PredOp::Mod { dst, .. } => dst,
        PredOp::CmpEq { dst, .. } => dst,
        PredOp::CmpNe { dst, .. } => dst,
        PredOp::CmpLt { dst, .. } => dst,
        PredOp::CmpLe { dst, .. } => dst,
        PredOp::CmpGt { dst, .. } => dst,
        PredOp::CmpGe { dst, .. } => dst,
        PredOp::And { dst, .. } => dst,
        PredOp::Or { dst, .. } => dst,
        PredOp::Not { dst, .. } => dst,
        PredOp::Present { dst, .. } => dst,
        PredOp::Absent { dst, .. } => dst,
        PredOp::TopoCall { dst, .. } => dst,
        PredOp::WinBack { dst, .. } => dst,
        PredOp::WinFwd { dst, .. } => dst,
        PredOp::WinIn { dst, .. } => dst,
    }
}

/// A duration literal as a register value.
pub open spec fn duration_slot(d: DurationMs) -> Slot {
    Slot::Int(d.ms_of() as i64)
}

/// The value an opcode computes from the slot file (or the error it raises).
pub open spec fn op_value(
    op: PredOp,
    s: Seq<Slot>,
    bs: Seq<Binding>,
    scope: ScopeId,
    interned: Map<i64, ScopeId>,
    ans: spec_fn(TopoFunc, ScopeId, ScopeId) -> T3,
) -> Result<Slot, CorrelateError> {
    match op {
        PredOp::LoadEventField { binding, field, .. } => load_spec(
            bs,
            binding,
            |b: Binding| event_field_spec(b, field),
        ),
        PredOp::LoadCauseField { binding, field, .. } => load_spec(
            bs,
            binding,
            |b: Binding| cause_field_spec(b, field),
        ),
        PredOp::LoadProblemField { binding, field, .. } => load_spec(
            bs,
            binding,
            |b: Binding| problem_field_spec(b, field),
        ),
        PredOp::LoadConst { imm, .. } => Ok(Slot::Int(imm)),
        PredOp::LoadDuration { dur, .. } => Ok(duration_slot(dur)),
        PredOp::LoadScopeKey { .. } => Ok(Slot::Int(scope_key(scope))),
        PredOp::Add { lhs, rhs, .. } => arith_spec(ArithKind::Add, get(s, lhs), get(s, rhs)),
        PredOp::Sub { lhs, rhs, .. } => arith_spec(ArithKind::Sub, get(s, lhs), get(s, rhs)),
        PredOp::Mul { lhs, rhs, .. } => arith_spec(ArithKind::Mul, get(s, lhs), get(s, rhs)),
        PredOp::Div { lhs, rhs, .. } => arith_spec(ArithKind::Div, get(s, lhs), get(s, rhs)),
        PredOp::Mod { lhs, rhs, .. } => arith_spec(ArithKind::Mod, get(s, lhs), get(s, rhs)),
        PredOp::CmpEq { lhs, rhs, .. } => compare_spec(CompareKind::Eq, get(s, lhs), get(s, rhs)),
        PredOp::CmpNe { lhs, rhs, .. } => compare_spec(CompareKind::Ne, get(s, lhs), get(s, rhs)),
        PredOp::CmpLt { lhs, rhs, .. } => compare_spec(CompareKind::Lt, get(s, lhs), get(s, rhs)),
        PredOp::CmpLe { lhs, rhs, .. } => compare_spec(CompareKind::Le, get(s, lhs), get(s, rhs)),
        PredOp::CmpGt { lhs, rhs, .. } => compare_spec(CompareKind::Gt, get(s, lhs), get(s, rhs)),
        PredOp::CmpGe { lhs, rhs, .. } => compare_spec(CompareKind::Ge, get(s, lhs), get(s, rhs)),
        PredOp::And { lhs, rhs, .. } => logic_spec(true, get(s, lhs), get(s, rhs)),
        PredOp::Or { lhs, rhs, .. } => logic_spec(false, get(s, lhs), get(s, rhs)),
        PredOp::Not { src, .. } => match truth_spec(get(s, src), "NOT") {
            Ok(t) => Ok(Slot::Truth(kleene_not(t))),
            Err(e) => Err(e),
        },
        PredOp::Present { binding, .. } => load_spec(
            bs,
            binding,
            |b: Binding| Ok(Slot::Truth(present_of(b))),
        ),
        PredOp::Absent { binding, .. } => load_spec(
            bs,
            binding,
            |b: Binding| Ok(Slot::Truth(absent_of(b))),
        ),
        PredOp::TopoCall { func, a, b, .. } => topo_call_spec(
            func.0,
            get(s, a),
            get(s, b),
            interned,
            ans,
        ),
        PredOp::WinBack { time, dur, .. } => arith_spec(ArithKind::WinBack, get(s, time), get(s, dur)),
        PredOp::WinFwd { time, dur, .. } => arith_spec(ArithKind::WinFwd, get(s, time), get(s, dur)),
        PredOp::WinIn { x, lo, hi, .. } => win_in_spec(get(s, x), get(s, lo), get(s, hi)),
    }
}

/// One opcode on a slot file: its value goes to its destination register.
pub open spec fn step_spec(
    op: PredOp,
    s: Seq<Slot>,
    bs: Seq<Binding>,
    scope: ScopeId,
    interned: Map<i64, ScopeId>,
    ans: spec_fn(TopoFunc, ScopeId, ScopeId) -> T3,
) -> Result<Seq<Slot>, CorrelateError> {
    put(s, op_dst(op), op_value(op, s, bs, scope, interned, ans))
}

/// The slot file before the first opcode: every register `Empty`.
pub open spec fn empty_slots() -> Seq<Slot> {
    Seq::new(MAX_SLOTS as nat, |i: int| Slot::Empty)
}

/// The slot file after the first `n` opcodes, or the first error.
pub open spec fn run_spec(
    ops: Seq<PredOp>,
    n: nat,
    bs: Seq<Binding>,
    scope: ScopeId,
    interned: Map<i64, ScopeId>,
    ans: spec_fn(TopoFunc, ScopeId, ScopeId) -> T3,
) -> Result<Seq<Slot>, CorrelateError>
    decreases n,
{
    if n == 0 {
        Ok(empty_slots())
    } else {
        match run_spec(ops, (n - 1) as nat, bs, scope, interned, ans) {
            Ok(s) => step_spec(ops[n - 1], s, bs, scope, interned, ans),
            Err(e) => Err(e),
        }
    }
}

/// The value of a predicate program: run every opcode, then read the result
/// register as a truth value.
pub open spec fn eval_spec(
    pred: Predicate,
    bs: Seq<Binding>,
    scope: ScopeId,
    interned: Map<i64, ScopeId>,
    ans: spec_fn(TopoFunc, ScopeId, ScopeId) -> T3,
) -> Result<T3, CorrelateError> {
    match run_spec(pred.ops@, pred.ops@.len(), bs, scope, interned, ans) {
        Ok(s) => truth_spec(get(s, pred.result), "RESULT"),
        Err(e) => Err(e),
    }
}

/// An error stays an error: once a prefix of the program fails, every
/// longer prefix fails with the same error.
proof fn lemma_run_error_sticks(
    ops: Seq<PredOp>,
    n: nat,
    m: nat,
    bs: Seq<Binding>,
    scope: ScopeId,
    interned: Map<i64, ScopeId>,
    ans: spec_fn(TopoFunc, ScopeId, ScopeId) -> T3,
    e: CorrelateError,
)
    requires
        n <= m,
        run_spec(ops, n, bs, scope, interned, ans) == Err::<Seq<Slot>, CorrelateError>(e),
    ensures
        run_spec(ops, m, bs, scope, interned, ans) == Err::<Seq<Slot>, CorrelateError>(e),
    decreases m - n,
{
    if n < m {
        lemma_run_error_sticks(ops, n + 1, m, bs, scope, interned, ans, e);
    }
}

fn as_num(slot: Slot, op: &'static str) -> (r: Result<Option<i64>, CorrelateError>)
    ensures
        r == num_spec(slot, op),
{
    match slot {
        Slot::Int(i) => Ok(Some(i)),
        Slot::Truth(T3::Unknown) => Ok(None),
        _ => Err(CorrelateError::TypeMismatch { op }),
    }
}

fn as_truth(slot: Slot, op: &'static str) -> (r: Result<T3, CorrelateError>)
    ensures
        r == truth_spec(slot, op),
{
    match slot {
        Slot::Truth(t) => Ok(t),
        Slot::Int(i) => Ok(T3::from_bool(i != 0)),
        Slot::Empty => Err(CorrelateError::TypeMismatch { op }),
    }
}

fn arith_name_of(k: ArithKind) -> (s: &'static str)
    ensures
        s == arith_name(k),
{
    match k {
        ArithKind::Add => "ADD",
        ArithKind::Sub => "SUB",
        ArithKind::Mul => "MUL",
        ArithKind::Div => "DIV",
        ArithKind::Mod => "MOD",
        ArithKind::WinBack => "WIN_BACK",
        ArithKind::WinFwd => "WIN_FWD",
    }
}

fn checked(r: Option<i64>) -> (v: Result<i64, CorrelateError>)
    ensures
        v == overflow_or(r),
{
    match r {
        Some(x) => Ok(x),
        None => Err(CorrelateError::ArithOverflow),
    }
}

fn arith_apply(k: ArithKind, a: i64, b: i64) -> (r: Result<i64, CorrelateError>)
    ensures
        r == arith_value(k, a, b),
{
    match k {
        ArithKind::Add | ArithKind::WinFwd => checked(a.checked_add(b)),
        ArithKind::Sub | ArithKind::WinBack => checked(a.checked_sub(b)),
        ArithKind::Mul => checked(a.checked_mul(b)),
        ArithKind::Div => {
            if b == 0 {
                Err(CorrelateError::DivisionByZero)
            } else {
                checked(a.checked_div(b))
            }
        },
        ArithKind::Mod => {
            if b == 0 {
                Err(CorrelateError::DivisionByZero)
            } else {
                checked(a.checked_rem(b))
            }
        },
    }
}

fn arith(k: ArithKind, l: Slot, r: Slot) -> (res: Result<Slot, CorrelateError>)
    ensures
        res == arith_spec(k, l, r),
{
    let op = arith_name_of(k);
    let a = match as_num(l, op) {
        Ok(a) => a,
        Err(e) => return Err(e),
    };
    let b = match as_num(r, op) {
        Ok(b) => b,
        Err(e) => return Err(e),
    };
    match (a, b) {
        (Some(x), Some(y)) => match arith_apply(k, x, y) {
            Ok(v) => Ok(Slot::Int(v)),
            Err(e) => Err(e),
        },
        _ => Ok(Slot::Truth(T3::Unknown)),
    }
}

fn compare_name_of(k: CompareKind) -> (s: &'static str)
    ensures
        s == compare_name(k),
{
    match k {
        CompareKind::Eq => "CMP_EQ",
        CompareKind::Ne => "CMP_NE",
        CompareKind::Lt => "CMP_LT",
        CompareKind::Le => "CMP_LE",
        CompareKind::Gt => "CMP_GT",
        CompareKind::Ge => "CMP_GE",
    }
}

fn compare(k: CompareKind, l: Slot, r: Slot) -> (res: Result<Slot, CorrelateError>)
    ensures
        res == compare_spec(k, l, r),
{
    let op = compare_name_of(k);
    let a = match as_num(l, op) {
        Ok(a) => a,
        Err(e) => return Err(e),
    };
    let b = match as_num(r, op) {
        Ok(b) => b,
        Err(e) => return Err(e),
    };
    match (a, b) {
        (Some(x), Some(y)) => {
            let holds = match k {
                CompareKind::Eq => x == y,
                CompareKind::Ne => x != y,
                CompareKind::Lt => x < y,
                CompareKind::Le => x <= y,
                CompareKind::Gt => x > y,
                CompareKind::Ge => x >= y,
            };
            Ok(Slot::Truth(T3::from_bool(holds)))
        },
        _ => Ok(Slot::Truth(T3::Unknown)),
    }
}

fn logic(is_and: bool, l: Slot, r: Slot) -> (res: Result<Slot, CorrelateError>)
    ensures
        res == logic_spec(is_and, l, r),
{
    let op: &'static str = if is_and {
        "AND"
    } else {
        "OR"
    };
    let a = match as_truth(l, op) {
        Ok(a) => a,
        Err(e) => return Err(e),
    };
    let b = match as_truth(r, op) {
        Ok(b) => b,
        Err(e) => return Err(e),
    };
    if is_and {
        Ok(Slot::Truth(a.and(b)))
    } else {
        Ok(Slot::Truth(a.or(b)))
    }
}

fn win_in(x: Slot, lo: Slot, hi: Slot) -> (res: Result<Slot, CorrelateError>)
    ensures
        res == win_in_spec(x, lo, hi),
{
    let vx = match as_num(x, "WIN_IN") {
        Ok(v) => v,
        Err(e) => return Err(e),
    };
    let vlo = match as_num(lo, "WIN_IN") {
        Ok(v) => v,
        Err(e) => return Err(e),
    };
    let vhi = match as_num(hi, "WIN_IN") {
        Ok(v) => v,
        Err(e) => return Err(e),
    };
    let t = match (vx, vlo, vhi) {
        (Some(a), Some(l), Some(h)) => T3::from_bool(l <= a && a <= h),
        _ => T3::Unknown,
    };
    Ok(Slot::Truth(t))
}

fn load_binding<'a>(bs: &'a [Binding], idx: BindingIdx) -> (r: Result<&'a Binding, CorrelateError>)
    ensures
        match binding_spec(bs@, idx) {
            Ok(b) => r matches Ok(x) && *x == b,
            Err(e) => r matches Err(x) && x == e,
        },
{
    let i = idx.0 as usize;
    if i < bs.len() {
        Ok(&bs[i])
    } else {
        Err(CorrelateError::UnknownBinding { binding: idx.0 })
    }
}

fn load_event_field(b: &Binding, field: FieldIdx) -> (r: Result<Slot, CorrelateError>)
    ensures
        r == event_field_spec(*b, field),
{
    match b {
        Binding::Bound(Bound::Event(e)) => {
            if field.0 == EVENT_FIELD_TIME {
                Ok(Slot::Int(e.time.millis()))
            } else if field.0 == EVENT_FIELD_TARGET {
                match e.field(FieldIdx(EVENT_FIELD_TARGET)) {
                    Some(v) => Ok(Slot::Int(v)),
                    None => Ok(Slot::Int(scope_key_i64(e.scope))),
                }
            } else {
                match e.field(field) {
                    Some(v) => Ok(Slot::Int(v)),
                    None => Ok(Slot::Truth(T3::Unknown)),
                }
            }
        },
        Binding::Bound(_) => Err(CorrelateError::TypeMismatch { op: "LOAD_EVENT_FIELD" }),
        _ => Ok(Slot::Truth(T3::Unknown)),
    }
}

fn load_cause_field(b: &Binding, field: FieldIdx) -> (r: Result<Slot, CorrelateError>)
    ensures
        r == cause_field_spec(*b, field),
{
    match b {
        Binding::Bound(Bound::Cause(c)) => {
            if field.0 == CAUSE_FIELD_CONFIDENCE {
                Ok(Slot::Int(c.confidence.value() as i64))
            } else if field.0 == CAUSE_FIELD_TARGET {
                Ok(Slot::Int(scope_key_i64(c.target)))
            } else if field.0 == CAUSE_FIELD_TIME {
                Ok(Slot::Int(c.time.millis()))
            } else {
                Ok(Slot::Truth(T3::Unknown))
            }
        },
        Binding::Bound(_) => Err(CorrelateError::TypeMismatch { op: "LOAD_CAUSE_FIELD" }),
        _ => Ok(Slot::Truth(T3::Unknown)),
    }
}

fn load_problem_field(b: &Binding, field: FieldIdx) -> (r: Result<Slot, CorrelateError>)
    ensures
        r == problem_field_spec(*b, field),
{
    match b {
        Binding::Bound(Bound::Problem(p)) => {
            if field.0 == PROBLEM_FIELD_TARGET {
                Ok(Slot::Int(scope_key_i64(p.target)))
            } else if field.0 == PROBLEM_FIELD_TIME {
                Ok(Slot::Int(p.time.millis()))
            } else {
                Ok(Slot::Truth(T3::Unknown))
            }
        },
        Binding::Bound(_) => Err(CorrelateError::TypeMismatch { op: "LOAD_PROBLEM_FIELD" }),
        _ => Ok(Slot::Truth(T3::Unknown)),
    }
}

fn topo_call<P: TopologyProvider>(
    func: u8,
    a: Slot,
    b: Slot,
    interner: &ScopeInterner,
    topo: &mut P,
    Ghost(ans): Ghost<spec_fn(TopoFunc, ScopeId, ScopeId) -> T3>,
) -> (r: Result<Slot, CorrelateError>)
    requires
        forall|f: TopoFunc, x: ScopeId, y: ScopeId| #[trigger] old(topo).answer(f, x, y) == ans(f, x, y),
    ensures
        r == topo_call_spec(func, a, b, interner@, ans),
        forall|f: TopoFunc, x: ScopeId, y: ScopeId| #[trigger] final(topo).answer(f, x, y) == old(topo).answer(f, x, y),
{
    let f = match TopoFunc::from_idx(crate::ir::TopoFuncIdx(func)) {
        Some(f) => f,
        None => return Err(CorrelateError::UnknownTopoFunction { func }),
    };
    let ka = match as_num(a, "TOPO_CALL") {
        Ok(k) => k,
        Err(e) => return Err(e),
    };
    let kb = match as_num(b, "TOPO_CALL") {
        Ok(k) => k,
        Err(e) => return Err(e),
    };
    let t = match (ka, kb) {
        (Some(x), Some(y)) => match (interner.resolve(x), interner.resolve(y)) {
            (Some(sa), Some(sb)) => f.call(topo, sa, sb),
            _ => T3::Unknown,
        },
        _ => T3::Unknown,
    };
    Ok(Slot::Truth(t))
}

fn slot_at(slots: &Vec<Slot>, i: SlotIdx) -> (v: Slot)
    requires
        slots@.len() == MAX_SLOTS,
    ensures
        v == get(slots@, i),
{
    slots[i.index()]
}

fn op_value_exec<P: TopologyProvider>(
    op: PredOp,
    slots: &Vec<Slot>,
    ctx: &PredCtx,
    topo: &mut P,
    Ghost(ans): Ghost<spec_fn(TopoFunc, ScopeId, ScopeId) -> T3>,
) -> (r: Result<Slot, CorrelateError>)
    requires
        slots@.len() == MAX_SLOTS,
        forall|f: TopoFunc, x: ScopeId, y: ScopeId| #[trigger] old(topo).answer(f, x, y) == ans(f, x, y),
    ensures
        r == op_value(op, slots@, ctx.bindings@, ctx.scope, ctx.interner@, ans),
        forall|f: TopoFunc, x: ScopeId, y: ScopeId| #[trigger] final(topo).answer(f, x, y) == old(topo).answer(f, x, y),
{
    match op {
        PredOp::LoadEventField { binding, field, .. } => match load_binding(ctx.bindings, binding) {
            Ok(b) => load_event_field(b, field),
            Err(e) => Err(e),
        },
        PredOp::LoadCauseField { binding, field, .. } => match load_binding(ctx.bindings, binding) {
            Ok(b) => load_cause_field(b, field),
            Err(e) => Err(e),
        },
        PredOp::LoadProblemField { binding, field, .. } => match load_binding(ctx.bindings, binding) {
            Ok(b) => load_problem_field(b, field),
            Err(e) => Err(e),
        },
        PredOp::LoadConst { imm, .. } => Ok(Slot::Int(imm)),
        PredOp::LoadDuration { dur, .. } => Ok(Slot::Int(dur.millis())),
        PredOp::LoadScopeKey { .. } => Ok(Slot::Int(scope_key_i64(ctx.scope))),
        PredOp::Add { lhs, rhs, .. } => arith(ArithKind::Add, slot_at(slots, lhs), slot_at(slots, rhs)),
        PredOp::Sub { lhs, rhs, .. } => arith(ArithKind::Sub, slot_at(slots, lhs), slot_at(slots, rhs)),
        PredOp::Mul { lhs, rhs, .. } => arith(ArithKind::Mul, slot_at(slots, lhs), slot_at(slots, rhs)),
        PredOp::Div { lhs, rhs, .. } => arith(ArithKind::Div, slot_at(slots, lhs), slot_at(slots, rhs)),
        PredOp::Mod { lhs, rhs, .. } => arith(ArithKind::Mod, slot_at(slots, lhs), slot_at(slots, rhs)),
        PredOp::CmpEq { lhs, rhs, .. } => compare(CompareKind::Eq, slot_at(slots, lhs), slot_at(slots, rhs)),
        PredOp::CmpNe { lhs, rhs, .. } => compare(CompareKind::Ne, slot_at(slots, lhs), slot_at(slots, rhs)),
        PredOp::CmpLt { lhs, rhs, .. } => compare(CompareKind::Lt, slot_at(slots, lhs), slot_at(slots, rhs)),
        PredOp::CmpLe { lhs, rhs, .. } => compare(CompareKind::Le, slot_at(slots, lhs), slot_at(slots, rhs)),
        PredOp::CmpGt { lhs, rhs, .. } => compare(CompareKind::Gt, slot_at(slots, lhs), slot_at(slots, rhs)),
        PredOp::CmpGe { lhs, rhs, .. } => compare(CompareKind::Ge, slot_at(slots, lhs), slot_at(slots, rhs)),
        PredOp::And { lhs, rhs, .. } => logic(true, slot_at(slots, lhs), slot_at(slots, rhs)),
        PredOp::Or { lhs, rhs, .. } => logic(false, slot_at(slots, lhs), slot_at(slots, rhs)),
        PredOp::Not { src, .. } => match as_truth(slot_at(slots, src), "NOT") {
            Ok(t) => Ok(Slot::Truth(t.not())),
            Err(e) => Err(e),
        },
        PredOp::Present { binding, .. } => match load_binding(ctx.bindings, binding) {
            Ok(b) => Ok(
                Slot::Truth(
                    match b {
                        Binding::Bound(_) => T3::True,
                        Binding::Absent => T3::False,
                        Binding::Unknown => T3::Unknown,
                    },
                ),
            ),
            Err(e) => Err(e),
        },
        PredOp::Absent { binding, .. } => match load_binding(ctx.bindings, binding) {
            Ok(b) => Ok(
                Slot::Truth(
                    match b {
                        Binding::Absent => T3::True,
                        Binding::Bound(_) => T3::False,
                        Binding::Unknown => T3::Unknown,
                    },
                ),
            ),
            Err(e) => Err(e),
        },
        PredOp::TopoCall { func, a, b, .. } => topo_call(
            func.0,
            slot_at(slots, a),
            slot_at(slots, b),
            ctx.interner,
            topo,
            Ghost(ans),
        ),
        PredOp::WinBack { time, dur, .. } => arith(ArithKind::WinBack, slot_at(slots, time), slot_at(slots, dur)),
        PredOp::WinFwd { time, dur, .. } => arith(ArithKind::WinFwd, slot_at(slots, time), slot_at(slots, dur)),
        PredOp::WinIn { x, lo, hi, .. } => win_in(slot_at(slots, x), slot_at(slots, lo), slot_at(slots, hi)),
    }
}

fn op_dst_of(op: PredOp) -> (d: SlotIdx)
    ensures
        d == op_dst(op),
{
    match op {
        PredOp::LoadEventField { dst, .. } => dst,
        PredOp::LoadCauseField { dst, .. } => dst,
        PredOp::LoadProblemField { dst, .. } => dst,
        PredOp::LoadConst { dst, .. } => dst,
        PredOp::LoadDuration { dst, .. } => dst,
        PredOp::LoadScopeKey { dst } => dst,
        PredOp::Add { dst, .. } => dst,
        PredOp::Sub { dst, .. } => dst,
        PredOp::Mul { dst, .. } => dst,
        PredOp::Div { dst, .. } => dst,
        PredOp::Mod { dst, .. } => dst,
        PredOp::CmpEq { dst, .. } => dst,
        PredOp::CmpNe { dst, .. } => dst,
        PredOp::CmpLt { dst, .. } => dst,
        PredOp::CmpLe { dst, .. } => dst,
        PredOp::CmpGt { dst, .. } => dst,
        PredOp::CmpGe { dst, .. } => dst,
        PredOp::And { dst, .. } => dst,
        PredOp::Or { dst, .. } => dst,
        PredOp::Not { dst, .. } => dst,
        PredOp::Present { dst, .. } => dst,
        PredOp::Absent { dst, .. } => dst,
        PredOp::TopoCall { dst, .. } => dst,
        PredOp::WinBack { dst, .. } => dst,
        PredOp::WinFwd { dst, .. } => dst,
        PredOp::WinIn { dst, .. } => dst,
    }
}

/// Executes a compiled predicate, returning the `T3` value of its result
/// register, or the first error an opcode raises. Topology queries may
/// record diagnostics but never change any answer.
pub fn eval_predicate<P: TopologyProvider>(pred: &Predicate, ctx: &PredCtx, topo: &mut P) -> (r:
    Result<T3, CorrelateError>)
    ensures
        r == eval_spec(*pred, ctx.bindings@, ctx.scope, ctx.interner@, answers(*old(topo))),
        forall|f: TopoFunc, x: ScopeId, y: ScopeId| #[trigger] final(topo).answer(f, x, y) == old(topo).answer(f, x, y),
{
    let ghost ans = answers(*topo);
    let ghost bs = ctx.bindings@;
    let ghost interned = ctx.interner@;
    let mut slots: Vec<Slot> = Vec::new();
    let mut k: usize = 0;
    while k < MAX_SLOTS
        invariant
            0 <= k <= MAX_SLOTS,
            slots@ == Seq::new(k as nat, |i: int| Slot::Empty),
        decreases MAX_SLOTS - k,
    {
        slots.push(Slot::Empty);
        k = k + 1;
        proof {
            assert(slots@ =~= Seq::new(k as nat, |i: int| Slot::Empty));
        }
    }
    proof {
        assert(slots@ =~= empty_slots());
    }
    let mut i: usize = 0;
    while i < pred.ops.len()
        invariant
            0 <= i <= pred.ops@.len(),
            slots@.len() == MAX_SLOTS,
            ans == answers(*old(topo)),
            bs == ctx.bindings@,
            interned == ctx.interner@,
            run_spec(pred.ops@, i as nat, bs, ctx.scope, interned, ans) == Ok::<Seq<Slot>, CorrelateError>(slots@),
            forall|f: TopoFunc, x: ScopeId, y: ScopeId| #[trigger] topo.answer(f, x, y) == old(topo).answer(f, x, y),
        decreases pred.ops.len() - i,
    {
        let op = pred.ops[i];
        let ghost before = slots@;
        let v = op_value_exec(op, &slots, ctx, topo, Ghost(ans));
        match v {
            Ok(v) => {
                let d = op_dst_of(op);
                slots.set(d.index(), v);
            },
            Err(e) => {
                proof {
                    lemma_run_error_sticks(pred.ops@, (i + 1) as nat, pred.ops@.len(), bs, ctx.scope, interned, ans, e);
                }
                return Err(e);
            },
        }
        i = i + 1;
    }
    as_truth(slot_at(&slots, pred.result), "RESULT")
}


/// The comparison opcodes on two integer registers: each stores `True`
/// exactly when its relation holds between the two integers, else `False`
/// (`==`, `!=`, `<`, `<=`, `>`, `>=` in that order).
pub proof fn law_integer_comparisons(
    s: Seq<Slot>,
    l: SlotIdx,
    r: SlotIdx,
    d: SlotIdx,
    x: i64,
    y: i64,
    bs: Seq<Binding>,
    scope: ScopeId,
    interned: Map<i64, ScopeId>,
    ans: spec_fn(TopoFunc, ScopeId, ScopeId) -> T3,
)
    requires
        get(s, l) == Slot::Int(x),
        get(s, r) == Slot::Int(y),
    ensures
        op_value(PredOp::CmpEq { lhs: l, rhs: r, dst: d }, s, bs, scope, interned, ans) == Ok::<Slot, CorrelateError>(
            Slot::Truth(if x == y { T3::True } else { T3::False }),
        ),
        op_value(PredOp::CmpNe { lhs: l, rhs: r, dst: d }, s, bs, scope, interned, ans) == Ok::<Slot, CorrelateError>(
            Slot::Truth(if x != y { T3::True } else { T3::False }),
        ),
        op_value(PredOp::CmpLt { lhs: l, rhs: r, dst: d }, s, bs, scope, interned, ans) == Ok::<Slot, CorrelateError>(
            Slot::Truth(if x < y { T3::True } else { T3::False }),
        ),
        op_value(PredOp::CmpLe { lhs: l, rhs: r, dst: d }, s, bs, scope, interned, ans) == Ok::<Slot, CorrelateError>(
            Slot::Truth(if x <= y { T3::True } else { T3::False }),
        ),
        op_value(PredOp::CmpGt { lhs: l, rhs: r, dst: d }, s, bs, scope, interned, ans) == Ok::<Slot, CorrelateError>(
            Slot::Truth(if x > y { T3::True } else { T3::False }),
        ),
        op_value(PredOp::CmpGe { lhs: l, rhs: r, dst: d }, s, bs, scope, interned, ans) == Ok::<Slot, CorrelateError>(
            Slot::Truth(if x >= y { T3::True } else { T3::False }),
        ),
{
}

/// Over any operands (integers or `Unknown`): `!=` is the Kleene negation
/// of `==`, `>=` of `<`, `<=` of `>`, and `>` is `<` with its operands
/// swapped; each pair fails on the same operands.
pub proof fn law_comparison_duals(
    s: Seq<Slot>,
    l: SlotIdx,
    r: SlotIdx,
    d: SlotIdx,
    bs: Seq<Binding>,
    scope: ScopeId,
    interned: Map<i64, ScopeId>,
    ans: spec_fn(TopoFunc, ScopeId, ScopeId) -> T3,
)
    ensures
        ({
            let eq = op_value(PredOp::CmpEq { lhs: l, rhs: r, dst: d }, s, bs, scope, interned, ans);
            let ne = op_value(PredOp::CmpNe { lhs: l, rhs: r, dst: d }, s, bs, scope, interned, ans);
            &&& eq is Ok <==> ne is Ok
            &&& eq matches Ok(Slot::Truth(a)) ==> ne == Ok::<Slot, CorrelateError>(Slot::Truth(kleene_not(a)))
        }),
        ({
            let lt = op_value(PredOp::CmpLt { lhs: l, rhs: r, dst: d }, s, bs, scope, interned, ans);
            let ge = op_value(PredOp::CmpGe { lhs: l, rhs: r, dst: d }, s, bs, scope, interned, ans);
            &&& lt is Ok <==> ge is Ok
            &&& lt matches Ok(Slot::Truth(a)) ==> ge == Ok::<Slot, CorrelateError>(Slot::Truth(kleene_not(a)))
        }),
        ({
            let gt = op_value(PredOp::CmpGt { lhs: l, rhs: r, dst: d }, s, bs, scope, interned, ans);
            let le = op_value(PredOp::CmpLe { lhs: l, rhs: r, dst: d }, s, bs, scope, interned, ans);
            &&& gt is Ok <==> le is Ok
            &&& gt matches Ok(Slot::Truth(a)) ==> le == Ok::<Slot, CorrelateError>(Slot::Truth(kleene_not(a)))
        }),
        op_value(PredOp::CmpGt { lhs: l, rhs: r, dst: d }, s, bs, scope, interned, ans) is Ok ==> op_value(
            PredOp::CmpGt { lhs: l, rhs: r, dst: d },
            s,
            bs,
            scope,
            interned,
            ans,
        ) == op_value(PredOp::CmpLt { lhs: r, rhs: l, dst: d }, s, bs, scope, interned, ans),
{
}

/// A whole program comparing two constants, `a != b` into register `d2`:
/// the predicate is `True` exactly when the constants differ, `False`
/// when they are equal.
pub proof fn law_constant_inequality_program(
    pred: Predicate,
    a: i64,
    b: i64,
    d0: SlotIdx,
    d1: SlotIdx,
    d2: SlotIdx,
    bs: Seq<Binding>,
    scope: ScopeId,
    interned: Map<i64, ScopeId>,
    ans: spec_fn(TopoFunc, ScopeId, ScopeId) -> T3,
)
    requires
        0 <= d0.idx() < MAX_SLOTS,
        0 <= d1.idx() < MAX_SLOTS,
        0 <= d2.idx() < MAX_SLOTS,
        d0.idx() != d1.idx(),
        pred.ops@ == seq![
            PredOp::LoadConst { imm: a, dst: d0 },
            PredOp::LoadConst { imm: b, dst: d1 },
            PredOp::CmpNe { lhs: d0, rhs: d1, dst: d2 },
        ],
        pred.result == d2,
    ensures
        eval_spec(pred, bs, scope, interned, ans) == Ok::<T3, CorrelateError>(if a != b { T3::True } else { T3::False }),
{
    reveal_with_fuel(run_spec, 4);
    let s0 = empty_slots();
    let s1 = s0.update(d0.idx(), Slot::Int(a));
    let s2 = s1.update(d1.idx(), Slot::Int(b));
    assert(run_spec(pred.ops@, 1, bs, scope, interned, ans) == Ok::<Seq<Slot>, CorrelateError>(s1));
    assert(run_spec(pred.ops@, 2, bs, scope, interned, ans) == Ok::<Seq<Slot>, CorrelateError>(s2));
    assert(get(s2, d0) == Slot::Int(a));
    assert(get(s2, d1) == Slot::Int(b));
    law_integer_comparisons(s2, d0, d1, d2, a, b, bs, scope, interned, ans);
}


/// A comparison with an `Unknown` operand (and the other an integer or
/// `Unknown`) is `Unknown`.
pub proof fn law_comparison_unknown(
    s: Seq<Slot>,
    l: SlotIdx,
    r: SlotIdx,
    d: SlotIdx,
    bs: Seq<Binding>,
    scope: ScopeId,
    interned: Map<i64, ScopeId>,
    ans: spec_fn(TopoFunc, ScopeId, ScopeId) -> T3,
)
    requires
        get(s, l) == Slot::Truth(T3::Unknown) || get(s, r) == Slot::Truth(T3::Unknown),
        get(s, l) is Int || get(s, l) == Slot::Truth(T3::Unknown),
        get(s, r) is Int || get(s, r) == Slot::Truth(T3::Unknown),
    ensures
        op_value(PredOp::CmpEq { lhs: l, rhs: r, dst: d }, s, bs, scope, interned, ans) == Ok::<Slot, CorrelateError>(
            Slot::Truth(T3::Unknown),
        ),
        op_value(PredOp::CmpNe { lhs: l, rhs: r, dst: d }, s, bs, scope, interned, ans) == Ok::<Slot, CorrelateError>(
            Slot::Truth(T3::Unknown),
        ),
        op_value(PredOp::CmpLt { lhs: l, rhs: r, dst: d }, s, bs, scope, interned, ans) == Ok::<Slot, CorrelateError>(
            Slot::Truth(T3::Unknown),
        ),
        op_value(PredOp::CmpGe { lhs: l, rhs: r, dst: d }, s, bs, scope, interned, ans) == Ok::<Slot, CorrelateError>(
            Slot::Truth(T3::Unknown),
        ),
{
}

/// The connectives on truth registers follow Kleene's tables: `AND` is
/// `False` as soon as one side is, `True` only when both are; `OR` is
/// `True` as soon as one side is, `False` only when both are; otherwise
/// `Unknown`. `NOT` swaps `True` and `False` and keeps `Unknown`.
pub proof fn law_kleene_connectives(
    s: Seq<Slot>,
    l: SlotIdx,
    r: SlotIdx,
    d: SlotIdx,
    a: T3,
    b: T3,
    bs: Seq<Binding>,
    scope: ScopeId,
    interned: Map<i64, ScopeId>,
    ans: spec_fn(TopoFunc, ScopeId, ScopeId) -> T3,
)
    requires
        get(s, l) == Slot::Truth(a),
        get(s, r) == Slot::Truth(b),
    ensures
        op_value(PredOp::And { lhs: l, rhs: r, dst: d }, s, bs, scope, interned, ans) == Ok::<Slot, CorrelateError>(
            Slot::Truth(
                if a == T3::False || b == T3::False {
                    T3::False
                } else if a == T3::True && b == T3::True {
                    T3::True
                } else {
                    T3::Unknown
                },
            ),
        ),
        op_value(PredOp::Or { lhs: l, rhs: r, dst: d }, s, bs, scope, interned, ans) == Ok::<Slot, CorrelateError>(
            Slot::Truth(
                if a == T3::True || b == T3::True {
                    T3::True
                } else if a == T3::False && b == T3::False {
                    T3::False
                } else {
                    T3::Unknown
                },
            ),
        ),
        op_value(PredOp::Not { src: l, dst: d }, s, bs, scope, interned, ans) == Ok::<Slot, CorrelateError>(
            Slot::Truth(
                match a {
                    T3::True => T3::False,
                    T3::False => T3::True,
                    T3::Unknown => T3::Unknown,
                },
            ),
        ),
        op_value(PredOp::And { lhs: l, rhs: r, dst: d }, s, bs, scope, interned, ans) == op_value(
            PredOp::And { lhs: r, rhs: l, dst: d },
            s,
            bs,
            scope,
            interned,
            ans,
        ),
        op_value(PredOp::Or { lhs: l, rhs: r, dst: d }, s, bs, scope, interned, ans) == op_value(
            PredOp::Or { lhs: r, rhs: l, dst: d },
            s,
            bs,
            scope,
            interned,
            ans,
        ),
{
}

/// Checked integer arithmetic: `ADD`, `SUB` and `MUL` give the exact
/// result when it fits in 64 bits and an overflow error when it does not.
pub proof fn law_checked_arithmetic(
    s: Seq<Slot>,
    l: SlotIdx,
    r: SlotIdx,
    d: SlotIdx,
    x: i64,
    y: i64,
    bs: Seq<Binding>,
    scope: ScopeId,
    interned: Map<i64, ScopeId>,
    ans: spec_fn(TopoFunc, ScopeId, ScopeId) -> T3,
)
    requires
        get(s, l) == Slot::Int(x),
        get(s, r) == Slot::Int(y),
    ensures
        op_value(PredOp::Add { lhs: l, rhs: r, dst: d }, s, bs, scope, interned, ans) == if i64::MIN <= x + y
            <= i64::MAX {
            Ok::<Slot, CorrelateError>(Slot::Int((x + y) as i64))
        } else {
            Err(CorrelateError::ArithOverflow)
        },
        op_value(PredOp::Sub { lhs: l, rhs: r, dst: d }, s, bs, scope, interned, ans) == if i64::MIN <= x - y
            <= i64::MAX {
            Ok::<Slot, CorrelateError>(Slot::Int((x - y) as i64))
        } else {
            Err(CorrelateError::ArithOverflow)
        },
        op_value(PredOp::Mul { lhs: l, rhs: r, dst: d }, s, bs, scope, interned, ans) == if i64::MIN <= x * y
            <= i64::MAX {
            Ok::<Slot, CorrelateError>(Slot::Int((x * y) as i64))
        } else {
            Err(CorrelateError::ArithOverflow)
        },
{
}

/// `WIN_IN x lo hi` on integers is `True` exactly when `lo <= x <= hi`,
/// both ends included.
pub proof fn law_window_membership(
    s: Seq<Slot>,
    x: SlotIdx,
    lo: SlotIdx,
    hi: SlotIdx,
    d: SlotIdx,
    vx: i64,
    vlo: i64,
    vhi: i64,
    bs: Seq<Binding>,
    scope: ScopeId,
    interned: Map<i64, ScopeId>,
    ans: spec_fn(TopoFunc, ScopeId, ScopeId) -> T3,
)
    requires
        get(s, x) == Slot::Int(vx),
        get(s, lo) == Slot::Int(vlo),
        get(s, hi) == Slot::Int(vhi),
    ensures
        op_value(PredOp::WinIn { x, lo, hi, dst: d }, s, bs, scope, interned, ans) == Ok::<Slot, CorrelateError>(
            Slot::Truth(if vlo <= vx && vx <= vhi { T3::True } else { T3::False }),
        ),
{
}

/// `absent(x)` is the Kleene negation of `present(x)` on every binding,
/// and `present(x)` is `True` exactly on a bound value, `False` on an
/// absent one.
pub proof fn law_presence(
    s: Seq<Slot>,
    bi: BindingIdx,
    d: SlotIdx,
    bs: Seq<Binding>,
    scope: ScopeId,
    interned: Map<i64, ScopeId>,
    ans: spec_fn(TopoFunc, ScopeId, ScopeId) -> T3,
)
    requires
        (bi.0 as int) < bs.len(),
    ensures
        ({
            let p = op_value(PredOp::Present { binding: bi, dst: d }, s, bs, scope, interned, ans);
            let a = op_value(PredOp::Absent { binding: bi, dst: d }, s, bs, scope, interned, ans);
            &&& p matches Ok(Slot::Truth(t)) && a == Ok::<Slot, CorrelateError>(Slot::Truth(kleene_not(t)))
            &&& (bs[bi.0 as int] is Bound <==> p == Ok::<Slot, CorrelateError>(Slot::Truth(T3::True)))
            &&& (bs[bi.0 as int] is Absent <==> p == Ok::<Slot, CorrelateError>(Slot::Truth(T3::False)))
        }),
{
}

} // verus!
