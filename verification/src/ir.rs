//! Shapes of the verified intermediate representation the evaluator
//! executes: slot/binding/field/topology indices, binding symbols and the
//! straight-line predicate opcode programs.
use vstd::prelude::*;

pub mod image;
pub mod intent;
pub mod rule;

use crate::types::{chars_lt, scope_hash, CauseKind, DurationMs, EventId, EventTime, RuleId, ScopeId};

verus! {

/// Number of slot registers available to one predicate program.
pub const MAX_SLOTS: usize = 16;

/// Index of a slot register, always `< MAX_SLOTS`.
#[derive(Debug, Clone, Copy, PartialEq, Eq)]
pub struct SlotIdx {
    raw: u8,
}

impl SlotIdx {
    #[verifier::type_invariant]
    spec fn bounded(self) -> bool {
        (self.raw as usize) < MAX_SLOTS
    }

    /// The raw register number.
    pub closed spec fn idx(self) -> int {
        self.raw as int
    }

    /// `Some` exactly when `raw < MAX_SLOTS`.
    pub fn new(raw: u8) -> (s: Option<SlotIdx>)
        ensures
            (raw as usize) < MAX_SLOTS <==> s is Some,
            s matches Some(s) ==> s.idx() == raw,
    {
        if (raw as usize) < MAX_SLOTS {
            Some(SlotIdx { raw })
        } else {
            None
        }
    }

    /// Raw index, always `< MAX_SLOTS`.
    pub fn index(self) -> (i: usize)
        ensures
            i == self.idx(),
            i < MAX_SLOTS,
    {
        proof {
            use_type_invariant(&self);
        }
        self.raw as usize
    }

    /// Register 0.
    pub fn zero() -> (s: SlotIdx)
        ensures
            s.idx() == 0,
    {
        SlotIdx { raw: 0 }
    }
}

/// Index of an anchor/correlate binding within one rule (anchor = 0,
/// correlates follow in declaration order).
#[derive(Debug, Clone, Copy, PartialEq, Eq, Structural)]
pub struct BindingIdx(pub u8);

/// Catalog field index within an event/cause/problem schema.
#[derive(Debug, Clone, Copy, PartialEq, Eq, Structural)]
pub struct FieldIdx(pub u16);

/// Catalog topology-function index.
#[derive(Debug, Clone, Copy, PartialEq, Eq, Structural)]
pub struct TopoFuncIdx(pub u8);

/// A binding name introduced by an `anchor` or `correlate` clause.
#[derive(Debug, Clone, PartialEq, Eq)]
pub struct Symbol {
    name: String,
}

impl View for Symbol {
    type V = Seq<char>;

    closed spec fn view(&self) -> Seq<char> {
        self.name@
    }
}

impl Symbol {
    /// Wraps a binding name.
    pub fn new(name: &str) -> (s: Symbol)
        ensures
            s@ == name@,
    {
        Symbol { name: name.to_owned() }
    }

    /// The binding name.
    pub fn as_str(&self) -> (s: &str)
        ensures
            s@ == self@,
    {
        self.name.as_str()
    }

    /// A copy of the symbol.
    pub fn duplicate(&self) -> (s: Symbol)
        ensures
            s@ == self@,
    {
        Symbol { name: self.name.clone() }
    }
}

impl<'a> From<&'a str> for Symbol {
    /// Wraps a binding name (as [`Symbol::new`]).
    fn from(name: &'a str) -> (s: Symbol)
        ensures
            s@ == name@,
    {
        Symbol::new(name)
    }
}

impl<'a> vstd::std_specs::convert::FromSpecImpl<&'a str> for Symbol {
    /// Two symbols with the same text are distinct values to the verifier,
    /// so the conversion is described by `from`'s own `ensures` (the text
    /// is kept) rather than by an exact value.
    open spec fn obeys_from_spec() -> bool {
        false
    }

    open spec fn from_spec(v: &'a str) -> Symbol {
        choose|s: Symbol| s@ == v@
    }
}

/// One predicate opcode. Arithmetic is checked `i64`; `And`/`Or`/`Not` are
/// Kleene over `T3`; comparisons produce booleans lifted to `T3`.
#[derive(Debug, Clone, Copy, PartialEq, Eq)]
pub enum PredOp {
    /// Load an event field of a binding.
    LoadEventField { binding: BindingIdx, field: FieldIdx, dst: SlotIdx },
    /// Load a cause field of a binding.
    LoadCauseField { binding: BindingIdx, field: FieldIdx, dst: SlotIdx },
    /// Load a problem field of a binding.
    LoadProblemField { binding: BindingIdx, field: FieldIdx, dst: SlotIdx },
    /// Load an immediate.
    LoadConst { imm: i64, dst: SlotIdx },
    /// Load a duration literal (milliseconds).
    LoadDuration { dur: DurationMs, dst: SlotIdx },
    /// Load the partition scope key.
    LoadScopeKey { dst: SlotIdx },
    /// Checked addition.
    Add { lhs: SlotIdx, rhs: SlotIdx, dst: SlotIdx },
    /// Checked subtraction.
    Sub { lhs: SlotIdx, rhs: SlotIdx, dst: SlotIdx },
    /// Checked multiplication.
    Mul { lhs: SlotIdx, rhs: SlotIdx, dst: SlotIdx },
    /// Checked division (zero divisor is an error).
    Div { lhs: SlotIdx, rhs: SlotIdx, dst: SlotIdx },
    /// Checked remainder (zero divisor is an error).
    Mod { lhs: SlotIdx, rhs: SlotIdx, dst: SlotIdx },
    /// `lhs == rhs`.
    CmpEq { lhs: SlotIdx, rhs: SlotIdx, dst: SlotIdx },
    /// `lhs != rhs`.
    CmpNe { lhs: SlotIdx, rhs: SlotIdx, dst: SlotIdx },
    /// `lhs < rhs`.
    CmpLt { lhs: SlotIdx, rhs: SlotIdx, dst: SlotIdx },
    /// `lhs <= rhs`.
    CmpLe { lhs: SlotIdx, rhs: SlotIdx, dst: SlotIdx },
    /// `lhs > rhs`.
    CmpGt { lhs: SlotIdx, rhs: SlotIdx, dst: SlotIdx },
    /// `lhs >= rhs`.
    CmpGe { lhs: SlotIdx, rhs: SlotIdx, dst: SlotIdx },
    /// Kleene conjunction.
    And { lhs: SlotIdx, rhs: SlotIdx, dst: SlotIdx },
    /// Kleene disjunction.
    Or { lhs: SlotIdx, rhs: SlotIdx, dst: SlotIdx },
    /// Kleene negation.
    Not { src: SlotIdx, dst: SlotIdx },
    /// `present(x)`: bound → True, absent → False, unknown → Unknown.
    Present { binding: BindingIdx, dst: SlotIdx },
    /// `absent(x)`: absent → True, bound → False, unknown → Unknown.
    Absent { binding: BindingIdx, dst: SlotIdx },
    /// Topology-function call on two interned scope keys.
    TopoCall { func: TopoFuncIdx, a: SlotIdx, b: SlotIdx, dst: SlotIdx },
    /// Lower window bound `time - dur` (checked).
    WinBack { time: SlotIdx, dur: SlotIdx, dst: SlotIdx },
    /// Upper window bound `time + dur` (checked).
    WinFwd { time: SlotIdx, dur: SlotIdx, dst: SlotIdx },
    /// `lo <= x <= hi`, inclusive at both ends.
    WinIn { x: SlotIdx, lo: SlotIdx, hi: SlotIdx, dst: SlotIdx },
}

/// A compiled predicate: a straight-line opcode sequence whose value is read
/// from `result` after the last op.
#[derive(Debug, Clone, PartialEq, Eq)]
pub struct Predicate {
    /// Ordered opcode sequence.
    pub ops: Vec<PredOp>,
    /// Slot holding the predicate value after executing `ops`.
    pub result: SlotIdx,
}

impl Predicate {
    /// The trivially true predicate: `LOAD_CONST 1 -> s0`, result `s0`.
    pub fn always_true() -> (p: Predicate)
        ensures
            p.ops@.len() == 1,
            p.ops@[0] matches PredOp::LoadConst { imm, dst } && imm == 1 && dst == p.result,
            p.result.idx() == 0,
    {
        let s0 = SlotIdx::zero();
        let mut ops = Vec::new();
        ops.push(PredOp::LoadConst { imm: 1, dst: s0 });
        Predicate { ops, result: s0 }
    }
}

/// Rule class: evidence rules infer causes from events, decision rules emit
/// problems from causes or problems.
#[derive(Debug, Clone, Copy, PartialEq, Eq, Structural)]
pub enum RuleKind {
    /// Event anchor; body of infer/action intents.
    Evidence,
    /// Cause or Problem anchor; body of emit/action intents.
    Decision,
}

/// The catalog version an image was verified against.
#[derive(Debug, Clone, PartialEq, Eq)]
pub struct CatalogRef {
    /// Catalog identifier.
    pub id: String,
    /// Catalog version string.
    pub version: String,
}

/// A suspended anchor match waiting until the watermark passes
/// `upper_bound`.
#[derive(Debug, Clone, PartialEq, Eq)]
pub struct PendingMatch {
    /// Suspended rule.
    pub rule: RuleId,
    /// Anchor event reference (ring-buffer lookup).
    pub anchor_event: EventId,
    /// `anchor.time + max_forward`; resume strictly once the watermark
    /// exceeds it.
    pub upper_bound: EventTime,
    /// Partition the match belongs to.
    pub scope: ScopeId,
}

/// Strict order on pending matches: by `upper_bound`, then scope hash, then
/// rule id, then anchor event id.
pub open spec fn pending_lt(a: PendingMatch, b: PendingMatch) -> bool {
    let ha = scope_hash(a.scope);
    let hb = scope_hash(b.scope);
    ||| a.upper_bound.ms < b.upper_bound.ms
    ||| (a.upper_bound.ms == b.upper_bound.ms && ha < hb)
    ||| (a.upper_bound.ms == b.upper_bound.ms && ha == hb && chars_lt(a.rule@, b.rule@))
    ||| (a.upper_bound.ms == b.upper_bound.ms && ha == hb && a.rule@ == b.rule@
        && a.anchor_event.id < b.anchor_event.id)
}

/// `pending_lt` is a strict weak order: irreflexive, transitive, and its
/// incomparability is transitive (`!(c < a)` follows from `!(b < a)` and
/// `!(c < b)`).
pub proof fn lemma_pending_order(a: PendingMatch, b: PendingMatch, c: PendingMatch)
    ensures
        !pending_lt(a, a),
        pending_lt(a, b) && pending_lt(b, c) ==> pending_lt(a, c),
        !pending_lt(b, a) && !pending_lt(c, b) ==> !pending_lt(c, a),
{
    crate::types::lemma_chars_order(a.rule@, b.rule@, c.rule@);
    crate::types::lemma_chars_order(c.rule@, b.rule@, a.rule@);
    crate::types::lemma_chars_order(b.rule@, a.rule@, c.rule@);
    crate::types::lemma_chars_order(c.rule@, a.rule@, b.rule@);
    crate::types::lemma_chars_order(a.rule@, c.rule@, b.rule@);
    crate::types::lemma_chars_order(b.rule@, c.rule@, a.rule@);
}

impl PendingMatch {
    /// A copy of this match.
    pub fn duplicate(&self) -> (p: PendingMatch)
        ensures
            p.rule@ == self.rule@,
            p.anchor_event == self.anchor_event,
            p.upper_bound == self.upper_bound,
            p.scope == self.scope,
    {
        PendingMatch {
            rule: self.rule.duplicate(),
            anchor_event: self.anchor_event,
            upper_bound: self.upper_bound,
            scope: self.scope,
        }
    }

    /// `self` comes strictly before `other` (`pending_lt`).
    pub fn precedes(&self, other: &PendingMatch) -> (b: bool)
        ensures
            b == pending_lt(*self, *other),
    {
        if self.upper_bound.ms != other.upper_bound.ms {
            return self.upper_bound.ms < other.upper_bound.ms;
        }
        let ha = self.scope.hash_key();
        let hb = other.scope.hash_key();
        if ha != hb {
            return ha < hb;
        }
        if self.rule.precedes(&other.rule) {
            return true;
        }
        if !self.rule.same(&other.rule) {
            return false;
        }
        self.anchor_event.id < other.anchor_event.id
    }
}

/// Static part of the provenance-dedup key: rule, cause and the hash of the
/// compiled target expression.
#[derive(Debug, Clone, PartialEq, Eq)]
pub struct ProvKey {
    /// Inferring rule.
    pub rule: RuleId,
    /// Inferred cause kind.
    pub cause: CauseKind,
    /// Hash of the compiled `target` expression.
    pub target_expr_hash: u64,
}

impl ProvKey {
    /// A copy of this key.
    pub fn duplicate(&self) -> (k: ProvKey)
        ensures
            k.rule@ == self.rule@,
            k.cause@ == self.cause@,
            k.target_expr_hash == self.target_expr_hash,
    {
        ProvKey {
            rule: self.rule.duplicate(),
            cause: self.cause.duplicate(),
            target_expr_hash: self.target_expr_hash,
        }
    }
}

} // verus!
