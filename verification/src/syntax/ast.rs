//! The ruleset syntax tree: rulesets, header declarations, evidence and
//! decision rules, their blocks and statements, and expressions. Every node
//! carries its byte span in the source.
use vstd::prelude::*;

use crate::types::{ActionKind, ScopeType, Severity};

verus! {

/// A half-open byte range `[start, end)` of the source.
#[derive(Debug, Clone, Copy, PartialEq, Eq, Structural)]
pub struct Span {
    /// First byte.
    pub start: usize,
    /// One past the last byte.
    pub end: usize,
}

impl Span {
    /// The span `[start, end)`.
    pub fn new(start: usize, end: usize) -> (s: Span)
        ensures
            s.start == start && s.end == end,
    {
        Span { start, end }
    }
}

/// An identifier and its span.
#[derive(Debug, Clone, PartialEq, Eq)]
pub struct Ident {
    /// The identifier text.
    pub name: String,
    /// Where it stands.
    pub span: Span,
}

/// A dotted kind path such as `tcp.retransmission_burst`.
#[derive(Debug, Clone, PartialEq, Eq)]
pub struct KindIdent {
    /// The segments, in order.
    pub segments: Vec<Ident>,
    /// The whole path.
    pub span: Span,
}

/// A decoded string literal.
#[derive(Debug, Clone, PartialEq, Eq)]
pub struct StringLit {
    /// The decoded text.
    pub value: String,
    /// The literal including its quotes.
    pub span: Span,
}

/// An integer literal.
#[derive(Debug, Clone, Copy, PartialEq, Eq, Structural)]
pub struct IntLit {
    /// The value.
    pub value: i64,
    /// Where it stands.
    pub span: Span,
}

/// A duration literal, in milliseconds.
#[derive(Debug, Clone, Copy, PartialEq, Eq, Structural)]
pub struct DurationLit {
    /// The duration in milliseconds.
    pub millis: i64,
    /// Where it stands.
    pub span: Span,
}

/// A `having: count >= N` clause of a correlate block.
#[derive(Debug, Clone, Copy, PartialEq, Eq, Structural)]
pub struct MinMatchClause {
    /// The required number of matches (non-negative).
    pub count: i64,
    /// The count literal.
    pub span: Span,
}

/// A whole ruleset.
#[derive(Debug, PartialEq, Eq)]
pub struct Ruleset {
    /// The ruleset name.
    pub name: StringLit,
    /// Version and declarations.
    pub header: RulesetHeader,
    /// The rules, in declaration order.
    pub rules: Vec<RuleDecl>,
    /// From `ruleset` to the closing brace.
    pub span: Span,
}

/// The ruleset header: version and declarations.
#[derive(Debug, Clone, PartialEq, Eq)]
pub struct RulesetHeader {
    /// `version = "..."`.
    pub version: StringLit,
    /// `requires` and `mutually_exclusive` declarations, in order.
    pub decls: Vec<Decl>,
    /// The header span.
    pub span: Span,
}

/// A header declaration.
#[derive(Debug, Clone, PartialEq, Eq)]
pub enum Decl {
    /// `requires = [...]`.
    Requires(RequiresDecl),
    /// `mutually_exclusive(...)`.
    MutuallyExclusive(MutuallyExclusiveDecl),
}

/// `requires = ["cap", ...]`.
#[derive(Debug, Clone, PartialEq, Eq)]
pub struct RequiresDecl {
    /// The required capabilities.
    pub capabilities: Vec<StringLit>,
    /// The declaration span.
    pub span: Span,
}

/// `mutually_exclusive(A, B, ...)`.
#[derive(Debug, Clone, PartialEq, Eq)]
pub struct MutuallyExclusiveDecl {
    /// The exclusive cause kinds.
    pub idents: Vec<Ident>,
    /// The declaration span.
    pub span: Span,
}

/// A rule.
#[derive(Debug, PartialEq, Eq)]
pub enum RuleDecl {
    /// An evidence rule.
    Evidence(EvidenceRule),
    /// A decision rule.
    Decision(DecisionRule),
}

/// An evidence rule: event anchor, correlates, optional if/else, body.
#[derive(Debug, PartialEq, Eq)]
pub struct EvidenceRule {
    /// Rule name.
    pub name: Ident,
    /// Partition scope.
    pub scope: ScopeType,
    /// Event anchor.
    pub anchor: AnchorBlock,
    /// Correlate blocks, in order.
    pub correlates: Vec<CorrelateBlock>,
    /// Optional branch.
    pub if_else: Option<IfElseBlock>,
    /// Unconditional statements.
    pub body: Vec<Stmt>,
    /// The rule span.
    pub span: Span,
}

/// A decision rule: cause or problem anchor, correlates, optional if/else,
/// body.
#[derive(Debug, PartialEq, Eq)]
pub struct DecisionRule {
    /// Rule name.
    pub name: Ident,
    /// Partition scope.
    pub scope: ScopeType,
    /// Cause or problem anchor.
    pub anchor: DecisionAnchor,
    /// Correlate blocks, in order.
    pub correlates: Vec<CorrelateBlock>,
    /// Optional branch.
    pub if_else: Option<IfElseBlock>,
    /// Unconditional statements.
    pub body: Vec<Stmt>,
    /// The rule span.
    pub span: Span,
}

/// `anchor x: event(T) { predicate }`.
#[derive(Debug, PartialEq, Eq)]
pub struct AnchorBlock {
    /// Binding name.
    pub binding: Ident,
    /// Event type.
    pub event_type: KindIdent,
    /// Optional predicate.
    pub predicate: Option<Expr>,
    /// The anchor span.
    pub span: Span,
}

/// A decision anchor.
#[derive(Debug, PartialEq, Eq)]
pub enum DecisionAnchor {
    /// `anchor c: Cause(K) { predicate }`.
    Cause(CauseAnchor),
    /// `anchor p: Problem(K) [{ predicate }]`.
    Problem(ProblemAnchor),
}

/// A cause anchor; its predicate is required.
#[derive(Debug, PartialEq, Eq)]
pub struct CauseAnchor {
    /// Binding name.
    pub binding: Ident,
    /// Cause kind.
    pub cause: Ident,
    /// Predicate.
    pub predicate: Expr,
    /// From `Cause` to the closing brace.
    pub span: Span,
}

/// A problem anchor; its predicate is optional.
#[derive(Debug, PartialEq, Eq)]
pub struct ProblemAnchor {
    /// Binding name.
    pub binding: Ident,
    /// Problem kind.
    pub problem: Ident,
    /// Optional predicate.
    pub predicate: Option<Expr>,
    /// The anchor span.
    pub span: Span,
}

/// `correlate x: source { topo: ..., time: ..., having: ... }`.
#[derive(Debug, PartialEq, Eq)]
pub struct CorrelateBlock {
    /// Binding name.
    pub binding: Ident,
    /// Candidate source.
    pub source: CorrelateSource,
    /// Topology filter.
    pub topo: TopoPredicate,
    /// Time window.
    pub time: TimeWindow,
    /// Optional minimum match count.
    pub min_match: Option<MinMatchClause>,
    /// The block span.
    pub span: Span,
}

/// Where correlate candidates come from.
#[derive(Debug, PartialEq, Eq)]
pub enum CorrelateSource {
    /// `event(T)`.
    Event(KindIdent),
    /// `Problem(K)`.
    Problem(Ident),
    /// `Cause(K)`.
    Cause(Ident),
}

/// `f(args)` topology call.
#[derive(Debug, PartialEq, Eq)]
pub struct TopoPredicate {
    /// Function name.
    pub name: Ident,
    /// Arguments.
    pub args: Vec<Expr>,
    /// The call span.
    pub span: Span,
}

/// `probe in [start, end]`.
#[derive(Debug, PartialEq, Eq)]
pub struct TimeWindow {
    /// The probed expression.
    pub probe: Expr,
    /// Window start.
    pub start: Expr,
    /// Window end.
    pub end: Expr,
    /// The window span.
    pub span: Span,
}

/// A body statement.
#[derive(Debug, PartialEq, Eq)]
pub enum Stmt {
    /// `infer Cause(K) { ... }`.
    Infer(InferStmt),
    /// `emit Problem(K) { ... }`.
    Emit(EmitStmt),
    /// `action a(k) { ... }`.
    Action(ActionStmt),
}

/// `infer Cause(K) { fields }`.
#[derive(Debug, PartialEq, Eq)]
pub struct InferStmt {
    /// Cause kind.
    pub cause: Ident,
    /// Fields, in order.
    pub fields: Vec<InferField>,
    /// The statement span.
    pub span: Span,
}

/// A field of an infer statement.
#[derive(Debug, PartialEq, Eq)]
pub enum InferField {
    /// `target: expr`.
    Target(Expr, Span),
    /// `weight: ±n` (saturating).
    Weight {
        /// Signed weight.
        value: i64,
        /// Field span.
        span: Span,
    },
    /// `evidence: [a, b]`.
    Evidence(Vec<Ident>, Span),
}

/// `emit Problem(K) { fields }`.
#[derive(Debug, PartialEq, Eq)]
pub struct EmitStmt {
    /// Problem kind.
    pub problem: Ident,
    /// Fields, in order.
    pub fields: Vec<EmitField>,
    /// The statement span.
    pub span: Span,
}

/// A field of an emit statement.
#[derive(Debug, PartialEq, Eq)]
pub enum EmitField {
    /// `target: expr`.
    Target(Expr, Span),
    /// `severity: S`.
    Severity(Severity, Span),
    /// `evidence: [a, b]`.
    Evidence(Vec<Ident>, Span),
    /// `sarif_id: "..."`.
    SarifId(StringLit, Span),
}

/// The action an action statement names.
#[derive(Debug, Clone, PartialEq, Eq)]
pub enum ActionName {
    /// A catalog action.
    Known(ActionKind),
    /// Any other name (rejected later by the verifier).
    Custom(Ident),
}

/// `action a(k) { fields }`.
#[derive(Debug, PartialEq, Eq)]
pub struct ActionStmt {
    /// The action.
    pub action: ActionName,
    /// Optional kind argument.
    pub arg: Option<KindIdent>,
    /// Fields, in order.
    pub fields: Vec<ActionField>,
    /// The statement span.
    pub span: Span,
}

/// A field of an action statement.
#[derive(Debug, PartialEq, Eq)]
pub enum ActionField {
    /// `target: expr`.
    Target(Expr, Span),
    /// `reason: "..."`.
    Reason(StringLit, Span),
    /// `evidence: [a, b]`.
    Evidence(Vec<Ident>, Span),
}

/// `if cond { ... } [else { ... }]`.
#[derive(Debug, PartialEq, Eq)]
pub struct IfElseBlock {
    /// The condition.
    pub condition: Expr,
    /// Statements when true.
    pub then_body: Vec<Stmt>,
    /// Statements when false.
    pub else_body: Option<Vec<Stmt>>,
    /// The block span.
    pub span: Span,
}

/// An expression and its span.
#[derive(Debug, PartialEq, Eq)]
pub struct Expr {
    /// What it is.
    pub kind: ExprKind,
    /// Where it stands.
    pub span: Span,
}

/// Expression forms.
#[derive(Debug, PartialEq, Eq)]
pub enum ExprKind {
    /// Integer literal.
    Int(IntLit),
    /// Duration literal.
    Duration(DurationLit),
    /// String literal.
    String(StringLit),
    /// Identifier.
    Ident(Ident),
    /// `true` / `false`.
    Bool(bool),
    /// `present(x)`.
    Present(Ident),
    /// `absent(x)`.
    Absent(Ident),
    /// Unary operation.
    Unary {
        /// The operator.
        op: UnaryOp,
        /// The operand.
        expr: Box<Expr>,
    },
    /// Binary operation.
    Binary {
        /// The operator.
        op: BinaryOp,
        /// Left operand.
        left: Box<Expr>,
        /// Right operand.
        right: Box<Expr>,
    },
    /// Field access `base.field`.
    Field {
        /// The base.
        base: Box<Expr>,
        /// The field.
        field: Ident,
    },
    /// Call `callee(args)`.
    Call {
        /// The callee.
        callee: Box<Expr>,
        /// Arguments.
        args: Vec<Expr>,
    },
    /// Index `base[index]`.
    Index {
        /// The base.
        base: Box<Expr>,
        /// The index.
        index: Box<Expr>,
    },
}

/// Unary operators.
#[derive(Debug, Clone, Copy, PartialEq, Eq, Structural)]
pub enum UnaryOp {
    /// `!` or `not`.
    Not,
}

/// Binary operators.
#[derive(Debug, Clone, Copy, PartialEq, Eq, Structural)]
pub enum BinaryOp {
    /// `||` or `or`.
    Or,
    /// `&&` or `and`.
    And,
    /// `==`.
    Eq,
    /// `!=`.
    Ne,
    /// `<`.
    Lt,
    /// `<=`.
    Le,
    /// `>`.
    Gt,
    /// `>=`.
    Ge,
    /// `in`.
    In,
    /// `+`.
    Add,
    /// `-`.
    Sub,
    /// `*`.
    Mul,
    /// `/`.
    Div,
    /// `%`.
    Rem,
}

impl InferField {
    /// The signed weight and span when this is a `weight` field.
    pub fn weight_value(&self) -> (r: Option<(i64, Span)>)
        ensures
            match self {
                InferField::Weight { value, span } => r == Some((*value, *span)),
                _ => r is None,
            },
    {
        match self {
            InferField::Weight { value, span } => Some((*value, *span)),
            _ => None,
        }
    }
}

/// The span of a statement.
pub open spec fn stmt_span_spec(s: Stmt) -> Span {
    match s {
        Stmt::Infer(x) => x.span,
        Stmt::Emit(x) => x.span,
        Stmt::Action(x) => x.span,
    }
}

/// The span of a statement.
pub fn stmt_span(stmt: &Stmt) -> (s: Span)
    ensures
        s == stmt_span_spec(*stmt),
{
    match stmt {
        Stmt::Infer(s) => s.span,
        Stmt::Emit(s) => s.span,
        Stmt::Action(s) => s.span,
    }
}

} // verus!
