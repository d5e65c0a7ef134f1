//! The ruleset grammar as a specification over the token stream: what the
//! parser returns for every input when it stops at the first syntax error,
//! with the values and spans of the tree, or the error it reports.
//!
//! ```text
//! Ruleset     ::= "ruleset" String "{" Header { Rule } "}" EOF
//! Header      ::= "version" "=" String { Requires | Exclusive }
//! Requires    ::= "requires" "=" "[" [String { "," String }] "]"     (at most 32)
//! Exclusive   ::= "mutually_exclusive" "(" Name { "," Name } ")"
//! Rule        ::= ("evidence" | "decision") Ident "{" "scope" ":" Scope Anchor
//!                 { Correlate } [IfElse] { Stmt } "}"
//! Anchor      ::= "anchor" Ident ":" "event" "(" Kind ")" ["{" [Expr] "}"]
//! Decision    ::= "anchor" Ident ":" ("Cause" "(" Ident ")" "{" Expr "}"
//!                 | "Problem" "(" Ident ")" ["{" [Expr] "}"])
//! Correlate   ::= "correlate" Ident ":" Source "{" "topo" ":" Ident Args
//!                 "time" ":" Add "in" "[" Expr "," Expr "]" ["having" ":" "count" ">=" Int] "}"
//! Stmt        ::= Infer | Emit | Action
//! ```
use vstd::prelude::*;

use crate::syntax::ast::{
    ActionField, ActionName, ActionStmt, AnchorBlock, CauseAnchor, CorrelateBlock, CorrelateSource, DecisionAnchor,
    DecisionRule, Decl, EmitField, EmitStmt, EvidenceRule, Expr, Ident, IfElseBlock, InferField, InferStmt,
    KindIdent, MinMatchClause, MutuallyExclusiveDecl, ProblemAnchor, RequiresDecl, RuleDecl, Ruleset,
    RulesetHeader, Stmt, StringLit, TimeWindow, TopoPredicate,
};
use crate::syntax::grammar::{
    adv, args_v, err_v, expr_v, g_add, g_args, g_expr, g_name, g_punct, is_kw, is_punct, prev_end, text_v, unexpected,
    ErrV, ExprV, Tok,
};
use crate::syntax::lexer::{Punct, TokSpec};
use crate::syntax::parser::ParseErr;
use crate::types::{ActionKind, ScopeType, Severity};

verus! {

/// A parse step's spec result: a value and the next position, or an error.
pub type Res<V> = Result<(V, int), ErrV>;

/// Whether an exec parse step matches its spec result, values compared
/// through `view`.
pub open spec fn outcome<A, V>(r: Result<A, ParseErr>, idx: int, g: Res<V>, view: spec_fn(A) -> V) -> bool {
    match g {
        Ok((v, j)) => r matches Ok(a) && view(a) == v && idx == j,
        Err(ev) => r matches Err(e) && err_v(e) == ev,
    }
}

/// A name or string with its span.
pub type NameV = (Seq<char>, int, int);

/// The value of an identifier.
pub open spec fn ident_v(i: Ident) -> NameV {
    (i.name@, i.span.start as int, i.span.end as int)
}

/// The value of a string literal.
pub open spec fn str_v(s: StringLit) -> NameV {
    (s.value@, s.span.start as int, s.span.end as int)
}

/// The values of identifiers.
pub open spec fn idents_v(s: Seq<Ident>) -> Seq<NameV> {
    s.map_values(|i: Ident| ident_v(i))
}

/// The values of string literals.
pub open spec fn strs_v(s: Seq<StringLit>) -> Seq<NameV> {
    s.map_values(|x: StringLit| str_v(x))
}

/// A dotted kind name: its segments and span.
pub struct KindV {
    pub segs: Seq<NameV>,
    pub lo: int,
    pub hi: int,
}

/// The value of a kind name.
pub open spec fn kind_v(k: KindIdent) -> KindV {
    KindV { segs: idents_v(k.segments@), lo: k.span.start as int, hi: k.span.end as int }
}

/// The value of an optional expression.
pub open spec fn opt_expr_v(e: Option<Expr>) -> Option<ExprV> {
    match e {
        Some(x) => Some(expr_v(x)),
        None => None,
    }
}

/// `infer` fields.
pub enum InferFieldV {
    Target(ExprV, int, int),
    Weight(i64, int, int),
    Evidence(Seq<NameV>, int, int),
}

/// `emit` fields.
pub enum EmitFieldV {
    Target(ExprV, int, int),
    Severity(Severity, int, int),
    Evidence(Seq<NameV>, int, int),
    SarifId(NameV, int, int),
}

/// `action` fields.
pub enum ActionFieldV {
    Target(ExprV, int, int),
    Reason(NameV, int, int),
    Evidence(Seq<NameV>, int, int),
}

/// An action's name.
pub enum ActionNameV {
    Known(ActionKind),
    Custom(NameV),
}

/// Statements: the kind or action, fields and span.
pub enum StmtV {
    Infer(NameV, Seq<InferFieldV>, int, int),
    Emit(NameV, Seq<EmitFieldV>, int, int),
    Action(ActionNameV, Option<KindV>, Seq<ActionFieldV>, int, int),
}

pub open spec fn infer_field_v(f: InferField) -> InferFieldV {
    match f {
        InferField::Target(e, s) => InferFieldV::Target(expr_v(e), s.start as int, s.end as int),
        InferField::Weight { value, span } => InferFieldV::Weight(value, span.start as int, span.end as int),
        InferField::Evidence(v, s) => InferFieldV::Evidence(idents_v(v@), s.start as int, s.end as int),
    }
}

pub open spec fn emit_field_v(f: EmitField) -> EmitFieldV {
    match f {
        EmitField::Target(e, s) => EmitFieldV::Target(expr_v(e), s.start as int, s.end as int),
        EmitField::Severity(v, s) => EmitFieldV::Severity(v, s.start as int, s.end as int),
        EmitField::Evidence(v, s) => EmitFieldV::Evidence(idents_v(v@), s.start as int, s.end as int),
        EmitField::SarifId(v, s) => EmitFieldV::SarifId(str_v(v), s.start as int, s.end as int),
    }
}

pub open spec fn action_field_v(f: ActionField) -> ActionFieldV {
    match f {
        ActionField::Target(e, s) => ActionFieldV::Target(expr_v(e), s.start as int, s.end as int),
        ActionField::Reason(v, s) => ActionFieldV::Reason(str_v(v), s.start as int, s.end as int),
        ActionField::Evidence(v, s) => ActionFieldV::Evidence(idents_v(v@), s.start as int, s.end as int),
    }
}

pub open spec fn infer_fields_v(s: Seq<InferField>) -> Seq<InferFieldV> {
    s.map_values(|f: InferField| infer_field_v(f))
}

pub open spec fn emit_fields_v(s: Seq<EmitField>) -> Seq<EmitFieldV> {
    s.map_values(|f: EmitField| emit_field_v(f))
}

pub open spec fn action_fields_v(s: Seq<ActionField>) -> Seq<ActionFieldV> {
    s.map_values(|f: ActionField| action_field_v(f))
}

pub open spec fn infer_v(s: InferStmt) -> StmtV {
    StmtV::Infer(ident_v(s.cause), infer_fields_v(s.fields@), s.span.start as int, s.span.end as int)
}

pub open spec fn emit_v(s: EmitStmt) -> StmtV {
    StmtV::Emit(ident_v(s.problem), emit_fields_v(s.fields@), s.span.start as int, s.span.end as int)
}

pub open spec fn action_v(s: ActionStmt) -> StmtV {
    let name = match s.action {
        ActionName::Known(k) => ActionNameV::Known(k),
        ActionName::Custom(i) => ActionNameV::Custom(ident_v(i)),
    };
    let arg = match s.arg {
        Some(k) => Some(kind_v(k)),
        None => None,
    };
    StmtV::Action(name, arg, action_fields_v(s.fields@), s.span.start as int, s.span.end as int)
}

/// The value of a statement.
pub open spec fn stmt_v(s: Stmt) -> StmtV {
    match s {
        Stmt::Infer(x) => infer_v(x),
        Stmt::Emit(x) => emit_v(x),
        Stmt::Action(x) => action_v(x),
    }
}

pub open spec fn stmts_v(s: Seq<Stmt>) -> Seq<StmtV> {
    s.map_values(|x: Stmt| stmt_v(x))
}

/// A statement's span.
pub open spec fn stmt_v_span(s: StmtV) -> (int, int) {
    match s {
        StmtV::Infer(_, _, lo, hi) => (lo, hi),
        StmtV::Emit(_, _, lo, hi) => (lo, hi),
        StmtV::Action(_, _, _, lo, hi) => (lo, hi),
    }
}

/// `if cond { .. } [else { .. }]`.
pub struct IfElseV {
    pub cond: ExprV,
    pub then_body: Seq<StmtV>,
    pub else_body: Option<Seq<StmtV>>,
    pub lo: int,
    pub hi: int,
}

pub open spec fn if_else_v(b: IfElseBlock) -> IfElseV {
    IfElseV {
        cond: expr_v(b.condition),
        then_body: stmts_v(b.then_body@),
        else_body: match b.else_body {
            Some(v) => Some(stmts_v(v@)),
            None => None,
        },
        lo: b.span.start as int,
        hi: b.span.end as int,
    }
}

/// A correlate's source.
pub enum SourceV {
    Event(KindV),
    Problem(NameV),
    Cause(NameV),
}

pub open spec fn source_v(s: CorrelateSource) -> SourceV {
    match s {
        CorrelateSource::Event(k) => SourceV::Event(kind_v(k)),
        CorrelateSource::Problem(i) => SourceV::Problem(ident_v(i)),
        CorrelateSource::Cause(i) => SourceV::Cause(ident_v(i)),
    }
}

/// A correlate block: binding, source, topology call (name, arguments,
/// span), time window (probe, start, end, span), `having` clause, span.
pub struct CorrelateV {
    pub binding: NameV,
    pub source: SourceV,
    pub topo: (NameV, Seq<ExprV>, int, int),
    pub time: (ExprV, ExprV, ExprV, int, int),
    pub min_match: Option<(i64, int, int)>,
    pub lo: int,
    pub hi: int,
}

pub open spec fn topo_v(t: TopoPredicate) -> (NameV, Seq<ExprV>, int, int) {
    (ident_v(t.name), args_v(t.args@), t.span.start as int, t.span.end as int)
}

pub open spec fn time_v(t: TimeWindow) -> (ExprV, ExprV, ExprV, int, int) {
    (expr_v(t.probe), expr_v(t.start), expr_v(t.end), t.span.start as int, t.span.end as int)
}

pub open spec fn min_match_v(m: Option<MinMatchClause>) -> Option<(i64, int, int)> {
    match m {
        Some(c) => Some((c.count, c.span.start as int, c.span.end as int)),
        None => None,
    }
}

pub open spec fn correlate_v(c: CorrelateBlock) -> CorrelateV {
    CorrelateV {
        binding: ident_v(c.binding),
        source: source_v(c.source),
        topo: topo_v(c.topo),
        time: time_v(c.time),
        min_match: min_match_v(c.min_match),
        lo: c.span.start as int,
        hi: c.span.end as int,
    }
}

pub open spec fn correlates_v(s: Seq<CorrelateBlock>) -> Seq<CorrelateV> {
    s.map_values(|c: CorrelateBlock| correlate_v(c))
}

/// An event anchor: binding, event kind, predicate, span.
pub struct AnchorV {
    pub binding: NameV,
    pub event_type: KindV,
    pub predicate: Option<ExprV>,
    pub lo: int,
    pub hi: int,
}

pub open spec fn anchor_v(a: AnchorBlock) -> AnchorV {
    AnchorV {
        binding: ident_v(a.binding),
        event_type: kind_v(a.event_type),
        predicate: opt_expr_v(a.predicate),
        lo: a.span.start as int,
        hi: a.span.end as int,
    }
}

/// A decision anchor: binding, kind name, predicate, span.
pub enum DecisionAnchorV {
    Cause(NameV, NameV, ExprV, int, int),
    Problem(NameV, NameV, Option<ExprV>, int, int),
}

pub open spec fn decision_anchor_v(a: DecisionAnchor) -> DecisionAnchorV {
    match a {
        DecisionAnchor::Cause(c) => DecisionAnchorV::Cause(
            ident_v(c.binding),
            ident_v(c.cause),
            expr_v(c.predicate),
            c.span.start as int,
            c.span.end as int,
        ),
        DecisionAnchor::Problem(p) => DecisionAnchorV::Problem(
            ident_v(p.binding),
            ident_v(p.problem),
            opt_expr_v(p.predicate),
            p.span.start as int,
            p.span.end as int,
        ),
    }
}

/// A rule with an anchor of type `A`.
pub struct RuleV<A> {
    pub name: NameV,
    pub scope: ScopeType,
    pub anchor: A,
    pub correlates: Seq<CorrelateV>,
    pub if_else: Option<IfElseV>,
    pub body: Seq<StmtV>,
    pub lo: int,
    pub hi: int,
}

pub open spec fn opt_if_else_v(b: Option<IfElseBlock>) -> Option<IfElseV> {
    match b {
        Some(x) => Some(if_else_v(x)),
        None => None,
    }
}

pub open spec fn evidence_rule_v(r: EvidenceRule) -> RuleV<AnchorV> {
    RuleV {
        name: ident_v(r.name),
        scope: r.scope,
        anchor: anchor_v(r.anchor),
        correlates: correlates_v(r.correlates@),
        if_else: opt_if_else_v(r.if_else),
        body: stmts_v(r.body@),
        lo: r.span.start as int,
        hi: r.span.end as int,
    }
}

pub open spec fn decision_rule_v(r: DecisionRule) -> RuleV<DecisionAnchorV> {
    RuleV {
        name: ident_v(r.name),
        scope: r.scope,
        anchor: decision_anchor_v(r.anchor),
        correlates: correlates_v(r.correlates@),
        if_else: opt_if_else_v(r.if_else),
        body: stmts_v(r.body@),
        lo: r.span.start as int,
        hi: r.span.end as int,
    }
}

/// A rule.
pub enum RuleDeclV {
    Evidence(RuleV<AnchorV>),
    Decision(RuleV<DecisionAnchorV>),
}

pub open spec fn rule_decl_v(r: RuleDecl) -> RuleDeclV {
    match r {
        RuleDecl::Evidence(e) => RuleDeclV::Evidence(evidence_rule_v(e)),
        RuleDecl::Decision(d) => RuleDeclV::Decision(decision_rule_v(d)),
    }
}

pub open spec fn rules_v(s: Seq<RuleDecl>) -> Seq<RuleDeclV> {
    s.map_values(|r: RuleDecl| rule_decl_v(r))
}

/// A header declaration: its entries and span.
pub enum DeclV {
    Requires(Seq<NameV>, int, int),
    MutuallyExclusive(Seq<NameV>, int, int),
}

pub open spec fn requires_v(d: RequiresDecl) -> (Seq<NameV>, int, int) {
    (strs_v(d.capabilities@), d.span.start as int, d.span.end as int)
}

pub open spec fn exclusive_v(d: MutuallyExclusiveDecl) -> (Seq<NameV>, int, int) {
    (idents_v(d.idents@), d.span.start as int, d.span.end as int)
}

pub open spec fn decl_v(d: Decl) -> DeclV {
    match d {
        Decl::Requires(r) => {
            let (c, lo, hi) = requires_v(r);
            DeclV::Requires(c, lo, hi)
        },
        Decl::MutuallyExclusive(m) => {
            let (c, lo, hi) = exclusive_v(m);
            DeclV::MutuallyExclusive(c, lo, hi)
        },
    }
}

pub open spec fn decls_v(s: Seq<Decl>) -> Seq<DeclV> {
    s.map_values(|d: Decl| decl_v(d))
}

/// The header: version, declarations, span.
pub struct HeaderV {
    pub version: NameV,
    pub decls: Seq<DeclV>,
    pub lo: int,
    pub hi: int,
}

pub open spec fn header_v(h: RulesetHeader) -> HeaderV {
    HeaderV { version: str_v(h.version), decls: decls_v(h.decls@), lo: h.span.start as int, hi: h.span.end as int }
}

/// A ruleset: name, header, rules, span.
pub struct RulesetV {
    pub name: NameV,
    pub header: HeaderV,
    pub rules: Seq<RuleDeclV>,
    pub lo: int,
    pub hi: int,
}

pub open spec fn ruleset_v(r: Ruleset) -> RulesetV {
    RulesetV {
        name: str_v(r.name),
        header: header_v(r.header),
        rules: rules_v(r.rules@),
        lo: r.span.start as int,
        hi: r.span.end as int,
    }
}

// ---------------------------------------------------------------------
// Tokens.
// ---------------------------------------------------------------------

/// The keyword `kw`: its span, or `expected keyword '<kw>'`.
pub open spec fn g_kw(ts: Seq<Tok>, i: int, kw: &'static str) -> Res<(int, int)> {
    if is_kw(ts, i, kw@) {
        Ok(((ts[i].1, ts[i].2), adv(ts, i)))
    } else {
        Err(("ADGL0100", "expected keyword '"@ + kw@ + "'"@, kw, ts[i].1, ts[i].2))
    }
}

/// The word `w`, as an identifier or a keyword: its span, or
/// `expected '<w>'`.
pub open spec fn g_word_exact(src: Seq<u8>, ts: Seq<Tok>, i: int, w: &'static str) -> Res<(int, int)> {
    if (ts[i].0 is Ident && text_v(src.subrange(ts[i].1, ts[i].2)) == w@) || is_kw(ts, i, w@) {
        Ok(((ts[i].1, ts[i].2), adv(ts, i)))
    } else {
        Err(("ADGL0100", "expected '"@ + w@ + "'"@, w, ts[i].1, ts[i].2))
    }
}

/// An integer literal with its span.
pub open spec fn g_int(ts: Seq<Tok>, i: int) -> Res<(i64, int, int)> {
    match ts[i].0 {
        TokSpec::Int(v) => Ok(((v, ts[i].1, ts[i].2), adv(ts, i))),
        _ => Err(unexpected(ts, i, "integer")),
    }
}

/// A string literal.
pub open spec fn g_str(ts: Seq<Tok>, i: int) -> Res<NameV> {
    match ts[i].0 {
        TokSpec::Str(b) => Ok(((text_v(b), ts[i].1, ts[i].2), adv(ts, i))),
        _ => Err(unexpected(ts, i, "string literal")),
    }
}

/// An identifier or a keyword (its spelling).
pub open spec fn g_word(src: Seq<u8>, ts: Seq<Tok>, i: int) -> Res<NameV> {
    match ts[i].0 {
        TokSpec::Ident => Ok(((text_v(src.subrange(ts[i].1, ts[i].2)), ts[i].1, ts[i].2), adv(ts, i))),
        TokSpec::Kw(b) => Ok(((vstd::utf8::decode_utf8(b), ts[i].1, ts[i].2), adv(ts, i))),
        _ => Err(unexpected(ts, i, "identifier or keyword")),
    }
}

/// An identifier that is no keyword.
pub open spec fn g_ident_nk(src: Seq<u8>, ts: Seq<Tok>, i: int) -> Res<NameV> {
    match ts[i].0 {
        TokSpec::Ident => Ok(((text_v(src.subrange(ts[i].1, ts[i].2)), ts[i].1, ts[i].2), adv(ts, i))),
        _ => Err(unexpected(ts, i, "identifier")),
    }
}

/// A name (an identifier, or `event` / `Cause` / `Problem`).
pub open spec fn g_ident(src: Seq<u8>, ts: Seq<Tok>, i: int) -> Res<NameV> {
    match g_name(src, ts, i) {
        Ok((n, lo, hi, k)) => Ok(((n, lo, hi), k)),
        Err(e) => Err(e),
    }
}

/// A punctuation token's span.
pub open spec fn g_p(ts: Seq<Tok>, i: int, p: Punct, expected: &'static str) -> Res<(int, int)> {
    match g_punct(ts, i, p, expected) {
        Ok((lo, hi, k)) => Ok(((lo, hi), k)),
        Err(e) => Err(e),
    }
}

// ---------------------------------------------------------------------
// Lists.
// ---------------------------------------------------------------------

/// `Kind ::= Word { "." Word }`.
pub open spec fn g_kind(src: Seq<u8>, ts: Seq<Tok>, i: int) -> Res<KindV> {
    match g_word(src, ts, i) {
        Err(e) => Err(e),
        Ok((w, k)) => g_kind_tail(src, ts, seq![w], w.1, w.2, k),
    }
}

/// `{ "." Word }` after the segments `acc` spanning `lo..end`.
pub open spec fn g_kind_tail(src: Seq<u8>, ts: Seq<Tok>, acc: Seq<NameV>, lo: int, end: int, k: int) -> Res<KindV>
    decreases ts.len() - k,
{
    if 0 <= k && k + 1 < ts.len() && is_punct(ts, k, Punct::Dot) {
        match g_word(src, ts, k + 1) {
            Err(e) => Err(e),
            Ok((w, k2)) => if k < k2 < ts.len() {
                g_kind_tail(src, ts, acc.push(w), lo, w.2, k2)
            } else {
                Ok((KindV { segs: acc.push(w), lo, hi: w.2 }, k2))
            },
        }
    } else {
        Ok((KindV { segs: acc, lo, hi: end }, k))
    }
}

/// `"(" Kind ")"`.
pub open spec fn g_paren_kind(src: Seq<u8>, ts: Seq<Tok>, i: int) -> Res<KindV> {
    match g_p(ts, i, Punct::LParen, "(") {
        Err(e) => Err(e),
        Ok((_a, j)) => match g_kind(src, ts, j) {
            Err(e) => Err(e),
            Ok((kv, k)) => match g_p(ts, k, Punct::RParen, ")") {
                Err(e) => Err(e),
                Ok((_b, k2)) => Ok((kv, k2)),
            },
        },
    }
}

/// `{ "," Name }` after `acc`.
pub open spec fn g_names_tail(src: Seq<u8>, ts: Seq<Tok>, acc: Seq<NameV>, k: int) -> Res<Seq<NameV>>
    decreases ts.len() - k,
{
    if 0 <= k && k + 1 < ts.len() && is_punct(ts, k, Punct::Comma) {
        match g_ident(src, ts, k + 1) {
            Err(e) => Err(e),
            Ok((x, k2)) => if k < k2 < ts.len() {
                g_names_tail(src, ts, acc.push(x), k2)
            } else {
                Ok((acc.push(x), k2))
            },
        }
    } else {
        Ok((acc, k))
    }
}

/// `Name { "," Name }`.
pub open spec fn g_names(src: Seq<u8>, ts: Seq<Tok>, j: int) -> Res<Seq<NameV>> {
    match g_ident(src, ts, j) {
        Err(e) => Err(e),
        Ok((x, k)) => if j < k < ts.len() {
            g_names_tail(src, ts, seq![x], k)
        } else {
            Ok((seq![x], k))
        },
    }
}

/// `[Name { "," Name }]` before `close`.
pub open spec fn g_names_opt(src: Seq<u8>, ts: Seq<Tok>, j: int, close: Punct) -> Res<Seq<NameV>> {
    if is_punct(ts, j, close) {
        Ok((Seq::empty(), j))
    } else {
        g_names(src, ts, j)
    }
}

/// `"[" [Name { "," Name }] "]"`.
pub open spec fn g_ref_list(src: Seq<u8>, ts: Seq<Tok>, i: int) -> Res<Seq<NameV>> {
    match g_p(ts, i, Punct::LBracket, "[") {
        Err(e) => Err(e),
        Ok((_a, j)) => match g_names_opt(src, ts, j, Punct::RBracket) {
            Err(e) => Err(e),
            Ok((v, k)) => match g_p(ts, k, Punct::RBracket, "]") {
                Err(e) => Err(e),
                Ok((_b, k2)) => Ok((v, k2)),
            },
        },
    }
}

/// `{ "," String }` after `acc`.
pub open spec fn g_strs_tail(ts: Seq<Tok>, acc: Seq<NameV>, k: int) -> Res<Seq<NameV>>
    decreases ts.len() - k,
{
    if 0 <= k && k + 1 < ts.len() && is_punct(ts, k, Punct::Comma) {
        match g_str(ts, k + 1) {
            Err(e) => Err(e),
            Ok((x, k2)) => if k < k2 < ts.len() {
                g_strs_tail(ts, acc.push(x), k2)
            } else {
                Ok((acc.push(x), k2))
            },
        }
    } else {
        Ok((acc, k))
    }
}

/// `[String { "," String }]` before `]`.
pub open spec fn g_strs_opt(ts: Seq<Tok>, j: int) -> Res<Seq<NameV>> {
    if is_punct(ts, j, Punct::RBracket) {
        Ok((Seq::empty(), j))
    } else {
        match g_str(ts, j) {
            Err(e) => Err(e),
            Ok((x, k)) => if j < k < ts.len() {
                g_strs_tail(ts, seq![x], k)
            } else {
                Ok((seq![x], k))
            },
        }
    }
}

// ---------------------------------------------------------------------
// Header.
// ---------------------------------------------------------------------

/// A scope type by name.
pub open spec fn scope_of(n: Seq<char>) -> Option<ScopeType> {
    if n == "Session"@ {
        Some(ScopeType::Session)
    } else if n == "Port"@ {
        Some(ScopeType::Port)
    } else if n == "ClientMac"@ {
        Some(ScopeType::ClientMac)
    } else if n == "Vlan"@ {
        Some(ScopeType::Vlan)
    } else if n == "AccessPoint"@ {
        Some(ScopeType::AccessPoint)
    } else if n == "Global"@ {
        Some(ScopeType::Global)
    } else {
        None
    }
}

/// A severity by name.
pub open spec fn severity_of(n: Seq<char>) -> Option<Severity> {
    if n == "Critical"@ {
        Some(Severity::Critical)
    } else if n == "High"@ {
        Some(Severity::High)
    } else if n == "Medium"@ {
        Some(Severity::Medium)
    } else if n == "Low"@ {
        Some(Severity::Low)
    } else if n == "Recommended"@ {
        Some(Severity::Recommended)
    } else if n == "Optional"@ {
        Some(Severity::Optional)
    } else {
        None
    }
}

/// A scope type.
pub open spec fn g_scope(src: Seq<u8>, ts: Seq<Tok>, i: int) -> Res<ScopeType> {
    match g_ident(src, ts, i) {
        Err(e) => Err(e),
        Ok((n, k)) => match scope_of(n.0) {
            Some(s) => Ok((s, k)),
            None => Err(
                (
                    "ADGL0100",
                    "invalid scope type"@,
                    "Session | Port | ClientMac | Vlan | AccessPoint | Global",
                    n.1,
                    n.2,
                ),
            ),
        },
    }
}

/// A severity.
pub open spec fn g_severity(src: Seq<u8>, ts: Seq<Tok>, i: int) -> Res<Severity> {
    match g_ident(src, ts, i) {
        Err(e) => Err(e),
        Ok((n, k)) => match severity_of(n.0) {
            Some(s) => Ok((s, k)),
            None => Err(
                (
                    "ADGL0100",
                    "invalid severity"@,
                    "Critical | High | Medium | Low | Recommended | Optional",
                    n.1,
                    n.2,
                ),
            ),
        },
    }
}

/// `"requires" "=" "[" [String { "," String }] "]"`, at most 32 entries.
pub open spec fn g_requires(ts: Seq<Tok>, i: int) -> Res<(Seq<NameV>, int, int)> {
    match g_kw(ts, i, "requires") {
        Err(e) => Err(e),
        Ok((s, j1)) => match g_p(ts, j1, Punct::Eq, "=") {
            Err(e) => Err(e),
            Ok((_a, j2)) => match g_p(ts, j2, Punct::LBracket, "[") {
                Err(e) => Err(e),
                Ok((_b, j3)) => match g_strs_opt(ts, j3) {
                    Err(e) => Err(e),
                    Ok((caps, k)) => if caps.len() > 32 {
                        Err(("ADGL0105", "too many requires entries"@, "at most 32 entries", ts[k].1, ts[k].2))
                    } else {
                        match g_p(ts, k, Punct::RBracket, "]") {
                            Err(e) => Err(e),
                            Ok((c, k2)) => Ok(((caps, s.0, c.1), k2)),
                        }
                    },
                },
            },
        },
    }
}

/// `"mutually_exclusive" "(" Name { "," Name } ")"`.
pub open spec fn g_exclusive(src: Seq<u8>, ts: Seq<Tok>, i: int) -> Res<(Seq<NameV>, int, int)> {
    match g_kw(ts, i, "mutually_exclusive") {
        Err(e) => Err(e),
        Ok((s, j1)) => match g_p(ts, j1, Punct::LParen, "(") {
            Err(e) => Err(e),
            Ok((_a, j2)) => match g_names(src, ts, j2) {
                Err(e) => Err(e),
                Ok((v, k)) => match g_p(ts, k, Punct::RParen, ")") {
                    Err(e) => Err(e),
                    Ok((c, k2)) => Ok(((v, s.0, c.1), k2)),
                },
            },
        },
    }
}

/// The header's declarations after `acc`, the header ending at `end`
/// so far.
pub open spec fn g_decls_tail(src: Seq<u8>, ts: Seq<Tok>, acc: Seq<DeclV>, end: int, k: int) -> Res<(Seq<DeclV>, int)>
    decreases ts.len() - k,
{
    if 0 <= k < ts.len() && is_kw(ts, k, "requires"@) {
        match g_requires(ts, k) {
            Err(e) => Err(e),
            Ok(((c, lo, hi), k2)) => if k < k2 < ts.len() {
                g_decls_tail(src, ts, acc.push(DeclV::Requires(c, lo, hi)), hi, k2)
            } else {
                Ok(((acc.push(DeclV::Requires(c, lo, hi)), hi), k2))
            },
        }
    } else if 0 <= k < ts.len() && is_kw(ts, k, "mutually_exclusive"@) {
        match g_exclusive(src, ts, k) {
            Err(e) => Err(e),
            Ok(((c, lo, hi), k2)) => if k < k2 < ts.len() {
                g_decls_tail(src, ts, acc.push(DeclV::MutuallyExclusive(c, lo, hi)), hi, k2)
            } else {
                Ok(((acc.push(DeclV::MutuallyExclusive(c, lo, hi)), hi), k2))
            },
        }
    } else {
        Ok(((acc, end), k))
    }
}

/// `Header ::= "version" "=" String { Requires | Exclusive }`.
pub open spec fn g_header(src: Seq<u8>, ts: Seq<Tok>, i: int) -> Res<HeaderV> {
    match g_kw(ts, i, "version") {
        Err(e) => Err(e),
        Ok((_v, j1)) => match g_p(ts, j1, Punct::Eq, "=") {
            Err(e) => Err(e),
            Ok((_a, j2)) => match g_str(ts, j2) {
                Err(e) => Err(e),
                Ok((ver, j3)) => match g_decls_tail(src, ts, Seq::empty(), ver.2, j3) {
                    Err(e) => Err(e),
                    Ok(((ds, end), k)) => Ok((HeaderV { version: ver, decls: ds, lo: ts[i].1, hi: end }, k)),
                },
            },
        },
    }
}

// ---------------------------------------------------------------------
// Anchors and correlates.
// ---------------------------------------------------------------------

/// `["{" [Expr] "}"]` at `j`.
pub open spec fn g_opt_pred(src: Seq<u8>, ts: Seq<Tok>, j: int) -> Res<Option<ExprV>> {
    if is_punct(ts, j, Punct::LBrace) {
        let j1 = adv(ts, j);
        if is_punct(ts, j1, Punct::RBrace) {
            match g_p(ts, j1, Punct::RBrace, "}") {
                Err(e) => Err(e),
                Ok((_b, k)) => Ok((None, k)),
            }
        } else {
            match g_expr(src, ts, j1) {
                Err(e) => Err(e),
                Ok((x, k)) => match g_p(ts, k, Punct::RBrace, "}") {
                    Err(e) => Err(e),
                    Ok((_b, k2)) => Ok((Some(x), k2)),
                },
            }
        }
    } else {
        Ok((None, j))
    }
}

/// The end of an optional predicate, else `end`.
pub open spec fn pred_end(p: Option<ExprV>, end: int) -> int {
    match p {
        Some(x) => x.hi,
        None => end,
    }
}

/// `"anchor" Ident ":" "event" "(" Kind ")" ["{" [Expr] "}"]`.
pub open spec fn g_anchor(src: Seq<u8>, ts: Seq<Tok>, i: int) -> Res<AnchorV> {
    match g_kw(ts, i, "anchor") {
        Err(e) => Err(e),
        Ok((s, j1)) => match g_ident_nk(src, ts, j1) {
            Err(e) => Err(e),
            Ok((b, j2)) => match g_p(ts, j2, Punct::Colon, ":") {
                Err(e) => Err(e),
                Ok((_a, j3)) => match g_kw(ts, j3, "event") {
                    Err(e) => Err(e),
                    Ok((_c, j4)) => match g_paren_kind(src, ts, j4) {
                        Err(e) => Err(e),
                        Ok((kv, j5)) => match g_opt_pred(src, ts, j5) {
                            Err(e) => Err(e),
                            Ok((p, k)) => Ok(
                                (
                                    AnchorV {
                                        binding: b,
                                        event_type: kv,
                                        predicate: p,
                                        lo: s.0,
                                        hi: pred_end(p, kv.hi),
                                    },
                                    k,
                                ),
                            ),
                        },
                    },
                },
            },
        },
    }
}

/// `"(" Ident ")"` with the identifier.
pub open spec fn g_paren_ident(src: Seq<u8>, ts: Seq<Tok>, i: int) -> Res<NameV> {
    match g_p(ts, i, Punct::LParen, "(") {
        Err(e) => Err(e),
        Ok((_a, j)) => match g_ident_nk(src, ts, j) {
            Err(e) => Err(e),
            Ok((x, k)) => match g_p(ts, k, Punct::RParen, ")") {
                Err(e) => Err(e),
                Ok((_b, k2)) => Ok((x, k2)),
            },
        },
    }
}

/// `"anchor" Ident ":" (Cause | Problem)`.
pub open spec fn g_decision_anchor(src: Seq<u8>, ts: Seq<Tok>, i: int) -> Res<DecisionAnchorV> {
    match g_kw(ts, i, "anchor") {
        Err(e) => Err(e),
        Ok((_s, j1)) => match g_ident_nk(src, ts, j1) {
            Err(e) => Err(e),
            Ok((b, j2)) => match g_p(ts, j2, Punct::Colon, ":") {
                Err(e) => Err(e),
                Ok((_a, j3)) => if is_kw(ts, j3, "Cause"@) {
                    match g_kw(ts, j3, "Cause") {
                        Err(e) => Err(e),
                        Ok((s, j4)) => match g_paren_ident(src, ts, j4) {
                            Err(e) => Err(e),
                            Ok((c, j5)) => match g_p(ts, j5, Punct::LBrace, "{") {
                                Err(e) => Err(e),
                                Ok((_d, j6)) => match g_expr(src, ts, j6) {
                                    Err(e) => Err(e),
                                    Ok((x, j7)) => match g_p(ts, j7, Punct::RBrace, "}") {
                                        Err(e) => Err(e),
                                        Ok((f, k)) => Ok((DecisionAnchorV::Cause(b, c, x, s.0, f.1), k)),
                                    },
                                },
                            },
                        },
                    }
                } else if is_kw(ts, j3, "Problem"@) {
                    match g_kw(ts, j3, "Problem") {
                        Err(e) => Err(e),
                        Ok((s, j4)) => match g_paren_ident(src, ts, j4) {
                            Err(e) => Err(e),
                            Ok((pn, j5)) => match g_opt_pred(src, ts, j5) {
                                Err(e) => Err(e),
                                Ok((p, k)) => Ok((DecisionAnchorV::Problem(b, pn, p, s.0, pred_end(p, pn.2)), k)),
                            },
                        },
                    }
                } else {
                    Err(
                        (
                            "ADGL0100",
                            "expected Cause(...) or Problem(...)"@,
                            "Cause/Problem anchor",
                            ts[j3].1,
                            ts[j3].2,
                        ),
                    )
                },
            },
        },
    }
}

/// `["having" ":" "count" ">=" Int]` (a non-negative count).
pub open spec fn g_min_match(src: Seq<u8>, ts: Seq<Tok>, i: int) -> Res<Option<(i64, int, int)>> {
    if !is_kw(ts, i, "having"@) {
        Ok((None, i))
    } else {
        match g_kw(ts, i, "having") {
            Err(e) => Err(e),
            Ok((_a, j1)) => match g_p(ts, j1, Punct::Colon, ":") {
                Err(e) => Err(e),
                Ok((_b, j2)) => match g_word_exact(src, ts, j2, "count") {
                    Err(e) => Err(e),
                    Ok((_c, j3)) => match g_p(ts, j3, Punct::Ge, ">=") {
                        Err(e) => Err(e),
                        Ok((_d, j4)) => match g_int(ts, j4) {
                            Err(e) => Err(e),
                            Ok(((v, lo, hi), k)) => if v < 0 {
                                Err(
                                    (
                                        "ADGL0100",
                                        "min match count must be a non-negative integer literal"@,
                                        "non-negative integer literal",
                                        lo,
                                        hi,
                                    ),
                                )
                            } else {
                                Ok((Some((v, lo, hi)), k))
                            },
                        },
                    },
                },
            },
        }
    }
}

/// `"event" "(" Kind ")" | "Problem" "(" Ident ")" | "Cause" "(" Ident ")"`.
pub open spec fn g_source(src: Seq<u8>, ts: Seq<Tok>, i: int) -> Res<SourceV> {
    if is_kw(ts, i, "event"@) {
        match g_kw(ts, i, "event") {
            Err(e) => Err(e),
            Ok((_a, j)) => match g_paren_kind(src, ts, j) {
                Err(e) => Err(e),
                Ok((k, j2)) => Ok((SourceV::Event(k), j2)),
            },
        }
    } else if is_kw(ts, i, "Problem"@) {
        match g_kw(ts, i, "Problem") {
            Err(e) => Err(e),
            Ok((_a, j)) => match g_paren_ident(src, ts, j) {
                Err(e) => Err(e),
                Ok((x, j2)) => Ok((SourceV::Problem(x), j2)),
            },
        }
    } else if is_kw(ts, i, "Cause"@) {
        match g_kw(ts, i, "Cause") {
            Err(e) => Err(e),
            Ok((_a, j)) => match g_paren_ident(src, ts, j) {
                Err(e) => Err(e),
                Ok((x, j2)) => Ok((SourceV::Cause(x), j2)),
            },
        }
    } else {
        Err(
            (
                "ADGL0100",
                "invalid correlate source"@,
                "event(...) | Problem(...) | Cause(...)",
                ts[i].1,
                ts[i].2,
            ),
        )
    }
}

/// `Ident "(" [Expr { "," Expr }] ")"`, ending at its last argument.
pub open spec fn g_topo(src: Seq<u8>, ts: Seq<Tok>, i: int) -> Res<(NameV, Seq<ExprV>, int, int)> {
    match g_ident_nk(src, ts, i) {
        Err(e) => Err(e),
        Ok((n, j)) => match g_args(src, ts, j) {
            Err(e) => Err(e),
            Ok((a, k)) => Ok(((n, a, n.1, if a.len() > 0 { a.last().hi } else { n.2 }), k)),
        },
    }
}

/// `Add "in" "[" Expr "," Expr "]"`.
pub open spec fn g_time(src: Seq<u8>, ts: Seq<Tok>, i: int) -> Res<(ExprV, ExprV, ExprV, int, int)> {
    match g_add(src, ts, i) {
        Err(e) => Err(e),
        Ok((probe, j1)) => match g_kw(ts, j1, "in") {
            Err(e) => Err(e),
            Ok((_a, j2)) => match g_p(ts, j2, Punct::LBracket, "[") {
                Err(e) => Err(e),
                Ok((_b, j3)) => match g_expr(src, ts, j3) {
                    Err(e) => Err(e),
                    Ok((lo, j4)) => match g_p(ts, j4, Punct::Comma, ",") {
                        Err(e) => Err(e),
                        Ok((_c, j5)) => match g_expr(src, ts, j5) {
                            Err(e) => Err(e),
                            Ok((hi, j6)) => match g_p(ts, j6, Punct::RBracket, "]") {
                                Err(e) => Err(e),
                                Ok((d, k)) => Ok(((probe, lo, hi, probe.lo, d.1), k)),
                            },
                        },
                    },
                },
            },
        },
    }
}

/// `"correlate" Ident ":" Source "{" "topo" ":" Topo "time" ":" Time
/// [having] "}"`.
pub open spec fn g_correlate(src: Seq<u8>, ts: Seq<Tok>, i: int) -> Res<CorrelateV> {
    match g_kw(ts, i, "correlate") {
        Err(e) => Err(e),
        Ok((s, j1)) => match g_ident_nk(src, ts, j1) {
            Err(e) => Err(e),
            Ok((b, j2)) => match g_p(ts, j2, Punct::Colon, ":") {
                Err(e) => Err(e),
                Ok((_a, j3)) => match g_source(src, ts, j3) {
                    Err(e) => Err(e),
                    Ok((so, j4)) => match g_p(ts, j4, Punct::LBrace, "{") {
                        Err(e) => Err(e),
                        Ok((_c, j5)) => match g_word_exact(src, ts, j5, "topo") {
                            Err(e) => Err(e),
                            Ok((_d, j6)) => match g_p(ts, j6, Punct::Colon, ":") {
                                Err(e) => Err(e),
                                Ok((_f, j7)) => match g_topo(src, ts, j7) {
                                    Err(e) => Err(e),
                                    Ok((tp, j8)) => match g_word_exact(src, ts, j8, "time") {
                                        Err(e) => Err(e),
                                        Ok((_g, j9)) => match g_p(ts, j9, Punct::Colon, ":") {
                                            Err(e) => Err(e),
                                            Ok((_h, j10)) => match g_time(src, ts, j10) {
                                                Err(e) => Err(e),
                                                Ok((tw, j11)) => match g_min_match(src, ts, j11) {
                                                    Err(e) => Err(e),
                                                    Ok((mm, j12)) => match g_p(ts, j12, Punct::RBrace, "}") {
                                                        Err(e) => Err(e),
                                                        Ok((z, k)) => Ok(
                                                            (
                                                                CorrelateV {
                                                                    binding: b,
                                                                    source: so,
                                                                    topo: tp,
                                                                    time: tw,
                                                                    min_match: mm,
                                                                    lo: s.0,
                                                                    hi: z.1,
                                                                },
                                                                k,
                                                            ),
                                                        ),
                                                    },
                                                },
                                            },
                                        },
                                    },
                                },
                            },
                        },
                    },
                },
            },
        },
    }
}

/// `{ Correlate }` after `acc`.
pub open spec fn g_correlates_tail(src: Seq<u8>, ts: Seq<Tok>, acc: Seq<CorrelateV>, k: int) -> Res<Seq<CorrelateV>>
    decreases ts.len() - k,
{
    if 0 <= k < ts.len() && is_kw(ts, k, "correlate"@) {
        match g_correlate(src, ts, k) {
            Err(e) => Err(e),
            Ok((c, k2)) => if k < k2 < ts.len() {
                g_correlates_tail(src, ts, acc.push(c), k2)
            } else {
                Ok((acc.push(c), k2))
            },
        }
    } else {
        Ok((acc, k))
    }
}

// ---------------------------------------------------------------------
// Statements.
// ---------------------------------------------------------------------

/// The end of a reference list's field: its last reference, else `end`.
pub open spec fn refs_end(v: Seq<NameV>, end: int) -> int {
    if v.len() > 0 {
        v.last().2
    } else {
        end
    }
}

/// `key ":" value` of `infer`.
pub open spec fn g_infer_field(src: Seq<u8>, ts: Seq<Tok>, i: int) -> Res<InferFieldV> {
    match g_word(src, ts, i) {
        Err(e) => Err(e),
        Ok((key, j1)) => match g_p(ts, j1, Punct::Colon, ":") {
            Err(e) => Err(e),
            Ok((_a, j2)) => if key.0 == "target"@ {
                match g_expr(src, ts, j2) {
                    Err(e) => Err(e),
                    Ok((x, k)) => Ok((InferFieldV::Target(x, key.1, x.hi), k)),
                }
            } else if key.0 == "weight"@ {
                if is_punct(ts, j2, Punct::Plus) || is_punct(ts, j2, Punct::Minus) {
                    let plus = is_punct(ts, j2, Punct::Plus);
                    match g_int(ts, adv(ts, j2)) {
                        Err(e) => Err(e),
                        Ok(((v, _lo, hi), k)) => {
                            let val: i64 = if plus {
                                v
                            } else if v == i64::MIN {
                                i64::MAX
                            } else {
                                (-v) as i64
                            };
                            Ok((InferFieldV::Weight(val, key.1, hi), k))
                        },
                    }
                } else {
                    Err(
                        (
                            "ADGL0100",
                            "weight requires explicit sign"@,
                            "'+' or '-' before integer literal",
                            ts[j2].1,
                            ts[j2].2,
                        ),
                    )
                }
            } else if key.0 == "evidence"@ {
                match g_ref_list(src, ts, j2) {
                    Err(e) => Err(e),
                    Ok((v, k)) => Ok((InferFieldV::Evidence(v, key.1, refs_end(v, key.2)), k)),
                }
            } else {
                Err(("ADGL0100", "unknown infer field"@, "target | weight | evidence", key.1, key.2))
            },
        },
    }
}

/// `key ":" value` of `emit`.
pub open spec fn g_emit_field(src: Seq<u8>, ts: Seq<Tok>, i: int) -> Res<EmitFieldV> {
    match g_word(src, ts, i) {
        Err(e) => Err(e),
        Ok((key, j1)) => match g_p(ts, j1, Punct::Colon, ":") {
            Err(e) => Err(e),
            Ok((_a, j2)) => if key.0 == "target"@ {
                match g_expr(src, ts, j2) {
                    Err(e) => Err(e),
                    Ok((x, k)) => Ok((EmitFieldV::Target(x, key.1, x.hi), k)),
                }
            } else if key.0 == "severity"@ {
                match g_severity(src, ts, j2) {
                    Err(e) => Err(e),
                    Ok((s, k)) => Ok((EmitFieldV::Severity(s, key.1, prev_end(ts, k)), k)),
                }
            } else if key.0 == "evidence"@ {
                match g_ref_list(src, ts, j2) {
                    Err(e) => Err(e),
                    Ok((v, k)) => Ok((EmitFieldV::Evidence(v, key.1, refs_end(v, key.2)), k)),
                }
            } else if key.0 == "sarif_id"@ {
                match g_str(ts, j2) {
                    Err(e) => Err(e),
                    Ok((s, k)) => Ok((EmitFieldV::SarifId(s, key.1, s.2), k)),
                }
            } else {
                Err(("ADGL0100", "unknown emit field"@, "target | severity | evidence | sarif_id", key.1, key.2))
            },
        },
    }
}

/// `key ":" value` of `action`.
pub open spec fn g_action_field(src: Seq<u8>, ts: Seq<Tok>, i: int) -> Res<ActionFieldV> {
    match g_word(src, ts, i) {
        Err(e) => Err(e),
        Ok((key, j1)) => match g_p(ts, j1, Punct::Colon, ":") {
            Err(e) => Err(e),
            Ok((_a, j2)) => if key.0 == "target"@ {
                match g_expr(src, ts, j2) {
                    Err(e) => Err(e),
                    Ok((x, k)) => Ok((ActionFieldV::Target(x, key.1, x.hi), k)),
                }
            } else if key.0 == "reason"@ {
                match g_str(ts, j2) {
                    Err(e) => Err(e),
                    Ok((s, k)) => Ok((ActionFieldV::Reason(s, key.1, s.2), k)),
                }
            } else if key.0 == "evidence"@ {
                match g_ref_list(src, ts, j2) {
                    Err(e) => Err(e),
                    Ok((v, k)) => Ok((ActionFieldV::Evidence(v, key.1, refs_end(v, key.2)), k)),
                }
            } else {
                Err(("ADGL0100", "unknown action field"@, "target | reason | evidence", key.1, key.2))
            },
        },
    }
}

/// `{ "," InferField }` after `acc`.
pub open spec fn g_infer_fields_tail(src: Seq<u8>, ts: Seq<Tok>, acc: Seq<InferFieldV>, k: int) -> Res<
    Seq<InferFieldV>,
>
    decreases ts.len() - k,
{
    if 0 <= k && k + 1 < ts.len() && is_punct(ts, k, Punct::Comma) {
        match g_infer_field(src, ts, k + 1) {
            Err(e) => Err(e),
            Ok((x, k2)) => if k < k2 < ts.len() {
                g_infer_fields_tail(src, ts, acc.push(x), k2)
            } else {
                Ok((acc.push(x), k2))
            },
        }
    } else {
        Ok((acc, k))
    }
}

/// `{ "," EmitField }` after `acc`.
pub open spec fn g_emit_fields_tail(src: Seq<u8>, ts: Seq<Tok>, acc: Seq<EmitFieldV>, k: int) -> Res<Seq<EmitFieldV>>
    decreases ts.len() - k,
{
    if 0 <= k && k + 1 < ts.len() && is_punct(ts, k, Punct::Comma) {
        match g_emit_field(src, ts, k + 1) {
            Err(e) => Err(e),
            Ok((x, k2)) => if k < k2 < ts.len() {
                g_emit_fields_tail(src, ts, acc.push(x), k2)
            } else {
                Ok((acc.push(x), k2))
            },
        }
    } else {
        Ok((acc, k))
    }
}

/// `{ "," ActionField }` after `acc`.
pub open spec fn g_action_fields_tail(src: Seq<u8>, ts: Seq<Tok>, acc: Seq<ActionFieldV>, k: int) -> Res<
    Seq<ActionFieldV>,
>
    decreases ts.len() - k,
{
    if 0 <= k && k + 1 < ts.len() && is_punct(ts, k, Punct::Comma) {
        match g_action_field(src, ts, k + 1) {
            Err(e) => Err(e),
            Ok((x, k2)) => if k < k2 < ts.len() {
                g_action_fields_tail(src, ts, acc.push(x), k2)
            } else {
                Ok((acc.push(x), k2))
            },
        }
    } else {
        Ok((acc, k))
    }
}

/// `[InferField { "," InferField }]` before `}`.
pub open spec fn g_infer_fields(src: Seq<u8>, ts: Seq<Tok>, j: int) -> Res<Seq<InferFieldV>> {
    if is_punct(ts, j, Punct::RBrace) {
        Ok((Seq::empty(), j))
    } else {
        match g_infer_field(src, ts, j) {
            Err(e) => Err(e),
            Ok((x, k)) => if j < k < ts.len() {
                g_infer_fields_tail(src, ts, seq![x], k)
            } else {
                Ok((seq![x], k))
            },
        }
    }
}

/// `[EmitField { "," EmitField }]` before `}`.
pub open spec fn g_emit_fields(src: Seq<u8>, ts: Seq<Tok>, j: int) -> Res<Seq<EmitFieldV>> {
    if is_punct(ts, j, Punct::RBrace) {
        Ok((Seq::empty(), j))
    } else {
        match g_emit_field(src, ts, j) {
            Err(e) => Err(e),
            Ok((x, k)) => if j < k < ts.len() {
                g_emit_fields_tail(src, ts, seq![x], k)
            } else {
                Ok((seq![x], k))
            },
        }
    }
}

/// `[ActionField { "," ActionField }]` before `}`.
pub open spec fn g_action_fields(src: Seq<u8>, ts: Seq<Tok>, j: int) -> Res<Seq<ActionFieldV>> {
    if is_punct(ts, j, Punct::RBrace) {
        Ok((Seq::empty(), j))
    } else {
        match g_action_field(src, ts, j) {
            Err(e) => Err(e),
            Ok((x, k)) => if j < k < ts.len() {
                g_action_fields_tail(src, ts, seq![x], k)
            } else {
                Ok((seq![x], k))
            },
        }
    }
}

/// `"infer" "Cause" "(" Ident ")" "{" [fields] "}"`.
pub open spec fn g_infer(src: Seq<u8>, ts: Seq<Tok>, i: int) -> Res<StmtV> {
    match g_kw(ts, i, "infer") {
        Err(e) => Err(e),
        Ok((s, j1)) => match g_kw(ts, j1, "Cause") {
            Err(e) => Err(e),
            Ok((_a, j2)) => match g_paren_ident(src, ts, j2) {
                Err(e) => Err(e),
                Ok((c, j3)) => match g_p(ts, j3, Punct::LBrace, "{") {
                    Err(e) => Err(e),
                    Ok((_b, j4)) => match g_infer_fields(src, ts, j4) {
                        Err(e) => Err(e),
                        Ok((fs, j5)) => match g_p(ts, j5, Punct::RBrace, "}") {
                            Err(e) => Err(e),
                            Ok((z, k)) => Ok((StmtV::Infer(c, fs, s.0, z.1), k)),
                        },
                    },
                },
            },
        },
    }
}

/// `"emit" "Problem" "(" Ident ")" "{" [fields] "}"`.
pub open spec fn g_emit(src: Seq<u8>, ts: Seq<Tok>, i: int) -> Res<StmtV> {
    match g_kw(ts, i, "emit") {
        Err(e) => Err(e),
        Ok((s, j1)) => match g_kw(ts, j1, "Problem") {
            Err(e) => Err(e),
            Ok((_a, j2)) => match g_paren_ident(src, ts, j2) {
                Err(e) => Err(e),
                Ok((c, j3)) => match g_p(ts, j3, Punct::LBrace, "{") {
                    Err(e) => Err(e),
                    Ok((_b, j4)) => match g_emit_fields(src, ts, j4) {
                        Err(e) => Err(e),
                        Ok((fs, j5)) => match g_p(ts, j5, Punct::RBrace, "}") {
                            Err(e) => Err(e),
                            Ok((z, k)) => Ok((StmtV::Emit(c, fs, s.0, z.1), k)),
                        },
                    },
                },
            },
        },
    }
}

/// An action's name: one of the known actions, else custom.
pub open spec fn action_name_of(n: NameV) -> ActionNameV {
    if n.0 == "request_observation"@ {
        ActionNameV::Known(ActionKind::RequestObservation)
    } else if n.0 == "run_check"@ {
        ActionNameV::Known(ActionKind::RunCheck)
    } else if n.0 == "suppress_symptom"@ {
        ActionNameV::Known(ActionKind::SuppressSymptom)
    } else if n.0 == "mark_ambiguous"@ {
        ActionNameV::Known(ActionKind::MarkAmbiguous)
    } else if n.0 == "request_topology"@ {
        ActionNameV::Known(ActionKind::RequestTopology)
    } else {
        ActionNameV::Custom(n)
    }
}

/// `["(" Kind ")"]`.
pub open spec fn g_opt_paren_kind(src: Seq<u8>, ts: Seq<Tok>, i: int) -> Res<Option<KindV>> {
    if is_punct(ts, i, Punct::LParen) {
        match g_paren_kind(src, ts, i) {
            Err(e) => Err(e),
            Ok((k, j)) => Ok((Some(k), j)),
        }
    } else {
        Ok((None, i))
    }
}

/// `"action" Name ["(" Kind ")"] "{" [fields] "}"`.
pub open spec fn g_action(src: Seq<u8>, ts: Seq<Tok>, i: int) -> Res<StmtV> {
    match g_kw(ts, i, "action") {
        Err(e) => Err(e),
        Ok((s, j1)) => match g_ident(src, ts, j1) {
            Err(e) => Err(e),
            Ok((n, j2)) => match g_opt_paren_kind(src, ts, j2) {
                Err(e) => Err(e),
                Ok((arg, j3)) => match g_p(ts, j3, Punct::LBrace, "{") {
                    Err(e) => Err(e),
                    Ok((_b, j4)) => match g_action_fields(src, ts, j4) {
                        Err(e) => Err(e),
                        Ok((fs, j5)) => match g_p(ts, j5, Punct::RBrace, "}") {
                            Err(e) => Err(e),
                            Ok((z, k)) => Ok((StmtV::Action(action_name_of(n), arg, fs, s.0, z.1), k)),
                        },
                    },
                },
            },
        },
    }
}

/// `Stmt ::= Infer | Emit | Action`.
pub open spec fn g_stmt(src: Seq<u8>, ts: Seq<Tok>, i: int) -> Res<StmtV> {
    if is_kw(ts, i, "infer"@) {
        g_infer(src, ts, i)
    } else if is_kw(ts, i, "emit"@) {
        g_emit(src, ts, i)
    } else if is_kw(ts, i, "action"@) {
        g_action(src, ts, i)
    } else {
        Err(("ADGL0100", "unexpected statement"@, "infer | emit | action", ts[i].1, ts[i].2))
    }
}

/// A statement of an evidence rule body (no `emit`) or a decision rule
/// body (no `infer`).
pub open spec fn g_stmt_in_rule(src: Seq<u8>, ts: Seq<Tok>, i: int, evidence: bool) -> Res<StmtV> {
    match g_stmt(src, ts, i) {
        Err(e) => Err(e),
        Ok((s, k)) => if evidence && s is Emit {
            Err(
                (
                    "ADGL0450",
                    "emit is not allowed in evidence rule body"@,
                    "infer | action",
                    stmt_v_span(s).0,
                    stmt_v_span(s).1,
                ),
            )
        } else if !evidence && s is Infer {
            Err(
                (
                    "ADGL0450",
                    "infer is not allowed in decision rule body"@,
                    "emit | action",
                    stmt_v_span(s).0,
                    stmt_v_span(s).1,
                ),
            )
        } else {
            Ok((s, k))
        },
    }
}

/// Whether statements continue at `k` (neither `}` nor end of input).
pub open spec fn more_stmts(ts: Seq<Tok>, k: int) -> bool {
    0 <= k < ts.len() && !is_punct(ts, k, Punct::RBrace) && !(ts[k].0 is Eof)
}

/// `{ Stmt }` after `acc`, up to `}` or end of input.
pub open spec fn g_block_tail(src: Seq<u8>, ts: Seq<Tok>, acc: Seq<StmtV>, k: int) -> Res<Seq<StmtV>>
    decreases ts.len() - k,
{
    if more_stmts(ts, k) {
        match g_stmt(src, ts, k) {
            Err(e) => Err(e),
            Ok((s, k2)) => if k < k2 < ts.len() {
                g_block_tail(src, ts, acc.push(s), k2)
            } else {
                Ok((acc.push(s), k2))
            },
        }
    } else {
        Ok((acc, k))
    }
}

/// A rule body's statements after `acc`, up to `}` or end of input.
pub open spec fn g_body_tail(src: Seq<u8>, ts: Seq<Tok>, acc: Seq<StmtV>, k: int, evidence: bool) -> Res<Seq<StmtV>>
    decreases ts.len() - k,
{
    if more_stmts(ts, k) {
        match g_stmt_in_rule(src, ts, k, evidence) {
            Err(e) => Err(e),
            Ok((s, k2)) => if k < k2 < ts.len() {
                g_body_tail(src, ts, acc.push(s), k2, evidence)
            } else {
                Ok((acc.push(s), k2))
            },
        }
    } else {
        Ok((acc, k))
    }
}

/// `"{" { Stmt } "}"` at `i`.
pub open spec fn g_braced_block(src: Seq<u8>, ts: Seq<Tok>, i: int) -> Res<Seq<StmtV>> {
    match g_p(ts, i, Punct::LBrace, "{") {
        Err(e) => Err(e),
        Ok((_a, j)) => match g_block_tail(src, ts, Seq::empty(), j) {
            Err(e) => Err(e),
            Ok((b, k)) => match g_p(ts, k, Punct::RBrace, "}") {
                Err(e) => Err(e),
                Ok((_z, k2)) => Ok((b, k2)),
            },
        },
    }
}

/// `"if" Expr "{" { Stmt } "}" ["else" "{" { Stmt } "}"]`; it ends at the
/// else branch's last statement, else at the condition.
pub open spec fn g_if_else(src: Seq<u8>, ts: Seq<Tok>, i: int) -> Res<IfElseV> {
    match g_kw(ts, i, "if") {
        Err(e) => Err(e),
        Ok((s, j1)) => match g_expr(src, ts, j1) {
            Err(e) => Err(e),
            Ok((c, j2)) => match g_braced_block(src, ts, j2) {
                Err(e) => Err(e),
                Ok((tb, j3)) => if is_kw(ts, j3, "else"@) {
                    match g_kw(ts, j3, "else") {
                        Err(e) => Err(e),
                        Ok((_e, j4)) => match g_braced_block(src, ts, j4) {
                            Err(e) => Err(e),
                            Ok((eb, k)) => Ok(
                                (
                                    IfElseV {
                                        cond: c,
                                        then_body: tb,
                                        else_body: Some(eb),
                                        lo: s.0,
                                        hi: if eb.len() > 0 { stmt_v_span(eb.last()).1 } else { c.hi },
                                    },
                                    k,
                                ),
                            ),
                        },
                    }
                } else {
                    Ok((IfElseV { cond: c, then_body: tb, else_body: None, lo: s.0, hi: c.hi }, j3))
                },
            },
        },
    }
}

/// `[IfElse]`.
pub open spec fn g_opt_if_else(src: Seq<u8>, ts: Seq<Tok>, i: int) -> Res<Option<IfElseV>> {
    if is_kw(ts, i, "if"@) {
        match g_if_else(src, ts, i) {
            Err(e) => Err(e),
            Ok((b, k)) => Ok((Some(b), k)),
        }
    } else {
        Ok((None, i))
    }
}

/// The part of a rule after its anchor: correlates, optional branch,
/// body and the closing `}`, as `(correlates, branch, body, end)`.
pub open spec fn g_rule_rest(src: Seq<u8>, ts: Seq<Tok>, j: int, evidence: bool) -> Res<
    (Seq<CorrelateV>, Option<IfElseV>, Seq<StmtV>, int),
> {
    match g_correlates_tail(src, ts, Seq::empty(), j) {
        Err(e) => Err(e),
        Ok((cs, j1)) => match g_opt_if_else(src, ts, j1) {
            Err(e) => Err(e),
            Ok((ie, j2)) => match g_body_tail(src, ts, Seq::empty(), j2, evidence) {
                Err(e) => Err(e),
                Ok((body, j3)) => match g_p(ts, j3, Punct::RBrace, "}") {
                    Err(e) => Err(e),
                    Ok((z, k)) => Ok(((cs, ie, body, z.1), k)),
                },
            },
        },
    }
}

/// The head of a rule: `kw Ident "{" "scope" ":" Scope`, as
/// `(start, name, scope)`.
pub open spec fn g_rule_head(src: Seq<u8>, ts: Seq<Tok>, i: int, kw: &'static str) -> Res<(int, NameV, ScopeType)> {
    match g_kw(ts, i, kw) {
        Err(e) => Err(e),
        Ok((s, j1)) => match g_ident_nk(src, ts, j1) {
            Err(e) => Err(e),
            Ok((n, j2)) => match g_p(ts, j2, Punct::LBrace, "{") {
                Err(e) => Err(e),
                Ok((_a, j3)) => match g_kw(ts, j3, "scope") {
                    Err(e) => Err(e),
                    Ok((_b, j4)) => match g_p(ts, j4, Punct::Colon, ":") {
                        Err(e) => Err(e),
                        Ok((_c, j5)) => match g_scope(src, ts, j5) {
                            Err(e) => Err(e),
                            Ok((sc, k)) => Ok(((s.0, n, sc), k)),
                        },
                    },
                },
            },
        },
    }
}

/// An evidence rule.
pub open spec fn g_evidence_rule(src: Seq<u8>, ts: Seq<Tok>, i: int) -> Res<RuleV<AnchorV>> {
    match g_rule_head(src, ts, i, "evidence") {
        Err(e) => Err(e),
        Ok(((s, n, sc), j1)) => match g_anchor(src, ts, j1) {
            Err(e) => Err(e),
            Ok((a, j2)) => match g_rule_rest(src, ts, j2, true) {
                Err(e) => Err(e),
                Ok(((cs, ie, body, end), k)) => Ok(
                    (
                        RuleV { name: n, scope: sc, anchor: a, correlates: cs, if_else: ie, body, lo: s, hi: end },
                        k,
                    ),
                ),
            },
        },
    }
}

/// A decision rule.
pub open spec fn g_decision_rule(src: Seq<u8>, ts: Seq<Tok>, i: int) -> Res<RuleV<DecisionAnchorV>> {
    match g_rule_head(src, ts, i, "decision") {
        Err(e) => Err(e),
        Ok(((s, n, sc), j1)) => match g_decision_anchor(src, ts, j1) {
            Err(e) => Err(e),
            Ok((a, j2)) => match g_rule_rest(src, ts, j2, false) {
                Err(e) => Err(e),
                Ok(((cs, ie, body, end), k)) => Ok(
                    (
                        RuleV { name: n, scope: sc, anchor: a, correlates: cs, if_else: ie, body, lo: s, hi: end },
                        k,
                    ),
                ),
            },
        },
    }
}

/// `{ Rule }` after `acc`.
pub open spec fn g_rules_tail(src: Seq<u8>, ts: Seq<Tok>, acc: Seq<RuleDeclV>, k: int) -> Res<Seq<RuleDeclV>>
    decreases ts.len() - k,
{
    if 0 <= k < ts.len() && is_kw(ts, k, "evidence"@) {
        match g_evidence_rule(src, ts, k) {
            Err(e) => Err(e),
            Ok((r, k2)) => if k < k2 < ts.len() {
                g_rules_tail(src, ts, acc.push(RuleDeclV::Evidence(r)), k2)
            } else {
                Ok((acc.push(RuleDeclV::Evidence(r)), k2))
            },
        }
    } else if 0 <= k < ts.len() && is_kw(ts, k, "decision"@) {
        match g_decision_rule(src, ts, k) {
            Err(e) => Err(e),
            Ok((r, k2)) => if k < k2 < ts.len() {
                g_rules_tail(src, ts, acc.push(RuleDeclV::Decision(r)), k2)
            } else {
                Ok((acc.push(RuleDeclV::Decision(r)), k2))
            },
        }
    } else {
        Ok((acc, k))
    }
}

/// `Ruleset ::= "ruleset" String "{" Header { Rule } "}"`, followed by
/// the end of input.
pub open spec fn g_ruleset(src: Seq<u8>, ts: Seq<Tok>, i: int) -> Res<RulesetV> {
    match g_kw(ts, i, "ruleset") {
        Err(e) => Err(e),
        Ok((s, j1)) => match g_str(ts, j1) {
            Err(e) => Err(e),
            Ok((n, j2)) => match g_p(ts, j2, Punct::LBrace, "{") {
                Err(e) => Err(e),
                Ok((_a, j3)) => match g_header(src, ts, j3) {
                    Err(e) => Err(e),
                    Ok((h, j4)) => match g_rules_tail(src, ts, Seq::empty(), j4) {
                        Err(e) => Err(e),
                        Ok((rs, j5)) => match g_p(ts, j5, Punct::RBrace, "}") {
                            Err(e) => Err(e),
                            Ok((z, k)) => if ts[k].0 is Eof {
                                Ok((RulesetV { name: n, header: h, rules: rs, lo: s.0, hi: z.1 }, k))
                            } else {
                                Err(
                                    (
                                        "ADGL0100",
                                        "unexpected tokens after ruleset"@,
                                        "end of input",
                                        ts[k].1,
                                        ts[k].2,
                                    ),
                                )
                            },
                        },
                    },
                },
            },
        },
    }
}

} // verus!
