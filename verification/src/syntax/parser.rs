//! The recursive-descent parser over the token stream: ruleset header,
//! evidence and decision rules with rule-level error recovery, statements,
//! and the expression precedence ladder.
use vstd::prelude::*;
use vstd::string::StringSliceAdditionalSpecFns;

use crate::syntax::ast::{
    stmt_span, ActionField, ActionName, ActionStmt, AnchorBlock, BinaryOp, CauseAnchor, CorrelateBlock,
    CorrelateSource, DecisionAnchor, DecisionRule, Decl, DurationLit, EmitField, EmitStmt, EvidenceRule,
    Expr, ExprKind, Ident, IfElseBlock, InferField, InferStmt, IntLit, KindIdent, MinMatchClause,
    MutuallyExclusiveDecl, ProblemAnchor, RequiresDecl, RuleDecl, Ruleset, RulesetHeader, Span, Stmt,
    StringLit, TimeWindow, TopoPredicate, UnaryOp,
};
use crate::syntax::diag::{DiagBuffer, Diagnostic};
use crate::syntax::grammar::{
    args_v, err_v, expr_v, with_eof, g_args, g_args_tail, g_postfix_tail, g_or_tail, g_and_tail, g_compare_tail, g_add_tail, g_mul_tail, ExprV, ErrV, g_expr, g_name, g_or, g_and, g_compare, g_add, g_mul, g_unary, g_postfix,
    g_primary, g_punct, is_kw, is_punct, step_matches, text_v, Tok,
};
use crate::syntax::ruleset_grammar::{
    g_strs_opt, strs_v, g_header, g_ruleset, header_v, ruleset_v, g_decls_tail, decls_v, g_rules_tail, rules_v, rule_decl_v, DeclV, g_evidence_rule, g_decision_rule, evidence_rule_v, decision_rule_v, g_correlates_tail, correlates_v, g_names_opt, g_kind_tail, g_infer_fields, g_infer_fields_tail, g_emit_fields, g_emit_fields_tail, g_action_fields, g_action_fields_tail, infer_fields_v, emit_fields_v, action_fields_v, g_strs_tail, g_names, g_names_tail, action_field_v, action_v, anchor_v, correlate_v, decision_anchor_v, emit_field_v, emit_v, exclusive_v, g_action, g_action_field, g_anchor, g_block_tail, g_body_tail, g_correlate, g_decision_anchor, g_emit, g_emit_field, g_exclusive, g_ident_nk, g_if_else, g_infer, g_infer_field, g_int, g_kind, g_kw, g_min_match, g_paren_kind, g_ref_list, g_requires, g_scope, g_severity, g_source, g_stmt, g_stmt_in_rule, g_str, g_time, g_topo, g_word, g_word_exact, ident_v, idents_v, if_else_v, infer_field_v, infer_v, kind_v, min_match_v, outcome, requires_v, source_v, stmt_v, stmts_v, str_v, time_v, topo_v,
};
use crate::syntax::lexer::{
    kind_view, next_spec, token_view, tokenize, tokens_from, LexError, Punct, TokSpec, Token, TokenKind,
};
use crate::text::{push_text, utf8_text};
use crate::types::{text_eq, ActionKind, ScopeType, Severity};

verus! {

/// A syntax error before it becomes a diagnostic.
#[derive(Debug, Clone, PartialEq, Eq)]
pub struct ParseErr {
    /// Stable code.
    pub code: &'static str,
    /// What went wrong.
    pub message: String,
    /// What was expected instead.
    pub expected: &'static str,
    /// Where.
    pub span: Span,
}

fn perr(code: &'static str, message: &str, expected: &'static str, span: Span) -> (e: ParseErr)
    ensures
        e.code == code && e.message@ == message@ && e.expected == expected && e.span == span,
{
    ParseErr { code, message: message.to_owned(), expected, span }
}

/// The diagnostic of a syntax error: its message followed by
/// ` (expected: ...)`.
pub open spec fn diag_message(e: ParseErr) -> Seq<char> {
    e.message@ + " (expected: "@ + e.expected@ + ")"@
}

fn diag_of(err: ParseErr) -> (d: Diagnostic)
    ensures
        d.code == err.code && d.span == err.span && d.message@ == diag_message(err),
{
    let mut m = err.message.clone();
    push_text(&mut m, " (expected: ");
    push_text(&mut m, err.expected);
    push_text(&mut m, ")");
    Diagnostic::error(err.code, m, err.span)
}

fn diag_from_err(err: ParseErr) -> (b: DiagBuffer)
    ensures
        b@.len() == 1,
        b@[0].code == err.code && b@[0].span == err.span && b@[0].message@ == diag_message(err),
{
    let mut buf = DiagBuffer::new();
    buf.push(diag_of(err));
    buf
}

/// What a lexical error says was expected instead.
pub open spec fn lex_expected(code: &'static str) -> &'static str {
    if code@ == "ADGL0102"@ {
        "input <= 4 MiB"
    } else if code@ == "ADGL0103"@ {
        "nesting depth <= 64"
    } else {
        "valid token"
    }
}

/// The syntax error of a lexical error.
pub open spec fn lex_err_v(e: LexError) -> ErrV {
    (e.code, e.message@, lex_expected(e.code), e.start as int, e.end as int)
}

/// Whether a diagnostic is the one of the syntax error `ev`.
pub open spec fn diag_is(d: Diagnostic, ev: ErrV) -> bool {
    &&& d.code == ev.0
    &&& d.message@ == ev.1 + " (expected: "@ + ev.2@ + ")"@
    &&& d.span.start == ev.3
    &&& d.span.end == ev.4
}

/// What parsing one whole expression over the stream `ts` gives: the
/// grammar's tree when it ends at end of input; otherwise one diagnostic,
/// the grammar's syntax error or a trailing-token error at the first token
/// left over.
pub open spec fn expression_outcome(r: Result<Expr, DiagBuffer>, src: Seq<u8>, ts: Seq<Tok>) -> bool {
    match g_expr(src, ts, 0) {
        Err(ev) => r matches Err(b) && b@.len() == 1 && diag_is(b@[0], ev),
        Ok((v, j)) => if ts[j].0 is Eof {
            r matches Ok(e) && expr_v(e) == v
        } else {
            r matches Err(b) && b@.len() == 1 && diag_is(
                b@[0],
                ("ADGL0100", "unexpected trailing tokens"@, "end of input", ts[j].1, ts[j].2),
            )
        },
    }
}

fn lex_to_parse(e: LexError) -> (p: ParseErr)
    ensures
        p.code == e.code && p.span.start == e.start && p.span.end == e.end,
        err_v(p) == lex_err_v(e),
{
    let expected = if text_eq(e.code, "ADGL0102") {
        "input <= 4 MiB"
    } else if text_eq(e.code, "ADGL0103") {
        "nesting depth <= 64"
    } else {
        "valid token"
    };
    perr(e.code, e.message, expected, Span::new(e.start, e.end))
}

/// A token stream the parser can walk: it ends with the only `Eof`, and
/// every span lies in the source.
pub open spec fn stream_ok(src: Seq<u8>, toks: Seq<Token>) -> bool {
    &&& toks.len() > 0
    &&& toks.last().kind is Eof
    &&& forall|k: int| 0 <= k < toks.len() - 1 ==> !(#[trigger] toks[k].kind is Eof)
    &&& forall|k: int| 0 <= k < toks.len() ==> (#[trigger] toks[k]).start <= toks[k].end <= src.len()
}

proof fn lemma_next_not_eof(s: Seq<u8>, j: int)
    requires
        0 <= j < s.len(),
    ensures
        next_spec(s, j) matches Ok((k, _)) ==> !(k is Eof),
{
}

/// The lexed stream has spans inside the source, and `Eof` only as its
/// last token.
proof fn lemma_tokens_shape(s: Seq<u8>, i: int, d: int)
    requires
        0 <= i <= s.len(),
    ensures
        tokens_from(s, i, d) matches Ok(ts) ==> (forall|k: int|
            0 <= k < ts.len() ==> 0 <= (#[trigger] ts[k]).1 <= ts[k].2 <= s.len() && (ts[k].0 is Eof ==> k
                == ts.len() - 1)),
    decreases s.len() - i,
{
    match crate::syntax::lexer::skip_from(s, i) {
        Err(_) => {},
        Ok((j, _t)) => {
            if j >= s.len() || j < i {
            } else {
                lemma_next_not_eof(s, j);
                match next_spec(s, j) {
                    Err(_) => {},
                    Ok((k, e)) => {
                        if e <= j || e > s.len() {
                        } else {
                            let d2 = if crate::syntax::lexer::opens(k) {
                                d + 1
                            } else if crate::syntax::lexer::closes(k) {
                                if d > 0 {
                                    d - 1
                                } else {
                                    0
                                }
                            } else {
                                d
                            };
                            lemma_tokens_shape(s, e, d2);
                            match tokens_from(s, e, d2) {
                                Ok(ts) => {
                                    let all = seq![(k, j, e)] + ts;
                                    assert forall|m: int| 0 <= m < all.len() implies 0 <= (#[trigger] all[m]).1
                                        <= all[m].2 <= s.len() && (all[m].0 is Eof ==> m == all.len() - 1) by {
                                        if m > 0 {
                                            assert(all[m] == ts[m - 1]);
                                        }
                                    }
                                },
                                Err(_) => {},
                            }
                        }
                    },
                }
            }
        },
    }
}

struct ParserState<'a> {
    src: &'a [u8],
    tokens: Vec<Token>,
    idx: usize,
    /// Nesting depth of `{` / `}` only.
    brace_depth: usize,
    /// When true, rule/decl errors are recorded and parsing resumes.
    recover: bool,
    diags: DiagBuffer,
}

impl<'a> ParserState<'a> {
    spec fn wf(&self) -> bool {
        stream_ok(self.src@, self.tokens@) && self.idx < self.tokens@.len()
    }

    /// The token stream as spec tokens.
    spec fn tv(&self) -> Seq<Tok> {
        self.tokens@.map_values(|t: Token| token_view(t))
    }

    /// Source, tokens and mode: what parsing never changes.
    spec fn frame(&self) -> (Seq<u8>, Seq<Token>, bool) {
        (self.src@, self.tokens@, self.recover)
    }

    fn new(src: &'a [u8], tokens: Vec<Token>) -> (p: ParserState<'a>)
        requires
            forall|k: int| 0 <= k < tokens@.len() ==> (#[trigger] tokens@[k]).start <= tokens@[k].end <= src@.len()
                && (tokens@[k].kind is Eof ==> k == tokens@.len() - 1),
        ensures
            p.wf(),
            p.idx == 0,
            p.src@ == src@,
            p.tv() == with_eof(tokens@.map_values(|t: Token| token_view(t)), src@.len() as int),
            !p.recover,
            p.diags@.len() == 0,
    {
        let mut tokens = tokens;
        let n = tokens.len();
        let needs_end = if n == 0 {
            true
        } else {
            match tokens[n - 1].kind {
                TokenKind::Eof => false,
                _ => true,
            }
        };
        let ghost views = tokens@.map_values(|t: Token| token_view(t));
        if needs_end {
            tokens.push(Token { kind: TokenKind::Eof, start: src.len(), end: src.len() });
            proof {
                assert(tokens@.map_values(|t: Token| token_view(t)) =~= views.push((TokSpec::Eof, src@.len() as int, src@.len() as int)));
            }
        }
        ParserState { src, tokens, idx: 0, brace_depth: 0, recover: false, diags: DiagBuffer::new() }
    }

    fn peek_kind(&self) -> (k: &TokenKind)
        requires
            self.wf(),
        ensures
            *k == self.tokens@[self.idx as int].kind,
    {
        &self.tokens[self.idx].kind
    }

    fn peek_span(&self) -> (s: Span)
        requires
            self.wf(),
        ensures
            s.start == self.tokens@[self.idx as int].start && s.end == self.tokens@[self.idx as int].end,
    {
        Span::new(self.tokens[self.idx].start, self.tokens[self.idx].end)
    }

    fn at_eof(&self) -> (b: bool)
        requires
            self.wf(),
        ensures
            b == (self.tokens@[self.idx as int].kind is Eof),
    {
        match self.tokens[self.idx].kind {
            TokenKind::Eof => true,
            _ => false,
        }
    }

    fn at_punct(&self, p: Punct) -> (b: bool)
        requires
            self.wf(),
        ensures
            b ==> !(self.tokens@[self.idx as int].kind is Eof),
            b == is_punct(self.tv(), self.idx as int, p),
    {
        match self.tokens[self.idx].kind {
            TokenKind::Punct(q) => q == p,
            _ => false,
        }
    }

    fn at_kw(&self, kw: &str) -> (b: bool)
        requires
            self.wf(),
        ensures
            b ==> !(self.tokens@[self.idx as int].kind is Eof),
            b == is_kw(self.tv(), self.idx as int, kw@),
    {
        match self.tokens[self.idx].kind {
            TokenKind::Kw(k) => {
                proof {
                    vstd::utf8::encode_utf8_decode_utf8(k@);
                    vstd::utf8::encode_utf8_decode_utf8(kw@);
                }
                text_eq(k, kw)
            },
            _ => false,
        }
    }

    /// Moves past the current token (never past `Eof`), tracking brace
    /// depth.
    fn next(&mut self)
        requires
            old(self).wf(),
        ensures
            final(self).wf(),
            final(self).frame() == old(self).frame(),
            final(self).diags == old(self).diags,
            final(self).idx == (if old(self).idx + 1 < old(self).tokens@.len() {
                old(self).idx + 1
            } else {
                old(self).idx as int
            }),
            !(old(self).tokens@[old(self).idx as int].kind is Eof) ==> final(self).idx == old(self).idx + 1,
    {
        if self.idx < self.tokens.len() - 1 {
            let d = match self.tokens[self.idx].kind {
                TokenKind::Punct(Punct::LBrace) => if self.brace_depth < usize::MAX {
                    self.brace_depth + 1
                } else {
                    self.brace_depth
                },
                TokenKind::Punct(Punct::RBrace) => if self.brace_depth > 0 {
                    self.brace_depth - 1
                } else {
                    0
                },
                _ => self.brace_depth,
            };
            self.brace_depth = d;
            self.idx = self.idx + 1;
        }
    }

    fn record_error(&mut self, err: ParseErr)
        requires
            old(self).wf(),
        ensures
            final(self).wf(),
            final(self).frame() == old(self).frame(),
            final(self).idx == old(self).idx,
            final(self).diags@.len() == old(self).diags@.len() + 1,
    {
        self.diags.push(diag_of(err));
    }

    fn is_sync_keyword(kw: &str) -> (b: bool)
        ensures
            b == (kw@ == "evidence"@ || kw@ == "decision"@ || kw@ == "mutually_exclusive"@ || kw@ == "version"@
                || kw@ == "requires"@),
    {
        text_eq(kw, "evidence") || text_eq(kw, "decision") || text_eq(kw, "mutually_exclusive")
            || text_eq(kw, "version") || text_eq(kw, "requires")
    }

    /// Moves to the next ruleset member after a failed rule or declaration:
    /// stops at a sync keyword or the ruleset's closing `}` at brace depth
    /// 1, consuming the failed block's own `}`; always moves at least one
    /// token unless already at such a point.
    fn resync_decl_or_rule(&mut self)
        requires
            old(self).wf(),
        ensures
            final(self).wf(),
            final(self).frame() == old(self).frame(),
            final(self).diags == old(self).diags,
            old(self).idx <= final(self).idx,
    {
        let start_idx = self.idx;
        let target_depth: usize = 1;
        let block_depth: usize = 2;
        loop
            invariant
                self.wf(),
                self.frame() == old(self).frame(),
                self.diags == old(self).diags,
                old(self).idx == start_idx,
                start_idx <= self.idx,
            decreases self.tokens@.len() - self.idx,
        {
            if self.at_eof() {
                break;
            }
            let stop = match self.peek_kind() {
                TokenKind::Kw(k) => self.brace_depth == target_depth && Self::is_sync_keyword(k),
                TokenKind::Punct(Punct::RBrace) => self.brace_depth == target_depth,
                _ => false,
            };
            if stop {
                break;
            }
            let close_failed = match self.peek_kind() {
                TokenKind::Punct(Punct::RBrace) => self.brace_depth == block_depth,
                _ => false,
            };
            self.next();
            if close_failed {
                break;
            }
        }
        if self.idx == start_idx {
            let stay = match self.peek_kind() {
                TokenKind::Eof => true,
                TokenKind::Kw(k) => Self::is_sync_keyword(k),
                TokenKind::Punct(Punct::RBrace) => self.brace_depth <= target_depth,
                _ => false,
            };
            if !stay {
                self.next();
            }
        }
    }

    /// The source text of a token's span.
    fn text_at(&self, start: usize, end: usize) -> (s: String)
        requires
            start <= end <= self.src@.len(),
        ensures
            s@ == text_v(self.src@.subrange(start as int, end as int)),
    {
        let mut bytes: Vec<u8> = Vec::new();
        let mut i = start;
        while i < end
            invariant
                start <= i <= end <= self.src@.len(),
                bytes@ == self.src@.subrange(start as int, i as int),
            decreases end - i,
        {
            bytes.push(self.src[i]);
            i = i + 1;
            proof {
                assert(bytes@ =~= self.src@.subrange(start as int, i as int));
            }
        }
        utf8_text(bytes)
    }

    fn consume_kw(&mut self, kw: &'static str) -> (r: Result<Span, ParseErr>)
        requires
            old(self).wf(),
        ensures
            final(self).wf(),
            final(self).frame() == old(self).frame(),
            final(self).diags == old(self).diags,
            old(self).idx <= final(self).idx,
            r is Ok ==> old(self).idx < final(self).idx,
            outcome(r, final(self).idx as int, g_kw(old(self).tv(), old(self).idx as int, kw), |s: Span| (s.start as int, s.end as int)),
    {
        if self.at_kw(kw) {
            let sp = self.peek_span();
            self.next();
            Ok(sp)
        } else {
            let mut m = "expected keyword '".to_owned();
            push_text(&mut m, kw);
            push_text(&mut m, "'");
            Err(ParseErr { code: "ADGL0100", message: m, expected: kw, span: self.peek_span() })
        }
    }

    fn consume_word_exact(&mut self, word: &'static str) -> (r: Result<Span, ParseErr>)
        requires
            old(self).wf(),
        ensures
            final(self).wf(),
            final(self).frame() == old(self).frame(),
            final(self).diags == old(self).diags,
            old(self).idx <= final(self).idx,
            r is Ok ==> old(self).idx < final(self).idx,
            outcome(r, final(self).idx as int, g_word_exact(old(self).src@, old(self).tv(), old(self).idx as int, word), |s: Span| (s.start as int, s.end as int)),
    {
        let sp = self.peek_span();
        let matched = match self.peek_kind() {
            TokenKind::Ident => {
                let t = self.text_at(sp.start, sp.end);
                text_eq(t.as_str(), word)
            },
            TokenKind::Kw(k) => {
                proof {
                    vstd::utf8::encode_utf8_decode_utf8(k@);
                    vstd::utf8::encode_utf8_decode_utf8(word@);
                }
                text_eq(k, word)
            },
            _ => false,
        };
        if matched {
            self.next();
            Ok(sp)
        } else {
            let mut m = "expected '".to_owned();
            push_text(&mut m, word);
            push_text(&mut m, "'");
            Err(ParseErr { code: "ADGL0100", message: m, expected: word, span: sp })
        }
    }

    fn consume_punct(&mut self, p: Punct, expected: &'static str) -> (r: Result<Span, ParseErr>)
        requires
            old(self).wf(),
        ensures
            final(self).wf(),
            final(self).frame() == old(self).frame(),
            final(self).diags == old(self).diags,
            old(self).idx <= final(self).idx,
            r is Ok ==> old(self).idx < final(self).idx,
            match g_punct(old(self).tv(), old(self).idx as int, p, expected) {
                Ok((lo, hi, k)) => r matches Ok(sp) && sp.start == lo && sp.end == hi && final(self).idx == k,
                Err(ev) => r matches Err(e) && err_v(e) == ev,
            },
    {
        if self.at_punct(p) {
            let sp = self.peek_span();
            self.next();
            Ok(sp)
        } else {
            Err(perr("ADGL0100", "unexpected token", expected, self.peek_span()))
        }
    }

    /// An integer literal token.
    fn consume_int(&mut self) -> (r: Result<(i64, Span), ParseErr>)
        requires
            old(self).wf(),
        ensures
            final(self).wf(),
            final(self).frame() == old(self).frame(),
            final(self).diags == old(self).diags,
            old(self).idx <= final(self).idx,
            r is Ok ==> old(self).idx < final(self).idx,
            outcome(r, final(self).idx as int, g_int(old(self).tv(), old(self).idx as int), |x: (i64, Span)| (x.0, x.1.start as int, x.1.end as int)),
    {
        let sp = self.peek_span();
        match self.peek_kind() {
            TokenKind::Int(v) => {
                let v = *v;
                self.next();
                Ok((v, sp))
            },
            _ => Err(perr("ADGL0100", "unexpected token", "integer", sp)),
        }
    }

    fn prev_end(&self) -> (e: usize)
        requires
            self.wf(),
        ensures
            e == crate::syntax::grammar::prev_end(self.tv(), self.idx as int),
    {
        if self.idx == 0 {
            0
        } else {
            self.tokens[self.idx - 1].end
        }
    }

    fn parse_string_lit(&mut self) -> (r: Result<StringLit, ParseErr>)
        requires
            old(self).wf(),
        ensures
            final(self).wf(),
            final(self).frame() == old(self).frame(),
            final(self).diags == old(self).diags,
            old(self).idx <= final(self).idx,
            r is Ok ==> old(self).idx < final(self).idx,
            outcome(r, final(self).idx as int, g_str(old(self).tv(), old(self).idx as int), |x: StringLit| str_v(x)),
    {
        let sp = self.peek_span();
        match self.peek_kind() {
            TokenKind::Str(v) => {
                let bytes = v.clone();
                self.next();
                Ok(StringLit { value: utf8_text(bytes), span: sp })
            },
            _ => Err(perr("ADGL0100", "unexpected token", "string literal", sp)),
        }
    }

    fn parse_ident_any(&mut self) -> (r: Result<Ident, ParseErr>)
        requires
            old(self).wf(),
        ensures
            final(self).wf(),
            final(self).frame() == old(self).frame(),
            final(self).diags == old(self).diags,
            old(self).idx <= final(self).idx,
            r is Ok ==> old(self).idx < final(self).idx,
            match g_name(old(self).src@, old(self).tv(), old(self).idx as int) {
                Ok((n, lo, hi, k)) => r matches Ok(id) && id.name@ == n && id.span.start == lo && id.span.end == hi
                    && final(self).idx == k,
                Err(ev) => r matches Err(e) && err_v(e) == ev,
            },
    {
        let sp = self.peek_span();
        match self.peek_kind() {
            TokenKind::Ident => {
                let name = self.text_at(sp.start, sp.end);
                self.next();
                Ok(Ident { name, span: sp })
            },
            TokenKind::Kw(k) => {
                let k: &'static str = *k;
                proof {
                    vstd::utf8::encode_utf8_decode_utf8(k@);
                    vstd::utf8::encode_utf8_decode_utf8("event"@);
                    vstd::utf8::encode_utf8_decode_utf8("Cause"@);
                    vstd::utf8::encode_utf8_decode_utf8("Problem"@);
                }
                self.next();
                if text_eq(k, "event") || text_eq(k, "Cause") || text_eq(k, "Problem") {
                    Ok(Ident { name: k.to_owned(), span: sp })
                } else {
                    Err(perr("ADGL0100", "reserved keyword is not allowed here", "identifier (non-keyword)", sp))
                }
            },
            _ => Err(perr("ADGL0100", "unexpected token", "identifier", sp)),
        }
    }

    fn parse_word_any(&mut self) -> (r: Result<(String, Span), ParseErr>)
        requires
            old(self).wf(),
        ensures
            final(self).wf(),
            final(self).frame() == old(self).frame(),
            final(self).diags == old(self).diags,
            old(self).idx <= final(self).idx,
            r is Ok ==> old(self).idx < final(self).idx,
            outcome(r, final(self).idx as int, g_word(old(self).src@, old(self).tv(), old(self).idx as int), |x: (String, Span)| (x.0@, x.1.start as int, x.1.end as int)),
    {
        let sp = self.peek_span();
        match self.peek_kind() {
            TokenKind::Ident => {
                let name = self.text_at(sp.start, sp.end);
                self.next();
                Ok((name, sp))
            },
            TokenKind::Kw(k) => {
                let k: &'static str = *k;
                proof {
                    vstd::utf8::encode_utf8_decode_utf8(k@);
                }
                self.next();
                Ok((k.to_owned(), sp))
            },
            _ => Err(perr("ADGL0100", "unexpected token", "identifier or keyword", sp)),
        }
    }

    fn parse_ident_non_kw(&mut self) -> (r: Result<Ident, ParseErr>)
        requires
            old(self).wf(),
        ensures
            final(self).wf(),
            final(self).frame() == old(self).frame(),
            final(self).diags == old(self).diags,
            old(self).idx <= final(self).idx,
            r is Ok ==> old(self).idx < final(self).idx,
            outcome(r, final(self).idx as int, g_ident_nk(old(self).src@, old(self).tv(), old(self).idx as int), |x: Ident| ident_v(x)),
    {
        let sp = self.peek_span();
        match self.peek_kind() {
            TokenKind::Ident => {
                let name = self.text_at(sp.start, sp.end);
                self.next();
                Ok(Ident { name, span: sp })
            },
            _ => Err(perr("ADGL0100", "unexpected token", "identifier", sp)),
        }
    }
    // Expr ::= LogicOr
    fn parse_expr(&mut self) -> (r: Result<Expr, ParseErr>)
        requires
            old(self).wf(),
        ensures
            final(self).wf(),
            final(self).frame() == old(self).frame(),
            final(self).diags == old(self).diags,
            old(self).idx <= final(self).idx,
            r is Ok ==> old(self).idx < final(self).idx,
            step_matches(r, final(self).idx as int, g_expr(old(self).src@, old(self).tv(), old(self).idx as int)),
        decreases old(self).tokens@.len() - old(self).idx, 10nat,
    {
        self.parse_logic_or()
    }

    // LogicOr ::= LogicAnd { ( "||" | "or" ) LogicAnd }
    fn parse_logic_or(&mut self) -> (r: Result<Expr, ParseErr>)
        requires
            old(self).wf(),
        ensures
            final(self).wf(),
            final(self).frame() == old(self).frame(),
            final(self).diags == old(self).diags,
            old(self).idx <= final(self).idx,
            r is Ok ==> old(self).idx < final(self).idx,
            step_matches(r, final(self).idx as int, g_or(old(self).src@, old(self).tv(), old(self).idx as int)),
        decreases old(self).tokens@.len() - old(self).idx, 9nat,
    {
        let mut left = match self.parse_logic_and() {
            Err(e) => {
                return Err(e);
            },
            Ok(l) => l,
        };
        loop
            invariant
                self.wf(),
                self.frame() == old(self).frame(),
                self.diags == old(self).diags,
                old(self).idx < self.idx,
                g_or(old(self).src@, old(self).tv(), old(self).idx as int) == g_or_tail(
                    self.src@,
                    self.tv(),
                    expr_v(left),
                    self.idx as int,
                ),
            ensures
                g_or(old(self).src@, old(self).tv(), old(self).idx as int) == Ok::<(ExprV, int), ErrV>(
                    (expr_v(left), self.idx as int),
                ),
            decreases self.tokens@.len() - self.idx,
        {
            let op: Option<BinaryOp> = None;
            let op = if self.at_punct(Punct::OrOr) || self.at_kw("or") {
                Some(BinaryOp::Or)
            } else {
                op
            };
            match op {
                None => {
                    break;
                },
                Some(op) => {
                    self.next();
                    let right = match self.parse_logic_and() {
                        Err(e) => {
                            return Err(e);
                        },
                        Ok(r) => r,
                    };
                    let span = Span::new(left.span.start, right.span.end);
                    left = Expr { kind: ExprKind::Binary { op, left: Box::new(left), right: Box::new(right) }, span };
                },
            }
        }
        Ok(left)
    }

    // LogicAnd ::= Equality { ( "&&" | "and" ) Equality }
    fn parse_logic_and(&mut self) -> (r: Result<Expr, ParseErr>)
        requires
            old(self).wf(),
        ensures
            final(self).wf(),
            final(self).frame() == old(self).frame(),
            final(self).diags == old(self).diags,
            old(self).idx <= final(self).idx,
            r is Ok ==> old(self).idx < final(self).idx,
            step_matches(r, final(self).idx as int, g_and(old(self).src@, old(self).tv(), old(self).idx as int)),
        decreases old(self).tokens@.len() - old(self).idx, 8nat,
    {
        let mut left = match self.parse_equality() {
            Err(e) => {
                return Err(e);
            },
            Ok(l) => l,
        };
        loop
            invariant
                self.wf(),
                self.frame() == old(self).frame(),
                self.diags == old(self).diags,
                old(self).idx < self.idx,
                g_and(old(self).src@, old(self).tv(), old(self).idx as int) == g_and_tail(
                    self.src@,
                    self.tv(),
                    expr_v(left),
                    self.idx as int,
                ),
            ensures
                g_and(old(self).src@, old(self).tv(), old(self).idx as int) == Ok::<(ExprV, int), ErrV>(
                    (expr_v(left), self.idx as int),
                ),
            decreases self.tokens@.len() - self.idx,
        {
            let op: Option<BinaryOp> = None;
            let op = if self.at_punct(Punct::AndAnd) || self.at_kw("and") {
                Some(BinaryOp::And)
            } else {
                op
            };
            match op {
                None => {
                    break;
                },
                Some(op) => {
                    self.next();
                    let right = match self.parse_equality() {
                        Err(e) => {
                            return Err(e);
                        },
                        Ok(r) => r,
                    };
                    let span = Span::new(left.span.start, right.span.end);
                    left = Expr { kind: ExprKind::Binary { op, left: Box::new(left), right: Box::new(right) }, span };
                },
            }
        }
        Ok(left)
    }

    // Equality ::= Additive { ( "==" | "!=" | "<" | "<=" | ">" | ">=" | "in" ) Additive }
    fn parse_equality(&mut self) -> (r: Result<Expr, ParseErr>)
        requires
            old(self).wf(),
        ensures
            final(self).wf(),
            final(self).frame() == old(self).frame(),
            final(self).diags == old(self).diags,
            old(self).idx <= final(self).idx,
            r is Ok ==> old(self).idx < final(self).idx,
            step_matches(r, final(self).idx as int, g_compare(old(self).src@, old(self).tv(), old(self).idx as int)),
        decreases old(self).tokens@.len() - old(self).idx, 7nat,
    {
        let mut left = match self.parse_additive() {
            Err(e) => {
                return Err(e);
            },
            Ok(l) => l,
        };
        loop
            invariant
                self.wf(),
                self.frame() == old(self).frame(),
                self.diags == old(self).diags,
                old(self).idx < self.idx,
                g_compare(old(self).src@, old(self).tv(), old(self).idx as int) == g_compare_tail(
                    self.src@,
                    self.tv(),
                    expr_v(left),
                    self.idx as int,
                ),
            ensures
                g_compare(old(self).src@, old(self).tv(), old(self).idx as int) == Ok::<(ExprV, int), ErrV>(
                    (expr_v(left), self.idx as int),
                ),
            decreases self.tokens@.len() - self.idx,
        {
            let op: Option<BinaryOp> = None;
            let op = if self.at_punct(Punct::EqEq) {
                Some(BinaryOp::Eq)
            } else {
                op
            };
            let op = if self.at_punct(Punct::Ne) {
                Some(BinaryOp::Ne)
            } else {
                op
            };
            let op = if self.at_punct(Punct::Lt) {
                Some(BinaryOp::Lt)
            } else {
                op
            };
            let op = if self.at_punct(Punct::Le) {
                Some(BinaryOp::Le)
            } else {
                op
            };
            let op = if self.at_punct(Punct::Gt) {
                Some(BinaryOp::Gt)
            } else {
                op
            };
            let op = if self.at_punct(Punct::Ge) {
                Some(BinaryOp::Ge)
            } else {
                op
            };
            let op = if self.at_kw("in") {
                Some(BinaryOp::In)
            } else {
                op
            };
            match op {
                None => {
                    break;
                },
                Some(op) => {
                    self.next();
                    let right = match self.parse_additive() {
                        Err(e) => {
                            return Err(e);
                        },
                        Ok(r) => r,
                    };
                    let span = Span::new(left.span.start, right.span.end);
                    left = Expr { kind: ExprKind::Binary { op, left: Box::new(left), right: Box::new(right) }, span };
                },
            }
        }
        Ok(left)
    }

    // Additive ::= Multiplicative { ( "+" | "-" ) Multiplicative }
    fn parse_additive(&mut self) -> (r: Result<Expr, ParseErr>)
        requires
            old(self).wf(),
        ensures
            final(self).wf(),
            final(self).frame() == old(self).frame(),
            final(self).diags == old(self).diags,
            old(self).idx <= final(self).idx,
            r is Ok ==> old(self).idx < final(self).idx,
            step_matches(r, final(self).idx as int, g_add(old(self).src@, old(self).tv(), old(self).idx as int)),
        decreases old(self).tokens@.len() - old(self).idx, 6nat,
    {
        let mut left = match self.parse_multiplicative() {
            Err(e) => {
                return Err(e);
            },
            Ok(l) => l,
        };
        loop
            invariant
                self.wf(),
                self.frame() == old(self).frame(),
                self.diags == old(self).diags,
                old(self).idx < self.idx,
                g_add(old(self).src@, old(self).tv(), old(self).idx as int) == g_add_tail(
                    self.src@,
                    self.tv(),
                    expr_v(left),
                    self.idx as int,
                ),
            ensures
                g_add(old(self).src@, old(self).tv(), old(self).idx as int) == Ok::<(ExprV, int), ErrV>(
                    (expr_v(left), self.idx as int),
                ),
            decreases self.tokens@.len() - self.idx,
        {
            let op: Option<BinaryOp> = None;
            let op = if self.at_punct(Punct::Plus) {
                Some(BinaryOp::Add)
            } else {
                op
            };
            let op = if self.at_punct(Punct::Minus) {
                Some(BinaryOp::Sub)
            } else {
                op
            };
            match op {
                None => {
                    break;
                },
                Some(op) => {
                    self.next();
                    let right = match self.parse_multiplicative() {
                        Err(e) => {
                            return Err(e);
                        },
                        Ok(r) => r,
                    };
                    let span = Span::new(left.span.start, right.span.end);
                    left = Expr { kind: ExprKind::Binary { op, left: Box::new(left), right: Box::new(right) }, span };
                },
            }
        }
        Ok(left)
    }

    // Multiplicative ::= Unary { ( "*" | "/" | "%" ) Unary }
    fn parse_multiplicative(&mut self) -> (r: Result<Expr, ParseErr>)
        requires
            old(self).wf(),
        ensures
            final(self).wf(),
            final(self).frame() == old(self).frame(),
            final(self).diags == old(self).diags,
            old(self).idx <= final(self).idx,
            r is Ok ==> old(self).idx < final(self).idx,
            step_matches(r, final(self).idx as int, g_mul(old(self).src@, old(self).tv(), old(self).idx as int)),
        decreases old(self).tokens@.len() - old(self).idx, 5nat,
    {
        let mut left = match self.parse_unary() {
            Err(e) => {
                return Err(e);
            },
            Ok(l) => l,
        };
        loop
            invariant
                self.wf(),
                self.frame() == old(self).frame(),
                self.diags == old(self).diags,
                old(self).idx < self.idx,
                g_mul(old(self).src@, old(self).tv(), old(self).idx as int) == g_mul_tail(
                    self.src@,
                    self.tv(),
                    expr_v(left),
                    self.idx as int,
                ),
            ensures
                g_mul(old(self).src@, old(self).tv(), old(self).idx as int) == Ok::<(ExprV, int), ErrV>(
                    (expr_v(left), self.idx as int),
                ),
            decreases self.tokens@.len() - self.idx,
        {
            let op: Option<BinaryOp> = None;
            let op = if self.at_punct(Punct::Star) {
                Some(BinaryOp::Mul)
            } else {
                op
            };
            let op = if self.at_punct(Punct::Slash) {
                Some(BinaryOp::Div)
            } else {
                op
            };
            let op = if self.at_punct(Punct::Percent) {
                Some(BinaryOp::Rem)
            } else {
                op
            };
            match op {
                None => {
                    break;
                },
                Some(op) => {
                    self.next();
                    let right = match self.parse_unary() {
                        Err(e) => {
                            return Err(e);
                        },
                        Ok(r) => r,
                    };
                    let span = Span::new(left.span.start, right.span.end);
                    left = Expr { kind: ExprKind::Binary { op, left: Box::new(left), right: Box::new(right) }, span };
                },
            }
        }
        Ok(left)
    }

    // Unary ::= ( "!" | "not" ) Unary | Postfix
    fn parse_unary(&mut self) -> (r: Result<Expr, ParseErr>)
        requires
            old(self).wf(),
        ensures
            final(self).wf(),
            final(self).frame() == old(self).frame(),
            final(self).diags == old(self).diags,
            old(self).idx <= final(self).idx,
            r is Ok ==> old(self).idx < final(self).idx,
            step_matches(r, final(self).idx as int, g_unary(old(self).src@, old(self).tv(), old(self).idx as int)),
        decreases old(self).tokens@.len() - old(self).idx, 4nat,
    {
        if self.at_punct(Punct::Bang) || self.at_kw("not") {
            let start = self.peek_span().start;
            self.next();
            let inner = match self.parse_unary() {
                Err(e) => {
                    return Err(e);
                },
                Ok(inner) => inner,
            };
            let end = inner.span.end;
            return Ok(Expr { kind: ExprKind::Unary { op: UnaryOp::Not, expr: Box::new(inner) }, span: Span::new(start, end) });
        }
        self.parse_postfix()
    }

    // Postfix ::= Primary { "." Ident | "(" ExprList ")" | "[" Expr "]" }
    #[verifier::rlimit(100)]
    #[verifier::spinoff_prover]
    fn parse_postfix(&mut self) -> (r: Result<Expr, ParseErr>)
        requires
            old(self).wf(),
        ensures
            final(self).wf(),
            final(self).frame() == old(self).frame(),
            final(self).diags == old(self).diags,
            old(self).idx <= final(self).idx,
            r is Ok ==> old(self).idx < final(self).idx,
            step_matches(r, final(self).idx as int, g_postfix(old(self).src@, old(self).tv(), old(self).idx as int)),
        decreases old(self).tokens@.len() - old(self).idx, 3nat,
    {
        let mut expr = match self.parse_primary() {
            Err(e) => {
                return Err(e);
            },
            Ok(e) => e,
        };
        loop
            invariant
                self.wf(),
                self.frame() == old(self).frame(),
                self.diags == old(self).diags,
                old(self).idx < self.idx,
                g_postfix(old(self).src@, old(self).tv(), old(self).idx as int) == g_postfix_tail(
                    self.src@,
                    self.tv(),
                    expr_v(expr),
                    self.idx as int,
                ),
            ensures
                g_postfix(old(self).src@, old(self).tv(), old(self).idx as int) == Ok::<(ExprV, int), ErrV>(
                    (expr_v(expr), self.idx as int),
                ),
            decreases self.tokens@.len() - self.idx,
        {
            if self.at_punct(Punct::Dot) {
                self.next();
                let field = match self.parse_ident_any() {
                    Err(e) => {
                        return Err(e);
                    },
                    Ok(f) => f,
                };
                let span = Span::new(expr.span.start, field.span.end);
                expr = Expr { kind: ExprKind::Field { base: Box::new(expr), field }, span };
            } else if self.at_punct(Punct::LParen) {
                let args = match self.parse_paren_expr_list() {
                    Err(e) => {
                        return Err(e);
                    },
                    Ok(a) => a,
                };
                let end = self.prev_end();
                let span = Span::new(expr.span.start, end);
                expr = Expr { kind: ExprKind::Call { callee: Box::new(expr), args }, span };
            } else if self.at_punct(Punct::LBracket) {
                let expr_start = expr.span.start;
                self.next();
                let idx_expr = match self.parse_expr() {
                    Err(e) => {
                        return Err(e);
                    },
                    Ok(x) => x,
                };
                let end = match self.consume_punct(Punct::RBracket, "]") {
                    Err(e) => {
                        return Err(e);
                    },
                    Ok(close) => close.end,
                };
                expr = Expr { kind: ExprKind::Index { base: Box::new(expr), index: Box::new(idx_expr) }, span: Span::new(expr_start, end) };
            } else {
                break;
            }
        }
        Ok(expr)
    }

    fn parse_paren_expr_list(&mut self) -> (r: Result<Vec<Expr>, ParseErr>)
        requires
            old(self).wf(),
        ensures
            final(self).wf(),
            final(self).frame() == old(self).frame(),
            final(self).diags == old(self).diags,
            old(self).idx <= final(self).idx,
            r is Ok ==> old(self).idx < final(self).idx,
            match g_args(old(self).src@, old(self).tv(), old(self).idx as int) {
                Ok((a, k)) => r matches Ok(v) && args_v(v@) == a && final(self).idx == k,
                Err(ev) => r matches Err(e) && err_v(e) == ev,
            },
        decreases old(self).tokens@.len() - old(self).idx, 2nat,
    {
        match self.consume_punct(Punct::LParen, "(") {
            Err(e) => {
                return Err(e);
            },
            Ok(_) => {},
        }
        let mut args: Vec<Expr> = Vec::new();
        if !self.at_punct(Punct::RParen) {
            let first = match self.parse_expr() {
                Err(e) => {
                    return Err(e);
                },
                Ok(x) => x,
            };
            let ghost a0 = expr_v(first);
            args.push(first);
            proof {
                assert(args@.drop_last() =~= Seq::<Expr>::empty());
                assert(args_v(args@.drop_last()) =~= Seq::<ExprV>::empty());
                assert(args_v(args@) =~= seq![a0]);
            }
            while self.at_punct(Punct::Comma)
                invariant
                    self.wf(),
                    self.frame() == old(self).frame(),
                    self.diags == old(self).diags,
                    old(self).idx < self.idx,
                    g_args(old(self).src@, old(self).tv(), old(self).idx as int) == g_args_tail(
                        self.src@,
                        self.tv(),
                        args_v(args@),
                        self.idx as int,
                    ),
                decreases self.tokens@.len() - self.idx,
            {
                self.next();
                let next = match self.parse_expr() {
                    Err(e) => {
                        return Err(e);
                    },
                    Ok(x) => x,
                };
                let ghost before = args@;
                args.push(next);
                proof {
                    assert(args@.drop_last() =~= before);
                }
            }
        }
        match self.consume_punct(Punct::RParen, ")") {
            Err(e) => Err(e),
            Ok(_) => Ok(args),
        }
    }

    // Primary ::= IntLit | DurationLit | StringLit | Ident | true | false
    //           | present(Ident) | absent(Ident) | "(" Expr ")"
    fn parse_primary(&mut self) -> (r: Result<Expr, ParseErr>)
        requires
            old(self).wf(),
        ensures
            final(self).wf(),
            final(self).frame() == old(self).frame(),
            final(self).diags == old(self).diags,
            old(self).idx <= final(self).idx,
            r is Ok ==> old(self).idx < final(self).idx,
            step_matches(r, final(self).idx as int, g_primary(old(self).src@, old(self).tv(), old(self).idx as int)),
        decreases old(self).tokens@.len() - old(self).idx, 2nat,
    {
        let sp = self.peek_span();
        match self.peek_kind() {
            TokenKind::Int(v) => {
                let v = *v;
                self.next();
                return Ok(Expr { kind: ExprKind::Int(IntLit { value: v, span: sp }), span: sp });
            },
            TokenKind::Duration(v) => {
                let v = *v;
                self.next();
                return Ok(Expr { kind: ExprKind::Duration(DurationLit { millis: v, span: sp }), span: sp });
            },
            TokenKind::Str(v) => {
                let bytes = v.clone();
                proof {
                    assert(bytes@ =~= v@);
                }
                self.next();
                return Ok(Expr { kind: ExprKind::String(StringLit { value: utf8_text(bytes), span: sp }), span: sp });
            },
            TokenKind::Ident => {
                let name = self.text_at(sp.start, sp.end);
                self.next();
                return Ok(Expr { kind: ExprKind::Ident(Ident { name, span: sp }), span: sp });
            },
            _ => {},
        }
        if self.at_kw("true") {
            self.next();
            Ok(Expr { kind: ExprKind::Bool(true), span: sp })
        } else if self.at_kw("false") {
            self.next();
            Ok(Expr { kind: ExprKind::Bool(false), span: sp })
        } else if self.at_kw("present") || self.at_kw("absent") {
            let present = self.at_kw("present");
            self.next();
            match self.consume_punct(Punct::LParen, "(") {
                Err(e) => {
                    return Err(e);
                },
                Ok(_) => {},
            }
            let id = match self.parse_ident_any() {
                Err(e) => {
                    return Err(e);
                },
                Ok(id) => id,
            };
            let end = match self.consume_punct(Punct::RParen, ")") {
                Err(e) => {
                    return Err(e);
                },
                Ok(close) => close.end,
            };
            let kind = if present {
                ExprKind::Present(id)
            } else {
                ExprKind::Absent(id)
            };
            Ok(Expr { kind, span: Span::new(sp.start, end) })
        } else if self.at_kw("event") || self.at_kw("Cause") || self.at_kw("Problem") {
            let name = if self.at_kw("event") {
                "event"
            } else if self.at_kw("Cause") {
                "Cause"
            } else {
                "Problem"
            };
            self.next();
            Ok(Expr { kind: ExprKind::Ident(Ident { name: name.to_owned(), span: sp }), span: sp })
        } else if self.at_punct(Punct::LParen) {
            self.next();
            let expr = match self.parse_expr() {
                Err(e) => {
                    return Err(e);
                },
                Ok(expr) => expr,
            };
            match self.consume_punct(Punct::RParen, ")") {
                Err(e) => Err(e),
                Ok(_) => Ok(expr),
            }
        } else {
            Err(perr("ADGL0100", "expected expression primary", "literal | identifier | (expr)", sp))
        }
    }

    fn parse_kind_ident(&mut self) -> (r: Result<KindIdent, ParseErr>)
        requires
            old(self).wf(),
        ensures
            final(self).wf(),
            final(self).frame() == old(self).frame(),
            final(self).diags == old(self).diags,
            old(self).idx <= final(self).idx,
            r is Ok ==> old(self).idx < final(self).idx,
            outcome(r, final(self).idx as int, g_kind(old(self).src@, old(self).tv(), old(self).idx as int), |x: KindIdent| kind_v(x)),
    {
        // KindIdent ::= Ident { "." Ident }; reserved words may be segments.
        let (name, start_span) = self.parse_word_any()?;
        let start = start_span.start;
        let mut end = start_span.end;
        let mut segments: Vec<Ident> = Vec::new();
        segments.push(Ident { name, span: start_span });
        proof {
            assert(idents_v(segments@) =~= seq![ident_v(segments@[0])]);
        }
        while self.at_punct(Punct::Dot)
            invariant
                self.wf(),
                self.frame() == old(self).frame(),
                self.diags == old(self).diags,
                old(self).idx < self.idx,
                g_kind(old(self).src@, old(self).tv(), old(self).idx as int) == g_kind_tail(
                    self.src@,
                    self.tv(),
                    idents_v(segments@),
                    start as int,
                    end as int,
                    self.idx as int,
                ),
            decreases self.tokens@.len() - self.idx,
        {
            self.next();
            let (name, span) = self.parse_word_any()?;
            end = span.end;
            let ghost before = segments@;
            segments.push(Ident { name, span });
            proof {
                assert(idents_v(segments@) =~= idents_v(before).push(ident_v(segments@.last())));
            }
        }
        Ok(KindIdent { segments, span: Span::new(start, end) })
    }

    fn parse_kind_ident_in_parens(&mut self) -> (r: Result<KindIdent, ParseErr>)
        requires
            old(self).wf(),
        ensures
            final(self).wf(),
            final(self).frame() == old(self).frame(),
            final(self).diags == old(self).diags,
            old(self).idx <= final(self).idx,
            r is Ok ==> old(self).idx < final(self).idx,
            outcome(r, final(self).idx as int, g_paren_kind(old(self).src@, old(self).tv(), old(self).idx as int), |x: KindIdent| kind_v(x)),
    {
        let _ = self.consume_punct(Punct::LParen, "(")?;
        let k = self.parse_kind_ident()?;
        let _ = self.consume_punct(Punct::RParen, ")")?;
        Ok(k)
    }

    #[verifier::loop_isolation(false)]
    fn parse_ref_list(&mut self) -> (r: Result<Vec<Ident>, ParseErr>)
        requires
            old(self).wf(),
        ensures
            final(self).wf(),
            final(self).frame() == old(self).frame(),
            final(self).diags == old(self).diags,
            old(self).idx <= final(self).idx,
            r is Ok ==> old(self).idx < final(self).idx,
            outcome(r, final(self).idx as int, g_ref_list(old(self).src@, old(self).tv(), old(self).idx as int), |x: Vec<Ident>| idents_v(x@)),
    {
        let _ = self.consume_punct(Punct::LBracket, "[")?;
        let mut refs: Vec<Ident> = Vec::new();
        let ghost j0 = self.idx as int;
        if !self.at_punct(Punct::RBracket) {
            let first = self.parse_ident_any()?;
            refs.push(first);
            proof {
                assert(idents_v(refs@) =~= seq![ident_v(first)]);
            }
            while self.at_punct(Punct::Comma)
                invariant
                    self.wf(),
                    self.frame() == old(self).frame(),
                    self.diags == old(self).diags,
                    old(self).idx < self.idx,
                    j0 < self.idx,
                    g_names_opt(self.src@, self.tv(), j0, Punct::RBracket) == g_names_tail(self.src@, self.tv(), idents_v(refs@), self.idx as int),
                decreases self.tokens@.len() - self.idx,
            {
                self.next();
                let x = self.parse_ident_any()?;
                let ghost before = refs@;
                refs.push(x);
                proof {
                    assert(idents_v(refs@) =~= idents_v(before).push(ident_v(x)));
                }
            }
        } else {
            proof {
                assert(idents_v(refs@) =~= Seq::empty());
            }
        }
        let _ = self.consume_punct(Punct::RBracket, "]")?;
        Ok(refs)
    }

    fn parse_scope_type(&mut self) -> (r: Result<ScopeType, ParseErr>)
        requires
            old(self).wf(),
        ensures
            final(self).wf(),
            final(self).frame() == old(self).frame(),
            final(self).diags == old(self).diags,
            old(self).idx <= final(self).idx,
            r is Ok ==> old(self).idx < final(self).idx,
            outcome(r, final(self).idx as int, g_scope(old(self).src@, old(self).tv(), old(self).idx as int), |x: ScopeType| x),
    {
        let ident = self.parse_ident_any()?;
        let n = ident.name.as_str();
        if text_eq(n, "Session") {
            Ok(ScopeType::Session)
        } else if text_eq(n, "Port") {
            Ok(ScopeType::Port)
        } else if text_eq(n, "ClientMac") {
            Ok(ScopeType::ClientMac)
        } else if text_eq(n, "Vlan") {
            Ok(ScopeType::Vlan)
        } else if text_eq(n, "AccessPoint") {
            Ok(ScopeType::AccessPoint)
        } else if text_eq(n, "Global") {
            Ok(ScopeType::Global)
        } else {
            Err(perr("ADGL0100", "invalid scope type", "Session | Port | ClientMac | Vlan | AccessPoint | Global", ident.span))
        }
    }

    fn parse_severity(&mut self) -> (r: Result<Severity, ParseErr>)
        requires
            old(self).wf(),
        ensures
            final(self).wf(),
            final(self).frame() == old(self).frame(),
            final(self).diags == old(self).diags,
            old(self).idx <= final(self).idx,
            r is Ok ==> old(self).idx < final(self).idx,
            outcome(r, final(self).idx as int, g_severity(old(self).src@, old(self).tv(), old(self).idx as int), |x: Severity| x),
    {
        let ident = self.parse_ident_any()?;
        let n = ident.name.as_str();
        if text_eq(n, "Critical") {
            Ok(Severity::Critical)
        } else if text_eq(n, "High") {
            Ok(Severity::High)
        } else if text_eq(n, "Medium") {
            Ok(Severity::Medium)
        } else if text_eq(n, "Low") {
            Ok(Severity::Low)
        } else if text_eq(n, "Recommended") {
            Ok(Severity::Recommended)
        } else if text_eq(n, "Optional") {
            Ok(Severity::Optional)
        } else {
            Err(perr("ADGL0100", "invalid severity", "Critical | High | Medium | Low | Recommended | Optional", ident.span))
        }
    }

    #[verifier::loop_isolation(false)]
    fn parse_requires_decl(&mut self) -> (r: Result<RequiresDecl, ParseErr>)
        requires
            old(self).wf(),
        ensures
            final(self).wf(),
            final(self).frame() == old(self).frame(),
            final(self).diags == old(self).diags,
            old(self).idx <= final(self).idx,
            r is Ok ==> old(self).idx < final(self).idx,
            outcome(r, final(self).idx as int, g_requires(old(self).tv(), old(self).idx as int), |x: RequiresDecl| requires_v(x)),
    {
        // Decl ::= "requires" "=" "[" StringLit { "," StringLit } "]"
        let start = self.consume_kw("requires")?.start;
        let _ = self.consume_punct(Punct::Eq, "=")?;
        let _ = self.consume_punct(Punct::LBracket, "[")?;
        let mut caps: Vec<StringLit> = Vec::new();
        let ghost j0 = self.idx as int;
        if !self.at_punct(Punct::RBracket) {
            let first = self.parse_string_lit()?;
            caps.push(first);
            proof {
                assert(strs_v(caps@) =~= seq![str_v(first)]);
            }
            while self.at_punct(Punct::Comma)
            invariant
                self.wf(),
                self.frame() == old(self).frame(),
                self.diags == old(self).diags,
                old(self).idx < self.idx,
                j0 < self.idx,
                g_strs_opt(self.tv(), j0) == g_strs_tail(self.tv(), strs_v(caps@), self.idx as int),
                decreases self.tokens@.len() - self.idx,
            {
                self.next();
                let x = self.parse_string_lit()?;
                let ghost before = caps@;
                caps.push(x);
                proof {
                    assert(strs_v(caps@) =~= strs_v(before).push(str_v(x)));
                }
            }
        } else {
            proof {
                assert(strs_v(caps@) =~= Seq::<crate::syntax::ruleset_grammar::NameV>::empty());
            }
        }
        if caps.len() > 32 {
            return Err(perr("ADGL0105", "too many requires entries", "at most 32 entries", self.peek_span()));
        }
        let end = self.consume_punct(Punct::RBracket, "]")?.end;
        Ok(RequiresDecl { capabilities: caps, span: Span::new(start, end) })
    }

    #[verifier::loop_isolation(false)]
    fn parse_mutually_exclusive_decl(&mut self) -> (r: Result<MutuallyExclusiveDecl, ParseErr>)
        requires
            old(self).wf(),
        ensures
            final(self).wf(),
            final(self).frame() == old(self).frame(),
            final(self).diags == old(self).diags,
            old(self).idx <= final(self).idx,
            r is Ok ==> old(self).idx < final(self).idx,
            outcome(r, final(self).idx as int, g_exclusive(old(self).src@, old(self).tv(), old(self).idx as int), |x: MutuallyExclusiveDecl| exclusive_v(x)),
    {
        // Decl ::= "mutually_exclusive" "(" IdentList ")"
        let start = self.consume_kw("mutually_exclusive")?.start;
        let _ = self.consume_punct(Punct::LParen, "(")?;
        let mut idents: Vec<Ident> = Vec::new();
        let ghost j0 = self.idx as int;
        let first = self.parse_ident_any()?;
        idents.push(first);
        proof {
            assert(idents_v(idents@) =~= seq![ident_v(first)]);
        }
        while self.at_punct(Punct::Comma)
            invariant
                self.wf(),
                self.frame() == old(self).frame(),
                self.diags == old(self).diags,
                old(self).idx < self.idx,
                j0 < self.idx,
                g_names(self.src@, self.tv(), j0) == g_names_tail(self.src@, self.tv(), idents_v(idents@), self.idx as int),
            decreases self.tokens@.len() - self.idx,
        {
            self.next();
            let x = self.parse_ident_any()?;
            let ghost before = idents@;
            idents.push(x);
            proof {
                assert(idents_v(idents@) =~= idents_v(before).push(ident_v(x)));
            }
        }
        let end = self.consume_punct(Punct::RParen, ")")?.end;
        Ok(MutuallyExclusiveDecl { idents, span: Span::new(start, end) })
    }

    fn parse_anchor_block(&mut self) -> (r: Result<AnchorBlock, ParseErr>)
        requires
            old(self).wf(),
        ensures
            final(self).wf(),
            final(self).frame() == old(self).frame(),
            final(self).diags == old(self).diags,
            old(self).idx <= final(self).idx,
            r is Ok ==> old(self).idx < final(self).idx,
            outcome(r, final(self).idx as int, g_anchor(old(self).src@, old(self).tv(), old(self).idx as int), |x: AnchorBlock| anchor_v(x)),
    {
        // AnchorBlock ::= "anchor" Ident ":" "event" "(" EventType ")" [ "{" [ Predicate ] "}" ]
        let start = self.consume_kw("anchor")?.start;
        let binding = self.parse_ident_non_kw()?;
        let _ = self.consume_punct(Punct::Colon, ":")?;
        let _ = self.consume_kw("event")?;
        let _ = self.consume_punct(Punct::LParen, "(")?;
        let event_type = self.parse_kind_ident()?;
        let _ = self.consume_punct(Punct::RParen, ")")?;
        let predicate = if self.at_punct(Punct::LBrace) {
            self.next();
            let pred = if self.at_punct(Punct::RBrace) {
                None
            } else {
                Some(self.parse_expr()?)
            };
            let _ = self.consume_punct(Punct::RBrace, "}")?;
            pred
        } else {
            None
        };
        let end = match &predicate {
            Some(e) => e.span.end,
            None => event_type.span.end,
        };
        Ok(AnchorBlock { binding, event_type, predicate, span: Span::new(start, end) })
    }

    fn parse_decision_anchor(&mut self) -> (r: Result<DecisionAnchor, ParseErr>)
        requires
            old(self).wf(),
        ensures
            final(self).wf(),
            final(self).frame() == old(self).frame(),
            final(self).diags == old(self).diags,
            old(self).idx <= final(self).idx,
            r is Ok ==> old(self).idx < final(self).idx,
            outcome(r, final(self).idx as int, g_decision_anchor(old(self).src@, old(self).tv(), old(self).idx as int), |x: DecisionAnchor| decision_anchor_v(x)),
    {
        // DecisionAnchor ::= "anchor" Ident ":" ( CauseAnchor | ProblemAnchor )
        let _ = self.consume_kw("anchor")?;
        let binding = self.parse_ident_non_kw()?;
        let _ = self.consume_punct(Punct::Colon, ":")?;
        if self.at_kw("Cause") {
            let start = self.consume_kw("Cause")?.start;
            let _ = self.consume_punct(Punct::LParen, "(")?;
            let cause = self.parse_ident_non_kw()?;
            let _ = self.consume_punct(Punct::RParen, ")")?;
            let _ = self.consume_punct(Punct::LBrace, "{")?;
            let predicate = self.parse_expr()?;
            let end = self.consume_punct(Punct::RBrace, "}")?.end;
            Ok(DecisionAnchor::Cause(CauseAnchor { binding, cause, predicate, span: Span::new(start, end) }))
        } else if self.at_kw("Problem") {
            let start = self.consume_kw("Problem")?.start;
            let _ = self.consume_punct(Punct::LParen, "(")?;
            let problem = self.parse_ident_non_kw()?;
            let _ = self.consume_punct(Punct::RParen, ")")?;
            let predicate = if self.at_punct(Punct::LBrace) {
                self.next();
                let p = if self.at_punct(Punct::RBrace) {
                    None
                } else {
                    Some(self.parse_expr()?)
                };
                let _ = self.consume_punct(Punct::RBrace, "}")?;
                p
            } else {
                None
            };
            let end = match &predicate {
                Some(p) => p.span.end,
                None => problem.span.end,
            };
            Ok(DecisionAnchor::Problem(ProblemAnchor { binding, problem, predicate, span: Span::new(start, end) }))
        } else {
            Err(perr("ADGL0100", "expected Cause(...) or Problem(...)", "Cause/Problem anchor", self.peek_span()))
        }
    }

    fn parse_optional_min_match(&mut self) -> (r: Result<Option<MinMatchClause>, ParseErr>)
        requires
            old(self).wf(),
        ensures
            final(self).wf(),
            final(self).frame() == old(self).frame(),
            final(self).diags == old(self).diags,
            old(self).idx <= final(self).idx,
            outcome(r, final(self).idx as int, g_min_match(old(self).src@, old(self).tv(), old(self).idx as int), |x: Option<MinMatchClause>| min_match_v(x)),
            r matches Ok(Some(m)) ==> m.count >= 0,
    {
        if !self.at_kw("having") {
            return Ok(None);
        }
        let _ = self.consume_kw("having")?;
        let _ = self.consume_punct(Punct::Colon, ":")?;
        let _ = self.consume_word_exact("count")?;
        let _ = self.consume_punct(Punct::Ge, ">=")?;
        let (lit, span) = self.consume_int()?;
        if lit < 0 {
            return Err(perr("ADGL0100", "min match count must be a non-negative integer literal", "non-negative integer literal", span));
        }
        Ok(Some(MinMatchClause { count: lit, span }))
    }

    fn parse_correlate_source(&mut self) -> (r: Result<CorrelateSource, ParseErr>)
        requires
            old(self).wf(),
        ensures
            final(self).wf(),
            final(self).frame() == old(self).frame(),
            final(self).diags == old(self).diags,
            old(self).idx <= final(self).idx,
            r is Ok ==> old(self).idx < final(self).idx,
            outcome(r, final(self).idx as int, g_source(old(self).src@, old(self).tv(), old(self).idx as int), |x: CorrelateSource| source_v(x)),
    {
        if self.at_kw("event") {
            let _ = self.consume_kw("event")?;
            let _ = self.consume_punct(Punct::LParen, "(")?;
            let k = self.parse_kind_ident()?;
            let _ = self.consume_punct(Punct::RParen, ")")?;
            Ok(CorrelateSource::Event(k))
        } else if self.at_kw("Problem") {
            let _ = self.consume_kw("Problem")?;
            let _ = self.consume_punct(Punct::LParen, "(")?;
            let k = self.parse_ident_non_kw()?;
            let _ = self.consume_punct(Punct::RParen, ")")?;
            Ok(CorrelateSource::Problem(k))
        } else if self.at_kw("Cause") {
            let _ = self.consume_kw("Cause")?;
            let _ = self.consume_punct(Punct::LParen, "(")?;
            let k = self.parse_ident_non_kw()?;
            let _ = self.consume_punct(Punct::RParen, ")")?;
            Ok(CorrelateSource::Cause(k))
        } else {
            Err(perr("ADGL0100", "invalid correlate source", "event(...) | Problem(...) | Cause(...)", self.peek_span()))
        }
    }

    fn parse_topo_predicate(&mut self) -> (r: Result<TopoPredicate, ParseErr>)
        requires
            old(self).wf(),
        ensures
            final(self).wf(),
            final(self).frame() == old(self).frame(),
            final(self).diags == old(self).diags,
            old(self).idx <= final(self).idx,
            r is Ok ==> old(self).idx < final(self).idx,
            outcome(r, final(self).idx as int, g_topo(old(self).src@, old(self).tv(), old(self).idx as int), |x: TopoPredicate| topo_v(x)),
    {
        // TopoPredicate ::= Ident "(" ExprList ")"
        let name = self.parse_ident_non_kw()?;
        let start = name.span.start;
        let args = self.parse_paren_expr_list()?;
        proof {
            crate::syntax::grammar::lemma_args_v(args@);
        }
        let end = if args.len() > 0 {
            args[args.len() - 1].span.end
        } else {
            name.span.end
        };
        Ok(TopoPredicate { name, args, span: Span::new(start, end) })
    }

    fn parse_time_window(&mut self) -> (r: Result<TimeWindow, ParseErr>)
        requires
            old(self).wf(),
        ensures
            final(self).wf(),
            final(self).frame() == old(self).frame(),
            final(self).diags == old(self).diags,
            old(self).idx <= final(self).idx,
            r is Ok ==> old(self).idx < final(self).idx,
            outcome(r, final(self).idx as int, g_time(old(self).src@, old(self).tv(), old(self).idx as int), |x: TimeWindow| time_v(x)),
    {
        // TimeWindow ::= Expr "in" "[" Expr "," Expr "]"; `in` separates here.
        let probe = self.parse_additive()?;
        let start = probe.span.start;
        let _ = self.consume_kw("in")?;
        let _ = self.consume_punct(Punct::LBracket, "[")?;
        let lo = self.parse_expr()?;
        let _ = self.consume_punct(Punct::Comma, ",")?;
        let hi = self.parse_expr()?;
        let end = self.consume_punct(Punct::RBracket, "]")?.end;
        Ok(TimeWindow { probe, start: lo, end: hi, span: Span::new(start, end) })
    }

    fn parse_correlate_block(&mut self) -> (r: Result<CorrelateBlock, ParseErr>)
        requires
            old(self).wf(),
        ensures
            final(self).wf(),
            final(self).frame() == old(self).frame(),
            final(self).diags == old(self).diags,
            old(self).idx <= final(self).idx,
            r is Ok ==> old(self).idx < final(self).idx,
            outcome(r, final(self).idx as int, g_correlate(old(self).src@, old(self).tv(), old(self).idx as int), |x: CorrelateBlock| correlate_v(x)),
    {
        let start = self.consume_kw("correlate")?.start;
        let binding = self.parse_ident_non_kw()?;
        let _ = self.consume_punct(Punct::Colon, ":")?;
        let source = self.parse_correlate_source()?;
        let _ = self.consume_punct(Punct::LBrace, "{")?;
        let _ = self.consume_word_exact("topo")?;
        let _ = self.consume_punct(Punct::Colon, ":")?;
        let topo = self.parse_topo_predicate()?;
        let _ = self.consume_word_exact("time")?;
        let _ = self.consume_punct(Punct::Colon, ":")?;
        let time = self.parse_time_window()?;
        let min_match = self.parse_optional_min_match()?;
        let end = self.consume_punct(Punct::RBrace, "}")?.end;
        Ok(CorrelateBlock { binding, source, topo, time, min_match, span: Span::new(start, end) })
    }

    fn parse_infer_field(&mut self) -> (r: Result<InferField, ParseErr>)
        requires
            old(self).wf(),
        ensures
            final(self).wf(),
            final(self).frame() == old(self).frame(),
            final(self).diags == old(self).diags,
            old(self).idx <= final(self).idx,
            r is Ok ==> old(self).idx < final(self).idx,
            outcome(r, final(self).idx as int, g_infer_field(old(self).src@, old(self).tv(), old(self).idx as int), |x: InferField| infer_field_v(x)),
    {
        let (key_name, key_span) = self.parse_word_any()?;
        let _ = self.consume_punct(Punct::Colon, ":")?;
        let key = key_name.as_str();
        if text_eq(key, "target") {
            let expr = self.parse_expr()?;
            let end = expr.span.end;
            Ok(InferField::Target(expr, Span::new(key_span.start, end)))
        } else if text_eq(key, "weight") {
            let sign: i64 = if self.at_punct(Punct::Plus) {
                self.next();
                1
            } else if self.at_punct(Punct::Minus) {
                self.next();
                -1
            } else {
                return Err(perr("ADGL0100", "weight requires explicit sign", "'+' or '-' before integer literal", self.peek_span()));
            };
            let (v, span) = self.consume_int()?;
            // `sign * v`, saturating (only `-i64::MIN` saturates).
            let val = if sign == 1 {
                v
            } else if v == i64::MIN {
                i64::MAX
            } else {
                -v
            };
            Ok(InferField::Weight { value: val, span: Span::new(key_span.start, span.end) })
        } else if text_eq(key, "evidence") {
            let refs = self.parse_ref_list()?;
            let end = if refs.len() > 0 {
                refs[refs.len() - 1].span.end
            } else {
                key_span.end
            };
            Ok(InferField::Evidence(refs, Span::new(key_span.start, end)))
        } else {
            Err(perr("ADGL0100", "unknown infer field", "target | weight | evidence", key_span))
        }
    }

    #[verifier::loop_isolation(false)]
    #[verifier::rlimit(100)]
    fn parse_infer_stmt(&mut self) -> (r: Result<InferStmt, ParseErr>)
        requires
            old(self).wf(),
        ensures
            final(self).wf(),
            final(self).frame() == old(self).frame(),
            final(self).diags == old(self).diags,
            old(self).idx <= final(self).idx,
            r is Ok ==> old(self).idx < final(self).idx,
            outcome(r, final(self).idx as int, g_infer(old(self).src@, old(self).tv(), old(self).idx as int), |x: InferStmt| infer_v(x)),
    {
        // InferStmt ::= "infer" "Cause" "(" Ident ")" "{" InferField { "," InferField } "}"
        let start = self.consume_kw("infer")?.start;
        let _ = self.consume_kw("Cause")?;
        let _ = self.consume_punct(Punct::LParen, "(")?;
        let cause = self.parse_ident_non_kw()?;
        let _ = self.consume_punct(Punct::RParen, ")")?;
        let _ = self.consume_punct(Punct::LBrace, "{")?;
        let mut fields: Vec<InferField> = Vec::new();
        let ghost j0 = self.idx as int;
        if !self.at_punct(Punct::RBrace) {
            let first = self.parse_infer_field()?;
            fields.push(first);
            proof {
                assert(infer_fields_v(fields@) =~= seq![infer_field_v(first)]);
            }
            while self.at_punct(Punct::Comma)
                invariant
                    self.wf(),
                    self.frame() == old(self).frame(),
                    self.diags == old(self).diags,
                    old(self).idx < self.idx,
                    j0 < self.idx,
                    g_infer_fields(self.src@, self.tv(), j0) == g_infer_fields_tail(self.src@, self.tv(), infer_fields_v(fields@), self.idx as int),
                decreases self.tokens@.len() - self.idx,
            {
                self.next();
                let x = self.parse_infer_field()?;
                let ghost before = fields@;
                fields.push(x);
                proof {
                    assert(infer_fields_v(fields@) =~= infer_fields_v(before).push(infer_field_v(x)));
                }
            }
        } else {
            proof {
                assert(infer_fields_v(fields@) =~= Seq::empty());
            }
        }
        let end = self.consume_punct(Punct::RBrace, "}")?.end;
        Ok(InferStmt { cause, fields, span: Span::new(start, end) })
    }

    fn parse_emit_field(&mut self) -> (r: Result<EmitField, ParseErr>)
        requires
            old(self).wf(),
        ensures
            final(self).wf(),
            final(self).frame() == old(self).frame(),
            final(self).diags == old(self).diags,
            old(self).idx <= final(self).idx,
            r is Ok ==> old(self).idx < final(self).idx,
            outcome(r, final(self).idx as int, g_emit_field(old(self).src@, old(self).tv(), old(self).idx as int), |x: EmitField| emit_field_v(x)),
    {
        let (key_name, key_span) = self.parse_word_any()?;
        let _ = self.consume_punct(Punct::Colon, ":")?;
        let key = key_name.as_str();
        if text_eq(key, "target") {
            let expr = self.parse_expr()?;
            let end = expr.span.end;
            Ok(EmitField::Target(expr, Span::new(key_span.start, end)))
        } else if text_eq(key, "severity") {
            let sev = self.parse_severity()?;
            Ok(EmitField::Severity(sev, Span::new(key_span.start, self.prev_end())))
        } else if text_eq(key, "evidence") {
            let refs = self.parse_ref_list()?;
            let end = if refs.len() > 0 {
                refs[refs.len() - 1].span.end
            } else {
                key_span.end
            };
            Ok(EmitField::Evidence(refs, Span::new(key_span.start, end)))
        } else if text_eq(key, "sarif_id") {
            let s = self.parse_string_lit()?;
            let end = s.span.end;
            Ok(EmitField::SarifId(s, Span::new(key_span.start, end)))
        } else {
            Err(perr("ADGL0100", "unknown emit field", "target | severity | evidence | sarif_id", key_span))
        }
    }

    #[verifier::loop_isolation(false)]
    #[verifier::rlimit(100)]
    fn parse_emit_stmt(&mut self) -> (r: Result<EmitStmt, ParseErr>)
        requires
            old(self).wf(),
        ensures
            final(self).wf(),
            final(self).frame() == old(self).frame(),
            final(self).diags == old(self).diags,
            old(self).idx <= final(self).idx,
            r is Ok ==> old(self).idx < final(self).idx,
            outcome(r, final(self).idx as int, g_emit(old(self).src@, old(self).tv(), old(self).idx as int), |x: EmitStmt| emit_v(x)),
    {
        // EmitStmt ::= "emit" "Problem" "(" Ident ")" "{" EmitField { "," EmitField } "}"
        let start = self.consume_kw("emit")?.start;
        let _ = self.consume_kw("Problem")?;
        let _ = self.consume_punct(Punct::LParen, "(")?;
        let problem = self.parse_ident_non_kw()?;
        let _ = self.consume_punct(Punct::RParen, ")")?;
        let _ = self.consume_punct(Punct::LBrace, "{")?;
        let mut fields: Vec<EmitField> = Vec::new();
        let ghost j0 = self.idx as int;
        if !self.at_punct(Punct::RBrace) {
            let first = self.parse_emit_field()?;
            fields.push(first);
            proof {
                assert(emit_fields_v(fields@) =~= seq![emit_field_v(first)]);
            }
            while self.at_punct(Punct::Comma)
                invariant
                    self.wf(),
                    self.frame() == old(self).frame(),
                    self.diags == old(self).diags,
                    old(self).idx < self.idx,
                    j0 < self.idx,
                    g_emit_fields(self.src@, self.tv(), j0) == g_emit_fields_tail(self.src@, self.tv(), emit_fields_v(fields@), self.idx as int),
                decreases self.tokens@.len() - self.idx,
            {
                self.next();
                let x = self.parse_emit_field()?;
                let ghost before = fields@;
                fields.push(x);
                proof {
                    assert(emit_fields_v(fields@) =~= emit_fields_v(before).push(emit_field_v(x)));
                }
            }
        } else {
            proof {
                assert(emit_fields_v(fields@) =~= Seq::empty());
            }
        }
        let end = self.consume_punct(Punct::RBrace, "}")?.end;
        Ok(EmitStmt { problem, fields, span: Span::new(start, end) })
    }

    fn parse_action_field(&mut self) -> (r: Result<ActionField, ParseErr>)
        requires
            old(self).wf(),
        ensures
            final(self).wf(),
            final(self).frame() == old(self).frame(),
            final(self).diags == old(self).diags,
            old(self).idx <= final(self).idx,
            r is Ok ==> old(self).idx < final(self).idx,
            outcome(r, final(self).idx as int, g_action_field(old(self).src@, old(self).tv(), old(self).idx as int), |x: ActionField| action_field_v(x)),
    {
        let (key_name, key_span) = self.parse_word_any()?;
        let _ = self.consume_punct(Punct::Colon, ":")?;
        let key = key_name.as_str();
        if text_eq(key, "target") {
            let expr = self.parse_expr()?;
            let end = expr.span.end;
            Ok(ActionField::Target(expr, Span::new(key_span.start, end)))
        } else if text_eq(key, "reason") {
            let s = self.parse_string_lit()?;
            let end = s.span.end;
            Ok(ActionField::Reason(s, Span::new(key_span.start, end)))
        } else if text_eq(key, "evidence") {
            let refs = self.parse_ref_list()?;
            let end = if refs.len() > 0 {
                refs[refs.len() - 1].span.end
            } else {
                key_span.end
            };
            Ok(ActionField::Evidence(refs, Span::new(key_span.start, end)))
        } else {
            Err(perr("ADGL0100", "unknown action field", "target | reason | evidence", key_span))
        }
    }

    #[verifier::loop_isolation(false)]
    #[verifier::rlimit(100)]
    fn parse_action_stmt(&mut self) -> (r: Result<ActionStmt, ParseErr>)
        requires
            old(self).wf(),
        ensures
            final(self).wf(),
            final(self).frame() == old(self).frame(),
            final(self).diags == old(self).diags,
            old(self).idx <= final(self).idx,
            r is Ok ==> old(self).idx < final(self).idx,
            outcome(r, final(self).idx as int, g_action(old(self).src@, old(self).tv(), old(self).idx as int), |x: ActionStmt| action_v(x)),
    {
        // ActionStmt ::= "action" Ident [ "(" KindIdent ")" ] "{" ... "}"
        let start = self.consume_kw("action")?.start;
        let action_ident = self.parse_ident_any()?;
        let n = action_ident.name.as_str();
        let action = if text_eq(n, "request_observation") {
            ActionName::Known(ActionKind::RequestObservation)
        } else if text_eq(n, "run_check") {
            ActionName::Known(ActionKind::RunCheck)
        } else if text_eq(n, "suppress_symptom") {
            ActionName::Known(ActionKind::SuppressSymptom)
        } else if text_eq(n, "mark_ambiguous") {
            ActionName::Known(ActionKind::MarkAmbiguous)
        } else if text_eq(n, "request_topology") {
            ActionName::Known(ActionKind::RequestTopology)
        } else {
            ActionName::Custom(action_ident)
        };
        let arg = if self.at_punct(Punct::LParen) {
            Some(self.parse_kind_ident_in_parens()?)
        } else {
            None
        };
        let _ = self.consume_punct(Punct::LBrace, "{")?;
        let mut fields: Vec<ActionField> = Vec::new();
        let ghost j0 = self.idx as int;
        if !self.at_punct(Punct::RBrace) {
            let first = self.parse_action_field()?;
            fields.push(first);
            proof {
                assert(action_fields_v(fields@) =~= seq![action_field_v(first)]);
            }
            while self.at_punct(Punct::Comma)
                invariant
                    self.wf(),
                    self.frame() == old(self).frame(),
                    self.diags == old(self).diags,
                    old(self).idx < self.idx,
                    j0 < self.idx,
                    g_action_fields(self.src@, self.tv(), j0) == g_action_fields_tail(self.src@, self.tv(), action_fields_v(fields@), self.idx as int),
                decreases self.tokens@.len() - self.idx,
            {
                self.next();
                let x = self.parse_action_field()?;
                let ghost before = fields@;
                fields.push(x);
                proof {
                    assert(action_fields_v(fields@) =~= action_fields_v(before).push(action_field_v(x)));
                }
            }
        } else {
            proof {
                assert(action_fields_v(fields@) =~= Seq::empty());
            }
        }
        let end = self.consume_punct(Punct::RBrace, "}")?.end;
        Ok(ActionStmt { action, arg, fields, span: Span::new(start, end) })
    }

    fn parse_stmt_any(&mut self) -> (r: Result<Stmt, ParseErr>)
        requires
            old(self).wf(),
        ensures
            final(self).wf(),
            final(self).frame() == old(self).frame(),
            final(self).diags == old(self).diags,
            old(self).idx <= final(self).idx,
            r is Ok ==> old(self).idx < final(self).idx,
            outcome(r, final(self).idx as int, g_stmt(old(self).src@, old(self).tv(), old(self).idx as int), |x: Stmt| stmt_v(x)),
    {
        if self.at_kw("infer") {
            Ok(Stmt::Infer(self.parse_infer_stmt()?))
        } else if self.at_kw("emit") {
            Ok(Stmt::Emit(self.parse_emit_stmt()?))
        } else if self.at_kw("action") {
            Ok(Stmt::Action(self.parse_action_stmt()?))
        } else {
            Err(perr("ADGL0100", "unexpected statement", "infer | emit | action", self.peek_span()))
        }
    }

    /// A body statement of an evidence rule (no `emit`) or a decision rule
    /// (no `infer`).
    fn parse_stmt_in_rule(&mut self, evidence: bool) -> (r: Result<Stmt, ParseErr>)
        requires
            old(self).wf(),
        ensures
            final(self).wf(),
            final(self).frame() == old(self).frame(),
            final(self).diags == old(self).diags,
            old(self).idx <= final(self).idx,
            r is Ok ==> old(self).idx < final(self).idx,
            outcome(r, final(self).idx as int, g_stmt_in_rule(old(self).src@, old(self).tv(), old(self).idx as int, evidence), |x: Stmt| stmt_v(x)),
            r matches Ok(st) ==> (evidence ==> !(st is Emit)) && (!evidence ==> !(st is Infer)),
    {
        let stmt = self.parse_stmt_any()?;
        if evidence {
            if let Stmt::Emit(_) = stmt {
                return Err(perr("ADGL0450", "emit is not allowed in evidence rule body", "infer | action", stmt_span(&stmt)));
            }
        } else if let Stmt::Infer(_) = stmt {
            return Err(perr("ADGL0450", "infer is not allowed in decision rule body", "emit | action", stmt_span(&stmt)));
        }
        Ok(stmt)
    }

    fn parse_stmt_block(&mut self) -> (r: Result<Vec<Stmt>, ParseErr>)
        requires
            old(self).wf(),
        ensures
            final(self).wf(),
            final(self).frame() == old(self).frame(),
            final(self).diags == old(self).diags,
            old(self).idx <= final(self).idx,
            outcome(r, final(self).idx as int, g_block_tail(old(self).src@, old(self).tv(), Seq::empty(), old(self).idx as int), |x: Vec<Stmt>| stmts_v(x@)),
    {
        let mut body: Vec<Stmt> = Vec::new();
        proof {
            assert(stmts_v(body@) =~= Seq::empty());
        }
        while !self.at_punct(Punct::RBrace) && !self.at_eof()
            invariant
                self.wf(),
                self.frame() == old(self).frame(),
                self.diags == old(self).diags,
                old(self).idx <= self.idx,
                g_block_tail(old(self).src@, old(self).tv(), Seq::empty(), old(self).idx as int) == g_block_tail(
                    self.src@,
                    self.tv(),
                    stmts_v(body@),
                    self.idx as int,
                ),
            decreases self.tokens@.len() - self.idx,
        {
            let x = self.parse_stmt_any()?;
            let ghost before = body@;
            body.push(x);
            proof {
                assert(stmts_v(body@) =~= stmts_v(before).push(stmt_v(x)));
            }
        }
        Ok(body)
    }

    fn parse_if_else_block(&mut self) -> (r: Result<IfElseBlock, ParseErr>)
        requires
            old(self).wf(),
        ensures
            final(self).wf(),
            final(self).frame() == old(self).frame(),
            final(self).diags == old(self).diags,
            old(self).idx <= final(self).idx,
            r is Ok ==> old(self).idx < final(self).idx,
            outcome(r, final(self).idx as int, g_if_else(old(self).src@, old(self).tv(), old(self).idx as int), |x: IfElseBlock| if_else_v(x)),
    {
        // IfElseBlock ::= "if" Expr "{" { Stmt } "}" [ "else" "{" { Stmt } "}" ]
        let start = self.consume_kw("if")?.start;
        let condition = self.parse_expr()?;
        let _ = self.consume_punct(Punct::LBrace, "{")?;
        let then_body = self.parse_stmt_block()?;
        let _ = self.consume_punct(Punct::RBrace, "}")?;
        let else_body = if self.at_kw("else") {
            let _ = self.consume_kw("else")?;
            let _ = self.consume_punct(Punct::LBrace, "{")?;
            let body = self.parse_stmt_block()?;
            let _ = self.consume_punct(Punct::RBrace, "}")?;
            Some(body)
        } else {
            None
        };
        let end = match &else_body {
            Some(body) => if body.len() > 0 {
                stmt_span(&body[body.len() - 1]).end
            } else {
                condition.span.end
            },
            None => condition.span.end,
        };
        Ok(IfElseBlock { condition, then_body, else_body, span: Span::new(start, end) })
    }

    fn parse_rule_body(&mut self, evidence: bool) -> (r: Result<Vec<Stmt>, ParseErr>)
        requires
            old(self).wf(),
        ensures
            final(self).wf(),
            final(self).frame() == old(self).frame(),
            final(self).diags == old(self).diags,
            old(self).idx <= final(self).idx,
            outcome(r, final(self).idx as int, g_body_tail(old(self).src@, old(self).tv(), Seq::empty(), old(self).idx as int, evidence), |x: Vec<Stmt>| stmts_v(x@)),
            r matches Ok(b) ==> forall|k: int|
                0 <= k < b@.len() ==> (evidence ==> !(#[trigger] b@[k] is Emit)) && (!evidence ==> !(b@[k] is Infer)),
    {
        let mut body: Vec<Stmt> = Vec::new();
        proof {
            assert(stmts_v(body@) =~= Seq::empty());
        }
        while !self.at_punct(Punct::RBrace) && !self.at_eof()
            invariant
                self.wf(),
                self.frame() == old(self).frame(),
                self.diags == old(self).diags,
                old(self).idx <= self.idx,
                forall|k: int|
                    0 <= k < body@.len() ==> (evidence ==> !(#[trigger] body@[k] is Emit)) && (!evidence
                        ==> !(body@[k] is Infer)),
                g_body_tail(old(self).src@, old(self).tv(), Seq::empty(), old(self).idx as int, evidence) == g_body_tail(
                    self.src@,
                    self.tv(),
                    stmts_v(body@),
                    self.idx as int,
                    evidence,
                ),
            decreases self.tokens@.len() - self.idx,
        {
            let x = self.parse_stmt_in_rule(evidence)?;
            let ghost before = body@;
            body.push(x);
            proof {
                assert(stmts_v(body@) =~= stmts_v(before).push(stmt_v(x)));
            }
        }
        Ok(body)
    }

    #[verifier::loop_isolation(false)]
    #[verifier::rlimit(100)]
    fn parse_evidence_rule(&mut self) -> (r: Result<EvidenceRule, ParseErr>)
        requires
            old(self).wf(),
        ensures
            final(self).wf(),
            final(self).frame() == old(self).frame(),
            final(self).diags == old(self).diags,
            old(self).idx <= final(self).idx,
            r is Ok ==> old(self).idx < final(self).idx,
            outcome(r, final(self).idx as int, g_evidence_rule(old(self).src@, old(self).tv(), old(self).idx as int), |x: EvidenceRule| evidence_rule_v(x)),
            r matches Ok(rule) ==> forall|k: int| 0 <= k < rule.body@.len() ==> !(#[trigger] rule.body@[k] is Emit),
    {
        let start = self.consume_kw("evidence")?.start;
        let name = self.parse_ident_non_kw()?;
        let _ = self.consume_punct(Punct::LBrace, "{")?;
        let _ = self.consume_kw("scope")?;
        let _ = self.consume_punct(Punct::Colon, ":")?;
        let scope = self.parse_scope_type()?;
        let anchor = self.parse_anchor_block()?;
        let mut correlates: Vec<CorrelateBlock> = Vec::new();
        let ghost j0 = self.idx as int;
        proof {
            assert(correlates_v(correlates@) =~= Seq::empty());
        }
        while self.at_kw("correlate")
            invariant
                self.wf(),
                self.frame() == old(self).frame(),
                self.diags == old(self).diags,
                old(self).idx < self.idx,
                j0 <= self.idx,
                g_correlates_tail(self.src@, self.tv(), Seq::empty(), j0) == g_correlates_tail(
                    self.src@,
                    self.tv(),
                    correlates_v(correlates@),
                    self.idx as int,
                ),
            decreases self.tokens@.len() - self.idx,
        {
            let x = self.parse_correlate_block()?;
            let ghost before = correlates@;
            correlates.push(x);
            proof {
                assert(correlates_v(correlates@) =~= correlates_v(before).push(correlate_v(x)));
            }
        }
        let if_else = if self.at_kw("if") {
            Some(self.parse_if_else_block()?)
        } else {
            None
        };
        let body = self.parse_rule_body(true)?;
        let end = self.consume_punct(Punct::RBrace, "}")?.end;
        Ok(EvidenceRule { name, scope, anchor, correlates, if_else, body, span: Span::new(start, end) })
    }

    #[verifier::loop_isolation(false)]
    #[verifier::rlimit(100)]
    fn parse_decision_rule(&mut self) -> (r: Result<DecisionRule, ParseErr>)
        requires
            old(self).wf(),
        ensures
            final(self).wf(),
            final(self).frame() == old(self).frame(),
            final(self).diags == old(self).diags,
            old(self).idx <= final(self).idx,
            r is Ok ==> old(self).idx < final(self).idx,
            outcome(r, final(self).idx as int, g_decision_rule(old(self).src@, old(self).tv(), old(self).idx as int), |x: DecisionRule| decision_rule_v(x)),
            r matches Ok(rule) ==> forall|k: int| 0 <= k < rule.body@.len() ==> !(#[trigger] rule.body@[k] is Infer),
    {
        let start = self.consume_kw("decision")?.start;
        let name = self.parse_ident_non_kw()?;
        let _ = self.consume_punct(Punct::LBrace, "{")?;
        let _ = self.consume_kw("scope")?;
        let _ = self.consume_punct(Punct::Colon, ":")?;
        let scope = self.parse_scope_type()?;
        let anchor = self.parse_decision_anchor()?;
        let mut correlates: Vec<CorrelateBlock> = Vec::new();
        let ghost j0 = self.idx as int;
        proof {
            assert(correlates_v(correlates@) =~= Seq::empty());
        }
        while self.at_kw("correlate")
            invariant
                self.wf(),
                self.frame() == old(self).frame(),
                self.diags == old(self).diags,
                old(self).idx < self.idx,
                j0 <= self.idx,
                g_correlates_tail(self.src@, self.tv(), Seq::empty(), j0) == g_correlates_tail(
                    self.src@,
                    self.tv(),
                    correlates_v(correlates@),
                    self.idx as int,
                ),
            decreases self.tokens@.len() - self.idx,
        {
            let x = self.parse_correlate_block()?;
            let ghost before = correlates@;
            correlates.push(x);
            proof {
                assert(correlates_v(correlates@) =~= correlates_v(before).push(correlate_v(x)));
            }
        }
        let if_else = if self.at_kw("if") {
            Some(self.parse_if_else_block()?)
        } else {
            None
        };
        let body = self.parse_rule_body(false)?;
        let end = self.consume_punct(Punct::RBrace, "}")?.end;
        Ok(DecisionRule { name, scope, anchor, correlates, if_else, body, span: Span::new(start, end) })
    }

    #[verifier::loop_isolation(false)]
    #[verifier::rlimit(100)]
    fn parse_ruleset_header(&mut self) -> (r: Result<RulesetHeader, ParseErr>)
        requires
            old(self).wf(),
        ensures
            final(self).wf(),
            final(self).frame() == old(self).frame(),
            old(self).diags@.len() <= final(self).diags@.len(),
            old(self).idx <= final(self).idx,
            r is Ok ==> old(self).idx < final(self).idx,
            !old(self).recover ==> outcome(
                r,
                final(self).idx as int,
                g_header(old(self).src@, old(self).tv(), old(self).idx as int),
                |x: RulesetHeader| header_v(x),
            ) && final(self).diags == old(self).diags,
    {
        // RulesetHeader ::= Version { Decl }
        let start = self.peek_span().start;
        let _ = self.consume_kw("version")?;
        let _ = self.consume_punct(Punct::Eq, "=")?;
        let version = self.parse_string_lit()?;
        let mut end = version.span.end;
        let mut decls: Vec<Decl> = Vec::new();
        let ghost j0 = self.idx as int;
        proof {
            assert(decls_v(decls@) =~= Seq::empty());
        }
        loop
            invariant
                self.wf(),
                self.frame() == old(self).frame(),
                old(self).diags@.len() <= self.diags@.len(),
                old(self).idx < self.idx,
                !self.recover ==> self.diags == old(self).diags,
                !self.recover ==> g_decls_tail(self.src@, self.tv(), Seq::empty(), version.span.end as int, j0)
                    == g_decls_tail(self.src@, self.tv(), decls_v(decls@), end as int, self.idx as int),
            decreases self.tokens@.len() - self.idx,
        {
            let before = self.idx;
            if self.at_kw("requires") {
                match self.parse_requires_decl() {
                    Ok(d) => {
                        end = d.span.end;
                        let ghost before = decls@;
                        let ghost dv = requires_v(d);
                        decls.push(Decl::Requires(d));
                        proof {
                            assert(decls_v(decls@) =~= decls_v(before).push(DeclV::Requires(dv.0, dv.1, dv.2)));
                        }
                    },
                    Err(e) => {
                        if !self.recover {
                            return Err(e);
                        }
                        self.record_error(e);
                        self.resync_decl_or_rule();
                    },
                }
            } else if self.at_kw("mutually_exclusive") {
                match self.parse_mutually_exclusive_decl() {
                    Ok(d) => {
                        end = d.span.end;
                        let ghost before = decls@;
                        let ghost dv = exclusive_v(d);
                        decls.push(Decl::MutuallyExclusive(d));
                        proof {
                            assert(decls_v(decls@) =~= decls_v(before).push(DeclV::MutuallyExclusive(dv.0, dv.1, dv.2)));
                        }
                    },
                    Err(e) => {
                        if !self.recover {
                            return Err(e);
                        }
                        self.record_error(e);
                        self.resync_decl_or_rule();
                    },
                }
            } else {
                break;
            }
            // A failed member consumed its keyword, so the position moved;
            // the check keeps the loop's progress explicit.
            if self.idx == before {
                break;
            }
        }
        Ok(RulesetHeader { version, decls, span: Span::new(start, end) })
    }

    #[verifier::loop_isolation(false)]
    #[verifier::rlimit(100)]
    #[verifier::spinoff_prover]
    fn parse_ruleset_ast(&mut self) -> (r: Result<Ruleset, ParseErr>)
        requires
            old(self).wf(),
        ensures
            final(self).wf(),
            final(self).frame() == old(self).frame(),
            old(self).diags@.len() <= final(self).diags@.len(),
            old(self).idx <= final(self).idx,
            r is Ok ==> old(self).idx < final(self).idx,
            !old(self).recover ==> outcome(
                r,
                final(self).idx as int,
                g_ruleset(old(self).src@, old(self).tv(), old(self).idx as int),
                |x: Ruleset| ruleset_v(x),
            ) && final(self).diags == old(self).diags,
    {
        // Ruleset ::= "ruleset" StringLit "{" RulesetHeader { Rule } "}"
        let start = self.consume_kw("ruleset")?.start;
        let name = self.parse_string_lit()?;
        let _ = self.consume_punct(Punct::LBrace, "{")?;
        let header = self.parse_ruleset_header()?;
        let mut rules: Vec<RuleDecl> = Vec::new();
        let ghost j0 = self.idx as int;
        proof {
            assert(rules_v(rules@) =~= Seq::empty());
        }
        loop
            invariant
                self.wf(),
                self.frame() == old(self).frame(),
                old(self).diags@.len() <= self.diags@.len(),
                old(self).idx < self.idx,
                !self.recover ==> self.diags == old(self).diags,
                !self.recover ==> g_rules_tail(self.src@, self.tv(), Seq::empty(), j0) == g_rules_tail(
                    self.src@,
                    self.tv(),
                    rules_v(rules@),
                    self.idx as int,
                ),
            decreases self.tokens@.len() - self.idx,
        {
            let before = self.idx;
            if self.at_kw("evidence") {
                match self.parse_evidence_rule() {
                    Ok(rule) => {
                        let ghost before = rules@;
                        let ghost rv = rule_decl_v(RuleDecl::Evidence(rule));
                        rules.push(RuleDecl::Evidence(rule));
                        proof {
                            assert(rules_v(rules@) =~= rules_v(before).push(rv));
                        }
                    },
                    Err(e) => {
                        if !self.recover {
                            return Err(e);
                        }
                        self.record_error(e);
                        self.resync_decl_or_rule();
                    },
                }
            } else if self.at_kw("decision") {
                match self.parse_decision_rule() {
                    Ok(rule) => {
                        let ghost before = rules@;
                        let ghost rv = rule_decl_v(RuleDecl::Decision(rule));
                        rules.push(RuleDecl::Decision(rule));
                        proof {
                            assert(rules_v(rules@) =~= rules_v(before).push(rv));
                        }
                    },
                    Err(e) => {
                        if !self.recover {
                            return Err(e);
                        }
                        self.record_error(e);
                        self.resync_decl_or_rule();
                    },
                }
            } else {
                break;
            }
            // A failed member consumed its keyword, so the position moved;
            // the check keeps the loop's progress explicit.
            if self.idx == before {
                break;
            }
        }
        let end = self.consume_punct(Punct::RBrace, "}")?.end;
        if !self.at_eof() {
            return Err(perr("ADGL0100", "unexpected tokens after ruleset", "end of input", self.peek_span()));
        }
        Ok(Ruleset { name, header, rules, span: Span::new(start, end) })
    }
}

/// The tokens of `src` with the parser's stream shape established.
fn lex_stream(src: &str) -> (r: Result<Vec<Token>, LexError>)
    ensures
        src.spec_bytes().len() > 4 * 1024 * 1024 ==> r == Err::<Vec<Token>, LexError>(
            crate::syntax::lexer::lex_err("ADGL0102", "source exceeds 4 MiB limit", 0, src.spec_bytes().len() as int),
        ),
        src.spec_bytes().len() <= 4 * 1024 * 1024 ==> match tokens_from(src.spec_bytes(), 0, 0) {
            Ok(ts) => r matches Ok(v) && v@.map_values(|t: Token| token_view(t)) == ts,
            Err(e) => r == Err::<Vec<Token>, LexError>(e),
        },
        r matches Ok(ts) ==> forall|k: int|
            0 <= k < ts@.len() ==> (#[trigger] ts@[k]).start <= ts@[k].end <= src.spec_bytes().len() && (
            ts@[k].kind is Eof ==> k == ts@.len() - 1),
{
    let r = tokenize(src);
    proof {
        if src.spec_bytes().len() <= 4 * 1024 * 1024 {
            lemma_tokens_shape(src.spec_bytes(), 0, 0);
            match &r {
                Ok(v) => {
                    let ts = tokens_from(src.spec_bytes(), 0, 0)->Ok_0;
                    assert forall|k: int| 0 <= k < v@.len() implies (#[trigger] v@[k]).start <= v@[k].end
                        <= src.spec_bytes().len() && (v@[k].kind is Eof ==> k == v@.len() - 1) by {
                        assert(token_view(v@[k]) == ts[k]);
                    }
                    assert(v@.map_values(|t: Token| token_view(t)) =~= ts);
                },
                Err(_) => {},
            }
        }
    }
    r
}

/// What parsing the ruleset source `bytes` gives: over 4 MiB, the one
/// `ADGL0102` diagnostic; a lexical error, that one diagnostic; else the
/// grammar's tree when the grammar accepts, and diagnostics (at least one)
/// when it does not.
pub open spec fn parses_as(bytes: Seq<u8>, r: Result<Ruleset, DiagBuffer>) -> bool {
    &&& bytes.len() > 4 * 1024 * 1024 ==> (r matches Err(b) && b@.len() == 1 && b@[0].code == "ADGL0102")
    &&& bytes.len() <= 4 * 1024 * 1024 ==> match tokens_from(bytes, 0, 0) {
        Err(e) => r matches Err(b) && b@.len() == 1 && b@[0].code == e.code && b@[0].span.start == e.start
            && b@[0].span.end == e.end,
        Ok(ts) => match g_ruleset(bytes, with_eof(ts, bytes.len() as int), 0) {
            Ok((v, _k)) => r matches Ok(a) && ruleset_v(a) == v,
            Err(_) => r is Err,
        },
    }
    &&& r matches Err(b) ==> b@.len() > 0
}

/// Parses a ruleset. Rule- and declaration-level syntax errors are
/// recorded and parsing resumes at the next ruleset member, so later
/// errors accumulate; a tree is returned only when nothing was recorded.
/// Lexical errors (including a source over 4 MiB, `ADGL0102`) end parsing
/// with that one diagnostic.
pub fn parse_ruleset(src: &str) -> (r: Result<Ruleset, DiagBuffer>)
    ensures
        parses_as(src.spec_bytes(), r),
{
    // A clean parse is the grammar's tree; only a source with errors is
    // parsed again with recovery to collect them all.
    let first = match parse_ruleset_fail_fast(src) {
        Ok(ast) => {
            return Ok(ast);
        },
        Err(b) => b,
    };
    match lex_stream(src) {
        Ok(tokens) => {
            let mut p = ParserState::new(src.as_bytes(), tokens);
            p.recover = true;
            match p.parse_ruleset_ast() {
                Ok(_) => {
                    if p.diags.is_empty() {
                        Err(first)
                    } else {
                        Err(p.diags)
                    }
                },
                Err(err) => {
                    p.record_error(err);
                    Err(p.diags)
                },
            }
        },
        Err(_) => Err(first),
    }
}

/// Parses a ruleset, stopping at the first syntax error (no recovery): an
/// error result holds exactly one diagnostic.
pub fn parse_ruleset_fail_fast(src: &str) -> (r: Result<Ruleset, DiagBuffer>)
    ensures
        r matches Err(b) ==> b@.len() == 1,
        src.spec_bytes().len() > 4 * 1024 * 1024 ==> (r matches Err(b) && b@[0].code == "ADGL0102"),
        src.spec_bytes().len() <= 4 * 1024 * 1024 ==> match tokens_from(src.spec_bytes(), 0, 0) {
            Err(e) => r matches Err(b) && diag_is(b@[0], lex_err_v(e)),
            Ok(ts) => match g_ruleset(src.spec_bytes(), with_eof(ts, src.spec_bytes().len() as int), 0) {
                Ok((v, _k)) => r matches Ok(a) && ruleset_v(a) == v,
                Err(ev) => r matches Err(b) && diag_is(b@[0], ev),
            },
        },
{
    match lex_stream(src) {
        Ok(tokens) => {
            let mut p = ParserState::new(src.as_bytes(), tokens);
            match p.parse_ruleset_ast() {
                Ok(ast) => Ok(ast),
                Err(err) => Err(diag_from_err(err)),
            }
        },
        Err(err) => Err(diag_from_err(lex_to_parse(err))),
    }
}

/// Parses one expression that must span the whole input; an error result
/// holds exactly one diagnostic.
pub fn parse_expression(src: &str) -> (r: Result<Expr, DiagBuffer>)
    ensures
        r matches Err(b) ==> b@.len() == 1,
        src.spec_bytes().len() > 4 * 1024 * 1024 ==> (r matches Err(b) && b@[0].code == "ADGL0102"),
        src.spec_bytes().len() <= 4 * 1024 * 1024 ==> match tokens_from(src.spec_bytes(), 0, 0) {
            Err(e) => r matches Err(b) && diag_is(b@[0], lex_err_v(e)),
            Ok(ts) => expression_outcome(r, src.spec_bytes(), with_eof(ts, src.spec_bytes().len() as int)),
        },
{
    match lex_stream(src) {
        Ok(tokens) => {
            let mut p = ParserState::new(src.as_bytes(), tokens);
            match p.parse_expr() {
                Ok(expr) => {
                    if !p.at_eof() {
                        Err(diag_from_err(perr("ADGL0100", "unexpected trailing tokens", "end of input", p.peek_span())))
                    } else {
                        Ok(expr)
                    }
                },
                Err(err) => Err(diag_from_err(err)),
            }
        },
        Err(err) => Err(diag_from_err(lex_to_parse(err))),
    }
}

} // verus!
