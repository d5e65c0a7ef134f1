//! The expression grammar as a specification over the token stream: what
//! the recursive-descent parser returns for every input, tree and spans
//! included, and the exact syntax error it reports otherwise.
//!
//! ```text
//! Expr     ::= Or
//! Or       ::= And { ("||" | "or") And }
//! And      ::= Compare { ("&&" | "and") Compare }
//! Compare  ::= Add { ("==" | "!=" | "<" | "<=" | ">" | ">=" | "in") Add }
//! Add      ::= Mul { ("+" | "-") Mul }
//! Mul      ::= Unary { ("*" | "/" | "%") Unary }
//! Unary    ::= ("!" | "not") Unary | Postfix
//! Postfix  ::= Primary { "." Name | "(" [Expr { "," Expr }] ")" | "[" Expr "]" }
//! Primary  ::= Int | Duration | String | Ident | "true" | "false"
//!            | ("present" | "absent") "(" Name ")" | "event" | "Cause" | "Problem"
//!            | "(" Expr ")"
//! ```
//!
//! Binary operators associate to the left; every node's span runs from
//! its first to its last token.
use vstd::prelude::*;

use crate::syntax::ast::{BinaryOp, Expr, ExprKind};
use crate::syntax::lexer::{Punct, TokSpec};
use crate::syntax::parser::ParseErr;

verus! {

/// A spec token: kind, first byte, one past the last byte.
pub type Tok = (TokSpec, int, int);

/// The value of an expression node, spans included.
pub struct ExprV {
    /// What it is.
    pub kind: KindV,
    /// First byte.
    pub lo: int,
    /// One past the last byte.
    pub hi: int,
}

/// Expression forms (names as characters, with the spans of the
/// identifier and literal sub-nodes).
pub enum KindV {
    /// Integer literal and its span.
    Int(i64, int, int),
    /// Duration literal (ms) and its span.
    Duration(i64, int, int),
    /// String literal and its span.
    Str(Seq<char>, int, int),
    /// Identifier and its span.
    Ident(Seq<char>, int, int),
    /// `true` / `false`.
    Bool(bool),
    /// `present(x)` with the span of `x`.
    Present(Seq<char>, int, int),
    /// `absent(x)` with the span of `x`.
    Absent(Seq<char>, int, int),
    /// `!e` / `not e`.
    Not(Box<ExprV>),
    /// `l op r`.
    Binary(BinaryOp, Box<ExprV>, Box<ExprV>),
    /// `base.field` with the span of `field`.
    Field(Box<ExprV>, Seq<char>, int, int),
    /// `callee(args)`.
    Call(Box<ExprV>, Seq<ExprV>),
    /// `base[index]`.
    Index(Box<ExprV>, Box<ExprV>),
}

/// A syntax error's value: code, message, expected, span.
pub type ErrV = (&'static str, Seq<char>, &'static str, int, int);

/// The value of a syntax error.
pub open spec fn err_v(e: ParseErr) -> ErrV {
    (e.code, e.message@, e.expected, e.span.start as int, e.span.end as int)
}

/// The value of a parsed expression.
pub open spec fn expr_v(e: Expr) -> ExprV
    decreases e,
{
    let k = match e.kind {
        ExprKind::Int(l) => KindV::Int(l.value, l.span.start as int, l.span.end as int),
        ExprKind::Duration(l) => KindV::Duration(l.millis, l.span.start as int, l.span.end as int),
        ExprKind::String(l) => KindV::Str(l.value@, l.span.start as int, l.span.end as int),
        ExprKind::Ident(i) => KindV::Ident(i.name@, i.span.start as int, i.span.end as int),
        ExprKind::Bool(b) => KindV::Bool(b),
        ExprKind::Present(i) => KindV::Present(i.name@, i.span.start as int, i.span.end as int),
        ExprKind::Absent(i) => KindV::Absent(i.name@, i.span.start as int, i.span.end as int),
        ExprKind::Unary { op: _, expr } => KindV::Not(Box::new(expr_v(*expr))),
        ExprKind::Binary { op, left, right } => KindV::Binary(op, Box::new(expr_v(*left)), Box::new(expr_v(*right))),
        ExprKind::Field { base, field } => KindV::Field(
            Box::new(expr_v(*base)),
            field.name@,
            field.span.start as int,
            field.span.end as int,
        ),
        ExprKind::Call { callee, args } => KindV::Call(Box::new(expr_v(*callee)), args_v(args@)),
        ExprKind::Index { base, index } => KindV::Index(Box::new(expr_v(*base)), Box::new(expr_v(*index))),
    };
    ExprV { kind: k, lo: e.span.start as int, hi: e.span.end as int }
}

/// The values of an argument list.
pub open spec fn args_v(s: Seq<Expr>) -> Seq<ExprV>
    decreases s,
{
    if s.len() == 0 {
        Seq::empty()
    } else {
        args_v(s.drop_last()).push(expr_v(s.last()))
    }
}

/// An argument list's values: one per argument, the last one last.
pub proof fn lemma_args_v(s: Seq<Expr>)
    ensures
        args_v(s).len() == s.len(),
        s.len() > 0 ==> args_v(s).last() == expr_v(s.last()),
    decreases s.len(),
{
    if s.len() > 0 {
        lemma_args_v(s.drop_last());
    }
}

/// The text of a byte range: its characters when it is UTF-8, else empty.
pub open spec fn text_v(b: Seq<u8>) -> Seq<char> {
    if vstd::utf8::valid_utf8(b) {
        vstd::utf8::decode_utf8(b)
    } else {
        Seq::empty()
    }
}

/// The next position (the parser never moves past the last token).
pub open spec fn adv(ts: Seq<Tok>, i: int) -> int {
    if i + 1 < ts.len() {
        i + 1
    } else {
        i
    }
}

/// Whether token `i` is the punctuation `p`.
pub open spec fn is_punct(ts: Seq<Tok>, i: int, p: Punct) -> bool {
    ts[i].0 == TokSpec::Punct(p)
}

/// Whether token `i` is the keyword `w`.
pub open spec fn is_kw(ts: Seq<Tok>, i: int, w: Seq<char>) -> bool {
    ts[i].0 == TokSpec::Kw(vstd::utf8::encode_utf8(w))
}

/// The "unexpected token" error at token `i`.
pub open spec fn unexpected(ts: Seq<Tok>, i: int, expected: &'static str) -> ErrV {
    ("ADGL0100", "unexpected token"@, expected, ts[i].1, ts[i].2)
}

/// `consume_punct`: the span of the punctuation `p` at `i` and the next
/// position, or the unexpected-token error.
pub open spec fn g_punct(ts: Seq<Tok>, i: int, p: Punct, expected: &'static str) -> Result<(int, int, int), ErrV> {
    if is_punct(ts, i, p) {
        Ok((ts[i].1, ts[i].2, adv(ts, i)))
    } else {
        Err(unexpected(ts, i, expected))
    }
}

/// A name: an identifier, or one of the keywords `event`, `Cause`,
/// `Problem` (its spelling); other keywords and tokens are errors.
pub open spec fn g_name(src: Seq<u8>, ts: Seq<Tok>, i: int) -> Result<(Seq<char>, int, int, int), ErrV> {
    match ts[i].0 {
        TokSpec::Ident => Ok((text_v(src.subrange(ts[i].1, ts[i].2)), ts[i].1, ts[i].2, adv(ts, i))),
        TokSpec::Kw(b) => if b == vstd::utf8::encode_utf8("event"@) {
            Ok(("event"@, ts[i].1, ts[i].2, adv(ts, i)))
        } else if b == vstd::utf8::encode_utf8("Cause"@) {
            Ok(("Cause"@, ts[i].1, ts[i].2, adv(ts, i)))
        } else if b == vstd::utf8::encode_utf8("Problem"@) {
            Ok(("Problem"@, ts[i].1, ts[i].2, adv(ts, i)))
        } else {
            Err(("ADGL0100", "reserved keyword is not allowed here"@, "identifier (non-keyword)", ts[i].1, ts[i].2))
        },
        _ => Err(unexpected(ts, i, "identifier")),
    }
}

/// A binary node from `l` to `r`.
pub open spec fn bin(op: BinaryOp, l: ExprV, r: ExprV) -> ExprV {
    ExprV { kind: KindV::Binary(op, Box::new(l), Box::new(r)), lo: l.lo, hi: r.hi }
}

/// `Expr`.
pub open spec fn g_expr(src: Seq<u8>, ts: Seq<Tok>, i: int) -> Result<(ExprV, int), ErrV>
    decreases ts.len() - i, 20nat,
{
    if 0 <= i < ts.len() {
        g_or(src, ts, i)
    } else {
        Err(unexpected(ts, i, "expression"))
    }
}

/// The `Or` operator at `j`.
pub open spec fn or_op(ts: Seq<Tok>, j: int) -> Option<BinaryOp> {
    if is_punct(ts, j, Punct::OrOr) || is_kw(ts, j, "or"@) {
        Some(BinaryOp::Or)
    } else {
        None
    }
}

/// `Or`.
pub open spec fn g_or(src: Seq<u8>, ts: Seq<Tok>, i: int) -> Result<(ExprV, int), ErrV>
    decreases ts.len() - i, 19nat,
{
    if 0 <= i < ts.len() {
        match g_and(src, ts, i) {
            Err(e) => Err(e),
            Ok((l, j)) => if i < j < ts.len() {
                g_or_tail(src, ts, l, j)
            } else {
                Ok((l, j))
            },
        }
    } else {
        Err(unexpected(ts, i, "expression"))
    }
}

/// `{ ("||" | "or") And }` after the left operand `l`.
pub open spec fn g_or_tail(src: Seq<u8>, ts: Seq<Tok>, l: ExprV, j: int) -> Result<(ExprV, int), ErrV>
    decreases ts.len() - j, 18nat,
{
    if 0 <= j && j + 1 < ts.len() {
        match or_op(ts, j) {
            None => Ok((l, j)),
            Some(op) => match g_and(src, ts, j + 1) {
                Err(e) => Err(e),
                Ok((r, k)) => if j < k < ts.len() {
                    g_or_tail(src, ts, bin(op, l, r), k)
                } else {
                    Ok((bin(op, l, r), k))
                },
            },
        }
    } else {
        Ok((l, j))
    }
}

/// The `And` operator at `j`.
pub open spec fn and_op(ts: Seq<Tok>, j: int) -> Option<BinaryOp> {
    if is_punct(ts, j, Punct::AndAnd) || is_kw(ts, j, "and"@) {
        Some(BinaryOp::And)
    } else {
        None
    }
}

/// `And`.
pub open spec fn g_and(src: Seq<u8>, ts: Seq<Tok>, i: int) -> Result<(ExprV, int), ErrV>
    decreases ts.len() - i, 17nat,
{
    if 0 <= i < ts.len() {
        match g_compare(src, ts, i) {
            Err(e) => Err(e),
            Ok((l, j)) => if i < j < ts.len() {
                g_and_tail(src, ts, l, j)
            } else {
                Ok((l, j))
            },
        }
    } else {
        Err(unexpected(ts, i, "expression"))
    }
}

/// `{ ("&&" | "and") Cmp }` after `l`.
pub open spec fn g_and_tail(src: Seq<u8>, ts: Seq<Tok>, l: ExprV, j: int) -> Result<(ExprV, int), ErrV>
    decreases ts.len() - j, 16nat,
{
    if 0 <= j && j + 1 < ts.len() {
        match and_op(ts, j) {
            None => Ok((l, j)),
            Some(op) => match g_compare(src, ts, j + 1) {
                Err(e) => Err(e),
                Ok((r, k)) => if j < k < ts.len() {
                    g_and_tail(src, ts, bin(op, l, r), k)
                } else {
                    Ok((bin(op, l, r), k))
                },
            },
        }
    } else {
        Ok((l, j))
    }
}

/// The comparison operator at `j` (`in` last, as the parser tests it).
pub open spec fn compare_op(ts: Seq<Tok>, j: int) -> Option<BinaryOp> {
    if is_kw(ts, j, "in"@) {
        Some(BinaryOp::In)
    } else if is_punct(ts, j, Punct::Ge) {
        Some(BinaryOp::Ge)
    } else if is_punct(ts, j, Punct::Gt) {
        Some(BinaryOp::Gt)
    } else if is_punct(ts, j, Punct::Le) {
        Some(BinaryOp::Le)
    } else if is_punct(ts, j, Punct::Lt) {
        Some(BinaryOp::Lt)
    } else if is_punct(ts, j, Punct::Ne) {
        Some(BinaryOp::Ne)
    } else if is_punct(ts, j, Punct::EqEq) {
        Some(BinaryOp::Eq)
    } else {
        None
    }
}

/// `Cmp`.
pub open spec fn g_compare(src: Seq<u8>, ts: Seq<Tok>, i: int) -> Result<(ExprV, int), ErrV>
    decreases ts.len() - i, 15nat,
{
    if 0 <= i < ts.len() {
        match g_add(src, ts, i) {
            Err(e) => Err(e),
            Ok((l, j)) => if i < j < ts.len() {
                g_compare_tail(src, ts, l, j)
            } else {
                Ok((l, j))
            },
        }
    } else {
        Err(unexpected(ts, i, "expression"))
    }
}

/// `{ cmp-op Add }` after `l`.
pub open spec fn g_compare_tail(src: Seq<u8>, ts: Seq<Tok>, l: ExprV, j: int) -> Result<(ExprV, int), ErrV>
    decreases ts.len() - j, 14nat,
{
    if 0 <= j && j + 1 < ts.len() {
        match compare_op(ts, j) {
            None => Ok((l, j)),
            Some(op) => match g_add(src, ts, j + 1) {
                Err(e) => Err(e),
                Ok((r, k)) => if j < k < ts.len() {
                    g_compare_tail(src, ts, bin(op, l, r), k)
                } else {
                    Ok((bin(op, l, r), k))
                },
            },
        }
    } else {
        Ok((l, j))
    }
}

/// The additive operator at `j`.
pub open spec fn add_op(ts: Seq<Tok>, j: int) -> Option<BinaryOp> {
    if is_punct(ts, j, Punct::Minus) {
        Some(BinaryOp::Sub)
    } else if is_punct(ts, j, Punct::Plus) {
        Some(BinaryOp::Add)
    } else {
        None
    }
}

/// `Add`.
pub open spec fn g_add(src: Seq<u8>, ts: Seq<Tok>, i: int) -> Result<(ExprV, int), ErrV>
    decreases ts.len() - i, 13nat,
{
    if 0 <= i < ts.len() {
        match g_mul(src, ts, i) {
            Err(e) => Err(e),
            Ok((l, j)) => if i < j < ts.len() {
                g_add_tail(src, ts, l, j)
            } else {
                Ok((l, j))
            },
        }
    } else {
        Err(unexpected(ts, i, "expression"))
    }
}

/// `{ ("+" | "-") Mul }` after `l`.
pub open spec fn g_add_tail(src: Seq<u8>, ts: Seq<Tok>, l: ExprV, j: int) -> Result<(ExprV, int), ErrV>
    decreases ts.len() - j, 12nat,
{
    if 0 <= j && j + 1 < ts.len() {
        match add_op(ts, j) {
            None => Ok((l, j)),
            Some(op) => match g_mul(src, ts, j + 1) {
                Err(e) => Err(e),
                Ok((r, k)) => if j < k < ts.len() {
                    g_add_tail(src, ts, bin(op, l, r), k)
                } else {
                    Ok((bin(op, l, r), k))
                },
            },
        }
    } else {
        Ok((l, j))
    }
}

/// The multiplicative operator at `j`.
pub open spec fn mul_op(ts: Seq<Tok>, j: int) -> Option<BinaryOp> {
    if is_punct(ts, j, Punct::Percent) {
        Some(BinaryOp::Rem)
    } else if is_punct(ts, j, Punct::Slash) {
        Some(BinaryOp::Div)
    } else if is_punct(ts, j, Punct::Star) {
        Some(BinaryOp::Mul)
    } else {
        None
    }
}

/// `Mul`.
pub open spec fn g_mul(src: Seq<u8>, ts: Seq<Tok>, i: int) -> Result<(ExprV, int), ErrV>
    decreases ts.len() - i, 11nat,
{
    if 0 <= i < ts.len() {
        match g_unary(src, ts, i) {
            Err(e) => Err(e),
            Ok((l, j)) => if i < j < ts.len() {
                g_mul_tail(src, ts, l, j)
            } else {
                Ok((l, j))
            },
        }
    } else {
        Err(unexpected(ts, i, "expression"))
    }
}

/// `{ ("*" | "/" | "%") Unary }` after `l`.
pub open spec fn g_mul_tail(src: Seq<u8>, ts: Seq<Tok>, l: ExprV, j: int) -> Result<(ExprV, int), ErrV>
    decreases ts.len() - j, 10nat,
{
    if 0 <= j && j + 1 < ts.len() {
        match mul_op(ts, j) {
            None => Ok((l, j)),
            Some(op) => match g_unary(src, ts, j + 1) {
                Err(e) => Err(e),
                Ok((r, k)) => if j < k < ts.len() {
                    g_mul_tail(src, ts, bin(op, l, r), k)
                } else {
                    Ok((bin(op, l, r), k))
                },
            },
        }
    } else {
        Ok((l, j))
    }
}

/// `Unary`.
pub open spec fn g_unary(src: Seq<u8>, ts: Seq<Tok>, i: int) -> Result<(ExprV, int), ErrV>
    decreases ts.len() - i, 9nat,
{
    if 0 <= i < ts.len() {
        if (is_punct(ts, i, Punct::Bang) || is_kw(ts, i, "not"@)) && i + 1 < ts.len() {
            match g_unary(src, ts, i + 1) {
                Err(e) => Err(e),
                Ok((inner, k)) => Ok((ExprV { kind: KindV::Not(Box::new(inner)), lo: ts[i].1, hi: inner.hi }, k)),
            }
        } else {
            g_postfix(src, ts, i)
        }
    } else {
        Err(unexpected(ts, i, "expression"))
    }
}

/// `Postfix`.
pub open spec fn g_postfix(src: Seq<u8>, ts: Seq<Tok>, i: int) -> Result<(ExprV, int), ErrV>
    decreases ts.len() - i, 8nat,
{
    if 0 <= i < ts.len() {
        match g_primary(src, ts, i) {
            Err(e) => Err(e),
            Ok((e, j)) => if i < j < ts.len() {
                g_postfix_tail(src, ts, e, j)
            } else {
                Ok((e, j))
            },
        }
    } else {
        Err(unexpected(ts, i, "expression"))
    }
}

/// The end of the token before `k` (0 at the start).
pub open spec fn prev_end(ts: Seq<Tok>, k: int) -> int {
    if k == 0 {
        0
    } else {
        ts[k - 1].2
    }
}

/// `{ "." Name | "(" args ")" | "[" Expr "]" }` after `e`.
pub open spec fn g_postfix_tail(src: Seq<u8>, ts: Seq<Tok>, e: ExprV, j: int) -> Result<(ExprV, int), ErrV>
    decreases ts.len() - j, 7nat,
{
    if 0 <= j && j + 1 < ts.len() {
        if is_punct(ts, j, Punct::Dot) {
            match g_name(src, ts, j + 1) {
                Err(er) => Err(er),
                Ok((name, nlo, nhi, k)) => {
                    let f = ExprV { kind: KindV::Field(Box::new(e), name, nlo, nhi), lo: e.lo, hi: nhi };
                    if j < k < ts.len() {
                        g_postfix_tail(src, ts, f, k)
                    } else {
                        Ok((f, k))
                    }
                },
            }
        } else if is_punct(ts, j, Punct::LParen) {
            match g_args(src, ts, j) {
                Err(er) => Err(er),
                Ok((args, k)) => {
                    let c = ExprV { kind: KindV::Call(Box::new(e), args), lo: e.lo, hi: prev_end(ts, k) };
                    if j < k < ts.len() {
                        g_postfix_tail(src, ts, c, k)
                    } else {
                        Ok((c, k))
                    }
                },
            }
        } else if is_punct(ts, j, Punct::LBracket) {
            match g_expr(src, ts, j + 1) {
                Err(er) => Err(er),
                Ok((ix, k)) => if j < k < ts.len() {
                    match g_punct(ts, k, Punct::RBracket, "]") {
                        Err(er) => Err(er),
                        Ok((_blo, bhi, k2)) => {
                            let x = ExprV { kind: KindV::Index(Box::new(e), Box::new(ix)), lo: e.lo, hi: bhi };
                            if k < k2 < ts.len() {
                                g_postfix_tail(src, ts, x, k2)
                            } else {
                                Ok((x, k2))
                            }
                        },
                    }
                } else {
                    Err(unexpected(ts, k, "]"))
                },
            }
        } else {
            Ok((e, j))
        }
    } else {
        Ok((e, j))
    }
}

/// `"(" [Expr { "," Expr }] ")"` at `j`: the argument values and the
/// position after `)`.
pub open spec fn g_args(src: Seq<u8>, ts: Seq<Tok>, j: int) -> Result<(Seq<ExprV>, int), ErrV>
    decreases ts.len() - j, 6nat,
{
    if 0 <= j && j < ts.len() {
        match g_punct(ts, j, Punct::LParen, "(") {
            Err(er) => Err(er),
            Ok((_lo, _hi, j1)) => if j < j1 < ts.len() {
                if is_punct(ts, j1, Punct::RParen) {
                    match g_punct(ts, j1, Punct::RParen, ")") {
                        Err(er) => Err(er),
                        Ok((_a, _b, k)) => Ok((Seq::empty(), k)),
                    }
                } else {
                    match g_expr(src, ts, j1) {
                        Err(er) => Err(er),
                        Ok((a, k)) => if j1 < k < ts.len() {
                            g_args_tail(src, ts, seq![a], k)
                        } else {
                            Ok((seq![a], k))
                        },
                    }
                }
            } else {
                Err(unexpected(ts, j, "("))
            },
        }
    } else {
        Err(unexpected(ts, j, "("))
    }
}

/// `{ "," Expr } ")"` after the arguments `acc`.
pub open spec fn g_args_tail(src: Seq<u8>, ts: Seq<Tok>, acc: Seq<ExprV>, k: int) -> Result<(Seq<ExprV>, int), ErrV>
    decreases ts.len() - k, 5nat,
{
    if 0 <= k && k + 1 < ts.len() && is_punct(ts, k, Punct::Comma) {
        match g_expr(src, ts, k + 1) {
            Err(er) => Err(er),
            Ok((a, k2)) => if k < k2 < ts.len() {
                g_args_tail(src, ts, acc.push(a), k2)
            } else {
                Ok((acc.push(a), k2))
            },
        }
    } else if 0 <= k < ts.len() {
        match g_punct(ts, k, Punct::RParen, ")") {
            Err(er) => Err(er),
            Ok((_a, _b, k2)) => Ok((acc, k2)),
        }
    } else {
        Err(unexpected(ts, k, ")"))
    }
}

/// A leaf node at token `i`.
pub open spec fn leaf(ts: Seq<Tok>, i: int, k: KindV) -> ExprV {
    ExprV { kind: k, lo: ts[i].1, hi: ts[i].2 }
}

/// `Primary`.
pub open spec fn g_primary(src: Seq<u8>, ts: Seq<Tok>, i: int) -> Result<(ExprV, int), ErrV>
    decreases ts.len() - i, 4nat,
{
    if 0 <= i < ts.len() {
        let (lo, hi) = (ts[i].1, ts[i].2);
        match ts[i].0 {
            TokSpec::Int(v) => Ok((leaf(ts, i, KindV::Int(v, lo, hi)), adv(ts, i))),
            TokSpec::Duration(v) => Ok((leaf(ts, i, KindV::Duration(v, lo, hi)), adv(ts, i))),
            TokSpec::Str(b) => Ok((leaf(ts, i, KindV::Str(text_v(b), lo, hi)), adv(ts, i))),
            TokSpec::Ident => Ok((leaf(ts, i, KindV::Ident(text_v(src.subrange(lo, hi)), lo, hi)), adv(ts, i))),
            _ => if is_kw(ts, i, "true"@) {
                Ok((leaf(ts, i, KindV::Bool(true)), adv(ts, i)))
            } else if is_kw(ts, i, "false"@) {
                Ok((leaf(ts, i, KindV::Bool(false)), adv(ts, i)))
            } else if is_kw(ts, i, "present"@) || is_kw(ts, i, "absent"@) {
                let present = is_kw(ts, i, "present"@);
                match g_punct(ts, adv(ts, i), Punct::LParen, "(") {
                    Err(er) => Err(er),
                    Ok((_a, _b, j)) => match g_name(src, ts, j) {
                        Err(er) => Err(er),
                        Ok((name, nlo, nhi, k)) => match g_punct(ts, k, Punct::RParen, ")") {
                            Err(er) => Err(er),
                            Ok((_c, end, k2)) => {
                                let kind = if present {
                                    KindV::Present(name, nlo, nhi)
                                } else {
                                    KindV::Absent(name, nlo, nhi)
                                };
                                Ok((ExprV { kind, lo, hi: end }, k2))
                            },
                        },
                    },
                }
            } else if is_kw(ts, i, "event"@) {
                Ok((leaf(ts, i, KindV::Ident("event"@, lo, hi)), adv(ts, i)))
            } else if is_kw(ts, i, "Cause"@) {
                Ok((leaf(ts, i, KindV::Ident("Cause"@, lo, hi)), adv(ts, i)))
            } else if is_kw(ts, i, "Problem"@) {
                Ok((leaf(ts, i, KindV::Ident("Problem"@, lo, hi)), adv(ts, i)))
            } else if is_punct(ts, i, Punct::LParen) && i + 1 < ts.len() {
                match g_expr(src, ts, i + 1) {
                    Err(er) => Err(er),
                    Ok((e, k)) => if 0 <= k < ts.len() {
                        match g_punct(ts, k, Punct::RParen, ")") {
                            Err(er) => Err(er),
                            Ok((_a, _b, k2)) => Ok((e, k2)),
                        }
                    } else {
                        Err(unexpected(ts, i, ")"))
                    },
                }
            } else {
                Err(("ADGL0100", "expected expression primary"@, "literal | identifier | (expr)", lo, hi))
            },
        }
    } else {
        Err(unexpected(ts, i, "expression"))
    }
}

/// The stream the parser walks: the lexed tokens, with an end-of-input
/// token at byte `n` added when the last one is not already one.
pub open spec fn with_eof(ts: Seq<Tok>, n: int) -> Seq<Tok> {
    if ts.len() > 0 && ts.last().0 is Eof {
        ts
    } else {
        ts.push((TokSpec::Eof, n, n))
    }
}

/// Whether the result of an exec parse step matches the grammar's value:
/// the same tree ending at `idx`, or the same error.
pub open spec fn step_matches(r: Result<Expr, ParseErr>, idx: int, g: Result<(ExprV, int), ErrV>) -> bool {
    match g {
        Ok((v, j)) => r matches Ok(e) && expr_v(e) == v && idx == j,
        Err(ev) => r matches Err(e) && err_v(e) == ev,
    }
}

} // verus!
