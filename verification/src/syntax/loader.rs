//! Composition of a ruleset from an entry file and the files its leading
//! path directives name: the rules of imported files are spliced ahead of
//! the entry's own rules. Reading files is the caller's part; this module
//! holds the text composition, cycle detection and the loaded result.
use vstd::prelude::*;
use vstd::string::{StrSliceExecFns, StringSliceAdditionalSpecFns};

use crate::syntax::ast::{RuleDecl, Ruleset, Span};
use crate::syntax::diag::{DiagBuffer, Diagnostic};
use crate::syntax::parser::{parse_ruleset, parses_as};
use crate::syntax::ruleset_grammar::{g_ruleset, rule_decl_v, rules_v, ruleset_v, RuleDeclV, RulesetV};
use crate::syntax::lexer::tokens_from;
use crate::syntax::grammar::with_eof;
use crate::text::{push_char, push_text, utf8_text};
use crate::types::text_eq;

verus! {

/// A ruleset source after directive expansion.
#[derive(Debug, Clone, PartialEq, Eq)]
pub struct LoadedRuleset {
    /// Canonical path of the entry file.
    pub entry: String,
    /// Files visited during expansion (canonical), entry first.
    pub files: Vec<String>,
    /// The single composed source (no path directives).
    pub source: String,
}

impl LoadedRuleset {
    /// Parses the composed source.
    pub fn parse(&self) -> (r: Result<Ruleset, DiagBuffer>)
        ensures
            crate::syntax::parser::parses_as(vstd::utf8::encode_utf8(self.source@), r),
    {
        let src = self.source.as_str();
        proof {
            assert(src.spec_bytes() == vstd::utf8::encode_utf8(self.source@));
        }
        parse_ruleset(src)
    }
}

/// The view of the tree the grammar makes of `body`, if it accepts it
/// (within the size limit and free of lexical errors).
pub open spec fn parsed_view(body: Seq<u8>) -> Option<RulesetV> {
    if body.len() > 4 * 1024 * 1024 {
        None
    } else {
        match tokens_from(body, 0, 0) {
            Err(_) => None,
            Ok(ts) => match g_ruleset(body, with_eof(ts, body.len() as int), 0) {
                Ok((v, _k)) => Some(v),
                Err(_) => None,
            },
        }
    }
}

proof fn lemma_parse_result(body: Seq<u8>, r: Result<Ruleset, DiagBuffer>)
    requires
        parses_as(body, r),
    ensures
        r is Ok <==> parsed_view(body) is Some,
        r matches Ok(a) ==> parsed_view(body) == Some(ruleset_v(a)),
        r matches Err(b) ==> b@.len() > 0,
{
}

/// The source span of a rule.
pub open spec fn rule_v_span(r: RuleDeclV) -> (int, int) {
    match r {
        RuleDeclV::Evidence(v) => (v.lo, v.hi),
        RuleDeclV::Decision(v) => (v.lo, v.hi),
    }
}

/// Every rule span is ordered and lies in `body`.
pub open spec fn spans_fit(body: Seq<u8>, rs: Seq<RuleDeclV>) -> bool {
    forall|i: int|
        0 <= i < rs.len() ==> 0 <= (#[trigger] rule_v_span(rs[i])).0 <= rule_v_span(rs[i]).1 <= body.len()
}

/// The start of `body[a..b]` after its leading whitespace.
pub open spec fn trim_from(body: Seq<u8>, a: int, b: int) -> int
    decreases b - a,
{
    if a < b && trim_blank_byte(body[a]) {
        trim_from(body, a + 1, b)
    } else {
        a
    }
}

/// The end of `body[a..b]` before its trailing whitespace.
pub open spec fn trim_to(body: Seq<u8>, a: int, b: int) -> int
    decreases b - a,
{
    if b > a && trim_blank_byte(body[b - 1]) {
        trim_to(body, a, b - 1)
    } else {
        b
    }
}

/// The trimmed byte range of each rule, in order.
pub open spec fn trimmed_rule_ranges(body: Seq<u8>, rs: Seq<RuleDeclV>) -> Seq<(int, int)>
    decreases rs.len(),
{
    if rs.len() == 0 {
        Seq::empty()
    } else {
        let (lo, hi) = rule_v_span(rs.last());
        let a = trim_from(body, lo, hi);
        trimmed_rule_ranges(body, rs.drop_last()).push((a, trim_to(body, a, hi)))
    }
}

/// Where imported rules go into the entry: the start of its first rule,
/// or, without rules, the closing `}` of the ruleset; `None` where the
/// tree's spans do not fit the text.
pub open spec fn splice_point(body: Seq<u8>, v: RulesetV) -> Option<int> {
    if v.rules.len() > 0 {
        let k = rule_v_span(v.rules[0]).0;
        if 0 <= k <= body.len() {
            Some(k)
        } else {
            None
        }
    } else if v.hi <= 0 {
        None
    } else {
        let c = v.hi - 1;
        if c < body.len() && body[c] == 125u8 {
            Some(c)
        } else {
            None
        }
    }
}

fn one_diag(code: &'static str, message: &str, span: Span) -> (b: DiagBuffer)
    ensures
        b@.len() == 1 && b@[0].code == code,
{
    let mut buf = DiagBuffer::new();
    buf.push(Diagnostic::error(code, message.to_owned(), span));
    buf
}

/// ASCII whitespace as `str::trim` sees it in rule text.
pub open spec fn trim_blank_byte(b: u8) -> bool {
    b == 32 || b == 9 || b == 10 || b == 13 || b == 11 || b == 12
}

fn is_blank(b: u8) -> (r: bool)
    ensures
        r == trim_blank_byte(b),
{
    b == 32 || b == 9 || b == 10 || b == 13 || b == 11 || b == 12
}

/// The byte ranges `parts` of `body`, each followed by a line feed.
pub open spec fn joined_lines(body: Seq<u8>, parts: Seq<(int, int)>) -> Seq<u8>
    decreases parts.len(),
{
    if parts.len() == 0 {
        Seq::empty()
    } else {
        joined_lines(body, parts.drop_last()) + body.subrange(parts.last().0, parts.last().1).push(10u8)
    }
}

/// `imported` spliced into `body` at byte `k`, a line feed put after the
/// head and after the imported text where they do not already end with
/// one.
pub open spec fn spliced(body: Seq<u8>, imported: Seq<u8>, k: int) -> Seq<u8> {
    let head = body.take(k);
    let head_nl = if head.len() == 0 || head.last() != 10u8 {
        head.push(10u8)
    } else {
        head
    };
    let mid = head_nl + imported;
    let mid_nl = if mid.last() != 10u8 {
        mid.push(10u8)
    } else {
        mid
    };
    mid_nl + body.skip(k)
}

/// The string of `bytes` where they are UTF-8.
pub open spec fn text_of_bytes(s: Seq<char>, bytes: Seq<u8>) -> bool {
    vstd::utf8::valid_utf8(bytes) ==> s == vstd::utf8::decode_utf8(bytes)
}

/// Copies `s[start..end]` onto `out`.
fn push_bytes(out: &mut Vec<u8>, s: &[u8], start: usize, end: usize)
    requires
        start <= end <= s@.len(),
    ensures
        final(out)@ == old(out)@ + s@.subrange(start as int, end as int),
{
    let mut i = start;
    while i < end
        invariant
            start <= i <= end <= s@.len(),
            out@ == old(out)@ + s@.subrange(start as int, i as int),
        decreases end - i,
    {
        out.push(s[i]);
        proof {
            assert(out@ =~= old(out)@ + s@.subrange(start as int, i + 1));
        }
        i = i + 1;
    }
}

fn rule_span(rule: &RuleDecl) -> (s: Span)
    ensures
        s == match *rule {
            RuleDecl::Evidence(e) => e.span,
            RuleDecl::Decision(d) => d.span,
        },
{
    match rule {
        RuleDecl::Evidence(e) => e.span,
        RuleDecl::Decision(d) => d.span,
    }
}

/// The source text of every rule of `body`, trimmed, one per line, in
/// declaration order; the parse diagnostics when `body` does not parse.
pub fn rules_text_from_body(body: &str) -> (r: Result<String, DiagBuffer>)
    ensures
        match parsed_view(body.spec_bytes()) {
            None => r matches Err(b) && b@.len() > 0,
            Some(v) => if spans_fit(body.spec_bytes(), v.rules) {
                r matches Ok(s) && text_of_bytes(
                    s@,
                    joined_lines(body.spec_bytes(), trimmed_rule_ranges(body.spec_bytes(), v.rules)),
                )
            } else {
                r matches Err(b) && b@.len() == 1 && b@[0].code == "ADGL0203"
            },
        },
{
    let parsed = parse_ruleset(body);
    proof {
        lemma_parse_result(body.spec_bytes(), parsed);
    }
    let ast = parsed?;
    let bytes = body.as_bytes();
    proof {
        lemma_decl_ranges(bytes@, ast.rules@);
    }
    match rule_lines(bytes, &ast.rules) {
        Some(out) => Ok(utf8_text(out)),
        None => Err(one_diag("ADGL0203", "internal error: rule span out of bounds while expanding directives", Span::new(0, 0))),
    }
}

/// The trimmed text of each rule of `rules`, one per line; `None` where a
/// rule's span does not fit `bytes`.
fn rule_lines(bytes: &[u8], rules: &Vec<RuleDecl>) -> (r: Option<Vec<u8>>)
    ensures
        decl_spans_fit(bytes@, rules@) ==> (r matches Some(out) && out@ == joined_lines(
            bytes@,
            trimmed_decl_ranges(bytes@, rules@),
        )),
        !decl_spans_fit(bytes@, rules@) ==> r is None,
{
    let mut out: Vec<u8> = Vec::new();
    let mut i: usize = 0;
    while i < rules.len()
        invariant
            0 <= i <= rules@.len(),
            decl_spans_fit(bytes@, rules@.take(i as int)),
            out@ == joined_lines(bytes@, trimmed_decl_ranges(bytes@, rules@.take(i as int))),
        decreases rules@.len() - i,
    {
        let span = rule_span(&rules[i]);
        if span.end > bytes.len() || span.start > span.end {
            proof {
                assert(decl_span(rules@[i as int]) == (span.start as int, span.end as int));
            }
            return None;
        }
        let mut a = span.start;
        let mut b = span.end;
        while a < b && is_blank(bytes[a])
            invariant
                span.start <= a <= b <= span.end <= bytes@.len(),
                b == span.end,
                trim_from(bytes@, a as int, b as int) == trim_from(bytes@, span.start as int, span.end as int),
            decreases b - a,
        {
            a = a + 1;
        }
        let ghost a0 = a;
        while b > a && is_blank(bytes[b - 1])
            invariant
                span.start <= a <= b <= span.end <= bytes@.len(),
                a == a0,
                trim_to(bytes@, a as int, b as int) == trim_to(bytes@, a as int, span.end as int),
            decreases b - a,
        {
            b = b - 1;
        }
        let ghost before = out@;
        push_bytes(&mut out, bytes, a, b);
        out.push(10u8);
        proof {
            let t0 = rules@.take(i as int);
            let t1 = rules@.take(i + 1);
            assert(t1.drop_last() =~= t0);
            assert(t1.last() == rules@[i as int]);
            assert(decl_span(t1.last()) == (span.start as int, span.end as int));
            let p0 = trimmed_decl_ranges(bytes@, t0);
            let p1 = trimmed_decl_ranges(bytes@, t1);
            assert(p1 == p0.push((a as int, b as int)));
            assert(p1.drop_last() =~= p0);
            assert(p1.last() == (a as int, b as int));
            assert(before == joined_lines(bytes@, p0));
            assert(joined_lines(bytes@, p1) == joined_lines(bytes@, p0) + bytes@.subrange(a as int, b as int).push(10u8));
            assert(out@ =~= joined_lines(bytes@, p1));
            assert forall|k: int| 0 <= k < t1.len() implies 0 <= (#[trigger] decl_span(t1[k])).0 <= decl_span(t1[k]).1
                <= bytes@.len() by {
                if k < i {
                    assert(t1[k] == t0[k]);
                }
            }
        }
        i = i + 1;
    }
    proof {
        assert(rules@.take(rules@.len() as int) =~= rules@);
    }
    Some(out)
}

/// The source span of a parsed rule.
pub open spec fn decl_span(r: RuleDecl) -> (int, int) {
    match r {
        RuleDecl::Evidence(e) => (e.span.start as int, e.span.end as int),
        RuleDecl::Decision(d) => (d.span.start as int, d.span.end as int),
    }
}

/// [`spans_fit`] over parsed rules.
pub open spec fn decl_spans_fit(body: Seq<u8>, rs: Seq<RuleDecl>) -> bool {
    forall|i: int| 0 <= i < rs.len() ==> 0 <= (#[trigger] decl_span(rs[i])).0 <= decl_span(rs[i]).1 <= body.len()
}

/// [`trimmed_rule_ranges`] over parsed rules.
pub open spec fn trimmed_decl_ranges(body: Seq<u8>, rs: Seq<RuleDecl>) -> Seq<(int, int)>
    decreases rs.len(),
{
    if rs.len() == 0 {
        Seq::empty()
    } else {
        let (lo, hi) = decl_span(rs.last());
        let a = trim_from(body, lo, hi);
        trimmed_decl_ranges(body, rs.drop_last()).push((a, trim_to(body, a, hi)))
    }
}

proof fn lemma_decl_ranges(body: Seq<u8>, rs: Seq<RuleDecl>)
    ensures
        trimmed_rule_ranges(body, rules_v(rs)) == trimmed_decl_ranges(body, rs),
        spans_fit(body, rules_v(rs)) == decl_spans_fit(body, rs),
    decreases rs.len(),
{
    assert forall|i: int| 0 <= i < rs.len() implies #[trigger] rule_v_span(rules_v(rs)[i]) == decl_span(rs[i]) by {
        assert(rules_v(rs)[i] == rule_decl_v(rs[i]));
    }
    if rs.len() > 0 {
        lemma_decl_ranges(body, rs.drop_last());
        assert(rules_v(rs).drop_last() =~= rules_v(rs.drop_last()));
        assert(rules_v(rs).last() == rule_decl_v(rs.last()));
    }
    if spans_fit(body, rules_v(rs)) {
        assert forall|i: int| 0 <= i < rs.len() implies 0 <= (#[trigger] decl_span(rs[i])).0 <= decl_span(rs[i]).1
            <= body.len() by {
            assert(rule_v_span(rules_v(rs)[i]) == decl_span(rs[i]));
        }
    }
    if decl_spans_fit(body, rs) {
        assert forall|i: int| 0 <= i < rules_v(rs).len() implies 0 <= (#[trigger] rule_v_span(rules_v(rs)[i])).0
            <= rule_v_span(rules_v(rs)[i]).1 <= body.len() by {
            assert(rule_v_span(rules_v(rs)[i]) == decl_span(rs[i]));
        }
    }
}

/// Splices `imported_rules` into the entry `body`: after the header,
/// ahead of the entry's first rule (or before the closing `}` of a ruleset
/// without rules), each part ending with a line feed. With nothing
/// imported the body is returned unchanged.
pub fn compose_entry(body: &str, imported_rules: &str) -> (r: Result<String, DiagBuffer>)
    ensures
        imported_rules@.len() == 0 ==> (r matches Ok(s) && s@ == body@),
        imported_rules@.len() > 0 ==> match parsed_view(body.spec_bytes()) {
            None => r matches Err(b) && b@.len() > 0,
            Some(v) => match splice_point(body.spec_bytes(), v) {
                Some(k) => r matches Ok(s) && text_of_bytes(
                    s@,
                    spliced(body.spec_bytes(), imported_rules.spec_bytes(), k),
                ),
                None => r matches Err(b) && b@.len() == 1 && b@[0].code == "ADGL0203",
            },
        },
{
    if imported_rules.is_empty() {
        return Ok(body.to_owned());
    }
    let parsed = parse_ruleset(body);
    proof {
        lemma_parse_result(body.spec_bytes(), parsed);
    }
    let ast = parsed?;
    proof {
        if ast.rules@.len() > 0 {
            assert(rules_v(ast.rules@)[0] == rule_decl_v(ast.rules@[0]));
        }
    }
    let bytes = body.as_bytes();
    let insert_at = if ast.rules.len() > 0 {
        rule_span(&ast.rules[0]).start
    } else {
        if ast.span.end == 0 {
            return Err(one_diag("ADGL0203", "internal error: empty ruleset span while composing", Span::new(0, 0)));
        }
        let close = ast.span.end - 1;
        if close >= bytes.len() || bytes[close] != 125u8 {
            let hi = if close < bytes.len() {
                close + 1
            } else {
                bytes.len()
            };
            return Err(one_diag("ADGL0203", "internal error: ruleset span does not end at '}' while composing", Span::new(close, hi)));
        }
        close
    };
    if insert_at > bytes.len() {
        return Err(one_diag("ADGL0203", "internal error: rule span out of bounds while composing", Span::new(0, 0)));
    }
    let imp = imported_rules.as_bytes();
    let mut out: Vec<u8> = Vec::new();
    push_bytes(&mut out, bytes, 0, insert_at);
    if out.len() == 0 || out[out.len() - 1] != 10u8 {
        out.push(10u8);
    }
    push_bytes(&mut out, imp, 0, imp.len());
    if out[out.len() - 1] != 10u8 {
        out.push(10u8);
    }
    push_bytes(&mut out, bytes, insert_at, bytes.len());
    proof {
        assert(bytes@.subrange(0, insert_at as int) =~= bytes@.take(insert_at as int));
        assert(bytes@.subrange(insert_at as int, bytes@.len() as int) =~= bytes@.skip(insert_at as int));
        assert(imp@.subrange(0, imp@.len() as int) =~= imp@);
        assert(out@ =~= spliced(bytes@, imp@, insert_at as int));
    }
    let s = utf8_text(out);
    assert(text_of_bytes(s@, spliced(body.spec_bytes(), imported_rules.spec_bytes(), insert_at as int)));
    Ok(s)
}

/// `t` with a line feed added where it is not empty and does not already
/// end with one.
pub open spec fn line_terminated(t: Seq<char>) -> Seq<char> {
    if t.len() > 0 && t.last() != '\n' {
        t.push('\n')
    } else {
        t
    }
}

/// Adds what one expanded child file brings to the text imported so far:
/// the rules the child itself imported, then the child's own rules, the
/// whole kept line terminated.
pub fn append_imported(acc: &mut String, child_imported: &str, child_rules: &str)
    ensures
        final(acc)@ == line_terminated(old(acc)@ + child_imported@ + child_rules@),
{
    push_text(acc, child_imported);
    push_text(acc, child_rules);
    let n = acc.as_str().unicode_len();
    if n > 0 && acc.as_str().get_char(n - 1) != '\n' {
        push_char(acc, '\n');
    }
}

/// Where `canon` already stands on the expansion stack: the start of a
/// directive cycle.
pub fn cycle_start(stack: &Vec<String>, canon: &str) -> (r: Option<usize>)
    ensures
        match r {
            Some(i) => i < stack@.len() && stack@[i as int]@ == canon@ && forall|j: int|
                0 <= j < i ==> stack@[j]@ != canon@,
            None => forall|j: int| 0 <= j < stack@.len() ==> stack@[j]@ != canon@,
        },
{
    let mut i: usize = 0;
    while i < stack.len()
        invariant
            0 <= i <= stack@.len(),
            forall|j: int| 0 <= j < i ==> stack@[j]@ != canon@,
        decreases stack@.len() - i,
    {
        if text_eq(stack[i].as_str(), canon) {
            return Some(i);
        }
        i = i + 1;
    }
    None
}

/// The chain of a directive cycle joined by ` -> `.
pub open spec fn chain_text(names: Seq<String>) -> Seq<char>
    decreases names.len(),
{
    if names.len() == 0 {
        Seq::empty()
    } else if names.len() == 1 {
        names[0]@
    } else {
        chain_text(names.drop_last()) + " -> "@ + names.last()@
    }
}

/// `ADGL0200`: the directive cycle through `names` (the repeated file
/// last).
pub fn cycle_diagnostic(names: &Vec<String>) -> (b: DiagBuffer)
    ensures
        b@.len() == 1,
        b@[0].code == "ADGL0200",
        b@[0].message@ == "directive cycle detected: "@ + chain_text(names@),
{
    let mut m = "directive cycle detected: ".to_owned();
    let ghost start = m@;
    let mut i: usize = 0;
    while i < names.len()
        invariant
            0 <= i <= names@.len(),
            m@ == start + chain_text(names@.take(i as int)),
        decreases names@.len() - i,
    {
        if i > 0 {
            push_text(&mut m, " -> ");
        }
        push_text(&mut m, names[i].as_str());
        proof {
            let t = names@.take(i + 1);
            assert(t.drop_last() =~= names@.take(i as int));
            assert(t.last() == names@[i as int]);
            assert(m@ =~= start + chain_text(t));
        }
        i = i + 1;
    }
    proof {
        assert(names@.take(names@.len() as int) =~= names@);
    }
    let mut buf = DiagBuffer::new();
    buf.push(Diagnostic::error("ADGL0200", m, Span::new(0, 0)));
    buf
}

} // verus!
