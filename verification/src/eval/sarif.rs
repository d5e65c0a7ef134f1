//! Minimal SARIF 2.1.0 emission: `version`, `$schema`, one run whose tool
//! driver is `adgl`, and one result per problem that was not superseded.
use vstd::prelude::*;

use crate::eval::evidence::{redact_evidence_field_map, shown_value};
use crate::eval::extract::{ProblemView, Snapshot};
use crate::text::{hex_digits, push_char, push_hex, push_text};
use crate::types::{chars_of, scope_hash, CauseKind, ScopeId, ScopeType, Severity};

verus! {

/// The SARIF schema URL written into every document.
pub const SARIF_SCHEMA_URL: &'static str = "https://json.schemastore.org/sarif-2.1.0.json";

/// SARIF emission options.
#[derive(Debug, Clone, Copy, PartialEq, Eq, Structural)]
pub struct SarifOptions {
    /// When true, `[pii]` evidence fields are replaced with `"<redacted>"`.
    pub strict_privacy: bool,
}

impl Default for SarifOptions {
    fn default() -> (o: Self)
        ensures
            !o.strict_privacy,
    {
        SarifOptions { strict_privacy: false }
    }
}

impl SarifOptions {
    /// Strict-privacy options.
    pub fn strict() -> (o: Self)
        ensures
            o.strict_privacy,
    {
        SarifOptions { strict_privacy: true }
    }
}

/// The JSON escape of one character: `"` and `\` and the named control
/// characters get a backslash escape, other control characters a `\u00XX`
/// escape, everything else stands as it is.
pub open spec fn json_escape_char(c: char) -> Seq<char> {
    if c == '"' {
        seq!['\\', '"']
    } else if c == '\\' {
        seq!['\\', '\\']
    } else if c == '\u{08}' {
        seq!['\\', 'b']
    } else if c == '\u{0C}' {
        seq!['\\', 'f']
    } else if c == '\n' {
        seq!['\\', 'n']
    } else if c == '\r' {
        seq!['\\', 'r']
    } else if c == '\t' {
        seq!['\\', 't']
    } else if (c as u32) <= 0x1F {
        seq!['\\', 'u'] + hex_digits((c as u32) as nat, 4)
    } else {
        seq![c]
    }
}

/// The JSON escape of a character sequence.
pub open spec fn json_escape(s: Seq<char>) -> Seq<char>
    decreases s.len(),
{
    if s.len() == 0 {
        Seq::empty()
    } else {
        json_escape(s.drop_last()) + json_escape_char(s.last())
    }
}

/// A JSON string literal: quotes around the escaped characters.
pub open spec fn json_string(s: Seq<char>) -> Seq<char> {
    seq!['"'] + json_escape(s) + seq!['"']
}

/// Appends `s` as a JSON string literal.
pub fn push_json_string(out: &mut String, s: &str)
    ensures
        final(out)@ == old(out)@ + json_string(s@),
{
    let cs = chars_of(s);
    push_char(out, '"');
    let ghost start = out@;
    let mut i: usize = 0;
    while i < cs.len()
        invariant
            0 <= i <= cs@.len(),
            cs@ == s@,
            out@ == start + json_escape(cs@.take(i as int)),
        decreases cs@.len() - i,
    {
        let ch = cs[i];
        let ghost before = out@;
        if ch == '"' {
            push_char(out, '\\');
            push_char(out, '"');
        } else if ch == '\\' {
            push_char(out, '\\');
            push_char(out, '\\');
        } else if ch == '\u{08}' {
            push_char(out, '\\');
            push_char(out, 'b');
        } else if ch == '\u{0C}' {
            push_char(out, '\\');
            push_char(out, 'f');
        } else if ch == '\n' {
            push_char(out, '\\');
            push_char(out, 'n');
        } else if ch == '\r' {
            push_char(out, '\\');
            push_char(out, 'r');
        } else if ch == '\t' {
            push_char(out, '\\');
            push_char(out, 't');
        } else if (ch as u32) <= 0x1F {
            push_char(out, '\\');
            push_char(out, 'u');
            push_hex(out, (ch as u32) as u64, 4);
        } else {
            push_char(out, ch);
        }
        proof {
            assert(out@ =~= before + json_escape_char(ch));
            assert(cs@.take(i + 1).drop_last() =~= cs@.take(i as int));
            assert(cs@.take(i + 1).last() == ch);
        }
        i = i + 1;
    }
    push_char(out, '"');
    proof {
        assert(cs@.take(cs@.len() as int) =~= cs@);
        assert(out@ =~= old(out)@ + json_string(s@));
    }
}

/// The SARIF level of a severity.
pub open spec fn sarif_level_spec(severity: Severity) -> &'static str {
    match severity {
        Severity::Critical | Severity::High => "error",
        Severity::Medium | Severity::Low => "warning",
        Severity::Recommended | Severity::Optional => "note",
    }
}

/// The SARIF level of a severity: `error`, `warning` or `note`.
pub fn sarif_level(severity: Severity) -> (r: &'static str)
    ensures
        r == sarif_level_spec(severity),
{
    match severity {
        Severity::Critical | Severity::High => "error",
        Severity::Medium | Severity::Low => "warning",
        Severity::Recommended | Severity::Optional => "note",
    }
}

/// The lower-case name of a scope type.
pub open spec fn scope_type_name_spec(scope: ScopeType) -> &'static str {
    match scope {
        ScopeType::Session => "session",
        ScopeType::Port => "port",
        ScopeType::ClientMac => "client_mac",
        ScopeType::Vlan => "vlan",
        ScopeType::AccessPoint => "access_point",
        ScopeType::Global => "global",
    }
}

/// The lower-case name of a scope type.
pub fn scope_type_name(scope: ScopeType) -> (r: &'static str)
    ensures
        r == scope_type_name_spec(scope),
{
    match scope {
        ScopeType::Session => "session",
        ScopeType::Port => "port",
        ScopeType::ClientMac => "client_mac",
        ScopeType::Vlan => "vlan",
        ScopeType::AccessPoint => "access_point",
        ScopeType::Global => "global",
    }
}

/// `"<kind> detected in <scope> scope"`.
pub open spec fn result_message_spec(kind: Seq<char>, scope: ScopeType) -> Seq<char> {
    kind + " detected in "@ + scope_type_name_spec(scope)@ + " scope"@
}

fn result_message(kind: &str, scope: ScopeType) -> (r: String)
    ensures
        r@ == result_message_spec(kind@, scope),
{
    let mut r = String::new();
    push_text(&mut r, kind);
    push_text(&mut r, " detected in ");
    push_text(&mut r, scope_type_name(scope));
    push_text(&mut r, " scope");
    proof {
        assert(r@ =~= result_message_spec(kind@, scope));
    }
    r
}

/// `<scope name>:<16 lower-case hex digits of the scope's hash key>`.
pub open spec fn fingerprint_spec(scope: ScopeId) -> Seq<char> {
    scope_type_name_spec(scope.kind)@ + seq![':'] + hex_digits(scope_hash(scope) as nat, 16)
}

fn fingerprint_target(scope: ScopeId) -> (r: String)
    ensures
        r@ == fingerprint_spec(scope),
{
    let mut r = String::new();
    push_text(&mut r, scope_type_name(scope.scope_type()));
    push_char(&mut r, ':');
    push_hex(&mut r, scope.hash_key(), 16);
    proof {
        assert(r@ =~= fingerprint_spec(scope));
    }
    r
}

/// Comma-separated JSON strings.
pub open spec fn json_string_list(s: Seq<Seq<char>>) -> Seq<char>
    decreases s.len(),
{
    if s.len() == 0 {
        Seq::empty()
    } else if s.len() == 1 {
        json_string(s[0])
    } else {
        json_string_list(s.drop_last()) + seq![','] + json_string(s.last())
    }
}

/// The members `"name":"value"` of an evidence object, comma-separated.
pub open spec fn evidence_members(fields: Seq<(Seq<char>, Seq<char>)>) -> Seq<char>
    decreases fields.len(),
{
    if fields.len() == 0 {
        Seq::empty()
    } else {
        let m = json_string(fields.last().0) + seq![':'] + json_string(fields.last().1);
        if fields.len() == 1 {
            m
        } else {
            evidence_members(fields.drop_last()) + seq![','] + m
        }
    }
}

/// The evidence entries as shown under `options`.
pub open spec fn shown_fields(fields: Seq<(String, String)>, options: SarifOptions) -> Seq<(Seq<char>, Seq<char>)> {
    Seq::new(
        fields.len(),
        |k: int| (fields[k].0@, shown_value(fields[k].0@, fields[k].1@, options.strict_privacy)),
    )
}

/// The evidence object: its (possibly redacted) members in braces.
pub open spec fn evidence_object(fields: Seq<(String, String)>, options: SarifOptions) -> Seq<char> {
    seq!['{'] + evidence_members(shown_fields(fields, options)) + seq!['}']
}

fn write_evidence_object(out: &mut String, fields: &Vec<(String, String)>, options: SarifOptions)
    ensures
        final(out)@ == old(out)@ + evidence_object(fields@, options),
{
    let rendered = redact_evidence_field_map(fields, options.strict_privacy);
    let ghost shown = shown_fields(fields@, options);
    push_char(out, '{');
    let ghost start = out@;
    let mut i: usize = 0;
    while i < rendered.len()
        invariant
            0 <= i <= rendered@.len(),
            rendered@.len() == fields@.len(),
            shown == shown_fields(fields@, options),
            forall|k: int|
                0 <= k < rendered@.len() ==> (#[trigger] rendered@[k]).0@ == shown[k].0 && rendered@[k].1@
                    == shown[k].1,
            out@ == start + evidence_members(shown.take(i as int)),
        decreases rendered@.len() - i,
    {
        let ghost before = out@;
        if i > 0 {
            push_char(out, ',');
        }
        push_json_string(out, rendered[i].0.as_str());
        push_char(out, ':');
        push_json_string(out, rendered[i].1.as_str());
        proof {
            let t = shown.take(i + 1);
            assert(t.drop_last() =~= shown.take(i as int));
            assert(t.last() == shown[i as int]);
            assert(rendered@[i as int].0@ == shown[i as int].0);
            if i == 0 {
                assert(out@ =~= start + evidence_members(t));
            } else {
                assert(out@ =~= start + evidence_members(t));
            }
        }
        i = i + 1;
    }
    push_char(out, '}');
    proof {
        assert(shown.take(rendered@.len() as int) =~= shown);
        assert(out@ =~= old(out)@ + evidence_object(fields@, options));
    }
}

/// The cause kinds' texts.
pub open spec fn kind_texts(kinds: Seq<CauseKind>) -> Seq<Seq<char>> {
    Seq::new(kinds.len(), |k: int| kinds[k]@)
}

/// The head of a result: rule id, level and message members.
pub open spec fn result_head(p: ProblemView) -> Seq<char> {
    "\"ruleId\":"@ + json_string(p.sarif_id@) + seq![','] + "\"level\":"@ + json_string(
        sarif_level_spec(p.severity)@,
    ) + seq![','] + "\"message\":{\"text\":"@ + json_string(result_message_spec(p.kind@, p.scope.kind))
        + "},"@
}

/// The partial fingerprints of a result: scope, target and cause kinds.
pub open spec fn result_fingerprints(p: ProblemView) -> Seq<char> {
    "\"partialFingerprints\":{"@ + "\"scope\":"@ + json_string(scope_type_name_spec(p.scope.kind)@) + seq![
        ',',
    ] + "\"target\":"@ + json_string(fingerprint_spec(p.target)) + seq![','] + "\"causes\":["@
        + json_string_list(kind_texts(p.cause_kinds@)) + "]}"@
}

/// The evidence properties of a result, present when it has evidence.
pub open spec fn result_properties(p: ProblemView, options: SarifOptions) -> Seq<char> {
    if p.evidence_fields@.len() == 0 {
        Seq::empty()
    } else {
        seq![','] + "\"properties\":{\"evidence\":"@ + evidence_object(p.evidence_fields@, options) + seq!['}']
    }
}

proof fn lemma_result_nonempty(p: ProblemView, options: SarifOptions)
    ensures
        result_json(p, options).len() > 0,
{
    reveal(result_json);
}

/// The SARIF result object of one problem.
#[verifier::opaque]
pub open spec fn result_json(p: ProblemView, options: SarifOptions) -> Seq<char> {
    seq!['{'] + result_head(p) + result_fingerprints(p) + result_properties(p, options) + seq!['}']
}

fn write_causes(out: &mut String, kinds: &Vec<CauseKind>)
    ensures
        final(out)@ == old(out)@ + json_string_list(kind_texts(kinds@)),
{
    let ghost start = out@;
    let ghost texts = kind_texts(kinds@);
    let mut i: usize = 0;
    while i < kinds.len()
        invariant
            0 <= i <= kinds@.len(),
            texts == kind_texts(kinds@),
            out@ == start + json_string_list(texts.take(i as int)),
        decreases kinds@.len() - i,
    {
        let ghost before = out@;
        if i > 0 {
            push_char(out, ',');
        }
        push_json_string(out, kinds[i].as_str());
        proof {
            let t = texts.take(i + 1);
            assert(t.drop_last() =~= texts.take(i as int));
            assert(t.last() == kinds@[i as int]@);
            assert(out@ =~= start + json_string_list(t));
        }
        i = i + 1;
    }
    proof {
        assert(texts.take(kinds@.len() as int) =~= texts);
    }
}

fn write_result_head(out: &mut String, problem: &ProblemView)
    ensures
        final(out)@ == old(out)@ + result_head(*problem),
{
    push_text(out, "\"ruleId\":");
    push_json_string(out, problem.sarif_id.as_str());
    push_char(out, ',');
    push_text(out, "\"level\":");
    push_json_string(out, sarif_level(problem.severity));
    push_char(out, ',');
    push_text(out, "\"message\":{\"text\":");
    let message = result_message(problem.kind.as_str(), problem.scope.scope_type());
    push_json_string(out, message.as_str());
    push_text(out, "},");
    proof {
        assert(out@ =~= old(out)@ + result_head(*problem));
    }
}

fn write_result_fingerprints(out: &mut String, problem: &ProblemView)
    ensures
        final(out)@ == old(out)@ + result_fingerprints(*problem),
{
    push_text(out, "\"partialFingerprints\":{");
    push_text(out, "\"scope\":");
    push_json_string(out, scope_type_name(problem.scope.scope_type()));
    push_char(out, ',');
    push_text(out, "\"target\":");
    let target = fingerprint_target(problem.target);
    push_json_string(out, target.as_str());
    push_char(out, ',');
    push_text(out, "\"causes\":[");
    write_causes(out, &problem.cause_kinds);
    push_text(out, "]}");
    proof {
        assert(out@ =~= old(out)@ + result_fingerprints(*problem));
    }
}

fn write_result(out: &mut String, problem: &ProblemView, options: SarifOptions)
    ensures
        final(out)@ == old(out)@ + result_json(*problem, options),
{
    push_char(out, '{');
    write_result_head(out, problem);
    write_result_fingerprints(out, problem);
    let ghost mid = out@;
    if problem.evidence_fields.len() > 0 {
        push_char(out, ',');
        push_text(out, "\"properties\":{\"evidence\":");
        write_evidence_object(out, &problem.evidence_fields, options);
        push_char(out, '}');
    }
    push_char(out, '}');
    proof {
        reveal(result_json);
        assert(out@ =~= old(out)@ + result_json(*problem, options));
    }
}

/// The comma-separated result objects of the problems that were not
/// superseded.
pub open spec fn results_json(ps: Seq<ProblemView>, options: SarifOptions) -> Seq<char>
    decreases ps.len(),
{
    if ps.len() == 0 {
        Seq::empty()
    } else {
        let prev = results_json(ps.drop_last(), options);
        if ps.last().superseded {
            prev
        } else if prev.len() == 0 {
            result_json(ps.last(), options)
        } else {
            prev + seq![','] + result_json(ps.last(), options)
        }
    }
}

/// The whole SARIF document of a snapshot.
pub open spec fn sarif_doc(s: Snapshot, options: SarifOptions) -> Seq<char> {
    seq!['{'] + "\"version\":\"2.1.0\","@ + "\"$schema\":"@ + json_string(SARIF_SCHEMA_URL@) + seq![',']
        + "\"runs\":[{\"tool\":{\"driver\":{\"name\":\"adgl\"}},\"results\":["@ + results_json(
        s.problems@,
        options,
    ) + "]}]}"@
}

/// Renders a snapshot as a SARIF JSON document under `options`.
pub fn to_sarif_with_options(snapshot: &Snapshot, options: SarifOptions) -> (r: String)
    ensures
        r@ == sarif_doc(*snapshot, options),
{
    let mut out = String::new();
    push_char(&mut out, '{');
    push_text(&mut out, "\"version\":\"2.1.0\",");
    push_text(&mut out, "\"$schema\":");
    push_json_string(&mut out, SARIF_SCHEMA_URL);
    push_char(&mut out, ',');
    push_text(&mut out, "\"runs\":[{\"tool\":{\"driver\":{\"name\":\"adgl\"}},\"results\":[");
    let ghost start = out@;
    let ps = &snapshot.problems;
    let mut first = true;
    let mut i: usize = 0;
    while i < ps.len()
        invariant
            0 <= i <= ps@.len(),
            out@ == start + results_json(ps@.take(i as int), options),
            first == (results_json(ps@.take(i as int), options).len() == 0),
        decreases ps@.len() - i,
    {
        let ghost t = ps@.take(i + 1);
        proof {
            assert(t.drop_last() =~= ps@.take(i as int));
            assert(t.last() == ps@[i as int]);
        }
        if !ps[i].superseded {
            if !first {
                push_char(&mut out, ',');
            }
            first = false;
            write_result(&mut out, &ps[i], options);
            proof {
                lemma_result_nonempty(ps@[i as int], options);
                assert(out@ =~= start + results_json(t, options));
            }
        }
        i = i + 1;
    }
    push_text(&mut out, "]}]}");
    proof {
        assert(ps@.take(ps@.len() as int) =~= ps@);
        assert(out@ =~= sarif_doc(*snapshot, options));
    }
    out
}

/// Renders a snapshot as a SARIF JSON document with default (non-strict)
/// privacy.
pub fn to_sarif(snapshot: &Snapshot) -> (r: String)
    ensures
        r@ == sarif_doc(*snapshot, SarifOptions { strict_privacy: false }),
{
    to_sarif_with_options(snapshot, SarifOptions { strict_privacy: false })
}

} // verus!
