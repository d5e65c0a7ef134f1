use airpulse_dsl::syntax::ast::{BinaryOp, ExprKind, RuleDecl, UnaryOp, Expr};
use airpulse_dsl::syntax::diag::DiagBuffer;
use airpulse_dsl::syntax::parser::{parse_expression, parse_ruleset, parse_ruleset_fail_fast};

fn parse_ok(src: &str) -> Expr {
    parse_expression(src).unwrap_or_else(|buf| panic!("expr parse failed: {}", buf.render(src, "expr")))
}

fn has_code(b: &DiagBuffer, code: &str) -> bool {
    b.diagnostics().iter().any(|d| d.code == code)
}

#[test]
fn multiplicative_binds_tighter_than_additive() {
    let expr = parse_ok("1 + 2 * 3");
    match expr.kind {
        ExprKind::Binary { op: BinaryOp::Add, left: _, right } => match right.kind {
            ExprKind::Binary { op: BinaryOp::Mul, .. } => {}
            _ => panic!("expected mul on right side"),
        },
        _ => panic!("expected additive root"),
    }
}

#[test]
fn unary_binds_tighter_than_comparison() {
    let expr = parse_ok("not present(x) == false");
    match expr.kind {
        ExprKind::Binary { op: BinaryOp::Eq, left, .. } => match left.kind {
            ExprKind::Unary { op: UnaryOp::Not, .. } => {}
            _ => panic!("expected unary not on lhs"),
        },
        _ => panic!("expected equality root"),
    }
}

#[test]
fn and_binds_tighter_than_or() {
    let expr = parse_ok("a or b and c");
    match expr.kind {
        ExprKind::Binary { op: BinaryOp::Or, right, .. } => match right.kind {
            ExprKind::Binary { op: BinaryOp::And, .. } => {}
            _ => panic!("expected and in rhs"),
        },
        _ => panic!("expected or root"),
    }
}

#[test]
fn parses_duration_forms() {
    let ms = parse_expression("500ms").expect("500ms");
    let s = parse_expression("1s").expect("1s");
    let min = parse_expression("2min").expect("2min");

    assert!(matches!(ms.kind, ExprKind::Duration(d) if d.millis == 500));
    assert!(matches!(s.kind, ExprKind::Duration(d) if d.millis == 1_000));
    assert!(matches!(min.kind, ExprKind::Duration(d) if d.millis == 120_000));
}

#[test]
fn rejects_bad_duration_unit() {
    let err = parse_expression("7m").expect_err("7m must fail");
    let rendered = err.render("7m", "duration.adgl");
    assert!(rendered.contains("ADGL0110"), "{rendered}");
}

#[test]
fn two_emit_in_evidence_errors_yield_at_least_two_diagnostics() {
    let src = r#"
ruleset "Bad" {
  version = "1.0"
  evidence first {
    scope: Session
    anchor a: event(tcp.retransmission_burst)
    emit Problem(X) { severity: High, evidence: [a] }
  }
  evidence second {
    scope: Session
    anchor b: event(tcp.retransmission_burst)
    emit Problem(Y) { severity: High, evidence: [b] }
  }
}
"#;
    let err = parse_ruleset(src).expect_err("two illegal emits must fail");
    assert!(err.len() >= 2, "expected ≥2 diagnostics, got {}: {}", err.len(), err.render(src, "two_emits.adgl"));
    let rendered = err.render(src, "two_emits.adgl");
    assert!(rendered.matches("ADGL0450").count() >= 2, "expected ≥2 ADGL0450 codes: {rendered}");
}

#[test]
fn recovery_continues_across_header_decls() {
    let src = r#"
ruleset "Decls" {
  version = "1.0"
  requires =
  mutually_exclusive
  evidence ok {
    scope: Session
    anchor a: event(tcp.retransmission_burst)
    infer Cause(X) { target: a.target, weight: +40, evidence: [a] }
  }
}
"#;
    let err = parse_ruleset(src).expect_err("two bad decls must fail");
    assert!(err.len() >= 2, "expected ≥2 diagnostics across decls, got {}: {}", err.len(), err.render(src, "two_decls.adgl"));
}

#[test]
fn recovery_across_rules_still_surfaces_later_errors() {
    let src = r#"
ruleset "Multi" {
  version = "1.0"
  evidence broken {
    scope: Session
    anchor a: event(tcp.retransmission_burst)
    infer Cause(X) { target: a.target, weight: 40, evidence: [a] }
  }
  decision later {
    scope: Session
    anchor c: Cause(X) { c.confidence >= 80 }
    emit Problem(P) { severity: High, evidence: [c] }
    infer Cause(Y) { target: c.target, weight: +10, evidence: [c] }
  }
}
"#;
    let err = parse_ruleset(src).expect_err("errors in two rules must fail");
    assert!(err.len() >= 2, "expected ≥2 diagnostics across rules, got {}: {}", err.len(), err.render(src, "multi_rule.adgl"));
    let rendered = err.render(src, "multi_rule.adgl");
    assert!(
        rendered.contains("weight requires explicit sign") || rendered.contains("ADGL0100"),
        "expected unsigned-weight error: {rendered}"
    );
    assert!(
        rendered.contains("infer is not allowed") || rendered.contains("ADGL0450"),
        "expected infer-in-decision error: {rendered}"
    );
}

fn having_source(count: &str) -> String {
    format!(
        r#"
ruleset "syntax.having_large" {{
  version = "1.0"
  requires = ["wifi-ota", "topology"]
  evidence deauth_flood {{
    scope: AccessPoint
    anchor storm: event(wifi.deauth_burst)
    correlate hits: event(wifi.mgmt.deauth) {{
      topo: same_ap(storm.target, hits.target)
      time: hits.time in [storm.time - 1s, storm.time]
      having: count >= {count}
    }}
    infer Cause(RfInterference) {{ target: storm.target, weight: +1, evidence: [storm] }}
  }}
}}
"#
    )
}

#[test]
fn parse_correlate_having_count_threshold() {
    let src = r#"
ruleset "syntax.having" {
  version = "1.0"
  requires = ["wifi-ota", "topology"]
  evidence deauth_flood {
    scope: AccessPoint
    anchor storm: event(wifi.deauth_burst)
    correlate hits: event(wifi.mgmt.deauth) {
      topo: same_ap(storm.target, hits.target)
      time: hits.time in [storm.time - 1s, storm.time]
      having: count >= 30
    }
    if present(hits) {
      infer Cause(RfInterference) { target: storm.target, weight: +75, evidence: [storm, hits] }
    }
  }
}
"#;
    let ast = parse_ruleset(src).expect("having clause should parse");
    let rule = match &ast.rules[0] {
        RuleDecl::Evidence(e) => e,
        _ => panic!("expected evidence rule"),
    };
    let corr = &rule.correlates[0];
    let min = corr.min_match.expect("having clause present");
    assert_eq!(min.count, 30);
}

#[test]
fn parse_preserves_large_having_literals_without_truncation() {
    for count in [33_i64, 257, 288, i64::MAX] {
        let src = having_source(&count.to_string());
        let ast = parse_ruleset(&src).expect("representable integer literal should parse");
        let rule = match &ast.rules[0] {
            RuleDecl::Evidence(e) => e,
            _ => panic!("expected evidence rule"),
        };
        assert_eq!(rule.correlates[0].min_match.expect("having clause present").count, count);
    }
}

#[test]
fn negative_having_literal_is_a_syntax_error() {
    let diags = parse_ruleset(&having_source("-1")).expect_err("negative threshold must not parse");
    assert!(has_code(&diags, "ADGL0100"), "{diags:?}");
}

#[test]
fn malformed_having_forms_report_syntax_diagnostics() {
    for correlate_body in [
        "topo: same_ap(storm.target, hits.target)\n      time: hits.time in [storm.time - 1s, storm.time]\n      having: count > 3",
        "topo: same_ap(storm.target, hits.target)\n      time: hits.time in [storm.time - 1s, storm.time]\n      having: matches >= 3",
        "topo: same_ap(storm.target, hits.target)\n      having: count >= 3\n      time: hits.time in [storm.time - 1s, storm.time]",
    ] {
        let src = format!(
            r#"
ruleset "syntax.having_malformed" {{
  version = "1.0"
  requires = ["wifi-ota", "topology"]
  evidence bad {{
    scope: AccessPoint
    anchor storm: event(wifi.deauth_burst)
    correlate hits: event(wifi.mgmt.deauth) {{
      {correlate_body}
    }}
    infer Cause(RfInterference) {{ target: storm.target, weight: +1, evidence: [storm] }}
  }}
}}
"#
        );
        let diags = parse_ruleset(&src).expect_err("malformed having must not parse");
        assert!(has_code(&diags, "ADGL0100"), "malformed form should produce a syntax diagnostic: {diags:?}");
    }
}

#[test]
fn parse_correlate_omitted_having_defaults_none() {
    let src = r#"
ruleset "syntax.no_having" {
  version = "1.0"
  requires = ["topology"]
  evidence ptb {
    scope: Session
    anchor rtx: event(tcp.retransmission_burst) { rtx.segment_size > 1400 }
    correlate ptb: event(icmp.ptb) {
      topo: same_session(rtx.target, ptb.target)
      time: ptb.time in [rtx.time - 500ms, rtx.time + 1s]
    }
    if present(ptb) {
      infer Cause(PmtudBlackhole) { target: rtx.target, weight: +85, evidence: [rtx, ptb] }
    }
  }
}
"#;
    let ast = parse_ruleset(src).expect("correlate without having should parse");
    let rule = match &ast.rules[0] {
        RuleDecl::Evidence(e) => e,
        _ => panic!("expected evidence rule"),
    };
    assert!(rule.correlates[0].min_match.is_none());
}

#[test]
fn reports_missing_brace_with_span() {
    let src = r#"
ruleset "x" {
  version = "1.0"
  evidence r {
    scope: Session
    anchor a: event(tcp.retransmission_burst)
  }
"#;
    let err = parse_ruleset(src).expect_err("missing brace must fail");
    let rendered = err.render(src, "missing_brace.adgl");
    assert!(rendered.contains("ADGL0100"), "{rendered}");
    assert!(rendered.contains("missing_brace.adgl:"), "{rendered}");
}

#[test]
fn reports_bad_duration() {
    let src = r#"
ruleset "x" {
  version = "1.0"
  evidence r {
    scope: Session
    anchor a: event(tcp.retransmission_burst) { a.time > 1m }
  }
}
"#;
    let err = parse_ruleset(src).expect_err("bad duration must fail");
    let rendered = err.render(src, "bad_duration.adgl");
    assert!(rendered.contains("ADGL0110"), "{rendered}");
}

#[test]
fn rejects_emit_outside_decision_rule() {
    let src = r#"
ruleset "x" {
  version = "1.0"
  evidence r {
    scope: Session
    anchor a: event(tcp.retransmission_burst)
    emit Problem(X) { severity: High, evidence: [a] }
  }
}
"#;
    let err = parse_ruleset(src).expect_err("emit in evidence must fail");
    let rendered = err.render(src, "emit_outside_rule.adgl");
    assert!(rendered.contains("ADGL0450"), "{rendered}");
    assert!(rendered.contains("emit is not allowed in evidence rule body"), "{rendered}");
}

#[test]
fn rejects_nesting_over_limit() {
    let nested = "(".repeat(65);
    let closed = ")".repeat(65);
    let src = format!(
        r#"
ruleset "x" {{
  version = "1.0"
  evidence r {{
    scope: Session
    anchor a: event(tcp.retransmission_burst) {{ {nested}1{closed} > 0 }}
  }}
}}
"#
    );
    let err = parse_ruleset(&src).expect_err("nesting > 64 must fail");
    let rendered = err.render(&src, "nesting_limit.adgl");
    assert!(rendered.contains("ADGL0103"), "{rendered}");
}

#[test]
fn rejects_reserved_keyword_in_present_ident() {
    let src = r#"
ruleset "x" {
  version = "1.0"
  evidence r {
    scope: Session
    anchor a: event(tcp.retransmission_burst)
    if present(and) {
      infer Cause(X) { target: a.target, weight: +40, evidence: [a] }
    }
  }
}
"#;
    let err = parse_ruleset(src).expect_err("reserved keyword ident must fail");
    let rendered = err.render(src, "reserved_present.adgl");
    assert!(rendered.contains("ADGL0100"), "{rendered}");
    assert!(rendered.contains("reserved keyword"), "{rendered}");
}

#[test]
fn rejects_reserved_keyword_in_ref_list() {
    let src = r#"
ruleset "x" {
  version = "1.0"
  evidence r {
    scope: Session
    anchor a: event(tcp.retransmission_burst)
    infer Cause(X) { target: a.target, weight: +40, evidence: [if] }
  }
}
"#;
    let err = parse_ruleset(src).expect_err("reserved keyword ref must fail");
    let rendered = err.render(src, "reserved_ref.adgl");
    assert!(rendered.contains("ADGL0100"), "{rendered}");
    assert!(rendered.contains("reserved keyword"), "{rendered}");
}

#[test]
fn rejects_unsigned_weight_literal() {
    let src = r#"
ruleset "x" {
  version = "1.0"
  evidence r {
    scope: Session
    anchor a: event(tcp.retransmission_burst)
    infer Cause(X) { target: a.target, weight: 40, evidence: [a] }
  }
}
"#;
    let err = parse_ruleset(src).expect_err("unsigned weight must fail");
    let rendered = err.render(src, "unsigned_weight.adgl");
    assert!(rendered.contains("ADGL0100"), "{rendered}");
    assert!(rendered.contains("weight requires explicit sign"), "{rendered}");
}

#[test]
fn reports_unclosed_block_comment() {
    let src = r#"
ruleset "x" {
  version = "1.0"
  /* comment starts but never closes
  evidence r {
    scope: Session
    anchor a: event(tcp.retransmission_burst)
  }
}
"#;
    let err = parse_ruleset(src).expect_err("unclosed block comment must fail");
    let rendered = err.render(src, "unclosed_comment.adgl");
    assert!(rendered.contains("ADGL0106"), "{rendered}");
    assert!(rendered.contains("unclosed block comment"), "{rendered}");
}

#[test]
fn fail_fast_returns_only_first_rule_error() {
    let src = r#"
ruleset "Bad" {
  version = "1.0"
  evidence first {
    scope: Session
    anchor a: event(tcp.retransmission_burst)
    emit Problem(X) { severity: High, evidence: [a] }
  }
  evidence second {
    scope: Session
    anchor b: event(tcp.retransmission_burst)
    emit Problem(Y) { severity: High, evidence: [b] }
  }
}
"#;
    let err = parse_ruleset_fail_fast(src).expect_err("must fail");
    assert_eq!(err.len(), 1, "fail-fast must not recover: {}", err.render(src, "ff.adgl"));
    assert!(err.render(src, "ff.adgl").contains("ADGL0450"));
}

#[test]
fn parse_ruleset_oversize_input_hits_limit_without_panic() {
    let source = "x".repeat(4 * 1024 * 1024 + 1);
    let err = parse_ruleset(&source).expect_err("oversize source must fail");
    assert!(has_code(&err, "ADGL0102"), "expected ADGL0102 for oversize source");
}

#[test]
fn full_ruleset_parses_into_rules_decls_and_statements() {
    let src = r#"
// example
ruleset "full" {
  version = "1.2"
  requires = ["topology"]
  mutually_exclusive(Congestion, PmtudBlackhole)
  evidence pmtud {
    scope: Session
    anchor rtx: event(tcp.retransmission_burst) { rtx.segment_size > 1400 }
    correlate ptb: event(icmp.ptb) {
      topo: same_session(rtx.target, ptb.target)
      time: ptb.time in [rtx.time - 500ms, rtx.time + 1s]
    }
    if present(ptb) {
      infer Cause(PmtudBlackhole) { target: rtx.target, weight: +85, evidence: [rtx, ptb] }
    } else {
      action request_observation(icmp.visibility) { target: rtx.target, reason: "no ptb" }
    }
  }
  decision verdict {
    scope: Session
    anchor c: Cause(PmtudBlackhole) { c.confidence >= 80 }
    emit Problem(XlIcmpTcpMss) { target: c.target, severity: High, evidence: [c], sarif_id: "l3_pmtud_blackhole" }
  }
}
"#;
    let ast = parse_ruleset(src).unwrap_or_else(|b| panic!("{}", b.render(src, "full.adgl")));
    assert_eq!(ast.name.value, "full");
    assert_eq!(ast.header.version.value, "1.2");
    assert_eq!(ast.header.decls.len(), 2);
    assert_eq!(ast.rules.len(), 2);
    match &ast.rules[0] {
        RuleDecl::Evidence(e) => {
            assert_eq!(e.name.name, "pmtud");
            assert_eq!(e.anchor.event_type.segments.len(), 2);
            assert_eq!(e.correlates.len(), 1);
            let branch = e.if_else.as_ref().expect("if/else");
            assert_eq!(branch.then_body.len(), 1);
            assert_eq!(branch.else_body.as_ref().map(|b| b.len()), Some(1));
        }
        _ => panic!("expected evidence rule first"),
    }
    match &ast.rules[1] {
        RuleDecl::Decision(d) => {
            assert_eq!(d.body.len(), 1);
            assert_eq!(d.name.name, "verdict");
        }
        _ => panic!("expected decision rule second"),
    }
    assert_eq!(&src[ast.span.start..ast.span.start + 7], "ruleset");
}

#[test]
fn postfix_calls_fields_and_indexes_chain_left_to_right() {
    let e = parse_ok("f(a, b).x[0] - 1");
    assert!(parse_expression("1 - -1").is_err(), "no unary minus in the grammar");
    match e.kind {
        ExprKind::Binary { op: BinaryOp::Sub, left, .. } => match left.kind {
            ExprKind::Index { base, .. } => match base.kind {
                ExprKind::Field { base, field } => {
                    assert_eq!(field.name, "x");
                    assert!(matches!(base.kind, ExprKind::Call { ref args, .. } if args.len() == 2));
                }
                _ => panic!("expected field under index"),
            },
            _ => panic!("expected index on the left"),
        },
        _ => panic!("expected subtraction root"),
    }
    let err = parse_expression("1 2").expect_err("trailing tokens");
    assert_eq!(err.len(), 1);
    assert!(err.diagnostics()[0].message.contains("unexpected trailing tokens"));
}
