use airpulse_dsl::syntax::ast::RuleDecl;
use airpulse_dsl::syntax::directives::strip_leading_includes;
use airpulse_dsl::syntax::loader::{
    append_imported, compose_entry, cycle_diagnostic, cycle_start, rules_text_from_body,
    LoadedRuleset,
};
use airpulse_dsl::syntax::parser::parse_ruleset;

const SHARED: &str = "ruleset \"shared\" {\n  version = \"1.0\"\n  evidence shared_ev {\n    scope: Session\n    anchor a: event(tcp.retransmission_burst)\n    infer Cause(X) { target: a.target, weight: +40, evidence: [a] }\n  }\n}\n";

const MAIN_BODY: &str = "ruleset \"main\" {\n  version = \"1.0\"\n  evidence main_ev {\n    scope: Session\n    anchor b: event(tcp.retransmission_burst)\n    infer Cause(Y) { target: b.target, weight: +10, evidence: [b] }\n  }\n}\n";

fn rule_names(src: &str) -> Vec<String> {
    let ast = parse_ruleset(src).unwrap_or_else(|b| panic!("{}", b.render(src, "t.adgl")));
    ast.rules
        .iter()
        .map(|r| match r {
            RuleDecl::Evidence(e) => e.name.name.clone(),
            RuleDecl::Decision(d) => d.name.name.clone(),
        })
        .collect()
}

#[test]
fn rules_text_lists_each_rule_trimmed_on_its_own_line() {
    let text = rules_text_from_body(SHARED).expect("shared parses");
    assert!(text.starts_with("evidence shared_ev {"), "{text}");
    assert!(text.ends_with("}\n"), "{text}");
    assert_eq!(text.lines().filter(|l| l.starts_with("evidence")).count(), 1);
}

#[test]
fn rules_text_of_a_broken_body_is_the_parse_error() {
    let err = rules_text_from_body("ruleset \"x\" {").expect_err("must fail");
    assert!(err.len() > 0);
}

#[test]
fn compose_with_nothing_imported_keeps_the_body() {
    assert_eq!(compose_entry(MAIN_BODY, "").unwrap(), MAIN_BODY);
}

#[test]
fn composed_source_puts_imported_rules_first() {
    let imported = rules_text_from_body(SHARED).unwrap();
    let composed = compose_entry(MAIN_BODY, &imported).expect("compose");
    assert_eq!(rule_names(&composed), ["shared_ev", "main_ev"]);
    let ast = parse_ruleset(&composed).unwrap();
    assert_eq!(ast.name.value, "main");
    let loaded = LoadedRuleset {
        entry: "main.adgl".to_owned(),
        files: vec!["main.adgl".to_owned(), "shared.adgl".to_owned()],
        source: composed,
    };
    assert!(loaded.parse().is_ok());
}

#[test]
fn compose_into_a_ruleset_without_rules_goes_before_the_brace() {
    let imported = rules_text_from_body(SHARED).unwrap();
    let composed = compose_entry("ruleset \"empty\" { version = \"1.0\" }", &imported).unwrap();
    assert_eq!(rule_names(&composed), ["shared_ev"]);
    assert!(composed.ends_with("}"));
}

#[test]
fn raw_directives_are_not_accepted_by_the_single_file_parser() {
    let raw = format!("include \"shared.adgl\"\n\n{MAIN_BODY}");
    assert!(parse_ruleset(&raw).is_err());
    let (dirs, body_start) = strip_leading_includes(&raw).expect("directives");
    assert_eq!(dirs.len(), 1);
    assert_eq!(dirs[0].path, b"shared.adgl".to_vec());
    assert_eq!(&raw[body_start..], MAIN_BODY);
}

#[test]
fn append_imported_terminates_the_text_with_a_line_feed() {
    let mut acc = String::new();
    append_imported(&mut acc, "", "");
    assert_eq!(acc, "");
    append_imported(&mut acc, "a", "b");
    assert_eq!(acc, "ab\n");
    append_imported(&mut acc, "", "c\n");
    assert_eq!(acc, "ab\nc\n");
}

#[test]
fn cycle_start_finds_the_first_repeat() {
    let stack = vec!["/r/a.adgl".to_owned(), "/r/b.adgl".to_owned()];
    assert_eq!(cycle_start(&stack, "/r/b.adgl"), Some(1));
    assert_eq!(cycle_start(&stack, "/r/a.adgl"), Some(0));
    assert_eq!(cycle_start(&stack, "/r/c.adgl"), None);
}

#[test]
fn cycle_diagnostic_names_the_chain() {
    let names = vec!["a.adgl".to_owned(), "b.adgl".to_owned(), "a.adgl".to_owned()];
    let buf = cycle_diagnostic(&names);
    assert_eq!(buf.len(), 1);
    let d = &buf.diagnostics()[0];
    assert_eq!(d.code, "ADGL0200");
    assert_eq!(d.message, "directive cycle detected: a.adgl -> b.adgl -> a.adgl");
}
