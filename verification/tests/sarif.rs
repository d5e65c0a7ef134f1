use airpulse_dsl::catalog::metric::{resolve_metric_path, EventOrBindingType};
use airpulse_dsl::eval::evidence::{catalog_pii_field_names, merge_event_fields, redact_evidence_field_map};
use airpulse_dsl::store::event::{EventNode, EventProvenance};
use airpulse_dsl::eval::extract::{ProblemView, Snapshot};
use airpulse_dsl::eval::sarif::{push_json_string, sarif_level, scope_type_name, to_sarif, to_sarif_with_options, SarifOptions};
use airpulse_dsl::types::{EventId, EventTime, Name, ScopeId, ScopeType, Severity};

fn problem(kind: &str, sarif: &str, severity: Severity, fields: Vec<(String, String)>, superseded: bool) -> ProblemView {
    ProblemView {
        scope: ScopeId::global(),
        kind: Name::new(kind),
        target: ScopeId::global(),
        time: EventTime::from_millis(1),
        severity,
        sarif_id: Name::new(sarif),
        cause_kinds: vec![],
        evidence_fields: fields,
        superseded,
    }
}

fn snapshot(problems: Vec<ProblemView>) -> Snapshot {
    Snapshot { causes: Vec::new(), problems, audit: Vec::new() }
}

#[test]
fn escapes_control_and_special_characters() {
    let snap = snapshot(vec![problem("bad \"kind\" \\\n\t", "id\"\\\n", Severity::Low, Vec::new(), false)]);
    let json = to_sarif_with_options(&snap, SarifOptions::default());
    assert!(json.contains("\\\"kind\\\""));
    assert!(json.contains("\\\\"));
    assert!(json.contains("\\n"));
    assert!(json.contains("\\t"));
}

#[test]
fn strict_privacy_redacts_pii_evidence_fields() {
    let fields = vec![
        ("dst_ip".to_string(), "167772161".to_string()),
        ("segment_size".to_string(), "1500".to_string()),
    ];
    let open_snapshot = snapshot(vec![problem("XlIcmpTcpMss", "l3_pmtud_blackhole", Severity::High, fields, false)]);

    let open = to_sarif_with_options(&open_snapshot, SarifOptions::default());
    assert!(open.contains("\"dst_ip\":\"167772161\""));
    assert!(open.contains("\"segment_size\":\"1500\""));

    let strict = to_sarif_with_options(&open_snapshot, SarifOptions::strict());
    assert!(strict.contains("\"dst_ip\":\"<redacted>\""));
    assert!(strict.contains("\"segment_size\":\"1500\""));
}

#[test]
fn redacts_catalog_pii_fields_in_strict_mode() {
    assert!(catalog_pii_field_names().iter().any(|n| n == "dst_ip"));
    let raw = vec![
        ("dst_ip".to_string(), "167772161".to_string()),
        ("segment_size".to_string(), "1500".to_string()),
    ];
    let strict = redact_evidence_field_map(&raw, true);
    let get = |m: &Vec<(String, String)>, k: &str| m.iter().find(|(n, _)| n == k).map(|(_, v)| v.clone());
    assert_eq!(get(&strict, "dst_ip"), Some("<redacted>".to_string()));
    assert_eq!(get(&strict, "segment_size"), Some("1500".to_string()));
    let open = redact_evidence_field_map(&raw, false);
    assert_eq!(get(&open, "dst_ip"), Some("167772161".to_string()));
}

#[test]
fn pii_names_are_sorted_and_unique() {
    let names = catalog_pii_field_names();
    assert_eq!(names, vec!["bssid", "client_mac", "client_macs", "dst_ip", "src_ip"]);
}

#[test]
fn json_strings_escape_every_control_character() {
    let mut out = String::new();
    push_json_string(&mut out, "a\u{01}b\u{08}\u{0C}\r\u{1F} é");
    assert_eq!(out, "\"a\\u0001b\\b\\f\\r\\u001f é\"");
}

#[test]
fn superseded_problems_are_left_out_and_results_are_comma_separated() {
    let snap = snapshot(vec![
        problem("A", "a_id", Severity::Critical, Vec::new(), false),
        problem("B", "b_id", Severity::Medium, Vec::new(), true),
        problem("C", "c_id", Severity::Optional, Vec::new(), false),
    ]);
    let json = to_sarif(&snap);
    assert!(json.starts_with("{\"version\":\"2.1.0\",\"$schema\":\"https://json.schemastore.org/sarif-2.1.0.json\",\"runs\":[{\"tool\":{\"driver\":{\"name\":\"adgl\"}},\"results\":[{"));
    assert!(json.ends_with("}]}]}"));
    assert!(json.contains("\"ruleId\":\"a_id\",\"level\":\"error\",\"message\":{\"text\":\"A detected in global scope\"}"));
    assert!(!json.contains("b_id"));
    assert!(json.contains("\"ruleId\":\"c_id\",\"level\":\"note\""));
    assert!(json.contains("\"causes\":[]}},{\"ruleId\":\"c_id\""));
    assert_eq!(json, to_sarif(&snap), "deterministic");
    let empty = to_sarif(&snapshot(Vec::new()));
    assert!(empty.ends_with("\"results\":[]}]}"));
}

#[test]
fn result_fingerprint_is_scope_name_and_sixteen_hex_digits() {
    let mut p = problem("K", "k_id", Severity::High, Vec::new(), false);
    p.target = ScopeId::vlan(7);
    p.cause_kinds = vec![Name::new("Congestion"), Name::new("PmtudBlackhole")];
    let json = to_sarif(&snapshot(vec![p]));
    let expected = format!("\"target\":\"vlan:{:016x}\"", ScopeId::vlan(7).hash_key());
    assert!(json.contains(&expected), "{json}");
    assert!(json.contains("\"causes\":[\"Congestion\",\"PmtudBlackhole\"]"));
}

#[test]
fn levels_and_scope_names_cover_every_variant() {
    assert_eq!(sarif_level(Severity::Critical), "error");
    assert_eq!(sarif_level(Severity::High), "error");
    assert_eq!(sarif_level(Severity::Medium), "warning");
    assert_eq!(sarif_level(Severity::Low), "warning");
    assert_eq!(sarif_level(Severity::Recommended), "note");
    assert_eq!(sarif_level(Severity::Optional), "note");
    assert_eq!(scope_type_name(ScopeType::Session), "session");
    assert_eq!(scope_type_name(ScopeType::Port), "port");
    assert_eq!(scope_type_name(ScopeType::ClientMac), "client_mac");
    assert_eq!(scope_type_name(ScopeType::Vlan), "vlan");
    assert_eq!(scope_type_name(ScopeType::AccessPoint), "access_point");
    assert_eq!(scope_type_name(ScopeType::Global), "global");
}

#[test]
fn escaping_handles_quotes_backslashes_and_newlines() {
    let snapshot = Snapshot {
        causes: Vec::new(),
        problems: vec![ProblemView {
            scope: ScopeId::global(),
            kind: Name::new("kind\"slash\\line\nend"),
            target: ScopeId::global(),
            time: EventTime::from_millis(1),
            severity: Severity::Low,
            sarif_id: Name::new("id"),
            cause_kinds: vec![],
            evidence_fields: Vec::new(),
            superseded: false,
        }],
        audit: Vec::new(),
    };

    let sarif = to_sarif(&snapshot);
    assert!(sarif.contains("kind\\\"slash\\\\line\\nend"));
}

fn get_field(m: &Vec<(String, String)>, k: &str) -> Option<String> {
    m.iter().find(|(n, _)| n == k).map(|(_, v)| v.clone())
}

#[test]
fn event_field_merge_includes_dst_ip() {
    let scope = ScopeId::session((1, 443), (2, 80));
    let dst_idx = resolve_metric_path(
        EventOrBindingType::Event(&Name::new("tcp.retransmission_burst")),
        "dst_ip",
    )
    .expect("dst_ip")
    .0;
    let event = EventNode::new(
        EventId::new(1),
        Name::new("tcp.retransmission_burst"),
        EventTime::from_millis(1),
        scope,
        vec![(dst_idx, 0x0a00_0001)],
        EventProvenance::default(),
    );
    let mut raw = Vec::new();
    merge_event_fields(&mut raw, &event);
    assert_eq!(get_field(&raw, "dst_ip"), Some("167772161".to_string()));
}

#[test]
fn int_list_evidence_is_rendered_and_privacy_redacted() {
    let scope = ScopeId::access_point(1);
    let list_idx = resolve_metric_path(
        EventOrBindingType::Event(&Name::new("wifi.deauth_burst")),
        "client_macs",
    )
    .expect("client_macs")
    .0;
    let event = EventNode::new(
        EventId::new(2),
        Name::new("wifi.deauth_burst"),
        EventTime::from_millis(1),
        scope,
        vec![],
        EventProvenance::default(),
    )
    .with_int_list_field(list_idx, vec![3, 1, 2, 2]);
    let mut raw = Vec::new();
    merge_event_fields(&mut raw, &event);
    assert_eq!(get_field(&raw, "client_macs"), Some("[1,2,3]".to_string()));
    let strict = redact_evidence_field_map(&raw, true);
    assert_eq!(get_field(&strict, "client_macs"), Some("<redacted>".to_string()));
}

#[test]
fn merged_fields_stay_sorted_and_later_values_win() {
    let t = Name::new("tcp.retransmission_burst");
    let idx = |f: &str| resolve_metric_path(EventOrBindingType::Event(&t), f).unwrap().0;
    let first = EventNode::new(
        EventId::new(1),
        Name::new("tcp.retransmission_burst"),
        EventTime::from_millis(1),
        ScopeId::global(),
        vec![(idx("segment_size"), 1500), (idx("dst_ip"), -5)],
        EventProvenance::default(),
    );
    let second = EventNode::new(
        EventId::new(2),
        Name::new("tcp.retransmission_burst"),
        EventTime::from_millis(2),
        ScopeId::global(),
        vec![(idx("segment_size"), 9000)],
        EventProvenance::default(),
    );
    let mut raw = Vec::new();
    merge_event_fields(&mut raw, &first);
    merge_event_fields(&mut raw, &second);
    let names: Vec<&str> = raw.iter().map(|(n, _)| n.as_str()).collect();
    assert_eq!(names, ["dst_ip", "segment_size"]);
    assert_eq!(get_field(&raw, "dst_ip"), Some("-5".to_string()));
    assert_eq!(get_field(&raw, "segment_size"), Some("9000".to_string()));

    let unknown = EventNode::new(
        EventId::new(3),
        Name::new("no.such_event"),
        EventTime::from_millis(3),
        ScopeId::global(),
        vec![(idx("segment_size"), 1)],
        EventProvenance::default(),
    );
    merge_event_fields(&mut raw, &unknown);
    assert_eq!(raw.len(), 2);
}
