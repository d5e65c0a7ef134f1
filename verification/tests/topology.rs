use airpulse_dsl::eval::topology::{StaticTopology, TopoFunc, TopologyDiagnostic, TopologyProvider};
use airpulse_dsl::ir::TopoFuncIdx;
use airpulse_dsl::types::{ScopeId, T3};

#[test]
fn same_relations_true_false_unknown() {
    let a = ScopeId::vlan(1);
    let b = ScopeId::vlan(2);
    let c = ScopeId::vlan(3);
    let mut topo = StaticTopology::new(16);
    topo.relate_session(a, b);
    topo.declare(c);
    assert_eq!(topo.same_session(a, b), T3::True);
    assert_eq!(topo.same_session(b, a), T3::True, "symmetric");
    assert_eq!(topo.same_session(a, a), T3::True, "reflexive");
    assert_eq!(topo.same_session(a, c), T3::False, "both known, unrelated");
    assert_eq!(topo.same_session(a, ScopeId::vlan(99)), T3::Unknown, "unknown scope");
    assert_eq!(topo.same_vlan(a, b), T3::False, "relations are independent");
}

#[test]
fn unknown_must_not_collapse_to_false_adr010() {
    let mut topo = StaticTopology::new(16);
    let a = ScopeId::vlan(1);
    let b = ScopeId::vlan(2);
    for ans in [
        topo.same_session(a, b),
        topo.same_client(a, b),
        topo.same_port(a, b),
        topo.same_ap(a, b),
        topo.same_vlan(a, b),
        topo.upstream_of(a, b),
    ] {
        assert_eq!(ans, T3::Unknown);
        assert!(ans.is_unknown() && !ans.is_false() && !ans.is_true(), "Unknown must not collapse to False/True: {ans:?}");
    }
    assert!(topo.diagnostics().is_empty(), "Unknown is not a cycle/hop diagnostic");
}

#[test]
fn upstream_of_transitive_and_bounded() {
    let (r1, r2, r3) = (ScopeId::port(1, 1), ScopeId::port(2, 1), ScopeId::port(3, 1));
    let mut topo = StaticTopology::new(16);
    topo.upstream_edge(r1, r2);
    topo.upstream_edge(r2, r3);
    assert_eq!(topo.upstream_of(r1, r3), T3::True, "transitive");
    assert_eq!(topo.upstream_of(r3, r1), T3::False, "directed");
    assert_eq!(topo.upstream_of(r1, r1), T3::False, "never upstream of itself");
    assert_eq!(topo.upstream_of(r1, ScopeId::port(9, 9)), T3::Unknown);
    assert!(topo.diagnostics().is_empty());
}

#[test]
fn upstream_cycle_resolves_false_with_adgl3006() {
    let (r1, r2) = (ScopeId::port(1, 1), ScopeId::port(2, 1));
    let mut topo = StaticTopology::new(16);
    topo.upstream_edge(r1, r2);
    topo.upstream_edge(r2, r1);
    assert_eq!(topo.upstream_of(r1, r2), T3::False, "cycle isolation");
    let diags = topo.diagnostics();
    assert_eq!(diags.len(), 1);
    assert_eq!(diags[0].code(), "ADGL3006");
    assert!(matches!(diags[0], TopologyDiagnostic::UpstreamCycle { .. }));
}

#[test]
fn hop_bound_is_enforced() {
    let scopes: Vec<ScopeId> = (0..6).map(|i| ScopeId::port(i, 0)).collect();
    let mut topo = StaticTopology::new(2);
    for w in scopes.windows(2) {
        topo.upstream_edge(w[1], w[0]);
    }
    assert_eq!(topo.upstream_of(scopes[2], scopes[0]), T3::True, "within bound");
    assert_eq!(topo.upstream_of(scopes[5], scopes[0]), T3::False, "beyond bound");
    assert!(topo.diagnostics().iter().any(|d| matches!(d, TopologyDiagnostic::HopBoundExceeded { .. })));
}

#[test]
fn topology_function_indices_follow_catalog_order() {
    let expected = [
        TopoFunc::SameSession,
        TopoFunc::SameClient,
        TopoFunc::SamePort,
        TopoFunc::SameAp,
        TopoFunc::SameVlan,
        TopoFunc::UpstreamOf,
    ];
    for (i, f) in expected.iter().enumerate() {
        assert_eq!(TopoFunc::from_idx(TopoFuncIdx(i as u8)), Some(*f));
    }
    assert_eq!(TopoFunc::from_idx(TopoFuncIdx(6)), None);
    assert_eq!(TopoFunc::from_idx(TopoFuncIdx(255)), None);
}
