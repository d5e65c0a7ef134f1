//! The catalog's small fixed tables: identity, observation and check kinds,
//! actions, topology functions, capabilities and default exclusivity pairs,
//! with lookup by name.
use vstd::prelude::*;

use crate::catalog::schema::{
    action_view, topo_fn_view, ActionArgKind, ActionSchema, ActionTargetType, ExclusivityPair,
    TopoArgType, TopoFnSchema,
};
use crate::ir::{CatalogRef, TopoFuncIdx};
use crate::types::{text_eq, ActionKind, Capability, Name};

verus! {

/// Stable catalog id.
pub const CATALOG_ID: &'static str = "airpulse.catalog";

/// Stable catalog version.
pub const CATALOG_VERSION: &'static str = "1.3";

/// The catalog reference recorded in a program image.
pub fn catalog_ref() -> (r: CatalogRef)
    ensures
        r.id@ == CATALOG_ID@,
        r.version@ == CATALOG_VERSION@,
{
    CatalogRef { id: CATALOG_ID.to_owned(), version: CATALOG_VERSION.to_owned() }
}

/// The observation kinds, in catalog order.
pub open spec fn observation_kind_table() -> Seq<&'static str> {
    seq!["icmp.visibility", "aaa.telemetry", "wifi.rf_metrics"]
}

/// The check kinds, in catalog order.
pub open spec fn check_kind_table() -> Seq<&'static str> {
    seq!["cable_loopback", "lldp_poll", "stp_root_check"]
}

/// All observation kinds.
pub fn observation_kinds() -> (r: Vec<&'static str>)
    ensures
        r@ == observation_kind_table(),
{
    let r = vec!["icmp.visibility", "aaa.telemetry", "wifi.rf_metrics"];
    proof {
        assert(r@ =~= observation_kind_table());
    }
    r
}

/// All check kinds.
pub fn check_kinds() -> (r: Vec<&'static str>)
    ensures
        r@ == check_kind_table(),
{
    let r = vec!["cable_loopback", "lldp_poll", "stp_root_check"];
    proof {
        assert(r@ =~= check_kind_table());
    }
    r
}

/// Names of the topology functions; a function's index is its position.
pub open spec fn topo_fn_names() -> Seq<&'static str> {
    seq!["same_session", "same_client", "same_port", "same_ap", "same_vlan", "upstream_of"]
}

/// The `k`-th topology function schema: binary over two scope ids.
pub open spec fn topo_fn_row(k: int) -> (Seq<char>, u8, usize, Seq<TopoArgType>) {
    (topo_fn_names()[k]@, k as u8, 2, seq![TopoArgType::ScopeId, TopoArgType::ScopeId])
}

fn topo_fn(name: &'static str, idx: u8) -> (s: TopoFnSchema)
    ensures
        topo_fn_view(s) == (name@, idx, 2usize, seq![TopoArgType::ScopeId, TopoArgType::ScopeId]),
{
    let args = vec![TopoArgType::ScopeId, TopoArgType::ScopeId];
    proof {
        assert(args@ =~= seq![TopoArgType::ScopeId, TopoArgType::ScopeId]);
    }
    TopoFnSchema { name, func_idx: TopoFuncIdx(idx), arity: 2, arg_types: args }
}

/// All topology function schemas, in index order.
pub fn topo_functions() -> (r: Vec<TopoFnSchema>)
    ensures
        r@.len() == 6,
        forall|k: int| 0 <= k < 6 ==> topo_fn_view(#[trigger] r@[k]) == topo_fn_row(k),
{
    let r = vec![
        topo_fn("same_session", 0),
        topo_fn("same_client", 1),
        topo_fn("same_port", 2),
        topo_fn("same_ap", 3),
        topo_fn("same_vlan", 4),
        topo_fn("upstream_of", 5),
    ];
    r
}

/// Resolves a topology function schema by name: the first schema with that
/// name, or `None` when no schema has it.
pub fn resolve_topo_fn(name: &str) -> (r: Option<TopoFnSchema>)
    ensures
        match r {
            Some(s) => exists|k: int|
                0 <= k < 6 && topo_fn_names()[k]@ == name@ && (forall|j: int|
                    0 <= j < k ==> topo_fn_names()[j]@ != name@) && topo_fn_view(s) == topo_fn_row(k),
            None => forall|k: int| 0 <= k < 6 ==> topo_fn_names()[k]@ != name@,
        },
{
    let mut table = topo_functions();
    let mut i: usize = 0;
    while i < table.len()
        invariant
            table@.len() == 6,
            0 <= i <= 6,
            forall|k: int| 0 <= k < 6 ==> topo_fn_view(#[trigger] table@[k]) == topo_fn_row(k),
            forall|j: int| 0 <= j < i ==> topo_fn_names()[j]@ != name@,
        decreases 6 - i,
    {
        if text_eq(table[i].name, name) {
            proof {
                assert(topo_fn_view(table@[i as int]) == topo_fn_row(i as int));
            }
            let s = table.remove(i);
            return Some(s);
        }
        proof {
            assert(topo_fn_view(table@[i as int]) == topo_fn_row(i as int));
        }
        i = i + 1;
    }
    None
}

/// Names of the actions, in catalog order.
pub open spec fn action_names() -> Seq<&'static str> {
    seq!["request_observation", "run_check", "suppress_symptom", "mark_ambiguous", "request_topology"]
}

/// The `k`-th action schema.
pub open spec fn action_row(k: int) -> (
    ActionKind,
    Seq<char>,
    ActionArgKind,
    Seq<ActionTargetType>,
    Seq<&'static str>,
) {
    if k == 0 {
        (
            ActionKind::RequestObservation,
            action_names()[0]@,
            ActionArgKind::ObservationKind,
            seq![ActionTargetType::ScopeId, ActionTargetType::ScopeIdList],
            observation_kind_table(),
        )
    } else if k == 1 {
        (
            ActionKind::RunCheck,
            action_names()[1]@,
            ActionArgKind::CheckKind,
            seq![ActionTargetType::ScopeId],
            check_kind_table(),
        )
    } else if k == 2 {
        (ActionKind::SuppressSymptom, action_names()[2]@, ActionArgKind::ProblemRefBinding, seq![], seq![])
    } else if k == 3 {
        (
            ActionKind::MarkAmbiguous,
            action_names()[3]@,
            ActionArgKind::NoArgument,
            seq![ActionTargetType::ScopeId],
            seq![],
        )
    } else {
        (
            ActionKind::RequestTopology,
            action_names()[4]@,
            ActionArgKind::NoArgument,
            seq![ActionTargetType::ScopeId],
            seq![],
        )
    }
}

/// All action schemas, in catalog order.
pub fn actions() -> (r: Vec<ActionSchema>)
    ensures
        r@.len() == 5,
        forall|k: int| 0 <= k < 5 ==> action_view(#[trigger] r@[k]) == action_row(k),
{
    let t0 = vec![ActionTargetType::ScopeId, ActionTargetType::ScopeIdList];
    let t1 = vec![ActionTargetType::ScopeId];
    let t3 = vec![ActionTargetType::ScopeId];
    let t4 = vec![ActionTargetType::ScopeId];
    let a0 = ActionSchema {
        kind: ActionKind::RequestObservation,
        name: "request_observation",
        arg_kind: ActionArgKind::ObservationKind,
        target_types: t0,
        allowed_kinds: observation_kinds(),
    };
    let a1 = ActionSchema {
        kind: ActionKind::RunCheck,
        name: "run_check",
        arg_kind: ActionArgKind::CheckKind,
        target_types: t1,
        allowed_kinds: check_kinds(),
    };
    let a2 = ActionSchema {
        kind: ActionKind::SuppressSymptom,
        name: "suppress_symptom",
        arg_kind: ActionArgKind::ProblemRefBinding,
        target_types: Vec::new(),
        allowed_kinds: Vec::new(),
    };
    let a3 = ActionSchema {
        kind: ActionKind::MarkAmbiguous,
        name: "mark_ambiguous",
        arg_kind: ActionArgKind::NoArgument,
        target_types: t3,
        allowed_kinds: Vec::new(),
    };
    let a4 = ActionSchema {
        kind: ActionKind::RequestTopology,
        name: "request_topology",
        arg_kind: ActionArgKind::NoArgument,
        target_types: t4,
        allowed_kinds: Vec::new(),
    };
    proof {
        assert(action_view(a0) == action_row(0));
        assert(action_view(a1) == action_row(1));
        assert(action_view(a2) == action_row(2));
        assert(action_view(a3) == action_row(3));
        assert(action_view(a4) == action_row(4));
    }
    vec![a0, a1, a2, a3, a4]
}

/// Resolves an action schema by its DSL keyword: the first schema with
/// that name, or `None`.
pub fn resolve_action(name: &str) -> (r: Option<ActionSchema>)
    ensures
        match r {
            Some(s) => exists|k: int|
                0 <= k < 5 && action_names()[k]@ == name@ && (forall|j: int|
                    0 <= j < k ==> action_names()[j]@ != name@) && action_view(s) == action_row(k),
            None => forall|k: int| 0 <= k < 5 ==> action_names()[k]@ != name@,
        },
{
    let mut table = actions();
    let mut i: usize = 0;
    while i < table.len()
        invariant
            table@.len() == 5,
            0 <= i <= 5,
            forall|k: int| 0 <= k < 5 ==> action_view(#[trigger] table@[k]) == action_row(k),
            forall|j: int| 0 <= j < i ==> action_names()[j]@ != name@,
        decreases 5 - i,
    {
        proof {
            assert(action_view(table@[i as int]) == action_row(i as int));
        }
        if text_eq(table[i].name, name) {
            let s = table.remove(i);
            return Some(s);
        }
        i = i + 1;
    }
    None
}

/// Capability symbols, in catalog order.
pub open spec fn capability_names() -> Seq<&'static str> {
    seq!["l3-deep", "topology", "wifi-ota", "radio-nemo"]
}

/// All catalog capabilities.
pub fn capabilities() -> (r: Vec<Capability>)
    ensures
        r@.len() == 4,
        forall|k: int| 0 <= k < 4 ==> (#[trigger] r@[k])@ == capability_names()[k]@,
{
    vec![Name::new("l3-deep"), Name::new("topology"), Name::new("wifi-ota"), Name::new("radio-nemo")]
}

/// Resolves one capability symbol.
pub fn capability_for(name: &str) -> (r: Option<Capability>)
    ensures
        match r {
            Some(c) => c@ == name@ && exists|k: int| 0 <= k < 4 && capability_names()[k]@ == name@,
            None => forall|k: int| 0 <= k < 4 ==> capability_names()[k]@ != name@,
        },
{
    let mut table = capabilities();
    let mut i: usize = 0;
    while i < table.len()
        invariant
            table@.len() == 4,
            0 <= i <= 4,
            forall|k: int| 0 <= k < 4 ==> (#[trigger] table@[k])@ == capability_names()[k]@,
            forall|j: int| 0 <= j < i ==> capability_names()[j]@ != name@,
        decreases 4 - i,
    {
        proof {
            assert(table@[i as int]@ == capability_names()[i as int]@);
        }
        if table[i].is(name) {
            let c = table.remove(i);
            return Some(c);
        }
        i = i + 1;
    }
    None
}

/// The default exclusivity pairs, as `(left, right)` cause-kind names.
pub open spec fn exclusivity_table() -> Seq<(&'static str, &'static str)> {
    seq![
        ("Congestion", "PmtudBlackhole"),
        ("Congestion", "TransientL2Disruption"),
        ("PmtudBlackhole", "TransientL2Disruption"),
        ("PhysicalCableDamage", "PhysicalLinkAbsent"),
        ("AuthServerOutage", "RfInterference"),
        ("PacketLossPath", "SpuriousRetransmission"),
        ("PacketLossPath", "RadioChannelDegradation"),
        ("BufferbloatQueue", "MiddleboxInterference"),
        ("PmtudPathIssue", "PacketLossPath"),
    ]
}

fn pair(left: &'static str, right: &'static str) -> (p: ExclusivityPair)
    ensures
        p.left@ == left@,
        p.right@ == right@,
{
    ExclusivityPair { left: Name::new(left), right: Name::new(right) }
}

/// The catalog's default mutually exclusive cause-kind pairs.
pub fn exclusivity_defaults() -> (r: Vec<ExclusivityPair>)
    ensures
        r@.len() == exclusivity_table().len(),
        forall|k: int|
            0 <= k < r@.len() ==> (#[trigger] r@[k]).left@ == exclusivity_table()[k].0@ && r@[k].right@
                == exclusivity_table()[k].1@,
{
    vec![
        pair("Congestion", "PmtudBlackhole"),
        pair("Congestion", "TransientL2Disruption"),
        pair("PmtudBlackhole", "TransientL2Disruption"),
        pair("PhysicalCableDamage", "PhysicalLinkAbsent"),
        pair("AuthServerOutage", "RfInterference"),
        pair("PacketLossPath", "SpuriousRetransmission"),
        pair("PacketLossPath", "RadioChannelDegradation"),
        pair("BufferbloatQueue", "MiddleboxInterference"),
        pair("PmtudPathIssue", "PacketLossPath"),
    ]
}

} // verus!
