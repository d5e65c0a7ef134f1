//! The cause table: the base causes followed by one `<ProblemKind>Signal`
//! cause per Wi-Fi mapping row, with lookup by name.
use vstd::prelude::*;

use crate::catalog::schema::{cause_view, CauseSchema};
use crate::catalog::wifi::{wifi_table, wifi_w0_mappings, WifiMapping};
use crate::types::{text_eq, Name, ScopeType};

verus! {

/// The base causes: name and valid target scopes, in catalog order.
pub open spec fn base_cause_table() -> Seq<(&'static str, Seq<ScopeType>)> {
    seq![
        ("PmtudBlackhole", seq![ScopeType::Session, ScopeType::Vlan]),
        ("Congestion", seq![ScopeType::Session]),
        ("TransientL2Disruption", seq![ScopeType::Session, ScopeType::Vlan]),
        ("PhysicalCableDamage", seq![ScopeType::Port]),
        ("AuthServerOutage", seq![ScopeType::Vlan]),
        ("RfInterference", seq![ScopeType::AccessPoint]),
        ("UpstreamOutage", seq![ScopeType::Global]),
        ("PhysicalLinkAbsent", seq![ScopeType::Port]),
        ("PacketLossPath", seq![ScopeType::Session]),
        ("SpuriousRetransmission", seq![ScopeType::Session]),
        ("RadioChannelDegradation", seq![ScopeType::Session]),
        ("ReceiverWindowLimit", seq![ScopeType::Session]),
        ("SenderBufferLimit", seq![ScopeType::Session]),
        ("BufferbloatQueue", seq![ScopeType::Session]),
        ("MiddleboxInterference", seq![ScopeType::Session, ScopeType::Vlan]),
        ("UplinkLatencyPath", seq![ScopeType::Session]),
        ("SlowStartRamp", seq![ScopeType::Session]),
        ("CaptureScopeArtifact", seq![ScopeType::Session]),
        ("LanL2Instability", seq![ScopeType::Session, ScopeType::Vlan]),
        ("AddressingEdgeIssue", seq![ScopeType::Session, ScopeType::Vlan, ScopeType::ClientMac]),
        ("TlsPathInterference", seq![ScopeType::Session]),
        ("ControlPlaneAnomaly", seq![ScopeType::Global, ScopeType::Vlan]),
        ("CoexistencePressure", seq![ScopeType::Session, ScopeType::Vlan]),
        ("PmtudPathIssue", seq![ScopeType::Session]),
        ("IcmpUnreachablePath", seq![ScopeType::Session]),
        ("IcmpControlPlaneNoise", seq![ScopeType::Session]),
        ("ArpDuplicateAddress", seq![ScopeType::Session]),
        ("ArpStormPressure", seq![ScopeType::Session]),
        ("NdpVisibilityGap", seq![ScopeType::Session]),
        ("StpReconvergence", seq![ScopeType::Session]),
        ("DhcpDnsEdgeIssue", seq![ScopeType::Session]),
        ("DnsResolutionPath", seq![ScopeType::Session]),
        ("DnsTlsInconsistency", seq![ScopeType::Session]),
        ("TlsHandshakeSlowness", seq![ScopeType::Session]),
        ("HttpPolicyChain", seq![ScopeType::Session]),
        ("QuicCoexistence", seq![ScopeType::Session]),
        ("Dot1xOnboarding", seq![ScopeType::Session]),
        ("MulticastLanLoad", seq![ScopeType::Session]),
        ("ZeroconfNoise", seq![ScopeType::Session]),
        ("VlanStackingVisibility", seq![ScopeType::Session]),
        ("NtpChatter", seq![ScopeType::Session]),
        ("LldpContextOnly", seq![ScopeType::Session]),
        ("IncompleteHandshakeCapture", seq![ScopeType::Session]),
        ("RadiusHighRejectSignal", seq![ScopeType::Global]),
        ("RadiusRetransSignal", seq![ScopeType::Global]),
        ("RadiusSlowAuthSignal", seq![ScopeType::Global]),
        ("DiameterCerNoCeaSignal", seq![ScopeType::Global]),
        ("DiameterWatchdogUnansweredSignal", seq![ScopeType::Global]),
        ("DiameterResultErrorsSignal", seq![ScopeType::Global]),
        ("DiameterMalformedSignal", seq![ScopeType::Global]),
        ("DiameterSessionTermImbalanceSignal", seq![ScopeType::Global]),
        ("GtpCreateSessionFailuresSignal", seq![ScopeType::Global]),
        ("GtpEchoUnansweredSignal", seq![ScopeType::Global]),
        ("GtpDeleteSessionImbalanceSignal", seq![ScopeType::Global]),
        ("GtpModifySessionImbalanceSignal", seq![ScopeType::Global]),
        ("GtpUserOnlySignal", seq![ScopeType::Global]),
        ("DhcpHighNakSignal", seq![ScopeType::Global]),
        ("DhcpMissingOfferSignal", seq![ScopeType::Global]),
        ("DhcpSlowLeaseSignal", seq![ScopeType::Global]),
    ]
}

/// The view of the `k`-th catalog cause: a base cause for `k < 59`, else
/// the cause of Wi-Fi row `k - 59`, scoped to that row's scope.
pub open spec fn cause_row(k: int) -> (Seq<char>, Seq<char>, Seq<ScopeType>, Option<crate::types::Severity>) {
    if k < base_cause_table().len() {
        (base_cause_table()[k].0@, base_cause_table()[k].0@, base_cause_table()[k].1, None)
    } else {
        let row = wifi_table()[k - base_cause_table().len()];
        (row.cause_kind@, row.cause_kind@, seq![row.scope], None)
    }
}

/// Number of catalog causes.
pub open spec fn cause_table_len() -> int {
    (base_cause_table().len() + wifi_table().len()) as int
}

fn cause(name: &'static str, scopes: Vec<ScopeType>) -> (c: CauseSchema)
    ensures
        cause_view(c) == (name@, name@, scopes@, None::<crate::types::Severity>),
{
    CauseSchema { name, kind: Name::new(name), valid_scopes: scopes, default_severity: None }
}

fn base_causes() -> (r: Vec<CauseSchema>)
    ensures
        r@.len() == base_cause_table().len(),
        forall|k: int| 0 <= k < r@.len() ==> cause_view(#[trigger] r@[k]) == cause_row(k),
{
    let r = vec![
        cause("PmtudBlackhole", vec![ScopeType::Session, ScopeType::Vlan]),
        cause("Congestion", vec![ScopeType::Session]),
        cause("TransientL2Disruption", vec![ScopeType::Session, ScopeType::Vlan]),
        cause("PhysicalCableDamage", vec![ScopeType::Port]),
        cause("AuthServerOutage", vec![ScopeType::Vlan]),
        cause("RfInterference", vec![ScopeType::AccessPoint]),
        cause("UpstreamOutage", vec![ScopeType::Global]),
        cause("PhysicalLinkAbsent", vec![ScopeType::Port]),
        cause("PacketLossPath", vec![ScopeType::Session]),
        cause("SpuriousRetransmission", vec![ScopeType::Session]),
        cause("RadioChannelDegradation", vec![ScopeType::Session]),
        cause("ReceiverWindowLimit", vec![ScopeType::Session]),
        cause("SenderBufferLimit", vec![ScopeType::Session]),
        cause("BufferbloatQueue", vec![ScopeType::Session]),
        cause("MiddleboxInterference", vec![ScopeType::Session, ScopeType::Vlan]),
        cause("UplinkLatencyPath", vec![ScopeType::Session]),
        cause("SlowStartRamp", vec![ScopeType::Session]),
        cause("CaptureScopeArtifact", vec![ScopeType::Session]),
        cause("LanL2Instability", vec![ScopeType::Session, ScopeType::Vlan]),
        cause("AddressingEdgeIssue", vec![ScopeType::Session, ScopeType::Vlan, ScopeType::ClientMac]),
        cause("TlsPathInterference", vec![ScopeType::Session]),
        cause("ControlPlaneAnomaly", vec![ScopeType::Global, ScopeType::Vlan]),
        cause("CoexistencePressure", vec![ScopeType::Session, ScopeType::Vlan]),
        cause("PmtudPathIssue", vec![ScopeType::Session]),
        cause("IcmpUnreachablePath", vec![ScopeType::Session]),
        cause("IcmpControlPlaneNoise", vec![ScopeType::Session]),
        cause("ArpDuplicateAddress", vec![ScopeType::Session]),
        cause("ArpStormPressure", vec![ScopeType::Session]),
        cause("NdpVisibilityGap", vec![ScopeType::Session]),
        cause("StpReconvergence", vec![ScopeType::Session]),
        cause("DhcpDnsEdgeIssue", vec![ScopeType::Session]),
        cause("DnsResolutionPath", vec![ScopeType::Session]),
        cause("DnsTlsInconsistency", vec![ScopeType::Session]),
        cause("TlsHandshakeSlowness", vec![ScopeType::Session]),
        cause("HttpPolicyChain", vec![ScopeType::Session]),
        cause("QuicCoexistence", vec![ScopeType::Session]),
        cause("Dot1xOnboarding", vec![ScopeType::Session]),
        cause("MulticastLanLoad", vec![ScopeType::Session]),
        cause("ZeroconfNoise", vec![ScopeType::Session]),
        cause("VlanStackingVisibility", vec![ScopeType::Session]),
        cause("NtpChatter", vec![ScopeType::Session]),
        cause("LldpContextOnly", vec![ScopeType::Session]),
        cause("IncompleteHandshakeCapture", vec![ScopeType::Session]),
        cause("RadiusHighRejectSignal", vec![ScopeType::Global]),
        cause("RadiusRetransSignal", vec![ScopeType::Global]),
        cause("RadiusSlowAuthSignal", vec![ScopeType::Global]),
        cause("DiameterCerNoCeaSignal", vec![ScopeType::Global]),
        cause("DiameterWatchdogUnansweredSignal", vec![ScopeType::Global]),
        cause("DiameterResultErrorsSignal", vec![ScopeType::Global]),
        cause("DiameterMalformedSignal", vec![ScopeType::Global]),
        cause("DiameterSessionTermImbalanceSignal", vec![ScopeType::Global]),
        cause("GtpCreateSessionFailuresSignal", vec![ScopeType::Global]),
        cause("GtpEchoUnansweredSignal", vec![ScopeType::Global]),
        cause("GtpDeleteSessionImbalanceSignal", vec![ScopeType::Global]),
        cause("GtpModifySessionImbalanceSignal", vec![ScopeType::Global]),
        cause("GtpUserOnlySignal", vec![ScopeType::Global]),
        cause("DhcpHighNakSignal", vec![ScopeType::Global]),
        cause("DhcpMissingOfferSignal", vec![ScopeType::Global]),
        cause("DhcpSlowLeaseSignal", vec![ScopeType::Global]),
    ];
    proof {
        assert forall|k: int| 0 <= k < r@.len() implies cause_view(#[trigger] r@[k]) == cause_row(k) by {
            // One case per row: each row is a literal of the table.
            if k == 0 {
            } else if k == 1 {
            } else if k == 2 {
            } else if k == 3 {
            } else if k == 4 {
            } else if k == 5 {
            } else if k == 6 {
            } else if k == 7 {
            } else if k == 8 {
            } else if k == 9 {
            } else if k == 10 {
            } else if k == 11 {
            } else if k == 12 {
            } else if k == 13 {
            } else if k == 14 {
            } else if k == 15 {
            } else if k == 16 {
            } else if k == 17 {
            } else if k == 18 {
            } else if k == 19 {
            } else if k == 20 {
            } else if k == 21 {
            } else if k == 22 {
            } else if k == 23 {
            } else if k == 24 {
            } else if k == 25 {
            } else if k == 26 {
            } else if k == 27 {
            } else if k == 28 {
            } else if k == 29 {
            } else if k == 30 {
            } else if k == 31 {
            } else if k == 32 {
            } else if k == 33 {
            } else if k == 34 {
            } else if k == 35 {
            } else if k == 36 {
            } else if k == 37 {
            } else if k == 38 {
            } else if k == 39 {
            } else if k == 40 {
            } else if k == 41 {
            } else if k == 42 {
            } else if k == 43 {
            } else if k == 44 {
            } else if k == 45 {
            } else if k == 46 {
            } else if k == 47 {
            } else if k == 48 {
            } else if k == 49 {
            } else if k == 50 {
            } else if k == 51 {
            } else if k == 52 {
            } else if k == 53 {
            } else if k == 54 {
            } else if k == 55 {
            } else if k == 56 {
            } else if k == 57 {
            } else if k == 58 {
            }
        }
    }
    r
}

/// One cause per Wi-Fi mapping row: the row's cause kind, scoped to the
/// row's scope, with no default severity.
pub fn wifi_causes(rows: &Vec<WifiMapping>) -> (r: Vec<CauseSchema>)
    ensures
        r@.len() == rows@.len(),
        forall|k: int|
            0 <= k < rows@.len() ==> cause_view(#[trigger] r@[k]) == (
                rows@[k].cause_kind@,
                rows@[k].cause_kind@,
                seq![rows@[k].scope],
                None::<crate::types::Severity>,
            ),
{
    let mut r: Vec<CauseSchema> = Vec::new();
    let mut i: usize = 0;
    while i < rows.len()
        invariant
            0 <= i <= rows@.len(),
            r@.len() == i,
            forall|k: int|
                0 <= k < i ==> cause_view(#[trigger] r@[k]) == (
                    rows@[k].cause_kind@,
                    rows@[k].cause_kind@,
                    seq![rows@[k].scope],
                    None::<crate::types::Severity>,
                ),
        decreases rows@.len() - i,
    {
        let row = rows[i];
        let scopes = vec![row.scope];
        proof {
            assert(scopes@ =~= seq![row.scope]);
        }
        r.push(cause(row.cause_kind, scopes));
        i = i + 1;
    }
    r
}

/// All catalog causes: the base causes, then the Wi-Fi causes.
pub fn all_causes() -> (r: Vec<CauseSchema>)
    ensures
        r@.len() == cause_table_len(),
        forall|k: int| 0 <= k < r@.len() ==> cause_view(#[trigger] r@[k]) == cause_row(k),
{
    let mut r = base_causes();
    let rows = wifi_w0_mappings();
    let mut w = wifi_causes(&rows);
    let ghost b = r@;
    let ghost ws = w@;
    r.append(&mut w);
    proof {
        assert(r@ == b + ws);
        assert forall|k: int| 0 <= k < r@.len() implies cause_view(#[trigger] r@[k]) == cause_row(k) by {
            if k >= b.len() {
                assert(r@[k] == ws[k - b.len()]);
            }
        }
    }
    r
}

/// Number of catalog causes.
pub fn cause_count() -> (n: usize)
    ensures
        n == cause_table_len(),
{
    let r = all_causes();
    r.len()
}

/// Position of the first cause named `name` at or after `k`.
pub open spec fn cause_index_from(name: Seq<char>, k: int) -> Option<int>
    decreases cause_table_len() - k,
{
    if k < 0 || k >= cause_table_len() {
        None
    } else if cause_row(k).0 == name {
        Some(k)
    } else {
        cause_index_from(name, k + 1)
    }
}

/// Position of the first cause named `name`.
pub open spec fn cause_index(name: Seq<char>) -> Option<int> {
    cause_index_from(name, 0)
}

/// Resolves a cause schema by name: the first cause with that name, or
/// `None`.
pub fn resolve_cause(name: &str) -> (r: Option<CauseSchema>)
    ensures
        match cause_index(name@) {
            Some(k) => r matches Some(c) && cause_view(c) == cause_row(k),
            None => r is None,
        },
{
    let mut table = all_causes();
    let n = table.len();
    let mut i: usize = 0;
    while i < n
        invariant
            n == table@.len(),
            table@.len() == cause_table_len(),
            0 <= i <= n,
            forall|k: int| 0 <= k < table@.len() ==> cause_view(#[trigger] table@[k]) == cause_row(k),
            cause_index(name@) == cause_index_from(name@, i as int),
        decreases n - i,
    {
        proof {
            assert(cause_view(table@[i as int]) == cause_row(i as int));
        }
        if text_eq(table[i].name, name) {
            let c = table.remove(i);
            return Some(c);
        }
        i = i + 1;
    }
    None
}

} // verus!
