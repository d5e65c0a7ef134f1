//! The catalog's event table: each event's fields (in index order, with
//! privacy markers) and scope routes, with lookup by name.
use vstd::prelude::*;

use crate::catalog::schema::{EventSchema, FieldSchema, FieldType, ScopeRoute};
use crate::ir::FieldIdx;
use crate::types::{text_eq, Name, ScopeType};

verus! {

/// Plain view of an event schema: name, event type text, fields, routes.
pub open spec fn event_view(e: EventSchema) -> (Seq<char>, Seq<char>, Seq<FieldSchema>, Seq<ScopeRoute>) {
    (e.name@, e.event_type@, e.fields@, e.routing_paths@)
}

/// An `Int` field.
pub open spec fn int_field_spec(name: &'static str, index: u16) -> FieldSchema {
    FieldSchema { name, field_type: FieldType::Int, pii: false, idx: FieldIdx(index) }
}

/// The session-scoped `target` field at index 0.
pub open spec fn session_target_spec() -> FieldSchema {
    FieldSchema { name: "target", field_type: FieldType::ScopeId(ScopeType::Session), pii: false, idx: FieldIdx(0) }
}

/// The global-scoped `target` field at index 0.
pub open spec fn global_target_spec() -> FieldSchema {
    FieldSchema { name: "target", field_type: FieldType::ScopeId(ScopeType::Global), pii: false, idx: FieldIdx(0) }
}

/// A timestamped session flag event: `target`, `time`, `count`, routed by
/// `target` to its session.
pub open spec fn l3_flag_row(name: &'static str) -> (&'static str, Seq<FieldSchema>, Seq<ScopeRoute>) {
    (
        name,
        seq![session_target_spec(), int_field_spec("time", 1), int_field_spec("count", 2)],
        seq![ScopeRoute { scope: ScopeType::Session, path: "target" }],
    )
}

/// The event table rows: name, fields, routes, in catalog order.
pub open spec fn base_event_table() -> Seq<(&'static str, Seq<FieldSchema>, Seq<ScopeRoute>)> {
    seq![
        (
            "tcp.retransmission_burst",
            seq![
                FieldSchema { name: "segment_size", field_type: FieldType::Int, pii: false, idx: FieldIdx(0) },
                FieldSchema { name: "target", field_type: FieldType::ScopeId(ScopeType::Session), pii: false, idx: FieldIdx(1) },
                FieldSchema { name: "time", field_type: FieldType::Int, pii: false, idx: FieldIdx(2) },
                FieldSchema { name: "vlan", field_type: FieldType::ScopeId(ScopeType::Vlan), pii: false, idx: FieldIdx(3) },
                FieldSchema { name: "path", field_type: FieldType::ScopeIdList, pii: false, idx: FieldIdx(4) },
                FieldSchema { name: "dst_ip", field_type: FieldType::Int, pii: true, idx: FieldIdx(5) },
                FieldSchema { name: "src_ip", field_type: FieldType::Int, pii: true, idx: FieldIdx(6) },
            ],
            seq![
                ScopeRoute { scope: ScopeType::Session, path: "target" },
                ScopeRoute { scope: ScopeType::Vlan, path: "vlan" },
                ScopeRoute { scope: ScopeType::Vlan, path: "path" },
            ],
        ),
        (
            "icmp.ptb",
            seq![
                session_target_spec(),
                int_field_spec("time", 1),
                int_field_spec("quoted_mtu", 2),
                FieldSchema { name: "path", field_type: FieldType::ScopeIdList, pii: false, idx: FieldIdx(3) },
                FieldSchema { name: "dst_ip", field_type: FieldType::Int, pii: true, idx: FieldIdx(4) },
            ],
            seq![
                ScopeRoute { scope: ScopeType::Session, path: "target" },
            ],
        ),
        (
            "wifi.deauth_burst",
            seq![
                FieldSchema { name: "target", field_type: FieldType::ScopeId(ScopeType::AccessPoint), pii: false, idx: FieldIdx(0) },
                int_field_spec("time", 1),
                int_field_spec("count", 2),
                FieldSchema { name: "bssid", field_type: FieldType::Int, pii: true, idx: FieldIdx(3) },
                FieldSchema { name: "client_macs", field_type: FieldType::IntList, pii: true, idx: FieldIdx(4) },
                int_field_spec("window_ms", 5),
            ],
            seq![
                ScopeRoute { scope: ScopeType::AccessPoint, path: "target" },
            ],
        ),
        (
            "wifi.rf_telemetry",
            seq![
                FieldSchema { name: "target", field_type: FieldType::ScopeId(ScopeType::AccessPoint), pii: false, idx: FieldIdx(0) },
                int_field_spec("time", 1),
                int_field_spec("rssi", 2),
                int_field_spec("noise", 3),
                int_field_spec("channel", 4),
            ],
            seq![
                ScopeRoute { scope: ScopeType::AccessPoint, path: "target" },
            ],
        ),
        (
            "stp.topology_change",
            seq![
                FieldSchema { name: "target", field_type: FieldType::ScopeId(ScopeType::Vlan), pii: false, idx: FieldIdx(0) },
                int_field_spec("time", 1),
                FieldSchema { name: "vlan", field_type: FieldType::ScopeId(ScopeType::Vlan), pii: false, idx: FieldIdx(2) },
            ],
            seq![
                ScopeRoute { scope: ScopeType::Vlan, path: "target" },
            ],
        ),
        (
            "dhcp.timeout",
            seq![
                FieldSchema { name: "target", field_type: FieldType::ScopeId(ScopeType::ClientMac), pii: false, idx: FieldIdx(0) },
                int_field_spec("time", 1),
                FieldSchema { name: "vlan", field_type: FieldType::ScopeId(ScopeType::Vlan), pii: false, idx: FieldIdx(2) },
                FieldSchema { name: "client_mac", field_type: FieldType::Int, pii: true, idx: FieldIdx(3) },
            ],
            seq![
                ScopeRoute { scope: ScopeType::ClientMac, path: "target" },
                ScopeRoute { scope: ScopeType::Vlan, path: "vlan" },
            ],
        ),
        (
            "radius.access_request",
            seq![
                FieldSchema { name: "target", field_type: FieldType::ScopeId(ScopeType::ClientMac), pii: false, idx: FieldIdx(0) },
                int_field_spec("time", 1),
                FieldSchema { name: "vlan", field_type: FieldType::ScopeId(ScopeType::Vlan), pii: false, idx: FieldIdx(2) },
            ],
            seq![
                ScopeRoute { scope: ScopeType::ClientMac, path: "target" },
                ScopeRoute { scope: ScopeType::Vlan, path: "vlan" },
            ],
        ),
        (
            "dot1x.eapol_start",
            seq![
                FieldSchema { name: "target", field_type: FieldType::ScopeId(ScopeType::ClientMac), pii: false, idx: FieldIdx(0) },
                int_field_spec("time", 1),
                FieldSchema { name: "vlan", field_type: FieldType::ScopeId(ScopeType::Vlan), pii: false, idx: FieldIdx(2) },
            ],
            seq![
                ScopeRoute { scope: ScopeType::ClientMac, path: "target" },
                ScopeRoute { scope: ScopeType::Vlan, path: "vlan" },
            ],
        ),
        (
            "port.crc_errors",
            seq![
                FieldSchema { name: "target", field_type: FieldType::ScopeId(ScopeType::Port), pii: false, idx: FieldIdx(0) },
                int_field_spec("time", 1),
                int_field_spec("count", 2),
            ],
            seq![
                ScopeRoute { scope: ScopeType::Port, path: "target" },
            ],
        ),
        (
            "port.link_flap",
            seq![
                FieldSchema { name: "target", field_type: FieldType::ScopeId(ScopeType::Port), pii: false, idx: FieldIdx(0) },
                int_field_spec("time", 1),
                int_field_spec("count", 2),
            ],
            seq![
                ScopeRoute { scope: ScopeType::Port, path: "target" },
            ],
        ),
        (
            "port.admin_state",
            seq![
                FieldSchema { name: "target", field_type: FieldType::ScopeId(ScopeType::Port), pii: false, idx: FieldIdx(0) },
                int_field_spec("time", 1),
                FieldSchema { name: "state", field_type: FieldType::String, pii: false, idx: FieldIdx(2) },
            ],
            seq![
                ScopeRoute { scope: ScopeType::Port, path: "target" },
            ],
        ),
        (
            "port.oper_state",
            seq![
                FieldSchema { name: "target", field_type: FieldType::ScopeId(ScopeType::Port), pii: false, idx: FieldIdx(0) },
                int_field_spec("time", 1),
                FieldSchema { name: "state", field_type: FieldType::String, pii: false, idx: FieldIdx(2) },
            ],
            seq![
                ScopeRoute { scope: ScopeType::Port, path: "target" },
            ],
        ),
        (
            "tcp.session_summary",
            seq![
                session_target_spec(),
                int_field_spec("loss_rate_pm", 1),
                int_field_spec("burst_count", 2),
                int_field_spec("loss_type", 3),
                int_field_spec("rto_ratio_pm", 4),
                int_field_spec("rtt_mean_ms", 5),
                int_field_spec("rtt_p95_ms", 6),
                int_field_spec("rtt_inflation_centi", 7),
                int_field_spec("cwnd_rwin_ratio_centi", 8),
                int_field_spec("rwin_median", 9),
                int_field_spec("cwnd_median", 10),
                int_field_spec("bdp_gap", 11),
                int_field_spec("bufferbloat", 12),
                int_field_spec("buffer_mean_ratio_centi", 13),
                int_field_spec("throughput_mean_kbps", 14),
                int_field_spec("zero_window_events", 15),
                int_field_spec("acked_unseen_count", 16),
                int_field_spec("checksum_bad_count", 17),
                int_field_spec("completeness", 18),
                int_field_spec("sack_scoreboard_retrans", 19),
                int_field_spec("tail_loss_probe_events", 20),
                int_field_spec("rst_count", 21),
                int_field_spec("fast_retransmissions", 22),
                int_field_spec("rto_count", 23),
                int_field_spec("duration_ms", 24),
                int_field_spec("total_bytes", 25),
                int_field_spec("time", 26),
                int_field_spec("lost_packets", 27),
                int_field_spec("packet_count", 28),
                int_field_spec("session_is_ipv6", 29),
            ],
            seq![
                ScopeRoute { scope: ScopeType::Session, path: "target" },
            ],
        ),
        l3_flag_row("icmp.unreach"),
        l3_flag_row("icmp.ttl_exceeded"),
        l3_flag_row("icmp.redirect"),
        l3_flag_row("icmp.tcp_mss"),
        l3_flag_row("icmp.tcp_blackhole"),
        l3_flag_row("arp.storm"),
        l3_flag_row("arp.dup_ip"),
        l3_flag_row("ndp.rs_only"),
        l3_flag_row("dhcp.ether_issue"),
        l3_flag_row("dhcp.dns_mismatch"),
        l3_flag_row("dhcpv6.ether_issue"),
        l3_flag_row("dns.onboard_anomaly"),
        l3_flag_row("dns.tls_name_mismatch"),
        l3_flag_row("tls.slow_handshake"),
        l3_flag_row("tls.alerts"),
        l3_flag_row("http.redirect_burst"),
        l3_flag_row("http.errors"),
        l3_flag_row("quic.tcp_coexist"),
        l3_flag_row("dot1x.wired"),
        l3_flag_row("stp.tcn"),
        l3_flag_row("stp.tcp_burst"),
        l3_flag_row("igmp.mld_heavy"),
        l3_flag_row("zeroconf.udp_burst"),
        l3_flag_row("vlan.qinq"),
        l3_flag_row("ntp.udp_heavy"),
        l3_flag_row("lldp.seen"),
        l3_flag_row("tunnel.icmp_mtu"),
        (
            "radius.summary",
            seq![
                global_target_spec(),
                int_field_spec("reject_rate_pm", 1),
                int_field_spec("access_request", 2),
                int_field_spec("retransmissions", 3),
                int_field_spec("latency_median_ms", 4),
            ],
            seq![
                ScopeRoute { scope: ScopeType::Global, path: "target" },
            ],
        ),
        (
            "diameter.summary",
            seq![
                global_target_spec(),
                int_field_spec("dwr_dwa_gap", 1),
                int_field_spec("result_errors_total", 2),
                int_field_spec("cer", 3),
                int_field_spec("cea", 4),
                int_field_spec("malformed", 5),
                int_field_spec("session_term_gap", 6),
            ],
            seq![
                ScopeRoute { scope: ScopeType::Global, path: "target" },
            ],
        ),
        (
            "gtp.summary",
            seq![
                global_target_spec(),
                int_field_spec("echo_request", 1),
                int_field_spec("echo_response", 2),
                int_field_spec("create_session_failure_rate_pm", 3),
                int_field_spec("create_session_req", 4),
                int_field_spec("user_only", 5),
                int_field_spec("delete_session_req", 6),
                int_field_spec("delete_session_resp", 7),
                int_field_spec("modify_session_req", 8),
                int_field_spec("modify_session_resp", 9),
            ],
            seq![
                ScopeRoute { scope: ScopeType::Global, path: "target" },
            ],
        ),
        (
            "dhcp.summary",
            seq![
                global_target_spec(),
                int_field_spec("nak_rate_pm", 1),
                int_field_spec("nak", 2),
                int_field_spec("discover_without_offer", 3),
                int_field_spec("lease_latency_median_ms", 4),
            ],
            seq![
                ScopeRoute { scope: ScopeType::Global, path: "target" },
            ],
        ),
    ]
}

/// The view of the `k`-th base event.
pub open spec fn base_row(k: int) -> (Seq<char>, Seq<char>, Seq<FieldSchema>, Seq<ScopeRoute>) {
    let r = base_event_table()[k];
    (r.0@, r.0@, r.1, r.2)
}

/// The Wi-Fi and cross-layer events: name, target scope, privacy-marked
/// fields, then plain integer fields (after `target` and `time`).
pub open spec fn wifi_event_table() -> Seq<(&'static str, ScopeType, Seq<&'static str>, Seq<&'static str>)> {
    seq![
        ("wifi.mgmt.beacon", ScopeType::AccessPoint, seq![], seq!["channel", "rssi_dbm", "dtim_period", "has_rsn"]),
        ("wifi.mgmt.probe_req", ScopeType::ClientMac, seq![], seq!["freq_mhz"]),
        ("wifi.mgmt.probe_resp", ScopeType::AccessPoint, seq![], seq!["rssi_dbm"]),
        ("wifi.mgmt.auth", ScopeType::ClientMac, seq!["bssid"], seq!["seq", "status", "algorithm"]),
        ("wifi.mgmt.assoc_req", ScopeType::ClientMac, seq!["bssid"], seq!["ft_pmkid_hint"]),
        ("wifi.mgmt.assoc_resp", ScopeType::ClientMac, seq![], seq!["status"]),
        (
            "wifi.mgmt.deauth",
            ScopeType::ClientMac,
            seq![],
            seq!["initiator", "reason", "protected", "is_deauth_or_disassoc", "initiator_code"],
        ),
        (
            "wifi.mgmt.action",
            ScopeType::AccessPoint,
            seq![],
            seq!["category", "protected", "initiator_code", "associated", "csa_present"],
        ),
        ("wifi.mgmt.cts", ScopeType::AccessPoint, seq![], seq!["nav_us"]),
        ("wifi.ctrl.rts", ScopeType::AccessPoint, seq![], seq![]),
        ("wifi.ctrl.bar", ScopeType::AccessPoint, seq![], seq![]),
        ("wifi.data.frame", ScopeType::ClientMac, seq![], seq!["retry", "protected", "tid", "rate_kbps", "rssi_dbm"]),
        ("wifi.eapol.frame", ScopeType::ClientMac, seq![], seq!["frame_type"]),
        ("wifi.client.auth_outcome", ScopeType::ClientMac, seq![], seq![]),
        ("wifi.client.eap_outcome", ScopeType::ClientMac, seq![], seq![]),
        ("wifi.client.roam_outcome", ScopeType::ClientMac, seq![], seq![]),
        ("wifi.client.dhcp_outcome", ScopeType::ClientMac, seq![], seq![]),
        ("wifi.client.dhcpv6_outcome", ScopeType::ClientMac, seq![], seq![]),
        ("wifi.client.dns_outcome", ScopeType::ClientMac, seq![], seq![]),
        ("wifi.client.assoc_pending", ScopeType::ClientMac, seq![], seq![]),
        ("wifi.client.sae_outcome", ScopeType::ClientMac, seq![], seq![]),
        ("wifi.client.twt_outcome", ScopeType::ClientMac, seq![], seq![]),
        ("wifi.ap.summary", ScopeType::AccessPoint, seq!["bssid"], ap_summary_fields()),
        ("wifi.client.summary", ScopeType::ClientMac, seq!["client_mac"], client_summary_fields()),
        ("tcp.rtt_sample", ScopeType::Session, seq![], seq!["rtt_ms", "baseline_rtt_ms"]),
        ("tcp.throughput_sample", ScopeType::Session, seq![], seq!["throughput_kbps"]),
    ]
}

/// The plain fields of `wifi.ap.summary`.
pub open spec fn ap_summary_fields() -> Seq<&'static str> {
    seq![
        "gap_us", "expected_interval_us", "missed_count", "jitter_centi_ratio", "sample_count", "probe_age_ms",
        "beacon_age_ms", "beacon_rates_hash", "assoc_rates_hash", "consecutive_count", "max_gap_ms", "bar_count",
        "window_ms", "peer_rates_hash", "rates_hash", "ap_count", "has_rsn", "max_rate_kbps", "has_ht_cap", "streak",
        "channel_count", "rssi_dbm", "delta_db", "frame_count", "retry_permille", "weak_security", "client_count",
        "target_is_dfs", "ssid_count", "dtim_period", "util_centipercent", "security_fingerprint_count",
        "active_sta_count", "min_sta_frames", "ap_retry_permille", "client_retry_mean_permille", "peer_bssid_count",
        "high_co_channel_present", "is_6ghz", "has_he_cap", "eht_width_code", "has_eht_cap", "has_puncturing_bitmap",
        "has_visible_ssid", "has_supported_rates", "collision", "unencrypted_traffic_leak",
    ]
}

/// The plain fields of `wifi.client.summary`: the first set, then the
/// appended windowed counters.
pub open spec fn client_summary_fields() -> Seq<&'static str> {
    seq![
        "streak", "ps_poll_count", "state_code", "count", "window_ms", "connected", "snr_db", "rate_kbps",
        "data_frame_count", "absence_ms", "has_ul", "has_dl", "ps_beacon_streak", "ft", "pmkid_count", "protected",
        "assoc_age_ms", "tid", "rssi_dbm", "neighbor_delta_db", "distinct_ap_count", "probe_count", "probe_5g_count",
        "probe_24g_count", "associated_5g", "failed_count", "ft_or_bss_tm", "seq_delta", "retry",
        "client_generation_code", "ap_generation_code", "mlo_present", "saw_6ghz", "saw_psc", "unique_servfail_count",
        "nxdomain_count", "server_rst_count", "ap_retry_permille", "auth_latency_ms", "summary_kind_code",
        "probe_count_10s", "deauth_count_30s", "disconnect_count_60s", "distinct_ap_count_60s",
        "emlsr_transition_count_60s", "band_probe_count_60s", "band_probe_5g_count_60s", "band_probe_24g_count_60s",
        "psc_probe_count_120s", "dns_servfail_unique_count", "dns_nxdomain_count", "captive_rst_count_120s",
        "ft_failure_count_60s", "tid_has_ul", "tid_has_dl", "saw_eapol",
    ]
}

/// The fields of a Wi-Fi event: `target` (its scope) and `time`, the
/// privacy-marked fields, the plain fields, then the sibling-scope routing
/// fields of `wifi.mgmt.deauth` (`bssid`, `ap_target`) and
/// `wifi.mgmt.action` (`client_target`); indices run in that order.
pub open spec fn wifi_fields(name: &'static str, scope: ScopeType, pii: Seq<&'static str>, extra: Seq<&'static str>) -> Seq<
    FieldSchema,
> {
    let head = seq![
        FieldSchema { name: "target", field_type: FieldType::ScopeId(scope), pii: false, idx: FieldIdx(0) },
        int_field_spec("time", 1),
    ];
    let n = 2 + pii.len();
    let m = n + extra.len();
    let p = Seq::new(
        pii.len(),
        |i: int| FieldSchema { name: pii[i], field_type: FieldType::Int, pii: true, idx: FieldIdx((2 + i) as u16) },
    );
    let x = Seq::new(extra.len(), |i: int| int_field_spec(extra[i], (n + i) as u16));
    let tail = if name@ == "wifi.mgmt.deauth"@ {
        seq![
            FieldSchema { name: "bssid", field_type: FieldType::Int, pii: true, idx: FieldIdx(m as u16) },
            FieldSchema {
                name: "ap_target",
                field_type: FieldType::ScopeId(ScopeType::AccessPoint),
                pii: false,
                idx: FieldIdx((m + 1) as u16),
            },
        ]
    } else if name@ == "wifi.mgmt.action"@ {
        seq![
            FieldSchema {
                name: "client_target",
                field_type: FieldType::ScopeId(ScopeType::ClientMac),
                pii: false,
                idx: FieldIdx(m as u16),
            },
        ]
    } else {
        Seq::empty()
    };
    head + p + x + tail
}

/// The routes of a Wi-Fi event: by `target` to its scope, plus the
/// sibling route of `wifi.mgmt.deauth` and `wifi.mgmt.action`.
pub open spec fn wifi_routes(name: &'static str, scope: ScopeType) -> Seq<ScopeRoute> {
    if name@ == "wifi.mgmt.deauth"@ {
        seq![
            ScopeRoute { scope: ScopeType::ClientMac, path: "target" },
            ScopeRoute { scope: ScopeType::AccessPoint, path: "ap_target" },
        ]
    } else if name@ == "wifi.mgmt.action"@ {
        seq![
            ScopeRoute { scope: ScopeType::AccessPoint, path: "target" },
            ScopeRoute { scope: ScopeType::ClientMac, path: "client_target" },
        ]
    } else {
        seq![ScopeRoute { scope, path: "target" }]
    }
}

/// The view of a Wi-Fi event built from its table row.
pub open spec fn wifi_row(r: (&'static str, ScopeType, Seq<&'static str>, Seq<&'static str>)) -> (
    Seq<char>,
    Seq<char>,
    Seq<FieldSchema>,
    Seq<ScopeRoute>,
) {
    (r.0@, r.0@, wifi_fields(r.0, r.1, r.2, r.3), wifi_routes(r.0, r.1))
}

/// Number of catalog events: the base events, then the Wi-Fi events.
pub open spec fn catalog_event_count() -> int {
    (base_event_table().len() + wifi_event_table().len()) as int
}

/// The view of the `k`-th catalog event.
pub open spec fn event_row(k: int) -> (Seq<char>, Seq<char>, Seq<FieldSchema>, Seq<ScopeRoute>) {
    if k < base_event_table().len() {
        base_row(k)
    } else {
        wifi_row(wifi_event_table()[k - base_event_table().len()])
    }
}

fn int_field(name: &'static str, index: u16) -> (f: FieldSchema)
    ensures
        f == int_field_spec(name, index),
{
    FieldSchema { name, field_type: FieldType::Int, pii: false, idx: FieldIdx(index) }
}

fn session_target() -> (f: FieldSchema)
    ensures
        f == session_target_spec(),
{
    FieldSchema { name: "target", field_type: FieldType::ScopeId(ScopeType::Session), pii: false, idx: FieldIdx(0) }
}

fn global_target() -> (f: FieldSchema)
    ensures
        f == global_target_spec(),
{
    FieldSchema { name: "target", field_type: FieldType::ScopeId(ScopeType::Global), pii: false, idx: FieldIdx(0) }
}

fn event(name: &'static str, fields: Vec<FieldSchema>, routes: Vec<ScopeRoute>) -> (e: EventSchema)
    ensures
        event_view(e) == (name@, name@, fields@, routes@),
{
    EventSchema { name, event_type: Name::new(name), fields, routing_paths: routes }
}

fn l3_session_flag_event(name: &'static str) -> (e: EventSchema)
    ensures
        event_view(e) == (name@, name@, l3_flag_row(name).1, l3_flag_row(name).2),
{
    let fields = vec![session_target(), int_field("time", 1), int_field("count", 2)];
    let routes = vec![ScopeRoute { scope: ScopeType::Session, path: "target" }];
    proof {
        assert(fields@ =~= l3_flag_row(name).1);
        assert(routes@ =~= l3_flag_row(name).2);
    }
    event(name, fields, routes)
}

/// The base event schemas, in declaration order.
#[verifier::rlimit(100)]
fn base_events() -> (r: Vec<EventSchema>)
    ensures
        r@.len() == base_event_table().len(),
        forall|k: int| 0 <= k < r@.len() ==> event_view(#[trigger] r@[k]) == base_row(k),
{
    let r = vec![
        event(
            "tcp.retransmission_burst",
            vec![
                FieldSchema { name: "segment_size", field_type: FieldType::Int, pii: false, idx: FieldIdx(0) },
                FieldSchema { name: "target", field_type: FieldType::ScopeId(ScopeType::Session), pii: false, idx: FieldIdx(1) },
                FieldSchema { name: "time", field_type: FieldType::Int, pii: false, idx: FieldIdx(2) },
                FieldSchema { name: "vlan", field_type: FieldType::ScopeId(ScopeType::Vlan), pii: false, idx: FieldIdx(3) },
                FieldSchema { name: "path", field_type: FieldType::ScopeIdList, pii: false, idx: FieldIdx(4) },
                FieldSchema { name: "dst_ip", field_type: FieldType::Int, pii: true, idx: FieldIdx(5) },
                FieldSchema { name: "src_ip", field_type: FieldType::Int, pii: true, idx: FieldIdx(6) },
            ],
            vec![
                ScopeRoute { scope: ScopeType::Session, path: "target" },
                ScopeRoute { scope: ScopeType::Vlan, path: "vlan" },
                ScopeRoute { scope: ScopeType::Vlan, path: "path" },
            ],
        ),
        event(
            "icmp.ptb",
            vec![
                session_target(),
                int_field("time", 1),
                int_field("quoted_mtu", 2),
                FieldSchema { name: "path", field_type: FieldType::ScopeIdList, pii: false, idx: FieldIdx(3) },
                FieldSchema { name: "dst_ip", field_type: FieldType::Int, pii: true, idx: FieldIdx(4) },
            ],
            vec![
                ScopeRoute { scope: ScopeType::Session, path: "target" },
            ],
        ),
        event(
            "wifi.deauth_burst",
            vec![
                FieldSchema { name: "target", field_type: FieldType::ScopeId(ScopeType::AccessPoint), pii: false, idx: FieldIdx(0) },
                int_field("time", 1),
                int_field("count", 2),
                FieldSchema { name: "bssid", field_type: FieldType::Int, pii: true, idx: FieldIdx(3) },
                FieldSchema { name: "client_macs", field_type: FieldType::IntList, pii: true, idx: FieldIdx(4) },
                int_field("window_ms", 5),
            ],
            vec![
                ScopeRoute { scope: ScopeType::AccessPoint, path: "target" },
            ],
        ),
        event(
            "wifi.rf_telemetry",
            vec![
                FieldSchema { name: "target", field_type: FieldType::ScopeId(ScopeType::AccessPoint), pii: false, idx: FieldIdx(0) },
                int_field("time", 1),
                int_field("rssi", 2),
                int_field("noise", 3),
                int_field("channel", 4),
            ],
            vec![
                ScopeRoute { scope: ScopeType::AccessPoint, path: "target" },
            ],
        ),
        event(
            "stp.topology_change",
            vec![
                FieldSchema { name: "target", field_type: FieldType::ScopeId(ScopeType::Vlan), pii: false, idx: FieldIdx(0) },
                int_field("time", 1),
                FieldSchema { name: "vlan", field_type: FieldType::ScopeId(ScopeType::Vlan), pii: false, idx: FieldIdx(2) },
            ],
            vec![
                ScopeRoute { scope: ScopeType::Vlan, path: "target" },
            ],
        ),
        event(
            "dhcp.timeout",
            vec![
                FieldSchema { name: "target", field_type: FieldType::ScopeId(ScopeType::ClientMac), pii: false, idx: FieldIdx(0) },
                int_field("time", 1),
                FieldSchema { name: "vlan", field_type: FieldType::ScopeId(ScopeType::Vlan), pii: false, idx: FieldIdx(2) },
                FieldSchema { name: "client_mac", field_type: FieldType::Int, pii: true, idx: FieldIdx(3) },
            ],
            vec![
                ScopeRoute { scope: ScopeType::ClientMac, path: "target" },
                ScopeRoute { scope: ScopeType::Vlan, path: "vlan" },
            ],
        ),
        event(
            "radius.access_request",
            vec![
                FieldSchema { name: "target", field_type: FieldType::ScopeId(ScopeType::ClientMac), pii: false, idx: FieldIdx(0) },
                int_field("time", 1),
                FieldSchema { name: "vlan", field_type: FieldType::ScopeId(ScopeType::Vlan), pii: false, idx: FieldIdx(2) },
            ],
            vec![
                ScopeRoute { scope: ScopeType::ClientMac, path: "target" },
                ScopeRoute { scope: ScopeType::Vlan, path: "vlan" },
            ],
        ),
        event(
            "dot1x.eapol_start",
            vec![
                FieldSchema { name: "target", field_type: FieldType::ScopeId(ScopeType::ClientMac), pii: false, idx: FieldIdx(0) },
                int_field("time", 1),
                FieldSchema { name: "vlan", field_type: FieldType::ScopeId(ScopeType::Vlan), pii: false, idx: FieldIdx(2) },
            ],
            vec![
                ScopeRoute { scope: ScopeType::ClientMac, path: "target" },
                ScopeRoute { scope: ScopeType::Vlan, path: "vlan" },
            ],
        ),
        event(
            "port.crc_errors",
            vec![
                FieldSchema { name: "target", field_type: FieldType::ScopeId(ScopeType::Port), pii: false, idx: FieldIdx(0) },
                int_field("time", 1),
                int_field("count", 2),
            ],
            vec![
                ScopeRoute { scope: ScopeType::Port, path: "target" },
            ],
        ),
        event(
            "port.link_flap",
            vec![
                FieldSchema { name: "target", field_type: FieldType::ScopeId(ScopeType::Port), pii: false, idx: FieldIdx(0) },
                int_field("time", 1),
                int_field("count", 2),
            ],
            vec![
                ScopeRoute { scope: ScopeType::Port, path: "target" },
            ],
        ),
        event(
            "port.admin_state",
            vec![
                FieldSchema { name: "target", field_type: FieldType::ScopeId(ScopeType::Port), pii: false, idx: FieldIdx(0) },
                int_field("time", 1),
                FieldSchema { name: "state", field_type: FieldType::String, pii: false, idx: FieldIdx(2) },
            ],
            vec![
                ScopeRoute { scope: ScopeType::Port, path: "target" },
            ],
        ),
        event(
            "port.oper_state",
            vec![
                FieldSchema { name: "target", field_type: FieldType::ScopeId(ScopeType::Port), pii: false, idx: FieldIdx(0) },
                int_field("time", 1),
                FieldSchema { name: "state", field_type: FieldType::String, pii: false, idx: FieldIdx(2) },
            ],
            vec![
                ScopeRoute { scope: ScopeType::Port, path: "target" },
            ],
        ),
        event(
            "tcp.session_summary",
            vec![
                session_target(),
                int_field("loss_rate_pm", 1),
                int_field("burst_count", 2),
                int_field("loss_type", 3),
                int_field("rto_ratio_pm", 4),
                int_field("rtt_mean_ms", 5),
                int_field("rtt_p95_ms", 6),
                int_field("rtt_inflation_centi", 7),
                int_field("cwnd_rwin_ratio_centi", 8),
                int_field("rwin_median", 9),
                int_field("cwnd_median", 10),
                int_field("bdp_gap", 11),
                int_field("bufferbloat", 12),
                int_field("buffer_mean_ratio_centi", 13),
                int_field("throughput_mean_kbps", 14),
                int_field("zero_window_events", 15),
                int_field("acked_unseen_count", 16),
                int_field("checksum_bad_count", 17),
                int_field("completeness", 18),
                int_field("sack_scoreboard_retrans", 19),
                int_field("tail_loss_probe_events", 20),
                int_field("rst_count", 21),
                int_field("fast_retransmissions", 22),
                int_field("rto_count", 23),
                int_field("duration_ms", 24),
                int_field("total_bytes", 25),
                int_field("time", 26),
                int_field("lost_packets", 27),
                int_field("packet_count", 28),
                int_field("session_is_ipv6", 29),
            ],
            vec![
                ScopeRoute { scope: ScopeType::Session, path: "target" },
            ],
        ),
        l3_session_flag_event("icmp.unreach"),
        l3_session_flag_event("icmp.ttl_exceeded"),
        l3_session_flag_event("icmp.redirect"),
        l3_session_flag_event("icmp.tcp_mss"),
        l3_session_flag_event("icmp.tcp_blackhole"),
        l3_session_flag_event("arp.storm"),
        l3_session_flag_event("arp.dup_ip"),
        l3_session_flag_event("ndp.rs_only"),
        l3_session_flag_event("dhcp.ether_issue"),
        l3_session_flag_event("dhcp.dns_mismatch"),
        l3_session_flag_event("dhcpv6.ether_issue"),
        l3_session_flag_event("dns.onboard_anomaly"),
        l3_session_flag_event("dns.tls_name_mismatch"),
        l3_session_flag_event("tls.slow_handshake"),
        l3_session_flag_event("tls.alerts"),
        l3_session_flag_event("http.redirect_burst"),
        l3_session_flag_event("http.errors"),
        l3_session_flag_event("quic.tcp_coexist"),
        l3_session_flag_event("dot1x.wired"),
        l3_session_flag_event("stp.tcn"),
        l3_session_flag_event("stp.tcp_burst"),
        l3_session_flag_event("igmp.mld_heavy"),
        l3_session_flag_event("zeroconf.udp_burst"),
        l3_session_flag_event("vlan.qinq"),
        l3_session_flag_event("ntp.udp_heavy"),
        l3_session_flag_event("lldp.seen"),
        l3_session_flag_event("tunnel.icmp_mtu"),
        event(
            "radius.summary",
            vec![
                global_target(),
                int_field("reject_rate_pm", 1),
                int_field("access_request", 2),
                int_field("retransmissions", 3),
                int_field("latency_median_ms", 4),
            ],
            vec![
                ScopeRoute { scope: ScopeType::Global, path: "target" },
            ],
        ),
        event(
            "diameter.summary",
            vec![
                global_target(),
                int_field("dwr_dwa_gap", 1),
                int_field("result_errors_total", 2),
                int_field("cer", 3),
                int_field("cea", 4),
                int_field("malformed", 5),
                int_field("session_term_gap", 6),
            ],
            vec![
                ScopeRoute { scope: ScopeType::Global, path: "target" },
            ],
        ),
        event(
            "gtp.summary",
            vec![
                global_target(),
                int_field("echo_request", 1),
                int_field("echo_response", 2),
                int_field("create_session_failure_rate_pm", 3),
                int_field("create_session_req", 4),
                int_field("user_only", 5),
                int_field("delete_session_req", 6),
                int_field("delete_session_resp", 7),
                int_field("modify_session_req", 8),
                int_field("modify_session_resp", 9),
            ],
            vec![
                ScopeRoute { scope: ScopeType::Global, path: "target" },
            ],
        ),
        event(
            "dhcp.summary",
            vec![
                global_target(),
                int_field("nak_rate_pm", 1),
                int_field("nak", 2),
                int_field("discover_without_offer", 3),
                int_field("lease_latency_median_ms", 4),
            ],
            vec![
                ScopeRoute { scope: ScopeType::Global, path: "target" },
            ],
        ),
    ];
    proof {
        assert forall|k: int| 0 <= k < r@.len() implies event_view(#[trigger] r@[k]) == base_row(k) by {
            // One case per row: each row is a literal of the table.
            if k == 0 {
            } else if k == 1 {
            } else if k == 2 {
            } else if k == 3 {
            } else if k == 4 {
            } else if k == 5 {
            } else if k == 6 {
            } else if k == 7 {
            } else if k == 8 {
            } else if k == 9 {
            } else if k == 10 {
            } else if k == 11 {
            } else if k == 12 {
            } else if k == 13 {
            } else if k == 14 {
            } else if k == 15 {
            } else if k == 16 {
            } else if k == 17 {
            } else if k == 18 {
            } else if k == 19 {
            } else if k == 20 {
            } else if k == 21 {
            } else if k == 22 {
            } else if k == 23 {
            } else if k == 24 {
            } else if k == 25 {
            } else if k == 26 {
            } else if k == 27 {
            } else if k == 28 {
            } else if k == 29 {
            } else if k == 30 {
            } else if k == 31 {
            } else if k == 32 {
            } else if k == 33 {
            } else if k == 34 {
            } else if k == 35 {
            } else if k == 36 {
            } else if k == 37 {
            } else if k == 38 {
            } else if k == 39 {
            } else if k == 40 {
            } else if k == 41 {
            } else if k == 42 {
            } else if k == 43 {
            }
        }
    }
    r
}

/// A Wi-Fi event from its name, target scope, privacy-marked fields and
/// plain fields.
fn wifi_event(name: &'static str, scope: ScopeType, pii: Vec<&'static str>, extra: Vec<&'static str>) -> (e: EventSchema)
    requires
        pii@.len() + extra@.len() < 1000,
    ensures
        event_view(e) == wifi_row((name, scope, pii@, extra@)),
{
    let mut fields: Vec<FieldSchema> = Vec::new();
    fields.push(FieldSchema { name: "target", field_type: FieldType::ScopeId(scope), pii: false, idx: FieldIdx(0) });
    fields.push(int_field("time", 1));
    let ghost head = fields@;
    let mut i: usize = 0;
    while i < pii.len()
        invariant
            0 <= i <= pii@.len(),
            pii@.len() + extra@.len() < 1000,
            fields@ == head + Seq::new(
                i as nat,
                |j: int| FieldSchema { name: pii@[j], field_type: FieldType::Int, pii: true, idx: FieldIdx((2 + j) as u16) },
            ),
        decreases pii@.len() - i,
    {
        let ghost before = fields@;
        fields.push(FieldSchema { name: pii[i], field_type: FieldType::Int, pii: true, idx: FieldIdx(2 + i as u16) });
        i = i + 1;
        proof {
            assert(fields@ =~= head + Seq::new(
                i as nat,
                |j: int| FieldSchema { name: pii@[j], field_type: FieldType::Int, pii: true, idx: FieldIdx((2 + j) as u16) },
            ));
        }
    }
    let ghost with_pii = fields@;
    let n: u16 = 2 + pii.len() as u16;
    let mut k: usize = 0;
    while k < extra.len()
        invariant
            0 <= k <= extra@.len(),
            pii@.len() + extra@.len() < 1000,
            n == 2 + pii@.len(),
            fields@ == with_pii + Seq::new(k as nat, |j: int| int_field_spec(extra@[j], (n + j) as u16)),
        decreases extra@.len() - k,
    {
        fields.push(int_field(extra[k], n + k as u16));
        k = k + 1;
        proof {
            assert(fields@ =~= with_pii + Seq::new(k as nat, |j: int| int_field_spec(extra@[j], (n + j) as u16)));
        }
    }
    let m: u16 = n + extra.len() as u16;
    let ghost body = fields@;
    let routes: Vec<ScopeRoute>;
    if text_eq(name, "wifi.mgmt.deauth") {
        fields.push(FieldSchema { name: "bssid", field_type: FieldType::Int, pii: true, idx: FieldIdx(m) });
        fields.push(
            FieldSchema { name: "ap_target", field_type: FieldType::ScopeId(ScopeType::AccessPoint), pii: false, idx: FieldIdx(m + 1) },
        );
        routes = vec![
            ScopeRoute { scope: ScopeType::ClientMac, path: "target" },
            ScopeRoute { scope: ScopeType::AccessPoint, path: "ap_target" },
        ];
    } else if text_eq(name, "wifi.mgmt.action") {
        fields.push(
            FieldSchema { name: "client_target", field_type: FieldType::ScopeId(ScopeType::ClientMac), pii: false, idx: FieldIdx(m) },
        );
        routes = vec![
            ScopeRoute { scope: ScopeType::AccessPoint, path: "target" },
            ScopeRoute { scope: ScopeType::ClientMac, path: "client_target" },
        ];
    } else {
        routes = vec![ScopeRoute { scope, path: "target" }];
    }
    proof {
        reveal_strlit("wifi.mgmt.deauth");
        reveal_strlit("wifi.mgmt.action");
        assert(fields@ =~= wifi_fields(name, scope, pii@, extra@));
        assert(routes@ =~= wifi_routes(name, scope));
    }
    event(name, fields, routes)
}

/// All catalog event schemas: the base events, then the Wi-Fi events.
#[verifier::rlimit(100)]
pub fn events() -> (r: Vec<EventSchema>)
    ensures
        r@.len() == catalog_event_count(),
        forall|k: int| 0 <= k < r@.len() ==> event_view(#[trigger] r@[k]) == event_row(k),
{
    let mut r = base_events();
    let w = vec![
        wifi_event("wifi.mgmt.beacon", ScopeType::AccessPoint, vec![], vec!["channel", "rssi_dbm", "dtim_period", "has_rsn"]),
        wifi_event("wifi.mgmt.probe_req", ScopeType::ClientMac, vec![], vec!["freq_mhz"]),
        wifi_event("wifi.mgmt.probe_resp", ScopeType::AccessPoint, vec![], vec!["rssi_dbm"]),
        wifi_event("wifi.mgmt.auth", ScopeType::ClientMac, vec!["bssid"], vec!["seq", "status", "algorithm"]),
        wifi_event("wifi.mgmt.assoc_req", ScopeType::ClientMac, vec!["bssid"], vec!["ft_pmkid_hint"]),
        wifi_event("wifi.mgmt.assoc_resp", ScopeType::ClientMac, vec![], vec!["status"]),
        wifi_event(
            "wifi.mgmt.deauth",
            ScopeType::ClientMac,
            vec![],
            vec!["initiator", "reason", "protected", "is_deauth_or_disassoc", "initiator_code"],
        ),
        wifi_event(
            "wifi.mgmt.action",
            ScopeType::AccessPoint,
            vec![],
            vec!["category", "protected", "initiator_code", "associated", "csa_present"],
        ),
        wifi_event("wifi.mgmt.cts", ScopeType::AccessPoint, vec![], vec!["nav_us"]),
        wifi_event("wifi.ctrl.rts", ScopeType::AccessPoint, vec![], vec![]),
        wifi_event("wifi.ctrl.bar", ScopeType::AccessPoint, vec![], vec![]),
        wifi_event("wifi.data.frame", ScopeType::ClientMac, vec![], vec!["retry", "protected", "tid", "rate_kbps", "rssi_dbm"]),
        wifi_event("wifi.eapol.frame", ScopeType::ClientMac, vec![], vec!["frame_type"]),
        wifi_event("wifi.client.auth_outcome", ScopeType::ClientMac, vec![], vec![]),
        wifi_event("wifi.client.eap_outcome", ScopeType::ClientMac, vec![], vec![]),
        wifi_event("wifi.client.roam_outcome", ScopeType::ClientMac, vec![], vec![]),
        wifi_event("wifi.client.dhcp_outcome", ScopeType::ClientMac, vec![], vec![]),
        wifi_event("wifi.client.dhcpv6_outcome", ScopeType::ClientMac, vec![], vec![]),
        wifi_event("wifi.client.dns_outcome", ScopeType::ClientMac, vec![], vec![]),
        wifi_event("wifi.client.assoc_pending", ScopeType::ClientMac, vec![], vec![]),
        wifi_event("wifi.client.sae_outcome", ScopeType::ClientMac, vec![], vec![]),
        wifi_event("wifi.client.twt_outcome", ScopeType::ClientMac, vec![], vec![]),
        wifi_event("wifi.ap.summary", ScopeType::AccessPoint, vec!["bssid"], ap_summary_names()),
        wifi_event("wifi.client.summary", ScopeType::ClientMac, vec!["client_mac"], client_summary_names()),
        wifi_event("tcp.rtt_sample", ScopeType::Session, vec![], vec!["rtt_ms", "baseline_rtt_ms"]),
        wifi_event("tcp.throughput_sample", ScopeType::Session, vec![], vec!["throughput_kbps"]),
    ];
    proof {
        assert forall|k: int| 0 <= k < w@.len() implies event_view(#[trigger] w@[k]) == wifi_row(
            wifi_event_table()[k],
        ) by {
            if k == 0 {
            } else if k == 1 {
            } else if k == 2 {
            } else if k == 3 {
            } else if k == 4 {
            } else if k == 5 {
            } else if k == 6 {
            } else if k == 7 {
            } else if k == 8 {
            } else if k == 9 {
            } else if k == 10 {
            } else if k == 11 {
            } else if k == 12 {
            } else if k == 13 {
            } else if k == 14 {
            } else if k == 15 {
            } else if k == 16 {
            } else if k == 17 {
            } else if k == 18 {
            } else if k == 19 {
            } else if k == 20 {
            } else if k == 21 {
            } else if k == 22 {
            } else if k == 23 {
            } else if k == 24 {
            } else if k == 25 {
            }
        }
    }
    let nb = r.len();
    let mut i: usize = 0;
    let mut w = w;
    let ghost w0 = w@;
    while w.len() > 0
        invariant
            nb == base_event_table().len(),
            w0.len() == wifi_event_table().len(),
            i + w@.len() == w0.len(),
            w@ == w0.skip(i as int),
            r@.len() == nb + i,
            forall|k: int| 0 <= k < w0.len() ==> event_view(#[trigger] w0[k]) == wifi_row(wifi_event_table()[k]),
            forall|k: int| 0 <= k < r@.len() ==> event_view(#[trigger] r@[k]) == event_row(k),
        decreases w@.len(),
    {
        let e = w.remove(0);
        proof {
            assert(e == w0[i as int]);
            assert(w@ =~= w0.skip(i + 1));
        }
        r.push(e);
        i = i + 1;
    }
    r
}

/// The plain field names of `wifi.ap.summary`.
fn ap_summary_names() -> (v: Vec<&'static str>)
    ensures
        v@ == ap_summary_fields(),
{
    let v = vec![
        "gap_us", "expected_interval_us", "missed_count", "jitter_centi_ratio", "sample_count", "probe_age_ms",
        "beacon_age_ms", "beacon_rates_hash", "assoc_rates_hash", "consecutive_count", "max_gap_ms", "bar_count",
        "window_ms", "peer_rates_hash", "rates_hash", "ap_count", "has_rsn", "max_rate_kbps", "has_ht_cap", "streak",
        "channel_count", "rssi_dbm", "delta_db", "frame_count", "retry_permille", "weak_security", "client_count",
        "target_is_dfs", "ssid_count", "dtim_period", "util_centipercent", "security_fingerprint_count",
        "active_sta_count", "min_sta_frames", "ap_retry_permille", "client_retry_mean_permille", "peer_bssid_count",
        "high_co_channel_present", "is_6ghz", "has_he_cap", "eht_width_code", "has_eht_cap", "has_puncturing_bitmap",
        "has_visible_ssid", "has_supported_rates", "collision", "unencrypted_traffic_leak",
    ];
    proof {
        assert(v@ =~= ap_summary_fields());
    }
    v
}

/// The plain field names of `wifi.client.summary`.
fn client_summary_names() -> (v: Vec<&'static str>)
    ensures
        v@ == client_summary_fields(),
{
    let v = vec![
        "streak", "ps_poll_count", "state_code", "count", "window_ms", "connected", "snr_db", "rate_kbps",
        "data_frame_count", "absence_ms", "has_ul", "has_dl", "ps_beacon_streak", "ft", "pmkid_count", "protected",
        "assoc_age_ms", "tid", "rssi_dbm", "neighbor_delta_db", "distinct_ap_count", "probe_count", "probe_5g_count",
        "probe_24g_count", "associated_5g", "failed_count", "ft_or_bss_tm", "seq_delta", "retry",
        "client_generation_code", "ap_generation_code", "mlo_present", "saw_6ghz", "saw_psc", "unique_servfail_count",
        "nxdomain_count", "server_rst_count", "ap_retry_permille", "auth_latency_ms", "summary_kind_code",
        "probe_count_10s", "deauth_count_30s", "disconnect_count_60s", "distinct_ap_count_60s",
        "emlsr_transition_count_60s", "band_probe_count_60s", "band_probe_5g_count_60s", "band_probe_24g_count_60s",
        "psc_probe_count_120s", "dns_servfail_unique_count", "dns_nxdomain_count", "captive_rst_count_120s",
        "ft_failure_count_60s", "tid_has_ul", "tid_has_dl", "saw_eapol",
    ];
    proof {
        assert(v@ =~= client_summary_fields());
    }
    v
}

/// Number of catalog events.
pub fn event_count() -> (n: usize)
    ensures
        n == catalog_event_count(),
        n == 70,
{
    let r = events();
    proof {
        assert(base_event_table().len() == 44);
        assert(wifi_event_table().len() == 26);
    }
    r.len()
}

/// Position of the first event named `name` at or after `k`.
pub open spec fn event_index_from(name: Seq<char>, k: int) -> Option<int>
    decreases catalog_event_count() - k,
{
    if k < 0 || k >= catalog_event_count() {
        None
    } else if event_row(k).0 == name {
        Some(k)
    } else {
        event_index_from(name, k + 1)
    }
}

/// Position of the first event named `name`.
pub open spec fn event_index(name: Seq<char>) -> Option<int> {
    event_index_from(name, 0)
}

/// Resolves an event schema by name: the first event with that name, or
/// `None`.
pub fn resolve_event(name: &str) -> (r: Option<EventSchema>)
    ensures
        match event_index(name@) {
            Some(k) => r matches Some(e) && event_view(e) == event_row(k),
            None => r is None,
        },
{
    let mut table = events();
    let n = table.len();
    let mut i: usize = 0;
    while i < n
        invariant
            n == table@.len(),
            table@.len() == catalog_event_count(),
            0 <= i <= n,
            forall|k: int| 0 <= k < table@.len() ==> event_view(#[trigger] table@[k]) == event_row(k),
            event_index(name@) == event_index_from(name@, i as int),
        decreases n - i,
    {
        proof {
            assert(event_view(table@[i as int]) == event_row(i as int));
        }
        if text_eq(table[i].name, name) {
            let e = table.remove(i);
            return Some(e);
        }
        i = i + 1;
    }
    None
}

} // verus!
