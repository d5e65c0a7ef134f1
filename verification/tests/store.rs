use airpulse_dsl::ir::{FieldIdx, PendingMatch, ProvKey};
use airpulse_dsl::store::diag::StoreDiagnostic;
use airpulse_dsl::store::event::{EventNode, EventProvenance, MAX_EVENT_INT_LIST_VALUES};
use airpulse_dsl::store::limits::Limits;
use airpulse_dsl::store::ring::RingBuffer;
use airpulse_dsl::store::store::GraphStore;
use airpulse_dsl::store::subgraph::{window_id, ProblemNode, RuntimeProvKey, SubGraph};
use airpulse_dsl::store::waitqueue::WaitQueue;
use airpulse_dsl::types::{
    DurationMs, EventId, EventTime, Name, NodeId, ScopeId, Severity,
};

fn t(ms: i64) -> EventTime {
    EventTime::from_millis(ms)
}

fn d(ms: i64) -> DurationMs {
    DurationMs::from_millis(ms).expect("non-negative duration in test")
}

fn scope() -> ScopeId {
    ScopeId::vlan(100)
}

fn evt(id: u64, time_ms: i64, sc: ScopeId) -> EventNode {
    EventNode::new(
        EventId::new(id),
        Name::new("tcp.retransmission_burst"),
        t(time_ms),
        sc,
        vec![(FieldIdx(0), 1400)],
        EventProvenance::default(),
    )
}

fn pending(rule: &str, anchor: u64, upper_ms: i64, sc: ScopeId) -> PendingMatch {
    PendingMatch {
        rule: Name::new(rule),
        anchor_event: EventId::new(anchor),
        upper_bound: t(upper_ms),
        scope: sc,
    }
}

#[test]
fn event_int_lists_are_sorted_deduplicated_and_bounded() {
    let event = EventNode::new(
        EventId::new(99),
        Name::new("wifi.deauth_burst"),
        t(100),
        ScopeId::access_point(1),
        vec![(FieldIdx(2), 70)],
        EventProvenance::default(),
    )
    .with_int_list_field(FieldIdx(4), (0..70).rev().chain([2, 1, 2]).collect());

    assert_eq!(event.field(FieldIdx(2)), Some(70));
    let clients = event.int_list_field(FieldIdx(4)).expect("client_macs sidecar");
    assert_eq!(clients.len(), MAX_EVENT_INT_LIST_VALUES);
    assert!(clients.windows(2).all(|w| w[0] < w[1]));
    assert_eq!(clients[0], 0);
    assert_eq!(clients[MAX_EVENT_INT_LIST_VALUES - 1], (MAX_EVENT_INT_LIST_VALUES - 1) as i64);
}

#[test]
fn ring_clone_preserves_int_list_sidecar() {
    let event = EventNode::new(
        EventId::new(100),
        Name::new("wifi.deauth_burst"),
        t(200),
        ScopeId::access_point(2),
        vec![],
        EventProvenance::default(),
    )
    .with_int_list_field(FieldIdx(4), vec![3, 1, 3, 2]);
    let cloned = event.clone();
    assert_eq!(cloned.int_list_fields(), &[(FieldIdx(4), vec![1, 2, 3])]);
    let mut ring = RingBuffer::new(ScopeId::access_point(2), 2);
    assert!(ring.push(cloned).is_none());
    assert_eq!(
        ring.iter().first().and_then(|e| e.int_list_field(FieldIdx(4))),
        Some(&[1, 2, 3][..])
    );
}

#[test]
fn ring_push_keeps_time_order_including_late_events() {
    let mut ring = RingBuffer::new(scope(), 16);
    assert!(ring.push(evt(1, 100, scope())).is_none());
    assert!(ring.push(evt(2, 300, scope())).is_none());
    assert!(ring.push(evt(3, 200, scope())).is_none());
    assert!(ring.push(evt(4, 200, scope())).is_none());

    let order: Vec<(u64, i64)> = ring.iter().iter().map(|e| (e.id.raw(), e.time.millis())).collect();
    assert_eq!(order, vec![(1, 100), (3, 200), (4, 200), (2, 300)]);
}

#[test]
fn ring_capacity_spill_drops_oldest_and_signals_adgl3005() {
    let mut ring = RingBuffer::new(scope(), 2);
    assert!(ring.push(evt(1, 100, scope())).is_none());
    assert!(ring.push(evt(2, 200, scope())).is_none());

    let spill = ring.push(evt(3, 300, scope())).expect("full ring must spill");
    assert_eq!(spill.code(), "ADGL3005");
    match spill {
        StoreDiagnostic::RingBufferSpill { scope: sc, dropped, capacity } => {
            assert_eq!(sc, scope());
            assert_eq!(dropped, EventId::new(1), "oldest (lowest time) is dropped");
            assert_eq!(capacity, 2);
        }
        other => panic!("expected RingBufferSpill, got {other:?}"),
    }
    assert_eq!(ring.len(), 2);
    let ids: Vec<u64> = ring.iter().iter().map(|e| e.id.raw()).collect();
    assert_eq!(ids, vec![2, 3]);
}

#[test]
fn ring_window_scan_is_inclusive_at_both_boundaries() {
    let mut ring = RingBuffer::new(scope(), 16);
    for (id, ms) in [(1, 99), (2, 100), (3, 150), (4, 200), (5, 201)] {
        assert!(ring.push(evt(id, ms, scope())).is_none());
    }
    let hits: Vec<u64> = ring.scan_window(t(150), d(50), d(50)).iter().map(|e| e.id.raw()).collect();
    assert_eq!(hits, vec![2, 3, 4], "100 and 200 inclusive; 99 and 201 excluded");
}

#[test]
fn ring_window_scan_yields_events_earliest_first() {
    let mut ring = RingBuffer::new(scope(), 16);
    assert!(ring.push(evt(1, 300, scope())).is_none());
    assert!(ring.push(evt(2, 100, scope())).is_none());
    assert!(ring.push(evt(3, 200, scope())).is_none());
    let hits: Vec<i64> = ring.scan_window(t(200), d(200), d(200)).iter().map(|e| e.time.millis()).collect();
    assert_eq!(hits, vec![100, 200, 300]);
}

#[test]
fn ring_gc_evicts_strictly_older_than_cutoff() {
    let mut ring = RingBuffer::new(scope(), 16);
    for (id, ms) in [(1, 100), (2, 200), (3, 300)] {
        assert!(ring.push(evt(id, ms, scope())).is_none());
    }
    let evicted = ring.gc(t(500), d(300));
    assert_eq!(evicted, 1);
    let ids: Vec<u64> = ring.iter().iter().map(|e| e.id.raw()).collect();
    assert_eq!(ids, vec![2, 3], "event at exactly the cutoff (200) survives");
}

#[test]
fn waitqueue_pop_expired_pops_smallest_upper_bound_first() {
    let mut wq = WaitQueue::new(scope(), 8);
    assert!(wq.push(pending("r_c", 3, 300, scope())).is_none());
    assert!(wq.push(pending("r_a", 1, 100, scope())).is_none());
    assert!(wq.push(pending("r_b", 2, 200, scope())).is_none());

    let popped = wq.pop_expired(t(1_000));
    let uppers: Vec<i64> = popped.iter().map(|p| p.upper_bound.millis()).collect();
    assert_eq!(uppers, vec![100, 200, 300]);
    assert!(wq.is_empty());
}

#[test]
fn waitqueue_boundary_wm_equal_upper_does_not_pop_wm_greater_pops() {
    let mut wq = WaitQueue::new(scope(), 8);
    assert!(wq.push(pending("r", 1, 500, scope())).is_none());

    assert!(wq.pop_expired(t(499)).is_empty(), "wm < upper: still suspended");
    assert!(wq.pop_expired(t(500)).is_empty(), "wm == upper: must NOT pop");
    assert_eq!(wq.len(), 1);

    let popped = wq.pop_expired(t(501));
    assert_eq!(popped.len(), 1, "wm > upper: pops");
    assert_eq!(popped[0].upper_bound, t(500));
}

#[test]
fn waitqueue_capacity_spill_drops_largest_upper_bound() {
    let mut wq = WaitQueue::new(scope(), 2);
    assert!(wq.push(pending("r1", 1, 100, scope())).is_none());
    assert!(wq.push(pending("r2", 2, 900, scope())).is_none());

    let spill = wq.push(pending("r3", 3, 500, scope())).expect("full queue must spill");
    assert_eq!(spill.code(), "ADGL3004");
    match &spill {
        StoreDiagnostic::WaitQueueSpill { dropped, capacity, .. } => {
            assert_eq!(dropped.upper_bound, t(900), "least urgent is dropped");
            assert_eq!(*capacity, 2);
        }
        other => panic!("expected WaitQueueSpill, got {other:?}"),
    }
    assert_eq!(wq.len(), 2);

    let spill = wq.push(pending("r4", 4, 950, scope())).expect("must spill");
    match &spill {
        StoreDiagnostic::WaitQueueSpill { dropped, .. } => {
            assert_eq!(dropped.upper_bound, t(950), "incoming least-urgent entry is dropped");
        }
        other => panic!("expected WaitQueueSpill, got {other:?}"),
    }
    let kept: Vec<i64> = wq.pop_expired(t(10_000)).iter().map(|p| p.upper_bound.millis()).collect();
    assert_eq!(kept, vec![100, 500]);
}

#[test]
fn watermark_is_monotone_and_smaller_t_is_a_noop() {
    let mut store = GraphStore::new(Limits::default());
    assert_eq!(store.advance_watermark(t(100)), t(100));
    assert_eq!(store.watermark(), t(100));
    assert_eq!(store.advance_watermark(t(50)), t(100), "smaller t is a no-op");
    assert_eq!(store.watermark(), t(100));
    assert_eq!(store.advance_watermark(t(200)), t(200));
    assert_eq!(store.watermark(), t(200));
}

#[test]
fn store_pop_expired_respects_strict_boundary_across_scopes() {
    let mut store = GraphStore::new(Limits::default());
    let s1 = ScopeId::vlan(1);
    let s2 = ScopeId::vlan(2);
    assert!(store.suspend(pending("r1", 1, 100, s1)).is_none());
    assert!(store.suspend(pending("r2", 2, 100, s2)).is_none());
    assert!(store.suspend(pending("r3", 3, 200, s1)).is_none());

    assert!(store.pop_expired(t(100)).is_empty(), "wm == upper: nothing pops");
    let popped = store.pop_expired(t(101));
    assert_eq!(popped.len(), 2, "both upper=100 entries pop at wm=101");
    assert!(popped.windows(2).all(|w| !w[1].precedes(&w[0])), "deterministic sorted order");
    assert_eq!(store.pending_len(s1), 1);
}

/// Deterministic xorshift64* generator for the property test.
struct Rng(u64);

impl Rng {
    fn next(&mut self) -> u64 {
        let mut x = self.0;
        x ^= x >> 12;
        x ^= x << 25;
        x ^= x >> 27;
        self.0 = x;
        x.wrapping_mul(0x2545_F491_4F6C_DD1D)
    }

    fn range(&mut self, lo: i64, hi: i64) -> i64 {
        lo + (self.next() % (hi - lo).unsigned_abs()) as i64
    }
}

#[test]
fn gc_never_evicts_events_an_unexpired_pending_could_reference() {
    let max_forward = 1_000_i64;
    let max_lookback = d(1_500);
    let sc = scope();
    let limits = Limits {
        max_ringbuffer_events_per_scope: 4096,
        max_pending_per_scope: 4096,
        ..Limits::default()
    };
    let mut store = GraphStore::new(limits);
    let mut rng = Rng(0xDEAD_BEEF_CAFE_F00D);

    let mut next_id = 0_u64;
    let mut time_ms = 0_i64;
    for _step in 0..2_000 {
        time_ms += rng.range(0, 50);
        next_id += 1;
        let anchor_time = time_ms;
        assert!(store.push_event(evt(next_id, anchor_time, sc)).is_none());

        if rng.range(0, 4) == 0 {
            let upper = anchor_time + rng.range(1, max_forward);
            assert!(store.suspend(pending("r", next_id, upper, sc)).is_none());
        }

        let wm = store.advance_watermark(t(time_ms));
        let _resumed = store.pop_expired(wm);
        store.gc(wm, max_lookback);

        let probe = store.pop_expired(t(i64::MAX));
        {
            let ring = store.ring(sc).expect("ring exists");
            for p in &probe {
                assert!(
                    ring.get(p.anchor_event).is_some(),
                    "pending anchor {:?} (upper {}) evicted at wm {} — GC invariant violated",
                    p.anchor_event,
                    p.upper_bound.millis(),
                    wm.millis(),
                );
            }
        }
        for p in probe {
            assert!(store.suspend(p).is_none());
        }
    }
}

#[test]
fn flat_memory_ring_stays_bounded_under_10x_capacity_push() {
    let capacity = 64_usize;
    let limits = Limits { max_ringbuffer_events_per_scope: capacity, ..Limits::default() };
    let mut store = GraphStore::new(limits);
    let sc = scope();

    for i in 0..(capacity as u64 * 10) {
        let time_ms = i as i64 * 10;
        let _spill = store.push_event(evt(i, time_ms, sc));
        let wm = store.advance_watermark(t(time_ms));
        let lookback = store.limits().max_lookback;
        store.gc(wm, lookback);
        let len = store.ring(sc).expect("ring exists").len();
        assert!(len <= capacity, "ring len {len} exceeded capacity {capacity} at step {i}");
    }
}

#[test]
fn store_routes_ring_and_waitqueue_spill_diagnostics() {
    let limits = Limits { max_ringbuffer_events_per_scope: 1, max_pending_per_scope: 1, ..Limits::default() };
    let mut store = GraphStore::new(limits);
    let sc = scope();

    assert!(store.push_event(evt(1, 100, sc)).is_none());
    let spill = store.push_event(evt(2, 200, sc)).expect("full ring must spill via store");
    assert_eq!(spill.code(), "ADGL3005");
    match spill {
        StoreDiagnostic::RingBufferSpill { scope: s, dropped, capacity } => {
            assert_eq!(s, sc);
            assert_eq!(dropped, EventId::new(1));
            assert_eq!(capacity, 1);
        }
        other => panic!("expected RingBufferSpill, got {other:?}"),
    }

    assert!(store.suspend(pending("r1", 1, 100, sc)).is_none());
    let spill = store.suspend(pending("r2", 2, 900, sc)).expect("full queue must spill via store");
    assert_eq!(spill.code(), "ADGL3004");
    match spill {
        StoreDiagnostic::WaitQueueSpill { scope: s, dropped, capacity } => {
            assert_eq!(s, sc);
            assert_eq!(dropped.upper_bound, t(900), "least urgent dropped");
            assert_eq!(capacity, 1);
        }
        other => panic!("expected WaitQueueSpill, got {other:?}"),
    }
    assert_eq!(store.pending_len(sc), 1);
}

fn prov(rule: &str, time_ms: i64, dedup: DurationMs) -> RuntimeProvKey {
    RuntimeProvKey {
        key: ProvKey { rule: Name::new(rule), cause: Name::new("PmtudBlackhole"), target_expr_hash: 42 },
        window_id: window_id(t(time_ms), dedup),
    }
}

#[test]
fn provenance_dedup_rejects_second_insert_in_same_window() {
    let mut sg = SubGraph::new();
    let dedup = d(1_000);

    let first = prov("pmtud_hypothesis", 100, dedup);
    assert!(sg.try_insert_provenance(first.clone()), "first insert accepted");
    assert!(sg.has_provenance(&first));
    assert!(!sg.try_insert_provenance(prov("pmtud_hypothesis", 900, dedup)), "same-window dup");
    assert!(sg.try_insert_provenance(prov("pmtud_hypothesis", 1_100, dedup)), "new window");
    assert!(sg.try_insert_provenance(prov("other_rule", 100, dedup)));
}

#[test]
fn window_id_floors_including_negative_times() {
    let dedup = d(1_000);
    assert_eq!(window_id(t(0), dedup), 0);
    assert_eq!(window_id(t(999), dedup), 0);
    assert_eq!(window_id(t(1_000), dedup), 1);
    assert_eq!(window_id(t(-1), dedup), -1, "floor, not truncation");
}

#[test]
fn emitted_problems_cooldown_key_dedup() {
    let mut sg = SubGraph::new();
    let rule = Name::new("pmtud_verdict");
    let problem = Name::new("XlIcmpTcpMss");
    let target = scope();
    let cooldown = d(5_000);

    assert!(sg.try_mark_emitted(&rule, &problem, target, t(1_000), cooldown), "first emit");
    assert!(!sg.try_mark_emitted(&rule, &problem, target, t(3_000), cooldown), "within cooldown: no-op");
    assert!(
        sg.try_mark_emitted(&rule, &problem, target, t(7_000), cooldown),
        "cooldown expired (7000 - 1000 > 5000): emits again"
    );
    assert!(sg.try_mark_emitted(&rule, &problem, ScopeId::vlan(999), t(1_500), cooldown));
}

#[test]
fn emitted_problems_do_not_grow_unbounded() {
    let mut sg = SubGraph::new();
    let rule = Name::new("pmtud_verdict");
    let problem = Name::new("XlIcmpTcpMss");
    let cooldown = d(1_000);

    for i in 0..100_i64 {
        let wm = t(i * 2_000);
        assert!(sg.try_mark_emitted(&rule, &problem, scope(), wm, cooldown));
    }
    let other = Name::new("one_shot_rule");
    assert!(sg.try_mark_emitted(&other, &problem, scope(), t(0), cooldown));
    let pruned = sg.prune_emitted(t(1_000_000), cooldown);
    assert_eq!(pruned, 2, "both remaining stale tuples pruned past the horizon");
    assert!(sg.try_mark_emitted(&rule, &problem, scope(), t(1_000_000), cooldown));
    assert!(!sg.try_mark_emitted(&rule, &problem, scope(), t(1_000_500), cooldown));
}

#[test]
fn provenance_pruned_only_below_gc_horizon() {
    let mut sg = SubGraph::new();
    let dedup = d(1_000);
    let lookback = d(10_000);

    let old = prov("pmtud_hypothesis", 0, dedup);
    let live = prov("pmtud_hypothesis", 95_000, dedup);
    assert!(sg.try_insert_provenance(old.clone()));
    assert!(sg.try_insert_provenance(live.clone()));

    let pruned = sg.prune_provenance(t(100_000), lookback, dedup);
    assert_eq!(pruned, 1);
    assert!(!sg.has_provenance(&old), "unreachable window key dropped");
    assert!(sg.has_provenance(&live), "key at/above horizon retained");
    assert!(!sg.try_insert_provenance(live));
}

#[test]
fn store_gc_prunes_provenance_alongside_rings() {
    let mut store = GraphStore::new(Limits::default());
    let sc = scope();
    {
        let mut part = store.take_partition(sc);
        assert!(part.try_insert_provenance(prov("r", 0, d(1_000))));
        assert!(part.try_insert_provenance(prov("r", 200_000, d(1_000))));
        store.put_partition(sc, part);
    }
    let wm = store.advance_watermark(t(300_000));
    let lookback = store.limits().max_lookback;
    let _evicted = store.gc(wm, lookback);
    let part = store.partition(sc).expect("partition exists");
    assert!(!part.has_provenance(&prov("r", 0, d(1_000))));
    assert!(!part.has_provenance(&prov("r", 200_000, d(1_000))), "window 200 < horizon 240");
}

#[test]
fn problems_are_append_only_and_supersede_sets_flag() {
    let mut sg = SubGraph::new();
    let kind = Name::new("XlIcmpTcpMss");
    sg.push_problem(ProblemNode {
        id: NodeId::new(1),
        kind: kind.clone(),
        target: scope(),
        time: t(1_000),
        severity: Severity::High,
        evidence: vec![],
        sarif_id: Name::new("l3_pmtud_blackhole"),
        superseded: false,
    });
    assert_eq!(sg.problems().len(), 1);
    assert_eq!(sg.supersede_problems(&kind, scope()), 1);
    assert_eq!(sg.problems().len(), 1, "append-only: node kept");
    assert!(sg.problems()[0].superseded);
    assert_eq!(sg.supersede_problems(&kind, scope()), 0);
}
