use airpulse_dsl::eval::diag::EngineDiagnostic;
use airpulse_dsl::eval::engine::Engine;
use airpulse_dsl::eval::error::CorrelateError;
use airpulse_dsl::eval::extract::Snapshot;
use airpulse_dsl::eval::fixtures;
use airpulse_dsl::eval::sink::{OfflineAuditSink, RunMode};
use airpulse_dsl::eval::topology::StaticTopology;
use airpulse_dsl::ir::image::ProgramImage;
use airpulse_dsl::ir::{FieldIdx, PredOp, Predicate, SlotIdx};
use airpulse_dsl::store::diag::StoreDiagnostic;
use airpulse_dsl::store::event::{EventNode, EventProvenance};
use airpulse_dsl::store::limits::Limits;
use airpulse_dsl::types::{DurationMs, EventId, EventTime, Name, ScopeId};

fn t(ms: i64) -> EventTime {
    EventTime::from_millis(ms)
}

fn d(ms: i64) -> DurationMs {
    DurationMs::from_millis(ms).expect("non-negative duration in test")
}

fn rtx(id: u64, time_ms: i64, scope: ScopeId, segment_size: i64) -> EventNode {
    EventNode::new(
        EventId::new(id),
        Name::new("tcp.retransmission_burst"),
        t(time_ms),
        scope,
        vec![(FieldIdx(fixtures::F_SEGMENT_SIZE), segment_size)],
        EventProvenance::default(),
    )
}

fn ptb(id: u64, time_ms: i64, scope: ScopeId) -> EventNode {
    EventNode::new(EventId::new(id), Name::new("icmp.ptb"), t(time_ms), scope, vec![], EventProvenance::default())
}

fn run(img: &ProgramImage, limits: Limits, stream: &[EventNode]) -> (Snapshot, Vec<EngineDiagnostic>) {
    let mut eng = Engine::new(img, StaticTopology::new(limits.max_topology_hops), OfflineAuditSink::new(), limits, RunMode::Offline);
    for e in stream {
        eng.ingest(e.clone());
    }
    eng.finish();
    (eng.snapshot(), eng.diagnostics().to_vec())
}

struct Rng(u64);

impl Rng {
    fn next(&mut self) -> u64 {
        let mut x = self.0;
        x ^= x >> 12;
        x ^= x << 25;
        x ^= x >> 27;
        self.0 = x;
        x.wrapping_mul(0x2545_F491_4F6C_DD1D)
    }

    fn range(&mut self, lo: i64, hi: i64) -> i64 {
        lo + (self.next() % (hi - lo).unsigned_abs()) as i64
    }
}

fn sessions() -> [ScopeId; 2] {
    [
        ScopeId::session((0x0a00_0001, 443), (0x0a00_0002, 51234)),
        ScopeId::session((0x0a00_0003, 443), (0x0a00_0004, 51235)),
    ]
}

fn slot(i: u8) -> SlotIdx {
    SlotIdx::new(i).expect("test slot index must be within MAX_SLOTS")
}

fn overflow_predicate() -> Predicate {
    Predicate {
        ops: vec![
            PredOp::LoadConst { imm: i64::MAX, dst: slot(0) },
            PredOp::LoadConst { imm: 1, dst: slot(1) },
            PredOp::Add { lhs: slot(0), rhs: slot(1), dst: slot(2) },
        ],
        result: slot(2),
    }
}

#[test]
fn deterministic_output_same_stream_twice() {
    let img = fixtures::rule3_pmtud();
    let [s1, s2] = sessions();
    let mut rng = Rng(0xA5A5_5A5A_DEAD_BEEF);
    let mut stream = Vec::new();
    let mut time_ms = 0_i64;
    for i in 0..300_u64 {
        time_ms += rng.range(0, 400);
        let scope = if rng.range(0, 2) == 0 { s1 } else { s2 };
        let ev = if rng.range(0, 3) == 0 { ptb(i, time_ms, scope) } else { rtx(i, time_ms, scope, rng.range(1000, 2000)) };
        stream.push(ev);
    }

    let (snap_a, diag_a) = run(&img, Limits::default(), &stream);
    let (snap_b, diag_b) = run(&img, Limits::default(), &stream);
    assert_eq!(snap_a, snap_b, "identical stream → identical snapshot");
    assert_eq!(diag_a, diag_b, "identical stream → identical diagnostics");
    assert!(!snap_a.causes.is_empty());
}

#[test]
fn deterministic_output_invariant_under_scope_interleaving() {
    let img = fixtures::rule3_pmtud();
    let [s1, s2] = sessions();

    let order_a = vec![rtx(1, 10_000, s1, 1500), rtx(2, 10_000, s2, 1600), ptb(3, 10_400, s1), ptb(4, 10_400, s2)];
    let order_b = vec![rtx(2, 10_000, s2, 1600), rtx(1, 10_000, s1, 1500), ptb(4, 10_400, s2), ptb(3, 10_400, s1)];

    let (snap_a, _) = run(&img, Limits::default(), &order_a);
    let (snap_b, _) = run(&img, Limits::default(), &order_b);
    assert_eq!(snap_a, snap_b, "scope interleaving must not change results");
    assert_eq!(snap_a.causes.len(), 2);
    assert!(snap_a.causes.iter().all(|c| c.confidence.value() == 85));
    assert_eq!(snap_a.problems.len(), 2);
}

#[test]
fn flat_memory_gc_bounds_ring_and_drains_pending() {
    let capacity = 64_usize;
    let limits = Limits { max_ringbuffer_events_per_scope: capacity, max_lookback: d(1_200), ..Limits::default() };
    let img = fixtures::rule3_pmtud();
    let [s1, _] = sessions();
    let mut eng = Engine::new(&img, StaticTopology::new(limits.max_topology_hops), OfflineAuditSink::new(), limits, RunMode::Offline);

    let steps = (capacity as u64) * 10;
    for i in 0..steps {
        let time_ms = i as i64 * 20;
        eng.ingest(rtx(i, time_ms, s1, 1500));
        let len = eng.store().ring(s1).expect("ring exists").len();
        assert!(len <= capacity, "ring len {len} exceeded capacity {capacity} at step {i}");
    }
    eng.finish();

    assert_eq!(eng.store().pending_len(s1), 0, "pending drained at end-of-stream");
    assert_eq!(eng.suspended(), steps, "every anchor match suspended (forward window)");
    assert_eq!(eng.resumed(), steps, "every suspension resumed exactly once");
    for diag in eng.diagnostics() {
        assert!(!matches!(diag, EngineDiagnostic::MissingAnchor { .. }), "resume must never dangle: {diag:?}");
        assert!(
            !matches!(diag, EngineDiagnostic::Store(StoreDiagnostic::RingBufferSpill { .. })),
            "ring must be bounded by GC, not by spill: {diag:?}"
        );
    }

    let snap = eng.snapshot();
    assert_eq!(snap.causes.len(), 1);
    assert_eq!(snap.causes[0].confidence.value(), 100);
}

#[test]
fn provenance_dedup_one_infer_per_window() {
    let img = fixtures::rule3_pmtud();
    let [s1, _] = sessions();
    let stream = vec![rtx(1, 10_000, s1, 1500), rtx(2, 10_600, s1, 1500)];
    let (snap, _) = run(&img, Limits::default(), &stream);
    assert_eq!(snap.causes.len(), 1);
    assert_eq!(snap.causes[0].confidence.value(), 35, "second same-window infer is a no-op");
    assert_eq!(snap.audit.len(), 2);
}

#[test]
fn predicate_overflow_surfaces_engine_diagnostic_code() {
    let mut img = fixtures::rule3_pmtud();
    img.rules[0].anchor.predicate = overflow_predicate();

    let [s1, _] = sessions();
    let mut eng = Engine::new(&img, StaticTopology::new(Limits::default().max_topology_hops), OfflineAuditSink::new(), Limits::default(), RunMode::Offline);
    eng.ingest(rtx(1, 10_000, s1, 1500));
    eng.finish();

    let diag = eng
        .diagnostics()
        .iter()
        .find(|d| matches!(d, EngineDiagnostic::PredicateError { error: CorrelateError::ArithOverflow, .. }))
        .expect("overflow predicate should emit PredicateError");
    assert_eq!(diag.code(), Some("ADGL3007"));
}
