use airpulse_dsl::fuzz::{
    bounded_index, mutate_seed_bytes, next_u64, run_seed_mutation_campaign, seed_state, MAX_MUTATED_SOURCE_BYTES,
};
use airpulse_dsl::store::subgraph::mix_target;

const SEEDS: [&str; 3] = [
    r#"
ruleset "seed.pmtud" {
  version = "1.0"
  requires = ["topology"]
  evidence pmtud_hypothesis {
    scope: Session
    anchor rtx: event(tcp.retransmission_burst) { rtx.segment_size > 1400 }
    correlate ptb: event(icmp.ptb) {
      topo: same_session(rtx.target, ptb.target)
      time: ptb.time in [rtx.time - 500ms, rtx.time + 1s]
    }
    if present(ptb) {
      infer Cause(PmtudBlackhole) { target: rtx.target, weight: +85, evidence: [rtx, ptb] }
    } else {
      action request_observation(icmp.visibility) { target: rtx.target, reason: "no ptb seen" }
    }
  }
  decision pmtud_verdict {
    scope: Session
    anchor c: Cause(PmtudBlackhole) { c.confidence >= 80 }
    emit Problem(XlIcmpTcpMss) { target: c.target, severity: High, evidence: [c], sarif_id: "l3_pmtud_blackhole" }
  }
}
"#,
    r#"
ruleset "seed.suppress" {
  version = "1.0"
  mutually_exclusive(Congestion, PmtudBlackhole)
  decision suppress_downstream {
    scope: Global
    anchor downstream: Problem(DeviceUnreachable)
    correlate upstream: Problem(DeviceUnreachable) {
      topo: upstream_of(upstream.target, downstream.target)
      time: upstream.time in [downstream.time - 30s, downstream.time]
      having: count >= 1
    }
    if present(upstream) {
      action suppress_symptom { target: downstream.target, evidence: [upstream, downstream] }
    }
  }
}
"#,
    "ruleset \"tiny\" { version = \"1.0\" }",
];

#[test]
fn mutation_seed_corpus_no_panic_smoke() {
    run_seed_mutation_campaign(&SEEDS, 256);
}

#[test]
fn seed_state_and_stream_match_splitmix_and_xorshift_star() {
    assert_eq!(seed_state(0, 0), 0);
    assert_eq!(seed_state(1, 2), 10905525725756348110);
    let mut s = 1_u64;
    assert_eq!(next_u64(&mut s), 5180492295206395165);
    assert_eq!(s, 33554433);
    let mut z = 7_u64;
    assert_eq!(bounded_index(&mut z, 0), 0);
    assert_eq!(z, 7, "an empty range draws nothing");
    let mut a = 99_u64;
    for _ in 0..100 {
        assert!(bounded_index(&mut a, 10) < 10);
    }
}

#[test]
fn mutations_are_deterministic_and_bounded() {
    for iter in 0..64 {
        let a = mutate_seed_bytes(SEEDS[0].as_bytes(), 0, iter);
        let b = mutate_seed_bytes(SEEDS[0].as_bytes(), 0, iter);
        assert_eq!(a, b);
        assert!(a.len() <= MAX_MUTATED_SOURCE_BYTES);
    }
    let big = vec![b'x'; MAX_MUTATED_SOURCE_BYTES + 10];
    for iter in 0..8 {
        assert!(mutate_seed_bytes(&big, 3, iter).len() <= MAX_MUTATED_SOURCE_BYTES);
    }
    let empty = mutate_seed_bytes(&[], 1, 1);
    assert!(empty.len() <= 8, "only byte insertions grow an empty seed");
}

#[test]
fn mixed_target_hashes_separate_targets() {
    assert_ne!(mix_target(42, 1), mix_target(42, 2));
    assert_eq!(mix_target(42, 1), mix_target(42, 1));
    assert_eq!(mix_target(0, 0), 0);
}
