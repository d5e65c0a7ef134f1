//! Runtime bounds on the store: ring and queue capacities, cause and firing
//! caps, topology hops, the GC horizon and the provenance dedup window.
use vstd::prelude::*;

use crate::types::DurationMs;

verus! {

/// Configurable runtime limits. Every overflow degrades and signals a
/// diagnostic; none panics.
#[derive(Debug, Clone, PartialEq, Eq)]
pub struct Limits {
    /// Ring capacity per scope; overflow drops the oldest event.
    pub max_ringbuffer_events_per_scope: usize,
    /// Wait-queue bound per scope; overflow drops the least urgent match.
    pub max_pending_per_scope: usize,
    /// Cause bound per scope; overflow rejects the new cause.
    pub max_causes_per_scope: usize,
    /// Rule firings allowed per event.
    pub max_rule_firings_per_event: usize,
    /// `upstream_of` traversal bound.
    pub max_topology_hops: usize,
    /// GC horizon: events with `time < watermark - max_lookback` are evicted.
    pub max_lookback: DurationMs,
    /// Slack in the look-back bound.
    pub slack: DurationMs,
    /// Provenance dedup period (`window_id = floor(time / dedup_window)`).
    pub dedup_window: DurationMs,
    /// Live mode: bounded out-of-orderness `W`; a source's watermark is
    /// `max(previous, t - W)`.
    pub max_disorder: DurationMs,
    /// Live mode: how far behind the watermark an event may arrive and
    /// still be accepted; later events go to the late side output.
    pub allowed_lateness: DurationMs,
    /// Live mode: a source silent for at least this long (wall clock) is
    /// left out of the global watermark minimum.
    pub idle_timeout: DurationMs,
}

/// A non-negative duration literal.
fn dur(ms: i64) -> (d: DurationMs)
    requires
        ms >= 0,
    ensures
        d.ms_of() == ms,
{
    match DurationMs::from_millis(ms) {
        Some(d) => d,
        None => DurationMs::zero(),
    }
}

impl Default for Limits {
    /// The default bounds: 4096 ring events, 1024 pending matches, 256
    /// causes, 64 firings, 16 hops, 60 s look-back, no slack, 1 s dedup
    /// window; live mode: no disorder allowance, no lateness grace, 60 s
    /// idle timeout.
    fn default() -> (l: Limits)
        ensures
            l.max_ringbuffer_events_per_scope == 4096,
            l.max_pending_per_scope == 1024,
            l.max_causes_per_scope == 256,
            l.max_rule_firings_per_event == 64,
            l.max_topology_hops == 16,
            l.max_lookback.ms_of() == 60_000,
            l.slack.ms_of() == 0,
            l.dedup_window.ms_of() == 1_000,
            l.max_disorder.ms_of() == 0,
            l.allowed_lateness.ms_of() == 0,
            l.idle_timeout.ms_of() == 60_000,
    {
        Limits {
            max_ringbuffer_events_per_scope: 4096,
            max_pending_per_scope: 1024,
            max_causes_per_scope: 256,
            max_rule_firings_per_event: 64,
            max_topology_hops: 16,
            max_lookback: dur(60_000),
            slack: dur(0),
            dedup_window: dur(1_000),
            max_disorder: dur(0),
            allowed_lateness: dur(0),
            idle_timeout: dur(60_000),
        }
    }
}

} // verus!
