//! Spill signals of the bounded structures; the store never logs, it
//! returns these values for the caller to route.
use vstd::prelude::*;

use crate::ir::PendingMatch;
use crate::types::{EventId, ScopeId};

verus! {

/// A bounded-structure spill signal.
#[derive(Debug, Clone, PartialEq, Eq)]
pub enum StoreDiagnostic {
    /// A ring exceeded its capacity; the oldest event was dropped.
    RingBufferSpill {
        /// Partition whose ring spilled.
        scope: ScopeId,
        /// The evicted (oldest) event.
        dropped: EventId,
        /// The configured ring capacity.
        capacity: usize,
    },
    /// A wait queue exceeded its capacity; the least urgent match (largest
    /// `upper_bound`) was dropped.
    WaitQueueSpill {
        /// Partition whose wait queue spilled.
        scope: ScopeId,
        /// The dropped match.
        dropped: PendingMatch,
        /// The configured queue capacity.
        capacity: usize,
    },
}

impl StoreDiagnostic {
    /// Stable diagnostic code: `ADGL3005` for a ring spill, `ADGL3004` for a
    /// wait-queue spill.
    pub fn code(&self) -> (c: &'static str)
        ensures
            c@ == (match self {
                StoreDiagnostic::RingBufferSpill { .. } => "ADGL3005"@,
                StoreDiagnostic::WaitQueueSpill { .. } => "ADGL3004"@,
            }),
    {
        match self {
            StoreDiagnostic::RingBufferSpill { .. } => "ADGL3005",
            StoreDiagnostic::WaitQueueSpill { .. } => "ADGL3004",
        }
    }
}

} // verus!
