//! Per-scope, time-sorted, capacity-bounded event buffer.
use std::collections::VecDeque;
use vstd::prelude::*;

use crate::store::diag::StoreDiagnostic;
use crate::store::event::EventNode;
use crate::types::{clamp_i64, DurationMs, EventId, EventTime, ScopeId};

verus! {

broadcast use vstd::std_specs::vecdeque::group_vec_dequeue_axioms;

/// Event times never decrease along the sequence.
pub open spec fn times_sorted(s: Seq<EventNode>) -> bool {
    forall|i: int, j: int| 0 <= i <= j < s.len() ==> s[i].time.ms <= s[j].time.ms
}

/// Where an event of time `t` goes: right after the last event whose time is
/// `<= t` (equal times keep arrival order).
pub open spec fn insert_pos(s: Seq<EventNode>, t: i64) -> int
    decreases s.len(),
{
    if s.len() == 0 {
        0
    } else if s.last().time.ms <= t {
        s.len() as int
    } else {
        insert_pos(s.drop_last(), t)
    }
}

/// Number of leading events with time `< lo`.
pub open spec fn lead_before(s: Seq<EventNode>, lo: i64) -> int
    decreases s.len(),
{
    if s.len() > 0 && s[0].time.ms < lo {
        1 + lead_before(s.drop_first(), lo)
    } else {
        0
    }
}

/// Number of leading events with time `<= hi`.
pub open spec fn lead_upto(s: Seq<EventNode>, hi: i64) -> int
    decreases s.len(),
{
    if s.len() > 0 && s[0].time.ms <= hi {
        1 + lead_upto(s.drop_first(), hi)
    } else {
        0
    }
}

/// The window scan: skip the events before `lo`, then take the events up
/// to `hi`.
pub open spec fn window_view(s: Seq<EventNode>, lo: i64, hi: i64) -> Seq<EventNode> {
    let a = lead_before(s, lo);
    s.subrange(a, a + lead_upto(s.skip(a), hi))
}

/// Index of the first event with id `id`.
pub open spec fn find_id(s: Seq<EventNode>, id: EventId) -> Option<int> {
    if exists|i: int| 0 <= i < s.len() && s[i].id == id {
        Some(choose|i: int| 0 <= i < s.len() && s[i].id == id && forall|j: int| 0 <= j < i ==> s[j].id != id)
    } else {
        None
    }
}

proof fn lemma_lead_before(s: Seq<EventNode>, lo: i64)
    ensures
        0 <= lead_before(s, lo) <= s.len(),
        forall|i: int| 0 <= i < lead_before(s, lo) ==> s[i].time.ms < lo,
        lead_before(s, lo) < s.len() ==> s[lead_before(s, lo)].time.ms >= lo,
    decreases s.len(),
{
    if s.len() > 0 && s[0].time.ms < lo {
        lemma_lead_before(s.drop_first(), lo);
        assert forall|i: int| 0 <= i < lead_before(s, lo) implies s[i].time.ms < lo by {
            if i > 0 {
                assert(s[i] == s.drop_first()[i - 1]);
            }
        }
    }
}

proof fn lemma_lead_upto(s: Seq<EventNode>, hi: i64)
    ensures
        0 <= lead_upto(s, hi) <= s.len(),
        forall|i: int| 0 <= i < lead_upto(s, hi) ==> s[i].time.ms <= hi,
        lead_upto(s, hi) < s.len() ==> s[lead_upto(s, hi)].time.ms > hi,
    decreases s.len(),
{
    if s.len() > 0 && s[0].time.ms <= hi {
        lemma_lead_upto(s.drop_first(), hi);
        assert forall|i: int| 0 <= i < lead_upto(s, hi) implies s[i].time.ms <= hi by {
            if i > 0 {
                assert(s[i] == s.drop_first()[i - 1]);
            }
        }
    }
}

proof fn lemma_insert_pos(s: Seq<EventNode>, t: i64)
    ensures
        0 <= insert_pos(s, t) <= s.len(),
        insert_pos(s, t) > 0 ==> s[insert_pos(s, t) - 1].time.ms <= t,
        forall|i: int| insert_pos(s, t) <= i < s.len() ==> s[i].time.ms > t,
    decreases s.len(),
{
    if s.len() > 0 && s.last().time.ms > t {
        lemma_insert_pos(s.drop_last(), t);
        assert forall|i: int| insert_pos(s, t) <= i < s.len() implies s[i].time.ms > t by {
            if i < s.len() - 1 {
                assert(s[i] == s.drop_last()[i]);
            }
        }
    }
}

/// In a time-sorted buffer the window scan yields exactly the events whose
/// time lies in `[lo, hi]`, both ends inclusive, in buffer order.
pub proof fn lemma_window_inclusive(s: Seq<EventNode>, lo: i64, hi: i64)
    requires
        times_sorted(s),
    ensures
        ({
            let a = lead_before(s, lo);
            let b = a + lead_upto(s.skip(a), hi);
            &&& 0 <= a <= b <= s.len()
            &&& window_view(s, lo, hi) == s.subrange(a, b)
            &&& forall|i: int| 0 <= i < s.len() ==> (a <= i < b <==> lo <= #[trigger] s[i].time.ms <= hi)
        }),
{
    let a = lead_before(s, lo);
    lemma_lead_before(s, lo);
    lemma_lead_upto(s.skip(a), hi);
    let b = a + lead_upto(s.skip(a), hi);
    assert forall|i: int| 0 <= i < s.len() implies (a <= i < b <==> lo <= #[trigger] s[i].time.ms <= hi) by {
        if i < a {
        } else {
            assert(s[i] == s.skip(a)[i - a]);
            assert(s[a].time.ms >= lo);
            if i >= b {
                assert(s.skip(a)[b - a] == s[b]);
                assert(s[b].time.ms > hi);
            }
        }
    }
}

/// Inserts `event` into a time-sorted deque after every event of equal or
/// smaller time.
fn insert_by_time(buf: &mut VecDeque<EventNode>, event: EventNode)
    requires
        times_sorted(old(buf)@),
    ensures
        final(buf)@ == old(buf)@.insert(insert_pos(old(buf)@, event.time.ms), event),
        final(buf)@.len() == old(buf)@.len() + 1,
        times_sorted(final(buf)@),
{
    let ghost base = buf@;
    proof {
        assert(base.subrange(0, base.len() as int) =~= base);
    }
    let t = event.time.ms;
    let mut pos: usize = buf.len();
    while pos > 0 && buf[pos - 1].time.ms > t
        invariant
            0 <= pos <= base.len(),
            buf@ == base,
            insert_pos(base, t) == insert_pos(base.subrange(0, pos as int), t),
            forall|i: int| pos <= i < base.len() ==> base[i].time.ms > t,
        decreases pos,
    {
        proof {
            assert(base.subrange(0, pos as int).drop_last() =~= base.subrange(0, pos - 1));
        }
        pos = pos - 1;
    }
    proof {
        assert(base.subrange(0, base.len() as int) =~= base);
        if pos > 0 {
            assert(base.subrange(0, pos as int).last() == base[pos - 1]);
        }
        assert(insert_pos(base, t) == pos);
        let after = base.insert(pos as int, event);
        assert forall|i: int, j: int| 0 <= i <= j < after.len() implies after[i].time.ms
            <= after[j].time.ms by {
            if i < pos && j > pos {
                assert(base[i].time.ms <= base[pos - 1].time.ms);
            }
        }
    }
    buf.insert(pos, event);
}

/// Capacity-bounded, time-sorted per-scope event buffer. Overflow drops the
/// oldest event and signals a ring spill.
#[derive(Debug)]
pub struct RingBuffer {
    buf: VecDeque<EventNode>,
    scope: ScopeId,
    capacity: usize,
}

impl RingBuffer {
    #[verifier::type_invariant]
    spec fn inv(self) -> bool {
        &&& 1 <= self.capacity
        &&& self.buf@.len() <= self.capacity
        &&& times_sorted(self.buf@)
    }

    /// The buffered events, oldest first.
    pub closed spec fn events(&self) -> Seq<EventNode> {
        self.buf@
    }

    /// The configured capacity.
    pub closed spec fn cap(&self) -> nat {
        self.capacity as nat
    }

    /// The partition of this ring.
    pub closed spec fn scope_of(&self) -> ScopeId {
        self.scope
    }

    /// An empty ring for `scope`; a zero capacity is raised to 1.
    pub fn new(scope: ScopeId, capacity: usize) -> (r: RingBuffer)
        ensures
            r.events().len() == 0,
            r.cap() == if capacity == 0 {
                1
            } else {
                capacity
            },
            r.scope_of() == scope,
            times_sorted(r.events()),
    {
        RingBuffer { buf: VecDeque::new(), scope, capacity: if capacity == 0 {
            1
        } else {
            capacity
        } }
    }

    /// The partition this ring buffers events for.
    pub fn scope(&self) -> (s: ScopeId)
        ensures
            s == self.scope_of(),
    {
        self.scope
    }

    /// Configured capacity.
    pub fn capacity(&self) -> (c: usize)
        ensures
            c == self.cap(),
    {
        self.capacity
    }

    /// Buffered event count; never above the capacity.
    pub fn len(&self) -> (n: usize)
        ensures
            n == self.events().len(),
            n <= self.cap(),
    {
        proof {
            use_type_invariant(self);
        }
        self.buf.len()
    }

    /// Whether the ring holds no events.
    pub fn is_empty(&self) -> (b: bool)
        ensures
            b == (self.events().len() == 0),
    {
        self.buf.len() == 0
    }

    /// Inserts `event` after every buffered event of equal or smaller time.
    /// When the ring is full the oldest event is dropped first and a ring
    /// spill naming it is returned.
    pub fn push(&mut self, event: EventNode) -> (d: Option<StoreDiagnostic>)
        ensures
            ({
                let full = old(self).events().len() == old(self).cap();
                let base = if full {
                    old(self).events().drop_first()
                } else {
                    old(self).events()
                };
                &&& final(self).events() == base.insert(insert_pos(base, event.time.ms), event)
                &&& d == if full {
                    Some(
                        StoreDiagnostic::RingBufferSpill {
                            scope: old(self).scope_of(),
                            dropped: old(self).events()[0].id,
                            capacity: old(self).cap() as usize,
                        },
                    )
                } else {
                    None::<StoreDiagnostic>
                }
            }),
            final(self).cap() == old(self).cap(),
            final(self).scope_of() == old(self).scope_of(),
            final(self).events().len() <= final(self).cap(),
            times_sorted(final(self).events()),
    {
        proof {
            use_type_invariant(&*self);
        }
        let ghost s0 = self.buf@;
        let mut buf: VecDeque<EventNode> = VecDeque::new();
        std::mem::swap(&mut buf, &mut self.buf);
        assert(buf@ == s0);
        assert(s0.len() <= self.capacity && 1 <= self.capacity);
        let spill = if buf.len() == self.capacity {
            match buf.pop_front() {
                Some(dropped) => Some(
                    StoreDiagnostic::RingBufferSpill {
                        scope: self.scope,
                        dropped: dropped.id,
                        capacity: self.capacity,
                    },
                ),
                None => None,
            }
        } else {
            None
        };
        let ghost base = buf@;
        proof {
            if s0.len() == self.capacity {
                assert(base =~= s0.drop_first());
                assert(base.len() < self.capacity);
            } else {
                assert(base == s0);
                assert(base.len() < self.capacity);
            }
        }
        insert_by_time(&mut buf, event);
        self.buf = buf;
        spill
    }

    /// Buffered events with `time ∈ [anchor - back, anchor + fwd]`, both
    /// ends inclusive (bounds saturate), earliest first.
    pub fn scan_window(&self, anchor: EventTime, back: DurationMs, fwd: DurationMs) -> (r: Vec<
        &EventNode,
    >)
        ensures
            ({
                let w = window_view(
                    self.events(),
                    clamp_i64(anchor.ms - back.ms_of()),
                    clamp_i64(anchor.ms + fwd.ms_of()),
                );
                &&& r@.len() == w.len()
                &&& forall|i: int| 0 <= i < w.len() ==> *r@[i] == w[i]
            }),
    {
        let lo = anchor.sub(back).ms;
        let hi = anchor.add(fwd).ms;
        let ghost s = self.buf@;
        let mut a: usize = 0;
        proof {
            assert(s.skip(0) =~= s);
        }
        while a < self.buf.len() && self.buf[a].time.ms < lo
            invariant
                0 <= a <= s.len(),
                self.buf@ == s,
                lead_before(s, lo) == a + lead_before(s.skip(a as int), lo),
            decreases s.len() - a,
        {
            proof {
                assert(s.skip(a as int).drop_first() =~= s.skip(a + 1));
            }
            a = a + 1;
        }
        let mut out: Vec<&EventNode> = Vec::new();
        let mut b: usize = a;
        proof {
            assert(s.skip(a as int).skip(0) =~= s.skip(a as int));
        }
        while b < self.buf.len() && self.buf[b].time.ms <= hi
            invariant
                a <= b <= s.len(),
                self.buf@ == s,
                lead_before(s, lo) == a,
                lead_upto(s.skip(a as int), hi) == (b - a) + lead_upto(s.skip(b as int), hi),
                out@.len() == b - a,
                forall|i: int| 0 <= i < b - a ==> *out@[i] == s[a + i],
            decreases s.len() - b,
        {
            out.push(&self.buf[b]);
            proof {
                assert(s.skip(b as int).drop_first() =~= s.skip(b + 1));
            }
            b = b + 1;
        }
        proof {
            let w = window_view(s, lo, hi);
            assert(w =~= s.subrange(a as int, b as int));
        }
        out
    }

    /// The first buffered event with id `id`.
    pub fn get(&self, id: EventId) -> (r: Option<&EventNode>)
        ensures
            match find_id(self.events(), id) {
                Some(i) => r matches Some(e) && *e == self.events()[i],
                None => r is None,
            },
    {
        let ghost s = self.buf@;
        let mut i: usize = 0;
        while i < self.buf.len()
            invariant
                0 <= i <= s.len(),
                self.buf@ == s,
                forall|j: int| 0 <= j < i ==> s[j].id != id,
            decreases s.len() - i,
        {
            if self.buf[i].id == id {
                proof {
                    let k = choose|k: int| 0 <= k < s.len() && s[k].id == id && forall|j: int| 0 <= j < k ==> s[j].id != id;
                    assert(k == i) by {
                        if k < i {
                        } else if k > i {
                            assert(s[i as int].id == id);
                        }
                    }
                }
                return Some(&self.buf[i]);
            }
            i = i + 1;
        }
        None
    }

    /// Watermark GC: evicts, oldest first, the events strictly older than
    /// `watermark - max_lookback` (saturating). Returns the evicted count.
    pub fn gc(&mut self, watermark: EventTime, max_lookback: DurationMs) -> (n: usize)
        ensures
            n == lead_before(old(self).events(), clamp_i64(watermark.ms - max_lookback.ms_of())),
            final(self).events() == old(self).events().skip(n as int),
            final(self).cap() == old(self).cap(),
            final(self).scope_of() == old(self).scope_of(),
            final(self).events().len() <= final(self).cap(),
            times_sorted(final(self).events()),
    {
        proof {
            use_type_invariant(&*self);
        }
        let cutoff = watermark.sub(max_lookback).ms;
        let ghost s0 = self.buf@;
        let mut buf: VecDeque<EventNode> = VecDeque::new();
        std::mem::swap(&mut buf, &mut self.buf);
        let mut evicted: usize = 0;
        proof {
            assert(s0.skip(0) =~= s0);
        }
        while buf.len() > 0 && buf[0].time.ms < cutoff
            invariant
                0 <= evicted <= s0.len(),
                buf@ == s0.skip(evicted as int),
                buf@.len() == s0.len() - evicted,
                s0.len() <= usize::MAX,
                lead_before(s0, cutoff) == evicted + lead_before(buf@, cutoff),
            decreases buf@.len(),
        {
            let ghost before = buf@;
            let _ = buf.pop_front();
            proof {
                assert(buf@ =~= s0.skip(evicted + 1));
                assert(before.drop_first() =~= buf@);
            }
            evicted = evicted + 1;
        }
        proof {
            assert forall|i: int, j: int| 0 <= i <= j < buf@.len() implies buf@[i].time.ms
                <= buf@[j].time.ms by {
                assert(buf@[i] == s0[i + evicted]);
                assert(buf@[j] == s0[j + evicted]);
            }
        }
        self.buf = buf;
        evicted
    }

    /// All buffered events, oldest first.
    pub fn iter(&self) -> (r: Vec<&EventNode>)
        ensures
            r@.len() == self.events().len(),
            forall|i: int| 0 <= i < r@.len() ==> *r@[i] == self.events()[i],
    {
        let mut out: Vec<&EventNode> = Vec::new();
        let mut i: usize = 0;
        while i < self.buf.len()
            invariant
                0 <= i <= self.buf@.len(),
                out@.len() == i,
                forall|j: int| 0 <= j < i ==> *out@[j] == self.buf@[j],
            decreases self.buf@.len() - i,
        {
            out.push(&self.buf[i]);
            i = i + 1;
        }
        out
    }
}

} // verus!
