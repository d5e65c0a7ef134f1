//! Bounded per-scope queue of suspended matches, kept in `pending_lt`
//! order so the most urgent match (smallest `upper_bound`) comes first.
use std::collections::VecDeque;
use vstd::prelude::*;

use crate::ir::{lemma_pending_order, pending_lt, PendingMatch};
use crate::store::diag::StoreDiagnostic;
use crate::types::{EventTime, ScopeId};

verus! {

broadcast use vstd::std_specs::vecdeque::group_vec_dequeue_axioms;

/// No match comes strictly before an earlier one.
pub open spec fn pending_sorted(s: Seq<PendingMatch>) -> bool {
    forall|i: int, j: int| 0 <= i < j < s.len() ==> !pending_lt(s[j], s[i])
}

/// Where `p` goes: right after the last match that does not come strictly
/// after it (equal matches keep arrival order).
pub open spec fn pending_pos(s: Seq<PendingMatch>, p: PendingMatch) -> int
    decreases s.len(),
{
    if s.len() == 0 {
        0
    } else if !pending_lt(p, s.last()) {
        s.len() as int
    } else {
        pending_pos(s.drop_last(), p)
    }
}

/// Number of leading matches whose window has closed (`upper_bound < wm`).
pub open spec fn lead_expired(s: Seq<PendingMatch>, wm: i64) -> int
    decreases s.len(),
{
    if s.len() > 0 && s[0].upper_bound.ms < wm {
        1 + lead_expired(s.drop_first(), wm)
    } else {
        0
    }
}

proof fn lemma_pending_pos(s: Seq<PendingMatch>, p: PendingMatch)
    ensures
        0 <= pending_pos(s, p) <= s.len(),
        pending_pos(s, p) > 0 ==> !pending_lt(p, s[pending_pos(s, p) - 1]),
        forall|i: int| pending_pos(s, p) <= i < s.len() ==> pending_lt(p, #[trigger] s[i]),
    decreases s.len(),
{
    if s.len() > 0 && pending_lt(p, s.last()) {
        lemma_pending_pos(s.drop_last(), p);
        assert forall|i: int| pending_pos(s, p) <= i < s.len() implies pending_lt(p, #[trigger] s[i]) by {
            if i < s.len() - 1 {
                assert(s[i] == s.drop_last()[i]);
            }
        }
    }
}

/// In a sorted queue upper bounds never decrease.
proof fn lemma_sorted_upper(s: Seq<PendingMatch>, i: int, j: int)
    requires
        pending_sorted(s),
        0 <= i <= j < s.len(),
    ensures
        s[i].upper_bound.ms <= s[j].upper_bound.ms,
{
    if i < j {
        assert(!pending_lt(s[j], s[i]));
    }
}

/// Inserting at `pending_pos` keeps a queue sorted.
proof fn lemma_insert_sorted(s: Seq<PendingMatch>, p: PendingMatch)
    requires
        pending_sorted(s),
    ensures
        pending_sorted(s.insert(pending_pos(s, p), p)),
        s.insert(pending_pos(s, p), p).len() == s.len() + 1,
{
    lemma_pending_pos(s, p);
    let k = pending_pos(s, p);
    let t = s.insert(k, p);
    assert forall|i: int, j: int| 0 <= i < j < t.len() implies !pending_lt(t[j], t[i]) by {
        if j == k {
            // t[i] = s[i] with i < k: s[i] <= s[k-1] <= p
            lemma_pending_order(s[i], s[k - 1], p);
            if i < k - 1 {
                assert(!pending_lt(s[k - 1], s[i]));
            }
        } else if i == k {
            // t[j] = s[j-1] with j-1 >= k: p < s[j-1]
            assert(pending_lt(p, s[j - 1]));
            lemma_pending_order(p, s[j - 1], p);
            lemma_pending_order(s[j - 1], p, s[j - 1]);
        } else {
            let a = if i < k {
                i
            } else {
                i - 1
            };
            let b = if j < k {
                j
            } else {
                j - 1
            };
            assert(t[i] == s[a]);
            assert(t[j] == s[b]);
        }
    }
}

/// Bounded queue of suspended matches for one scope. Overflow drops the
/// least urgent match and signals a wait-queue spill.
#[derive(Debug)]
pub struct WaitQueue {
    queue: VecDeque<PendingMatch>,
    scope: ScopeId,
    capacity: usize,
}

impl WaitQueue {
    #[verifier::type_invariant]
    spec fn inv(self) -> bool {
        &&& 1 <= self.capacity
        &&& self.queue@.len() <= self.capacity
        &&& pending_sorted(self.queue@)
    }

    /// The suspended matches, most urgent first.
    pub closed spec fn matches(&self) -> Seq<PendingMatch> {
        self.queue@
    }

    /// The configured capacity.
    pub closed spec fn cap(&self) -> nat {
        self.capacity as nat
    }

    /// The partition of this queue.
    pub closed spec fn scope_of(&self) -> ScopeId {
        self.scope
    }

    /// An empty queue for `scope`; a zero capacity is raised to 1.
    pub fn new(scope: ScopeId, capacity: usize) -> (q: WaitQueue)
        ensures
            q.matches().len() == 0,
            q.cap() == if capacity == 0 {
                1
            } else {
                capacity
            },
            q.scope_of() == scope,
    {
        WaitQueue { queue: VecDeque::new(), scope, capacity: if capacity == 0 {
            1
        } else {
            capacity
        } }
    }

    /// The partition this queue belongs to.
    pub fn scope(&self) -> (s: ScopeId)
        ensures
            s == self.scope_of(),
    {
        self.scope
    }

    /// Configured capacity.
    pub fn capacity(&self) -> (c: usize)
        ensures
            c == self.cap(),
    {
        self.capacity
    }

    /// Suspended match count; never above the capacity.
    pub fn len(&self) -> (n: usize)
        ensures
            n == self.matches().len(),
            n <= self.cap(),
    {
        proof {
            use_type_invariant(self);
        }
        self.queue.len()
    }

    /// Whether no match is suspended.
    pub fn is_empty(&self) -> (b: bool)
        ensures
            b == (self.matches().len() == 0),
    {
        self.queue.len() == 0
    }

    /// Suspends a match. Below capacity it is inserted in order. At capacity
    /// the least urgent of the held matches and the new one is dropped and
    /// reported in a wait-queue spill (the new one when it is not strictly
    /// more urgent than the last held one).
    pub fn push(&mut self, pending: PendingMatch) -> (d: Option<StoreDiagnostic>)
        ensures
            ({
                let s = old(self).matches();
                if s.len() < old(self).cap() {
                    &&& d is None
                    &&& final(self).matches() == s.insert(pending_pos(s, pending), pending)
                } else if pending_lt(pending, s.last()) {
                    &&& d == Some(
                        StoreDiagnostic::WaitQueueSpill {
                            scope: old(self).scope_of(),
                            dropped: s.last(),
                            capacity: old(self).cap() as usize,
                        },
                    )
                    &&& final(self).matches() == s.drop_last().insert(
                        pending_pos(s.drop_last(), pending),
                        pending,
                    )
                } else {
                    &&& d == Some(
                        StoreDiagnostic::WaitQueueSpill {
                            scope: old(self).scope_of(),
                            dropped: pending,
                            capacity: old(self).cap() as usize,
                        },
                    )
                    &&& final(self).matches() == s
                }
            }),
            final(self).cap() == old(self).cap(),
            final(self).scope_of() == old(self).scope_of(),
            final(self).matches().len() <= final(self).cap(),
            pending_sorted(final(self).matches()),
    {
        proof {
            use_type_invariant(&*self);
        }
        let ghost s0 = self.queue@;
        let mut q: VecDeque<PendingMatch> = VecDeque::new();
        std::mem::swap(&mut q, &mut self.queue);
        assert(q@ == s0);
        if q.len() < self.capacity {
            insert_in_order(&mut q, pending);
            self.queue = q;
            return None;
        }
        let last = q.len() - 1;
        if pending.precedes(&q[last]) {
            let dropped = q.pop_back();
            match dropped {
                Some(max) => {
                    proof {
                        assert(q@ =~= s0.drop_last());
                        assert forall|i: int, j: int| 0 <= i < j < q@.len() implies !pending_lt(
                            q@[j],
                            q@[i],
                        ) by {
                            assert(q@[i] == s0[i]);
                            assert(q@[j] == s0[j]);
                        }
                    }
                    insert_in_order(&mut q, pending);
                    self.queue = q;
                    Some(
                        StoreDiagnostic::WaitQueueSpill {
                            scope: self.scope,
                            dropped: max,
                            capacity: self.capacity,
                        },
                    )
                },
                None => {
                    self.queue = q;
                    None
                },
            }
        } else {
            self.queue = q;
            Some(
                StoreDiagnostic::WaitQueueSpill {
                    scope: self.scope,
                    dropped: pending,
                    capacity: self.capacity,
                },
            )
        }
    }

    /// The most urgent suspended match.
    pub fn peek(&self) -> (r: Option<&PendingMatch>)
        ensures
            if self.matches().len() > 0 {
                r matches Some(p) && *p == self.matches()[0]
            } else {
                r is None
            },
    {
        if self.queue.len() > 0 {
            Some(&self.queue[0])
        } else {
            None
        }
    }

    /// Pops, most urgent first, every match whose window has closed:
    /// `upper_bound < wm` (a match with `upper_bound == wm` stays).
    pub fn pop_expired(&mut self, wm: EventTime) -> (r: Vec<PendingMatch>)
        ensures
            ({
                let k = lead_expired(old(self).matches(), wm.ms);
                &&& 0 <= k <= old(self).matches().len()
                &&& r@ == old(self).matches().take(k)
                &&& final(self).matches() == old(self).matches().skip(k)
            }),
            forall|i: int| 0 <= i < r@.len() ==> (#[trigger] r@[i]).upper_bound.ms < wm.ms,
            forall|i: int|
                0 <= i < final(self).matches().len() ==> (#[trigger] final(self).matches()[i]).upper_bound.ms
                    >= wm.ms,
            pending_sorted(r@),
            final(self).cap() == old(self).cap(),
            final(self).scope_of() == old(self).scope_of(),
    {
        proof {
            use_type_invariant(&*self);
        }
        let ghost s0 = self.queue@;
        let mut q: VecDeque<PendingMatch> = VecDeque::new();
        std::mem::swap(&mut q, &mut self.queue);
        let mut out: Vec<PendingMatch> = Vec::new();
        proof {
            assert(s0.skip(0) =~= s0);
            assert(s0.take(0) =~= out@);
        }
        while q.len() > 0 && q[0].upper_bound.ms < wm.ms
            invariant
                0 <= out@.len() <= s0.len(),
                q@ == s0.skip(out@.len() as int),
                out@ == s0.take(out@.len() as int),
                q@.len() == s0.len() - out@.len(),
                lead_expired(s0, wm.ms) == out@.len() + lead_expired(q@, wm.ms),
                forall|i: int| 0 <= i < out@.len() ==> (#[trigger] out@[i]).upper_bound.ms < wm.ms,
            decreases q@.len(),
        {
            let ghost before = q@;
            let ghost n: int = out@.len() as int;
            match q.pop_front() {
                Some(p) => {
                    out.push(p);
                    proof {
                        assert(before.drop_first() =~= q@);
                        assert(q@ =~= s0.skip(n + 1));
                        assert(out@ =~= s0.take(n + 1));
                    }
                },
                None => {},
            }
        }
        proof {
            let k = out@.len() as int;
            assert forall|i: int| 0 <= i < q@.len() implies (#[trigger] q@[i]).upper_bound.ms >= wm.ms by {
                assert(q@[i] == s0[k + i]);
                assert(q@[0] == s0[k]);
                lemma_sorted_upper(s0, k, k + i);
            }
            assert forall|i: int, j: int| 0 <= i < j < q@.len() implies !pending_lt(q@[j], q@[i]) by {
                assert(q@[i] == s0[k + i]);
                assert(q@[j] == s0[k + j]);
            }
            assert forall|i: int, j: int| 0 <= i < j < out@.len() implies !pending_lt(out@[j], out@[i]) by {
                assert(out@[i] == s0[i]);
                assert(out@[j] == s0[j]);
            }
        }
        self.queue = q;
        out
    }

    /// Removes and returns every suspended match, most urgent first (the
    /// end-of-stream flush).
    pub fn drain_all(&mut self) -> (r: Vec<PendingMatch>)
        ensures
            r@ == old(self).matches(),
            pending_sorted(r@),
            final(self).matches().len() == 0,
            final(self).cap() == old(self).cap(),
            final(self).scope_of() == old(self).scope_of(),
    {
        proof {
            use_type_invariant(&*self);
        }
        let ghost s0 = self.queue@;
        let mut q: VecDeque<PendingMatch> = VecDeque::new();
        std::mem::swap(&mut q, &mut self.queue);
        let mut out: Vec<PendingMatch> = Vec::new();
        while q.len() > 0
            invariant
                0 <= out@.len() <= s0.len(),
                q@ == s0.skip(out@.len() as int),
                out@ == s0.take(out@.len() as int),
                q@.len() == s0.len() - out@.len(),
            decreases q@.len(),
        {
            let ghost before = q@;
            let ghost n: int = out@.len() as int;
            match q.pop_front() {
                Some(p) => {
                    out.push(p);
                    proof {
                        assert(before.drop_first() =~= q@);
                        assert(q@ =~= s0.skip(n + 1));
                        assert(out@ =~= s0.take(n + 1));
                    }
                },
                None => {},
            }
        }
        proof {
            assert(out@ =~= s0);
        }
        out
    }
}

/// Inserts `p` into a sorted deque at `pending_pos`.
fn insert_in_order(q: &mut VecDeque<PendingMatch>, p: PendingMatch)
    requires
        pending_sorted(old(q)@),
    ensures
        final(q)@ == old(q)@.insert(pending_pos(old(q)@, p), p),
        final(q)@.len() == old(q)@.len() + 1,
        pending_sorted(final(q)@),
{
    let ghost base = q@;
    proof {
        assert(base.subrange(0, base.len() as int) =~= base);
        lemma_insert_sorted(base, p);
    }
    let mut pos: usize = q.len();
    while pos > 0 && p.precedes(&q[pos - 1])
        invariant
            0 <= pos <= base.len(),
            q@ == base,
            pending_pos(base, p) == pending_pos(base.subrange(0, pos as int), p),
        decreases pos,
    {
        proof {
            assert(base.subrange(0, pos as int).drop_last() =~= base.subrange(0, pos - 1));
        }
        pos = pos - 1;
    }
    proof {
        if pos > 0 {
            assert(base.subrange(0, pos as int).last() == base[pos - 1]);
        }
        assert(pending_pos(base, p) == pos);
    }
    q.insert(pos, p);
}

} // verus!
