//! `EventNode`: the owned, immutable event stored in ring buffers.
use vstd::prelude::*;

use crate::ir::FieldIdx;
use crate::types::{EventId, EventTime, EventType, ScopeId};

verus! {

/// Maximum values carried by one event `IntList` field.
pub const MAX_EVENT_INT_LIST_VALUES: usize = 64;

/// First value stored under key `k` in an association sequence.
pub open spec fn first_value<V>(s: Seq<(FieldIdx, V)>, k: u16) -> Option<V>
    decreases s.len(),
{
    if s.len() == 0 {
        None
    } else if s[0].0.0 == k {
        Some(s[0].1)
    } else {
        first_value(s.drop_first(), k)
    }
}

/// Keys strictly increasing.
pub open spec fn keys_strictly_sorted<V>(s: Seq<(FieldIdx, V)>) -> bool {
    forall|i: int, j: int| 0 <= i < j < s.len() ==> s[i].0.0 < s[j].0.0
}

/// Strictly increasing integer sequence.
pub open spec fn strictly_increasing(s: Seq<i64>) -> bool {
    forall|i: int, j: int| 0 <= i < j < s.len() ==> s[i] < s[j]
}

/// The bounded normal form of an `IntList` input: sorted, duplicate-free,
/// drawn from `input`, and holding the smallest distinct values (at most
/// `MAX_EVENT_INT_LIST_VALUES` of them).
pub open spec fn int_list_normal_form(input: Seq<i64>, out: Seq<i64>) -> bool {
    &&& strictly_increasing(out)
    &&& out.len() <= MAX_EVENT_INT_LIST_VALUES
    &&& forall|i: int| 0 <= i < out.len() ==> input.contains(#[trigger] out[i])
    &&& forall|x: i64|
        #![trigger input.contains(x)]
        input.contains(x) ==> out.contains(x) || (out.len() == MAX_EVENT_INT_LIST_VALUES && x
            > out.last())
}

proof fn lemma_first_value_push<V>(s: Seq<(FieldIdx, V)>, e: (FieldIdx, V), k: u16)
    ensures
        first_value(s.push(e), k) == (match first_value(s, k) {
            Some(v) => Some(v),
            None => if e.0.0 == k {
                Some(e.1)
            } else {
                None
            },
        }),
    decreases s.len(),
{
    if s.len() > 0 {
        assert(s.push(e)[0] == s[0]);
        assert(s.push(e).drop_first() =~= s.drop_first().push(e));
        lemma_first_value_push(s.drop_first(), e, k);
    } else {
        assert(s.push(e)[0] == e);
        assert(s.push(e).drop_first() =~= Seq::<(FieldIdx, V)>::empty());
        assert(first_value(Seq::<(FieldIdx, V)>::empty(), k) is None);
    }
}

proof fn lemma_first_value_sorted<V>(s: Seq<(FieldIdx, V)>, k: u16)
    requires
        keys_strictly_sorted(s),
    ensures
        first_value(s, k) is None <==> (forall|j: int| 0 <= j < s.len() ==> s[j].0.0 != k),
        forall|j: int| 0 <= j < s.len() && s[j].0.0 == k ==> first_value(s, k) == Some(s[j].1),
    decreases s.len(),
{
    if s.len() > 0 {
        let t = s.drop_first();
        assert(keys_strictly_sorted(t)) by {
            assert forall|i: int, j: int| 0 <= i < j < t.len() implies t[i].0.0 < t[j].0.0 by {
                assert(t[i] == s[i + 1] && t[j] == s[j + 1]);
            }
        }
        lemma_first_value_sorted(t, k);
        assert forall|j: int| 1 <= j < s.len() implies s[j] == t[j - 1] by {}
    }
}

proof fn lemma_assoc_insert<V>(before: Seq<(FieldIdx, V)>, pos: int, k0: FieldIdx, v0: V)
    requires
        keys_strictly_sorted(before),
        0 <= pos <= before.len(),
        forall|j: int| 0 <= j < pos ==> before[j].0.0 < k0.0,
        forall|j: int| pos <= j < before.len() ==> before[j].0.0 > k0.0,
    ensures
        keys_strictly_sorted(before.insert(pos, (k0, v0))),
        forall|k: u16|
            #[trigger] first_value(before.insert(pos, (k0, v0)), k) == if k == k0.0 {
                Some(v0)
            } else {
                first_value(before, k)
            },
{
    let after = before.insert(pos, (k0, v0));
    assert(keys_strictly_sorted(after)) by {
        assert forall|a: int, b: int| 0 <= a < b < after.len() implies after[a].0.0
            < after[b].0.0 by {
            if a < pos && b > pos {
                assert(after[b] == before[b - 1]);
            }
        }
    }
    assert forall|k: u16| #[trigger] first_value(after, k) == if k == k0.0 {
        Some(v0)
    } else {
        first_value(before, k)
    } by {
        lemma_first_value_sorted(before, k);
        lemma_first_value_sorted(after, k);
        if k == k0.0 {
            assert(after[pos] == (k0, v0));
        } else {
            assert forall|j: int| 0 <= j < after.len() && after[j].0.0 == k implies before.contains(
                after[j],
            ) by {
                if j < pos {
                    assert(after[j] == before[j]);
                } else {
                    assert(after[j] == before[j - 1]);
                }
            }
            assert forall|j: int| 0 <= j < before.len() && before[j].0.0 == k implies after.contains(
                before[j],
            ) by {
                if j < pos {
                    assert(after[j] == before[j]);
                } else {
                    assert(after[j + 1] == before[j]);
                }
            }
        }
    }
}

proof fn lemma_assoc_replace<V>(before: Seq<(FieldIdx, V)>, pos: int, v0: V)
    requires
        keys_strictly_sorted(before),
        0 <= pos < before.len(),
    ensures
        keys_strictly_sorted(before.update(pos, (before[pos].0, v0))),
        forall|k: u16|
            #[trigger] first_value(before.update(pos, (before[pos].0, v0)), k) == if k
                == before[pos].0.0 {
                Some(v0)
            } else {
                first_value(before, k)
            },
{
    let k0 = before[pos].0;
    let after = before.update(pos, (k0, v0));
    assert(keys_strictly_sorted(after)) by {
        assert forall|a: int, b: int| 0 <= a < b < after.len() implies after[a].0.0
            < after[b].0.0 by {
            assert(after[a].0 == before[a].0 && after[b].0 == before[b].0);
        }
    }
    assert(after[pos] == (k0, v0));
    assert forall|k: u16| #[trigger] first_value(after, k) == if k == k0.0 {
        Some(v0)
    } else {
        first_value(before, k)
    } by {
        lemma_first_value_sorted(before, k);
        lemma_first_value_sorted(after, k);
        if k != k0.0 {
            assert forall|j: int| 0 <= j < after.len() && after[j].0.0 == k implies before.contains(
                after[j],
            ) by {
                assert(after[j] == before[j]);
            }
            assert forall|j: int| 0 <= j < before.len() && before[j].0.0 == k implies after.contains(
                before[j],
            ) by {
                assert(after[j] == before[j]);
            }
        }
    }
}

/// Sorts, deduplicates and truncates an `IntList` input to its bounded
/// normal form (the `MAX_EVENT_INT_LIST_VALUES` smallest distinct values).
pub fn normalize_int_list(values: &Vec<i64>) -> (out: Vec<i64>)
    ensures
        int_list_normal_form(values@, out@),
{
    let mut out: Vec<i64> = Vec::new();
    let mut i: usize = 0;
    while i < values.len()
        invariant
            0 <= i <= values.len(),
            strictly_increasing(out@),
            forall|j: int| 0 <= j < out@.len() ==> values@.take(i as int).contains(#[trigger] out@[j]),
            forall|x: i64| #[trigger] values@.take(i as int).contains(x) ==> out@.contains(x),
        decreases values.len() - i,
    {
        let x = values[i];
        let ghost before = out@;
        let mut pos: usize = 0;
        while pos < out.len() && out[pos] < x
            invariant
                0 <= pos <= out.len(),
                out@ == before,
                forall|j: int| 0 <= j < pos ==> out@[j] < x,
            decreases out.len() - pos,
        {
            pos = pos + 1;
        }
        proof {
            assert(values@.take(i as int + 1) =~= values@.take(i as int).push(x));
        }
        if pos < out.len() && out[pos] == x {
            proof {
                assert forall|y: i64| #[trigger] values@.take(i as int + 1).contains(y) implies out@.contains(y) by {
                    if y != x {
                        assert(values@.take(i as int).contains(y));
                    }
                }
                assert forall|j: int| 0 <= j < out@.len() implies values@.take(i as int + 1).contains(#[trigger] out@[j]) by {
                    assert(values@.take(i as int).contains(out@[j]));
                    let w = choose|m: int| 0 <= m < i && values@.take(i as int)[m] == out@[j];
                    assert(values@.take(i as int + 1)[w] == out@[j]);
                }
            }
        } else {
            out.insert(pos, x);
            proof {
                let after = out@;
                assert forall|a: int, b: int| 0 <= a < b < after.len() implies after[a] < after[b] by {
                    if pos < before.len() {
                        assert(before[pos as int] > x);
                    }
                    if a < pos && b > pos {
                        assert(after[b] == before[b - 1]);
                    }
                }
                assert forall|y: i64| #[trigger] values@.take(i as int + 1).contains(y) implies after.contains(y) by {
                    if y == x {
                        assert(after[pos as int] == x);
                    } else {
                        assert(values@.take(i as int).contains(y));
                        let m = choose|m: int| 0 <= m < before.len() && before[m] == y;
                        if m < pos {
                            assert(after[m] == y);
                        } else {
                            assert(after[m + 1] == y);
                        }
                    }
                }
                assert forall|j: int| 0 <= j < after.len() implies values@.take(i as int + 1).contains(#[trigger] after[j]) by {
                    if j == pos {
                        assert(values@.take(i as int + 1)[i as int] == x);
                    } else {
                        let jj = if j < pos { j } else { j - 1 };
                        assert(after[j] == before[jj]);
                        assert(values@.take(i as int).contains(before[jj]));
                        let w = choose|m: int| 0 <= m < i && values@.take(i as int)[m] == before[jj];
                        assert(values@.take(i as int + 1)[w] == before[jj]);
                    }
                }
            }
        }
        i = i + 1;
    }
    proof {
        assert(values@.take(values.len() as int) =~= values@);
    }
    let ghost full = out@;
    if out.len() > MAX_EVENT_INT_LIST_VALUES {
        out.truncate(MAX_EVENT_INT_LIST_VALUES);
        proof {
            assert forall|x: i64| #[trigger] values@.contains(x) implies out@.contains(x) || (out@.len()
                == MAX_EVENT_INT_LIST_VALUES && x > out@.last()) by {
                assert(full.contains(x));
                let m = choose|m: int| 0 <= m < full.len() && full[m] == x;
                if m < MAX_EVENT_INT_LIST_VALUES {
                    assert(out@[m] == x);
                } else {
                    assert(full[MAX_EVENT_INT_LIST_VALUES - 1] < full[m]);
                }
            }
        }
    }
    out
}

/// Capture provenance of an event.
#[derive(Debug, Clone, PartialEq, Eq)]
pub struct EventProvenance {
    /// Capture frame index, when known.
    pub frame: Option<u64>,
    /// Source identifier for multi-source captures.
    pub source: Option<String>,
}

impl Default for EventProvenance {
    fn default() -> (p: EventProvenance)
        ensures
            p.frame is None && p.source is None,
    {
        EventProvenance { frame: None, source: None }
    }
}

impl EventProvenance {
    /// No frame, no source.
    pub fn none() -> (p: EventProvenance)
        ensures
            p.frame is None && p.source is None,
    {
        EventProvenance { frame: None, source: None }
    }
}

/// One owned event. Metric fields are `(FieldIdx, i64)` pairs sorted by
/// field index; `IntList` fields live in a sorted sidecar.
#[derive(Debug, Clone, PartialEq, Eq)]
pub struct EventNode {
    /// Engine-assigned event id.
    pub id: EventId,
    /// Catalog event type.
    pub event_type: EventType,
    /// Event-time (the ring-buffer sort key).
    pub time: EventTime,
    /// Partition this copy of the event belongs to.
    pub scope: ScopeId,
    /// Scalar metric fields, sorted by index.
    pub fields: Vec<(FieldIdx, i64)>,
    /// `IntList` fields, sorted by index.
    pub int_list_fields: Vec<(FieldIdx, Vec<i64>)>,
    /// Capture provenance.
    pub provenance: EventProvenance,
}

impl EventNode {
    /// The scalar fields, sorted by index.
    pub open spec fn fields_view(&self) -> Seq<(FieldIdx, i64)> {
        self.fields@
    }

    /// The `IntList` fields, sorted by index.
    pub open spec fn int_lists_view(&self) -> Seq<(FieldIdx, Vec<i64>)> {
        self.int_list_fields@
    }

    /// A copy of the event: same id, type, time, scope, fields, lists and
    /// provenance.
    pub fn duplicate(&self) -> (e: EventNode)
        ensures
            e.id == self.id && e.event_type@ == self.event_type@ && e.time == self.time && e.scope == self.scope,
            e.fields_view() == self.fields_view(),
            e.int_lists_view().len() == self.int_lists_view().len(),
            forall|k: int|
                0 <= k < self.int_lists_view().len() ==> (#[trigger] e.int_lists_view()[k]).0
                    == self.int_lists_view()[k].0 && e.int_lists_view()[k].1@ == self.int_lists_view()[k].1@,
            e.provenance.frame == self.provenance.frame,
            e.provenance.source is Some <==> self.provenance.source is Some,
            e.provenance.source matches Some(x) ==> x@ == self.provenance.source->Some_0@,
    {
        let mut fields: Vec<(FieldIdx, i64)> = Vec::new();
        let mut i: usize = 0;
        while i < self.fields.len()
            invariant
                0 <= i <= self.fields@.len(),
                fields@ == self.fields@.take(i as int),
            decreases self.fields@.len() - i,
        {
            fields.push(self.fields[i]);
            i = i + 1;
            proof {
                assert(fields@ =~= self.fields@.take(i as int));
            }
        }
        proof {
            assert(self.fields@.take(self.fields@.len() as int) =~= self.fields@);
        }
        let mut lists: Vec<(FieldIdx, Vec<i64>)> = Vec::new();
        let mut k: usize = 0;
        while k < self.int_list_fields.len()
            invariant
                0 <= k <= self.int_list_fields@.len(),
                lists@.len() == k,
                forall|j: int|
                    0 <= j < k ==> (#[trigger] lists@[j]).0 == self.int_list_fields@[j].0 && lists@[j].1@
                        == self.int_list_fields@[j].1@,
            decreases self.int_list_fields@.len() - k,
        {
            let src = &self.int_list_fields[k].1;
            let mut v: Vec<i64> = Vec::new();
            let mut m: usize = 0;
            while m < src.len()
                invariant
                    0 <= m <= src@.len(),
                    v@ == src@.take(m as int),
                decreases src@.len() - m,
            {
                v.push(src[m]);
                m = m + 1;
                proof {
                    assert(v@ =~= src@.take(m as int));
                }
            }
            proof {
                assert(src@.take(src@.len() as int) =~= src@);
            }
            lists.push((self.int_list_fields[k].0, v));
            k = k + 1;
        }
        let source = match &self.provenance.source {
            Some(x) => Some(x.clone()),
            None => None,
        };
        EventNode {
            id: self.id,
            event_type: self.event_type.duplicate(),
            time: self.time,
            scope: self.scope,
            fields,
            int_list_fields: lists,
            provenance: EventProvenance { frame: self.provenance.frame, source },
        }
    }

    /// Both field tables are strictly sorted by index.
    pub open spec fn wf(&self) -> bool {
        keys_strictly_sorted(self.fields_view()) && keys_strictly_sorted(
            self.int_lists_view(),
        )
    }

    /// The value of scalar field `k`, if present.
    pub open spec fn field_spec(&self, k: u16) -> Option<i64> {
        first_value(self.fields_view(), k)
    }

    /// Builds an event. Fields are sorted by index; for a duplicated index
    /// the first occurrence wins.
    pub fn new(
        id: EventId,
        event_type: EventType,
        time: EventTime,
        scope: ScopeId,
        fields: Vec<(FieldIdx, i64)>,
        provenance: EventProvenance,
    ) -> (e: EventNode)
        ensures
            e.wf(),
            e.id == id && e.event_type == event_type && e.time == time && e.scope == scope,
            e.provenance == provenance,
            e.int_lists_view().len() == 0,
            forall|k: u16| #[trigger] e.field_spec(k) == first_value(fields@, k),
    {
        let mut out: Vec<(FieldIdx, i64)> = Vec::new();
        let mut i: usize = 0;
        while i < fields.len()
            invariant
                0 <= i <= fields.len(),
                keys_strictly_sorted(out@),
                forall|k: u16| #[trigger] first_value(out@, k) == first_value(fields@.take(i as int), k),
            decreases fields.len() - i,
        {
            let (k0, v0) = fields[i];
            let ghost before = out@;
            // Find the first entry whose key is >= k0.
            let mut pos: usize = 0;
            while pos < out.len() && out[pos].0.0 < k0.0
                invariant
                    0 <= pos <= out.len(),
                    out@ == before,
                    forall|j: int| 0 <= j < pos ==> out@[j].0.0 < k0.0,
                decreases out.len() - pos,
            {
                pos = pos + 1;
            }
            proof {
                assert(fields@.take(i as int + 1) =~= fields@.take(i as int).push(fields@[i as int]));
                assert forall|k: u16| #[trigger] first_value(fields@.take(i as int + 1), k) == (match first_value(
                    fields@.take(i as int),
                    k,
                ) {
                    Some(v) => Some(v),
                    None => if k0.0 == k {
                        Some(v0)
                    } else {
                        None
                    },
                }) by {
                    lemma_first_value_push(fields@.take(i as int), fields@[i as int], k);
                }
            }
            if pos < out.len() && out[pos].0.0 == k0.0 {
                // Key already present: the earlier occurrence wins.
                proof {
                    lemma_first_value_sorted(before, k0.0);
                }
            } else {
                proof {
                    assert forall|j: int| pos <= j < before.len() implies before[j].0.0 > k0.0 by {
                        assert(before[pos as int].0.0 > k0.0);
                    }
                    lemma_assoc_insert(before, pos as int, k0, v0);
                    lemma_first_value_sorted(before, k0.0);
                }
                out.insert(pos, (k0, v0));
            }
            i = i + 1;
        }
        proof {
            assert(fields@.take(fields.len() as int) =~= fields@);
        }
        EventNode {
            id,
            event_type,
            time,
            scope,
            fields: out,
            int_list_fields: Vec::new(),
            provenance,
        }
    }

    /// Scalar field lookup by catalog index; `None` when absent.
    pub fn field(&self, idx: FieldIdx) -> (v: Option<i64>)
        ensures
            v == self.field_spec(idx.0),
    {
        let mut i: usize = 0;
        proof {
            assert(self.fields@.subrange(0, self.fields@.len() as int) =~= self.fields@);
        }
        while i < self.fields.len()
            invariant
                0 <= i <= self.fields@.len(),
                first_value(self.fields@, idx.0) == first_value(
                    self.fields@.subrange(i as int, self.fields@.len() as int),
                    idx.0,
                ),
            decreases self.fields.len() - i,
        {
            let (k, v) = self.fields[i];
            let ghost rest = self.fields@.subrange(i as int, self.fields@.len() as int);
            if k.0 == idx.0 {
                return Some(v);
            }
            proof {
                assert(rest.drop_first() =~= self.fields@.subrange(
                    i as int + 1,
                    self.fields@.len() as int,
                ));
            }
            i = i + 1;
        }
        None
    }

    /// `IntList` field `k`, if present.
    pub open spec fn int_list_spec(&self, k: u16) -> Option<Vec<i64>> {
        first_value(self.int_lists_view(), k)
    }

    /// Adds or replaces one bounded `IntList` field; values are sorted,
    /// deduplicated and truncated to `MAX_EVENT_INT_LIST_VALUES`.
    pub fn with_int_list_field(self, idx: FieldIdx, values: Vec<i64>) -> (e: EventNode)
        requires
            self.wf(),
        ensures
            e.wf(),
            e.id == self.id && e.event_type == self.event_type && e.time == self.time,
            e.scope == self.scope && e.provenance == self.provenance,
            e.fields_view() == self.fields_view(),
            e.int_list_spec(idx.0) matches Some(v) && int_list_normal_form(values@, v@),
            forall|k: u16| k != idx.0 ==> #[trigger] e.int_list_spec(k) == self.int_list_spec(k),
    {
        let norm = normalize_int_list(&values);
        let ghost nview = norm@;
        let mut lists = self.int_list_fields;
        let ghost before = lists@;
        let mut pos: usize = 0;
        while pos < lists.len() && lists[pos].0.0 < idx.0
            invariant
                0 <= pos <= lists.len(),
                lists@ == before,
                forall|j: int| 0 <= j < pos ==> lists@[j].0.0 < idx.0,
            decreases lists.len() - pos,
        {
            pos = pos + 1;
        }
        if pos < lists.len() && lists[pos].0.0 == idx.0 {
            proof {
                lemma_assoc_replace(before, pos as int, norm);
            }
            lists.set(pos, (idx, norm));
        } else {
            proof {
                assert forall|j: int| pos <= j < before.len() implies before[j].0.0 > idx.0 by {
                    assert(before[pos as int].0.0 > idx.0);
                }
                lemma_assoc_insert(before, pos as int, idx, norm);
            }
            lists.insert(pos, (idx, norm));
        }
        EventNode {
            id: self.id,
            event_type: self.event_type,
            time: self.time,
            scope: self.scope,
            fields: self.fields,
            int_list_fields: lists,
            provenance: self.provenance,
        }
    }

    /// `IntList` field lookup by catalog index.
    pub fn int_list_field(&self, idx: FieldIdx) -> (v: Option<&[i64]>)
        ensures
            match self.int_list_spec(idx.0) {
                Some(w) => v matches Some(s) && s@ == w@,
                None => v is None,
            },
    {
        let mut i: usize = 0;
        proof {
            assert(self.int_list_fields@.subrange(0, self.int_list_fields@.len() as int)
                =~= self.int_list_fields@);
        }
        while i < self.int_list_fields.len()
            invariant
                0 <= i <= self.int_list_fields@.len(),
                first_value(self.int_list_fields@, idx.0) == first_value(
                    self.int_list_fields@.subrange(i as int, self.int_list_fields@.len() as int),
                    idx.0,
                ),
            decreases self.int_list_fields.len() - i,
        {
            let ghost rest = self.int_list_fields@.subrange(
                i as int,
                self.int_list_fields@.len() as int,
            );
            if self.int_list_fields[i].0.0 == idx.0 {
                return Some(self.int_list_fields[i].1.as_slice());
            }
            proof {
                assert(rest.drop_first() =~= self.int_list_fields@.subrange(
                    i as int + 1,
                    self.int_list_fields@.len() as int,
                ));
            }
            i = i + 1;
        }
        None
    }

    /// All scalar fields, sorted by index.
    pub fn fields(&self) -> (s: &[(FieldIdx, i64)])
        ensures
            s@ == self.fields_view(),
    {
        self.fields.as_slice()
    }

    /// All `IntList` fields, sorted by index.
    pub fn int_list_fields(&self) -> (s: &[(FieldIdx, Vec<i64>)])
        ensures
            s@ == self.int_lists_view(),
    {
        self.int_list_fields.as_slice()
    }
}

} // verus!
