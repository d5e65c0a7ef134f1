//! Metric-path resolution: the last segment of a path named against the
//! fields of an event or cause binding's schema.
use vstd::prelude::*;

use crate::catalog::causes::{cause_index, resolve_cause};
use crate::catalog::events::{event_index, event_row, event_view, resolve_event};
use crate::catalog::fields::{CAUSE_FIELD_CONFIDENCE, CAUSE_FIELD_TARGET, CAUSE_FIELD_TIME};
use crate::catalog::schema::{FieldSchema, FieldType};
use crate::ir::FieldIdx;
use crate::types::{chars_of, CauseKind, EventType, ScopeType};

verus! {

/// The schema a metric path is rooted at.
#[derive(Debug, Clone, Copy)]
pub enum EventOrBindingType<'a> {
    /// An event binding.
    Event(&'a EventType),
    /// A cause binding.
    Cause(&'a CauseKind),
}

/// The fields every cause carries: `target`, `time`, `confidence`,
/// `evidence`.
pub open spec fn cause_field_table() -> Seq<FieldSchema> {
    seq![
        FieldSchema { name: "target", field_type: FieldType::ScopeId(ScopeType::Global), pii: false, idx: FieldIdx(CAUSE_FIELD_TARGET) },
        FieldSchema { name: "time", field_type: FieldType::Int, pii: false, idx: FieldIdx(CAUSE_FIELD_TIME) },
        FieldSchema { name: "confidence", field_type: FieldType::Confidence, pii: false, idx: FieldIdx(CAUSE_FIELD_CONFIDENCE) },
        FieldSchema { name: "evidence", field_type: FieldType::NodeIdList, pii: false, idx: FieldIdx(3) },
    ]
}

/// The cause schema's fields.
pub fn cause_fields() -> (r: Vec<FieldSchema>)
    ensures
        r@ == cause_field_table(),
{
    let r = vec![
        FieldSchema { name: "target", field_type: FieldType::ScopeId(ScopeType::Global), pii: false, idx: FieldIdx(CAUSE_FIELD_TARGET) },
        FieldSchema { name: "time", field_type: FieldType::Int, pii: false, idx: FieldIdx(CAUSE_FIELD_TIME) },
        FieldSchema { name: "confidence", field_type: FieldType::Confidence, pii: false, idx: FieldIdx(CAUSE_FIELD_CONFIDENCE) },
        FieldSchema { name: "evidence", field_type: FieldType::NodeIdList, pii: false, idx: FieldIdx(3) },
    ];
    proof {
        assert(r@ =~= cause_field_table());
    }
    r
}

/// Start of the segment ending at `i`: one past the last `.` before `i`,
/// or 0.
pub open spec fn segment_start(s: Seq<char>, i: int) -> int
    decreases i,
{
    if i <= 0 {
        0
    } else if s[i - 1] == '.' {
        i
    } else {
        segment_start(s, i - 1)
    }
}

/// The last `.`-separated segment of a path (the whole path when it has no
/// `.`).
pub open spec fn last_segment(s: Seq<char>) -> Seq<char> {
    s.skip(segment_start(s, s.len() as int))
}

/// Position of the first field named `name` at or after `j`.
pub open spec fn field_index_from(fields: Seq<FieldSchema>, name: Seq<char>, j: int) -> Option<int>
    decreases fields.len() - j,
{
    if j < 0 || j >= fields.len() {
        None
    } else if fields[j].name@ == name {
        Some(j)
    } else {
        field_index_from(fields, name, j + 1)
    }
}

/// The fields a binding's metric paths resolve against, when its schema
/// exists.
pub open spec fn binding_fields(t: EventOrBindingType) -> Option<Seq<FieldSchema>> {
    match t {
        EventOrBindingType::Event(e) => match event_index(e@) {
            Some(k) => Some(event_row(k).2),
            None => None,
        },
        EventOrBindingType::Cause(c) => match cause_index(c@) {
            Some(_) => Some(cause_field_table()),
            None => None,
        },
    }
}

/// What `path` resolves to under `t`: the index and type of the first
/// field named by the path's last segment.
pub open spec fn metric_path_spec(t: EventOrBindingType, path: Seq<char>) -> Option<(FieldIdx, FieldType)> {
    match binding_fields(t) {
        Some(fields) => match field_index_from(fields, last_segment(path), 0) {
            Some(j) => Some((fields[j].idx, fields[j].field_type)),
            None => None,
        },
        None => None,
    }
}

fn last_segment_of(path: &str) -> (r: Vec<char>)
    ensures
        r@ == last_segment(path@),
{
    let cs = chars_of(path);
    let n = cs.len();
    let mut i = n;
    while i > 0 && cs[i - 1] != '.'
        invariant
            0 <= i <= n,
            n == cs@.len(),
            segment_start(cs@, n as int) == segment_start(cs@, i as int),
        decreases i,
    {
        i = i - 1;
    }
    let mut r: Vec<char> = Vec::new();
    let mut j = i;
    while j < n
        invariant
            i <= j <= n,
            n == cs@.len(),
            r@ == cs@.subrange(i as int, j as int),
        decreases n - j,
    {
        r.push(cs[j]);
        proof {
            assert(r@ =~= cs@.subrange(i as int, j + 1));
        }
        j = j + 1;
    }
    proof {
        assert(r@ =~= cs@.skip(i as int));
    }
    r
}

fn name_is(name: &str, text: &Vec<char>) -> (b: bool)
    ensures
        b == (name@ == text@),
{
    let cs = chars_of(name);
    if cs.len() != text.len() {
        return false;
    }
    let mut i: usize = 0;
    while i < cs.len()
        invariant
            0 <= i <= cs@.len(),
            cs@.len() == text@.len(),
            cs@ == name@,
            forall|k: int| 0 <= k < i ==> cs@[k] == text@[k],
        decreases cs@.len() - i,
    {
        if cs[i] != text[i] {
            return false;
        }
        i = i + 1;
    }
    proof {
        assert(cs@ =~= text@);
    }
    true
}

fn find_field(fields: &Vec<FieldSchema>, name: &Vec<char>) -> (r: Option<(FieldIdx, FieldType)>)
    ensures
        r == (match field_index_from(fields@, name@, 0) {
            Some(j) => Some((fields@[j].idx, fields@[j].field_type)),
            None => None,
        }),
{
    let mut i: usize = 0;
    while i < fields.len()
        invariant
            0 <= i <= fields@.len(),
            field_index_from(fields@, name@, 0) == field_index_from(fields@, name@, i as int),
        decreases fields@.len() - i,
    {
        if name_is(fields[i].name, name) {
            return Some((fields[i].idx, fields[i].field_type));
        }
        i = i + 1;
    }
    None
}

/// Resolves a metric path (a bare field such as `segment_size`, or a
/// binding-qualified one such as `rtx.segment_size`; only the last segment
/// counts) against the schema of an event or cause binding.
pub fn resolve_metric_path(t: EventOrBindingType, path: &str) -> (r: Option<(FieldIdx, FieldType)>)
    ensures
        r == metric_path_spec(t, path@),
{
    let seg = last_segment_of(path);
    match t {
        EventOrBindingType::Event(e) => {
            match resolve_event(e.as_str()) {
                Some(schema) => find_field(&schema.fields, &seg),
                None => None,
            }
        },
        EventOrBindingType::Cause(c) => {
            match resolve_cause(c.as_str()) {
                Some(_) => {
                    let fields = cause_fields();
                    find_field(&fields, &seg)
                },
                None => None,
            }
        },
    }
}

} // verus!
