//! Privacy of evidence fields: the catalog's `[pii]` field names and the
//! strict-mode redaction of an evidence field list.
use vstd::prelude::*;

use crate::catalog::events::{catalog_event_count, event_index, event_row, event_view, events, resolve_event};
use crate::catalog::schema::FieldSchema;
use crate::ir::FieldIdx;
use crate::store::event::EventNode;
use crate::store::ring::find_id;
use crate::store::store::{has_scope, scope_pos, GraphStore};
use crate::store::subgraph::{CauseNode, EdgeEndpoint, EvidenceEdge, ProblemNode, SubGraph};
use crate::types::{NodeId, ScopeId};
use crate::text::{int_text, push_char, push_int};
use crate::types::{chars_lt, lemma_chars_order, text_eq, text_lt};

verus! {

/// What a redacted value is replaced with.
pub const REDACTED: &'static str = "<redacted>";

/// Whether some catalog event declares a `[pii]` field named `n`.
pub open spec fn is_pii_name(n: Seq<char>) -> bool {
    exists|k: int, j: int|
        0 <= k < catalog_event_count() && 0 <= j < event_row(k).2.len() && (#[trigger] event_row(k).2[j]).pii
            && event_row(k).2[j].name@ == n
}

/// Whether `v` holds a string with the characters `n`.
pub open spec fn has_text(v: Seq<String>, n: Seq<char>) -> bool {
    exists|i: int| 0 <= i < v.len() && (#[trigger] v[i])@ == n
}

/// Strictly increasing in `chars_lt` order (so without repeats).
pub open spec fn strictly_sorted(v: Seq<String>) -> bool {
    forall|i: int, j: int| 0 <= i < j < v.len() ==> chars_lt((#[trigger] v[i])@, (#[trigger] v[j])@)
}

/// Inserts `s` into a strictly sorted list unless it is already there.
fn insert_sorted_unique(v: &mut Vec<String>, s: &str)
    requires
        strictly_sorted(old(v)@),
    ensures
        strictly_sorted(final(v)@),
        forall|n: Seq<char>| has_text(final(v)@, n) <==> (has_text(old(v)@, n) || n == s@),
{
    let n = v.len();
    let mut i: usize = 0;
    while i < n && text_lt(v[i].as_str(), s)
        invariant
            0 <= i <= n,
            n == v@.len(),
            strictly_sorted(v@),
            forall|k: int| 0 <= k < i ==> chars_lt((#[trigger] v@[k])@, s@),
        decreases n - i,
    {
        i = i + 1;
    }
    if i < n && text_eq(v[i].as_str(), s) {
        proof {
            assert forall|m: Seq<char>| has_text(v@, m) <==> (has_text(v@, m) || m == s@) by {
                if m == s@ {
                    assert(v@[i as int]@ == m);
                }
            }
        }
        return;
    }
    let ghost old_v = v@;
    assert(old_v == old(v)@);
    proof {
        if i < n {
            lemma_chars_order(v@[i as int]@, s@, s@);
            assert(chars_lt(s@, v@[i as int]@));
            assert forall|k: int| i <= k < n implies chars_lt(s@, (#[trigger] old_v[k])@) by {
                if k > i {
                    lemma_chars_order(s@, old_v[i as int]@, old_v[k]@);
                }
            }
        }
    }
    let t = s.to_owned();
    v.insert(i, t);
    assert(v@ == old_v.insert(i as int, t));
    proof {
        assert forall|a: int, b: int| 0 <= a < b < v@.len() implies chars_lt((#[trigger] v@[a])@, (#[trigger] v@[b])@) by {
            if b < i {
                assert(v@[a] == old_v[a] && v@[b] == old_v[b]);
            } else if b == i {
                assert(v@[a] == old_v[a]);
            } else if a < i {
                assert(v@[a] == old_v[a] && v@[b] == old_v[b - 1]);
                lemma_chars_order(old_v[a]@, s@, old_v[b - 1]@);
            } else if a == i {
                assert(v@[b] == old_v[b - 1]);
            } else {
                assert(v@[a] == old_v[a - 1] && v@[b] == old_v[b - 1]);
            }
        }
        assert forall|m: Seq<char>|
            #![trigger has_text(v@, m)]
            #![trigger has_text(old_v, m)]
            has_text(v@, m) <==> (has_text(old_v, m) || m == s@) by {
            if has_text(v@, m) {
                let w = choose|w: int| 0 <= w < v@.len() && (#[trigger] v@[w])@ == m;
                if w < i {
                    assert(old_v[w] == v@[w]);
                } else if w > i {
                    assert(old_v[w - 1] == v@[w]);
                }
            }
            if has_text(old_v, m) {
                let w = choose|w: int| 0 <= w < old_v.len() && (#[trigger] old_v[w])@ == m;
                if w < i {
                    assert(old_v[w] == v@[w]);
                } else {
                    assert(old_v[w] == v@[w + 1]);
                }
            }
            if m == s@ {
                assert(v@[i as int]@ == m);
            }
        }
    }
}

/// Every catalog field name marked `[pii]`, once each, in `chars_lt` order.
pub fn catalog_pii_field_names() -> (r: Vec<String>)
    ensures
        strictly_sorted(r@),
        forall|n: Seq<char>| has_text(r@, n) <==> is_pii_name(n),
{
    let table = events();
    let mut names: Vec<String> = Vec::new();
    let mut k: usize = 0;
    while k < table.len()
        invariant
            0 <= k <= table@.len(),
            table@.len() == catalog_event_count(),
            forall|e: int| 0 <= e < table@.len() ==> event_view(#[trigger] table@[e]) == event_row(e),
            strictly_sorted(names@),
            forall|n: Seq<char>|
                has_text(names@, n) <==> exists|e: int, j: int|
                    0 <= e < k && 0 <= j < event_row(e).2.len() && (#[trigger] event_row(e).2[j]).pii
                        && event_row(e).2[j].name@ == n,
        decreases table@.len() - k,
    {
        let fs = &table[k].fields;
        proof {
            assert(event_view(table@[k as int]) == event_row(k as int));
        }
        let mut j: usize = 0;
        while j < fs.len()
            invariant
                0 <= j <= fs@.len(),
                0 <= k < table@.len(),
                fs@ == event_row(k as int).2,
                strictly_sorted(names@),
                forall|n: Seq<char>|
                    has_text(names@, n) <==> ((exists|e: int, i: int|
                        0 <= e < k && 0 <= i < event_row(e).2.len() && (#[trigger] event_row(e).2[i]).pii
                            && event_row(e).2[i].name@ == n) || (exists|i: int|
                        0 <= i < j && (#[trigger] fs@[i]).pii && fs@[i].name@ == n)),
            decreases fs@.len() - j,
        {
            if fs[j].pii {
                insert_sorted_unique(&mut names, fs[j].name);
            }
            proof {
                assert forall|n: Seq<char>|
                    has_text(names@, n) <==> ((exists|e: int, i: int|
                        0 <= e < k && 0 <= i < event_row(e).2.len() && (#[trigger] event_row(e).2[i]).pii
                            && event_row(e).2[i].name@ == n) || (exists|i: int|
                        0 <= i < j + 1 && (#[trigger] fs@[i]).pii && fs@[i].name@ == n)) by {
                    if fs@[j as int].pii && fs@[j as int].name@ == n {
                        assert(fs@[j as int].pii);
                    }
                }
            }
            j = j + 1;
        }
        proof {
            assert forall|n: Seq<char>|
                has_text(names@, n) <==> exists|e: int, i: int|
                    0 <= e < k + 1 && 0 <= i < event_row(e).2.len() && (#[trigger] event_row(e).2[i]).pii
                        && event_row(e).2[i].name@ == n by {
                if exists|i: int| 0 <= i < fs@.len() && (#[trigger] fs@[i]).pii && fs@[i].name@ == n {
                    let i = choose|i: int| 0 <= i < fs@.len() && (#[trigger] fs@[i]).pii && fs@[i].name@ == n;
                    assert(event_row(k as int).2[i].pii);
                }
                if exists|e: int, i: int|
                    0 <= e < k + 1 && 0 <= i < event_row(e).2.len() && (#[trigger] event_row(e).2[i]).pii
                        && event_row(e).2[i].name@ == n {
                    let (e, i) = choose|e: int, i: int|
                        0 <= e < k + 1 && 0 <= i < event_row(e).2.len() && (#[trigger] event_row(e).2[i]).pii
                            && event_row(e).2[i].name@ == n;
                    if e == k {
                        assert(fs@[i].pii);
                    }
                }
            }
        }
        k = k + 1;
    }
    names
}

fn holds_text(v: &Vec<String>, s: &str) -> (b: bool)
    ensures
        b == has_text(v@, s@),
{
    let mut i: usize = 0;
    while i < v.len()
        invariant
            0 <= i <= v@.len(),
            forall|k: int| 0 <= k < i ==> (#[trigger] v@[k])@ != s@,
        decreases v@.len() - i,
    {
        if text_eq(v[i].as_str(), s) {
            return true;
        }
        i = i + 1;
    }
    false
}

/// The value an evidence field shows: redacted in strict mode when its
/// name is a catalog `[pii]` field, else unchanged.
pub open spec fn shown_value(name: Seq<char>, value: Seq<char>, strict: bool) -> Seq<char> {
    if strict && is_pii_name(name) {
        REDACTED@
    } else {
        value
    }
}

/// Applies strict-privacy redaction to an evidence field list (field name
/// and value pairs, in key order): the same names, in the same order, each
/// value replaced by `<redacted>` when `strict` and the name is a catalog
/// `[pii]` field.
pub fn redact_evidence_field_map(fields: &Vec<(String, String)>, strict: bool) -> (r: Vec<(String, String)>)
    ensures
        r@.len() == fields@.len(),
        forall|k: int|
            0 <= k < r@.len() ==> (#[trigger] r@[k]).0@ == fields@[k].0@ && r@[k].1@ == shown_value(
                fields@[k].0@,
                fields@[k].1@,
                strict,
            ),
{
    let pii = if strict {
        catalog_pii_field_names()
    } else {
        Vec::new()
    };
    let mut r: Vec<(String, String)> = Vec::new();
    let mut i: usize = 0;
    while i < fields.len()
        invariant
            0 <= i <= fields@.len(),
            r@.len() == i,
            strict ==> forall|n: Seq<char>| has_text(pii@, n) <==> is_pii_name(n),
            forall|k: int|
                0 <= k < i ==> (#[trigger] r@[k]).0@ == fields@[k].0@ && r@[k].1@ == shown_value(
                    fields@[k].0@,
                    fields@[k].1@,
                    strict,
                ),
        decreases fields@.len() - i,
    {
        let name = fields[i].0.clone();
        let value = if strict && holds_text(&pii, fields[i].0.as_str()) {
            REDACTED.to_owned()
        } else {
            fields[i].1.clone()
        };
        r.push((name, value));
        i = i + 1;
    }
    r
}

/// An evidence field list: `(name, value)` pairs, strictly increasing by
/// name (so each name once), as a sorted map keeps them.
pub open spec fn fields_sorted(v: Seq<(String, String)>) -> bool {
    forall|i: int, j: int| 0 <= i < j < v.len() ==> chars_lt((#[trigger] v[i]).0@, (#[trigger] v[j]).0@)
}

/// Whether the list has an entry named `n`.
pub open spec fn has_field(v: Seq<(String, String)>, n: Seq<char>) -> bool {
    exists|i: int| 0 <= i < v.len() && (#[trigger] v[i]).0@ == n
}

/// A position of the entry named `n` (the only one in a sorted list).
pub open spec fn field_index(v: Seq<(String, String)>, n: Seq<char>) -> int {
    choose|i: int| 0 <= i < v.len() && (#[trigger] v[i]).0@ == n
}

/// The field list as a map from name to value.
pub open spec fn field_map(v: Seq<(String, String)>) -> Map<Seq<char>, Seq<char>> {
    Map::new(|n: Seq<char>| has_field(v, n), |n: Seq<char>| v[field_index(v, n)].1@)
}

proof fn lemma_field_map_at(v: Seq<(String, String)>, i: int)
    requires
        fields_sorted(v),
        0 <= i < v.len(),
    ensures
        field_map(v).contains_key(v[i].0@),
        field_map(v)[v[i].0@] == v[i].1@,
{
    let n = v[i].0@;
    assert(has_field(v, n));
    let j = field_index(v, n);
    assert(field_map(v)[n] == v[j].1@);
    lemma_chars_order(n, n, n);
    if j < i {
        assert(chars_lt(v[j].0@, v[i].0@));
    } else if j > i {
        assert(chars_lt(v[i].0@, v[j].0@));
    }
    assert(j == i);
}

/// Sets field `key` to `value`: replaces the value of an entry with that
/// name, or adds the entry in name order.
fn put_field(v: &mut Vec<(String, String)>, key: &str, value: String)
    requires
        fields_sorted(old(v)@),
    ensures
        fields_sorted(final(v)@),
        field_map(final(v)@) == field_map(old(v)@).insert(key@, value@),
{
    let ghost old_v = v@;
    let n = v.len();
    let mut i: usize = 0;
    while i < n && text_lt(v[i].0.as_str(), key)
        invariant
            0 <= i <= n,
            n == v@.len(),
            v@ == old_v,
            fields_sorted(v@),
            forall|k: int| 0 <= k < i ==> chars_lt((#[trigger] v@[k]).0@, key@),
        decreases n - i,
    {
        i = i + 1;
    }
    let replace = i < n && text_eq(v[i].0.as_str(), key);
    proof {
        if i < n && !replace {
            lemma_chars_order(v@[i as int].0@, key@, key@);
            assert(chars_lt(key@, v@[i as int].0@));
        }
        assert forall|k: int| i < k < n implies chars_lt(key@, (#[trigger] old_v[k]).0@) by {
            if replace {
                assert(chars_lt(old_v[i as int].0@, old_v[k].0@));
            } else {
                lemma_chars_order(key@, old_v[i as int].0@, old_v[k].0@);
            }
        }
    }
    let entry = (key.to_owned(), value);
    if replace {
        v.set(i, entry);
    } else {
        v.insert(i, entry);
    }
    let ghost new_v = v@;
    proof {
        assert(fields_sorted(new_v)) by {
            assert forall|a: int, b: int| 0 <= a < b < new_v.len() implies chars_lt(
                (#[trigger] new_v[a]).0@,
                (#[trigger] new_v[b]).0@,
            ) by {
                if replace {
                    if a == i {
                        assert(new_v[b] == old_v[b]);
                    } else if b == i {
                        assert(new_v[a] == old_v[a]);
                    } else {
                        assert(new_v[a] == old_v[a] && new_v[b] == old_v[b]);
                    }
                } else {
                    if b < i {
                        assert(new_v[a] == old_v[a] && new_v[b] == old_v[b]);
                    } else if b == i {
                        assert(new_v[a] == old_v[a]);
                    } else if a < i {
                        assert(new_v[a] == old_v[a] && new_v[b] == old_v[b - 1]);
                        if b - 1 > i {
                            lemma_chars_order(old_v[a].0@, key@, old_v[b - 1].0@);
                        } else {
                            lemma_chars_order(old_v[a].0@, key@, old_v[b - 1].0@);
                        }
                    } else if a == i {
                        assert(new_v[b] == old_v[b - 1]);
                    } else {
                        assert(new_v[a] == old_v[a - 1] && new_v[b] == old_v[b - 1]);
                    }
                }
            }
        }
        // Index of each old entry in the new list.
        assert forall|k: int| 0 <= k < old_v.len() && old_v[k].0@ != key@ implies {
            let nk = if replace || k < i { k } else { k + 1 };
            &&& 0 <= nk < new_v.len()
            &&& new_v[nk] == #[trigger] old_v[k]
        } by {
            if !replace && k >= i {
                assert(new_v[k + 1] == old_v[k]);
            }
        }
        let target = field_map(old_v).insert(key@, value@);
        assert forall|m: Seq<char>| #[trigger] field_map(new_v).contains_key(m) == target.contains_key(m) by {
            if has_field(new_v, m) && m != key@ {
                let w = choose|w: int| 0 <= w < new_v.len() && (#[trigger] new_v[w]).0@ == m;
                if replace {
                    assert(w != i);
                    assert(old_v[w] == new_v[w]);
                } else if w < i {
                    assert(old_v[w] == new_v[w]);
                } else {
                    assert(w != i);
                    assert(old_v[w - 1] == new_v[w]);
                }
                assert(has_field(old_v, m));
            }
            if has_field(old_v, m) && m != key@ {
                let w = choose|w: int| 0 <= w < old_v.len() && (#[trigger] old_v[w]).0@ == m;
                let nw = if replace || w < i { w } else { w + 1 };
                assert(new_v[nw] == old_v[w]);
                assert(has_field(new_v, m));
            }
            if m == key@ {
                assert(new_v[i as int].0@ == m);
            }
        }
        assert forall|m: Seq<char>| #[trigger] field_map(new_v).contains_key(m) implies field_map(new_v)[m]
            == target[m] by {
            let w = field_index(new_v, m);
            lemma_field_map_at(new_v, w);
            if m == key@ {
                lemma_field_map_at(new_v, i as int);
            } else {
                let ow = if replace || w < i { w } else { w - 1 };
                assert(old_v[ow] == new_v[w]);
                lemma_field_map_at(old_v, ow);
            }
        }
        assert(field_map(new_v) =~= target);
    }
}

/// Position, from `k` on, of the first schema field with index `idx`.
pub open spec fn field_pos_from(fs: Seq<FieldSchema>, idx: FieldIdx, k: int) -> Option<int>
    decreases fs.len() - k,
{
    if k < 0 || k >= fs.len() {
        None
    } else if fs[k].idx == idx {
        Some(k)
    } else {
        field_pos_from(fs, idx, k + 1)
    }
}

/// Position of the first schema field with index `idx`.
pub open spec fn field_pos(fs: Seq<FieldSchema>, idx: FieldIdx) -> Option<int> {
    field_pos_from(fs, idx, 0)
}

/// The values of an `IntList` field joined by `,`.
pub open spec fn joined_ints(vals: Seq<i64>) -> Seq<char>
    decreases vals.len(),
{
    if vals.len() == 0 {
        Seq::empty()
    } else if vals.len() == 1 {
        int_text(vals[0] as int)
    } else {
        joined_ints(vals.drop_last()) + seq![','] + int_text(vals.last() as int)
    }
}

/// How an `IntList` field shows as evidence: `[v1,v2,...]`.
pub open spec fn list_text(vals: Seq<i64>) -> Seq<char> {
    seq!['['] + joined_ints(vals) + seq![']']
}

/// `m` after the scalar fields `vals` of an event with schema fields `fs`
/// are written in order: each field the schema knows, by name, as decimal
/// text.
pub open spec fn merge_scalars(
    m: Map<Seq<char>, Seq<char>>,
    fs: Seq<FieldSchema>,
    vals: Seq<(FieldIdx, i64)>,
) -> Map<Seq<char>, Seq<char>>
    decreases vals.len(),
{
    if vals.len() == 0 {
        m
    } else {
        let m1 = merge_scalars(m, fs, vals.drop_last());
        match field_pos(fs, vals.last().0) {
            Some(j) => m1.insert(fs[j].name@, int_text(vals.last().1 as int)),
            None => m1,
        }
    }
}

/// `m` after the `IntList` fields `vals` are written in order, each as
/// `[v1,v2,...]`.
pub open spec fn merge_lists(
    m: Map<Seq<char>, Seq<char>>,
    fs: Seq<FieldSchema>,
    vals: Seq<(FieldIdx, Vec<i64>)>,
) -> Map<Seq<char>, Seq<char>>
    decreases vals.len(),
{
    if vals.len() == 0 {
        m
    } else {
        let m1 = merge_lists(m, fs, vals.drop_last());
        match field_pos(fs, vals.last().0) {
            Some(j) => m1.insert(fs[j].name@, list_text(vals.last().1@)),
            None => m1,
        }
    }
}

/// `m` after the fields of `e` are merged in: nothing for an event type
/// the catalog does not know; else its scalar fields, then its `IntList`
/// fields, by catalog field name.
pub open spec fn event_evidence(m: Map<Seq<char>, Seq<char>>, e: EventNode) -> Map<Seq<char>, Seq<char>> {
    match event_index(e.event_type@) {
        None => m,
        Some(k) => merge_lists(merge_scalars(m, event_row(k).2, e.fields_view()), event_row(k).2, e.int_lists_view()),
    }
}

fn find_field(fs: &Vec<FieldSchema>, idx: FieldIdx) -> (r: Option<usize>)
    ensures
        r matches Some(j) ==> j < fs@.len() && field_pos(fs@, idx) == Some(j as int),
        r is None ==> field_pos(fs@, idx) is None,
{
    let mut i: usize = 0;
    while i < fs.len()
        invariant
            0 <= i <= fs@.len(),
            field_pos(fs@, idx) == field_pos_from(fs@, idx, i as int),
        decreases fs@.len() - i,
    {
        if fs[i].idx == idx {
            return Some(i);
        }
        i = i + 1;
    }
    None
}

/// The evidence text of an `IntList` field.
fn list_string(vals: &[i64]) -> (s: String)
    ensures
        s@ == list_text(vals@),
{
    let mut s = "[".to_owned();
    proof {
        reveal_strlit("[");
    }
    let ghost start = s@;
    let mut i: usize = 0;
    while i < vals.len()
        invariant
            0 <= i <= vals@.len(),
            start == seq!['['],
            s@ == start + joined_ints(vals@.take(i as int)),
        decreases vals@.len() - i,
    {
        if i > 0 {
            push_char(&mut s, ',');
        }
        push_int(&mut s, vals[i]);
        proof {
            let t = vals@.take(i + 1);
            assert(t.drop_last() =~= vals@.take(i as int));
            if i == 0 {
                assert(vals@.take(0) =~= Seq::<i64>::empty());
            }
            assert(s@ =~= start + joined_ints(t));
        }
        i = i + 1;
    }
    push_char(&mut s, ']');
    proof {
        assert(vals@.take(vals@.len() as int) =~= vals@);
        assert(s@ =~= list_text(vals@));
    }
    s
}

/// Merges the fields of `event` into the evidence field list `out`, by
/// catalog field name: scalar fields as decimal text, then `IntList`
/// fields as `[v1,v2,...]`; later writes replace earlier values; fields
/// the event's catalog schema lacks, and events of an unknown type, add
/// nothing.
pub fn merge_event_fields(out: &mut Vec<(String, String)>, event: &EventNode)
    requires
        fields_sorted(old(out)@),
    ensures
        fields_sorted(final(out)@),
        field_map(final(out)@) == event_evidence(field_map(old(out)@), *event),
{
    let schema = match resolve_event(event.event_type.as_str()) {
        Some(s) => s,
        None => {
            return;
        },
    };
    let ghost k = event_index(event.event_type@)->Some_0;
    let ghost m0 = field_map(out@);
    let fs = &schema.fields;
    assert(fs@ == event_row(k).2);
    let scalars = event.fields();
    let mut i: usize = 0;
    while i < scalars.len()
        invariant
            0 <= i <= scalars@.len(),
            scalars@ == event.fields_view(),
            fs@ == event_row(k).2,
            fields_sorted(out@),
            field_map(out@) == merge_scalars(m0, fs@, scalars@.take(i as int)),
        decreases scalars@.len() - i,
    {
        let (fidx, value) = scalars[i];
        proof {
            let t = scalars@.take(i + 1);
            assert(t.drop_last() =~= scalars@.take(i as int));
            assert(t.last() == scalars@[i as int]);
        }
        match find_field(fs, fidx) {
            Some(j) => {
                let mut text = String::new();
                push_int(&mut text, value);
                proof {
                    assert(text@ =~= int_text(value as int));
                }
                put_field(out, fs[j].name, text);
            },
            None => {},
        }
        i = i + 1;
    }
    proof {
        assert(scalars@.take(scalars@.len() as int) =~= scalars@);
    }
    let ghost m1 = field_map(out@);
    let lists = event.int_list_fields();
    let mut i: usize = 0;
    while i < lists.len()
        invariant
            0 <= i <= lists@.len(),
            lists@ == event.int_lists_view(),
            fs@ == event_row(k).2,
            fields_sorted(out@),
            field_map(out@) == merge_lists(m1, fs@, lists@.take(i as int)),
        decreases lists@.len() - i,
    {
        proof {
            let t = lists@.take(i + 1);
            assert(t.drop_last() =~= lists@.take(i as int));
            assert(t.last() == lists@[i as int]);
        }
        match find_field(fs, lists[i].0) {
            Some(j) => {
                let text = list_string(lists[i].1.as_slice());
                put_field(out, fs[j].name, text);
            },
            None => {},
        }
        i = i + 1;
    }
    proof {
        assert(lists@.take(lists@.len() as int) =~= lists@);
    }
}

/// Position, from `k` on, of the first cause with id `id`.
pub open spec fn cause_pos_from(cs: Seq<CauseNode>, id: NodeId, k: int) -> Option<int>
    decreases cs.len() - k,
{
    if k < 0 || k >= cs.len() {
        None
    } else if cs[k].id == id {
        Some(k)
    } else {
        cause_pos_from(cs, id, k + 1)
    }
}

/// `m` after the events of `ring` that the edges into node `dst` come
/// from are merged in, in edge order (edges from nodes, and from events no
/// longer buffered, add nothing).
pub open spec fn edges_evidence(
    m: Map<Seq<char>, Seq<char>>,
    edges: Seq<EvidenceEdge>,
    dst: NodeId,
    ring: Seq<EventNode>,
) -> Map<Seq<char>, Seq<char>>
    decreases edges.len(),
{
    if edges.len() == 0 {
        m
    } else {
        let m1 = edges_evidence(m, edges.drop_last(), dst, ring);
        let e = edges.last();
        if e.dst != dst {
            m1
        } else {
            match e.src {
                EdgeEndpoint::Event(id) => match find_id(ring, id) {
                    Some(i) => event_evidence(m1, ring[i]),
                    None => m1,
                },
                EdgeEndpoint::Node(_) => m1,
            }
        }
    }
}

/// `m` after the evidence of each cause among `ids` (in order) is merged
/// in; ids naming no cause add nothing.
pub open spec fn causes_evidence(
    m: Map<Seq<char>, Seq<char>>,
    ids: Seq<NodeId>,
    causes: Seq<CauseNode>,
    edges: Seq<EvidenceEdge>,
    ring: Seq<EventNode>,
) -> Map<Seq<char>, Seq<char>>
    decreases ids.len(),
{
    if ids.len() == 0 {
        m
    } else {
        let m1 = causes_evidence(m, ids.drop_last(), causes, edges, ring);
        match cause_pos_from(causes, ids.last(), 0) {
            Some(c) => edges_evidence(m1, edges, causes[c].id, ring),
            None => m1,
        }
    }
}

fn find_cause(cs: &[CauseNode], id: NodeId) -> (r: Option<usize>)
    ensures
        r matches Some(j) ==> j < cs@.len() && cause_pos_from(cs@, id, 0) == Some(j as int),
        r is None ==> cause_pos_from(cs@, id, 0) is None,
{
    let mut i: usize = 0;
    while i < cs.len()
        invariant
            0 <= i <= cs@.len(),
            cause_pos_from(cs@, id, 0) == cause_pos_from(cs@, id, i as int),
        decreases cs@.len() - i,
    {
        if cs[i].id == id {
            return Some(i);
        }
        i = i + 1;
    }
    None
}

/// The event fields a problem rests on: for each cause the problem cites,
/// the fields of the ring events of `scope` that support it, by catalog
/// field name (later events overwrite earlier values). Empty where
/// `scope` has no ring.
pub fn collect_problem_evidence(store: &GraphStore, scope: ScopeId, problem: &ProblemNode, part: &SubGraph) -> (r: Vec<(String, String)>)
    requires
        store.wf(),
    ensures
        fields_sorted(r@),
        field_map(r@) == (if has_scope(store.rings_view(), scope) {
            causes_evidence(
                Map::empty(),
                problem.evidence@,
                part.causes_view(),
                part.edges_view(),
                store.rings_view()[scope_pos(store.rings_view(), scope)].1.events(),
            )
        } else {
            Map::empty()
        }),
{
    let mut out: Vec<(String, String)> = Vec::new();
    proof {
        assert(field_map(out@) =~= Map::empty());
    }
    let ring = match store.ring(scope) {
        Some(ring) => ring,
        None => {
            return out;
        },
    };
    let ghost events = ring.events();
    let causes = part.causes();
    let edges = part.edges();
    let mut c: usize = 0;
    while c < problem.evidence.len()
        invariant
            0 <= c <= problem.evidence@.len(),
            causes@ == part.causes_view(),
            edges@ == part.edges_view(),
            events == ring.events(),
            fields_sorted(out@),
            field_map(out@) == causes_evidence(Map::empty(), problem.evidence@.take(c as int), causes@, edges@, events),
        decreases problem.evidence@.len() - c,
    {
        let cause_id = problem.evidence[c];
        proof {
            let t = problem.evidence@.take(c + 1);
            assert(t.drop_last() =~= problem.evidence@.take(c as int));
            assert(t.last() == cause_id);
        }
        let ghost m1 = field_map(out@);
        if let Some(k) = find_cause(causes, cause_id) {
            let dst = causes[k].id;
            let mut e: usize = 0;
            while e < edges.len()
                invariant
                    0 <= e <= edges@.len(),
                    edges@ == part.edges_view(),
                    events == ring.events(),
                    fields_sorted(out@),
                    field_map(out@) == edges_evidence(m1, edges@.take(e as int), dst, events),
                decreases edges@.len() - e,
            {
                let edge = edges[e];
                proof {
                    let t = edges@.take(e + 1);
                    assert(t.drop_last() =~= edges@.take(e as int));
                    assert(t.last() == edge);
                }
                if edge.dst == dst {
                    match edge.src {
                        EdgeEndpoint::Event(event_id) => match ring.get(event_id) {
                            Some(event) => merge_event_fields(&mut out, event),
                            None => {},
                        },
                        EdgeEndpoint::Node(_) => {},
                    }
                }
                e = e + 1;
            }
            proof {
                assert(edges@.take(edges@.len() as int) =~= edges@);
            }
        }
        c = c + 1;
    }
    proof {
        assert(problem.evidence@.take(problem.evidence@.len() as int) =~= problem.evidence@);
    }
    out
}

} // verus!
