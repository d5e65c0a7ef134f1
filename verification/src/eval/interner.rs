//! Scope-key interning into the `i64` field domain: events carry the
//! interned key of their target scope, and target resolution maps the key
//! back to the `ScopeId`.
use std::collections::HashMap;
use vstd::prelude::*;

use crate::types::{scope_hash, ScopeId};

verus! {

broadcast use vstd::std_specs::hash::group_hash_axioms;

/// The deterministic `i64` intern key of a scope: its 64-bit hash key
/// reinterpreted as a signed integer.
pub open spec fn scope_key(scope: ScopeId) -> i64 {
    scope_hash(scope) as i64
}

/// The deterministic `i64` intern key of a scope.
pub fn scope_key_i64(scope: ScopeId) -> (k: i64)
    ensures
        k == scope_key(scope),
{
    scope.hash_key() as i64
}

/// Deterministic `ScopeId ↔ i64` intern table.
#[derive(Debug)]
pub struct ScopeInterner {
    map: HashMap<i64, ScopeId>,
}

impl View for ScopeInterner {
    type V = Map<i64, ScopeId>;

    closed spec fn view(&self) -> Map<i64, ScopeId> {
        self.map@
    }
}

impl ScopeInterner {
    /// Empty table.
    pub fn new() -> (i: ScopeInterner)
        ensures
            i@ == Map::<i64, ScopeId>::empty(),
    {
        ScopeInterner { map: HashMap::new() }
    }

    /// Interns a scope, returning its deterministic key.
    pub fn intern(&mut self, scope: ScopeId) -> (k: i64)
        ensures
            k == scope_key(scope),
            final(self)@ == old(self)@.insert(k, scope),
    {
        let key = scope_key_i64(scope);
        self.map.insert(key, scope);
        key
    }

    /// Resolves an interned key; `None` for keys never interned.
    pub fn resolve(&self, key: i64) -> (s: Option<ScopeId>)
        ensures
            s == (if self@.contains_key(key) {
                Some(self@[key])
            } else {
                None
            }),
    {
        match self.map.get(&key) {
            Some(s) => Some(*s),
            None => None,
        }
    }
}

/// Interning round-trips: after a scope is interned, its key resolves to
/// it, whatever the table held before; and interning it again changes
/// nothing.
pub proof fn lemma_intern_round_trip(table: Map<i64, ScopeId>, scope: ScopeId)
    ensures
        table.insert(scope_key(scope), scope).contains_key(scope_key(scope)),
        table.insert(scope_key(scope), scope)[scope_key(scope)] == scope,
        table.insert(scope_key(scope), scope).insert(scope_key(scope), scope) == table.insert(
            scope_key(scope),
            scope,
        ),
{
    assert(table.insert(scope_key(scope), scope).insert(scope_key(scope), scope) =~= table.insert(
        scope_key(scope),
        scope,
    ));
}

} // verus!
