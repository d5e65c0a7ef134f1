//! The verified, loadable ruleset artifact: rules in declaration order,
//! exclusivity groups, requirements, and the anchor lookup the engine
//! dispatches through.
use vstd::prelude::*;

use crate::ir::rule::{AnchorSource, RuleInstance};
use crate::ir::{CatalogRef, RuleKind};
use crate::types::{Capability, CauseKind, EventType, ProblemKind, ScopeType};

verus! {

/// One `mutually_exclusive(K1, K2, ...)` declaration.
#[derive(Debug, Clone, PartialEq, Eq)]
pub struct ExclusivityGroup {
    /// The mutually exclusive cause kinds.
    pub causes: Vec<CauseKind>,
}

/// Anchor lookup key for [`ProgramImage::rules_for`], borrowing the name.
#[derive(Debug, Clone, Copy, PartialEq, Eq)]
pub enum AnchorKey<'a> {
    /// Evidence rules anchored on this event type.
    Event(&'a EventType),
    /// Decision rules anchored on this cause kind.
    Cause(&'a CauseKind),
    /// Decision rules anchored on this problem kind.
    Problem(&'a ProblemKind),
}

/// Whether an anchor source is the one `key` looks up (same family, same
/// name).
pub open spec fn anchor_matches(source: AnchorSource, key: AnchorKey) -> bool {
    match (source, key) {
        (AnchorSource::Event(t), AnchorKey::Event(k)) => t@ == k@,
        (AnchorSource::Cause(t), AnchorKey::Cause(k)) => t@ == k@,
        (AnchorSource::Problem(t), AnchorKey::Problem(k)) => t@ == k@,
        _ => false,
    }
}

/// Whether `rule` is dispatched for `key` in partitions of type `scope`
/// and rule class `kind`.
pub open spec fn rule_selected(rule: RuleInstance, key: AnchorKey, scope: ScopeType, kind: RuleKind) -> bool {
    anchor_matches(rule.anchor.source, key) && rule.kind == kind && rule.scope == scope
}

/// The rules dispatched for `key`, `scope` and `kind`, in declaration
/// order.
pub open spec fn rules_for_spec(
    rules: Seq<RuleInstance>,
    key: AnchorKey,
    scope: ScopeType,
    kind: RuleKind,
) -> Seq<RuleInstance> {
    rules.filter(|r: RuleInstance| rule_selected(r, key, scope, kind))
}

/// The image magic, `ADGL`.
pub open spec fn image_magic() -> Seq<u8> {
    seq![65u8, 68u8, 71u8, 76u8]
}

/// A versioned, self-contained ruleset the engine loads and runs.
#[derive(Debug, Clone, PartialEq, Eq)]
pub struct ProgramImage {
    /// `ADGL`.
    pub magic: [u8; 4],
    /// Semver-packed version (`major << 16 | minor << 8 | patch`).
    pub version: u32,
    /// Ruleset id.
    pub ruleset_id: String,
    /// Required capabilities.
    pub required: Vec<Capability>,
    /// `mutually_exclusive` groups.
    pub exclusivity: Vec<ExclusivityGroup>,
    /// Rules in declaration order (ordered firing).
    pub rules: Vec<RuleInstance>,
    /// Catalog version this image was verified against.
    pub catalog_ref: CatalogRef,
}

fn anchor_is(source: &AnchorSource, key: AnchorKey) -> (b: bool)
    ensures
        b == anchor_matches(*source, key),
{
    match (source, key) {
        (AnchorSource::Event(t), AnchorKey::Event(k)) => t.same(k),
        (AnchorSource::Cause(t), AnchorKey::Cause(k)) => t.same(k),
        (AnchorSource::Problem(t), AnchorKey::Problem(k)) => t.same(k),
        _ => false,
    }
}

impl ProgramImage {
    /// Packs a semver triple as `major << 16 | minor << 8 | patch`.
    pub fn pack_version(major: u8, minor: u8, patch: u8) -> (v: u32)
        ensures
            v == major as int * 65536 + minor as int * 256 + patch as int,
    {
        (major as u32) * 65536 + (minor as u32) * 256 + patch as u32
    }

    /// Builds an image from its parts; `rules` are in declaration order.
    pub fn new(
        version: u32,
        ruleset_id: &str,
        required: Vec<Capability>,
        exclusivity: Vec<ExclusivityGroup>,
        rules: Vec<RuleInstance>,
        catalog_ref: CatalogRef,
    ) -> (img: ProgramImage)
        ensures
            img.magic@ == image_magic(),
            img.version == version,
            img.ruleset_id@ == ruleset_id@,
            img.required == required,
            img.exclusivity == exclusivity,
            img.rules == rules,
            img.catalog_ref == catalog_ref,
    {
        let magic: [u8; 4] = [65u8, 68u8, 71u8, 76u8];
        proof {
            assert(magic@ =~= image_magic());
        }
        ProgramImage {
            magic,
            version,
            ruleset_id: ruleset_id.to_owned(),
            required,
            exclusivity,
            rules,
            catalog_ref,
        }
    }

    /// The rules anchored on `key` in partitions of scope type `scope`,
    /// of rule class `kind`, in declaration order.
    pub fn rules_for(&self, key: AnchorKey, scope: ScopeType, kind: RuleKind) -> (r: Vec<&RuleInstance>)
        ensures
            r@.len() == rules_for_spec(self.rules@, key, scope, kind).len(),
            forall|i: int| 0 <= i < r@.len() ==> *r@[i] == rules_for_spec(self.rules@, key, scope, kind)[i],
    {
        let mut r: Vec<&RuleInstance> = Vec::new();
        let mut i: usize = 0;
        while i < self.rules.len()
            invariant
                0 <= i <= self.rules@.len(),
                r@.len() == rules_for_spec(self.rules@.take(i as int), key, scope, kind).len(),
                forall|k: int|
                    0 <= k < r@.len() ==> *r@[k] == rules_for_spec(self.rules@.take(i as int), key, scope, kind)[k],
            decreases self.rules@.len() - i,
        {
            let rule = &self.rules[i];
            proof {
                let t = self.rules@.take(i + 1);
                assert(t.drop_last() =~= self.rules@.take(i as int));
                assert(t.last() == self.rules@[i as int]);
                reveal(Seq::filter);
            }
            if anchor_is(&rule.anchor.source, key) && rule.kind == kind && rule.scope == scope {
                r.push(rule);
            }
            i = i + 1;
        }
        proof {
            assert(self.rules@.take(self.rules@.len() as int) =~= self.rules@);
        }
        r
    }
}

} // verus!
