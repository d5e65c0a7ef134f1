//! Canonical field indices of the cause and problem schemas (the evaluator's
//! `LOAD_CAUSE_FIELD` / `LOAD_PROBLEM_FIELD` loads use exactly these).
use vstd::prelude::*;

verus! {

/// `Cause.target`.
pub const CAUSE_FIELD_TARGET: u16 = 0;

/// `Cause.time`.
pub const CAUSE_FIELD_TIME: u16 = 1;

/// `Cause.confidence`.
pub const CAUSE_FIELD_CONFIDENCE: u16 = 2;

/// `Problem.target`.
pub const PROBLEM_FIELD_TARGET: u16 = 0;

/// `Problem.time`.
pub const PROBLEM_FIELD_TIME: u16 = 1;

} // verus!
