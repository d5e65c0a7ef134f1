//! Runtime predicate errors: always values, never panics.
use vstd::prelude::*;

verus! {

/// A predicate/correlate evaluation error.
#[derive(Debug, Clone, Copy, PartialEq, Eq)]
pub enum CorrelateError {
    /// Checked `i64` arithmetic overflowed.
    ArithOverflow,
    /// `DIV`/`MOD` by zero.
    DivisionByZero,
    /// An opcode received a slot value of the wrong kind.
    TypeMismatch {
        /// The opcode group that rejected its operand.
        op: &'static str,
    },
    /// An opcode referenced a binding index that does not exist.
    UnknownBinding {
        /// The out-of-range binding index.
        binding: u8,
    },
    /// `TOPO_CALL` referenced a function index outside the closed set.
    UnknownTopoFunction {
        /// The unknown function index.
        func: u8,
    },
}

} // verus!
