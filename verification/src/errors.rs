//! Fatal conditions of trace generation.
//!
//! These are defects of this subsystem or of its caller, never properties
//! of untrusted input: generation stops at once rather than producing a
//! trace that merely looks valid.  Rejecting a bad trace is a different,
//! ordinary outcome, reported by the constraint checker instead.

use vstd::prelude::*;

verus! {

/// Why trace generation was aborted.
#[derive(Clone, Copy, Debug, PartialEq, Eq, Structural)]
pub enum TraceError {
    /// No operations at all: an empty trace cannot be built.
    EmptyOperations,
    /// The supplied stale-context identifiers are not pairwise distinct.
    DuplicateStaleContexts,
    /// A stale-context identifier has no row slot in the trace.
    StaleContextOutOfRange,
    /// A row's context has no slot in the stale-context table.
    ContextOutOfRange,
    /// A computed range-check value reaches the trace length: the gap
    /// filler failed to bound an ordering difference.
    OversizedRangeCheck,
    /// Gap filling grew the operation list beyond the supported size.
    TraceTooLarge,
}

impl TraceError {
    /// A short diagnostic name for the violated invariant.
    pub fn describe(&self) -> (r: &'static str)
        ensures
            r@ == describe_spec(*self),
    {
        proof {
            reveal_strlit("empty operation list");
            reveal_strlit("duplicate stale contexts");
            reveal_strlit("stale context out of range");
            reveal_strlit("context out of range");
            reveal_strlit("oversized range check");
            reveal_strlit("trace too large");
        }
        match self {
            TraceError::EmptyOperations => "empty operation list",
            TraceError::DuplicateStaleContexts => "duplicate stale contexts",
            TraceError::StaleContextOutOfRange => "stale context out of range",
            TraceError::ContextOutOfRange => "context out of range",
            TraceError::OversizedRangeCheck => "oversized range check",
            TraceError::TraceTooLarge => "trace too large",
        }
    }
}

/// The diagnostic name of each invariant violation.
pub open spec fn describe_spec(e: TraceError) -> Seq<char> {
    match e {
        TraceError::EmptyOperations => "empty operation list"@,
        TraceError::DuplicateStaleContexts => "duplicate stale contexts"@,
        TraceError::StaleContextOutOfRange => "stale context out of range"@,
        TraceError::ContextOutOfRange => "context out of range"@,
        TraceError::OversizedRangeCheck => "oversized range check"@,
        TraceError::TraceTooLarge => "trace too large"@,
    }
}

} // verus!
