//! Memory-consistency argument for a zero-knowledge virtual-machine prover.
//!
//! The crate builds, from an unordered log of memory operations, the trace
//! table that a STARK proves consistent: operations are sorted by address and
//! timestamp, synthetic reads are inserted so that every ordering gap can be
//! range-checked against the trace length, the list is padded to a power of
//! two, and per-row columns (first-change flags, range-check values, counters,
//! lookup frequencies, stale-context marks and the final-memory-state filter)
//! are derived.  The algebraic constraints that the trace must satisfy are
//! described once and evaluated in two interchangeable modes: directly over
//! field elements, and as a symbolic expression graph whose evaluation is
//! proved to agree with the direct mode.

pub mod columns;
pub mod config;
pub mod constraints;
pub mod errors;
pub mod field;
pub mod ops;
pub mod gaps;
pub mod global_metadata;
pub mod lookups;
pub mod pow2;
pub mod rows;
pub mod segments;
pub mod sorting;
pub mod trace;
