//! The per-row column layout of the memory trace.
//!
//! A row holds one memory operation together with every derived column the
//! constraints read.  All values are canonical field elements.  The column
//! indices fix the order used by the column-major form, by the lookup
//! declarations, and by the final-memory-state rows (the address and value
//! columns are contiguous so that a final-state row is one slice).

use vstd::prelude::*;
use crate::ops::VALUE_LIMBS;
use crate::field::FIELD_ORDER;

verus! {

/// Number of columns of the trace.
pub const NUM_COLUMNS: usize = 30;

pub const FILTER_COL: usize = 0;
pub const IS_READ_COL: usize = 1;
pub const ADDR_CONTEXT_COL: usize = 2;
pub const ADDR_SEGMENT_COL: usize = 3;
pub const ADDR_VIRTUAL_COL: usize = 4;
/// First of the eight value-limb columns, which occupy indices 5 through 12.
pub const VALUE_START_COL: usize = 5;
pub const TIMESTAMP_COL: usize = 13;
pub const TIMESTAMP_INV_COL: usize = 14;
pub const COUNTER_COL: usize = 15;
pub const RANGE_CHECK_COL: usize = 16;
pub const FREQUENCIES_COL: usize = 17;
pub const CONTEXT_FIRST_CHANGE_COL: usize = 18;
pub const SEGMENT_FIRST_CHANGE_COL: usize = 19;
pub const VIRTUAL_FIRST_CHANGE_COL: usize = 20;
pub const PREINITIALIZED_SEGMENTS_AUX_COL: usize = 21;
pub const PREINITIALIZED_SEGMENTS_COL: usize = 22;
pub const INITIALIZE_AUX_COL: usize = 23;
pub const STALE_CONTEXTS_COL: usize = 24;
pub const STALE_CONTEXT_FREQUENCIES_COL: usize = 25;
pub const IS_STALE_COL: usize = 26;
pub const IS_PRUNED_COL: usize = 27;
pub const MAYBE_IN_MEM_AFTER_COL: usize = 28;
pub const MEM_AFTER_FILTER_COL: usize = 29;

/// One row of the memory trace, all values canonical field elements.
#[derive(Clone, Copy, Debug)]
pub struct MemoryColumnsView {
    /// 1 for operations the machine performed, 0 for synthetic rows.
    pub filter: u64,
    /// 1 for reads, 0 for writes.
    pub is_read: u64,
    pub addr_context: u64,
    pub addr_segment: u64,
    pub addr_virtual: u64,
    /// The 256-bit value in eight 32-bit limbs, least significant first.
    pub value_limbs: [u64; VALUE_LIMBS],
    pub timestamp: u64,
    /// Inverse of the timestamp, or 0 at timestamp 0; distinguishes the
    /// initial-state rows in the lookup filters.
    pub timestamp_inv: u64,
    /// The row index, serving as the range-check table.
    pub counter: u64,
    /// The ordering difference this row must prove smaller than the trace
    /// length.
    pub range_check: u64,
    /// How often this row's index occurs as a looked-up range-check value.
    pub frequencies: u64,
    pub context_first_change: u64,
    pub segment_first_change: u64,
    pub virtual_first_change: u64,
    /// Product of the next segment's offsets from the two linked-list
    /// segment identifiers.
    pub preinitialized_segments_aux: u64,
    /// Product over all four preinitialized segment identifiers; zero
    /// exactly when the next row's segment is preinitialized.
    pub preinitialized_segments: u64,
    /// Nonzero exactly when the next row starts a fresh address with a read
    /// outside the preinitialized segments, forcing its value to zero.
    pub initialize_aux: u64,
    /// At row index c: c + 1 if context c is stale, else 0.
    pub stale_contexts: u64,
    /// How often this row's index occurs as a looked-up stale context.
    pub stale_context_frequencies: u64,
    /// 1 when this row's context is stale.
    pub is_stale: u64,
    /// 1 at row index c when context c is stale.
    pub is_pruned: u64,
    /// 1 when this row is the last at its address, real, and not stale.
    pub maybe_in_mem_after: u64,
    /// `maybe_in_mem_after`, with implicit zero values of preinitialized
    /// segments removed: the final-memory-state membership flag.
    pub mem_after_filter: u64,
}

/// The value of column `c` of a row.
pub open spec fn col_of_row(r: MemoryColumnsView, c: int) -> u64 {
    if c == FILTER_COL {
        r.filter
    } else if c == IS_READ_COL {
        r.is_read
    } else if c == ADDR_CONTEXT_COL {
        r.addr_context
    } else if c == ADDR_SEGMENT_COL {
        r.addr_segment
    } else if c == ADDR_VIRTUAL_COL {
        r.addr_virtual
    } else if VALUE_START_COL <= c < VALUE_START_COL + VALUE_LIMBS {
        r.value_limbs[c - VALUE_START_COL]
    } else if c == TIMESTAMP_COL {
        r.timestamp
    } else if c == TIMESTAMP_INV_COL {
        r.timestamp_inv
    } else if c == COUNTER_COL {
        r.counter
    } else if c == RANGE_CHECK_COL {
        r.range_check
    } else if c == FREQUENCIES_COL {
        r.frequencies
    } else if c == CONTEXT_FIRST_CHANGE_COL {
        r.context_first_change
    } else if c == SEGMENT_FIRST_CHANGE_COL {
        r.segment_first_change
    } else if c == VIRTUAL_FIRST_CHANGE_COL {
        r.virtual_first_change
    } else if c == PREINITIALIZED_SEGMENTS_AUX_COL {
        r.preinitialized_segments_aux
    } else if c == PREINITIALIZED_SEGMENTS_COL {
        r.preinitialized_segments
    } else if c == INITIALIZE_AUX_COL {
        r.initialize_aux
    } else if c == STALE_CONTEXTS_COL {
        r.stale_contexts
    } else if c == STALE_CONTEXT_FREQUENCIES_COL {
        r.stale_context_frequencies
    } else if c == IS_STALE_COL {
        r.is_stale
    } else if c == IS_PRUNED_COL {
        r.is_pruned
    } else if c == MAYBE_IN_MEM_AFTER_COL {
        r.maybe_in_mem_after
    } else if c == MEM_AFTER_FILTER_COL {
        r.mem_after_filter
    } else {
        0
    }
}

/// Every column of the row is a canonical field element.
pub open spec fn row_wf(r: MemoryColumnsView) -> bool {
    forall|c: int| 0 <= c < NUM_COLUMNS ==> #[trigger] col_of_row(r, c) < FIELD_ORDER
}

impl MemoryColumnsView {
    /// An all-zero row.
    pub fn zeroed() -> (r: MemoryColumnsView)
        ensures
            forall|c: int| 0 <= c < NUM_COLUMNS ==> col_of_row(r, c) == 0,
            r.filter == 0 && r.is_read == 0,
            r.addr_context == 0 && r.addr_segment == 0 && r.addr_virtual == 0,
            forall|j: int| 0 <= j < VALUE_LIMBS ==> #[trigger] r.value_limbs[j] == 0,
            r.timestamp == 0 && r.timestamp_inv == 0,
            r.counter == 0 && r.range_check == 0 && r.frequencies == 0,
            r.context_first_change == 0 && r.segment_first_change == 0 && r.virtual_first_change
                == 0,
            r.preinitialized_segments_aux == 0 && r.preinitialized_segments == 0
                && r.initialize_aux == 0,
            r.stale_contexts == 0 && r.stale_context_frequencies == 0 && r.is_stale == 0
                && r.is_pruned == 0,
            r.maybe_in_mem_after == 0 && r.mem_after_filter == 0,
    {
        let r = MemoryColumnsView {
            filter: 0,
            is_read: 0,
            addr_context: 0,
            addr_segment: 0,
            addr_virtual: 0,
            value_limbs: [0u64, 0, 0, 0, 0, 0, 0, 0],
            timestamp: 0,
            timestamp_inv: 0,
            counter: 0,
            range_check: 0,
            frequencies: 0,
            context_first_change: 0,
            segment_first_change: 0,
            virtual_first_change: 0,
            preinitialized_segments_aux: 0,
            preinitialized_segments: 0,
            initialize_aux: 0,
            stale_contexts: 0,
            stale_context_frequencies: 0,
            is_stale: 0,
            is_pruned: 0,
            maybe_in_mem_after: 0,
            mem_after_filter: 0,
        };
        proof {
            assert forall|c: int| 0 <= c < NUM_COLUMNS implies col_of_row(r, c) == 0 by {
                if VALUE_START_COL <= c < VALUE_START_COL + VALUE_LIMBS {
                    assert(r.value_limbs[c - VALUE_START_COL] == 0);
                }
            }
        }
        r
    }

    /// The row as one vector in column order.
    pub fn to_column_vec(&self) -> (v: Vec<u64>)
        ensures
            v@.len() == NUM_COLUMNS,
            forall|c: int| 0 <= c < NUM_COLUMNS ==> v@[c] == col_of_row(*self, c),
    {
        let v: Vec<u64> = vec![
            self.filter,
            self.is_read,
            self.addr_context,
            self.addr_segment,
            self.addr_virtual,
            self.value_limbs[0],
            self.value_limbs[1],
            self.value_limbs[2],
            self.value_limbs[3],
            self.value_limbs[4],
            self.value_limbs[5],
            self.value_limbs[6],
            self.value_limbs[7],
            self.timestamp,
            self.timestamp_inv,
            self.counter,
            self.range_check,
            self.frequencies,
            self.context_first_change,
            self.segment_first_change,
            self.virtual_first_change,
            self.preinitialized_segments_aux,
            self.preinitialized_segments,
            self.initialize_aux,
            self.stale_contexts,
            self.stale_context_frequencies,
            self.is_stale,
            self.is_pruned,
            self.maybe_in_mem_after,
            self.mem_after_filter,
        ];
        proof {
            assert forall|c: int| 0 <= c < NUM_COLUMNS implies v@[c] == col_of_row(*self, c) by {
                if VALUE_START_COL <= c < VALUE_START_COL + VALUE_LIMBS {
                    assert(v@[c] == self.value_limbs[c - VALUE_START_COL]);
                }
            }
        }
        v
    }
}

} // verus!
