//! Building rows from operations, and the ordering flags.
//!
//! Each operation maps independently to a raw row; a second, sequential
//! pass computes for every row which address component first changes into
//! the next row, the difference the range check must certify, and the
//! gating products for the zero-initialization rule.

use vstd::prelude::*;
use crate::columns::MemoryColumnsView;
use crate::errors::TraceError;
use crate::field::{
    fe_inv_or_zero, fe_inv_or_zero_spec, fe_mul, fe_mul_spec, fe_sub, fe_sub_spec, FIELD_ORDER,
};
use crate::gaps::{trace_op_bounded, MAX_TRACE_TIMESTAMP};
use crate::ops::{MemoryOp, MemoryOpKind, MAX_ADDRESS_COMPONENT, VALUE_LIMBS};
use crate::segments::{
    SEGMENT_ACCOUNTS_LINKED_LIST, SEGMENT_CODE, SEGMENT_STORAGE_LINKED_LIST, SEGMENT_TRIE_DATA,
};

verus! {

/// The row carries exactly the operation's data: flag, kind, address,
/// value limbs and timestamp.
pub open spec fn row_matches_op(r: MemoryColumnsView, op: MemoryOp) -> bool {
    &&& r.filter == (if op.filter {
        1u64
    } else {
        0u64
    })
    &&& r.is_read == (if op.kind == MemoryOpKind::Read {
        1u64
    } else {
        0u64
    })
    &&& r.addr_context == op.address.context
    &&& r.addr_segment == op.address.segment
    &&& r.addr_virtual == op.address.virt
    &&& r.timestamp == op.timestamp
    &&& forall|j: int| 0 <= j < VALUE_LIMBS ==> #[trigger] r.value_limbs[j] == op.value@[j] as u64
}

impl MemoryOp {
    /// The raw row of one operation: its own data plus the timestamp
    /// inverse.  Columns that depend on the neighbouring row or on the
    /// whole trace stay zero and are written by later passes.
    pub fn into_row(&self) -> (r: MemoryColumnsView)
        requires
            trace_op_bounded(*self),
        ensures
            row_matches_op(r, *self),
            r.timestamp_inv == fe_inv_or_zero_spec(self.timestamp),
            r.counter == 0 && r.range_check == 0 && r.frequencies == 0,
            r.context_first_change == 0 && r.segment_first_change == 0
                && r.virtual_first_change == 0,
            r.preinitialized_segments_aux == 0 && r.preinitialized_segments == 0
                && r.initialize_aux == 0,
            r.stale_contexts == 0 && r.stale_context_frequencies == 0 && r.is_stale == 0
                && r.is_pruned == 0,
            r.maybe_in_mem_after == 0 && r.mem_after_filter == 0,
    {
        let v = self.value;
        let limbs: [u64; VALUE_LIMBS] = [
            v[0] as u64,
            v[1] as u64,
            v[2] as u64,
            v[3] as u64,
            v[4] as u64,
            v[5] as u64,
            v[6] as u64,
            v[7] as u64,
        ];
        let mut r = MemoryColumnsView::zeroed();
        r.filter = if self.filter {
            1
        } else {
            0
        };
        r.is_read = if self.is_read() {
            1
        } else {
            0
        };
        r.addr_context = self.address.context;
        r.addr_segment = self.address.segment;
        r.addr_virtual = self.address.virt;
        r.value_limbs = limbs;
        r.timestamp = self.timestamp;
        r.timestamp_inv = fe_inv_or_zero(self.timestamp);
        proof {
            assert forall|j: int| 0 <= j < VALUE_LIMBS implies #[trigger] r.value_limbs[j]
                == self.value@[j] as u64 by {
                assert(limbs[0] == v@[0] as u64 && limbs[1] == v@[1] as u64 && limbs[2] == v@[2]
                    as u64 && limbs[3] == v@[3] as u64 && limbs[4] == v@[4] as u64 && limbs[5]
                    == v@[5] as u64 && limbs[6] == v@[6] as u64 && limbs[7] == v@[7] as u64);
            }
        }
        r
    }
}

/// Strict order on rows mirroring the operations' sorting key.
pub open spec fn row_key_lt(a: MemoryColumnsView, b: MemoryColumnsView) -> bool {
    a.addr_context < b.addr_context || (a.addr_context == b.addr_context && (a.addr_segment
        < b.addr_segment || (a.addr_segment == b.addr_segment && (a.addr_virtual < b.addr_virtual
        || (a.addr_virtual == b.addr_virtual && a.timestamp < b.timestamp)))))
}

/// Two rows carry the same operation: flag, kind, address, timestamp and
/// value agree (repeated padding rows are such).
pub open spec fn row_data_eq(a: MemoryColumnsView, b: MemoryColumnsView) -> bool {
    a.filter == b.filter && a.is_read == b.is_read && a.addr_context == b.addr_context
        && a.addr_segment == b.addr_segment && a.addr_virtual == b.addr_virtual && a.timestamp
        == b.timestamp && (forall|j: int|
        0 <= j < VALUE_LIMBS ==> #[trigger] a.value_limbs[j] == b.value_limbs[j])
}

/// Order on rows mirroring the operations' sorting key.
pub open spec fn row_key_le(a: MemoryColumnsView, b: MemoryColumnsView) -> bool {
    a.addr_context < b.addr_context || (a.addr_context == b.addr_context && (a.addr_segment
        < b.addr_segment || (a.addr_segment == b.addr_segment && (a.addr_virtual < b.addr_virtual
        || (a.addr_virtual == b.addr_virtual && a.timestamp <= b.timestamp)))))
}

/// Rows whose operation data the flag pass accepts: bounded components and
/// a boolean read flag.
pub open spec fn flag_input_row_ok(r: MemoryColumnsView) -> bool {
    r.addr_context <= MAX_ADDRESS_COMPONENT && r.addr_segment <= MAX_ADDRESS_COMPONENT
        && r.addr_virtual <= MAX_ADDRESS_COMPONENT + 1 && r.timestamp <= MAX_TRACE_TIMESTAMP
        && r.is_read <= 1
}

/// The ordering difference between two neighbouring rows: the step of the
/// first address component that changes, less one, or the timestamp step
/// at an unchanged address.
pub open spec fn rc_value_spec(a: MemoryColumnsView, b: MemoryColumnsView) -> int {
    if a.addr_context != b.addr_context {
        b.addr_context - a.addr_context - 1
    } else if a.addr_segment != b.addr_segment {
        b.addr_segment - a.addr_segment - 1
    } else if a.addr_virtual != b.addr_virtual {
        b.addr_virtual - a.addr_virtual - 1
    } else {
        b.timestamp - a.timestamp
    }
}

/// Row `a` after the flag pass, against its successor `b` (the first row
/// again, for the last row, whose range check is forced to zero).
#[verifier::opaque]
pub open spec fn with_flags_spec(a: MemoryColumnsView, b: MemoryColumnsView, is_last: bool)
    -> MemoryColumnsView {
    let cfc = a.addr_context != b.addr_context;
    let sfc = a.addr_segment != b.addr_segment && !cfc;
    let vfc = a.addr_virtual != b.addr_virtual && !sfc && !cfc;
    let aux = fe_mul_spec(
        fe_sub_spec(b.addr_segment, SEGMENT_ACCOUNTS_LINKED_LIST),
        fe_sub_spec(b.addr_segment, SEGMENT_STORAGE_LINKED_LIST),
    );
    let pre = fe_mul_spec(
        fe_mul_spec(
            fe_sub_spec(b.addr_segment, SEGMENT_CODE),
            fe_sub_spec(b.addr_segment, SEGMENT_TRIE_DATA),
        ),
        aux,
    );
    let addr_changed: u64 = if cfc || sfc || vfc {
        1u64
    } else {
        0u64
    };
    MemoryColumnsView {
        context_first_change: if cfc {
            1u64
        } else {
            0u64
        },
        segment_first_change: if sfc {
            1u64
        } else {
            0u64
        },
        virtual_first_change: if vfc {
            1u64
        } else {
            0u64
        },
        range_check: if is_last {
            0u64
        } else {
            rc_value_spec(a, b) as u64
        },
        preinitialized_segments_aux: aux,
        preinitialized_segments: pre,
        initialize_aux: fe_mul_spec(fe_mul_spec(pre, addr_changed), b.is_read),
        ..a
    }
}

/// What the flag pass writes, and that it keeps every data column.
pub proof fn lemma_with_flags_fields(a: MemoryColumnsView, b: MemoryColumnsView, l: bool)
    ensures
        ({
            let r = with_flags_spec(a, b, l);
            &&& r.filter == a.filter
            &&& r.is_read == a.is_read
            &&& r.addr_context == a.addr_context
            &&& r.addr_segment == a.addr_segment
            &&& r.addr_virtual == a.addr_virtual
            &&& r.value_limbs == a.value_limbs
            &&& r.timestamp == a.timestamp
            &&& r.timestamp_inv == a.timestamp_inv
            &&& r.counter == a.counter
            &&& r.frequencies == a.frequencies
            &&& r.stale_contexts == a.stale_contexts
            &&& r.stale_context_frequencies == a.stale_context_frequencies
            &&& r.is_stale == a.is_stale
            &&& r.is_pruned == a.is_pruned
            &&& r.maybe_in_mem_after == a.maybe_in_mem_after
            &&& r.mem_after_filter == a.mem_after_filter
            &&& r.context_first_change == (if a.addr_context != b.addr_context {
                1u64
            } else {
                0u64
            })
            &&& r.segment_first_change == (if a.addr_segment != b.addr_segment && a.addr_context
                == b.addr_context {
                1u64
            } else {
                0u64
            })
            &&& r.virtual_first_change == (if a.addr_virtual != b.addr_virtual && a.addr_segment
                == b.addr_segment && a.addr_context == b.addr_context {
                1u64
            } else {
                0u64
            })
            &&& r.range_check == (if l {
                0u64
            } else {
                rc_value_spec(a, b) as u64
            })
            &&& r.preinitialized_segments_aux < FIELD_ORDER
            &&& r.preinitialized_segments < FIELD_ORDER
            &&& r.initialize_aux < FIELD_ORDER
        }),
{
    reveal(with_flags_spec);
    crate::field::lemma_fe_mul_in_field(
        fe_sub_spec(b.addr_segment, SEGMENT_ACCOUNTS_LINKED_LIST),
        fe_sub_spec(b.addr_segment, SEGMENT_STORAGE_LINKED_LIST),
    );
    let aux = fe_mul_spec(
        fe_sub_spec(b.addr_segment, SEGMENT_ACCOUNTS_LINKED_LIST),
        fe_sub_spec(b.addr_segment, SEGMENT_STORAGE_LINKED_LIST),
    );
    let pre = fe_mul_spec(
        fe_mul_spec(
            fe_sub_spec(b.addr_segment, SEGMENT_CODE),
            fe_sub_spec(b.addr_segment, SEGMENT_TRIE_DATA),
        ),
        aux,
    );
    crate::field::lemma_fe_mul_in_field(
        fe_mul_spec(
            fe_sub_spec(b.addr_segment, SEGMENT_CODE),
            fe_sub_spec(b.addr_segment, SEGMENT_TRIE_DATA),
        ),
        aux,
    );
    let cfc = a.addr_context != b.addr_context;
    let sfc = a.addr_segment != b.addr_segment && !cfc;
    let vfc = a.addr_virtual != b.addr_virtual && !sfc && !cfc;
    let addr_changed: u64 = if cfc || sfc || vfc {
        1u64
    } else {
        0u64
    };
    crate::field::lemma_fe_mul_in_field(fe_mul_spec(pre, addr_changed), b.is_read);
}

/// Flagging already flagged rows changes nothing: the pass only reads data
/// columns, which it never writes.
pub proof fn lemma_with_flags_idem(
    a: MemoryColumnsView,
    b: MemoryColumnsView,
    b2: MemoryColumnsView,
    l: bool,
)
    requires
        b2.addr_context == b.addr_context,
        b2.addr_segment == b.addr_segment,
        b2.addr_virtual == b.addr_virtual,
        b2.is_read == b.is_read,
        b2.timestamp == b.timestamp,
    ensures
        with_flags_spec(with_flags_spec(a, b, l), b2, l) == with_flags_spec(a, b, l),
{
    reveal(with_flags_spec);
}


/// The flag pass has been applied: each row equals its raw form with the
/// flags computed against its successor (cyclically, the last against the
/// first).
#[verifier::opaque]
pub open spec fn flags_applied(base: Seq<MemoryColumnsView>, rs: Seq<MemoryColumnsView>) -> bool {
    &&& rs.len() == base.len()
    &&& forall|i: int|
        0 <= i < base.len() ==> #[trigger] rs[i] == with_flags_spec(
            base[i],
            base[if i == base.len() - 1 {
                0int
            } else {
                i + 1
            }],
            i == base.len() - 1,
        )
}

/// Computes the first-change flags, the range-check value, and the
/// preinitialized-segment gating products of every row, each against its
/// successor (the last row against the first, with its range check forced
/// to zero by padding semantics).  Fails, leaving the rows untouched, when
/// some ordering difference reaches the trace length: that means the gap
/// filler failed and the range-check lookup would be unsound.
pub fn generate_first_change_flags_and_rc(trace_rows: &mut Vec<MemoryColumnsView>) -> (res:
    Result<(), TraceError>)
    requires
        old(trace_rows)@.len() >= 1,
        old(trace_rows)@.len() <= 0x2000_0000,
        forall|i: int|
            0 <= i < old(trace_rows)@.len() ==> flag_input_row_ok(#[trigger] old(trace_rows)@[i]),
        forall|i: int|
            0 <= i < old(trace_rows)@.len() - 1 ==> row_key_le(
                #[trigger] old(trace_rows)@[i],
                old(trace_rows)@[i + 1],
            ),
    ensures
        (res is Ok) <==> (forall|i: int|
            0 <= i < old(trace_rows)@.len() - 1 ==> rc_value_spec(
                #[trigger] old(trace_rows)@[i],
                old(trace_rows)@[i + 1],
            ) < old(trace_rows)@.len()),
        res is Err ==> final(trace_rows)@ == old(trace_rows)@ && res == Err::<
            (),
            TraceError,
        >(TraceError::OversizedRangeCheck),
        res is Ok ==> final(trace_rows)@.len() == old(trace_rows)@.len() && flags_applied(
            old(trace_rows)@,
            final(trace_rows)@,
        ),
{
    let n = trace_rows.len();
    let n64 = n as u64;
    // first pass: check every ordering difference against the trace length
    let mut i: usize = 0;
    while i < n - 1
        invariant
            n == trace_rows@.len(),
            1 <= n <= 0x2000_0000,
            n64 == n as u64,
            0 <= i <= n - 1,
            forall|k: int| 0 <= k < n ==> flag_input_row_ok(#[trigger] trace_rows@[k]),
            forall|k: int|
                0 <= k < n - 1 ==> row_key_le(#[trigger] trace_rows@[k], trace_rows@[k + 1]),
            forall|k: int|
                0 <= k < i ==> rc_value_spec(#[trigger] trace_rows@[k], trace_rows@[k + 1]) < n,
        decreases n - i,
    {
        let a = *(&trace_rows[i]);
        let b = *(&trace_rows[i + 1]);
        let rc: u64 = if a.addr_context != b.addr_context {
            b.addr_context - a.addr_context - 1
        } else if a.addr_segment != b.addr_segment {
            b.addr_segment - a.addr_segment - 1
        } else if a.addr_virtual != b.addr_virtual {
            b.addr_virtual - a.addr_virtual - 1
        } else {
            b.timestamp - a.timestamp
        };
        if rc >= n64 {
            return Err(TraceError::OversizedRangeCheck);
        }
        i = i + 1;
    }
    // second pass: write the flags; the fields the successor is read from
    // are never overwritten, and the first row is captured for the last
    let first_row = *(&trace_rows[0]);
    let ghost orig = trace_rows@;
    let mut i: usize = 0;
    while i < n
        invariant
            n == trace_rows@.len(),
            1 <= n <= 0x2000_0000,
            orig.len() == n,
            0 <= i <= n,
            first_row == orig[0],
            forall|k: int| 0 <= k < n ==> flag_input_row_ok(#[trigger] orig[k]),
            forall|k: int| 0 <= k < n - 1 ==> row_key_le(#[trigger] orig[k], orig[k + 1]),
            forall|k: int| 0 <= k < n - 1 ==> rc_value_spec(#[trigger] orig[k], orig[k + 1]) < n,
            forall|k: int| i <= k < n ==> #[trigger] trace_rows@[k] == orig[k],
            forall|k: int|
                0 <= k < i ==> #[trigger] trace_rows@[k] == with_flags_spec(
                    orig[k],
                    orig[if k == n - 1 {
                        0int
                    } else {
                        k + 1
                    }],
                    k == n - 1,
                ),
        decreases n - i,
    {
        let a = *(&trace_rows[i]);
        let b = if i == n - 1 {
            first_row
        } else {
            *(&trace_rows[i + 1])
        };
        let cfc = a.addr_context != b.addr_context;
        let sfc = a.addr_segment != b.addr_segment && !cfc;
        let vfc = a.addr_virtual != b.addr_virtual && !sfc && !cfc;
        let rc: u64 = if i == n - 1 {
            0
        } else if cfc {
            b.addr_context - a.addr_context - 1
        } else if sfc {
            b.addr_segment - a.addr_segment - 1
        } else if vfc {
            b.addr_virtual - a.addr_virtual - 1
        } else {
            b.timestamp - a.timestamp
        };
        let aux = fe_mul(
            fe_sub(b.addr_segment, SEGMENT_ACCOUNTS_LINKED_LIST),
            fe_sub(b.addr_segment, SEGMENT_STORAGE_LINKED_LIST),
        );
        let pre = fe_mul(
            fe_mul(
                fe_sub(b.addr_segment, SEGMENT_CODE),
                fe_sub(b.addr_segment, SEGMENT_TRIE_DATA),
            ),
            aux,
        );
        let addr_changed: u64 = if cfc || sfc || vfc {
            1
        } else {
            0
        };
        let init_aux = fe_mul(fe_mul(pre, addr_changed), b.is_read);
        let new_row = MemoryColumnsView {
            context_first_change: if cfc {
                1
            } else {
                0
            },
            segment_first_change: if sfc {
                1
            } else {
                0
            },
            virtual_first_change: if vfc {
                1
            } else {
                0
            },
            range_check: rc,
            preinitialized_segments_aux: aux,
            preinitialized_segments: pre,
            initialize_aux: init_aux,
            ..a
        };
        proof {
            reveal(with_flags_spec);
            assert(a == orig[i as int]);
            if i < n - 1 {
                assert(b == orig[i + 1]);
            } else {
                assert(b == orig[0]);
            }
            assert(new_row == with_flags_spec(
                orig[i as int],
                orig[if i as int == n - 1 {
                    0int
                } else {
                    i + 1
                }],
                i as int == n - 1,
            ));
        }
        trace_rows.set(i, new_row);
        i = i + 1;
    }
    proof {
        reveal(flags_applied);
        assert(flags_applied(orig, trace_rows@));
    }
    Ok(())
}

} // verus!
