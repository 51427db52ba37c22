//! Assembling the full memory trace.
//!
//! The pipeline sorts the operation log, fills ordering gaps, pads to a
//! power of two, builds rows, computes the ordering flags, marks stale
//! contexts, transposes to column-major form, derives the counter, lookup
//! frequency and final-memory-state columns, and extracts the final memory
//! state.

use vstd::prelude::*;
use crate::columns::{
    col_of_row, MemoryColumnsView, ADDR_CONTEXT_COL, ADDR_SEGMENT_COL, ADDR_VIRTUAL_COL,
    CONTEXT_FIRST_CHANGE_COL, COUNTER_COL, FILTER_COL, FREQUENCIES_COL, IS_PRUNED_COL,
    IS_READ_COL, IS_STALE_COL, MAYBE_IN_MEM_AFTER_COL, MEM_AFTER_FILTER_COL, NUM_COLUMNS,
    RANGE_CHECK_COL, TIMESTAMP_COL, TIMESTAMP_INV_COL,
    SEGMENT_FIRST_CHANGE_COL, STALE_CONTEXTS_COL, STALE_CONTEXT_FREQUENCIES_COL,
    VALUE_START_COL, VIRTUAL_FIRST_CHANGE_COL,
};
use crate::errors::TraceError;
use crate::gaps::{
    fill_gaps, filled_ops_bounded, no_oversized_gaps, pad_memory_ops, pair_bounded,
    trace_op_bounded, trace_ops_bounded,
};
use crate::ops::{
    active_ops, key_le, sorted_ops, value_is_zero, well_formed_log, MemoryAddress, MemoryOp,
    MemoryOpKind, VALUE_LIMBS,
};
use crate::rows::{
    flag_input_row_ok, generate_first_change_flags_and_rc, rc_value_spec, row_data_eq, row_key_le,
    row_key_lt, row_matches_op, with_flags_spec,
};
use crate::sorting::sort_ops;

verus! {

/// Largest number of rows (after gap filling) a trace may have.
pub const MAX_TRACE_ROWS: usize = 0x1000_0000;

/// Column-major view of a matrix given row-major: entry (c, r) of the
/// result is entry (r, c) of the input.
pub fn transpose(rows: &Vec<Vec<u64>>, width: usize) -> (cols: Vec<Vec<u64>>)
    requires
        forall|r: int| 0 <= r < rows@.len() ==> (#[trigger] rows@[r])@.len() == width,
    ensures
        cols@.len() == width,
        forall|c: int| 0 <= c < width ==> (#[trigger] cols@[c])@.len() == rows@.len(),
        forall|c: int, r: int|
            0 <= c < width && 0 <= r < rows@.len() ==> #[trigger] cols@[c]@[r] == rows@[r]@[c],
{
    let n = rows.len();
    let mut cols: Vec<Vec<u64>> = Vec::new();
    let mut c: usize = 0;
    while c < width
        invariant
            0 <= c <= width,
            n == rows@.len(),
            forall|r: int| 0 <= r < n ==> (#[trigger] rows@[r])@.len() == width,
            cols@.len() == c,
            forall|k: int| 0 <= k < c ==> (#[trigger] cols@[k])@.len() == n,
            forall|k: int, r: int|
                0 <= k < c && 0 <= r < n ==> #[trigger] cols@[k]@[r] == rows@[r]@[k],
        decreases width - c,
    {
        let mut col: Vec<u64> = Vec::new();
        let mut r: usize = 0;
        while r < n
            invariant
                0 <= r <= n,
                0 <= c < width,
                n == rows@.len(),
                forall|k: int| 0 <= k < n ==> (#[trigger] rows@[k])@.len() == width,
                col@.len() == r,
                forall|k: int| 0 <= k < r ==> col@[k] == rows@[k]@[c as int],
            decreases n - r,
        {
            col.push(rows[r][c]);
            r = r + 1;
        }
        cols.push(col);
        c = c + 1;
    }
    cols
}

/// Data-level bounds of a built trace row, before the column-major pass.
pub open spec fn built_row_ok(r: MemoryColumnsView, n: int) -> bool {
    &&& flag_input_row_ok(r)
    &&& r.filter <= 1
    &&& (forall|j: int| 0 <= j < VALUE_LIMBS ==> #[trigger] r.value_limbs[j] < 0x1_0000_0000)
    &&& r.context_first_change <= 1
    &&& r.segment_first_change <= 1
    &&& r.virtual_first_change <= 1
    &&& r.range_check < n
    &&& r.timestamp_inv < crate::field::FIELD_ORDER
    &&& r.preinitialized_segments_aux < crate::field::FIELD_ORDER
    &&& r.preinitialized_segments < crate::field::FIELD_ORDER
    &&& r.initialize_aux < crate::field::FIELD_ORDER
    &&& r.counter == 0
    &&& r.frequencies == 0
    &&& r.stale_contexts == 0
    &&& r.stale_context_frequencies == 0
    &&& r.is_stale == 0
    &&& r.is_pruned == 0
    &&& r.maybe_in_mem_after == 0
    &&& r.mem_after_filter == 0
}

/// The rows carry, in order, the operations of some sorted log that keeps
/// exactly the real operations of the input and whose synthetic entries
/// are reads.
pub open spec fn rows_backed_by(
    rows: Seq<MemoryColumnsView>,
    padded: Seq<MemoryOp>,
    input: Seq<MemoryOp>,
) -> bool {
    &&& padded.len() == rows.len()
    &&& sorted_ops(padded)
    &&& trace_ops_bounded(padded)
    &&& (forall|i: int| 0 <= i < rows.len() ==> row_matches_op(#[trigger] rows[i], padded[i]))
    &&& active_ops(padded).to_multiset() == active_ops(input).to_multiset()
}

/// Derived columns of a freshly built row are still zero.
pub open spec fn raw_derived_zero(r: MemoryColumnsView) -> bool {
    r.counter == 0 && r.range_check == 0 && r.frequencies == 0 && r.context_first_change == 0
        && r.segment_first_change == 0 && r.virtual_first_change == 0
        && r.preinitialized_segments_aux == 0 && r.preinitialized_segments == 0
        && r.initialize_aux == 0 && r.stale_contexts == 0 && r.stale_context_frequencies == 0
        && r.is_stale == 0 && r.is_pruned == 0 && r.maybe_in_mem_after == 0 && r.mem_after_filter
        == 0
}

/// Data facts of raw rows that mirror a sorted, gap-bounded operation list.
proof fn lemma_raw_rows_facts(rows: Seq<MemoryColumnsView>, padded: Seq<MemoryOp>, max_rc: u64)
    requires
        rows.len() == padded.len(),
        sorted_ops(padded),
        trace_ops_bounded(padded),
        no_oversized_gaps(padded, max_rc),
        max_rc < rows.len(),
        forall|k: int| 0 <= k < rows.len() ==> row_matches_op(#[trigger] rows[k], padded[k]),
    ensures
        forall|k: int| 0 <= k < rows.len() ==> flag_input_row_ok(#[trigger] rows[k]),
        forall|k: int| 0 <= k < rows.len() - 1 ==> row_key_le(#[trigger] rows[k], rows[k + 1]),
        forall|k: int|
            0 <= k < rows.len() - 1 ==> 0 <= rc_value_spec(#[trigger] rows[k], rows[k + 1]),
{
    let n = rows.len() as int;
    assert forall|k: int| 0 <= k < n implies flag_input_row_ok(#[trigger] rows[k]) by {
        assert(padded.contains(padded[k]));
        assert(row_matches_op(rows[k], padded[k]));
    }
    assert forall|k: int| 0 <= k < n - 1 implies row_key_le(#[trigger] rows[k], rows[k + 1]) by {
        assert(key_le(padded[k], padded[k + 1]));
        assert(row_matches_op(rows[k], padded[k]));
        assert(row_matches_op(rows[k + 1], padded[k + 1]));
    }
    assert forall|k: int|
        0 <= k < n - 1 implies 0 <= rc_value_spec(#[trigger] rows[k], rows[k + 1]) by {
        assert(key_le(padded[k], padded[k + 1]));
        assert(row_matches_op(rows[k], padded[k]));
        assert(row_matches_op(rows[k + 1], padded[k + 1]));
    }
}

/// The hypotheses shared by the flag-pass lemmas: raw rows `base` mirror
/// the sorted gap-bounded list `padded`, and `rs` is their flagged form.
pub open spec fn flag_pass_setup(
    base: Seq<MemoryColumnsView>,
    rs: Seq<MemoryColumnsView>,
    padded: Seq<MemoryOp>,
    max_rc: u64,
) -> bool {
    &&& base.len() == padded.len()
    &&& rs.len() == base.len()
    &&& sorted_ops(padded)
    &&& trace_ops_bounded(padded)
    &&& no_oversized_gaps(padded, max_rc)
    &&& max_rc < base.len()
    &&& (forall|k: int| 0 <= k < base.len() ==> row_matches_op(#[trigger] base[k], padded[k]))
    &&& (forall|k: int| 0 <= k < base.len() ==> raw_derived_zero(#[trigger] base[k]))
    &&& (forall|k: int|
        0 <= k < base.len() ==> (#[trigger] base[k]).timestamp_inv < crate::field::FIELD_ORDER)
    &&& (forall|k: int|
        0 <= k < base.len() - 1 ==> rc_value_spec(#[trigger] base[k], base[k + 1]) < base.len())
    &&& (forall|k: int|
        0 <= k < rs.len() ==> #[trigger] rs[k] == with_flags_spec(
            base[k],
            base[if k == rs.len() - 1 {
                0int
            } else {
                k + 1
            }],
            k == rs.len() - 1,
        ))
}

/// The flagged rows still mirror the operation list.
#[verifier::rlimit(60)]
proof fn lemma_flagged_matches(
    base: Seq<MemoryColumnsView>,
    rs: Seq<MemoryColumnsView>,
    padded: Seq<MemoryOp>,
    max_rc: u64,
)
    requires
        flag_pass_setup(base, rs, padded, max_rc),
    ensures
        forall|k: int| 0 <= k < rs.len() ==> row_matches_op(#[trigger] rs[k], padded[k]),
{
    let n = rs.len() as int;
    assert forall|k: int| 0 <= k < n implies row_matches_op(#[trigger] rs[k], padded[k]) by {
        let nk = if k == n - 1 {
            0int
        } else {
            k + 1
        };
        crate::rows::lemma_with_flags_fields(base[k], base[nk], k == n - 1);
        assert(row_matches_op(base[k], padded[k]));
        assert forall|j: int| 0 <= j < VALUE_LIMBS implies #[trigger] rs[k].value_limbs[j]
            == padded[k].value@[j] as u64 by {
            assert(rs[k].value_limbs == base[k].value_limbs);
            assert(base[k].value_limbs[j] == padded[k].value@[j] as u64);
        }
    }
}

/// The flagged rows satisfy the data-level bounds of a built trace.
#[verifier::rlimit(60)]
proof fn lemma_flagged_built(
    base: Seq<MemoryColumnsView>,
    rs: Seq<MemoryColumnsView>,
    padded: Seq<MemoryOp>,
    max_rc: u64,
)
    requires
        flag_pass_setup(base, rs, padded, max_rc),
        forall|k: int|
            0 <= k < base.len() ==> (forall|j: int|
                0 <= j < VALUE_LIMBS ==> (#[trigger] base[k]).value_limbs[j] < 0x1_0000_0000),
    ensures
        forall|k: int| 0 <= k < rs.len() ==> built_row_ok(#[trigger] rs[k], rs.len() as int),
{
    let n = rs.len() as int;
    lemma_raw_rows_facts(base, padded, max_rc);
    assert forall|k: int| 0 <= k < n implies built_row_ok(#[trigger] rs[k], n) by {
        let nk = if k == n - 1 {
            0int
        } else {
            k + 1
        };
        crate::rows::lemma_with_flags_fields(base[k], base[nk], k == n - 1);
        assert(flag_input_row_ok(base[k]));
        assert forall|j: int| 0 <= j < VALUE_LIMBS implies #[trigger] rs[k].value_limbs[j]
            < 0x1_0000_0000 by {
            assert(rs[k].value_limbs == base[k].value_limbs);
            assert(base[k].value_limbs[j] < 0x1_0000_0000);
        }
        if k < n - 1 {
            assert(rc_value_spec(base[k], base[k + 1]) < n);
            assert(0 <= rc_value_spec(base[k], base[k + 1])) by {
                assert(key_le(padded[k], padded[k + 1]));
                assert(row_matches_op(base[k], padded[k]));
                assert(row_matches_op(base[k + 1], padded[k + 1]));
            }
        }
    }
}

/// The flagged rows are still sorted.
#[verifier::rlimit(60)]
proof fn lemma_flagged_sorted(
    base: Seq<MemoryColumnsView>,
    rs: Seq<MemoryColumnsView>,
    padded: Seq<MemoryOp>,
    max_rc: u64,
)
    requires
        flag_pass_setup(base, rs, padded, max_rc),
    ensures
        forall|k: int| 0 <= k < rs.len() - 1 ==> row_key_le(#[trigger] rs[k], rs[k + 1]),
{
    let n = rs.len() as int;
    lemma_raw_rows_facts(base, padded, max_rc);
    assert forall|k: int| 0 <= k < n - 1 implies row_key_le(#[trigger] rs[k], rs[k + 1]) by {
        let nk = if k == n - 1 {
            0int
        } else {
            k + 1
        };
        crate::rows::lemma_with_flags_fields(base[k], base[nk], k == n - 1);
        crate::rows::lemma_with_flags_fields(
            base[k + 1],
            base[if k + 1 == n - 1 {
                0int
            } else {
                k + 2
            }],
            k + 1 == n - 1,
        );
        assert(row_key_le(base[k], base[k + 1]));
    }
}

/// The flags of the final rows agree with recomputing them from the final
/// rows themselves: the pass only reads columns it never writes.
#[verifier::rlimit(60)]
proof fn lemma_flagged_idem(
    base: Seq<MemoryColumnsView>,
    rs: Seq<MemoryColumnsView>,
    padded: Seq<MemoryOp>,
    max_rc: u64,
)
    requires
        flag_pass_setup(base, rs, padded, max_rc),
    ensures
        forall|k: int|
            0 <= k < rs.len() ==> #[trigger] rs[k] == with_flags_spec(
                rs[k],
                rs[if k == rs.len() - 1 {
                    0int
                } else {
                    k + 1
                }],
                k == rs.len() - 1,
            ),
{
    let n = rs.len() as int;
    assert forall|k: int|
        0 <= k < n implies #[trigger] rs[k] == with_flags_spec(
        rs[k],
        rs[if k == n - 1 {
            0int
        } else {
            k + 1
        }],
        k == n - 1,
    ) by {
        let nk = if k == n - 1 {
            0int
        } else {
            k + 1
        };
        crate::rows::lemma_with_flags_fields(
            base[nk],
            base[if nk == n - 1 {
                0int
            } else {
                nk + 1
            }],
            nk == n - 1,
        );
        crate::rows::lemma_with_flags_idem(base[k], base[nk], rs[nk], k == n - 1);
    }
}

/// After a context or segment change, the next row's virtual offset is
/// itself below the trace length, as the gap filler arranged.
#[verifier::rlimit(60)]
proof fn lemma_flagged_virt_bound(
    base: Seq<MemoryColumnsView>,
    rs: Seq<MemoryColumnsView>,
    padded: Seq<MemoryOp>,
    max_rc: u64,
)
    requires
        flag_pass_setup(base, rs, padded, max_rc),
    ensures
        forall|k: int|
            0 <= k < rs.len() - 1 && ((#[trigger] rs[k]).context_first_change == 1
                || rs[k].segment_first_change == 1) ==> rs[k + 1].addr_virtual < rs.len(),
{
    let n = rs.len() as int;
    assert forall|k: int|
        0 <= k < n - 1 && ((#[trigger] rs[k]).context_first_change == 1
            || rs[k].segment_first_change == 1) implies rs[k + 1].addr_virtual < n by {
        crate::rows::lemma_with_flags_fields(base[k], base[k + 1], false);
        assert(pair_bounded(padded[k], padded[k + 1], max_rc));
        assert(row_matches_op(base[k], padded[k]));
        assert(row_matches_op(base[k + 1], padded[k + 1]));
        crate::rows::lemma_with_flags_fields(
            base[k + 1],
            base[if k + 1 == n - 1 {
                0int
            } else {
                k + 2
            }],
            k + 1 == n - 1,
        );
    }
}

/// The well-formedness laws at row level: synthetic rows read, a read at an
/// unchanged address repeats the value, and a read opening a fresh address
/// outside the preinitialized segments is zero.
proof fn lemma_flagged_wf(rs: Seq<MemoryColumnsView>, padded: Seq<MemoryOp>)
    requires
        rs.len() == padded.len(),
        sorted_ops(padded),
        well_formed_log(padded),
        forall|k: int| 0 <= k < rs.len() ==> row_matches_op(#[trigger] rs[k], padded[k]),
    ensures
        forall|i: int|
            0 <= i < rs.len() - 1 && (#[trigger] rs[i]).addr_context == rs[i + 1].addr_context
                && rs[i].addr_segment == rs[i + 1].addr_segment && rs[i].addr_virtual == rs[i
                + 1].addr_virtual && rs[i + 1].is_read == 1 ==> (forall|j: int|
                0 <= j < VALUE_LIMBS ==> #[trigger] rs[i + 1].value_limbs[j]
                    == rs[i].value_limbs[j]),
        forall|i: int|
            0 <= i < rs.len() - 1 && !((#[trigger] rs[i]).addr_context == rs[i + 1].addr_context
                && rs[i].addr_segment == rs[i + 1].addr_segment && rs[i].addr_virtual == rs[i
                + 1].addr_virtual) && rs[i + 1].is_read == 1
                && !crate::segments::is_preinitialized_segment(rs[i + 1].addr_segment) ==> (
            forall|j: int| 0 <= j < VALUE_LIMBS ==> #[trigger] rs[i + 1].value_limbs[j] == 0),
{
    reveal(well_formed_log);
    let n = rs.len() as int;
    assert forall|i: int|
        0 <= i < n - 1 && (#[trigger] rs[i]).addr_context == rs[i + 1].addr_context
            && rs[i].addr_segment == rs[i + 1].addr_segment && rs[i].addr_virtual == rs[i
            + 1].addr_virtual && rs[i + 1].is_read == 1 implies (forall|j: int|
        0 <= j < VALUE_LIMBS ==> #[trigger] rs[i + 1].value_limbs[j]
            == rs[i].value_limbs[j]) by {
        assert(row_matches_op(rs[i], padded[i]));
        assert(row_matches_op(rs[i + 1], padded[i + 1]));
        assert(padded[i].address == padded[i + 1].address);
        assert(padded[i + 1].kind == MemoryOpKind::Read);
        crate::ops::lemma_sorted_adjacent_read(padded, i);
        assert forall|j: int| 0 <= j < VALUE_LIMBS implies #[trigger] rs[i + 1].value_limbs[j]
            == rs[i].value_limbs[j] by {
            assert(rs[i + 1].value_limbs[j] == padded[i + 1].value@[j] as u64);
            assert(rs[i].value_limbs[j] == padded[i].value@[j] as u64);
        }
    }
    assert forall|i: int|
        0 <= i < n - 1 && !((#[trigger] rs[i]).addr_context == rs[i + 1].addr_context
            && rs[i].addr_segment == rs[i + 1].addr_segment && rs[i].addr_virtual == rs[i
            + 1].addr_virtual) && rs[i + 1].is_read == 1
            && !crate::segments::is_preinitialized_segment(rs[i + 1].addr_segment) implies (
    forall|j: int| 0 <= j < VALUE_LIMBS ==> #[trigger] rs[i + 1].value_limbs[j] == 0) by {
        assert(row_matches_op(rs[i], padded[i]));
        assert(row_matches_op(rs[i + 1], padded[i + 1]));
        assert(padded[i].address != padded[i + 1].address);
        crate::ops::lemma_sorted_adjacent_first(padded, i);
        assert(padded.contains(padded[i + 1]));
        assert(value_is_zero(padded[i + 1].value));
        assert forall|j: int| 0 <= j < VALUE_LIMBS implies #[trigger] rs[i + 1].value_limbs[j]
            == 0 by {
            assert(rs[i + 1].value_limbs[j] == padded[i + 1].value@[j] as u64);
            assert(padded[i + 1].value@[j] == 0);
        }
    }
}

/// Maps each operation of a bounded list to its raw row.
fn build_raw_rows(ops: &Vec<MemoryOp>) -> (rows: Vec<MemoryColumnsView>)
    requires
        trace_ops_bounded(ops@),
    ensures
        rows@.len() == ops@.len(),
        forall|k: int| 0 <= k < rows@.len() ==> row_matches_op(#[trigger] rows@[k], ops@[k]),
        forall|k: int| 0 <= k < rows@.len() ==> raw_derived_zero(#[trigger] rows@[k]),
        forall|k: int|
            0 <= k < rows@.len() ==> (forall|j: int|
                0 <= j < VALUE_LIMBS ==> (#[trigger] rows@[k]).value_limbs[j] < 0x1_0000_0000),
        forall|k: int|
            0 <= k < rows@.len() ==> (#[trigger] rows@[k]).timestamp_inv
                == crate::field::fe_inv_or_zero_spec(ops@[k].timestamp),
        forall|k: int|
            0 <= k < rows@.len() ==> (#[trigger] rows@[k]).timestamp_inv
                < crate::field::FIELD_ORDER,
{
    let n = ops.len();
    let mut rows: Vec<MemoryColumnsView> = Vec::new();
    let mut i: usize = 0;
    while i < n
        invariant
            n == ops@.len(),
            trace_ops_bounded(ops@),
            0 <= i <= n,
            rows@.len() == i,
            forall|k: int| 0 <= k < i ==> row_matches_op(#[trigger] rows@[k], ops@[k]),
            forall|k: int| 0 <= k < i ==> raw_derived_zero(#[trigger] rows@[k]),
            forall|k: int|
                0 <= k < i ==> (forall|j: int|
                    0 <= j < VALUE_LIMBS ==> (#[trigger] rows@[k]).value_limbs[j]
                        < 0x1_0000_0000),
            forall|k: int|
                0 <= k < i ==> (#[trigger] rows@[k]).timestamp_inv
                    == crate::field::fe_inv_or_zero_spec(ops@[k].timestamp),
            forall|k: int|
                0 <= k < i ==> (#[trigger] rows@[k]).timestamp_inv < crate::field::FIELD_ORDER,
        decreases n - i,
    {
        let op = *(&ops[i]);
        proof {
            assert(ops@.contains(ops@[i as int]));
            assert(trace_op_bounded(op));
        }
        let row = op.into_row();
        proof {
            assert forall|j: int| 0 <= j < VALUE_LIMBS implies row.value_limbs[j]
                < 0x1_0000_0000 by {
                assert(row.value_limbs[j] == op.value@[j] as u64);
            }
            crate::field::lemma_fe_inv_in_field(op.timestamp);
        }
        rows.push(row);
        i = i + 1;
    }
    rows
}

/// A log on which trace generation owes success: non-empty and within the
/// size cap, already sorted and free of key ties, starting at virtual
/// offset zero, with no ordering gap above the range-check bound of its
/// own length, bounded components, and every context and segment small
/// enough for a slot in the padded trace.  The gap filler leaves such a
/// log unchanged, so the whole pipeline goes through.
pub open spec fn bounded_ready_log(s: Seq<MemoryOp>) -> bool {
    &&& 1 <= s.len() <= 0x1000_0000
    &&& sorted_ops(s)
    &&& crate::ops::ties_identical(s)
    &&& crate::ops::ops_bounded(s)
    &&& s[0].address.virt == 0
    &&& no_oversized_gaps(s, (crate::pow2::pow2_ceil(s.len() as u64) - 1) as u64)
    &&& (forall|x: MemoryOp|
        #[trigger] s.contains(x) ==> x.address.context < crate::pow2::pow2_ceil(
            (s.len() + 1) as u64,
        ) && x.address.segment < crate::pow2::pow2_ceil((s.len() + 1) as u64))
}

/// Sorts the log, fills ordering gaps and pads to a power of two.
/// Returns the padded list, the count before padding, and (as ghost data)
/// the bound the gap filler enforced.
fn prepare_operations(memory_ops: Vec<MemoryOp>) -> (res: Result<
    (Vec<MemoryOp>, usize, Ghost<u64>),
    TraceError,
>)
    requires
        memory_ops@.len() >= 1,
        memory_ops@.len() <= 0x1000_0000,
        crate::ops::ops_bounded(memory_ops@),
    ensures
        res matches Err(e) ==> e == TraceError::TraceTooLarge,
        res matches Ok(r) ==> {
            let padded = r.0@;
            &&& crate::pow2::is_power_of_two(padded.len() as u64)
            &&& padded.len() <= 0x2000_0000
            &&& 1 <= r.1 < padded.len()
            &&& memory_ops@.len() <= r.1
            &&& sorted_ops(padded)
            &&& trace_ops_bounded(padded)
            &&& no_oversized_gaps(padded, r.2@)
            &&& r.2@ < padded.len()
            &&& active_ops(padded).to_multiset() == active_ops(memory_ops@).to_multiset()
            &&& (well_formed_log(memory_ops@) ==> well_formed_log(padded))
            &&& (crate::ops::ties_identical(memory_ops@) ==> crate::ops::ties_identical(padded))
            &&& (crate::ops::inactive_are_reads(memory_ops@) ==> crate::ops::inactive_are_reads(
                padded,
            ))
            &&& (forall|k: int|
                r.1 <= k < padded.len() ==> #[trigger] padded[k] == crate::gaps::padding_op_spec(
                    padded[r.1 - 1],
                ))
        },
        bounded_ready_log(memory_ops@) ==> res is Ok,
        bounded_ready_log(memory_ops@) ==> (res matches Ok(r) ==> {
            &&& r.1 == memory_ops@.len()
            &&& r.0@.len() == crate::pow2::pow2_ceil((memory_ops@.len() + 1) as u64)
            &&& r.0@.take(r.1 as int) == memory_ops@
        }),
{
    let ghost input = memory_ops@;
    let mut ops = memory_ops;
    sort_ops(&mut ops);
    let ghost sorted_in = ops@;
    proof {
        crate::ops::lemma_log_predicates_permute(input, ops@);
        crate::ops::lemma_log_predicates_permute(ops@, input);
        crate::ops::lemma_active_multiset_permute(sorted_in, input);
    }
    let max_rc = fill_gaps(&mut ops);
    proof {
        if bounded_ready_log(input) {
            // a ready log passes through the sort and the gap filler
            // unchanged: it has the one sorted arrangement, and no gap
            // exceeds the bound the filler enforces
            crate::ops::lemma_sorted_unique(input, sorted_in);
            assert(sorted_in == input);
            assert(max_rc + 1 == crate::pow2::pow2_ceil(input.len() as u64));
            assert(no_oversized_gaps(sorted_in, max_rc));
            assert(ops@ == input);
        }
    }
    let unpadded_length = ops.len();
    if unpadded_length > MAX_TRACE_ROWS {
        return Err(TraceError::TraceTooLarge);
    }
    let ghost filled = ops@;
    let n = pad_memory_ops(&mut ops);
    let ghost padded = ops@;
    proof {
        assert(no_oversized_gaps(padded, max_rc));
        assert(max_rc < n as u64) by {
            assert(crate::pow2::is_power_of_two(n as u64));
            assert(n > filled.len());
        }
        assert(well_formed_log(input) ==> well_formed_log(padded));
        assert(active_ops(padded) == active_ops(sorted_in)) by {
            assert(active_ops(filled) == active_ops(sorted_in));
        }
        assert(active_ops(padded).to_multiset() == active_ops(input).to_multiset());
        assert(crate::ops::ties_identical(input) ==> crate::ops::ties_identical(padded));
        assert(crate::ops::inactive_are_reads(input) ==> crate::ops::inactive_are_reads(padded));
        assert forall|k: int|
            unpadded_length <= k < padded.len() implies #[trigger] padded[k]
            == crate::gaps::padding_op_spec(padded[unpadded_length - 1]) by {
            assert(padded[k] == crate::gaps::padding_op_spec(filled.last()));
            assert(padded.take(unpadded_length as int) == filled);
            assert(padded.take(unpadded_length as int)[unpadded_length - 1]
                == padded[unpadded_length - 1]);
        }
        if bounded_ready_log(input) {
            assert(filled == input);
            assert(n as u64 == crate::pow2::pow2_ceil((input.len() + 1) as u64));
            assert(padded.take(unpadded_length as int) == input);
        }
    }
    Ok((ops, unpadded_length, Ghost(max_rc)))
}

/// Everything the row-major stage guarantees of its rows: data bounds,
/// sort order, the timestamp-inverse column, flags that agree with
/// recomputation, bounded lookup offsets, the padding tail starting at
/// the returned count, a backing operation list — and the laws: synthetic
/// rows read when the input's dummies do, keys strictly increase when the
/// input is tie-free (identical padding rows excepted), and, for a
/// well-formed input log, read consistency and zero initialization.
#[verifier::opaque]
pub open spec fn row_major_output_ok(
    rows: Seq<MemoryColumnsView>,
    input: Seq<MemoryOp>,
    unpadded: int,
) -> bool {
    let n = rows.len() as int;
    &&& 1 <= unpadded < n
    &&& (forall|i: int| 0 <= i < n ==> built_row_ok(#[trigger] rows[i], n))
    &&& (forall|i: int| 0 <= i < n - 1 ==> row_key_le(#[trigger] rows[i], rows[i + 1]))
    &&& (forall|i: int|
        0 <= i < n ==> (#[trigger] rows[i]).timestamp_inv == crate::field::fe_inv_or_zero_spec(
            rows[i].timestamp,
        ))
    &&& (forall|i: int|
        0 <= i < n ==> #[trigger] rows[i] == with_flags_spec(
            rows[i],
            rows[if i == n - 1 {
                0int
            } else {
                i + 1
            }],
            i == n - 1,
        ))
    &&& (forall|i: int|
        0 <= i < n - 1 && ((#[trigger] rows[i]).context_first_change == 1
            || rows[i].segment_first_change == 1) ==> rows[i + 1].addr_virtual < n)
    &&& (forall|i: int|
        unpadded <= i < n ==> ((#[trigger] rows[i]).filter == 0 && rows[i].is_read == 1
            && rows[i].addr_context == rows[unpadded - 1].addr_context && rows[i].addr_segment
            == rows[unpadded - 1].addr_segment && rows[i].addr_virtual == rows[unpadded
            - 1].addr_virtual + 1 && rows[i].timestamp == rows[unpadded - 1].timestamp + 1 && (
        forall|j: int| 0 <= j < VALUE_LIMBS ==> #[trigger] rows[i].value_limbs[j] == 0)))
    &&& (exists|padded: Seq<MemoryOp>| rows_backed_by(rows, padded, input))
    &&& (crate::ops::inactive_are_reads(input) ==> (forall|i: int|
        0 <= i < n && (#[trigger] rows[i]).filter == 0 ==> rows[i].is_read == 1))
    &&& (crate::ops::ties_identical(input) ==> (forall|i: int|
        0 <= i < n - 1 ==> (row_key_lt(#[trigger] rows[i], rows[i + 1]) || row_data_eq(rows[i], rows[i + 1]))))
    &&& (well_formed_log(input) ==> {
        &&& (forall|i: int|
            0 <= i < n - 1 && (#[trigger] rows[i]).addr_context == rows[i + 1].addr_context
                && rows[i].addr_segment == rows[i + 1].addr_segment && rows[i].addr_virtual
                == rows[i + 1].addr_virtual && rows[i + 1].is_read == 1 ==> (forall|j: int|
                0 <= j < VALUE_LIMBS ==> #[trigger] rows[i + 1].value_limbs[j]
                    == rows[i].value_limbs[j]))
        &&& (forall|i: int|
            0 <= i < n - 1 && !((#[trigger] rows[i]).addr_context == rows[i + 1].addr_context
                && rows[i].addr_segment == rows[i + 1].addr_segment && rows[i].addr_virtual
                == rows[i + 1].addr_virtual) && rows[i + 1].is_read == 1
                && !crate::segments::is_preinitialized_segment(rows[i + 1].addr_segment) ==> (
            forall|j: int| 0 <= j < VALUE_LIMBS ==> #[trigger] rows[i + 1].value_limbs[j] == 0))
    })
}

/// Packaging lemma of the row-major stage: all its guarantees follow from
/// the facts the stages establish.
#[verifier::rlimit(100)]
proof fn lemma_row_major_package(
    base: Seq<MemoryColumnsView>,
    rs: Seq<MemoryColumnsView>,
    padded: Seq<MemoryOp>,
    input: Seq<MemoryOp>,
    max_rc: u64,
    unpadded: int,
)
    requires
        base.len() == padded.len(),
        rs.len() == base.len(),
        sorted_ops(padded),
        trace_ops_bounded(padded),
        no_oversized_gaps(padded, max_rc),
        max_rc < base.len(),
        1 <= unpadded < base.len(),
        forall|k: int| 0 <= k < base.len() ==> row_matches_op(#[trigger] base[k], padded[k]),
        forall|k: int| 0 <= k < base.len() ==> raw_derived_zero(#[trigger] base[k]),
        forall|k: int|
            0 <= k < base.len() ==> (forall|j: int|
                0 <= j < VALUE_LIMBS ==> (#[trigger] base[k]).value_limbs[j] < 0x1_0000_0000),
        forall|k: int|
            0 <= k < base.len() ==> (#[trigger] base[k]).timestamp_inv
                == crate::field::fe_inv_or_zero_spec(padded[k].timestamp),
        forall|k: int|
            0 <= k < base.len() ==> (#[trigger] base[k]).timestamp_inv
                < crate::field::FIELD_ORDER,
        forall|i: int|
            0 <= i < base.len() - 1 ==> rc_value_spec(#[trigger] base[i], base[i + 1])
                < base.len(),
        crate::rows::flags_applied(base, rs),
        active_ops(padded).to_multiset() == active_ops(input).to_multiset(),
        well_formed_log(input) ==> well_formed_log(padded),
        crate::ops::ties_identical(input) ==> crate::ops::ties_identical(padded),
        crate::ops::inactive_are_reads(input) ==> crate::ops::inactive_are_reads(padded),
        forall|k: int|
            unpadded <= k < padded.len() ==> #[trigger] padded[k] == crate::gaps::padding_op_spec(
                padded[unpadded - 1],
            ),
    ensures
        row_major_output_ok(rs, input, unpadded),
{
    reveal(row_major_output_ok);
    reveal(crate::rows::flags_applied);
    let n = rs.len() as int;
    assert(flag_pass_setup(base, rs, padded, max_rc));
    lemma_flagged_matches(base, rs, padded, max_rc);
    lemma_flagged_built(base, rs, padded, max_rc);
    lemma_flagged_sorted(base, rs, padded, max_rc);
    lemma_flagged_idem(base, rs, padded, max_rc);
    lemma_flagged_virt_bound(base, rs, padded, max_rc);
    assert(rows_backed_by(rs, padded, input));
    // the timestamp-inverse column always inverts its own timestamp
    assert forall|i: int| 0 <= i < n implies (#[trigger] rs[i]).timestamp_inv
        == crate::field::fe_inv_or_zero_spec(rs[i].timestamp) by {
        let nk = if i == n - 1 {
            0int
        } else {
            i + 1
        };
        crate::rows::lemma_with_flags_fields(base[i], base[nk], i == n - 1);
        assert(row_matches_op(base[i], padded[i]));
    }
    // the rows from the returned count on are the repeated padding row
    assert forall|i: int|
        unpadded <= i < n implies ((#[trigger] rs[i]).filter == 0 && rs[i].is_read == 1
            && rs[i].addr_context == rs[unpadded - 1].addr_context && rs[i].addr_segment
            == rs[unpadded - 1].addr_segment && rs[i].addr_virtual == rs[unpadded
            - 1].addr_virtual + 1 && rs[i].timestamp == rs[unpadded - 1].timestamp + 1 && (
        forall|j: int| 0 <= j < VALUE_LIMBS ==> #[trigger] rs[i].value_limbs[j] == 0)) by {
        let prev_op = padded[unpadded - 1];
        assert(padded[i] == crate::gaps::padding_op_spec(prev_op));
        assert(row_matches_op(rs[i], padded[i]));
        assert(row_matches_op(rs[unpadded - 1], prev_op));
        assert(padded.contains(prev_op));
        assert(trace_op_bounded(prev_op));
        assert forall|j: int| 0 <= j < VALUE_LIMBS implies #[trigger] rs[i].value_limbs[j]
            == 0 by {
            assert(rs[i].value_limbs[j] == padded[i].value@[j] as u64);
            let v = crate::gaps::padding_op_spec(prev_op).value;
            assert(v@[0] == 0 && v@[1] == 0 && v@[2] == 0 && v@[3] == 0 && v@[4] == 0 && v@[5]
                == 0 && v@[6] == 0 && v@[7] == 0);
        }
    }
    // synthetic rows read, already when the input's own dummies do
    if crate::ops::inactive_are_reads(input) {
        assert forall|i: int| 0 <= i < n && (#[trigger] rs[i]).filter == 0 implies rs[i].is_read
            == 1 by {
            assert(padded.contains(padded[i]));
            assert(row_matches_op(rs[i], padded[i]));
        }
    }
    // for a tie-free log, keys strictly increase, identical rows excepted
    if crate::ops::ties_identical(input) {
        assert forall|i: int|
            0 <= i < n - 1 implies (row_key_lt(#[trigger] rs[i], rs[i + 1]) || row_data_eq(
            rs[i],
            rs[i + 1],
        )) by {
            crate::ops::lemma_sorted_strict(padded, i);
            assert(row_matches_op(rs[i], padded[i]));
            assert(row_matches_op(rs[i + 1], padded[i + 1]));
            if !crate::ops::key_lt(padded[i], padded[i + 1]) {
                assert(padded[i] == padded[i + 1]);
                assert(row_data_eq(rs[i], rs[i + 1])) by {
                    assert forall|j: int| 0 <= j < VALUE_LIMBS implies #[trigger] rs[
                        i].value_limbs[j] == rs[i + 1].value_limbs[j] by {
                        assert(rs[i].value_limbs[j] == padded[i].value@[j] as u64);
                        assert(rs[i + 1].value_limbs[j] == padded[i + 1].value@[j] as u64);
                    }
                }
            }
        }
    }
    if well_formed_log(input) {
        lemma_flagged_wf(rs, padded);
    }
}

/// On a ready log, every ordering difference of the padded list fits below
/// the trace length, and every row's context has a slot in it.
#[verifier::rlimit(100)]
proof fn lemma_ready_rc_bounds(
    base: Seq<MemoryColumnsView>,
    padded: Seq<MemoryOp>,
    input: Seq<MemoryOp>,
    unpadded: int,
)
    requires
        bounded_ready_log(input),
        base.len() == padded.len(),
        padded.len() == crate::pow2::pow2_ceil((input.len() + 1) as u64),
        unpadded == input.len(),
        1 <= unpadded < padded.len(),
        padded.take(unpadded) == input,
        forall|k: int|
            unpadded <= k < padded.len() ==> #[trigger] padded[k] == crate::gaps::padding_op_spec(
                padded[unpadded - 1],
            ),
        forall|k: int| 0 <= k < base.len() ==> row_matches_op(#[trigger] base[k], padded[k]),
        sorted_ops(padded),
        trace_ops_bounded(padded),
    ensures
        forall|i: int|
            0 <= i < base.len() - 1 ==> rc_value_spec(#[trigger] base[i], base[i + 1])
                < base.len(),
        forall|i: int| 0 <= i < base.len() ==> (#[trigger] base[i]).addr_context < base.len(),
{
    let n = base.len() as int;
    let len = input.len() as int;
    crate::pow2::lemma_pow2_ceil(input.len() as u64);
    crate::pow2::lemma_pow2_ceil((input.len() + 1) as u64);
    let mrc = (crate::pow2::pow2_ceil(input.len() as u64) - 1) as u64;
    assert(crate::pow2::pow2_ceil(input.len() as u64) <= crate::pow2::pow2_ceil(
        (input.len() + 1) as u64,
    ));
    assert forall|k: int| 0 <= k < len implies padded[k] == input[k] by {
        assert(padded.take(unpadded)[k] == padded[k]);
    }
    assert(padded.contains(padded[unpadded - 1]));
    assert(trace_op_bounded(padded[unpadded - 1]));
    assert forall|i: int| 0 <= i < n implies (#[trigger] base[i]).addr_context < n by {
        assert(row_matches_op(base[i], padded[i]));
        if i < len {
            assert(input.contains(input[i]));
        } else {
            assert(padded[i] == crate::gaps::padding_op_spec(padded[unpadded - 1]));
            assert(input.contains(input[unpadded - 1]));
        }
    }
    assert forall|i: int|
        0 <= i < n - 1 implies rc_value_spec(#[trigger] base[i], base[i + 1]) < n by {
        assert(row_matches_op(base[i], padded[i]));
        assert(row_matches_op(base[i + 1], padded[i + 1]));
        let a = padded[i];
        let b = padded[i + 1];
        if i + 1 < unpadded {
            assert(a == input[i] && b == input[i + 1]);
            assert(input.contains(input[i]) && input.contains(input[i + 1]));
            assert(crate::gaps::pair_bounded(input[i], input[i + 1], mrc));
            assert(crate::ops::key_le(a, b));
        } else if i + 1 == unpadded {
            assert(a == input[i]);
            assert(a == padded[unpadded - 1]);
            assert(b == crate::gaps::padding_op_spec(padded[unpadded - 1]));
        } else {
            assert(a == crate::gaps::padding_op_spec(padded[unpadded - 1]));
            assert(b == crate::gaps::padding_op_spec(padded[unpadded - 1]));
        }
    }
}

/// The flag pass keeps every context below the trace length.
proof fn lemma_ctx_after_flags(base: Seq<MemoryColumnsView>, rs: Seq<MemoryColumnsView>)
    requires
        crate::rows::flags_applied(base, rs),
        rs.len() == base.len(),
        forall|i: int| 0 <= i < base.len() ==> (#[trigger] base[i]).addr_context < base.len(),
    ensures
        forall|i: int| 0 <= i < rs.len() ==> (#[trigger] rs[i]).addr_context < rs.len(),
{
    reveal(crate::rows::flags_applied);
    let n = rs.len() as int;
    assert forall|i: int| 0 <= i < n implies (#[trigger] rs[i]).addr_context < n by {
        let nk = if i == n - 1 {
            0int
        } else {
            i + 1
        };
        crate::rows::lemma_with_flags_fields(base[i], base[nk], i == n - 1);
        assert(base[i].addr_context < base.len());
    }
}

/// Sorts the operations, fills ordering gaps, pads to a power of two, and
/// builds the flagged rows.  Returns the rows and the count of operations
/// before padding: the padding tail starts exactly there.  The returned
/// rows are sorted, their number is a power of two above that count, every
/// range-check value is below it, and — for a well-formed log — synthetic
/// rows are reads, a read at an unchanged address repeats the previous
/// value, and a read opening a fresh address outside the preinitialized
/// segments is zero.  On a ready log (see `bounded_ready_log`) success is
/// owed: the result is the log itself, padded to the next power of two.
#[verifier::rlimit(100)]
pub fn generate_trace_row_major(memory_ops: Vec<MemoryOp>) -> (res: Result<
    (Vec<MemoryColumnsView>, usize),
    TraceError,
>)
    requires
        memory_ops@.len() >= 1,
        memory_ops@.len() <= 0x1000_0000,
        crate::ops::ops_bounded(memory_ops@),
    ensures
        res matches Err(e) ==> (e == TraceError::TraceTooLarge || e
            == TraceError::OversizedRangeCheck),
        res matches Ok(r) ==> {
            &&& crate::pow2::is_power_of_two(r.0@.len() as u64)
            &&& r.0@.len() <= 0x2000_0000
            &&& 1 <= r.1 < r.0@.len()
            &&& memory_ops@.len() <= r.1
            &&& row_major_output_ok(r.0@, memory_ops@, r.1 as int)
        },
        bounded_ready_log(memory_ops@) ==> res is Ok,
        bounded_ready_log(memory_ops@) ==> (res matches Ok(r) ==> {
            &&& r.0@.len() == crate::pow2::pow2_ceil((memory_ops@.len() + 1) as u64)
            &&& r.1 == memory_ops@.len()
            &&& (forall|i: int|
                0 <= i < r.0@.len() ==> (#[trigger] r.0@[i]).addr_context < r.0@.len())
        }),
{
    let ghost input = memory_ops@;
    let prepared = prepare_operations(memory_ops);
    let (ops, unpadded_length, ghost_max_rc) = match prepared {
        Err(e) => {
            return Err(e);
        },
        Ok(r) => r,
    };
    let ghost padded = ops@;
    let ghost max_rc = ghost_max_rc@;
    let n = ops.len();
    let mut rows = build_raw_rows(&ops);
    proof {
        lemma_raw_rows_facts(rows@, padded, max_rc);
        if bounded_ready_log(input) {
            lemma_ready_rc_bounds(rows@, padded, input, unpadded_length as int);
        }
    }
    let ghost base = rows@;
    let flag_result = generate_first_change_flags_and_rc(&mut rows);
    match flag_result {
        Err(e) => {
            proof {
                // a ready log never trips the range check
                if bounded_ready_log(input) {
                    assert(false);
                }
            }
            Err(e)
        },
        Ok(()) => {
            proof {
                lemma_row_major_package(
                    base,
                    rows@,
                    padded,
                    input,
                    max_rc,
                    unpadded_length as int,
                );
                if bounded_ready_log(input) {
                    lemma_ctx_after_flags(base, rows@);
                }
            }
            Ok((rows, unpadded_length))
        },
    }
}

/// Value of column `c` at row `i` of a column-major trace.
pub open spec fn colv(cols: Seq<Vec<u64>>, c: int, i: int) -> u64 {
    cols[c]@[i]
}

/// A rectangular column-major trace of `n` rows.
pub open spec fn cols_wf(cols: Seq<Vec<u64>>, n: int) -> bool {
    cols.len() == NUM_COLUMNS && forall|c: int|
        0 <= c < NUM_COLUMNS ==> (#[trigger] cols[c])@.len() == n
}

/// Row `i`'s context is marked stale: the stale-context table holds that
/// context plus one at the context's own row slot.
pub open spec fn stale_hit(cols: Seq<Vec<u64>>, i: int) -> bool {
    colv(cols, STALE_CONTEXTS_COL as int, colv(cols, ADDR_CONTEXT_COL as int, i) as int) == colv(
        cols,
        ADDR_CONTEXT_COL as int,
        i,
    ) + 1
}

/// Row `i` is a candidate for the final memory state: real, last at its
/// address, and not stale.
pub open spec fn maybe_hit(cols: Seq<Vec<u64>>, i: int) -> bool {
    &&& !stale_hit(cols, i)
    &&& colv(cols, FILTER_COL as int, i) == 1
    &&& (colv(cols, CONTEXT_FIRST_CHANGE_COL as int, i) == 1 || colv(
        cols,
        SEGMENT_FIRST_CHANGE_COL as int,
        i,
    ) == 1 || colv(cols, VIRTUAL_FIRST_CHANGE_COL as int, i) == 1)
}

/// Some limb of row `i`'s value is nonzero.
pub open spec fn value_nonzero(cols: Seq<Vec<u64>>, i: int) -> bool {
    exists|j: int|
        0 <= j < VALUE_LIMBS && #[trigger] colv(cols, VALUE_START_COL + j, i) != 0
}

/// Row `i` belongs to the final memory state: a candidate whose value is
/// nonzero or whose segment is preinitialized (implicit zeros are left
/// out).
pub open spec fn mem_after_hit(cols: Seq<Vec<u64>>, i: int) -> bool {
    maybe_hit(cols, i) && (value_nonzero(cols, i)
        || crate::segments::is_preinitialized_segment(colv(cols, ADDR_SEGMENT_COL as int, i)))
}

/// The extra value looked up when row `i` changes context or segment: the
/// next row's virtual offset, or zero at the wraparound boundary.
pub open spec fn lookup_extra(cols: Seq<Vec<u64>>, n: int, i: int) -> u64 {
    if i == n - 1 {
        0u64
    } else {
        colv(cols, ADDR_VIRTUAL_COL as int, i + 1)
    }
}

/// How often the first `k` rows feed the value `v` into the range-check
/// lookup: once per row whose range-check value is `v`, and once more per
/// context- or segment-changing row whose extra offset lookup is `v`.
pub open spec fn freq_count(cols: Seq<Vec<u64>>, n: int, v: u64, k: int) -> int
    decreases k,
{
    if k <= 0 {
        0
    } else {
        freq_count(cols, n, v, k - 1) + (if colv(cols, RANGE_CHECK_COL as int, k - 1) == v {
            1int
        } else {
            0int
        }) + (if (colv(cols, CONTEXT_FIRST_CHANGE_COL as int, k - 1) == 1 || colv(
            cols,
            SEGMENT_FIRST_CHANGE_COL as int,
            k - 1,
        ) == 1) && lookup_extra(cols, n, k - 1) == v {
            1int
        } else {
            0int
        })
    }
}

/// How often the first `k` rows look up context `c` in the stale table.
pub open spec fn stale_freq_count(cols: Seq<Vec<u64>>, c: int, k: int) -> int
    decreases k,
{
    if k <= 0 {
        0
    } else {
        stale_freq_count(cols, c, k - 1) + (if colv(cols, ADDR_CONTEXT_COL as int, k - 1) == c
            && stale_hit(cols, k - 1) {
            1int
        } else {
            0int
        })
    }
}

/// Derives, in column-major form, the counter, the lookup frequencies, the
/// stale marks and the final-memory-state membership columns.
#[verifier::rlimit(100)]
pub fn generate_trace_col_major(cols: &mut Vec<Vec<u64>>)
    requires
        cols_wf(old(cols)@, old(cols)@[0]@.len() as int),
        1 <= old(cols)@[0]@.len() <= 0x2000_0000,
        forall|i: int|
            0 <= i < old(cols)@[0]@.len() ==> colv(old(cols)@, RANGE_CHECK_COL as int, i)
                < old(cols)@[0]@.len(),
        forall|i: int|
            0 <= i < old(cols)@[0]@.len() ==> colv(old(cols)@, ADDR_CONTEXT_COL as int, i)
                < old(cols)@[0]@.len(),
        forall|i: int|
            0 <= i < old(cols)@[0]@.len() - 1 && (colv(old(cols)@, CONTEXT_FIRST_CHANGE_COL as int, i)
                == 1 || colv(old(cols)@, SEGMENT_FIRST_CHANGE_COL as int, i) == 1) ==> colv(
                old(cols)@,
                ADDR_VIRTUAL_COL as int,
                i + 1,
            ) < old(cols)@[0]@.len(),
    ensures
        cols_wf(final(cols)@, old(cols)@[0]@.len() as int),
        forall|c: int|
            0 <= c < NUM_COLUMNS && c != COUNTER_COL && c != FREQUENCIES_COL && c
                != STALE_CONTEXT_FREQUENCIES_COL && c != IS_STALE_COL && c
                != MAYBE_IN_MEM_AFTER_COL && c != MEM_AFTER_FILTER_COL ==> #[trigger] final(cols)@[c]
                == old(cols)@[c],
        forall|i: int|
            0 <= i < old(cols)@[0]@.len() ==> colv(final(cols)@, COUNTER_COL as int, i) == i,
        forall|i: int|
            0 <= i < old(cols)@[0]@.len() ==> colv(final(cols)@, IS_STALE_COL as int, i) == (
            if stale_hit(old(cols)@, i) {
                1u64
            } else {
                0u64
            }),
        forall|i: int|
            0 <= i < old(cols)@[0]@.len() ==> colv(final(cols)@, MAYBE_IN_MEM_AFTER_COL as int, i)
                == (if maybe_hit(old(cols)@, i) {
                1u64
            } else {
                0u64
            }),
        forall|i: int|
            0 <= i < old(cols)@[0]@.len() ==> colv(final(cols)@, MEM_AFTER_FILTER_COL as int, i)
                == (if mem_after_hit(old(cols)@, i) {
                1u64
            } else {
                0u64
            }),
        forall|v: int|
            0 <= v < old(cols)@[0]@.len() ==> colv(final(cols)@, FREQUENCIES_COL as int, v) as int
                == freq_count(old(cols)@, old(cols)@[0]@.len() as int, v as u64, old(cols)@[0]@.len() as int),
        forall|c: int|
            0 <= c < old(cols)@[0]@.len() ==> colv(
                final(cols)@,
                STALE_CONTEXT_FREQUENCIES_COL as int,
                c,
            ) as int == stale_freq_count(old(cols)@, c, old(cols)@[0]@.len() as int),
{
    let ghost ocols = cols@;
    let n = cols[0].len();
    let ghost ni = n as int;
    // the counter column is the row index itself
    let mut counter: Vec<u64> = Vec::new();
    let mut i: usize = 0;
    while i < n
        invariant
            0 <= i <= n,
            counter@.len() == i,
            n <= 0x2000_0000,
            forall|k: int| 0 <= k < i ==> counter@[k] == k,
        decreases n - i,
    {
        counter.push(i as u64);
        i = i + 1;
    }
    let mut freq: Vec<u64> = zero_column(n);
    let mut stale_freq: Vec<u64> = zero_column(n);
    let mut is_stale_col: Vec<u64> = zero_column(n);
    let mut maybe_col: Vec<u64> = zero_column(n);
    let mut maf_col: Vec<u64> = zero_column(n);
    let mut i: usize = 0;
    while i < n
        invariant
            0 <= i <= n,
            1 <= n <= 0x2000_0000,
            ni == n as int,
            cols@ == ocols,
            cols_wf(ocols, ni),
            forall|k: int| 0 <= k < ni ==> colv(ocols, RANGE_CHECK_COL as int, k) < n,
            forall|k: int| 0 <= k < ni ==> colv(ocols, ADDR_CONTEXT_COL as int, k) < n,
            forall|k: int|
                0 <= k < ni - 1 && (colv(ocols, CONTEXT_FIRST_CHANGE_COL as int, k) == 1 || colv(
                    ocols,
                    SEGMENT_FIRST_CHANGE_COL as int,
                    k,
                ) == 1) ==> colv(ocols, ADDR_VIRTUAL_COL as int, k + 1) < n,
            freq@.len() == n && stale_freq@.len() == n && is_stale_col@.len() == n
                && maybe_col@.len() == n && maf_col@.len() == n,
            forall|v: int| 0 <= v < ni ==> #[trigger] freq@[v] as int == freq_count(ocols, ni, v as u64, i as int),
            forall|v: int| 0 <= v < ni ==> #[trigger] freq@[v] <= 2 * (i as int),
            forall|c: int|
                0 <= c < ni ==> #[trigger] stale_freq@[c] as int == stale_freq_count(ocols, c, i as int),
            forall|c: int| 0 <= c < ni ==> #[trigger] stale_freq@[c] <= i as int,
            forall|k: int|
                0 <= k < ni ==> #[trigger] is_stale_col@[k] == (if k < i && stale_hit(ocols, k) {
                    1u64
                } else {
                    0u64
                }),
            forall|k: int|
                0 <= k < ni ==> #[trigger] maybe_col@[k] == (if k < i && maybe_hit(ocols, k) {
                    1u64
                } else {
                    0u64
                }),
            forall|k: int|
                0 <= k < ni ==> #[trigger] maf_col@[k] == (if k < i && mem_after_hit(ocols, k) {
                    1u64
                } else {
                    0u64
                }),
        decreases n - i,
    {
        let ghost freq_before = freq@;
        proof {
            assert(colv(ocols, RANGE_CHECK_COL as int, i as int) < n);
            assert(colv(ocols, ADDR_CONTEXT_COL as int, i as int) < n);
            assert(freq@[colv(ocols, RANGE_CHECK_COL as int, i as int) as int] <= 2 * (i as int));
        }
        let x_rc = cols[RANGE_CHECK_COL][i] as usize;
        let f0 = freq[x_rc];
        freq.set(x_rc, f0 + 1);
        let cfc_set = cols[CONTEXT_FIRST_CHANGE_COL][i] == 1;
        let sfc_set = cols[SEGMENT_FIRST_CHANGE_COL][i] == 1;
        if cfc_set || sfc_set {
            if i < n - 1 {
                proof {
                    assert(colv(ocols, CONTEXT_FIRST_CHANGE_COL as int, i as int) == 1 || colv(
                        ocols,
                        SEGMENT_FIRST_CHANGE_COL as int,
                        i as int,
                    ) == 1);
                    assert(colv(ocols, ADDR_VIRTUAL_COL as int, i + 1) < n);
                    assert(freq@[colv(ocols, ADDR_VIRTUAL_COL as int, i + 1) as int] <= 2 * (
                    i as int) + 1);
                }
                let x_val = cols[ADDR_VIRTUAL_COL][i + 1] as usize;
                let f1 = freq[x_val];
                freq.set(x_val, f1 + 1);
            } else {
                proof {
                    assert(freq@[0] <= 2 * (i as int) + 1);
                }
                let f1 = freq[0];
                freq.set(0, f1 + 1);
            }
        }
        proof {
            assert forall|v: int| 0 <= v < ni implies #[trigger] freq@[v] as int == freq_count(
                ocols,
                ni,
                v as u64,
                i + 1,
            ) && freq@[v] <= 2 * (i + 1) by {
                assert(freq_count(ocols, ni, v as u64, i + 1) == freq_count(ocols, ni, v as u64, i as int)
                    + (if colv(ocols, RANGE_CHECK_COL as int, i as int) == v as u64 {
                    1int
                } else {
                    0int
                }) + (if (colv(ocols, CONTEXT_FIRST_CHANGE_COL as int, i as int) == 1 || colv(
                    ocols,
                    SEGMENT_FIRST_CHANGE_COL as int,
                    i as int,
                ) == 1) && lookup_extra(ocols, ni, i as int) == v as u64 {
                    1int
                } else {
                    0int
                }));
                assert(freq_before[v] as int == freq_count(ocols, ni, v as u64, i as int));
            }
        }
        let addr_ctx = cols[ADDR_CONTEXT_COL][i];
        let ctx_us = addr_ctx as usize;
        proof {
            assert(stale_freq@[colv(ocols, ADDR_CONTEXT_COL as int, i as int) as int]
                <= i as int);
        }
        if addr_ctx + 1 == cols[STALE_CONTEXTS_COL][ctx_us] {
            is_stale_col.set(i, 1);
            let s0 = stale_freq[ctx_us];
            stale_freq.set(ctx_us, s0 + 1);
            proof {
                assert(stale_hit(ocols, i as int));
            }
        } else if cols[FILTER_COL][i] == 1 && (cfc_set || sfc_set
            || cols[VIRTUAL_FIRST_CHANGE_COL][i] == 1) {
            maybe_col.set(i, 1);
            let seg = cols[ADDR_SEGMENT_COL][i];
            let nonzero = cols[VALUE_START_COL][i] != 0 || cols[VALUE_START_COL + 1][i] != 0
                || cols[VALUE_START_COL + 2][i] != 0 || cols[VALUE_START_COL + 3][i] != 0
                || cols[VALUE_START_COL + 4][i] != 0 || cols[VALUE_START_COL + 5][i] != 0
                || cols[VALUE_START_COL + 6][i] != 0 || cols[VALUE_START_COL + 7][i] != 0;
            proof {
                assert(!stale_hit(ocols, i as int));
                assert(maybe_hit(ocols, i as int));
                if nonzero {
                    assert(colv(ocols, VALUE_START_COL + 0, i as int) != 0 || colv(
                        ocols,
                        VALUE_START_COL + 1,
                        i as int,
                    ) != 0 || colv(ocols, VALUE_START_COL + 2, i as int) != 0 || colv(
                        ocols,
                        VALUE_START_COL + 3,
                        i as int,
                    ) != 0 || colv(ocols, VALUE_START_COL + 4, i as int) != 0 || colv(
                        ocols,
                        VALUE_START_COL + 5,
                        i as int,
                    ) != 0 || colv(ocols, VALUE_START_COL + 6, i as int) != 0 || colv(
                        ocols,
                        VALUE_START_COL + 7,
                        i as int,
                    ) != 0);
                    assert(value_nonzero(ocols, i as int));
                } else {
                    assert(!value_nonzero(ocols, i as int)) by {
                        assert forall|j: int|
                            0 <= j < VALUE_LIMBS implies #[trigger] colv(
                            ocols,
                            VALUE_START_COL + j,
                            i as int,
                        ) == 0 by {
                            assert(colv(ocols, VALUE_START_COL + 0, i as int) == 0 && colv(
                                ocols,
                                VALUE_START_COL + 1,
                                i as int,
                            ) == 0 && colv(ocols, VALUE_START_COL + 2, i as int) == 0 && colv(
                                ocols,
                                VALUE_START_COL + 3,
                                i as int,
                            ) == 0 && colv(ocols, VALUE_START_COL + 4, i as int) == 0 && colv(
                                ocols,
                                VALUE_START_COL + 5,
                                i as int,
                            ) == 0 && colv(ocols, VALUE_START_COL + 6, i as int) == 0 && colv(
                                ocols,
                                VALUE_START_COL + 7,
                                i as int,
                            ) == 0);
                        }
                    }
                }
            }
            if nonzero || crate::segments::preinitialized_segment(seg) {
                maf_col.set(i, 1);
            }
        } else {
            proof {
                assert(!stale_hit(ocols, i as int));
                assert(!maybe_hit(ocols, i as int));
            }
        }
        proof {
            assert forall|c: int| 0 <= c < ni implies #[trigger] stale_freq@[c] as int
                == stale_freq_count(ocols, c, i + 1) && stale_freq@[c] <= i + 1 by {
                assert(stale_freq_count(ocols, c, i + 1) == stale_freq_count(ocols, c, i as int) + (
                if colv(ocols, ADDR_CONTEXT_COL as int, i as int) == c && stale_hit(
                    ocols,
                    i as int,
                ) {
                    1int
                } else {
                    0int
                }));
            }
        }
        i = i + 1;
    }
    cols.set(COUNTER_COL, counter);
    cols.set(FREQUENCIES_COL, freq);
    cols.set(STALE_CONTEXT_FREQUENCIES_COL, stale_freq);
    cols.set(IS_STALE_COL, is_stale_col);
    cols.set(MAYBE_IN_MEM_AFTER_COL, maybe_col);
    cols.set(MEM_AFTER_FILTER_COL, maf_col);
}

/// A column of zeroes.
fn zero_column(n: usize) -> (v: Vec<u64>)
    ensures
        v@.len() == n,
        forall|k: int| 0 <= k < n ==> v@[k] == 0,
{
    let mut v: Vec<u64> = Vec::new();
    let mut i: usize = 0;
    while i < n
        invariant
            0 <= i <= n,
            v@.len() == i,
            forall|k: int| 0 <= k < i ==> v@[k] == 0,
        decreases n - i,
    {
        v.push(0);
        i = i + 1;
    }
    v
}

/// A row slot marked stale: the table holds the context plus one, and the
/// pruning flag is set.
pub open spec fn stale_marked(r: MemoryColumnsView, i: int) -> MemoryColumnsView {
    MemoryColumnsView { stale_contexts: (i + 1) as u64, is_pruned: 1u64, ..r }
}

/// Writes the stale-context table: each listed context's own row slot
/// receives the context plus one (so that zero can mean "not stale") and
/// its pruning flag.
pub fn insert_stale_contexts(trace_rows: &mut Vec<MemoryColumnsView>, stale_contexts: &Vec<usize>)
    requires
        forall|x: int, y: int|
            0 <= x < y < stale_contexts@.len() ==> stale_contexts@[x] != stale_contexts@[y],
        forall|k: int|
            0 <= k < stale_contexts@.len() ==> #[trigger] stale_contexts@[k] < old(
                trace_rows,
            )@.len(),
        old(trace_rows)@.len() <= 0x2000_0000,
    ensures
        final(trace_rows)@.len() == old(trace_rows)@.len(),
        forall|i: int|
            0 <= i < old(trace_rows)@.len() ==> #[trigger] final(trace_rows)@[i] == (
            if stale_contexts@.contains(i as usize) {
                stale_marked(old(trace_rows)@[i], i)
            } else {
                old(trace_rows)@[i]
            }),
{
    let ghost orig = trace_rows@;
    let m = stale_contexts.len();
    let mut k: usize = 0;
    while k < m
        invariant
            m == stale_contexts@.len(),
            orig.len() == trace_rows@.len(),
            orig.len() <= 0x2000_0000,
            0 <= k <= m,
            forall|x: int, y: int|
                0 <= x < y < m ==> stale_contexts@[x] != stale_contexts@[y],
            forall|j: int| 0 <= j < m ==> #[trigger] stale_contexts@[j] < orig.len(),
            forall|i: int|
                0 <= i < orig.len() ==> #[trigger] trace_rows@[i] == (
                if stale_contexts@.take(k as int).contains(i as usize) {
                    stale_marked(orig[i], i)
                } else {
                    orig[i]
                }),
        decreases m - k,
    {
        let ctx = stale_contexts[k];
        let row = *(&trace_rows[ctx]);
        proof {
            assert(!stale_contexts@.take(k as int).contains(ctx)) by {
                if stale_contexts@.take(k as int).contains(ctx) {
                    let j = choose|j: int|
                        0 <= j < k && #[trigger] stale_contexts@.take(k as int)[j] == ctx;
                    assert(stale_contexts@[j] == ctx);
                    assert(stale_contexts@[k as int] == ctx);
                }
            }
            assert(row == orig[ctx as int]);
        }
        let new_row = MemoryColumnsView {
            stale_contexts: (ctx as u64) + 1,
            is_pruned: 1,
            ..row
        };
        trace_rows.set(ctx, new_row);
        proof {
            assert forall|i: int|
                0 <= i < orig.len() implies #[trigger] trace_rows@[i] == (
            if stale_contexts@.take(k + 1).contains(i as usize) {
                stale_marked(orig[i], i)
            } else {
                orig[i]
            }) by {
                if i == ctx as int {
                    assert(stale_contexts@.take(k + 1)[k as int] == ctx);
                    assert(stale_contexts@.take(k + 1).contains(ctx));
                } else {
                    assert(stale_contexts@.take(k + 1).contains(i as usize)
                        == stale_contexts@.take(k as int).contains(i as usize)) by {
                        if stale_contexts@.take(k + 1).contains(i as usize) {
                            let j = choose|j: int|
                                0 <= j < k + 1 && #[trigger] stale_contexts@.take(k + 1)[j] == i
                                    as usize;
                            if j < k {
                                assert(stale_contexts@.take(k as int)[j] == i as usize);
                            }
                        } else {
                            if stale_contexts@.take(k as int).contains(i as usize) {
                                let j = choose|j: int|
                                    0 <= j < k && #[trigger] stale_contexts@.take(k as int)[j] == i
                                        as usize;
                                assert(stale_contexts@.take(k + 1)[j] == i as usize);
                            }
                        }
                    }
                }
            }
        }
        k = k + 1;
    }
    proof {
        assert(stale_contexts@.take(m as int) =~= stale_contexts@);
    }
}

/// Whether the list holds the same entry twice.
pub fn has_duplicate(v: &Vec<usize>) -> (r: bool)
    ensures
        r == exists|x: int, y: int| 0 <= x < y < v@.len() && v@[x] == v@[y],
{
    let m = v.len();
    let mut x: usize = 0;
    while x < m
        invariant
            0 <= x <= m,
            m == v@.len(),
            forall|a: int, b: int| 0 <= a < b < v@.len() && a < x ==> v@[a] != v@[b],
        decreases m - x,
    {
        let mut y: usize = x + 1;
        while y < m
            invariant
                0 <= x < y <= m,
                m == v@.len(),
                forall|b: int| x < b < y ==> v@[x as int] != v@[b],
            decreases m - y,
        {
            if v[x] == v[y] {
                proof {
                    assert(v@[x as int] == v@[y as int]);
                }
                return true;
            }
            y = y + 1;
        }
        x = x + 1;
    }
    false
}

/// One final-memory-state row: a leading one, the address, and the value.
pub open spec fn mem_after_entry(cols: Seq<Vec<u64>>, i: int) -> Seq<u64> {
    seq![
        1u64,
        colv(cols, ADDR_CONTEXT_COL as int, i),
        colv(cols, ADDR_SEGMENT_COL as int, i),
        colv(cols, ADDR_VIRTUAL_COL as int, i),
        colv(cols, VALUE_START_COL + 0, i),
        colv(cols, VALUE_START_COL + 1, i),
        colv(cols, VALUE_START_COL + 2, i),
        colv(cols, VALUE_START_COL + 3, i),
        colv(cols, VALUE_START_COL + 4, i),
        colv(cols, VALUE_START_COL + 5, i),
        colv(cols, VALUE_START_COL + 6, i),
        colv(cols, VALUE_START_COL + 7, i),
    ]
}

/// The final memory state of the first `k` rows: the entries of the rows
/// whose membership flag is set, in row order.
pub open spec fn mem_after_rows_spec(cols: Seq<Vec<u64>>, k: int) -> Seq<Seq<u64>>
    decreases k,
{
    if k <= 0 {
        Seq::empty()
    } else {
        let prev = mem_after_rows_spec(cols, k - 1);
        if colv(cols, MEM_AFTER_FILTER_COL as int, k - 1) == 1 {
            prev.push(mem_after_entry(cols, k - 1))
        } else {
            prev
        }
    }
}

/// Rows `i` and `i + 1` of the column-major trace are in sorting-key order.
pub open spec fn col_pair_le(cols: Seq<Vec<u64>>, i: int) -> bool {
    let c0 = colv(cols, ADDR_CONTEXT_COL as int, i);
    let c1 = colv(cols, ADDR_CONTEXT_COL as int, i + 1);
    let s0 = colv(cols, ADDR_SEGMENT_COL as int, i);
    let s1 = colv(cols, ADDR_SEGMENT_COL as int, i + 1);
    let v0 = colv(cols, ADDR_VIRTUAL_COL as int, i);
    let v1 = colv(cols, ADDR_VIRTUAL_COL as int, i + 1);
    let t0 = colv(cols, TIMESTAMP_COL as int, i);
    let t1 = colv(cols, TIMESTAMP_COL as int, i + 1);
    c0 < c1 || (c0 == c1 && (s0 < s1 || (s0 == s1 && (v0 < v1 || (v0 == v1 && t0 <= t1)))))
}

/// Rows `i` and `i + 1` of the column-major trace are in strictly
/// increasing sorting-key order.
pub open spec fn col_pair_lt(cols: Seq<Vec<u64>>, i: int) -> bool {
    let c0 = colv(cols, ADDR_CONTEXT_COL as int, i);
    let c1 = colv(cols, ADDR_CONTEXT_COL as int, i + 1);
    let s0 = colv(cols, ADDR_SEGMENT_COL as int, i);
    let s1 = colv(cols, ADDR_SEGMENT_COL as int, i + 1);
    let v0 = colv(cols, ADDR_VIRTUAL_COL as int, i);
    let v1 = colv(cols, ADDR_VIRTUAL_COL as int, i + 1);
    let t0 = colv(cols, TIMESTAMP_COL as int, i);
    let t1 = colv(cols, TIMESTAMP_COL as int, i + 1);
    c0 < c1 || (c0 == c1 && (s0 < s1 || (s0 == s1 && (v0 < v1 || (v0 == v1 && t0 < t1)))))
}

/// Rows `i` and `i + 1` of the column-major trace carry the same
/// operation: flag, kind, address, timestamp and value agree (repeated
/// padding rows are such).
pub open spec fn col_data_eq(cols: Seq<Vec<u64>>, i: int) -> bool {
    &&& colv(cols, FILTER_COL as int, i) == colv(cols, FILTER_COL as int, i + 1)
    &&& colv(cols, IS_READ_COL as int, i) == colv(cols, IS_READ_COL as int, i + 1)
    &&& colv(cols, ADDR_CONTEXT_COL as int, i) == colv(cols, ADDR_CONTEXT_COL as int, i + 1)
    &&& colv(cols, ADDR_SEGMENT_COL as int, i) == colv(cols, ADDR_SEGMENT_COL as int, i + 1)
    &&& colv(cols, ADDR_VIRTUAL_COL as int, i) == colv(cols, ADDR_VIRTUAL_COL as int, i + 1)
    &&& colv(cols, TIMESTAMP_COL as int, i) == colv(cols, TIMESTAMP_COL as int, i + 1)
    &&& (forall|j: int|
        0 <= j < VALUE_LIMBS ==> #[trigger] colv(cols, VALUE_START_COL + j, i) == colv(
            cols,
            VALUE_START_COL + j,
            i + 1,
        ))
}

/// Row `i` of the column-major trace carries exactly the operation's data.
pub open spec fn col_matches_op(cols: Seq<Vec<u64>>, i: int, op: MemoryOp) -> bool {
    &&& colv(cols, FILTER_COL as int, i) == (if op.filter {
        1u64
    } else {
        0u64
    })
    &&& colv(cols, IS_READ_COL as int, i) == (if op.kind == MemoryOpKind::Read {
        1u64
    } else {
        0u64
    })
    &&& colv(cols, ADDR_CONTEXT_COL as int, i) == op.address.context
    &&& colv(cols, ADDR_SEGMENT_COL as int, i) == op.address.segment
    &&& colv(cols, ADDR_VIRTUAL_COL as int, i) == op.address.virt
    &&& colv(cols, TIMESTAMP_COL as int, i) == op.timestamp
    &&& (forall|j: int|
        0 <= j < VALUE_LIMBS ==> #[trigger] colv(cols, VALUE_START_COL + j, i) == op.value@[j]
            as u64)
}

/// The trace columns carry, row by row, some sorted gap-bounded operation
/// list that keeps exactly the real operations of the input.
pub open spec fn cols_backed_by(
    cols: Seq<Vec<u64>>,
    n: int,
    padded: Seq<MemoryOp>,
    input: Seq<MemoryOp>,
) -> bool {
    &&& padded.len() == n
    &&& sorted_ops(padded)
    &&& trace_ops_bounded(padded)
    &&& (forall|i: int| 0 <= i < n ==> col_matches_op(cols, i, #[trigger] padded[i]))
    &&& active_ops(padded).to_multiset() == active_ops(input).to_multiset()
}

/// Everything `generate_trace` guarantees of a built trace.
#[verifier::opaque]
pub open spec fn memory_trace_ok(
    cols: Seq<Vec<u64>>,
    mem_after: Seq<Seq<u64>>,
    unpadded: int,
    input: Seq<MemoryOp>,
    stale: Seq<usize>,
) -> bool {
    let n = cols[0]@.len() as int;
    &&& cols_wf(cols, n)
    &&& crate::pow2::is_power_of_two(n as u64)
    &&& n <= 0x2000_0000
    &&& 1 <= unpadded < n
    &&& input.len() <= unpadded
    &&& (forall|i: int| 0 <= i < n ==> colv(cols, COUNTER_COL as int, i) == i)
    &&& (forall|i: int| 0 <= i < n ==> colv(cols, RANGE_CHECK_COL as int, i) < n)
    &&& (forall|i: int| 0 <= i < n - 1 ==> col_pair_le(cols, i))
    &&& (forall|i: int|
        0 <= i < n ==> colv(cols, TIMESTAMP_INV_COL as int, i)
            == crate::field::fe_inv_or_zero_spec(colv(cols, TIMESTAMP_COL as int, i)))
    &&& (forall|i: int|
        #![trigger colv(cols, FILTER_COL as int, i)]
        unpadded <= i < n ==> (colv(cols, FILTER_COL as int, i) == 0 && colv(
            cols,
            IS_READ_COL as int,
            i,
        ) == 1 && colv(cols, ADDR_CONTEXT_COL as int, i) == colv(
            cols,
            ADDR_CONTEXT_COL as int,
            unpadded - 1,
        ) && colv(cols, ADDR_SEGMENT_COL as int, i) == colv(
            cols,
            ADDR_SEGMENT_COL as int,
            unpadded - 1,
        ) && colv(cols, ADDR_VIRTUAL_COL as int, i) == colv(
            cols,
            ADDR_VIRTUAL_COL as int,
            unpadded - 1,
        ) + 1 && colv(cols, TIMESTAMP_COL as int, i) == colv(
            cols,
            TIMESTAMP_COL as int,
            unpadded - 1,
        ) + 1 && (forall|j: int|
            0 <= j < VALUE_LIMBS ==> #[trigger] colv(cols, VALUE_START_COL + j, i) == 0)))
    &&& (crate::ops::inactive_are_reads(input) ==> (forall|i: int|
        0 <= i < n && colv(cols, FILTER_COL as int, i) == 0 ==> colv(
            cols,
            IS_READ_COL as int,
            i,
        ) == 1))
    &&& (crate::ops::ties_identical(input) ==> (forall|i: int|
        0 <= i < n - 1 ==> (col_pair_lt(cols, i) || col_data_eq(cols, i))))
    &&& (forall|x: int, y: int| 0 <= x < y < stale.len() ==> stale[x] != stale[y])
    &&& (forall|k: int| 0 <= k < stale.len() ==> #[trigger] stale[k] < n)
    &&& (forall|i: int|
        0 <= i < n ==> colv(cols, STALE_CONTEXTS_COL as int, i) == (if stale.contains(i as usize) {
            (i + 1) as u64
        } else {
            0u64
        }))
    &&& (forall|i: int|
        0 <= i < n ==> colv(cols, IS_PRUNED_COL as int, i) == (if stale.contains(i as usize) {
            1u64
        } else {
            0u64
        }))
    &&& (forall|i: int|
        0 <= i < n ==> colv(cols, IS_STALE_COL as int, i) == (if stale_hit(cols, i) {
            1u64
        } else {
            0u64
        }))
    &&& (forall|i: int|
        0 <= i < n ==> colv(cols, MAYBE_IN_MEM_AFTER_COL as int, i) == (if maybe_hit(cols, i) {
            1u64
        } else {
            0u64
        }))
    &&& (forall|i: int|
        0 <= i < n ==> colv(cols, MEM_AFTER_FILTER_COL as int, i) == (if mem_after_hit(cols, i) {
            1u64
        } else {
            0u64
        }))
    &&& (forall|v: int|
        0 <= v < n ==> colv(cols, FREQUENCIES_COL as int, v) as int == freq_count(
            cols,
            n,
            v as u64,
            n,
        ))
    &&& (forall|c: int|
        0 <= c < n ==> colv(cols, STALE_CONTEXT_FREQUENCIES_COL as int, c) as int
            == stale_freq_count(cols, c, n))
    &&& mem_after == mem_after_rows_spec(cols, n)
    &&& (exists|padded: Seq<MemoryOp>| cols_backed_by(cols, n, padded, input))
    &&& (well_formed_log(input) ==> {
        &&& (forall|i: int|
            #![trigger colv(cols, IS_READ_COL as int, i + 1)]
            0 <= i < n - 1 && colv(cols, ADDR_CONTEXT_COL as int, i) == colv(
                cols,
                ADDR_CONTEXT_COL as int,
                i + 1,
            ) && colv(cols, ADDR_SEGMENT_COL as int, i) == colv(cols, ADDR_SEGMENT_COL as int, i + 1)
                && colv(cols, ADDR_VIRTUAL_COL as int, i) == colv(cols, ADDR_VIRTUAL_COL as int, i + 1)
                && colv(cols, IS_READ_COL as int, i + 1) == 1 ==> (forall|j: int|
                0 <= j < VALUE_LIMBS ==> #[trigger] colv(cols, VALUE_START_COL + j, i + 1) == colv(
                    cols,
                    VALUE_START_COL + j,
                    i,
                )))
        &&& (forall|i: int|
            #![trigger colv(cols, IS_READ_COL as int, i + 1)]
            0 <= i < n - 1 && !(colv(cols, ADDR_CONTEXT_COL as int, i) == colv(
                cols,
                ADDR_CONTEXT_COL as int,
                i + 1,
            ) && colv(cols, ADDR_SEGMENT_COL as int, i) == colv(cols, ADDR_SEGMENT_COL as int, i + 1)
                && colv(cols, ADDR_VIRTUAL_COL as int, i) == colv(cols, ADDR_VIRTUAL_COL as int, i + 1))
                && colv(cols, IS_READ_COL as int, i + 1) == 1
                && !crate::segments::is_preinitialized_segment(
                colv(cols, ADDR_SEGMENT_COL as int, i + 1),
            ) ==> (forall|j: int|
                0 <= j < VALUE_LIMBS ==> #[trigger] colv(cols, VALUE_START_COL + j, i + 1) == 0))
    })
}

/// The range-check lookup counts depend only on the columns they read.
proof fn lemma_freq_count_transfer(c1: Seq<Vec<u64>>, c2: Seq<Vec<u64>>, n: int, v: u64, k: int)
    requires
        c1[RANGE_CHECK_COL as int] == c2[RANGE_CHECK_COL as int],
        c1[CONTEXT_FIRST_CHANGE_COL as int] == c2[CONTEXT_FIRST_CHANGE_COL as int],
        c1[SEGMENT_FIRST_CHANGE_COL as int] == c2[SEGMENT_FIRST_CHANGE_COL as int],
        c1[ADDR_VIRTUAL_COL as int] == c2[ADDR_VIRTUAL_COL as int],
    ensures
        freq_count(c1, n, v, k) == freq_count(c2, n, v, k),
    decreases k,
{
    if k > 0 {
        lemma_freq_count_transfer(c1, c2, n, v, k - 1);
    }
}

/// The stale-context lookup counts depend only on the columns they read.
proof fn lemma_stale_freq_count_transfer(c1: Seq<Vec<u64>>, c2: Seq<Vec<u64>>, c: int, k: int)
    requires
        c1[ADDR_CONTEXT_COL as int] == c2[ADDR_CONTEXT_COL as int],
        c1[STALE_CONTEXTS_COL as int] == c2[STALE_CONTEXTS_COL as int],
    ensures
        stale_freq_count(c1, c, k) == stale_freq_count(c2, c, k),
    decreases k,
{
    if k > 0 {
        lemma_stale_freq_count_transfer(c1, c2, c, k - 1);
        assert(stale_hit(c1, k - 1) == stale_hit(c2, k - 1));
    }
}

/// The memory-before entry `e` as an operation: an initial-state write at
/// timestamp zero.
pub open spec fn mem_before_op(e: (MemoryAddress, [u32; VALUE_LIMBS])) -> MemoryOp {
    MemoryOp { filter: true, timestamp: 0, address: e.0, kind: MemoryOpKind::Write, value: e.1 }
}

/// The full operation log handed to the pipeline: the runtime operations
/// followed by the initial state as timestamp-zero writes.
pub open spec fn combined_input(
    ops: Seq<MemoryOp>,
    mb: Seq<(MemoryAddress, [u32; VALUE_LIMBS])>,
) -> Seq<MemoryOp> {
    ops + mb.map_values(|e: (MemoryAddress, [u32; VALUE_LIMBS])| mem_before_op(e))
}

/// The finished trace: the column-major table, the extracted final memory
/// state, and the count of rows before padding.
#[derive(Debug)]
pub struct MemoryTrace {
    pub columns: Vec<Vec<u64>>,
    pub mem_after_values: Vec<Vec<u64>>,
    pub unpadded_length: usize,
}

/// Facts about the columns that mirror the marked rows.
#[verifier::rlimit(100)]
proof fn lemma_cols_mirror(
    rows: Seq<MemoryColumnsView>,
    marked: Seq<MemoryColumnsView>,
    cols0: Seq<Vec<u64>>,
    input: Seq<MemoryOp>,
    stale: Seq<usize>,
    unpadded: int,
)
    requires
        row_major_output_ok(rows, input, unpadded),
        marked.len() == rows.len(),
        forall|i: int|
            0 <= i < rows.len() ==> #[trigger] marked[i] == (if stale.contains(i as usize) {
                stale_marked(rows[i], i)
            } else {
                rows[i]
            }),
        rows.len() <= 0x2000_0000,
        cols_wf(cols0, rows.len() as int),
        forall|c: int, i: int|
            0 <= c < NUM_COLUMNS && 0 <= i < rows.len() ==> #[trigger] colv(cols0, c, i)
                == col_of_row(marked[i], c),
    ensures
        forall|i: int| 0 <= i < rows.len() ==> colv(cols0, RANGE_CHECK_COL as int, i) < rows.len(),
        forall|i: int| 0 <= i < rows.len() - 1 ==> col_pair_le(cols0, i),
        forall|i: int|
            0 <= i < rows.len() ==> colv(cols0, STALE_CONTEXTS_COL as int, i) == (
            if stale.contains(i as usize) {
                (i + 1) as u64
            } else {
                0u64
            }),
        forall|i: int|
            0 <= i < rows.len() ==> colv(cols0, IS_PRUNED_COL as int, i) == (if stale.contains(
                i as usize,
            ) {
                1u64
            } else {
                0u64
            }),
        forall|i: int|
            0 <= i < rows.len() - 1 && (colv(cols0, CONTEXT_FIRST_CHANGE_COL as int, i) == 1
                || colv(cols0, SEGMENT_FIRST_CHANGE_COL as int, i) == 1) ==> colv(
                cols0,
                ADDR_VIRTUAL_COL as int,
                i + 1,
            ) < rows.len(),
        forall|i: int|
            0 <= i < rows.len() ==> colv(cols0, TIMESTAMP_INV_COL as int, i)
                == crate::field::fe_inv_or_zero_spec(colv(cols0, TIMESTAMP_COL as int, i)),
        forall|i: int|
            #![trigger colv(cols0, FILTER_COL as int, i)]
            unpadded <= i < rows.len() ==> (colv(cols0, FILTER_COL as int, i) == 0 && colv(
                cols0,
                IS_READ_COL as int,
                i,
            ) == 1 && colv(cols0, ADDR_CONTEXT_COL as int, i) == colv(
                cols0,
                ADDR_CONTEXT_COL as int,
                unpadded - 1,
            ) && colv(cols0, ADDR_SEGMENT_COL as int, i) == colv(
                cols0,
                ADDR_SEGMENT_COL as int,
                unpadded - 1,
            ) && colv(cols0, ADDR_VIRTUAL_COL as int, i) == colv(
                cols0,
                ADDR_VIRTUAL_COL as int,
                unpadded - 1,
            ) + 1 && colv(cols0, TIMESTAMP_COL as int, i) == colv(
                cols0,
                TIMESTAMP_COL as int,
                unpadded - 1,
            ) + 1 && (forall|j: int|
                0 <= j < VALUE_LIMBS ==> #[trigger] colv(cols0, VALUE_START_COL + j, i) == 0)),
        crate::ops::inactive_are_reads(input) ==> (forall|i: int|
            0 <= i < rows.len() && colv(cols0, FILTER_COL as int, i) == 0 ==> colv(
                cols0,
                IS_READ_COL as int,
                i,
            ) == 1),
        crate::ops::ties_identical(input) ==> (forall|i: int|
            0 <= i < rows.len() - 1 ==> (col_pair_lt(cols0, i) || col_data_eq(cols0, i))),
        exists|padded: Seq<MemoryOp>|
            cols_backed_by(cols0, rows.len() as int, padded, input),
        well_formed_log(input) ==> {
            &&& (forall|i: int|
                #![trigger colv(cols0, IS_READ_COL as int, i + 1)]
                0 <= i < rows.len() - 1 && colv(cols0, ADDR_CONTEXT_COL as int, i) == colv(
                    cols0,
                    ADDR_CONTEXT_COL as int,
                    i + 1,
                ) && colv(cols0, ADDR_SEGMENT_COL as int, i) == colv(
                    cols0,
                    ADDR_SEGMENT_COL as int,
                    i + 1,
                ) && colv(cols0, ADDR_VIRTUAL_COL as int, i) == colv(
                    cols0,
                    ADDR_VIRTUAL_COL as int,
                    i + 1,
                ) && colv(cols0, IS_READ_COL as int, i + 1) == 1 ==> (forall|j: int|
                    0 <= j < VALUE_LIMBS ==> #[trigger] colv(cols0, VALUE_START_COL + j, i + 1)
                        == colv(cols0, VALUE_START_COL + j, i)))
            &&& (forall|i: int|
                #![trigger colv(cols0, IS_READ_COL as int, i + 1)]
                0 <= i < rows.len() - 1 && !(colv(cols0, ADDR_CONTEXT_COL as int, i) == colv(
                    cols0,
                    ADDR_CONTEXT_COL as int,
                    i + 1,
                ) && colv(cols0, ADDR_SEGMENT_COL as int, i) == colv(
                    cols0,
                    ADDR_SEGMENT_COL as int,
                    i + 1,
                ) && colv(cols0, ADDR_VIRTUAL_COL as int, i) == colv(
                    cols0,
                    ADDR_VIRTUAL_COL as int,
                    i + 1,
                )) && colv(cols0, IS_READ_COL as int, i + 1) == 1
                && !crate::segments::is_preinitialized_segment(
                    colv(cols0, ADDR_SEGMENT_COL as int, i + 1),
                ) ==> (forall|j: int|
                    0 <= j < VALUE_LIMBS ==> #[trigger] colv(cols0, VALUE_START_COL + j, i + 1)
                        == 0))
        },
{
    reveal(row_major_output_ok);
    let n = rows.len() as int;
    // every data column of a marked row is the row's own
    assert forall|c: int, i: int|
        0 <= c < NUM_COLUMNS && 0 <= i < n && c != STALE_CONTEXTS_COL && c
            != IS_PRUNED_COL implies #[trigger] colv(cols0, c, i) == col_of_row(rows[i], c) by {
        if stale.contains(i as usize) {
            assert(marked[i] == stale_marked(rows[i], i));
        }
    }
    assert forall|i: int| 0 <= i < n implies colv(cols0, RANGE_CHECK_COL as int, i) < n by {
        assert(colv(cols0, RANGE_CHECK_COL as int, i) == col_of_row(rows[i], RANGE_CHECK_COL as int));
        assert(built_row_ok(rows[i], n));
    }
    assert forall|i: int| 0 <= i < n - 1 implies col_pair_le(cols0, i) by {
        assert(row_key_le(rows[i], rows[i + 1]));
        assert(colv(cols0, ADDR_CONTEXT_COL as int, i) == col_of_row(rows[i], ADDR_CONTEXT_COL as int));
        assert(colv(cols0, ADDR_CONTEXT_COL as int, i + 1) == col_of_row(
            rows[i + 1],
            ADDR_CONTEXT_COL as int,
        ));
        assert(colv(cols0, ADDR_SEGMENT_COL as int, i) == col_of_row(rows[i], ADDR_SEGMENT_COL as int));
        assert(colv(cols0, ADDR_SEGMENT_COL as int, i + 1) == col_of_row(
            rows[i + 1],
            ADDR_SEGMENT_COL as int,
        ));
        assert(colv(cols0, ADDR_VIRTUAL_COL as int, i) == col_of_row(rows[i], ADDR_VIRTUAL_COL as int));
        assert(colv(cols0, ADDR_VIRTUAL_COL as int, i + 1) == col_of_row(
            rows[i + 1],
            ADDR_VIRTUAL_COL as int,
        ));
        assert(colv(cols0, TIMESTAMP_COL as int, i) == col_of_row(rows[i], TIMESTAMP_COL as int));
        assert(colv(cols0, TIMESTAMP_COL as int, i + 1) == col_of_row(
            rows[i + 1],
            TIMESTAMP_COL as int,
        ));
    }
    assert forall|i: int|
        0 <= i < n implies colv(cols0, STALE_CONTEXTS_COL as int, i) == (if stale.contains(
        i as usize,
    ) {
        (i + 1) as u64
    } else {
        0u64
    }) && colv(cols0, IS_PRUNED_COL as int, i) == (if stale.contains(i as usize) {
        1u64
    } else {
        0u64
    }) by {
        assert(built_row_ok(rows[i], n));
        if stale.contains(i as usize) {
            assert(marked[i] == stale_marked(rows[i], i));
        } else {
            assert(marked[i] == rows[i]);
        }
    }
    assert forall|i: int|
        0 <= i < n - 1 && (colv(cols0, CONTEXT_FIRST_CHANGE_COL as int, i) == 1 || colv(
            cols0,
            SEGMENT_FIRST_CHANGE_COL as int,
            i,
        ) == 1) implies colv(cols0, ADDR_VIRTUAL_COL as int, i + 1) < n by {
        assert(colv(cols0, CONTEXT_FIRST_CHANGE_COL as int, i) == col_of_row(
            rows[i],
            CONTEXT_FIRST_CHANGE_COL as int,
        ));
        assert(colv(cols0, SEGMENT_FIRST_CHANGE_COL as int, i) == col_of_row(
            rows[i],
            SEGMENT_FIRST_CHANGE_COL as int,
        ));
        assert(colv(cols0, ADDR_VIRTUAL_COL as int, i + 1) == col_of_row(
            rows[i + 1],
            ADDR_VIRTUAL_COL as int,
        ));
    }
    let padded = choose|padded: Seq<MemoryOp>| rows_backed_by(rows, padded, input);
    assert(cols_backed_by(cols0, n, padded, input)) by {
        assert forall|i: int| 0 <= i < n implies col_matches_op(cols0, i, #[trigger] padded[i]) by {
            assert(row_matches_op(rows[i], padded[i]));
            assert(colv(cols0, FILTER_COL as int, i) == col_of_row(rows[i], FILTER_COL as int));
            assert(colv(cols0, IS_READ_COL as int, i) == col_of_row(rows[i], IS_READ_COL as int));
            assert(colv(cols0, ADDR_CONTEXT_COL as int, i) == col_of_row(
                rows[i],
                ADDR_CONTEXT_COL as int,
            ));
            assert(colv(cols0, ADDR_SEGMENT_COL as int, i) == col_of_row(
                rows[i],
                ADDR_SEGMENT_COL as int,
            ));
            assert(colv(cols0, ADDR_VIRTUAL_COL as int, i) == col_of_row(
                rows[i],
                ADDR_VIRTUAL_COL as int,
            ));
            assert(colv(cols0, TIMESTAMP_COL as int, i) == col_of_row(rows[i], TIMESTAMP_COL as int));
            assert forall|j: int| 0 <= j < VALUE_LIMBS implies #[trigger] colv(
                cols0,
                VALUE_START_COL + j,
                i,
            ) == padded[i].value@[j] as u64 by {
                assert(colv(cols0, VALUE_START_COL + j, i) == col_of_row(
                    rows[i],
                    VALUE_START_COL + j,
                ));
                assert(col_of_row(rows[i], VALUE_START_COL + j) == rows[i].value_limbs[j]);
                assert(rows[i].value_limbs[j] == padded[i].value@[j] as u64);
            }
        }
    }
    // the timestamp-inverse column mirrors the rows
    assert forall|i: int|
        0 <= i < n implies colv(cols0, TIMESTAMP_INV_COL as int, i)
        == crate::field::fe_inv_or_zero_spec(colv(cols0, TIMESTAMP_COL as int, i)) by {
        assert(colv(cols0, TIMESTAMP_INV_COL as int, i) == col_of_row(
            rows[i],
            TIMESTAMP_INV_COL as int,
        ));
        assert(colv(cols0, TIMESTAMP_COL as int, i) == col_of_row(rows[i], TIMESTAMP_COL as int));
    }
    // the padding tail mirrors the rows
    assert forall|i: int|
        #![trigger colv(cols0, FILTER_COL as int, i)]
        unpadded <= i < n implies (colv(cols0, FILTER_COL as int, i) == 0 && colv(
        cols0,
        IS_READ_COL as int,
        i,
    ) == 1 && colv(cols0, ADDR_CONTEXT_COL as int, i) == colv(
        cols0,
        ADDR_CONTEXT_COL as int,
        unpadded - 1,
    ) && colv(cols0, ADDR_SEGMENT_COL as int, i) == colv(
        cols0,
        ADDR_SEGMENT_COL as int,
        unpadded - 1,
    ) && colv(cols0, ADDR_VIRTUAL_COL as int, i) == colv(
        cols0,
        ADDR_VIRTUAL_COL as int,
        unpadded - 1,
    ) + 1 && colv(cols0, TIMESTAMP_COL as int, i) == colv(
        cols0,
        TIMESTAMP_COL as int,
        unpadded - 1,
    ) + 1 && (forall|j: int|
        0 <= j < VALUE_LIMBS ==> #[trigger] colv(cols0, VALUE_START_COL + j, i) == 0)) by {
        assert(colv(cols0, FILTER_COL as int, i) == col_of_row(rows[i], FILTER_COL as int));
        assert(colv(cols0, IS_READ_COL as int, i) == col_of_row(rows[i], IS_READ_COL as int));
        assert(colv(cols0, ADDR_CONTEXT_COL as int, i) == col_of_row(
            rows[i],
            ADDR_CONTEXT_COL as int,
        ));
        assert(colv(cols0, ADDR_SEGMENT_COL as int, i) == col_of_row(
            rows[i],
            ADDR_SEGMENT_COL as int,
        ));
        assert(colv(cols0, ADDR_VIRTUAL_COL as int, i) == col_of_row(
            rows[i],
            ADDR_VIRTUAL_COL as int,
        ));
        assert(colv(cols0, TIMESTAMP_COL as int, i) == col_of_row(rows[i], TIMESTAMP_COL as int));
        assert(colv(cols0, ADDR_CONTEXT_COL as int, unpadded - 1) == col_of_row(
            rows[unpadded - 1],
            ADDR_CONTEXT_COL as int,
        ));
        assert(colv(cols0, ADDR_SEGMENT_COL as int, unpadded - 1) == col_of_row(
            rows[unpadded - 1],
            ADDR_SEGMENT_COL as int,
        ));
        assert(colv(cols0, ADDR_VIRTUAL_COL as int, unpadded - 1) == col_of_row(
            rows[unpadded - 1],
            ADDR_VIRTUAL_COL as int,
        ));
        assert(colv(cols0, TIMESTAMP_COL as int, unpadded - 1) == col_of_row(
            rows[unpadded - 1],
            TIMESTAMP_COL as int,
        ));
        assert forall|j: int| 0 <= j < VALUE_LIMBS implies #[trigger] colv(
            cols0,
            VALUE_START_COL + j,
            i,
        ) == 0 by {
            assert(colv(cols0, VALUE_START_COL + j, i) == col_of_row(
                rows[i],
                VALUE_START_COL + j,
            ));
            assert(rows[i].value_limbs[j] == 0);
        }
    }
    // synthetic rows read, under the input's own dummy hypothesis
    if crate::ops::inactive_are_reads(input) {
        assert forall|i: int|
            0 <= i < n && colv(cols0, FILTER_COL as int, i) == 0 implies colv(
            cols0,
            IS_READ_COL as int,
            i,
        ) == 1 by {
            assert(colv(cols0, FILTER_COL as int, i) == col_of_row(rows[i], FILTER_COL as int));
            assert(colv(cols0, IS_READ_COL as int, i) == col_of_row(rows[i], IS_READ_COL as int));
        }
    }
    // strict order for tie-free logs
    if crate::ops::ties_identical(input) {
        assert forall|i: int|
            0 <= i < n - 1 implies (col_pair_lt(cols0, i) || col_data_eq(cols0, i)) by {
            assert(row_key_lt(rows[i], rows[i + 1]) || row_data_eq(rows[i], rows[i + 1]));
            assert(colv(cols0, FILTER_COL as int, i) == col_of_row(rows[i], FILTER_COL as int));
            assert(colv(cols0, FILTER_COL as int, i + 1) == col_of_row(
                rows[i + 1],
                FILTER_COL as int,
            ));
            assert(colv(cols0, IS_READ_COL as int, i) == col_of_row(rows[i], IS_READ_COL as int));
            assert(colv(cols0, IS_READ_COL as int, i + 1) == col_of_row(
                rows[i + 1],
                IS_READ_COL as int,
            ));
            assert(colv(cols0, ADDR_CONTEXT_COL as int, i) == col_of_row(
                rows[i],
                ADDR_CONTEXT_COL as int,
            ));
            assert(colv(cols0, ADDR_CONTEXT_COL as int, i + 1) == col_of_row(
                rows[i + 1],
                ADDR_CONTEXT_COL as int,
            ));
            assert(colv(cols0, ADDR_SEGMENT_COL as int, i) == col_of_row(
                rows[i],
                ADDR_SEGMENT_COL as int,
            ));
            assert(colv(cols0, ADDR_SEGMENT_COL as int, i + 1) == col_of_row(
                rows[i + 1],
                ADDR_SEGMENT_COL as int,
            ));
            assert(colv(cols0, ADDR_VIRTUAL_COL as int, i) == col_of_row(
                rows[i],
                ADDR_VIRTUAL_COL as int,
            ));
            assert(colv(cols0, ADDR_VIRTUAL_COL as int, i + 1) == col_of_row(
                rows[i + 1],
                ADDR_VIRTUAL_COL as int,
            ));
            assert(colv(cols0, TIMESTAMP_COL as int, i) == col_of_row(
                rows[i],
                TIMESTAMP_COL as int,
            ));
            assert(colv(cols0, TIMESTAMP_COL as int, i + 1) == col_of_row(
                rows[i + 1],
                TIMESTAMP_COL as int,
            ));
            if !row_key_lt(rows[i], rows[i + 1]) {
                assert(col_data_eq(cols0, i)) by {
                    assert forall|j: int| 0 <= j < VALUE_LIMBS implies #[trigger] colv(
                        cols0,
                        VALUE_START_COL + j,
                        i,
                    ) == colv(cols0, VALUE_START_COL + j, i + 1) by {
                        assert(colv(cols0, VALUE_START_COL + j, i) == col_of_row(
                            rows[i],
                            VALUE_START_COL + j,
                        ));
                        assert(colv(cols0, VALUE_START_COL + j, i + 1) == col_of_row(
                            rows[i + 1],
                            VALUE_START_COL + j,
                        ));
                        assert(rows[i].value_limbs[j] == rows[i + 1].value_limbs[j]);
                    }
                }
            }
        }
    }
    if well_formed_log(input) {
        assert forall|i: int|
            0 <= i < n - 1 && colv(cols0, ADDR_CONTEXT_COL as int, i) == colv(
                cols0,
                ADDR_CONTEXT_COL as int,
                i + 1,
            ) && colv(cols0, ADDR_SEGMENT_COL as int, i) == colv(
                cols0,
                ADDR_SEGMENT_COL as int,
                i + 1,
            ) && colv(cols0, ADDR_VIRTUAL_COL as int, i) == colv(
                cols0,
                ADDR_VIRTUAL_COL as int,
                i + 1,
            ) && #[trigger] colv(cols0, IS_READ_COL as int, i + 1) == 1 implies (forall|j: int|
            0 <= j < VALUE_LIMBS ==> #[trigger] colv(cols0, VALUE_START_COL + j, i + 1) == colv(
                cols0,
                VALUE_START_COL + j,
                i,
            )) by {
            assert(rows[i].addr_context == rows[i + 1].addr_context && rows[i].addr_segment
                == rows[i + 1].addr_segment && rows[i].addr_virtual == rows[i + 1].addr_virtual
                && rows[i + 1].is_read == 1);
            assert forall|j: int| 0 <= j < VALUE_LIMBS implies #[trigger] colv(
                cols0,
                VALUE_START_COL + j,
                i + 1,
            ) == colv(cols0, VALUE_START_COL + j, i) by {
                assert(rows[i + 1].value_limbs[j] == rows[i].value_limbs[j]);
                assert(colv(cols0, VALUE_START_COL + j, i) == col_of_row(
                    rows[i],
                    VALUE_START_COL + j,
                ));
                assert(colv(cols0, VALUE_START_COL + j, i + 1) == col_of_row(
                    rows[i + 1],
                    VALUE_START_COL + j,
                ));
            }
        }
        assert forall|i: int|
            0 <= i < n - 1 && !(colv(cols0, ADDR_CONTEXT_COL as int, i) == colv(
                cols0,
                ADDR_CONTEXT_COL as int,
                i + 1,
            ) && colv(cols0, ADDR_SEGMENT_COL as int, i) == colv(
                cols0,
                ADDR_SEGMENT_COL as int,
                i + 1,
            ) && colv(cols0, ADDR_VIRTUAL_COL as int, i) == colv(
                cols0,
                ADDR_VIRTUAL_COL as int,
                i + 1,
            )) && #[trigger] colv(cols0, IS_READ_COL as int, i + 1) == 1
            && !crate::segments::is_preinitialized_segment(
            colv(cols0, ADDR_SEGMENT_COL as int, i + 1),
        ) implies (forall|j: int|
            0 <= j < VALUE_LIMBS ==> #[trigger] colv(cols0, VALUE_START_COL + j, i + 1) == 0) by {
            assert(colv(cols0, ADDR_CONTEXT_COL as int, i) == col_of_row(
                rows[i],
                ADDR_CONTEXT_COL as int,
            ) && colv(cols0, ADDR_CONTEXT_COL as int, i + 1) == col_of_row(
                rows[i + 1],
                ADDR_CONTEXT_COL as int,
            ) && colv(cols0, ADDR_SEGMENT_COL as int, i) == col_of_row(
                rows[i],
                ADDR_SEGMENT_COL as int,
            ) && colv(cols0, ADDR_SEGMENT_COL as int, i + 1) == col_of_row(
                rows[i + 1],
                ADDR_SEGMENT_COL as int,
            ) && colv(cols0, ADDR_VIRTUAL_COL as int, i) == col_of_row(
                rows[i],
                ADDR_VIRTUAL_COL as int,
            ) && colv(cols0, ADDR_VIRTUAL_COL as int, i + 1) == col_of_row(
                rows[i + 1],
                ADDR_VIRTUAL_COL as int,
            ));
            assert(!(rows[i].addr_context == rows[i + 1].addr_context && rows[i].addr_segment
                == rows[i + 1].addr_segment && rows[i].addr_virtual == rows[i + 1].addr_virtual)
                && rows[i + 1].is_read == 1 && !crate::segments::is_preinitialized_segment(
                rows[i + 1].addr_segment,
            ));
            assert forall|j: int| 0 <= j < VALUE_LIMBS implies #[trigger] colv(
                cols0,
                VALUE_START_COL + j,
                i + 1,
            ) == 0 by {
                assert(rows[i + 1].value_limbs[j] == 0);
                assert(colv(cols0, VALUE_START_COL + j, i + 1) == col_of_row(
                    rows[i + 1],
                    VALUE_START_COL + j,
                ));
            }
        }
    }
}

/// Packaging lemma of the whole pipeline: the trace bundle follows from
/// the mirrored columns and the column-major pass.
#[verifier::rlimit(100)]
proof fn lemma_trace_package(
    rows: Seq<MemoryColumnsView>,
    marked: Seq<MemoryColumnsView>,
    cols0: Seq<Vec<u64>>,
    cols: Seq<Vec<u64>>,
    mem_after: Seq<Seq<u64>>,
    input: Seq<MemoryOp>,
    stale: Seq<usize>,
    unpadded: int,
)
    requires
        row_major_output_ok(rows, input, unpadded),
        crate::pow2::is_power_of_two(rows.len() as u64),
        rows.len() <= 0x2000_0000,
        1 <= unpadded < rows.len(),
        input.len() <= unpadded,
        marked.len() == rows.len(),
        forall|i: int|
            0 <= i < rows.len() ==> #[trigger] marked[i] == (if stale.contains(i as usize) {
                stale_marked(rows[i], i)
            } else {
                rows[i]
            }),
        forall|x: int, y: int| 0 <= x < y < stale.len() ==> stale[x] != stale[y],
        forall|k: int| 0 <= k < stale.len() ==> #[trigger] stale[k] < rows.len(),
        cols_wf(cols0, rows.len() as int),
        forall|c: int, i: int|
            0 <= c < NUM_COLUMNS && 0 <= i < rows.len() ==> #[trigger] colv(cols0, c, i)
                == col_of_row(marked[i], c),
        // what the column-major pass wrote
        cols_wf(cols, rows.len() as int),
        forall|c: int|
            0 <= c < NUM_COLUMNS && c != COUNTER_COL && c != FREQUENCIES_COL && c
                != STALE_CONTEXT_FREQUENCIES_COL && c != IS_STALE_COL && c
                != MAYBE_IN_MEM_AFTER_COL && c != MEM_AFTER_FILTER_COL ==> #[trigger] cols[c]
                == cols0[c],
        forall|i: int| 0 <= i < rows.len() ==> colv(cols, COUNTER_COL as int, i) == i,
        forall|i: int|
            0 <= i < rows.len() ==> colv(cols, IS_STALE_COL as int, i) == (if stale_hit(cols0, i) {
                1u64
            } else {
                0u64
            }),
        forall|i: int|
            0 <= i < rows.len() ==> colv(cols, MAYBE_IN_MEM_AFTER_COL as int, i) == (
            if maybe_hit(cols0, i) {
                1u64
            } else {
                0u64
            }),
        forall|i: int|
            0 <= i < rows.len() ==> colv(cols, MEM_AFTER_FILTER_COL as int, i) == (
            if mem_after_hit(cols0, i) {
                1u64
            } else {
                0u64
            }),
        forall|v: int|
            0 <= v < rows.len() ==> colv(cols, FREQUENCIES_COL as int, v) as int == freq_count(
                cols0,
                rows.len() as int,
                v as u64,
                rows.len() as int,
            ),
        forall|c: int|
            0 <= c < rows.len() ==> colv(cols, STALE_CONTEXT_FREQUENCIES_COL as int, c) as int
                == stale_freq_count(cols0, c, rows.len() as int),
        mem_after == mem_after_rows_spec(cols, rows.len() as int),
    ensures
        memory_trace_ok(cols, mem_after, unpadded, input, stale),
{
    reveal(memory_trace_ok);
    let n = rows.len() as int;
    lemma_cols_mirror(rows, marked, cols0, input, stale, unpadded);
    assert(cols[0]@.len() == n);
    // the columns the pass reads are untouched, so its reads over the old
    // and the new columns agree
    assert forall|c: int, i: int|
        0 <= c < NUM_COLUMNS && 0 <= i < n && c != COUNTER_COL && c != FREQUENCIES_COL && c
            != STALE_CONTEXT_FREQUENCIES_COL && c != IS_STALE_COL && c != MAYBE_IN_MEM_AFTER_COL
            && c != MEM_AFTER_FILTER_COL implies #[trigger] colv(cols, c, i) == colv(
        cols0,
        c,
        i,
    ) by {
        assert(cols[c] == cols0[c]);
    }
    assert forall|i: int| 0 <= i < n implies stale_hit(cols, i) == stale_hit(cols0, i) by {
        assert(colv(cols, ADDR_CONTEXT_COL as int, i) == colv(cols0, ADDR_CONTEXT_COL as int, i));
        assert(cols[STALE_CONTEXTS_COL as int] == cols0[STALE_CONTEXTS_COL as int]);
    }
    assert forall|i: int| 0 <= i < n implies maybe_hit(cols, i) == maybe_hit(cols0, i) by {
        assert(colv(cols, FILTER_COL as int, i) == colv(cols0, FILTER_COL as int, i));
        assert(colv(cols, CONTEXT_FIRST_CHANGE_COL as int, i) == colv(
            cols0,
            CONTEXT_FIRST_CHANGE_COL as int,
            i,
        ));
        assert(colv(cols, SEGMENT_FIRST_CHANGE_COL as int, i) == colv(
            cols0,
            SEGMENT_FIRST_CHANGE_COL as int,
            i,
        ));
        assert(colv(cols, VIRTUAL_FIRST_CHANGE_COL as int, i) == colv(
            cols0,
            VIRTUAL_FIRST_CHANGE_COL as int,
            i,
        ));
        assert(stale_hit(cols, i) == stale_hit(cols0, i));
    }
    assert forall|i: int| 0 <= i < n implies mem_after_hit(cols, i) == mem_after_hit(
        cols0,
        i,
    ) by {
        assert(maybe_hit(cols, i) == maybe_hit(cols0, i));
        assert(colv(cols, ADDR_SEGMENT_COL as int, i) == colv(cols0, ADDR_SEGMENT_COL as int, i));
        assert(value_nonzero(cols, i) == value_nonzero(cols0, i)) by {
            assert forall|j: int| 0 <= j < VALUE_LIMBS implies #[trigger] colv(
                cols,
                VALUE_START_COL + j,
                i,
            ) == colv(cols0, VALUE_START_COL + j, i) by {
                assert(cols[VALUE_START_COL + j] == cols0[VALUE_START_COL + j]);
            }
            if value_nonzero(cols, i) {
                let j = choose|j: int|
                    0 <= j < VALUE_LIMBS && #[trigger] colv(cols, VALUE_START_COL + j, i) != 0;
                assert(colv(cols0, VALUE_START_COL + j, i) != 0);
            }
            if value_nonzero(cols0, i) {
                let j = choose|j: int|
                    0 <= j < VALUE_LIMBS && #[trigger] colv(cols0, VALUE_START_COL + j, i) != 0;
                assert(colv(cols, VALUE_START_COL + j, i) != 0);
            }
        }
    }
    assert forall|v: int| 0 <= v < n implies colv(cols, FREQUENCIES_COL as int, v) as int
        == freq_count(cols, n, v as u64, n) by {
        lemma_freq_count_transfer(cols0, cols, n, v as u64, n);
    }
    assert forall|c: int| 0 <= c < n implies colv(cols, STALE_CONTEXT_FREQUENCIES_COL as int, c)
        as int == stale_freq_count(cols, c, n) by {
        lemma_stale_freq_count_transfer(cols0, cols, c, n);
    }
    // the backing operations carry over
    let padded = choose|padded: Seq<MemoryOp>| cols_backed_by(cols0, n, padded, input);
    assert(cols_backed_by(cols, n, padded, input)) by {
        assert forall|i: int| 0 <= i < n implies col_matches_op(cols, i, #[trigger] padded[i]) by {
            assert(col_matches_op(cols0, i, padded[i]));
            assert forall|j: int| 0 <= j < VALUE_LIMBS implies #[trigger] colv(
                cols,
                VALUE_START_COL + j,
                i,
            ) == padded[i].value@[j] as u64 by {
                assert(cols[VALUE_START_COL + j] == cols0[VALUE_START_COL + j]);
                assert(colv(cols0, VALUE_START_COL + j, i) == padded[i].value@[j] as u64);
            }
        }
    }
    // the timestamp-inverse column carries over
    assert forall|i: int|
        0 <= i < n implies colv(cols, TIMESTAMP_INV_COL as int, i)
        == crate::field::fe_inv_or_zero_spec(colv(cols, TIMESTAMP_COL as int, i)) by {
        assert(colv(cols, TIMESTAMP_INV_COL as int, i) == colv(cols0, TIMESTAMP_INV_COL as int, i));
        assert(colv(cols, TIMESTAMP_COL as int, i) == colv(cols0, TIMESTAMP_COL as int, i));
    }
    // the padding tail carries over
    assert forall|i: int|
        #![trigger colv(cols, FILTER_COL as int, i)]
        unpadded <= i < n implies (colv(cols, FILTER_COL as int, i) == 0 && colv(
        cols,
        IS_READ_COL as int,
        i,
    ) == 1 && colv(cols, ADDR_CONTEXT_COL as int, i) == colv(
        cols,
        ADDR_CONTEXT_COL as int,
        unpadded - 1,
    ) && colv(cols, ADDR_SEGMENT_COL as int, i) == colv(
        cols,
        ADDR_SEGMENT_COL as int,
        unpadded - 1,
    ) && colv(cols, ADDR_VIRTUAL_COL as int, i) == colv(
        cols,
        ADDR_VIRTUAL_COL as int,
        unpadded - 1,
    ) + 1 && colv(cols, TIMESTAMP_COL as int, i) == colv(
        cols,
        TIMESTAMP_COL as int,
        unpadded - 1,
    ) + 1 && (forall|j: int|
        0 <= j < VALUE_LIMBS ==> #[trigger] colv(cols, VALUE_START_COL + j, i) == 0)) by {
        assert(colv(cols, FILTER_COL as int, i) == colv(cols0, FILTER_COL as int, i));
        assert(colv(cols, IS_READ_COL as int, i) == colv(cols0, IS_READ_COL as int, i));
        assert(colv(cols, ADDR_CONTEXT_COL as int, i) == colv(cols0, ADDR_CONTEXT_COL as int, i));
        assert(colv(cols, ADDR_SEGMENT_COL as int, i) == colv(cols0, ADDR_SEGMENT_COL as int, i));
        assert(colv(cols, ADDR_VIRTUAL_COL as int, i) == colv(cols0, ADDR_VIRTUAL_COL as int, i));
        assert(colv(cols, TIMESTAMP_COL as int, i) == colv(cols0, TIMESTAMP_COL as int, i));
        assert(colv(cols, ADDR_CONTEXT_COL as int, unpadded - 1) == colv(
            cols0,
            ADDR_CONTEXT_COL as int,
            unpadded - 1,
        ));
        assert(colv(cols, ADDR_SEGMENT_COL as int, unpadded - 1) == colv(
            cols0,
            ADDR_SEGMENT_COL as int,
            unpadded - 1,
        ));
        assert(colv(cols, ADDR_VIRTUAL_COL as int, unpadded - 1) == colv(
            cols0,
            ADDR_VIRTUAL_COL as int,
            unpadded - 1,
        ));
        assert(colv(cols, TIMESTAMP_COL as int, unpadded - 1) == colv(
            cols0,
            TIMESTAMP_COL as int,
            unpadded - 1,
        ));
        assert(colv(cols0, FILTER_COL as int, i) == 0);
        assert forall|j: int| 0 <= j < VALUE_LIMBS implies #[trigger] colv(
            cols,
            VALUE_START_COL + j,
            i,
        ) == 0 by {
            assert(cols[VALUE_START_COL + j] == cols0[VALUE_START_COL + j]);
            assert(colv(cols0, VALUE_START_COL + j, i) == 0);
        }
    }
    // the dummy-read law carries over, under the input's own hypothesis
    if crate::ops::inactive_are_reads(input) {
        assert forall|i: int|
            0 <= i < n && colv(cols, FILTER_COL as int, i) == 0 implies colv(
            cols,
            IS_READ_COL as int,
            i,
        ) == 1 by {
            assert(colv(cols, FILTER_COL as int, i) == colv(cols0, FILTER_COL as int, i));
            assert(colv(cols, IS_READ_COL as int, i) == colv(cols0, IS_READ_COL as int, i));
        }
    }
    // strict order carries over for tie-free logs
    if crate::ops::ties_identical(input) {
        assert forall|i: int|
            0 <= i < n - 1 implies (col_pair_lt(cols, i) || col_data_eq(cols, i)) by {
            assert(col_pair_lt(cols0, i) || col_data_eq(cols0, i));
            assert(colv(cols, FILTER_COL as int, i) == colv(cols0, FILTER_COL as int, i));
            assert(colv(cols, FILTER_COL as int, i + 1) == colv(cols0, FILTER_COL as int, i + 1));
            assert(colv(cols, IS_READ_COL as int, i) == colv(cols0, IS_READ_COL as int, i));
            assert(colv(cols, IS_READ_COL as int, i + 1) == colv(cols0, IS_READ_COL as int, i + 1));
            assert(colv(cols, ADDR_CONTEXT_COL as int, i) == colv(cols0, ADDR_CONTEXT_COL as int, i));
            assert(colv(cols, ADDR_CONTEXT_COL as int, i + 1) == colv(
                cols0,
                ADDR_CONTEXT_COL as int,
                i + 1,
            ));
            assert(colv(cols, ADDR_SEGMENT_COL as int, i) == colv(cols0, ADDR_SEGMENT_COL as int, i));
            assert(colv(cols, ADDR_SEGMENT_COL as int, i + 1) == colv(
                cols0,
                ADDR_SEGMENT_COL as int,
                i + 1,
            ));
            assert(colv(cols, ADDR_VIRTUAL_COL as int, i) == colv(cols0, ADDR_VIRTUAL_COL as int, i));
            assert(colv(cols, ADDR_VIRTUAL_COL as int, i + 1) == colv(
                cols0,
                ADDR_VIRTUAL_COL as int,
                i + 1,
            ));
            assert(colv(cols, TIMESTAMP_COL as int, i) == colv(cols0, TIMESTAMP_COL as int, i));
            assert(colv(cols, TIMESTAMP_COL as int, i + 1) == colv(
                cols0,
                TIMESTAMP_COL as int,
                i + 1,
            ));
            if col_data_eq(cols0, i) {
                assert(col_data_eq(cols, i)) by {
                    assert forall|j: int| 0 <= j < VALUE_LIMBS implies #[trigger] colv(
                        cols,
                        VALUE_START_COL + j,
                        i,
                    ) == colv(cols, VALUE_START_COL + j, i + 1) by {
                        assert(cols[VALUE_START_COL + j] == cols0[VALUE_START_COL + j]);
                        assert(colv(cols0, VALUE_START_COL + j, i) == colv(
                            cols0,
                            VALUE_START_COL + j,
                            i + 1,
                        ));
                    }
                }
            }
        }
    }
    // the ordering laws carry over verbatim
    reveal(row_major_output_ok);
    if well_formed_log(input) {
        assert forall|i: int|
            #![trigger colv(cols, IS_READ_COL as int, i + 1)]
            0 <= i < n - 1 && colv(cols, ADDR_CONTEXT_COL as int, i) == colv(
                cols,
                ADDR_CONTEXT_COL as int,
                i + 1,
            ) && colv(cols, ADDR_SEGMENT_COL as int, i) == colv(cols, ADDR_SEGMENT_COL as int, i + 1)
                && colv(cols, ADDR_VIRTUAL_COL as int, i) == colv(cols, ADDR_VIRTUAL_COL as int, i + 1)
                && colv(cols, IS_READ_COL as int, i + 1) == 1 implies (forall|j: int|
            0 <= j < VALUE_LIMBS ==> #[trigger] colv(cols, VALUE_START_COL + j, i + 1) == colv(
                cols,
                VALUE_START_COL + j,
                i,
            )) by {
            assert(colv(cols0, IS_READ_COL as int, i + 1) == 1);
            assert forall|j: int| 0 <= j < VALUE_LIMBS implies #[trigger] colv(
                cols,
                VALUE_START_COL + j,
                i + 1,
            ) == colv(cols, VALUE_START_COL + j, i) by {
                assert(cols[VALUE_START_COL + j] == cols0[VALUE_START_COL + j]);
                assert(colv(cols0, VALUE_START_COL + j, i + 1) == colv(
                    cols0,
                    VALUE_START_COL + j,
                    i,
                ));
            }
        }
        assert forall|i: int|
            #![trigger colv(cols, IS_READ_COL as int, i + 1)]
            0 <= i < n - 1 && !(colv(cols, ADDR_CONTEXT_COL as int, i) == colv(
                cols,
                ADDR_CONTEXT_COL as int,
                i + 1,
            ) && colv(cols, ADDR_SEGMENT_COL as int, i) == colv(cols, ADDR_SEGMENT_COL as int, i + 1)
                && colv(cols, ADDR_VIRTUAL_COL as int, i) == colv(cols, ADDR_VIRTUAL_COL as int, i + 1))
                && colv(cols, IS_READ_COL as int, i + 1) == 1
                && !crate::segments::is_preinitialized_segment(
                colv(cols, ADDR_SEGMENT_COL as int, i + 1),
            ) implies (forall|j: int|
            0 <= j < VALUE_LIMBS ==> #[trigger] colv(cols, VALUE_START_COL + j, i + 1) == 0) by {
            assert(colv(cols0, IS_READ_COL as int, i + 1) == 1);
            assert forall|j: int| 0 <= j < VALUE_LIMBS implies #[trigger] colv(
                cols,
                VALUE_START_COL + j,
                i + 1,
            ) == 0 by {
                assert(cols[VALUE_START_COL + j] == cols0[VALUE_START_COL + j]);
                assert(colv(cols0, VALUE_START_COL + j, i + 1) == 0);
            }
        }
    }
}

/// Builds the full memory trace: the runtime operations and the initial
/// state are merged, sorted, gap-filled, padded, turned into flagged rows,
/// marked for stale contexts, transposed, and completed column by column;
/// the final memory state is extracted from the membership column.
///
/// Fatal invariant violations abort generation: an empty log, duplicate
/// stale contexts, a context without a row slot, an ordering difference
/// the range check could not certify, or an oversized gap-filled list.
/// On a ready log (see `bounded_ready_log`) with duplicate-free stale
/// contexts small enough for their row slots, none of these can occur and
/// success is owed.
#[verifier::rlimit(100)]
pub fn generate_trace(
    memory_ops: Vec<MemoryOp>,
    mem_before_values: &Vec<(MemoryAddress, [u32; VALUE_LIMBS])>,
    stale_contexts: Vec<usize>,
) -> (res: Result<MemoryTrace, TraceError>)
    requires
        memory_ops@.len() + mem_before_values@.len() <= 0x1000_0000,
        crate::ops::ops_bounded(memory_ops@),
        forall|k: int|
            0 <= k < mem_before_values@.len() ==> {
                let e = #[trigger] mem_before_values@[k];
                e.0.context <= crate::ops::MAX_ADDRESS_COMPONENT && e.0.segment
                    <= crate::ops::MAX_ADDRESS_COMPONENT && e.0.virt
                    <= crate::ops::MAX_ADDRESS_COMPONENT
            },
    ensures
        (res == Err::<MemoryTrace, TraceError>(TraceError::EmptyOperations)) <==> combined_input(
            memory_ops@,
            mem_before_values@,
        ).len() == 0,
        res == Err::<MemoryTrace, TraceError>(TraceError::DuplicateStaleContexts) <==> (
        combined_input(memory_ops@, mem_before_values@).len() > 0 && exists|x: int, y: int|
            0 <= x < y < stale_contexts@.len() && stale_contexts@[x] == stale_contexts@[y]),
        res == Err::<MemoryTrace, TraceError>(TraceError::StaleContextOutOfRange) ==> (exists|
            k: int,
        |
            0 <= k < stale_contexts@.len() && stale_contexts@[k] > combined_input(
                memory_ops@,
                mem_before_values@,
            ).len()),
        res matches Ok(t) ==> memory_trace_ok(
            t.columns@,
            t.mem_after_values@.map_values(|v: Vec<u64>| v@),
            t.unpadded_length as int,
            combined_input(memory_ops@, mem_before_values@),
            stale_contexts@,
        ),
        (bounded_ready_log(combined_input(memory_ops@, mem_before_values@)) && (forall|
            x: int,
            y: int,
        |
            0 <= x < y < stale_contexts@.len() ==> stale_contexts@[x] != stale_contexts@[y]) && (
        forall|k: int|
            0 <= k < stale_contexts@.len() ==> #[trigger] stale_contexts@[k]
                < crate::pow2::pow2_ceil(
                (combined_input(memory_ops@, mem_before_values@).len() + 1) as u64,
            ))) ==> res is Ok,
{
    let ghost combined = combined_input(memory_ops@, mem_before_values@);
    let ghost hyp_all = bounded_ready_log(combined) && (forall|x: int, y: int|
        0 <= x < y < stale_contexts@.len() ==> stale_contexts@[x] != stale_contexts@[y]) && (
    forall|k: int|
        0 <= k < stale_contexts@.len() ==> #[trigger] stale_contexts@[k] < crate::pow2::pow2_ceil(
            (combined.len() + 1) as u64,
        ));
    let mut all_ops = memory_ops;
    let mb_len = mem_before_values.len();
    let mut k: usize = 0;
    while k < mb_len
        invariant
            mb_len == mem_before_values@.len(),
            0 <= k <= mb_len,
            memory_ops@.len() + mb_len <= 0x1000_0000,
            all_ops@.len() <= 0x1000_0000,
            crate::ops::ops_bounded(all_ops@),
            forall|j: int|
                0 <= j < mb_len ==> {
                    let e = #[trigger] mem_before_values@[j];
                    e.0.context <= crate::ops::MAX_ADDRESS_COMPONENT && e.0.segment
                        <= crate::ops::MAX_ADDRESS_COMPONENT && e.0.virt
                        <= crate::ops::MAX_ADDRESS_COMPONENT
                },
            all_ops@ == combined_input(memory_ops@, mem_before_values@.take(k as int)),
            combined.len() == memory_ops@.len() + mb_len,
            all_ops@.len() == memory_ops@.len() + k,
            combined == combined_input(memory_ops@, mem_before_values@),
        decreases mb_len - k,
    {
        let e = *(&mem_before_values[k]);
        let op = MemoryOp {
            filter: true,
            timestamp: 0,
            address: e.0,
            kind: MemoryOpKind::Write,
            value: e.1,
        };
        proof {
            let f = |e: (MemoryAddress, [u32; VALUE_LIMBS])| mem_before_op(e);
            assert(op == mem_before_op(e));
            assert(all_ops@.push(op) =~= combined_input(
                memory_ops@,
                mem_before_values@.take(k + 1),
            )) by {
                assert(mem_before_values@.take(k + 1).map_values(f)
                    =~= mem_before_values@.take(k as int).map_values(f).push(mem_before_op(e)));
            }
            assert(crate::ops::op_bounded(op));
            crate::gaps::lemma_push_contains(all_ops@, op);
        }
        all_ops.push(op);
        k = k + 1;
    }
    proof {
        assert(mem_before_values@.take(mb_len as int) =~= mem_before_values@);
        assert(all_ops@ == combined);
    }
    if all_ops.len() == 0 {
        return Err(TraceError::EmptyOperations);
    }
    proof {
        assert(combined.len() >= 1);
    }
    if has_duplicate(&stale_contexts) {
        return Err(TraceError::DuplicateStaleContexts);
    }
    let row_major = generate_trace_row_major(all_ops);
    let (mut rows, unpadded_length) = match row_major {
        Err(e) => {
            proof {
                assert(e != TraceError::EmptyOperations && e
                    != TraceError::DuplicateStaleContexts);
            }
            return Err(e);
        },
        Ok(r) => r,
    };
    let n = rows.len();
    // every stale context must have a row slot of its own
    let mut k: usize = 0;
    while k < stale_contexts.len()
        invariant
            0 <= k <= stale_contexts@.len(),
            n == rows@.len(),
            combined.len() >= 1,
            combined.len() < n,
            combined == combined_input(memory_ops@, mem_before_values@),
            hyp_all == (bounded_ready_log(combined) && (forall|x: int, y: int|
                0 <= x < y < stale_contexts@.len() ==> stale_contexts@[x] != stale_contexts@[y])
                && (forall|j: int|
                0 <= j < stale_contexts@.len() ==> #[trigger] stale_contexts@[j]
                    < crate::pow2::pow2_ceil((combined.len() + 1) as u64))),
            hyp_all ==> n as u64 == crate::pow2::pow2_ceil((combined.len() + 1) as u64),
            forall|x: int, y: int|
                0 <= x < y < stale_contexts@.len() ==> stale_contexts@[x] != stale_contexts@[y],
            forall|j: int| 0 <= j < k ==> #[trigger] stale_contexts@[j] < n,
        decreases stale_contexts@.len() - k,
    {
        if stale_contexts[k] >= n {
            proof {
                assert(stale_contexts@[k as int] > combined.len());
            }
            return Err(TraceError::StaleContextOutOfRange);
        }
        k = k + 1;
    }
    // every row's context must have a slot in the stale table
    let ghost rs = rows@;
    let mut i: usize = 0;
    while i < n
        invariant
            0 <= i <= n,
            n == rows@.len(),
            rows@ == rs,
            combined.len() >= 1,
            combined == combined_input(memory_ops@, mem_before_values@),
            hyp_all == (bounded_ready_log(combined) && (forall|x: int, y: int|
                0 <= x < y < stale_contexts@.len() ==> stale_contexts@[x] != stale_contexts@[y])
                && (forall|j: int|
                0 <= j < stale_contexts@.len() ==> #[trigger] stale_contexts@[j]
                    < crate::pow2::pow2_ceil((combined.len() + 1) as u64))),
            hyp_all ==> (forall|j: int| 0 <= j < n ==> (#[trigger] rs[j]).addr_context < n),
            forall|x: int, y: int|
                0 <= x < y < stale_contexts@.len() ==> stale_contexts@[x] != stale_contexts@[y],
            forall|j: int| 0 <= j < i ==> (#[trigger] rs[j]).addr_context < n,
        decreases n - i,
    {
        if rows[i].addr_context >= n as u64 {
            return Err(TraceError::ContextOutOfRange);
        }
        i = i + 1;
    }
    insert_stale_contexts(&mut rows, &stale_contexts);
    let ghost marked = rows@;
    // row-major to column-major
    let mut row_vecs: Vec<Vec<u64>> = Vec::new();
    let mut i: usize = 0;
    while i < n
        invariant
            0 <= i <= n,
            n == rows@.len(),
            rows@ == marked,
            row_vecs@.len() == i,
            forall|r: int| 0 <= r < i ==> (#[trigger] row_vecs@[r])@.len() == NUM_COLUMNS,
            forall|r: int, c: int|
                0 <= r < i && 0 <= c < NUM_COLUMNS ==> #[trigger] row_vecs@[r]@[c] == col_of_row(
                    marked[r],
                    c,
                ),
        decreases n - i,
    {
        let v = rows[i].to_column_vec();
        row_vecs.push(v);
        i = i + 1;
    }
    let mut cols = transpose(&row_vecs, NUM_COLUMNS);
    let ghost cols0 = cols@;
    proof {
        assert(cols_wf(cols0, n as int)) by {
            assert forall|c: int| 0 <= c < NUM_COLUMNS implies (#[trigger] cols0[c])@.len()
                == n by {}
        }
        assert forall|c: int, i2: int|
            0 <= c < NUM_COLUMNS && 0 <= i2 < n implies #[trigger] colv(cols0, c, i2)
            == col_of_row(marked[i2], c) by {
            assert(cols0[c]@[i2] == row_vecs@[i2]@[c]);
        }
        lemma_cols_mirror(rs, marked, cols0, combined, stale_contexts@, unpadded_length as int);
        assert(cols0[0]@.len() == n);
        // preconditions of the column-major pass
        assert forall|i2: int| 0 <= i2 < n implies colv(cols0, ADDR_CONTEXT_COL as int, i2)
            < n by {
            assert(colv(cols0, ADDR_CONTEXT_COL as int, i2) == col_of_row(
                marked[i2],
                ADDR_CONTEXT_COL as int,
            ));
            if stale_contexts@.contains(i2 as usize) {
                assert(marked[i2] == stale_marked(rs[i2], i2));
            }
            assert(rs[i2].addr_context < n);
        }
    }
    generate_trace_col_major(&mut cols);
    // extract the final memory state
    let mut mem_after_values: Vec<Vec<u64>> = Vec::new();
    let mut i: usize = 0;
    while i < n
        invariant
            0 <= i <= n,
            cols_wf(cols@, n as int),
            1 <= n <= 0x2000_0000,
            mem_after_values@.map_values(|v: Vec<u64>| v@) == mem_after_rows_spec(
                cols@,
                i as int,
            ),
        decreases n - i,
    {
        proof {
            assert(colv(cols@, MEM_AFTER_FILTER_COL as int, i as int) == cols@[
                MEM_AFTER_FILTER_COL as int]@[i as int]);
        }
        if cols[MEM_AFTER_FILTER_COL][i] == 1 {
            let entry: Vec<u64> = vec![
                1u64,
                cols[ADDR_CONTEXT_COL][i],
                cols[ADDR_SEGMENT_COL][i],
                cols[ADDR_VIRTUAL_COL][i],
                cols[VALUE_START_COL][i],
                cols[VALUE_START_COL + 1][i],
                cols[VALUE_START_COL + 2][i],
                cols[VALUE_START_COL + 3][i],
                cols[VALUE_START_COL + 4][i],
                cols[VALUE_START_COL + 5][i],
                cols[VALUE_START_COL + 6][i],
                cols[VALUE_START_COL + 7][i],
            ];
            proof {
                assert(entry@ =~= mem_after_entry(cols@, i as int));
            }
            mem_after_values.push(entry);
            proof {
                assert(mem_after_values@.map_values(|v: Vec<u64>| v@) =~= mem_after_rows_spec(
                    cols@,
                    i + 1,
                ));
            }
        } else {
            proof {
                assert(mem_after_values@.map_values(|v: Vec<u64>| v@) =~= mem_after_rows_spec(
                    cols@,
                    i + 1,
                ));
            }
        }
        i = i + 1;
    }
    proof {
        lemma_trace_package(
            rs,
            marked,
            cols0,
            cols@,
            mem_after_values@.map_values(|v: Vec<u64>| v@),
            combined,
            stale_contexts@,
            unpadded_length as int,
        );
    }
    Ok(MemoryTrace { columns: cols, mem_after_values, unpadded_length })
}

/// For every inactive row of the trace, the operation is a read, provided
/// the input's own synthetic operations are reads: only active rows may
/// write.
pub proof fn lemma_trace_inactive_rows_read(
    cols: Seq<Vec<u64>>,
    mem_after: Seq<Seq<u64>>,
    unpadded: int,
    input: Seq<MemoryOp>,
    stale: Seq<usize>,
)
    requires
        memory_trace_ok(cols, mem_after, unpadded, input, stale),
        crate::ops::inactive_are_reads(input),
    ensures
        forall|i: int|
            0 <= i < cols[0]@.len() && colv(cols, FILTER_COL as int, i) == 0 ==> colv(
                cols,
                IS_READ_COL as int,
                i,
            ) == 1,
{
    reveal(memory_trace_ok);
}

/// Read consistency of a trace of a well-formed log: when the address is
/// unchanged into the next row and that row is a read, it repeats the
/// current row's value, limb by limb.
pub proof fn lemma_trace_read_consistency(
    cols: Seq<Vec<u64>>,
    mem_after: Seq<Seq<u64>>,
    unpadded: int,
    input: Seq<MemoryOp>,
    stale: Seq<usize>,
    i: int,
)
    requires
        memory_trace_ok(cols, mem_after, unpadded, input, stale),
        well_formed_log(input),
        0 <= i < cols[0]@.len() - 1,
        colv(cols, ADDR_CONTEXT_COL as int, i) == colv(cols, ADDR_CONTEXT_COL as int, i + 1),
        colv(cols, ADDR_SEGMENT_COL as int, i) == colv(cols, ADDR_SEGMENT_COL as int, i + 1),
        colv(cols, ADDR_VIRTUAL_COL as int, i) == colv(cols, ADDR_VIRTUAL_COL as int, i + 1),
        colv(cols, IS_READ_COL as int, i + 1) == 1,
    ensures
        forall|j: int|
            0 <= j < VALUE_LIMBS ==> #[trigger] colv(cols, VALUE_START_COL + j, i + 1) == colv(
                cols,
                VALUE_START_COL + j,
                i,
            ),
{
    reveal(memory_trace_ok);
}

/// Zero initialization of a trace of a well-formed log: when the address
/// changes into the next row, that row is a read, and its segment is not
/// preinitialized, its value is all-zero limbs.
pub proof fn lemma_trace_zero_initialization(
    cols: Seq<Vec<u64>>,
    mem_after: Seq<Seq<u64>>,
    unpadded: int,
    input: Seq<MemoryOp>,
    stale: Seq<usize>,
    i: int,
)
    requires
        memory_trace_ok(cols, mem_after, unpadded, input, stale),
        well_formed_log(input),
        0 <= i < cols[0]@.len() - 1,
        !(colv(cols, ADDR_CONTEXT_COL as int, i) == colv(cols, ADDR_CONTEXT_COL as int, i + 1)
            && colv(cols, ADDR_SEGMENT_COL as int, i) == colv(cols, ADDR_SEGMENT_COL as int, i + 1)
            && colv(cols, ADDR_VIRTUAL_COL as int, i) == colv(cols, ADDR_VIRTUAL_COL as int, i + 1)),
        colv(cols, IS_READ_COL as int, i + 1) == 1,
        !crate::segments::is_preinitialized_segment(colv(cols, ADDR_SEGMENT_COL as int, i + 1)),
    ensures
        forall|j: int| 0 <= j < VALUE_LIMBS ==> #[trigger] colv(cols, VALUE_START_COL + j, i + 1) == 0,
{
    reveal(memory_trace_ok);
}

/// The structural shape of every built trace: a power-of-two number of
/// sorted rows, a counter column equal to the row index, every range-check
/// value below the trace length, padding present, stale rows excluded from
/// the final state, and its rows carrying a log whose real operations are
/// exactly the input's.
pub proof fn lemma_trace_shape(
    cols: Seq<Vec<u64>>,
    mem_after: Seq<Seq<u64>>,
    unpadded: int,
    input: Seq<MemoryOp>,
    stale: Seq<usize>,
)
    requires
        memory_trace_ok(cols, mem_after, unpadded, input, stale),
    ensures
        crate::pow2::is_power_of_two(cols[0]@.len() as u64),
        1 <= unpadded < cols[0]@.len(),
        input.len() <= unpadded,
        forall|i: int| 0 <= i < cols[0]@.len() ==> colv(cols, COUNTER_COL as int, i) == i,
        forall|i: int| 0 <= i < cols[0]@.len() ==> colv(cols, RANGE_CHECK_COL as int, i) < cols[0]@.len(),
        forall|i: int| 0 <= i < cols[0]@.len() - 1 ==> col_pair_le(cols, i),
        forall|i: int|
            0 <= i < cols[0]@.len() ==> colv(cols, TIMESTAMP_INV_COL as int, i)
                == crate::field::fe_inv_or_zero_spec(colv(cols, TIMESTAMP_COL as int, i)),
        forall|i: int|
            #![trigger colv(cols, FILTER_COL as int, i)]
            unpadded <= i < cols[0]@.len() ==> (colv(cols, FILTER_COL as int, i) == 0 && colv(
                cols,
                IS_READ_COL as int,
                i,
            ) == 1 && colv(cols, ADDR_VIRTUAL_COL as int, i) == colv(
                cols,
                ADDR_VIRTUAL_COL as int,
                unpadded - 1,
            ) + 1 && colv(cols, TIMESTAMP_COL as int, i) == colv(
                cols,
                TIMESTAMP_COL as int,
                unpadded - 1,
            ) + 1),
        forall|i: int|
            0 <= i < cols[0]@.len() && stale_hit(cols, i) ==> colv(
                cols,
                MEM_AFTER_FILTER_COL as int,
                i,
            ) == 0,
        exists|padded: Seq<MemoryOp>|
            cols_backed_by(cols, cols[0]@.len() as int, padded, input),
{
    reveal(memory_trace_ok);
}

/// Strict ordering of the trace of a tie-free log: between neighbouring
/// rows the sorting key strictly increases, unless the two rows carry the
/// same operation, as repeated padding rows do.
pub proof fn lemma_trace_strict_order(
    cols: Seq<Vec<u64>>,
    mem_after: Seq<Seq<u64>>,
    unpadded: int,
    input: Seq<MemoryOp>,
    stale: Seq<usize>,
)
    requires
        memory_trace_ok(cols, mem_after, unpadded, input, stale),
        crate::ops::ties_identical(input),
    ensures
        forall|i: int|
            0 <= i < cols[0]@.len() - 1 ==> (col_pair_lt(cols, i) || col_data_eq(cols, i)),
{
    reveal(memory_trace_ok);
}

} // verus!
