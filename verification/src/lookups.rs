//! The lookup and cross-table declarations of the memory trace.
//!
//! A linear column is an affine combination of trace columns, possibly of
//! the next row; a filter is a sum of products of two linear columns plus
//! a sum of linear columns.  The two lookup arguments tie the range-check
//! values (and the post-change virtual offsets) to the counter column with
//! its frequency table, and the stale contexts to the stale-context table;
//! the cross-table declarations name the columns other trace tables match
//! against.

use vstd::prelude::*;
use crate::columns::{
    ADDR_CONTEXT_COL, ADDR_SEGMENT_COL, ADDR_VIRTUAL_COL, CONTEXT_FIRST_CHANGE_COL, COUNTER_COL,
    FILTER_COL, FREQUENCIES_COL, IS_PRUNED_COL, IS_READ_COL, IS_STALE_COL, MEM_AFTER_FILTER_COL,
    RANGE_CHECK_COL, SEGMENT_FIRST_CHANGE_COL, STALE_CONTEXTS_COL, STALE_CONTEXT_FREQUENCIES_COL,
    TIMESTAMP_COL, TIMESTAMP_INV_COL, VALUE_START_COL,
};
use crate::field::{fe_add_spec, fe_mul_spec, fe_sub_spec, FIELD_ORDER};

verus! {

/// An affine combination of columns: coefficients on current-row columns,
/// coefficients on next-row columns, and a constant.
#[derive(Debug)]
pub struct LinearColumn {
    pub coefficients: Vec<(usize, u64)>,
    pub next_row_coefficients: Vec<(usize, u64)>,
    pub constant: u64,
}

/// A lookup filter: a sum of products of pairs of linear columns, plus a
/// sum of plain linear columns.
#[derive(Debug)]
pub struct ColumnFilter {
    pub products: Vec<(LinearColumn, LinearColumn)>,
    pub constants: Vec<LinearColumn>,
}

/// One lookup argument: the looked columns, each with an optional filter
/// (`None` counts every row), against a table column and its frequency
/// column.
pub struct LookupArgument {
    pub columns: Vec<LinearColumn>,
    pub table_column: LinearColumn,
    pub frequencies_column: LinearColumn,
    pub filter_columns: Vec<Option<ColumnFilter>>,
}

/// A set of columns of this table, with a filter, for another table to
/// match against.
pub struct CrossTableColumns {
    pub columns: Vec<LinearColumn>,
    pub filter: ColumnFilter,
}

/// The value of an affine combination on a row pair of the column-major
/// trace, folded left to right in the field.
pub open spec fn linear_term_value(
    cols: Seq<Vec<u64>>,
    i: int,
    n: int,
    terms: Seq<(usize, u64)>,
    next: bool,
) -> u64
    decreases terms.len(),
{
    if terms.len() == 0 {
        0u64
    } else {
        let t = terms.last();
        let r = if next {
            if i == n - 1 {
                0int
            } else {
                i + 1
            }
        } else {
            i
        };
        fe_add_spec(
            linear_term_value(cols, i, n, terms.drop_last(), next),
            fe_mul_spec(crate::trace::colv(cols, t.0 as int, r), t.1),
        )
    }
}

/// The value of a linear column on row `i` (the next row wrapping to the
/// first).
pub open spec fn linear_column_value(cols: Seq<Vec<u64>>, i: int, n: int, lc: LinearColumn) -> u64 {
    fe_add_spec(
        fe_add_spec(
            linear_term_value(cols, i, n, lc.coefficients@, false),
            linear_term_value(cols, i, n, lc.next_row_coefficients@, true),
        ),
        lc.constant,
    )
}

/// A single current-row column.
pub fn column_single(c: usize) -> (lc: LinearColumn)
    ensures
        lc.coefficients@ == seq![(c, 1u64)],
        lc.next_row_coefficients@.len() == 0,
        lc.constant == 0,
        forall|cols: Seq<Vec<u64>>, i: int, n: int|
            #[trigger] linear_column_value(cols, i, n, lc) == fe_mul_spec(
                crate::trace::colv(cols, c as int, i),
                1u64,
            ),
{
    let lc = LinearColumn {
        coefficients: vec![(c, 1u64)],
        next_row_coefficients: Vec::new(),
        constant: 0,
    };
    proof {
        assert forall|cols: Seq<Vec<u64>>, i: int, n: int|
            #[trigger] linear_column_value(cols, i, n, lc) == fe_mul_spec(
            crate::trace::colv(cols, c as int, i),
            1u64,
        ) by {
            assert(lc.coefficients@.drop_last() =~= Seq::<(usize, u64)>::empty());
            assert(linear_term_value(cols, i, n, Seq::<(usize, u64)>::empty(), false) == 0);
            assert(lc.coefficients@.last() == (c, 1u64));
            assert(linear_term_value(cols, i, n, lc.coefficients@, false) == fe_add_spec(
                0u64,
                fe_mul_spec(crate::trace::colv(cols, c as int, i), 1u64),
            ));
        }
    }
    lc
}

/// A single next-row column (wrapping to the first row at the boundary).
pub fn column_single_next_row(c: usize) -> (lc: LinearColumn)
    ensures
        lc.coefficients@.len() == 0,
        lc.next_row_coefficients@ == seq![(c, 1u64)],
        lc.constant == 0,
{
    LinearColumn {
        coefficients: Vec::new(),
        next_row_coefficients: vec![(c, 1u64)],
        constant: 0,
    }
}

/// A constant column.
pub fn column_constant(k: u64) -> (lc: LinearColumn)
    ensures
        lc.coefficients@.len() == 0,
        lc.next_row_coefficients@.len() == 0,
        lc.constant == k,
{
    LinearColumn { coefficients: Vec::new(), next_row_coefficients: Vec::new(), constant: k }
}

/// The sum of two current-row columns.
pub fn column_sum(a: usize, b: usize) -> (lc: LinearColumn)
    ensures
        lc.coefficients@ == seq![(a, 1u64), (b, 1u64)],
        lc.next_row_coefficients@.len() == 0,
        lc.constant == 0,
{
    LinearColumn {
        coefficients: vec![(a, 1u64), (b, 1u64)],
        next_row_coefficients: Vec::new(),
        constant: 0,
    }
}

/// A single current-row column with a constant added.
pub fn column_with_constant(c: usize, coefficient: u64, k: u64) -> (lc: LinearColumn)
    ensures
        lc.coefficients@ == seq![(c, coefficient)],
        lc.next_row_coefficients@.len() == 0,
        lc.constant == k,
{
    LinearColumn {
        coefficients: vec![(c, coefficient)],
        next_row_coefficients: Vec::new(),
        constant: k,
    }
}

/// A filter that passes exactly where one column is one.
pub fn filter_single(c: usize) -> (f: ColumnFilter)
    ensures
        f.products@.len() == 0,
        f.constants@.len() == 1,
        f.constants@[0].coefficients@ == seq![(c, 1u64)],
        f.constants@[0].next_row_coefficients@.len() == 0,
        f.constants@[0].constant == 0,
{
    ColumnFilter { products: Vec::new(), constants: vec![column_single(c)] }
}

/// The columns other tables match memory operations against: the read
/// flag, the address, the value limbs and the timestamp.
pub fn ctl_data() -> (res: Vec<LinearColumn>)
    ensures
        res@.len() == 13,
        res@[0].coefficients@ == seq![(IS_READ_COL, 1u64)],
        res@[1].coefficients@ == seq![(ADDR_CONTEXT_COL, 1u64)],
        res@[2].coefficients@ == seq![(ADDR_SEGMENT_COL, 1u64)],
        res@[3].coefficients@ == seq![(ADDR_VIRTUAL_COL, 1u64)],
        forall|j: int|
            0 <= j < 8 ==> (#[trigger] res@[4 + j]).coefficients@ == seq![
                ((VALUE_START_COL + j) as usize, 1u64),
            ],
        res@[12].coefficients@ == seq![(TIMESTAMP_COL, 1u64)],
        forall|k: int|
            0 <= k < 13 ==> (#[trigger] res@[k]).next_row_coefficients@.len() == 0 && res@[k].constant
                == 0,
{
    let res: Vec<LinearColumn> = vec![
        column_single(IS_READ_COL),
        column_single(ADDR_CONTEXT_COL),
        column_single(ADDR_SEGMENT_COL),
        column_single(ADDR_VIRTUAL_COL),
        column_single(VALUE_START_COL),
        column_single(VALUE_START_COL + 1),
        column_single(VALUE_START_COL + 2),
        column_single(VALUE_START_COL + 3),
        column_single(VALUE_START_COL + 4),
        column_single(VALUE_START_COL + 5),
        column_single(VALUE_START_COL + 6),
        column_single(VALUE_START_COL + 7),
        column_single(TIMESTAMP_COL),
    ];
    proof {
        assert forall|j: int|
            0 <= j < 8 implies (#[trigger] res@[4 + j]).coefficients@ == seq![
            ((VALUE_START_COL + j) as usize, 1u64),
        ] by {
            if j == 0 || j == 1 || j == 2 || j == 3 || j == 4 || j == 5 || j == 6 || j == 7 {
            }
        }
    }
    res
}

/// The filter of memory-operation matches: real operations only.
pub fn ctl_filter() -> (f: ColumnFilter)
    ensures
        f.products@.len() == 0,
        f.constants@.len() == 1,
        f.constants@[0].coefficients@ == seq![(FILTER_COL, 1u64)],
{
    filter_single(FILTER_COL)
}

/// The columns other tables match initialized memory against: the address
/// and the value limbs.
pub fn ctl_looking_mem() -> (res: Vec<LinearColumn>)
    ensures
        res@.len() == 11,
        res@[0].coefficients@ == seq![(ADDR_CONTEXT_COL, 1u64)],
        res@[1].coefficients@ == seq![(ADDR_SEGMENT_COL, 1u64)],
        res@[2].coefficients@ == seq![(ADDR_VIRTUAL_COL, 1u64)],
        forall|j: int|
            0 <= j < 8 ==> (#[trigger] res@[3 + j]).coefficients@ == seq![
                ((VALUE_START_COL + j) as usize, 1u64),
            ],
{
    let res: Vec<LinearColumn> = vec![
        column_single(ADDR_CONTEXT_COL),
        column_single(ADDR_SEGMENT_COL),
        column_single(ADDR_VIRTUAL_COL),
        column_single(VALUE_START_COL),
        column_single(VALUE_START_COL + 1),
        column_single(VALUE_START_COL + 2),
        column_single(VALUE_START_COL + 3),
        column_single(VALUE_START_COL + 4),
        column_single(VALUE_START_COL + 5),
        column_single(VALUE_START_COL + 6),
        column_single(VALUE_START_COL + 7),
    ];
    proof {
        assert forall|j: int|
            0 <= j < 8 implies (#[trigger] res@[3 + j]).coefficients@ == seq![
            ((VALUE_START_COL + j) as usize, 1u64),
        ] by {
            if j == 0 || j == 1 || j == 2 || j == 3 || j == 4 || j == 5 || j == 6 || j == 7 {
            }
        }
    }
    res
}

/// The stale contexts this table offers for pruning: the stale-context
/// table shifted down by one (so real contexts come out), filtered by the
/// pruning flag.
pub fn ctl_context_pruning_looking() -> (res: CrossTableColumns)
    ensures
        res.columns@.len() == 1,
        res.columns@[0].coefficients@ == seq![(STALE_CONTEXTS_COL, 1u64)],
        res.columns@[0].constant == FIELD_ORDER - 1,
        res.filter.products@.len() == 0,
        res.filter.constants@.len() == 1,
        res.filter.constants@[0].coefficients@ == seq![(IS_PRUNED_COL, 1u64)],
{
    // the constant is minus one in the field
    CrossTableColumns {
        columns: vec![column_with_constant(STALE_CONTEXTS_COL, 1, FIELD_ORDER - 1)],
        filter: filter_single(IS_PRUNED_COL),
    }
}

/// The filter of initial-state matches: timestamp-zero rows, recognized as
/// one minus the timestamp times its inverse.
pub fn ctl_filter_mem_before() -> (f: ColumnFilter)
    ensures
        f.products@.len() == 1,
        f.products@[0].0.coefficients@ == seq![(TIMESTAMP_COL, 1u64)],
        f.products@[0].1.coefficients@ == seq![(TIMESTAMP_INV_COL, (FIELD_ORDER - 1) as u64)],
        f.constants@.len() == 1,
        f.constants@[0].coefficients@.len() == 0,
        f.constants@[0].constant == 1,
{
    // the coefficient is minus one in the field: the filter value is
    // 1 - timestamp * timestamp_inv, one exactly on timestamp-zero rows
    ColumnFilter {
        products: vec![
            (column_single(TIMESTAMP_COL), column_with_constant(TIMESTAMP_INV_COL, FIELD_ORDER - 1, 0)),
        ],
        constants: vec![column_constant(1)],
    }
}

/// The filter of final-state matches: the final-memory-state membership
/// column.
pub fn ctl_filter_mem_after() -> (f: ColumnFilter)
    ensures
        f.products@.len() == 0,
        f.constants@.len() == 1,
        f.constants@[0].coefficients@ == seq![(MEM_AFTER_FILTER_COL, 1u64)],
{
    filter_single(MEM_AFTER_FILTER_COL)
}

/// The two lookup arguments of the trace: range-check values (and, after a
/// context or segment change, the next virtual offset) against the counter
/// table, and stale contexts (shifted up by one) against the stale-context
/// table.
pub fn lookups() -> (res: Vec<LookupArgument>)
    ensures
        res@.len() == 2,
        res@[0].columns@.len() == 2,
        res@[0].columns@[0].coefficients@ == seq![(RANGE_CHECK_COL, 1u64)],
        res@[0].columns@[1].next_row_coefficients@ == seq![(ADDR_VIRTUAL_COL, 1u64)],
        res@[0].table_column.coefficients@ == seq![(COUNTER_COL, 1u64)],
        res@[0].frequencies_column.coefficients@ == seq![(FREQUENCIES_COL, 1u64)],
        res@[0].filter_columns@.len() == 2,
        res@[0].filter_columns@[0] is None,
        res@[0].filter_columns@[1] matches Some(f) && f.constants@.len() == 1
            && f.constants@[0].coefficients@ == seq![
            (CONTEXT_FIRST_CHANGE_COL, 1u64),
            (SEGMENT_FIRST_CHANGE_COL, 1u64),
        ],
        res@[1].columns@.len() == 1,
        res@[1].columns@[0].coefficients@ == seq![(ADDR_CONTEXT_COL, 1u64)],
        res@[1].columns@[0].constant == 1,
        res@[1].table_column.coefficients@ == seq![(STALE_CONTEXTS_COL, 1u64)],
        res@[1].frequencies_column.coefficients@ == seq![(STALE_CONTEXT_FREQUENCIES_COL, 1u64)],
        res@[1].filter_columns@.len() == 1,
        res@[1].filter_columns@[0] matches Some(f) && f.products@.len() == 0 && f.constants@.len()
            == 1 && f.constants@[0].coefficients@ == seq![(IS_STALE_COL, 1u64)],
{
    let change_filter = ColumnFilter {
        products: Vec::new(),
        constants: vec![column_sum(CONTEXT_FIRST_CHANGE_COL, SEGMENT_FIRST_CHANGE_COL)],
    };
    let range_check_lookup = LookupArgument {
        columns: vec![column_single(RANGE_CHECK_COL), column_single_next_row(ADDR_VIRTUAL_COL)],
        table_column: column_single(COUNTER_COL),
        frequencies_column: column_single(FREQUENCIES_COL),
        filter_columns: vec![None, Some(change_filter)],
    };
    let stale_lookup = LookupArgument {
        columns: vec![column_with_constant(ADDR_CONTEXT_COL, 1, 1)],
        table_column: column_single(STALE_CONTEXTS_COL),
        frequencies_column: column_single(STALE_CONTEXT_FREQUENCIES_COL),
        filter_columns: vec![Some(filter_single(IS_STALE_COL))],
    };
    vec![range_check_lookup, stale_lookup]
}

/// Whether the trace's lookup arguments require cross-table matching.
pub fn requires_ctls() -> (r: bool)
    ensures
        r == true,
{
    true
}

} // verus!
