//! The algebraic constraints of the memory trace.
//!
//! Each constraint is a polynomial over the columns of two neighbouring
//! rows that must evaluate to zero: some on every row, some only on
//! transitions (not across the wraparound boundary), one on the first row.
//! The same list is evaluated in two modes: directly over field elements
//! (checking mode), and as a symbolic expression graph (for recursive
//! verification), and the two are proved to agree on every pair of rows.

use vstd::prelude::*;
use crate::columns::{col_of_row, MemoryColumnsView, NUM_COLUMNS};
use crate::field::{
    fe_add, fe_add_spec, fe_mul, fe_mul_spec, fe_sub, fe_sub_spec, FIELD_ORDER,
};
use crate::segments::{
    SEGMENT_ACCOUNTS_LINKED_LIST, SEGMENT_CODE, SEGMENT_STORAGE_LINKED_LIST, SEGMENT_TRIE_DATA,
};

verus! {

/// Number of constraints of the memory trace.
pub const NUM_CONSTRAINTS: usize = 45;

/// Where a constraint must hold.
#[derive(Clone, Copy, Debug, PartialEq, Eq, Structural)]
pub enum ConstraintDomain {
    /// On every row, the last included.
    EveryRow,
    /// On every row but the last (no wraparound).
    Transition,
    /// On the first row only.
    FirstRow,
}

/// One evaluated constraint: its domain and its field value.
#[derive(Clone, Copy, Debug, PartialEq, Eq, Structural)]
pub struct Constraint {
    pub domain: ConstraintDomain,
    pub value: u64,
}

/// The sum of the three first-change flags subtracted from one: one when
/// the address is unchanged into the next row.
pub open spec fn au_spec(lv: MemoryColumnsView) -> u64 {
    fe_sub_spec(
        fe_sub_spec(fe_sub_spec(1u64, lv.context_first_change), lv.segment_first_change),
        lv.virtual_first_change,
    )
}

/// The domain of constraint `k`.
pub open spec fn constraint_domain_at(k: int) -> ConstraintDomain {
    if k == 0 || (2 <= k <= 5) || k == 33 || (34 <= k <= 41) || k == 42 || k == 1 {
        ConstraintDomain::EveryRow
    } else if k == 43 {
        ConstraintDomain::FirstRow
    } else {
        ConstraintDomain::Transition
    }
}

/// The value of constraint `k` on the row pair (`lv`, `nv`).
pub open spec fn constraint_value_at(k: int, lv: MemoryColumnsView, nv: MemoryColumnsView) -> u64 {
    let au = au_spec(lv);
    let not_au = fe_sub_spec(1u64, au);
    if k == 0 {
        // the real-operation flag is boolean
        fe_mul_spec(lv.filter, fe_sub_spec(lv.filter, 1u64))
    } else if k == 1 {
        // synthetic rows are reads
        fe_mul_spec(fe_sub_spec(1u64, lv.filter), fe_sub_spec(1u64, lv.is_read))
    } else if k == 2 {
        fe_mul_spec(lv.context_first_change, fe_sub_spec(1u64, lv.context_first_change))
    } else if k == 3 {
        fe_mul_spec(lv.segment_first_change, fe_sub_spec(1u64, lv.segment_first_change))
    } else if k == 4 {
        fe_mul_spec(lv.virtual_first_change, fe_sub_spec(1u64, lv.virtual_first_change))
    } else if k == 5 {
        fe_mul_spec(au, fe_sub_spec(1u64, au))
    } else if k == 6 {
        // no context change before a segment first-change
        fe_mul_spec(lv.segment_first_change, fe_sub_spec(nv.addr_context, lv.addr_context))
    } else if k == 7 {
        fe_mul_spec(lv.virtual_first_change, fe_sub_spec(nv.addr_context, lv.addr_context))
    } else if k == 8 {
        fe_mul_spec(lv.virtual_first_change, fe_sub_spec(nv.addr_segment, lv.addr_segment))
    } else if k == 9 {
        fe_mul_spec(au, fe_sub_spec(nv.addr_context, lv.addr_context))
    } else if k == 10 {
        fe_mul_spec(au, fe_sub_spec(nv.addr_segment, lv.addr_segment))
    } else if k == 11 {
        fe_mul_spec(au, fe_sub_spec(nv.addr_virtual, lv.addr_virtual))
    } else if k == 12 {
        // the stored range check is the delta selected by the flags
        fe_sub_spec(
            lv.range_check,
            fe_add_spec(
                fe_add_spec(
                    fe_add_spec(
                        fe_mul_spec(
                            lv.context_first_change,
                            fe_sub_spec(fe_sub_spec(nv.addr_context, lv.addr_context), 1u64),
                        ),
                        fe_mul_spec(
                            lv.segment_first_change,
                            fe_sub_spec(fe_sub_spec(nv.addr_segment, lv.addr_segment), 1u64),
                        ),
                    ),
                    fe_mul_spec(
                        lv.virtual_first_change,
                        fe_sub_spec(fe_sub_spec(nv.addr_virtual, lv.addr_virtual), 1u64),
                    ),
                ),
                fe_mul_spec(au, fe_sub_spec(nv.timestamp, lv.timestamp)),
            ),
        )
    } else if k == 13 {
        fe_sub_spec(
            lv.preinitialized_segments_aux,
            fe_mul_spec(
                fe_sub_spec(nv.addr_segment, SEGMENT_ACCOUNTS_LINKED_LIST),
                fe_sub_spec(nv.addr_segment, SEGMENT_STORAGE_LINKED_LIST),
            ),
        )
    } else if k == 14 {
        fe_sub_spec(
            lv.preinitialized_segments,
            fe_mul_spec(
                fe_mul_spec(
                    fe_sub_spec(nv.addr_segment, SEGMENT_CODE),
                    fe_sub_spec(nv.addr_segment, SEGMENT_TRIE_DATA),
                ),
                lv.preinitialized_segments_aux,
            ),
        )
    } else if k == 15 {
        fe_sub_spec(
            lv.initialize_aux,
            fe_mul_spec(fe_mul_spec(lv.preinitialized_segments, not_au), nv.is_read),
        )
    } else if 16 <= k < 32 {
        let j = (k - 16) / 2;
        if (k - 16) % 2 == 0 {
            // a read at an unchanged address repeats the limb
            fe_mul_spec(
                nv.is_read,
                fe_mul_spec(au, fe_sub_spec(nv.value_limbs[j], lv.value_limbs[j])),
            )
        } else {
            // a first read outside preinitialized segments is zero
            fe_mul_spec(lv.initialize_aux, nv.value_limbs[j])
        }
    } else if k == 32 {
        fe_add_spec(
            lv.maybe_in_mem_after,
            fe_mul_spec(fe_mul_spec(lv.filter, not_au), fe_sub_spec(lv.is_stale, 1u64)),
        )
    } else if k == 33 {
        fe_mul_spec(lv.mem_after_filter, fe_sub_spec(lv.mem_after_filter, 1u64))
    } else if 34 <= k < 42 {
        let j = k - 34;
        fe_mul_spec(
            fe_mul_spec(
                fe_sub_spec(lv.mem_after_filter, lv.maybe_in_mem_after),
                lv.preinitialized_segments,
            ),
            lv.value_limbs[j],
        )
    } else if k == 42 {
        fe_mul_spec(
            lv.timestamp,
            fe_sub_spec(fe_mul_spec(lv.timestamp, lv.timestamp_inv), 1u64),
        )
    } else if k == 43 {
        lv.counter
    } else if k == 44 {
        fe_sub_spec(fe_sub_spec(nv.counter, lv.counter), 1u64)
    } else {
        0u64
    }
}

/// Every column of both rows is a canonical field element.
pub open spec fn constraint_input_ok(r: MemoryColumnsView) -> bool {
    crate::columns::row_wf(r)
}

/// Reads one column of a row.
pub fn get_col(r: &MemoryColumnsView, c: usize) -> (v: u64)
    requires
        c < NUM_COLUMNS,
    ensures
        v == col_of_row(*r, c as int),
{
    let v = r.to_column_vec();
    v[c]
}

/// Checking mode: evaluates every constraint of the row pair over concrete
/// field elements.
#[verifier::rlimit(100)]
pub fn eval_row_constraints(lv: &MemoryColumnsView, nv: &MemoryColumnsView) -> (res: Vec<
    Constraint,
>)
    requires
        constraint_input_ok(*lv),
        constraint_input_ok(*nv),
    ensures
        res@.len() == NUM_CONSTRAINTS,
        forall|k: int|
            0 <= k < NUM_CONSTRAINTS ==> #[trigger] res@[k] == (Constraint {
                domain: constraint_domain_at(k),
                value: constraint_value_at(k, *lv, *nv),
            }),
{
    proof {
        assert forall|c: int| 0 <= c < NUM_COLUMNS implies #[trigger] col_of_row(*lv, c)
            < FIELD_ORDER by {}
        assert forall|c: int| 0 <= c < NUM_COLUMNS implies #[trigger] col_of_row(*nv, c)
            < FIELD_ORDER by {}
        assert(col_of_row(*lv, crate::columns::FILTER_COL as int) == lv.filter);
        assert(col_of_row(*lv, crate::columns::IS_READ_COL as int) == lv.is_read);
        assert(col_of_row(*lv, crate::columns::ADDR_CONTEXT_COL as int) == lv.addr_context);
        assert(col_of_row(*lv, crate::columns::ADDR_SEGMENT_COL as int) == lv.addr_segment);
        assert(col_of_row(*lv, crate::columns::ADDR_VIRTUAL_COL as int) == lv.addr_virtual);
        assert(col_of_row(*lv, crate::columns::TIMESTAMP_COL as int) == lv.timestamp);
        assert(col_of_row(*lv, crate::columns::TIMESTAMP_INV_COL as int) == lv.timestamp_inv);
        assert(col_of_row(*lv, crate::columns::COUNTER_COL as int) == lv.counter);
        assert(col_of_row(*lv, crate::columns::RANGE_CHECK_COL as int) == lv.range_check);
        assert(col_of_row(*lv, crate::columns::CONTEXT_FIRST_CHANGE_COL as int)
            == lv.context_first_change);
        assert(col_of_row(*lv, crate::columns::SEGMENT_FIRST_CHANGE_COL as int)
            == lv.segment_first_change);
        assert(col_of_row(*lv, crate::columns::VIRTUAL_FIRST_CHANGE_COL as int)
            == lv.virtual_first_change);
        assert(col_of_row(*lv, crate::columns::PREINITIALIZED_SEGMENTS_AUX_COL as int)
            == lv.preinitialized_segments_aux);
        assert(col_of_row(*lv, crate::columns::PREINITIALIZED_SEGMENTS_COL as int)
            == lv.preinitialized_segments);
        assert(col_of_row(*lv, crate::columns::INITIALIZE_AUX_COL as int) == lv.initialize_aux);
        assert(col_of_row(*lv, crate::columns::IS_STALE_COL as int) == lv.is_stale);
        assert(col_of_row(*lv, crate::columns::MAYBE_IN_MEM_AFTER_COL as int)
            == lv.maybe_in_mem_after);
        assert(col_of_row(*lv, crate::columns::MEM_AFTER_FILTER_COL as int)
            == lv.mem_after_filter);
        assert forall|j: int| 0 <= j < crate::ops::VALUE_LIMBS implies #[trigger] lv.value_limbs[j]
            < FIELD_ORDER by {
            assert(col_of_row(*lv, crate::columns::VALUE_START_COL + j) == lv.value_limbs[j]);
        }
        assert forall|j: int| 0 <= j < crate::ops::VALUE_LIMBS implies #[trigger] nv.value_limbs[j]
            < FIELD_ORDER by {
            assert(col_of_row(*nv, crate::columns::VALUE_START_COL + j) == nv.value_limbs[j]);
        }
        assert(col_of_row(*nv, crate::columns::IS_READ_COL as int) == nv.is_read);
        assert(col_of_row(*nv, crate::columns::ADDR_CONTEXT_COL as int) == nv.addr_context);
        assert(col_of_row(*nv, crate::columns::ADDR_SEGMENT_COL as int) == nv.addr_segment);
        assert(col_of_row(*nv, crate::columns::ADDR_VIRTUAL_COL as int) == nv.addr_virtual);
        assert(col_of_row(*nv, crate::columns::TIMESTAMP_COL as int) == nv.timestamp);
        assert(col_of_row(*nv, crate::columns::COUNTER_COL as int) == nv.counter);
    }
    let one: u64 = 1;
    let au = fe_sub(
        fe_sub(fe_sub(one, lv.context_first_change), lv.segment_first_change),
        lv.virtual_first_change,
    );
    let not_au = fe_sub(one, au);
    let mut res: Vec<Constraint> = Vec::new();
    res.push(Constraint {
        domain: ConstraintDomain::EveryRow,
        value: fe_mul(lv.filter, fe_sub(lv.filter, one)),
    });
    res.push(Constraint {
        domain: ConstraintDomain::EveryRow,
        value: fe_mul(fe_sub(one, lv.filter), fe_sub(one, lv.is_read)),
    });
    res.push(Constraint {
        domain: ConstraintDomain::EveryRow,
        value: fe_mul(lv.context_first_change, fe_sub(one, lv.context_first_change)),
    });
    res.push(Constraint {
        domain: ConstraintDomain::EveryRow,
        value: fe_mul(lv.segment_first_change, fe_sub(one, lv.segment_first_change)),
    });
    res.push(Constraint {
        domain: ConstraintDomain::EveryRow,
        value: fe_mul(lv.virtual_first_change, fe_sub(one, lv.virtual_first_change)),
    });
    res.push(Constraint { domain: ConstraintDomain::EveryRow, value: fe_mul(au, fe_sub(one, au)) });
    res.push(Constraint {
        domain: ConstraintDomain::Transition,
        value: fe_mul(lv.segment_first_change, fe_sub(nv.addr_context, lv.addr_context)),
    });
    res.push(Constraint {
        domain: ConstraintDomain::Transition,
        value: fe_mul(lv.virtual_first_change, fe_sub(nv.addr_context, lv.addr_context)),
    });
    res.push(Constraint {
        domain: ConstraintDomain::Transition,
        value: fe_mul(lv.virtual_first_change, fe_sub(nv.addr_segment, lv.addr_segment)),
    });
    res.push(Constraint {
        domain: ConstraintDomain::Transition,
        value: fe_mul(au, fe_sub(nv.addr_context, lv.addr_context)),
    });
    res.push(Constraint {
        domain: ConstraintDomain::Transition,
        value: fe_mul(au, fe_sub(nv.addr_segment, lv.addr_segment)),
    });
    res.push(Constraint {
        domain: ConstraintDomain::Transition,
        value: fe_mul(au, fe_sub(nv.addr_virtual, lv.addr_virtual)),
    });
    res.push(Constraint {
        domain: ConstraintDomain::Transition,
        value: fe_sub(
            lv.range_check,
            fe_add(
                fe_add(
                    fe_add(
                        fe_mul(
                            lv.context_first_change,
                            fe_sub(fe_sub(nv.addr_context, lv.addr_context), one),
                        ),
                        fe_mul(
                            lv.segment_first_change,
                            fe_sub(fe_sub(nv.addr_segment, lv.addr_segment), one),
                        ),
                    ),
                    fe_mul(
                        lv.virtual_first_change,
                        fe_sub(fe_sub(nv.addr_virtual, lv.addr_virtual), one),
                    ),
                ),
                fe_mul(au, fe_sub(nv.timestamp, lv.timestamp)),
            ),
        ),
    });
    res.push(Constraint {
        domain: ConstraintDomain::Transition,
        value: fe_sub(
            lv.preinitialized_segments_aux,
            fe_mul(
                fe_sub(nv.addr_segment, SEGMENT_ACCOUNTS_LINKED_LIST),
                fe_sub(nv.addr_segment, SEGMENT_STORAGE_LINKED_LIST),
            ),
        ),
    });
    res.push(Constraint {
        domain: ConstraintDomain::Transition,
        value: fe_sub(
            lv.preinitialized_segments,
            fe_mul(
                fe_mul(
                    fe_sub(nv.addr_segment, SEGMENT_CODE),
                    fe_sub(nv.addr_segment, SEGMENT_TRIE_DATA),
                ),
                lv.preinitialized_segments_aux,
            ),
        ),
    });
    res.push(Constraint {
        domain: ConstraintDomain::Transition,
        value: fe_sub(
            lv.initialize_aux,
            fe_mul(fe_mul(lv.preinitialized_segments, not_au), nv.is_read),
        ),
    });
    let mut j: usize = 0;
    while j < crate::ops::VALUE_LIMBS
        invariant
            0 <= j <= crate::ops::VALUE_LIMBS,
            res@.len() == 16 + 2 * j,
            constraint_input_ok(*lv),
            constraint_input_ok(*nv),
            au == au_spec(*lv),
            au < FIELD_ORDER,
            not_au == fe_sub_spec(1u64, au_spec(*lv)),
            not_au < FIELD_ORDER,
            forall|jj: int| 0 <= jj < crate::ops::VALUE_LIMBS ==> #[trigger] lv.value_limbs[jj] < FIELD_ORDER,
            forall|jj: int| 0 <= jj < crate::ops::VALUE_LIMBS ==> #[trigger] nv.value_limbs[jj] < FIELD_ORDER,
            nv.is_read < FIELD_ORDER,
            lv.initialize_aux < FIELD_ORDER,
            forall|k: int|
                0 <= k < 16 + 2 * j ==> #[trigger] res@[k] == (Constraint {
                    domain: constraint_domain_at(k),
                    value: constraint_value_at(k, *lv, *nv),
                }),
        decreases crate::ops::VALUE_LIMBS - j,
    {
        res.push(Constraint {
            domain: ConstraintDomain::Transition,
            value: fe_mul(
                nv.is_read,
                fe_mul(au, fe_sub(nv.value_limbs[j], lv.value_limbs[j])),
            ),
        });
        res.push(Constraint {
            domain: ConstraintDomain::Transition,
            value: fe_mul(lv.initialize_aux, nv.value_limbs[j]),
        });
        proof {
            let k0 = 16 + 2 * j as int;
            assert(constraint_value_at(k0, *lv, *nv) == fe_mul_spec(
                nv.is_read,
                fe_mul_spec(
                    au_spec(*lv),
                    fe_sub_spec(nv.value_limbs[j as int], lv.value_limbs[j as int]),
                ),
            ));
            assert(constraint_value_at(k0 + 1, *lv, *nv) == fe_mul_spec(
                lv.initialize_aux,
                nv.value_limbs[j as int],
            ));
        }
        j = j + 1;
    }
    res.push(Constraint {
        domain: ConstraintDomain::Transition,
        value: fe_add(
            lv.maybe_in_mem_after,
            fe_mul(fe_mul(lv.filter, not_au), fe_sub(lv.is_stale, one)),
        ),
    });
    res.push(Constraint {
        domain: ConstraintDomain::EveryRow,
        value: fe_mul(lv.mem_after_filter, fe_sub(lv.mem_after_filter, one)),
    });
    let mut j: usize = 0;
    while j < crate::ops::VALUE_LIMBS
        invariant
            0 <= j <= crate::ops::VALUE_LIMBS,
            res@.len() == 34 + j,
            constraint_input_ok(*lv),
            constraint_input_ok(*nv),
            forall|jj: int| 0 <= jj < crate::ops::VALUE_LIMBS ==> #[trigger] lv.value_limbs[jj] < FIELD_ORDER,
            lv.mem_after_filter < FIELD_ORDER,
            lv.maybe_in_mem_after < FIELD_ORDER,
            lv.preinitialized_segments < FIELD_ORDER,
            forall|k: int|
                0 <= k < 34 + j ==> #[trigger] res@[k] == (Constraint {
                    domain: constraint_domain_at(k),
                    value: constraint_value_at(k, *lv, *nv),
                }),
        decreases crate::ops::VALUE_LIMBS - j,
    {
        res.push(Constraint {
            domain: ConstraintDomain::EveryRow,
            value: fe_mul(
                fe_mul(
                    fe_sub(lv.mem_after_filter, lv.maybe_in_mem_after),
                    lv.preinitialized_segments,
                ),
                lv.value_limbs[j],
            ),
        });
        proof {
            let k0 = 34 + j as int;
            assert(constraint_value_at(k0, *lv, *nv) == fe_mul_spec(
                fe_mul_spec(
                    fe_sub_spec(lv.mem_after_filter, lv.maybe_in_mem_after),
                    lv.preinitialized_segments,
                ),
                lv.value_limbs[j as int],
            ));
        }
        j = j + 1;
    }
    res.push(Constraint {
        domain: ConstraintDomain::EveryRow,
        value: fe_mul(lv.timestamp, fe_sub(fe_mul(lv.timestamp, lv.timestamp_inv), one)),
    });
    res.push(Constraint { domain: ConstraintDomain::FirstRow, value: lv.counter });
    res.push(Constraint {
        domain: ConstraintDomain::Transition,
        value: fe_sub(fe_sub(nv.counter, lv.counter), one),
    });
    res
}

/// A node of the symbolic expression graph: a constant, a column of the
/// current or the next row, or an arithmetic gate.
#[derive(Debug)]
pub enum Expr {
    Const(u64),
    Local(usize),
    Next(usize),
    Add(Box<Expr>, Box<Expr>),
    Sub(Box<Expr>, Box<Expr>),
    Mul(Box<Expr>, Box<Expr>),
}

/// The value of a symbolic expression on a concrete row pair.
pub open spec fn eval_expr_spec(e: Expr, lv: MemoryColumnsView, nv: MemoryColumnsView) -> u64
    decreases e,
{
    match e {
        Expr::Const(c) => c,
        Expr::Local(c) => col_of_row(lv, c as int),
        Expr::Next(c) => col_of_row(nv, c as int),
        Expr::Add(a, b) => fe_add_spec(eval_expr_spec(*a, lv, nv), eval_expr_spec(*b, lv, nv)),
        Expr::Sub(a, b) => fe_sub_spec(eval_expr_spec(*a, lv, nv), eval_expr_spec(*b, lv, nv)),
        Expr::Mul(a, b) => fe_mul_spec(eval_expr_spec(*a, lv, nv), eval_expr_spec(*b, lv, nv)),
    }
}

/// The total degree of a symbolic expression as a polynomial in the
/// columns: constants are degree zero, columns degree one, products add.
pub open spec fn expr_degree(e: Expr) -> int
    decreases e,
{
    match e {
        Expr::Const(_) => 0,
        Expr::Local(_) => 1,
        Expr::Next(_) => 1,
        Expr::Add(a, b) => if expr_degree(*a) >= expr_degree(*b) {
            expr_degree(*a)
        } else {
            expr_degree(*b)
        },
        Expr::Sub(a, b) => if expr_degree(*a) >= expr_degree(*b) {
            expr_degree(*a)
        } else {
            expr_degree(*b)
        },
        Expr::Mul(a, b) => expr_degree(*a) + expr_degree(*b),
    }
}

/// Every constant of the expression is a canonical field element.
pub open spec fn expr_fe_ok(e: Expr) -> bool
    decreases e,
{
    match e {
        Expr::Const(c) => c < FIELD_ORDER,
        Expr::Local(_) => true,
        Expr::Next(_) => true,
        Expr::Add(a, b) => expr_fe_ok(*a) && expr_fe_ok(*b),
        Expr::Sub(a, b) => expr_fe_ok(*a) && expr_fe_ok(*b),
        Expr::Mul(a, b) => expr_fe_ok(*a) && expr_fe_ok(*b),
    }
}

/// A constant node.
fn e_const(c: u64) -> (e: Expr)
    requires
        c < FIELD_ORDER,
    ensures
        forall|l: MemoryColumnsView, n: MemoryColumnsView| eval_expr_spec(e, l, n) == c,
        expr_degree(e) == 0,
        expr_fe_ok(e),
{
    Expr::Const(c)
}

/// A column of the current row.
fn e_local(c: usize) -> (e: Expr)
    ensures
        forall|l: MemoryColumnsView, n: MemoryColumnsView|
            eval_expr_spec(e, l, n) == col_of_row(l, c as int),
        expr_degree(e) == 1,
        expr_fe_ok(e),
{
    Expr::Local(c)
}

/// A column of the next row.
fn e_next(c: usize) -> (e: Expr)
    ensures
        forall|l: MemoryColumnsView, n: MemoryColumnsView|
            eval_expr_spec(e, l, n) == col_of_row(n, c as int),
        expr_degree(e) == 1,
        expr_fe_ok(e),
{
    Expr::Next(c)
}

/// A sum gate.
fn e_add(a: Expr, b: Expr) -> (e: Expr)
    ensures
        forall|l: MemoryColumnsView, n: MemoryColumnsView|
            #[trigger] eval_expr_spec(e, l, n) == fe_add_spec(
                eval_expr_spec(a, l, n),
                eval_expr_spec(b, l, n),
            ),
        expr_degree(e) == if expr_degree(a) >= expr_degree(b) {
            expr_degree(a)
        } else {
            expr_degree(b)
        },
        expr_fe_ok(e) == (expr_fe_ok(a) && expr_fe_ok(b)),
{
    Expr::Add(Box::new(a), Box::new(b))
}

/// A difference gate.
fn e_sub(a: Expr, b: Expr) -> (e: Expr)
    ensures
        forall|l: MemoryColumnsView, n: MemoryColumnsView|
            #[trigger] eval_expr_spec(e, l, n) == fe_sub_spec(
                eval_expr_spec(a, l, n),
                eval_expr_spec(b, l, n),
            ),
        expr_degree(e) == if expr_degree(a) >= expr_degree(b) {
            expr_degree(a)
        } else {
            expr_degree(b)
        },
        expr_fe_ok(e) == (expr_fe_ok(a) && expr_fe_ok(b)),
{
    Expr::Sub(Box::new(a), Box::new(b))
}

/// A product gate.
fn e_mul(a: Expr, b: Expr) -> (e: Expr)
    ensures
        forall|l: MemoryColumnsView, n: MemoryColumnsView|
            #[trigger] eval_expr_spec(e, l, n) == fe_mul_spec(
                eval_expr_spec(a, l, n),
                eval_expr_spec(b, l, n),
            ),
        expr_degree(e) == expr_degree(a) + expr_degree(b),
        expr_fe_ok(e) == (expr_fe_ok(a) && expr_fe_ok(b)),
{
    Expr::Mul(Box::new(a), Box::new(b))
}

/// One constraint in symbolic form.
#[derive(Debug)]
pub struct SymbolicConstraint {
    pub domain: ConstraintDomain,
    pub expr: Expr,
}

/// The shape `symbolic_row_constraints` guarantees: one expression per
/// constraint, in order, evaluating on every row pair to exactly the
/// checking-mode value, with total degree at most three and canonical
/// constants.
pub open spec fn is_symbolic_form(sym: Seq<SymbolicConstraint>) -> bool {
    &&& sym.len() == NUM_CONSTRAINTS
    &&& (forall|k: int|
        0 <= k < sym.len() ==> (#[trigger] sym[k]).domain == constraint_domain_at(k))
    &&& (forall|k: int, lv: MemoryColumnsView, nv: MemoryColumnsView|
        0 <= k < sym.len() ==> #[trigger] eval_expr_spec(sym[k].expr, lv, nv)
            == constraint_value_at(k, lv, nv))
    &&& (forall|k: int| 0 <= k < sym.len() ==> expr_degree((#[trigger] sym[k]).expr) <= 3)
    &&& (forall|k: int| 0 <= k < sym.len() ==> expr_fe_ok((#[trigger] sym[k]).expr))
}

/// The symbolic expression for the address-unchanged indicator.
fn e_au() -> (e: Expr)
    ensures
        forall|l: MemoryColumnsView, n: MemoryColumnsView|
            #[trigger] eval_expr_spec(e, l, n) == au_spec(l),
        expr_degree(e) == 1,
        expr_fe_ok(e),
{
    let e = e_sub(
        e_sub(
            e_sub(e_const(1), e_local(crate::columns::CONTEXT_FIRST_CHANGE_COL)),
            e_local(crate::columns::SEGMENT_FIRST_CHANGE_COL),
        ),
        e_local(crate::columns::VIRTUAL_FIRST_CHANGE_COL),
    );
    proof {
        assert forall|l: MemoryColumnsView, n: MemoryColumnsView|
            #[trigger] eval_expr_spec(e, l, n) == au_spec(l) by {}
    }
    e
}

/// The symbolic expression for one minus the address-unchanged indicator.
fn e_not_au() -> (e: Expr)
    ensures
        forall|l: MemoryColumnsView, n: MemoryColumnsView|
            #[trigger] eval_expr_spec(e, l, n) == fe_sub_spec(1u64, au_spec(l)),
        expr_degree(e) == 1,
        expr_fe_ok(e),
{
    let e = e_sub(e_const(1), e_au());
    proof {
        assert forall|l: MemoryColumnsView, n: MemoryColumnsView|
            #[trigger] eval_expr_spec(e, l, n) == fe_sub_spec(1u64, au_spec(l)) by {}
    }
    e
}

/// Every constraint built so far is in place: right domain, value agreeing
/// with checking mode on every row pair, degree at most three, canonical
/// constants.
pub open spec fn sym_prefix_ok(sym: Seq<SymbolicConstraint>) -> bool {
    &&& (forall|k: int|
        0 <= k < sym.len() ==> (#[trigger] sym[k]).domain == constraint_domain_at(k))
    &&& (forall|k: int, lv: MemoryColumnsView, nv: MemoryColumnsView|
        0 <= k < sym.len() ==> #[trigger] eval_expr_spec(sym[k].expr, lv, nv)
            == constraint_value_at(k, lv, nv))
    &&& (forall|k: int| 0 <= k < sym.len() ==> expr_degree((#[trigger] sym[k]).expr) <= 3)
    &&& (forall|k: int| 0 <= k < sym.len() ==> expr_fe_ok((#[trigger] sym[k]).expr))
}

/// Builds the boolean, ordering and gating constraints (the first sixteen).
#[verifier::rlimit(100)]
fn push_ordering_constraints(res: &mut Vec<SymbolicConstraint>)
    requires
        old(res)@.len() == 0,
    ensures
        final(res)@.len() == 16,
        sym_prefix_ok(final(res)@),
{
    let e0 = e_mul(
        e_local(crate::columns::FILTER_COL),
        e_sub(e_local(crate::columns::FILTER_COL), e_const(1)),
    );
    let ghost g0 = e0;
    res.push(SymbolicConstraint { domain: ConstraintDomain::EveryRow, expr: e0 });
    let e1 = e_mul(
        e_sub(e_const(1), e_local(crate::columns::FILTER_COL)),
        e_sub(e_const(1), e_local(crate::columns::IS_READ_COL)),
    );
    let ghost g1 = e1;
    res.push(SymbolicConstraint { domain: ConstraintDomain::EveryRow, expr: e1 });
    let e2 = e_mul(
        e_local(crate::columns::CONTEXT_FIRST_CHANGE_COL),
        e_sub(e_const(1), e_local(crate::columns::CONTEXT_FIRST_CHANGE_COL)),
    );
    let ghost g2 = e2;
    res.push(SymbolicConstraint { domain: ConstraintDomain::EveryRow, expr: e2 });
    let e3 = e_mul(
        e_local(crate::columns::SEGMENT_FIRST_CHANGE_COL),
        e_sub(e_const(1), e_local(crate::columns::SEGMENT_FIRST_CHANGE_COL)),
    );
    let ghost g3 = e3;
    res.push(SymbolicConstraint { domain: ConstraintDomain::EveryRow, expr: e3 });
    let e4 = e_mul(
        e_local(crate::columns::VIRTUAL_FIRST_CHANGE_COL),
        e_sub(e_const(1), e_local(crate::columns::VIRTUAL_FIRST_CHANGE_COL)),
    );
    let ghost g4 = e4;
    res.push(SymbolicConstraint { domain: ConstraintDomain::EveryRow, expr: e4 });
    let e5 = e_mul(e_au(), e_sub(e_const(1), e_au()));
    let ghost g5 = e5;
    res.push(SymbolicConstraint { domain: ConstraintDomain::EveryRow, expr: e5 });
    let e6 = e_mul(
        e_local(crate::columns::SEGMENT_FIRST_CHANGE_COL),
        e_sub(e_next(crate::columns::ADDR_CONTEXT_COL), e_local(crate::columns::ADDR_CONTEXT_COL)),
    );
    let ghost g6 = e6;
    res.push(SymbolicConstraint { domain: ConstraintDomain::Transition, expr: e6 });
    let e7 = e_mul(
        e_local(crate::columns::VIRTUAL_FIRST_CHANGE_COL),
        e_sub(e_next(crate::columns::ADDR_CONTEXT_COL), e_local(crate::columns::ADDR_CONTEXT_COL)),
    );
    let ghost g7 = e7;
    res.push(SymbolicConstraint { domain: ConstraintDomain::Transition, expr: e7 });
    let e8 = e_mul(
        e_local(crate::columns::VIRTUAL_FIRST_CHANGE_COL),
        e_sub(e_next(crate::columns::ADDR_SEGMENT_COL), e_local(crate::columns::ADDR_SEGMENT_COL)),
    );
    let ghost g8 = e8;
    res.push(SymbolicConstraint { domain: ConstraintDomain::Transition, expr: e8 });
    let e9 = e_mul(
        e_au(),
        e_sub(e_next(crate::columns::ADDR_CONTEXT_COL), e_local(crate::columns::ADDR_CONTEXT_COL)),
    );
    let ghost g9 = e9;
    res.push(SymbolicConstraint { domain: ConstraintDomain::Transition, expr: e9 });
    let e10 = e_mul(
        e_au(),
        e_sub(e_next(crate::columns::ADDR_SEGMENT_COL), e_local(crate::columns::ADDR_SEGMENT_COL)),
    );
    let ghost g10 = e10;
    res.push(SymbolicConstraint { domain: ConstraintDomain::Transition, expr: e10 });
    let e11 = e_mul(
        e_au(),
        e_sub(e_next(crate::columns::ADDR_VIRTUAL_COL), e_local(crate::columns::ADDR_VIRTUAL_COL)),
    );
    let ghost g11 = e11;
    res.push(SymbolicConstraint { domain: ConstraintDomain::Transition, expr: e11 });
    let e12 = e_sub(
        e_local(crate::columns::RANGE_CHECK_COL),
        e_add(
            e_add(
                e_add(
                    e_mul(
                        e_local(crate::columns::CONTEXT_FIRST_CHANGE_COL),
                        e_sub(
                            e_sub(
                                e_next(crate::columns::ADDR_CONTEXT_COL),
                                e_local(crate::columns::ADDR_CONTEXT_COL),
                            ),
                            e_const(1),
                        ),
                    ),
                    e_mul(
                        e_local(crate::columns::SEGMENT_FIRST_CHANGE_COL),
                        e_sub(
                            e_sub(
                                e_next(crate::columns::ADDR_SEGMENT_COL),
                                e_local(crate::columns::ADDR_SEGMENT_COL),
                            ),
                            e_const(1),
                        ),
                    ),
                ),
                e_mul(
                    e_local(crate::columns::VIRTUAL_FIRST_CHANGE_COL),
                    e_sub(
                        e_sub(
                            e_next(crate::columns::ADDR_VIRTUAL_COL),
                            e_local(crate::columns::ADDR_VIRTUAL_COL),
                        ),
                        e_const(1),
                    ),
                ),
            ),
            e_mul(
                e_au(),
                e_sub(e_next(crate::columns::TIMESTAMP_COL), e_local(crate::columns::TIMESTAMP_COL)),
            ),
        ),
    );
    let ghost g12 = e12;
    res.push(SymbolicConstraint { domain: ConstraintDomain::Transition, expr: e12 });
    let e13 = e_sub(
        e_local(crate::columns::PREINITIALIZED_SEGMENTS_AUX_COL),
        e_mul(
            e_sub(e_next(crate::columns::ADDR_SEGMENT_COL), e_const(SEGMENT_ACCOUNTS_LINKED_LIST)),
            e_sub(e_next(crate::columns::ADDR_SEGMENT_COL), e_const(SEGMENT_STORAGE_LINKED_LIST)),
        ),
    );
    let ghost g13 = e13;
    res.push(SymbolicConstraint { domain: ConstraintDomain::Transition, expr: e13 });
    let e14 = e_sub(
        e_local(crate::columns::PREINITIALIZED_SEGMENTS_COL),
        e_mul(
            e_mul(
                e_sub(e_next(crate::columns::ADDR_SEGMENT_COL), e_const(SEGMENT_CODE)),
                e_sub(e_next(crate::columns::ADDR_SEGMENT_COL), e_const(SEGMENT_TRIE_DATA)),
            ),
            e_local(crate::columns::PREINITIALIZED_SEGMENTS_AUX_COL),
        ),
    );
    let ghost g14 = e14;
    res.push(SymbolicConstraint { domain: ConstraintDomain::Transition, expr: e14 });
    let e15 = e_sub(
        e_local(crate::columns::INITIALIZE_AUX_COL),
        e_mul(
            e_mul(e_local(crate::columns::PREINITIALIZED_SEGMENTS_COL), e_not_au()),
            e_next(crate::columns::IS_READ_COL),
        ),
    );
    let ghost g15 = e15;
    res.push(SymbolicConstraint { domain: ConstraintDomain::Transition, expr: e15 });
    proof {
        let s = res@;
        assert(s.len() == 16);
        assert(s[0].expr == g0 && s[1].expr == g1 && s[2].expr == g2 && s[3].expr == g3
            && s[4].expr == g4 && s[5].expr == g5 && s[6].expr == g6 && s[7].expr == g7
            && s[8].expr == g8 && s[9].expr == g9 && s[10].expr == g10 && s[11].expr == g11
            && s[12].expr == g12 && s[13].expr == g13 && s[14].expr == g14 && s[15].expr == g15);
        assert forall|k: int, lv: MemoryColumnsView, nv: MemoryColumnsView|
            0 <= k < s.len() implies #[trigger] eval_expr_spec(s[k].expr, lv, nv)
            == constraint_value_at(k, lv, nv) by {
            if k == 0 {
                assert(eval_expr_spec(g0, lv, nv) == constraint_value_at(0, lv, nv));
            } else if k == 1 {
                assert(eval_expr_spec(g1, lv, nv) == constraint_value_at(1, lv, nv));
            } else if k == 2 {
                assert(eval_expr_spec(g2, lv, nv) == constraint_value_at(2, lv, nv));
            } else if k == 3 {
                assert(eval_expr_spec(g3, lv, nv) == constraint_value_at(3, lv, nv));
            } else if k == 4 {
                assert(eval_expr_spec(g4, lv, nv) == constraint_value_at(4, lv, nv));
            } else if k == 5 {
                assert(eval_expr_spec(g5, lv, nv) == constraint_value_at(5, lv, nv));
            } else if k == 6 {
                assert(eval_expr_spec(g6, lv, nv) == constraint_value_at(6, lv, nv));
            } else if k == 7 {
                assert(eval_expr_spec(g7, lv, nv) == constraint_value_at(7, lv, nv));
            } else if k == 8 {
                assert(eval_expr_spec(g8, lv, nv) == constraint_value_at(8, lv, nv));
            } else if k == 9 {
                assert(eval_expr_spec(g9, lv, nv) == constraint_value_at(9, lv, nv));
            } else if k == 10 {
                assert(eval_expr_spec(g10, lv, nv) == constraint_value_at(10, lv, nv));
            } else if k == 11 {
                assert(eval_expr_spec(g11, lv, nv) == constraint_value_at(11, lv, nv));
            } else if k == 12 {
                assert(eval_expr_spec(g12, lv, nv) == constraint_value_at(12, lv, nv));
            } else if k == 13 {
                assert(eval_expr_spec(g13, lv, nv) == constraint_value_at(13, lv, nv));
            } else if k == 14 {
                assert(eval_expr_spec(g14, lv, nv) == constraint_value_at(14, lv, nv));
            } else {
                assert(eval_expr_spec(g15, lv, nv) == constraint_value_at(15, lv, nv));
            }
        }
    }
}

/// Builds the per-limb read-consistency and zero-initialization
/// constraints, two per limb.
#[verifier::rlimit(100)]
fn push_value_constraints(res: &mut Vec<SymbolicConstraint>)
    requires
        old(res)@.len() == 16,
        sym_prefix_ok(old(res)@),
    ensures
        final(res)@.len() == 32,
        sym_prefix_ok(final(res)@),
{
    let mut j: usize = 0;
    while j < crate::ops::VALUE_LIMBS
        invariant
            0 <= j <= crate::ops::VALUE_LIMBS,
            res@.len() == 16 + 2 * j,
            sym_prefix_ok(res@),
        decreases crate::ops::VALUE_LIMBS - j,
    {
        let ghost len0 = res@.len() as int;
        let ea = e_mul(
            e_next(crate::columns::IS_READ_COL),
            e_mul(
                e_au(),
                e_sub(
                    e_next(crate::columns::VALUE_START_COL + j),
                    e_local(crate::columns::VALUE_START_COL + j),
                ),
            ),
        );
        let ghost ga = ea;
        res.push(SymbolicConstraint { domain: ConstraintDomain::Transition, expr: ea });
        let eb = e_mul(
            e_local(crate::columns::INITIALIZE_AUX_COL),
            e_next(crate::columns::VALUE_START_COL + j),
        );
        let ghost gb = eb;
        res.push(SymbolicConstraint { domain: ConstraintDomain::Transition, expr: eb });
        proof {
            let s = res@;
            assert(s[len0] == SymbolicConstraint {
                domain: ConstraintDomain::Transition,
                expr: ga,
            });
            assert(s[len0 + 1] == SymbolicConstraint {
                domain: ConstraintDomain::Transition,
                expr: gb,
            });
            assert(constraint_domain_at(len0) == ConstraintDomain::Transition);
            assert(constraint_domain_at(len0 + 1) == ConstraintDomain::Transition);
            assert forall|lv: MemoryColumnsView, nv: MemoryColumnsView|
                #[trigger] eval_expr_spec(ga, lv, nv) == constraint_value_at(len0, lv, nv)
                    && eval_expr_spec(gb, lv, nv) == constraint_value_at(len0 + 1, lv, nv) by {
                assert(col_of_row(lv, crate::columns::VALUE_START_COL + j as int)
                    == lv.value_limbs[j as int]);
                assert(col_of_row(nv, crate::columns::VALUE_START_COL + j as int)
                    == nv.value_limbs[j as int]);
                assert(constraint_value_at(len0, lv, nv) == fe_mul_spec(
                    nv.is_read,
                    fe_mul_spec(
                        au_spec(lv),
                        fe_sub_spec(nv.value_limbs[j as int], lv.value_limbs[j as int]),
                    ),
                ));
                assert(constraint_value_at(len0 + 1, lv, nv) == fe_mul_spec(
                    lv.initialize_aux,
                    nv.value_limbs[j as int],
                ));
            }
            assert forall|k: int, lv: MemoryColumnsView, nv: MemoryColumnsView|
                0 <= k < s.len() implies #[trigger] eval_expr_spec(s[k].expr, lv, nv)
                == constraint_value_at(k, lv, nv) by {
                if k < len0 {
                } else if k == len0 {
                    assert(eval_expr_spec(ga, lv, nv) == constraint_value_at(len0, lv, nv));
                } else {
                    assert(eval_expr_spec(gb, lv, nv) == constraint_value_at(len0 + 1, lv, nv));
                }
            }
        }
        j = j + 1;
    }
}

/// Builds the final-state, timestamp-inverse and counter constraints.
#[verifier::rlimit(100)]
fn push_final_state_constraints(res: &mut Vec<SymbolicConstraint>)
    requires
        old(res)@.len() == 32,
        sym_prefix_ok(old(res)@),
    ensures
        final(res)@.len() == NUM_CONSTRAINTS,
        sym_prefix_ok(final(res)@),
{
    let e32 = e_add(
        e_local(crate::columns::MAYBE_IN_MEM_AFTER_COL),
        e_mul(
            e_mul(e_local(crate::columns::FILTER_COL), e_not_au()),
            e_sub(e_local(crate::columns::IS_STALE_COL), e_const(1)),
        ),
    );
    let ghost g32 = e32;
    res.push(SymbolicConstraint { domain: ConstraintDomain::Transition, expr: e32 });
    let e33 = e_mul(
        e_local(crate::columns::MEM_AFTER_FILTER_COL),
        e_sub(e_local(crate::columns::MEM_AFTER_FILTER_COL), e_const(1)),
    );
    let ghost g33 = e33;
    res.push(SymbolicConstraint { domain: ConstraintDomain::EveryRow, expr: e33 });
    let mut j: usize = 0;
    while j < crate::ops::VALUE_LIMBS
        invariant
            0 <= j <= crate::ops::VALUE_LIMBS,
            res@.len() == 34 + j,
            sym_prefix_ok(res@),
        decreases crate::ops::VALUE_LIMBS - j,
    {
        let ghost len0 = res@.len() as int;
        let ec = e_mul(
            e_mul(
                e_sub(
                    e_local(crate::columns::MEM_AFTER_FILTER_COL),
                    e_local(crate::columns::MAYBE_IN_MEM_AFTER_COL),
                ),
                e_local(crate::columns::PREINITIALIZED_SEGMENTS_COL),
            ),
            e_local(crate::columns::VALUE_START_COL + j),
        );
        let ghost gc = ec;
        res.push(SymbolicConstraint { domain: ConstraintDomain::EveryRow, expr: ec });
        proof {
            let s = res@;
            assert(s[len0] == SymbolicConstraint { domain: ConstraintDomain::EveryRow, expr: gc });
            assert(constraint_domain_at(len0) == ConstraintDomain::EveryRow);
            assert forall|lv: MemoryColumnsView, nv: MemoryColumnsView|
                #[trigger] eval_expr_spec(gc, lv, nv) == constraint_value_at(len0, lv, nv) by {
                assert(col_of_row(lv, crate::columns::VALUE_START_COL + j as int)
                    == lv.value_limbs[j as int]);
                assert(constraint_value_at(len0, lv, nv) == fe_mul_spec(
                    fe_mul_spec(
                        fe_sub_spec(lv.mem_after_filter, lv.maybe_in_mem_after),
                        lv.preinitialized_segments,
                    ),
                    lv.value_limbs[j as int],
                ));
            }
            assert forall|k: int, lv: MemoryColumnsView, nv: MemoryColumnsView|
                0 <= k < s.len() implies #[trigger] eval_expr_spec(s[k].expr, lv, nv)
                == constraint_value_at(k, lv, nv) by {
                if k < len0 {
                } else {
                    assert(eval_expr_spec(gc, lv, nv) == constraint_value_at(len0, lv, nv));
                }
            }
        }
        j = j + 1;
    }
    let e42 = e_mul(
        e_local(crate::columns::TIMESTAMP_COL),
        e_sub(
            e_mul(e_local(crate::columns::TIMESTAMP_COL), e_local(crate::columns::TIMESTAMP_INV_COL)),
            e_const(1),
        ),
    );
    let ghost g42 = e42;
    res.push(SymbolicConstraint { domain: ConstraintDomain::EveryRow, expr: e42 });
    let e43 = e_local(crate::columns::COUNTER_COL);
    let ghost g43 = e43;
    res.push(SymbolicConstraint { domain: ConstraintDomain::FirstRow, expr: e43 });
    let e44 = e_sub(
        e_sub(e_next(crate::columns::COUNTER_COL), e_local(crate::columns::COUNTER_COL)),
        e_const(1),
    );
    let ghost g44 = e44;
    res.push(SymbolicConstraint { domain: ConstraintDomain::Transition, expr: e44 });
    proof {
        let s = res@;
        assert(s.len() == 45);
        assert(s[42].expr == g42 && s[43].expr == g43 && s[44].expr == g44);
        assert forall|k: int, lv: MemoryColumnsView, nv: MemoryColumnsView|
            0 <= k < s.len() implies #[trigger] eval_expr_spec(s[k].expr, lv, nv)
            == constraint_value_at(k, lv, nv) by {
            if k < 42 {
            } else if k == 42 {
                assert(eval_expr_spec(g42, lv, nv) == constraint_value_at(42, lv, nv));
            } else if k == 43 {
                assert(eval_expr_spec(g43, lv, nv) == constraint_value_at(43, lv, nv));
            } else {
                assert(eval_expr_spec(g44, lv, nv) == constraint_value_at(44, lv, nv));
            }
        }
    }
}

/// Symbolic mode: the constraint list as an expression graph, in the same
/// order as checking mode, proved to evaluate identically on every row
/// pair and to stay within total degree three.
pub fn symbolic_row_constraints() -> (res: Vec<SymbolicConstraint>)
    ensures
        is_symbolic_form(res@),
{
    let mut res: Vec<SymbolicConstraint> = Vec::new();
    push_ordering_constraints(&mut res);
    push_value_constraints(&mut res);
    push_final_state_constraints(&mut res);
    res
}

/// Evaluates a symbolic expression on a concrete row pair.
pub fn eval_expr(e: &Expr, lv: &MemoryColumnsView, nv: &MemoryColumnsView) -> (v: u64)
    requires
        expr_fe_ok(*e),
        constraint_input_ok(*lv),
        constraint_input_ok(*nv),
    ensures
        v == eval_expr_spec(*e, *lv, *nv),
        v < FIELD_ORDER,
    decreases *e,
{
    match e {
        Expr::Const(c) => *c,
        Expr::Local(c) => {
            if *c < NUM_COLUMNS {
                get_col(lv, *c)
            } else {
                0
            }
        },
        Expr::Next(c) => {
            if *c < NUM_COLUMNS {
                get_col(nv, *c)
            } else {
                0
            }
        },
        Expr::Add(a, b) => fe_add(eval_expr(a, lv, nv), eval_expr(b, lv, nv)),
        Expr::Sub(a, b) => fe_sub(eval_expr(a, lv, nv), eval_expr(b, lv, nv)),
        Expr::Mul(a, b) => fe_mul(eval_expr(a, lv, nv), eval_expr(b, lv, nv)),
    }
}

/// Cross-mode equivalence: on any concrete row pair, the checking-mode
/// constraint values coincide, constraint by constraint and domain by
/// domain, with the values of the symbolic expression graph.
pub proof fn lemma_cross_mode_equivalence(
    sym: Seq<SymbolicConstraint>,
    cs: Seq<Constraint>,
    lv: MemoryColumnsView,
    nv: MemoryColumnsView,
)
    requires
        is_symbolic_form(sym),
        cs.len() == NUM_CONSTRAINTS,
        forall|k: int|
            0 <= k < NUM_CONSTRAINTS ==> #[trigger] cs[k] == (Constraint {
                domain: constraint_domain_at(k),
                value: constraint_value_at(k, lv, nv),
            }),
    ensures
        forall|k: int|
            0 <= k < NUM_CONSTRAINTS ==> (#[trigger] cs[k]).domain == sym[k].domain && cs[k].value
                == eval_expr_spec(sym[k].expr, lv, nv),
{
}

/// The degree law: no constraint exceeds total degree three, in either
/// mode, so the proof system's quotient argument applies.
pub proof fn lemma_constraint_degree(sym: Seq<SymbolicConstraint>)
    requires
        is_symbolic_form(sym),
    ensures
        forall|k: int| 0 <= k < sym.len() ==> expr_degree((#[trigger] sym[k]).expr) <= 3,
{
}

/// The maximum total degree the constraint system is designed for.
pub fn constraint_degree() -> (d: usize)
    ensures
        d == 3,
{
    3
}

/// Rebuilds one row of a column-major trace.
pub fn row_from_columns(cols: &Vec<Vec<u64>>, i: usize) -> (r: MemoryColumnsView)
    requires
        cols@.len() == NUM_COLUMNS,
        forall|c: int| 0 <= c < NUM_COLUMNS ==> i < (#[trigger] cols@[c])@.len(),
    ensures
        forall|c: int|
            0 <= c < NUM_COLUMNS ==> #[trigger] col_of_row(r, c) == cols@[c]@[i as int],
{
    let r = MemoryColumnsView {
        filter: cols[crate::columns::FILTER_COL][i],
        is_read: cols[crate::columns::IS_READ_COL][i],
        addr_context: cols[crate::columns::ADDR_CONTEXT_COL][i],
        addr_segment: cols[crate::columns::ADDR_SEGMENT_COL][i],
        addr_virtual: cols[crate::columns::ADDR_VIRTUAL_COL][i],
        value_limbs: [
            cols[crate::columns::VALUE_START_COL][i],
            cols[crate::columns::VALUE_START_COL + 1][i],
            cols[crate::columns::VALUE_START_COL + 2][i],
            cols[crate::columns::VALUE_START_COL + 3][i],
            cols[crate::columns::VALUE_START_COL + 4][i],
            cols[crate::columns::VALUE_START_COL + 5][i],
            cols[crate::columns::VALUE_START_COL + 6][i],
            cols[crate::columns::VALUE_START_COL + 7][i],
        ],
        timestamp: cols[crate::columns::TIMESTAMP_COL][i],
        timestamp_inv: cols[crate::columns::TIMESTAMP_INV_COL][i],
        counter: cols[crate::columns::COUNTER_COL][i],
        range_check: cols[crate::columns::RANGE_CHECK_COL][i],
        frequencies: cols[crate::columns::FREQUENCIES_COL][i],
        context_first_change: cols[crate::columns::CONTEXT_FIRST_CHANGE_COL][i],
        segment_first_change: cols[crate::columns::SEGMENT_FIRST_CHANGE_COL][i],
        virtual_first_change: cols[crate::columns::VIRTUAL_FIRST_CHANGE_COL][i],
        preinitialized_segments_aux: cols[crate::columns::PREINITIALIZED_SEGMENTS_AUX_COL][i],
        preinitialized_segments: cols[crate::columns::PREINITIALIZED_SEGMENTS_COL][i],
        initialize_aux: cols[crate::columns::INITIALIZE_AUX_COL][i],
        stale_contexts: cols[crate::columns::STALE_CONTEXTS_COL][i],
        stale_context_frequencies: cols[crate::columns::STALE_CONTEXT_FREQUENCIES_COL][i],
        is_stale: cols[crate::columns::IS_STALE_COL][i],
        is_pruned: cols[crate::columns::IS_PRUNED_COL][i],
        maybe_in_mem_after: cols[crate::columns::MAYBE_IN_MEM_AFTER_COL][i],
        mem_after_filter: cols[crate::columns::MEM_AFTER_FILTER_COL][i],
    };
    proof {
        assert forall|c: int| 0 <= c < NUM_COLUMNS implies #[trigger] col_of_row(r, c)
            == cols@[c]@[i as int] by {
            if crate::columns::VALUE_START_COL <= c < crate::columns::VALUE_START_COL + 8 {
                assert(col_of_row(r, c) == r.value_limbs[c - crate::columns::VALUE_START_COL]);
            }
        }
    }
    r
}

/// The trace satisfies every constraint: each one evaluates to zero on
/// every row of its domain (transitions exclude the wraparound pair, and
/// the first-row constraint holds on row zero).
pub open spec fn rows_satisfy_constraints(rows: Seq<MemoryColumnsView>) -> bool {
    forall|i: int, k: int|
        0 <= i < rows.len() && 0 <= k < NUM_CONSTRAINTS ==> #[trigger] constraint_ok_at(rows, i, k)
}

/// Constraint `k` is satisfied at row `i`.
pub open spec fn constraint_ok_at(rows: Seq<MemoryColumnsView>, i: int, k: int) -> bool {
    let n = rows.len() as int;
    let v = constraint_value_at(
        k,
        rows[i],
        rows[if i == n - 1 {
            0int
        } else {
            i + 1
        }],
    );
    match constraint_domain_at(k) {
        ConstraintDomain::EveryRow => v == 0,
        ConstraintDomain::Transition => i < n - 1 ==> v == 0,
        ConstraintDomain::FirstRow => i == 0 ==> v == 0,
    }
}

/// Checking mode over a whole trace: accepts exactly the traces whose
/// rows satisfy every constraint.  Rejection is an ordinary outcome, not
/// an error: an untrusted trace that fails a constraint is reported, not
/// crashed on.
#[verifier::rlimit(100)]
pub fn check_rows_constraints(rows: &Vec<MemoryColumnsView>) -> (ok: bool)
    requires
        rows@.len() >= 1,
        forall|i: int| 0 <= i < rows@.len() ==> constraint_input_ok(#[trigger] rows@[i]),
    ensures
        ok == rows_satisfy_constraints(rows@),
{
    let n = rows.len();
    let mut i: usize = 0;
    while i < n
        invariant
            0 <= i <= n,
            n == rows@.len(),
            1 <= n,
            forall|ii: int| 0 <= ii < n ==> constraint_input_ok(#[trigger] rows@[ii]),
            forall|ii: int, k: int|
                0 <= ii < i && 0 <= k < NUM_CONSTRAINTS ==> #[trigger] constraint_ok_at(
                    rows@,
                    ii,
                    k,
                ),
        decreases n - i,
    {
        let lv = *(&rows[i]);
        let nv = if i == n - 1 {
            *(&rows[0])
        } else {
            *(&rows[i + 1])
        };
        let cs = eval_row_constraints(&lv, &nv);
        let mut k: usize = 0;
        while k < NUM_CONSTRAINTS
            invariant
                0 <= k <= NUM_CONSTRAINTS,
                cs@.len() == NUM_CONSTRAINTS,
                n == rows@.len(),
                1 <= n,
                0 <= i < n,
                lv == rows@[i as int],
                nv == rows@[if i as int == n - 1 {
                    0int
                } else {
                    i as int + 1
                }],
                forall|kk: int|
                    0 <= kk < NUM_CONSTRAINTS ==> #[trigger] cs@[kk] == (Constraint {
                        domain: constraint_domain_at(kk),
                        value: constraint_value_at(kk, lv, nv),
                    }),
                forall|kk: int| 0 <= kk < k ==> #[trigger] constraint_ok_at(rows@, i as int, kk),
            decreases NUM_CONSTRAINTS - k,
        {
            let c = *(&cs[k]);
            let violated: bool = match c.domain {
                ConstraintDomain::EveryRow => c.value != 0,
                ConstraintDomain::Transition => i < n - 1 && c.value != 0,
                ConstraintDomain::FirstRow => i == 0 && c.value != 0,
            };
            if violated {
                proof {
                    assert(!constraint_ok_at(rows@, i as int, k as int));
                }
                return false;
            }
            k = k + 1;
        }
        i = i + 1;
    }
    true
}

} // verus!
