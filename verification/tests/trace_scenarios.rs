use memory_stark::columns::{
    ADDR_CONTEXT_COL, ADDR_SEGMENT_COL, ADDR_VIRTUAL_COL, COUNTER_COL, FILTER_COL, IS_PRUNED_COL,
    IS_READ_COL, IS_STALE_COL, MEM_AFTER_FILTER_COL, NUM_COLUMNS, RANGE_CHECK_COL,
    STALE_CONTEXTS_COL, TIMESTAMP_COL, TIMESTAMP_INV_COL, VALUE_START_COL,
};
use memory_stark::field::fe_mul;
use memory_stark::constraints::check_rows_constraints;
use memory_stark::constraints::row_from_columns;
use memory_stark::errors::TraceError;
use memory_stark::ops::{zero_value, MemoryAddress, MemoryOp, MemoryOpKind};
use memory_stark::pow2::power_of_two_check;
use memory_stark::trace::{generate_trace, MemoryTrace};

fn op(
    filter: bool,
    kind: MemoryOpKind,
    context: u64,
    segment: u64,
    virt: u64,
    timestamp: u64,
    low_limb: u32,
) -> MemoryOp {
    let mut value = zero_value();
    value[0] = low_limb;
    MemoryOp {
        filter,
        timestamp,
        address: MemoryAddress { context, segment, virt },
        kind,
        value,
    }
}

fn build(
    ops: Vec<MemoryOp>,
    mem_before: Vec<(MemoryAddress, [u32; 8])>,
    stale: Vec<usize>,
) -> MemoryTrace {
    generate_trace(ops, &mem_before, stale).expect("trace generation")
}

fn rows_of(trace: &MemoryTrace) -> Vec<memory_stark::columns::MemoryColumnsView> {
    let n = trace.columns[0].len();
    let mut rows = Vec::new();
    for i in 0..n {
        rows.push(row_from_columns(&trace.columns, i));
    }
    rows
}

/// A written value is read back: the read row carries the written value,
/// and the whole trace satisfies every constraint.
#[test]
fn scenario_write_then_read() {
    let ops = vec![
        op(true, MemoryOpKind::Write, 0, 6, 100, 1, 5),
        op(true, MemoryOpKind::Read, 0, 6, 100, 2, 5),
    ];
    let trace = build(ops, Vec::new(), Vec::new());
    let n = trace.columns[0].len();
    assert!(power_of_two_check(n as u64));
    assert!(trace.unpadded_length < n);
    // find the read row at (0, 6, 100)
    let mut found = false;
    for i in 0..n {
        if trace.columns[ADDR_SEGMENT_COL][i] == 6
            && trace.columns[ADDR_VIRTUAL_COL][i] == 100
            && trace.columns[IS_READ_COL][i] == 1
            && trace.columns[FILTER_COL][i] == 1
        {
            assert_eq!(trace.columns[VALUE_START_COL][i], 5, "read must return the write");
            assert_eq!(trace.columns[TIMESTAMP_COL][i], 2);
            // the write sits directly before it: no same-address dummy between
            assert_eq!(trace.columns[ADDR_VIRTUAL_COL][i - 1], 100);
            assert_eq!(trace.columns[FILTER_COL][i - 1], 1);
            assert_eq!(trace.columns[IS_READ_COL][i - 1], 0);
            found = true;
        }
    }
    assert!(found);
    // checking mode accepts the built trace
    let rows = rows_of(&trace);
    assert!(check_rows_constraints(&rows));
    // the counter column is the row index, and the last row's range
    // check is forced to zero at the wraparound boundary
    for i in 0..n {
        assert_eq!(trace.columns[COUNTER_COL][i], i as u64);
        assert!(trace.columns[RANGE_CHECK_COL][i] < n as u64);
    }
    assert_eq!(trace.columns[RANGE_CHECK_COL][n - 1], 0);
    // every synthetic row is a read
    for i in 0..n {
        if trace.columns[FILTER_COL][i] == 0 {
            assert_eq!(trace.columns[IS_READ_COL][i], 1);
        }
    }
    // a read opening a fresh address outside the preinitialized segments
    // carries the zero value
    for i in 0..n - 1 {
        let same_address = trace.columns[ADDR_CONTEXT_COL][i]
            == trace.columns[ADDR_CONTEXT_COL][i + 1]
            && trace.columns[ADDR_SEGMENT_COL][i] == trace.columns[ADDR_SEGMENT_COL][i + 1]
            && trace.columns[ADDR_VIRTUAL_COL][i] == trace.columns[ADDR_VIRTUAL_COL][i + 1];
        let seg = trace.columns[ADDR_SEGMENT_COL][i + 1];
        let preinitialized = seg == 0 || seg == 7 || seg == 8 || seg == 9;
        if !same_address && trace.columns[IS_READ_COL][i + 1] == 1 && !preinitialized {
            for j in 0..8 {
                assert_eq!(trace.columns[VALUE_START_COL + j][i + 1], 0);
            }
        }
    }
}

/// A read in a preinitialized segment with no prior write may carry a
/// nonzero value and still satisfies every constraint.
#[test]
fn scenario_preinitialized_read() {
    let ops = vec![op(true, MemoryOpKind::Read, 0, 7, 50, 1, 77)];
    let trace = build(ops, Vec::new(), Vec::new());
    let n = trace.columns[0].len();
    let mut found = false;
    for i in 0..n {
        if trace.columns[ADDR_SEGMENT_COL][i] == 7 && trace.columns[ADDR_VIRTUAL_COL][i] == 50 {
            assert_eq!(trace.columns[VALUE_START_COL][i], 77);
            found = true;
        }
    }
    assert!(found);
    let rows = rows_of(&trace);
    assert!(check_rows_constraints(&rows));
}

/// The same read outside the preinitialized segments violates the
/// zero-initialization constraint: checking mode rejects the trace.
#[test]
fn nonzero_first_read_is_rejected() {
    let ops = vec![op(true, MemoryOpKind::Read, 0, 6, 50, 1, 77)];
    let trace = build(ops, Vec::new(), Vec::new());
    let rows = rows_of(&trace);
    assert!(!check_rows_constraints(&rows));
}

/// A stale context's rows are excluded from the final memory state.
#[test]
fn scenario_stale_context_pruned() {
    let ops = vec![
        op(true, MemoryOpKind::Write, 3, 1, 1, 1, 11),
        op(true, MemoryOpKind::Write, 0, 1, 1, 2, 22),
    ];
    // without pruning, both writes reach the final state
    let unpruned = build(ops.clone(), Vec::new(), Vec::new());
    let ctxs: Vec<u64> = unpruned
        .mem_after_values
        .iter()
        .map(|row| row[1])
        .collect();
    assert!(ctxs.contains(&3));
    assert!(ctxs.contains(&0));
    // with context 3 stale, its rows are dropped from the final state
    let pruned = build(ops, Vec::new(), vec![3]);
    let n = pruned.columns[0].len();
    assert_eq!(pruned.columns[STALE_CONTEXTS_COL][3], 4);
    assert_eq!(pruned.columns[IS_PRUNED_COL][3], 1);
    for i in 0..n {
        if pruned.columns[ADDR_CONTEXT_COL][i] == 3 {
            assert_eq!(pruned.columns[IS_STALE_COL][i], 1);
            assert_eq!(
                pruned.columns[MEM_AFTER_FILTER_COL][i],
                0,
                "stale rows must leave the final state",
            );
        }
    }
    let ctxs: Vec<u64> = pruned.mem_after_values.iter().map(|row| row[1]).collect();
    assert!(!ctxs.contains(&3));
    assert!(ctxs.contains(&0));
    let rows = rows_of(&pruned);
    assert!(check_rows_constraints(&rows));
}

/// The initial state is injected as timestamp-zero writes and read back.
#[test]
fn initial_state_feeds_reads() {
    let addr = MemoryAddress { context: 0, segment: 1, virt: 2 };
    let mut value = zero_value();
    value[0] = 99;
    let ops = vec![op(true, MemoryOpKind::Read, 0, 1, 2, 1, 99)];
    let trace = build(ops, vec![(addr, value)], Vec::new());
    let rows = rows_of(&trace);
    assert!(check_rows_constraints(&rows));
    // the final state keeps the cell
    let entry = trace
        .mem_after_values
        .iter()
        .find(|row| row[1] == 0 && row[2] == 1 && row[3] == 2)
        .expect("final state entry");
    assert_eq!(entry[0], 1);
    assert_eq!(entry[4], 99);
    assert_eq!(entry.len(), 4 + 8);
}

/// Every final-state row has the documented shape.
#[test]
fn final_state_rows_have_thirteen_entries() {
    let ops = vec![op(true, MemoryOpKind::Write, 0, 6, 4, 1, 8)];
    let trace = build(ops, Vec::new(), Vec::new());
    assert_eq!(trace.columns.len(), NUM_COLUMNS);
    for row in &trace.mem_after_values {
        assert_eq!(row.len(), 12);
        assert_eq!(row[0], 1);
    }
}

#[test]
fn empty_log_is_refused() {
    let res = generate_trace(Vec::new(), &Vec::new(), Vec::new());
    assert_eq!(res.unwrap_err(), TraceError::EmptyOperations);
}

#[test]
fn duplicate_stale_contexts_are_refused() {
    let ops = vec![op(true, MemoryOpKind::Write, 0, 6, 0, 1, 1)];
    let res = generate_trace(ops, &Vec::new(), vec![1, 2, 1]);
    assert_eq!(res.unwrap_err(), TraceError::DuplicateStaleContexts);
}

#[test]
fn stale_context_without_a_slot_is_refused() {
    let ops = vec![op(true, MemoryOpKind::Write, 0, 6, 0, 1, 1)];
    let res = generate_trace(ops, &Vec::new(), vec![100]);
    assert_eq!(res.unwrap_err(), TraceError::StaleContextOutOfRange);
}

#[test]
fn oversized_context_jump_is_refused() {
    let ops = vec![
        op(true, MemoryOpKind::Write, 0, 0, 0, 1, 1),
        op(true, MemoryOpKind::Write, 1_000_000, 0, 0, 1, 1),
    ];
    let res = generate_trace(ops, &Vec::new(), Vec::new());
    assert_eq!(res.unwrap_err(), TraceError::OversizedRangeCheck);
}

#[test]
fn context_without_a_table_slot_is_refused() {
    let ops = vec![
        op(true, MemoryOpKind::Write, 5, 0, 0, 1, 1),
        op(true, MemoryOpKind::Write, 6, 0, 0, 1, 1),
    ];
    let res = generate_trace(ops, &Vec::new(), Vec::new());
    assert_eq!(res.unwrap_err(), TraceError::ContextOutOfRange);
}

#[test]
fn error_descriptions_name_the_invariant() {
    assert_eq!(TraceError::EmptyOperations.describe(), "empty operation list");
    assert_eq!(TraceError::DuplicateStaleContexts.describe(), "duplicate stale contexts");
    assert_eq!(TraceError::StaleContextOutOfRange.describe(), "stale context out of range");
    assert_eq!(TraceError::ContextOutOfRange.describe(), "context out of range");
    assert_eq!(TraceError::OversizedRangeCheck.describe(), "oversized range check");
    assert_eq!(TraceError::TraceTooLarge.describe(), "trace too large");
}

/// The count of rows before padding marks exactly where the padding tail
/// starts, and the timestamp-inverse column really inverts: the
/// initial-state filter `1 - timestamp * timestamp_inv` is one exactly on
/// timestamp-zero rows.
#[test]
fn padding_tail_and_timestamp_inverses() {
    let addr = MemoryAddress { context: 0, segment: 1, virt: 2 };
    let mut value = zero_value();
    value[0] = 99;
    let ops = vec![op(true, MemoryOpKind::Read, 0, 1, 2, 1, 99)];
    let trace = build(ops, vec![(addr, value)], Vec::new());
    let n = trace.columns[0].len();
    let unpadded = trace.unpadded_length;
    assert!(1 <= unpadded && unpadded < n);
    // every row from the count on is the repeated padding read
    for i in unpadded..n {
        assert_eq!(trace.columns[FILTER_COL][i], 0);
        assert_eq!(trace.columns[IS_READ_COL][i], 1);
        assert_eq!(
            trace.columns[ADDR_VIRTUAL_COL][i],
            trace.columns[ADDR_VIRTUAL_COL][unpadded - 1] + 1,
        );
        assert_eq!(
            trace.columns[TIMESTAMP_COL][i],
            trace.columns[TIMESTAMP_COL][unpadded - 1] + 1,
        );
        for j in 0..8 {
            assert_eq!(trace.columns[VALUE_START_COL + j][i], 0);
        }
    }
    // the row before the count is not padding-shaped: the count is minimal
    assert_ne!(
        trace.columns[ADDR_VIRTUAL_COL][unpadded - 1],
        trace.columns[ADDR_VIRTUAL_COL][unpadded],
    );
    // the initial-state filter is one exactly on timestamp-zero rows
    let mut saw_initial = false;
    for i in 0..n {
        let ts = trace.columns[TIMESTAMP_COL][i];
        let inv = trace.columns[TIMESTAMP_INV_COL][i];
        if ts == 0 {
            assert_eq!(inv, 0, "initial-state rows have a zero inverse");
            saw_initial = true;
        } else {
            assert_eq!(fe_mul(ts, inv), 1, "runtime rows have a true inverse");
        }
    }
    assert!(saw_initial, "the injected initial-state write is in the trace");
}

/// A sorted, tie-free log that starts at offset zero, has no oversized
/// gap and uses only small contexts and segments is never rejected.
#[test]
fn ready_logs_always_build() {
    let ops = vec![
        op(true, MemoryOpKind::Write, 0, 0, 0, 1, 7),
        op(true, MemoryOpKind::Read, 0, 0, 0, 2, 7),
        op(true, MemoryOpKind::Write, 0, 0, 1, 3, 8),
        op(true, MemoryOpKind::Read, 1, 0, 1, 4, 0),
    ];
    let trace = generate_trace(ops, &Vec::new(), vec![1]).expect("a ready log must build");
    let n = trace.columns[0].len();
    assert_eq!(trace.unpadded_length, 4);
    assert_eq!(n, 8);
    // keys strictly increase up to the repeated padding rows
    for i in 0..n - 1 {
        let key = |r: usize| {
            (
                trace.columns[ADDR_CONTEXT_COL][r],
                trace.columns[ADDR_SEGMENT_COL][r],
                trace.columns[ADDR_VIRTUAL_COL][r],
                trace.columns[TIMESTAMP_COL][r],
            )
        };
        if key(i) == key(i + 1) {
            assert!(i + 1 > trace.unpadded_length, "only padding rows may tie");
        } else {
            assert!(key(i) < key(i + 1));
        }
    }
}
