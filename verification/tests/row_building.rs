use memory_stark::columns::{CONTEXT_FIRST_CHANGE_COL, FREQUENCIES_COL, SEGMENT_FIRST_CHANGE_COL};
use memory_stark::field::{fe_mul, FIELD_ORDER};
use memory_stark::ops::{zero_value, MemoryAddress, MemoryOp, MemoryOpKind};
use memory_stark::trace::generate_trace;

#[test]
fn rows_decompose_values_into_limbs() {
    let mut value = zero_value();
    value[0] = 0xDEAD_BEEF;
    value[1] = 0x1234_5678;
    value[7] = 0xFFFF_FFFF;
    let op = MemoryOp {
        filter: true,
        timestamp: 3,
        address: MemoryAddress { context: 1, segment: 2, virt: 7 },
        kind: MemoryOpKind::Write,
        value,
    };
    let row = op.into_row();
    assert_eq!(row.filter, 1);
    assert_eq!(row.is_read, 0);
    assert_eq!(row.addr_context, 1);
    assert_eq!(row.addr_segment, 2);
    assert_eq!(row.addr_virtual, 7);
    assert_eq!(row.timestamp, 3);
    assert_eq!(row.value_limbs[0], 0xDEAD_BEEF);
    assert_eq!(row.value_limbs[1], 0x1234_5678);
    assert_eq!(row.value_limbs[7], 0xFFFF_FFFF);
    assert_eq!(row.value_limbs[2], 0);
    // the timestamp inverse really inverts
    assert_eq!(fe_mul(row.timestamp, row.timestamp_inv), 1);
    assert!(row.timestamp_inv < FIELD_ORDER);
    // derived columns start at zero
    assert_eq!(row.counter, 0);
    assert_eq!(row.range_check, 0);
    assert_eq!(row.stale_contexts, 0);
}

#[test]
fn dummy_reads_are_inactive() {
    let d = MemoryOp::new_dummy_read(
        MemoryAddress { context: 0, segment: 0, virt: 0 },
        1,
        zero_value(),
    );
    assert!(!d.filter);
    assert!(matches!(d.kind, MemoryOpKind::Read));
    let row = d.into_row();
    assert_eq!(row.filter, 0);
    assert_eq!(row.is_read, 1);
    // timestamp zero has no inverse and gets zero
    let init = MemoryOp {
        filter: true,
        timestamp: 0,
        address: MemoryAddress { context: 0, segment: 0, virt: 0 },
        kind: MemoryOpKind::Write,
        value: zero_value(),
    };
    assert_eq!(init.into_row().timestamp_inv, 0);
}

/// The frequency table counts one entry per row, plus one per context- or
/// segment-changing row.
#[test]
fn lookup_frequencies_balance() {
    let mut value = zero_value();
    value[0] = 1;
    let ops = vec![
        MemoryOp {
            filter: true,
            timestamp: 1,
            address: MemoryAddress { context: 0, segment: 0, virt: 0 },
            kind: MemoryOpKind::Write,
            value,
        },
        MemoryOp {
            filter: true,
            timestamp: 2,
            address: MemoryAddress { context: 1, segment: 3, virt: 0 },
            kind: MemoryOpKind::Write,
            value,
        },
    ];
    let trace = generate_trace(ops, &Vec::new(), Vec::new()).expect("trace");
    let n = trace.columns[0].len();
    let total: u64 = trace.columns[FREQUENCIES_COL].iter().sum();
    let changes: u64 = (0..n)
        .map(|i| {
            if trace.columns[CONTEXT_FIRST_CHANGE_COL][i] == 1
                || trace.columns[SEGMENT_FIRST_CHANGE_COL][i] == 1
            {
                1
            } else {
                0
            }
        })
        .sum();
    assert_eq!(total, n as u64 + changes);
}
