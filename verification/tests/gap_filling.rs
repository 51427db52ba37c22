use memory_stark::ops::{zero_value, MemoryAddress, MemoryOp, MemoryOpKind};
use memory_stark::gaps::{fill_gaps, pad_memory_ops};
use memory_stark::pow2::power_of_two_check;
use memory_stark::sorting::sort_ops;

fn write_op(context: u64, segment: u64, virt: u64, timestamp: u64, low_limb: u32) -> MemoryOp {
    let mut value = zero_value();
    value[0] = low_limb;
    MemoryOp {
        filter: true,
        timestamp,
        address: MemoryAddress { context, segment, virt },
        kind: MemoryOpKind::Write,
        value,
    }
}

fn read_op(context: u64, segment: u64, virt: u64, timestamp: u64, low_limb: u32) -> MemoryOp {
    let mut value = zero_value();
    value[0] = low_limb;
    MemoryOp {
        filter: true,
        timestamp,
        address: MemoryAddress { context, segment, virt },
        kind: MemoryOpKind::Read,
        value,
    }
}

fn assert_sorted(ops: &Vec<MemoryOp>) {
    for i in 0..ops.len() - 1 {
        let a = ops[i].sorting_key();
        let b = ops[i + 1].sorting_key();
        assert!(a <= b, "out of order at {}", i);
    }
}

#[test]
fn sorting_orders_by_key() {
    let mut ops = vec![
        write_op(1, 0, 0, 5, 1),
        write_op(0, 2, 7, 1, 2),
        write_op(0, 2, 7, 0, 3),
        write_op(0, 1, 9, 4, 4),
    ];
    sort_ops(&mut ops);
    assert_sorted(&ops);
    assert_eq!(ops[0].sorting_key(), (0, 1, 9, 4));
    assert_eq!(ops[1].sorting_key(), (0, 2, 7, 0));
    assert_eq!(ops[2].sorting_key(), (0, 2, 7, 1));
    assert_eq!(ops[3].sorting_key(), (1, 0, 0, 5));
}

#[test]
fn initial_offset_gets_a_zero_read() {
    // a single write far from offset zero: a synthetic read at the zero
    // address is prepended, and a chain of reads steps the offset of the
    // write's segment down to the range-check bound
    let mut ops = vec![write_op(0, 6, 100, 1000, 9)];
    let max_rc = fill_gaps(&mut ops);
    assert_eq!(max_rc, 1);
    assert_sorted(&ops);
    assert_eq!(ops[0].address.context, 0);
    assert_eq!(ops[0].address.segment, 0);
    assert_eq!(ops[0].address.virt, 0);
    assert!(!ops[0].filter);
    // the chain covers offsets 1 through 99 of segment 6
    assert_eq!(ops.len(), 101);
    for k in 1..100 {
        assert_eq!(ops[k].address.segment, 6);
        assert_eq!(ops[k].address.virt, k as u64);
        assert!(!ops[k].filter);
        assert!(matches!(ops[k].kind, MemoryOpKind::Read));
    }
    assert_eq!(ops[100].address.virt, 100);
    assert!(ops[100].filter);
}

#[test]
fn timestamp_gaps_carry_the_value() {
    // a write and a much later read at one address: synthetic reads step
    // the timestamp forward, each carrying the written value
    let mut ops = vec![write_op(0, 6, 0, 1, 42), read_op(0, 6, 0, 10, 42)];
    let max_rc = fill_gaps(&mut ops);
    assert_eq!(max_rc, 1);
    assert_sorted(&ops);
    assert_eq!(ops.len(), 10);
    for k in 1..9 {
        assert_eq!(ops[k].timestamp, (k + 1) as u64);
        assert!(!ops[k].filter);
        assert!(matches!(ops[k].kind, MemoryOpKind::Read));
        assert_eq!(ops[k].value[0], 42, "the chain must carry the value");
    }
}

#[test]
fn filling_is_idempotent() {
    let mut ops = vec![
        write_op(0, 6, 0, 1, 1),
        read_op(0, 6, 0, 2, 1),
        write_op(0, 6, 1, 3, 2),
        read_op(0, 6, 1, 4, 2),
    ];
    sort_ops(&mut ops);
    let before = ops.clone();
    let max_rc = fill_gaps(&mut ops);
    assert_eq!(max_rc, 3);
    // no gap exceeded the bound, so nothing was inserted
    assert_eq!(ops.len(), before.len());
    for i in 0..ops.len() {
        assert_eq!(ops[i].sorting_key(), before[i].sorting_key());
    }
}

#[test]
fn padding_reaches_the_next_power_of_two() {
    let mut ops = vec![
        write_op(0, 6, 0, 1, 1),
        read_op(0, 6, 0, 2, 1),
        write_op(0, 6, 1, 3, 2),
    ];
    sort_ops(&mut ops);
    let n = pad_memory_ops(&mut ops);
    assert_eq!(n, 4);
    assert_eq!(ops.len(), 4);
    assert!(power_of_two_check(n as u64));
    // the padding row is an inactive read just past the last address
    let pad = &ops[3];
    assert!(!pad.filter);
    assert!(matches!(pad.kind, MemoryOpKind::Read));
    assert_eq!(pad.address.virt, 2);
    assert_eq!(pad.timestamp, 4);
    assert_eq!(pad.value, [0u32; 8]);
}

#[test]
fn padding_a_power_of_two_doubles() {
    // an already power-of-two list still gets at least one padding row,
    // which takes it to the next power of two
    let mut ops = vec![
        write_op(0, 6, 0, 1, 1),
        read_op(0, 6, 0, 2, 1),
        write_op(0, 6, 1, 3, 2),
        read_op(0, 6, 1, 4, 2),
    ];
    sort_ops(&mut ops);
    let n = pad_memory_ops(&mut ops);
    assert_eq!(n, 8);
    assert_eq!(ops.len(), 8);
    for k in 4..8 {
        assert!(!ops[k].filter);
    }
}

#[test]
fn filled_and_padded_traces_are_range_checkable() {
    // a mixed log across contexts and segments: after filling and
    // padding, the list is a sorted power of two and every ordering
    // difference fits below the length
    let mut ops = vec![
        write_op(0, 0, 3, 4, 1),
        write_op(1, 2, 0, 9, 2),
        read_op(0, 0, 3, 30, 1),
        write_op(1, 2, 1, 11, 3),
    ];
    sort_ops(&mut ops);
    let max_rc = fill_gaps(&mut ops);
    sort_ops(&mut ops);
    let n = pad_memory_ops(&mut ops);
    assert!(power_of_two_check(n as u64));
    assert!(u64::from(max_rc) < n as u64);
    assert_sorted(&ops);
    for i in 0..ops.len() - 1 {
        let a = &ops[i];
        let b = &ops[i + 1];
        let rc = if a.address.context != b.address.context || a.address.segment
            != b.address.segment {
            b.address.virt
        } else if a.address.virt != b.address.virt {
            b.address.virt - a.address.virt - 1
        } else {
            b.timestamp - a.timestamp
        };
        assert!(rc <= max_rc, "gap at {} too large: {}", i, rc);
    }
}
