use memory_stark::constraints::{
    constraint_degree, eval_expr, eval_row_constraints, row_from_columns,
    symbolic_row_constraints, ConstraintDomain, NUM_CONSTRAINTS,
};
use memory_stark::ops::{zero_value, MemoryAddress, MemoryOp, MemoryOpKind};
use memory_stark::trace::generate_trace;

fn sample_rows() -> Vec<memory_stark::columns::MemoryColumnsView> {
    let mut value = zero_value();
    value[0] = 5;
    let ops = vec![
        MemoryOp {
            filter: true,
            timestamp: 1,
            address: MemoryAddress { context: 0, segment: 6, virt: 100 },
            kind: MemoryOpKind::Write,
            value,
        },
        MemoryOp {
            filter: true,
            timestamp: 2,
            address: MemoryAddress { context: 0, segment: 6, virt: 100 },
            kind: MemoryOpKind::Read,
            value,
        },
    ];
    let trace = generate_trace(ops, &Vec::new(), Vec::new()).expect("trace");
    let n = trace.columns[0].len();
    let mut rows = Vec::new();
    for i in 0..n {
        rows.push(row_from_columns(&trace.columns, i));
    }
    rows
}

/// Cross-mode equivalence on concrete rows: evaluating the constraints
/// directly and evaluating the symbolic expression graph give the same
/// value and domain, constraint by constraint, on every adjacent pair.
#[test]
fn checking_and_symbolic_modes_agree() {
    let rows = sample_rows();
    let sym = symbolic_row_constraints();
    assert_eq!(sym.len(), NUM_CONSTRAINTS);
    let n = rows.len();
    for i in 0..n {
        let lv = &rows[i];
        let nv = &rows[if i == n - 1 { 0 } else { i + 1 }];
        let direct = eval_row_constraints(lv, nv);
        assert_eq!(direct.len(), NUM_CONSTRAINTS);
        for k in 0..NUM_CONSTRAINTS {
            let symbolic_value = eval_expr(&sym[k].expr, lv, nv);
            assert_eq!(direct[k].value, symbolic_value, "constraint {} row {}", k, i);
            assert_eq!(direct[k].domain, sym[k].domain);
        }
    }
}

/// A valid trace satisfies every constraint on its domain; disturbing one
/// column breaks one.
#[test]
fn constraint_values_vanish_on_valid_traces() {
    let rows = sample_rows();
    let n = rows.len();
    for i in 0..n {
        let lv = &rows[i];
        let nv = &rows[if i == n - 1 { 0 } else { i + 1 }];
        let cs = eval_row_constraints(lv, nv);
        for k in 0..NUM_CONSTRAINTS {
            match cs[k].domain {
                ConstraintDomain::EveryRow => {
                    assert_eq!(cs[k].value, 0, "constraint {} row {}", k, i)
                },
                ConstraintDomain::Transition => {
                    if i < n - 1 {
                        assert_eq!(cs[k].value, 0, "constraint {} row {}", k, i)
                    }
                },
                ConstraintDomain::FirstRow => {
                    if i == 0 {
                        assert_eq!(cs[k].value, 0, "constraint {} row {}", k, i)
                    }
                },
            }
        }
    }
    // a tampered filter flag is caught by the booleanity constraint
    let mut bad = rows[0];
    bad.filter = 2;
    let cs = eval_row_constraints(&bad, &rows[1]);
    assert_ne!(cs[0].value, 0);
}

/// A read whose value differs from its predecessor at the same address is
/// caught by the read-consistency constraint.
#[test]
fn inconsistent_read_breaks_a_constraint() {
    let rows = sample_rows();
    let n = rows.len();
    // find the real read row and corrupt its first limb
    let mut broke = false;
    for i in 0..n - 1 {
        if rows[i + 1].is_read == 1 && rows[i + 1].filter == 1 && rows[i + 1].addr_virtual == 100 {
            let mut bad_next = rows[i + 1];
            bad_next.value_limbs[0] = 6;
            let cs = eval_row_constraints(&rows[i], &bad_next);
            // constraint index 16 is the first limb's read-consistency
            assert_ne!(cs[16].value, 0);
            broke = true;
        }
    }
    assert!(broke);
}

#[test]
fn declared_degree_is_three() {
    assert_eq!(constraint_degree(), 3);
}
