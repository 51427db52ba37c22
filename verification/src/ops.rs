//! Memory operations: the atomic records the trace is built from.
//!
//! An operation is one access to a memory cell — address, 256-bit value held
//! as eight 32-bit limbs, timestamp, read/write kind, and an `filter` flag
//! that is true for operations the machine really performed and false for
//! synthetic reads inserted while building the trace.
//!
//! This module also defines the sort order on operations and the
//! order-independent well-formedness predicates of an operation log:
//! read consistency, zero initialization outside preinitialized segments,
//! no ties between distinct operations, and dummies being reads.

use vstd::prelude::*;
use vstd::multiset::Multiset;
use crate::segments::is_preinitialized_segment;

verus! {

/// Number of 32-bit limbs a 256-bit memory value is stored in.
pub const VALUE_LIMBS: usize = 8;

/// Largest context, segment or virtual-offset value the trace accepts.
pub const MAX_ADDRESS_COMPONENT: u64 = 0xFFFF_FFFF;

/// Largest timestamp the trace accepts.
pub const MAX_TIMESTAMP: u64 = 0xFFFF_FFFF_FFFF;

/// A memory address: execution context, segment within the context, and
/// virtual offset within the segment.  Ordering is lexicographic on
/// (context, segment, virtual offset).
#[derive(Clone, Copy, Debug)]
pub struct MemoryAddress {
    pub context: u64,
    pub segment: u64,
    pub virt: u64,
}

/// Whether an operation reads or writes its cell.
#[derive(Clone, Copy, Debug)]
pub enum MemoryOpKind {
    Read,
    Write,
}

/// One memory access.  `filter` is false exactly for synthetic operations
/// (gap-filling dummies and padding), which never appear in the machine's
/// own log.  Timestamp 0 is reserved for initial-state writes.
#[derive(Clone, Copy, Debug)]
pub struct MemoryOp {
    pub filter: bool,
    pub timestamp: u64,
    pub address: MemoryAddress,
    pub kind: MemoryOpKind,
    pub value: [u32; VALUE_LIMBS],
}

impl MemoryOp {
    /// A synthetic read, never part of the machine's own log.
    pub fn new_dummy_read(address: MemoryAddress, timestamp: u64, value: [u32; VALUE_LIMBS]) -> (r:
        MemoryOp)
        ensures
            r == (MemoryOp {
                filter: false,
                timestamp,
                address,
                kind: MemoryOpKind::Read,
                value,
            }),
    {
        MemoryOp { filter: false, timestamp, address, kind: MemoryOpKind::Read, value }
    }

    /// The key the trace is sorted by: address first, then timestamp.
    pub fn sorting_key(&self) -> (r: (u64, u64, u64, u64))
        ensures
            r == (self.address.context, self.address.segment, self.address.virt, self.timestamp),
    {
        (self.address.context, self.address.segment, self.address.virt, self.timestamp)
    }

    /// Whether this operation is a read.
    pub fn is_read(&self) -> (r: bool)
        ensures
            r == (self.kind == MemoryOpKind::Read),
    {
        match self.kind {
            MemoryOpKind::Read => true,
            MemoryOpKind::Write => false,
        }
    }
}

/// An all-zero 256-bit value.
pub open spec fn value_is_zero(v: [u32; VALUE_LIMBS]) -> bool {
    forall|j: int| 0 <= j < VALUE_LIMBS ==> v@[j] == 0
}

/// The all-zero value.
pub fn zero_value() -> (r: [u32; VALUE_LIMBS])
    ensures
        r == [0u32, 0u32, 0u32, 0u32, 0u32, 0u32, 0u32, 0u32],
        value_is_zero(r),
{
    let r = [0u32, 0, 0, 0, 0, 0, 0, 0];
    proof {
        assert(r@[0] == 0 && r@[1] == 0 && r@[2] == 0 && r@[3] == 0 && r@[4] == 0 && r@[5] == 0
            && r@[6] == 0 && r@[7] == 0);
    }
    r
}

/// Strict order on sorting keys.
pub open spec fn key_lt(a: MemoryOp, b: MemoryOp) -> bool {
    a.address.context < b.address.context || (a.address.context == b.address.context && (
    a.address.segment < b.address.segment || (a.address.segment == b.address.segment && (
    a.address.virt < b.address.virt || (a.address.virt == b.address.virt && a.timestamp
        < b.timestamp)))))
}

/// Equality of sorting keys (the operations themselves may still differ).
pub open spec fn key_eq(a: MemoryOp, b: MemoryOp) -> bool {
    a.address.context == b.address.context && a.address.segment == b.address.segment
        && a.address.virt == b.address.virt && a.timestamp == b.timestamp
}

/// Non-strict order on sorting keys.
pub open spec fn key_le(a: MemoryOp, b: MemoryOp) -> bool {
    key_lt(a, b) || key_eq(a, b)
}

/// Runtime comparison in the sorting-key order.
pub fn key_less(a: &MemoryOp, b: &MemoryOp) -> (r: bool)
    ensures
        r == key_lt(*a, *b),
{
    if a.address.context != b.address.context {
        a.address.context < b.address.context
    } else if a.address.segment != b.address.segment {
        a.address.segment < b.address.segment
    } else if a.address.virt != b.address.virt {
        a.address.virt < b.address.virt
    } else {
        a.timestamp < b.timestamp
    }
}

/// A sequence of operations in nondecreasing key order.
pub open spec fn sorted_ops(s: Seq<MemoryOp>) -> bool {
    forall|x: int, y: int| 0 <= x < y < s.len() ==> key_le(#[trigger] s[x], #[trigger] s[y])
}

/// Components and timestamp of every operation stay below the fixed bounds,
/// so that all derived arithmetic fits the field.
pub open spec fn op_bounded(op: MemoryOp) -> bool {
    op.address.context <= MAX_ADDRESS_COMPONENT && op.address.segment <= MAX_ADDRESS_COMPONENT
        && op.address.virt <= MAX_ADDRESS_COMPONENT && op.timestamp <= MAX_TIMESTAMP
}

/// Bound on every operation of a log.
pub open spec fn ops_bounded(s: Seq<MemoryOp>) -> bool {
    forall|a: MemoryOp| #[trigger] s.contains(a) ==> op_bounded(a)
}

/// Two operations of the log share a sorting key only if they are the same
/// operation outright.
pub open spec fn ties_identical(s: Seq<MemoryOp>) -> bool {
    forall|a: MemoryOp, b: MemoryOp|
        #[trigger] s.contains(a) && #[trigger] s.contains(b) && key_eq(a, b) ==> a == b
}

/// Some operation of the log sits at the same address strictly between `a`
/// and `b` in key order.
pub open spec fn op_between(s: Seq<MemoryOp>, a: MemoryOp, b: MemoryOp) -> bool {
    exists|c: MemoryOp|
        #[trigger] s.contains(c) && c.address == a.address && key_lt(a, c) && key_lt(c, b)
}

/// Every read returns the value of the latest earlier operation at the same
/// address: whenever nothing lies between `a` and a read `b` at one address,
/// `b` carries `a`'s value.
pub open spec fn read_consistent(s: Seq<MemoryOp>) -> bool {
    forall|a: MemoryOp, b: MemoryOp|
        #[trigger] s.contains(a) && #[trigger] s.contains(b) && a.address == b.address && key_lt(
            a,
            b,
        ) && b.kind == MemoryOpKind::Read && !op_between(s, a, b) ==> b.value == a.value
}

/// No operation of the log at the same address comes before `b` in key order.
pub open spec fn first_op_of_address(s: Seq<MemoryOp>, b: MemoryOp) -> bool {
    forall|c: MemoryOp|
        #[trigger] s.contains(c) && c.address == b.address ==> !key_lt(c, b)
}

/// A cell outside the preinitialized segments reads as zero until written:
/// the first operation at such an address, if a read, carries the zero value.
pub open spec fn zero_init_ok(s: Seq<MemoryOp>) -> bool {
    forall|b: MemoryOp|
        #[trigger] s.contains(b) && b.kind == MemoryOpKind::Read && !is_preinitialized_segment(
            b.address.segment,
        ) && first_op_of_address(s, b) ==> value_is_zero(b.value)
}

/// Synthetic operations are always reads; only real operations may write.
pub open spec fn inactive_are_reads(s: Seq<MemoryOp>) -> bool {
    forall|a: MemoryOp| #[trigger] s.contains(a) && !a.filter ==> a.kind == MemoryOpKind::Read
}

/// The well-formedness a machine-produced operation log owes the trace
/// builder: consistent reads, zero-initialized first reads outside
/// preinitialized segments, no key ties between distinct operations, and
/// dummies that are reads.
#[verifier::opaque]
pub open spec fn well_formed_log(s: Seq<MemoryOp>) -> bool {
    read_consistent(s) && zero_init_ok(s) && ties_identical(s) && inactive_are_reads(s)
}

/// The real (machine-performed) operations of a log, in order.
pub open spec fn active_ops(s: Seq<MemoryOp>) -> Seq<MemoryOp> {
    s.filter(|o: MemoryOp| o.filter)
}

/// All the order-independent log predicates carry over to any reordering of
/// the log.
pub proof fn lemma_log_predicates_permute(s1: Seq<MemoryOp>, s2: Seq<MemoryOp>)
    requires
        s1.to_multiset() == s2.to_multiset(),
    ensures
        forall|x: MemoryOp| s1.contains(x) <==> s2.contains(x),
        read_consistent(s1) ==> read_consistent(s2),
        zero_init_ok(s1) ==> zero_init_ok(s2),
        ties_identical(s1) ==> ties_identical(s2),
        inactive_are_reads(s1) ==> inactive_are_reads(s2),
        ops_bounded(s1) ==> ops_bounded(s2),
        well_formed_log(s1) ==> well_formed_log(s2),
{
    reveal(well_formed_log);
    assert forall|x: MemoryOp| s1.contains(x) <==> s2.contains(x) by {
        vstd::seq_lib::to_multiset_contains(s1, x);
        vstd::seq_lib::to_multiset_contains(s2, x);
    }
    if read_consistent(s1) {
        assert forall|a: MemoryOp, b: MemoryOp|
            #[trigger] s2.contains(a) && #[trigger] s2.contains(b) && a.address == b.address
                && key_lt(a, b) && b.kind == MemoryOpKind::Read && !op_between(s2, a, b) implies
            b.value == a.value by {
            assert(!op_between(s1, a, b));
            assert(s1.contains(a) && s1.contains(b));
        }
    }
    if zero_init_ok(s1) {
        assert forall|b: MemoryOp|
            #[trigger] s2.contains(b) && b.kind == MemoryOpKind::Read
                && !is_preinitialized_segment(b.address.segment) && first_op_of_address(
                s2,
                b,
            ) implies value_is_zero(b.value) by {
            assert(first_op_of_address(s1, b));
            assert(s1.contains(b));
        }
    }
}

/// In a sorted log, nothing lies strictly between two neighbours; a
/// neighbouring read at an unchanged address therefore carries its
/// predecessor's value.
pub proof fn lemma_sorted_adjacent_read(s: Seq<MemoryOp>, i: int)
    requires
        sorted_ops(s),
        ties_identical(s),
        read_consistent(s),
        0 <= i < s.len() - 1,
        s[i].address == s[i + 1].address,
        s[i + 1].kind == MemoryOpKind::Read,
    ensures
        s[i + 1].value == s[i].value,
{
    let a = s[i];
    let b = s[i + 1];
    assert(s.contains(a));
    assert(s.contains(b));
    assert(key_le(a, b));
    if key_eq(a, b) {
        assert(a == b);
    } else {
        assert(key_lt(a, b));
        assert(!op_between(s, a, b)) by {
            if op_between(s, a, b) {
                let w = choose|w: MemoryOp|
                    s.contains(w) && w.address == a.address && key_lt(a, w) && key_lt(w, b);
                let m = choose|m: int| 0 <= m < s.len() && s[m] == w;
                if m < i {
                    assert(key_le(s[m], s[i]));
                } else if m > i + 1 {
                    assert(key_le(s[i + 1], s[m]));
                }
                assert(false);
            }
        }
    }
}

/// In a sorted log, the row after an address change is the first operation
/// at its address.
pub proof fn lemma_sorted_adjacent_first(s: Seq<MemoryOp>, i: int)
    requires
        sorted_ops(s),
        0 <= i < s.len() - 1,
        s[i].address != s[i + 1].address,
    ensures
        first_op_of_address(s, s[i + 1]),
{
    let b = s[i + 1];
    assert forall|c: MemoryOp| #[trigger] s.contains(c) && c.address == b.address implies !key_lt(
        c,
        b,
    ) by {
        let m = choose|m: int| 0 <= m < s.len() && s[m] == c;
        if m > i + 1 {
            assert(key_le(s[i + 1], s[m]));
        } else if m <= i {
            if m < i {
                assert(key_le(s[m], s[i]));
            }
            assert(key_le(s[i], s[i + 1]));
            assert(false);
        }
    }
}

/// Strict ordering of a tie-free log: between two neighbouring sorted
/// operations the sorting key strictly increases, unless the two are the
/// same operation outright (as repeated padding rows are).
pub proof fn lemma_sorted_strict(s: Seq<MemoryOp>, i: int)
    requires
        sorted_ops(s),
        ties_identical(s),
        0 <= i < s.len() - 1,
    ensures
        key_lt(s[i], s[i + 1]) || s[i] == s[i + 1],
{
    assert(s.contains(s[i]));
    assert(s.contains(s[i + 1]));
    assert(key_le(s[i], s[i + 1]));
}

/// How often a value occurs among the real operations: its count in the
/// log if it is real, zero otherwise.
pub proof fn lemma_active_count(s: Seq<MemoryOp>, x: MemoryOp)
    ensures
        active_ops(s).to_multiset().count(x) == if x.filter {
            s.to_multiset().count(x)
        } else {
            0int as nat
        },
    decreases s.len(),
{
    broadcast use vstd::seq_lib::group_to_multiset_ensures;

    reveal_with_fuel(Seq::filter, 2);
    let pred = |o: MemoryOp| o.filter;
    if s.len() == 0 {
        assert(s.to_multiset() =~= Multiset::<MemoryOp>::empty());
        assert(active_ops(s).to_multiset() =~= Multiset::<MemoryOp>::empty());
    } else {
        let t = s.drop_last();
        lemma_active_count(t, x);
        assert(s == t.push(s.last()));
        assert(s.to_multiset() == t.to_multiset().insert(s.last()));
        if pred(s.last()) {
            assert(s.filter(pred) == t.filter(pred).push(s.last()));
            assert(s.filter(pred).to_multiset() == t.filter(pred).to_multiset().insert(
                s.last(),
            ));
        } else {
            assert(s.filter(pred) == t.filter(pred));
        }
    }
}

/// Reordering a log reorders its real operations: the multisets of real
/// operations agree.
pub proof fn lemma_active_multiset_permute(s1: Seq<MemoryOp>, s2: Seq<MemoryOp>)
    requires
        s1.to_multiset() == s2.to_multiset(),
    ensures
        active_ops(s1).to_multiset() == active_ops(s2).to_multiset(),
{
    assert forall|x: MemoryOp|
        active_ops(s1).to_multiset().count(x) == active_ops(s2).to_multiset().count(x) by {
        lemma_active_count(s1, x);
        lemma_active_count(s2, x);
    }
    assert(active_ops(s1).to_multiset() =~= active_ops(s2).to_multiset());
}

/// A log without key ties has exactly one sorted arrangement: any two
/// sorted sequences with the same operations are equal.
pub proof fn lemma_sorted_unique(s1: Seq<MemoryOp>, s2: Seq<MemoryOp>)
    requires
        sorted_ops(s1),
        sorted_ops(s2),
        s1.to_multiset() == s2.to_multiset(),
        ties_identical(s1),
    ensures
        s1 == s2,
    decreases s1.len(),
{
    broadcast use vstd::seq_lib::group_to_multiset_ensures;

    vstd::seq_lib::to_multiset_len(s1);
    vstd::seq_lib::to_multiset_len(s2);
    if s1.len() == 0 {
        assert(s1 =~= s2);
    } else {
        assert(s1.contains(s1[0]) && s2.contains(s2[0]));
        assert(s1.to_multiset().count(s2[0]) > 0);
        assert(s1.contains(s2[0]));
        assert(s2.to_multiset().count(s1[0]) > 0);
        assert(s2.contains(s1[0]));
        let m1 = choose|m: int| 0 <= m < s1.len() && s1[m] == s2[0];
        let m2 = choose|m: int| 0 <= m < s2.len() && s2[m] == s1[0];
        assert(key_le(s1[0], s1[m1]) || m1 == 0);
        assert(key_le(s2[0], s2[m2]) || m2 == 0);
        assert(key_le(s1[0], s2[0]) && key_le(s2[0], s1[0]));
        assert(key_eq(s1[0], s2[0]));
        assert(s1[0] == s2[0]);
        let t1 = s1.remove(0);
        let t2 = s2.remove(0);
        assert(t1.to_multiset() == t2.to_multiset()) by {
            assert(t1.to_multiset() == s1.to_multiset().remove(s1[0]));
            assert(t2.to_multiset() == s2.to_multiset().remove(s2[0]));
        }
        assert(sorted_ops(t1)) by {
            assert forall|x: int, y: int| 0 <= x < y < t1.len() implies key_le(
                #[trigger] t1[x],
                #[trigger] t1[y],
            ) by {
                assert(t1[x] == s1[x + 1] && t1[y] == s1[y + 1]);
            }
        }
        assert(sorted_ops(t2)) by {
            assert forall|x: int, y: int| 0 <= x < y < t2.len() implies key_le(
                #[trigger] t2[x],
                #[trigger] t2[y],
            ) by {
                assert(t2[x] == s2[x + 1] && t2[y] == s2[y + 1]);
            }
        }
        assert(ties_identical(t1)) by {
            assert forall|a: MemoryOp, b: MemoryOp|
                #[trigger] t1.contains(a) && #[trigger] t1.contains(b) && key_eq(a, b) implies a
                == b by {
                let x = choose|x: int| 0 <= x < t1.len() && t1[x] == a;
                let y = choose|y: int| 0 <= y < t1.len() && t1[y] == b;
                assert(s1[x + 1] == a && s1[y + 1] == b);
                assert(s1.contains(a) && s1.contains(b));
            }
        }
        lemma_sorted_unique(t1, t2);
        assert(s1 =~= s2) by {
            assert forall|j: int| 0 <= j < s1.len() implies s1[j] == s2[j] by {
                if j > 0 {
                    assert(t1[j - 1] == s1[j] && t2[j - 1] == s2[j]);
                }
            }
        }
    }
}

} // verus!
