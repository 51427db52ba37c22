//! Gap filling and padding.
//!
//! The range-check argument can only bound differences smaller than the
//! trace length.  This module inserts synthetic reads between sorted
//! operations until every adjacent difference fits the bound, then pads the
//! list with copies of one more synthetic read to a power-of-two length.
//!
//! The preservation lemmas show that appending a synthetic read between its
//! neighbours keeps every well-formedness predicate of the log: the order,
//! the absence of key ties, read consistency, zero initialization, dummies
//! being reads, and the multiset of real operations.

use vstd::prelude::*;
use crate::ops::{
    active_ops, inactive_are_reads, key_eq, key_le, key_lt, op_between, first_op_of_address,
    read_consistent, sorted_ops, ties_identical, value_is_zero, zero_init_ok, MemoryAddress,
    MemoryOp, MemoryOpKind, MAX_ADDRESS_COMPONENT, MAX_TIMESTAMP,
};

verus! {

/// Bound on the timestamps of synthetic reads: gap-filling dummies advance a
/// real timestamp by at most one per inserted virtual-offset step, and
/// padding advances it once more.
pub const MAX_TRACE_TIMESTAMP: u64 = MAX_TIMESTAMP + MAX_ADDRESS_COMPONENT + 2;

/// Bounds that every operation of a built trace satisfies.
pub open spec fn trace_op_bounded(op: MemoryOp) -> bool {
    op.address.context <= MAX_ADDRESS_COMPONENT && op.address.segment <= MAX_ADDRESS_COMPONENT
        && op.address.virt <= MAX_ADDRESS_COMPONENT + 1 && op.timestamp <= MAX_TRACE_TIMESTAMP
}

/// Bound on every operation of a trace.
pub open spec fn trace_ops_bounded(s: Seq<MemoryOp>) -> bool {
    forall|a: MemoryOp| #[trigger] s.contains(a) ==> trace_op_bounded(a)
}

/// Bounds that every operation satisfies after gap filling, before padding:
/// offsets still fit the address-component bound, and the timestamp of a
/// synthetic read exceeds a real timestamp by at most one per inserted
/// offset step.
pub open spec fn filled_op_bounded(op: MemoryOp) -> bool {
    op.address.context <= MAX_ADDRESS_COMPONENT && op.address.segment <= MAX_ADDRESS_COMPONENT
        && op.address.virt <= MAX_ADDRESS_COMPONENT && op.timestamp <= MAX_TIMESTAMP
        + MAX_ADDRESS_COMPONENT + 1
}

/// Bound on every operation of a gap-filled list.
pub open spec fn filled_ops_bounded(s: Seq<MemoryOp>) -> bool {
    forall|a: MemoryOp| #[trigger] s.contains(a) ==> filled_op_bounded(a)
}

/// Lexicographic order on addresses.
pub open spec fn addr_lt(a: MemoryAddress, b: MemoryAddress) -> bool {
    a.context < b.context || (a.context == b.context && (a.segment < b.segment || (a.segment
        == b.segment && a.virt < b.virt)))
}

/// The difference the range check will have to certify for the adjacent
/// pair (`a`, `b`) fits the bound `max_rc`.  When context or segment
/// changes, the next virtual offset itself is bounded (it restarts the
/// offset baseline); when only the offset changes, the offset gap is
/// bounded; at an unchanged address, the timestamp gap is bounded.
pub open spec fn pair_bounded(a: MemoryOp, b: MemoryOp, max_rc: u64) -> bool {
    if a.address.context != b.address.context || a.address.segment != b.address.segment {
        b.address.virt <= max_rc
    } else if a.address.virt != b.address.virt {
        b.address.virt - a.address.virt - 1 <= max_rc
    } else {
        b.timestamp - a.timestamp <= max_rc
    }
}

/// No adjacent pair of the list has a gap the range check could not certify.
pub open spec fn no_oversized_gaps(s: Seq<MemoryOp>, max_rc: u64) -> bool {
    forall|k: int| 0 <= k < s.len() - 1 ==> pair_bounded(#[trigger] s[k], s[k + 1], max_rc)
}

/// Membership in `out + rest` after pushing `d` onto `out`: exactly the old
/// elements and `d`.
pub proof fn lemma_push_mid_contains(out_: Seq<MemoryOp>, rest: Seq<MemoryOp>, d: MemoryOp)
    ensures
        forall|y: MemoryOp|
            #[trigger] (out_.push(d) + rest).contains(y) <==> ((out_ + rest).contains(y) || y
                == d),
{
    let c = out_ + rest;
    let c2 = out_.push(d) + rest;
    let p = out_.len() as int;
    assert forall|y: MemoryOp| #[trigger] c2.contains(y) implies (c.contains(y) || y == d) by {
        let i = choose|i: int| 0 <= i < c2.len() && c2[i] == y;
        if i < p {
            assert(c[i] == y);
        } else if i == p {
            assert(c2[i] == d);
        } else {
            assert(c[i - 1] == y);
        }
    }
    assert forall|y: MemoryOp| c.contains(y) || y == d implies #[trigger] c2.contains(y) by {
        if c.contains(y) {
            let i = choose|i: int| 0 <= i < c.len() && c[i] == y;
            if i < p {
                assert(c2[i] == y);
            } else {
                assert(c2[i + 1] == y);
            }
        } else {
            assert(c2[p] == d);
        }
    }
}

/// Pushing a synthetic (inactive) operation does not change the real
/// operations of the log.
pub proof fn lemma_active_push_inactive(out_: Seq<MemoryOp>, rest: Seq<MemoryOp>, d: MemoryOp)
    requires
        !d.filter,
    ensures
        active_ops(out_.push(d) + rest) == active_ops(out_ + rest),
{
    let pred = |o: MemoryOp| o.filter;
    reveal_with_fuel(Seq::filter, 2);
    assert(seq![d].drop_last() =~= Seq::<MemoryOp>::empty());
    assert(seq![d].filter(pred) =~= Seq::<MemoryOp>::empty());
    Seq::filter_distributes_over_add(out_, seq![d], pred);
    assert(out_.push(d) =~= out_ + seq![d]);
    Seq::filter_distributes_over_add(out_.push(d), rest, pred);
    Seq::filter_distributes_over_add(out_, rest, pred);
    assert((out_ + seq![d]).filter(pred) =~= out_.filter(pred));
    assert(active_ops(out_.push(d) + rest) =~= active_ops(out_ + rest));
}

/// Key-order facts about every element of `out + rest` relative to a value
/// strictly between the two halves.
pub proof fn lemma_split_keys(out_: Seq<MemoryOp>, rest: Seq<MemoryOp>, d: MemoryOp)
    requires
        sorted_ops(out_ + rest),
        out_.len() > 0 ==> key_lt(out_.last(), d),
        rest.len() > 0 ==> key_lt(d, rest[0]),
    ensures
        forall|x: MemoryOp| out_.contains(x) ==> key_lt(x, d),
        forall|x: MemoryOp| rest.contains(x) ==> key_lt(d, x),
        forall|x: MemoryOp| #[trigger] (out_ + rest).contains(x) ==> !key_eq(x, d),
{
    let c = out_ + rest;
    let p = out_.len() as int;
    assert forall|x: MemoryOp| out_.contains(x) implies key_lt(x, d) by {
        let i = choose|i: int| 0 <= i < out_.len() && out_[i] == x;
        assert(c[i] == x);
        assert(c[p - 1] == out_.last());
        if i < p - 1 {
            assert(key_le(c[i], c[p - 1]));
        }
    }
    assert forall|x: MemoryOp| rest.contains(x) implies key_lt(d, x) by {
        let i = choose|i: int| 0 <= i < rest.len() && rest[i] == x;
        assert(c[p + i] == x);
        assert(c[p] == rest[0]);
        if i > 0 {
            assert(key_le(c[p], c[p + i]));
        }
    }
    assert forall|x: MemoryOp| #[trigger] c.contains(x) implies !key_eq(x, d) by {
        let i = choose|i: int| 0 <= i < c.len() && c[i] == x;
        if i < p {
            assert(out_[i] == x);
            assert(out_.contains(x));
        } else {
            assert(rest[i - p] == x);
            assert(rest.contains(x));
        }
    }
}

/// The order is kept when a value strictly between the two halves is pushed
/// onto the first half.
pub proof fn lemma_push_mid_sorted(out_: Seq<MemoryOp>, rest: Seq<MemoryOp>, d: MemoryOp)
    requires
        sorted_ops(out_ + rest),
        out_.len() > 0 ==> key_lt(out_.last(), d),
        rest.len() > 0 ==> key_lt(d, rest[0]),
    ensures
        sorted_ops(out_.push(d) + rest),
{
    let c = out_ + rest;
    let c2 = out_.push(d) + rest;
    let p = out_.len() as int;
    lemma_split_keys(out_, rest, d);
    assert forall|x: int, y: int| 0 <= x < y < c2.len() implies key_le(c2[x], c2[y]) by {
        if x < p && y < p {
            assert(c2[x] == c[x] && c2[y] == c[y]);
        } else if x < p && y == p {
            assert(c2[x] == c[x]);
            assert(out_[x] == c[x]);
            assert(out_.contains(out_[x]));
        } else if x < p && y > p {
            assert(c2[x] == c[x] && c2[y] == c[y - 1]);
        } else if x == p {
            assert(c2[y] == c[y - 1]);
            assert(rest[y - 1 - p] == c[y - 1]);
            assert(rest.contains(rest[y - 1 - p]));
        } else {
            assert(c2[x] == c[x - 1] && c2[y] == c[y - 1]);
        }
    }
}

/// Pushing a synthetic read at a fresh address (strictly between the two
/// halves in address order) preserves every log predicate.
pub proof fn lemma_append_fresh_dummy(out_: Seq<MemoryOp>, rest: Seq<MemoryOp>, d: MemoryOp)
    requires
        sorted_ops(out_ + rest),
        d.kind == MemoryOpKind::Read,
        !d.filter,
        value_is_zero(d.value),
        out_.len() > 0 ==> key_lt(out_.last(), d),
        out_.len() > 0 ==> addr_lt(out_.last().address, d.address),
        rest.len() > 0 ==> key_lt(d, rest[0]),
        rest.len() > 0 ==> addr_lt(d.address, rest[0].address),
    ensures
        sorted_ops(out_.push(d) + rest),
        forall|y: MemoryOp|
            #[trigger] (out_.push(d) + rest).contains(y) <==> ((out_ + rest).contains(y) || y
                == d),
        ties_identical(out_ + rest) ==> ties_identical(out_.push(d) + rest),
        read_consistent(out_ + rest) ==> read_consistent(out_.push(d) + rest),
        zero_init_ok(out_ + rest) ==> zero_init_ok(out_.push(d) + rest),
        inactive_are_reads(out_ + rest) ==> inactive_are_reads(out_.push(d) + rest),
        active_ops(out_.push(d) + rest) == active_ops(out_ + rest),
{
    let c = out_ + rest;
    let c2 = out_.push(d) + rest;
    let p = out_.len() as int;
    lemma_push_mid_contains(out_, rest, d);
    lemma_active_push_inactive(out_, rest, d);
    lemma_split_keys(out_, rest, d);
    lemma_push_mid_sorted(out_, rest, d);
    // freshness: no element of c shares d's address
    assert forall|x: MemoryOp| #[trigger] c.contains(x) implies x.address != d.address by {
        let i = choose|i: int| 0 <= i < c.len() && c[i] == x;
        if i < p {
            assert(out_[i] == x);
            assert(out_.contains(x));
            assert(key_lt(x, d));
            assert(c[p - 1] == out_.last());
            if i < p - 1 {
                assert(key_le(c[i], c[p - 1]));
            }
            // key order projects to address order, and the last address is
            // strictly below d's
        } else {
            assert(rest[i - p] == x);
            assert(rest.contains(x));
            if i - p > 0 {
                assert(key_le(c[p], c[i]));
            }
        }
    }
    if ties_identical(c) {
        assert forall|a: MemoryOp, b: MemoryOp|
            #[trigger] c2.contains(a) && #[trigger] c2.contains(b) && key_eq(a, b) implies a
            == b by {
            if a == d && b == d {
            } else if a == d {
                assert(c.contains(b));
                assert(!key_eq(b, d));
            } else if b == d {
                assert(c.contains(a));
                assert(!key_eq(a, d));
            } else {
                assert(c.contains(a) && c.contains(b));
            }
        }
    }
    if read_consistent(c) {
        assert forall|a: MemoryOp, b: MemoryOp|
            #[trigger] c2.contains(a) && #[trigger] c2.contains(b) && a.address == b.address
                && key_lt(a, b) && b.kind == MemoryOpKind::Read && !op_between(c2, a, b) implies
            b.value == a.value by {
            if a == d {
                assert(c.contains(b) || b == d);
                if b == d {
                    assert(false);
                } else {
                    assert(b.address != d.address);
                    assert(false);
                }
            } else if b == d {
                assert(c.contains(a));
                assert(a.address != d.address);
                assert(false);
            } else {
                assert(c.contains(a) && c.contains(b));
                assert(!op_between(c, a, b)) by {
                    if op_between(c, a, b) {
                        let w = choose|w: MemoryOp|
                            c.contains(w) && w.address == a.address && key_lt(a, w) && key_lt(
                                w,
                                b,
                            );
                        assert(c2.contains(w));
                        assert(op_between(c2, a, b));
                    }
                }
            }
        }
    }
    if zero_init_ok(c) {
        assert forall|b: MemoryOp|
            #[trigger] c2.contains(b) && b.kind == MemoryOpKind::Read
                && !crate::segments::is_preinitialized_segment(b.address.segment)
                && first_op_of_address(c2, b) implies value_is_zero(b.value) by {
            if b == d {
            } else {
                assert(c.contains(b));
                assert(first_op_of_address(c, b)) by {
                    assert forall|w: MemoryOp|
                        #[trigger] c.contains(w) && w.address == b.address implies !key_lt(
                        w,
                        b,
                    ) by {
                        assert(c2.contains(w));
                    }
                }
            }
        }
    }
    if inactive_are_reads(c) {
        assert forall|a: MemoryOp| #[trigger] c2.contains(a) && !a.filter implies a.kind
            == MemoryOpKind::Read by {
            if a != d {
                assert(c.contains(a));
            }
        }
    }
}

/// Pushing a synthetic read that repeats its predecessor's address and
/// value (a timestamp-gap dummy) preserves every log predicate, provided
/// the next remaining operation sits at the same address.
pub proof fn lemma_append_carry_dummy(out_: Seq<MemoryOp>, rest: Seq<MemoryOp>, d: MemoryOp)
    requires
        sorted_ops(out_ + rest),
        d.kind == MemoryOpKind::Read,
        !d.filter,
        out_.len() > 0,
        rest.len() > 0,
        key_lt(out_.last(), d),
        key_lt(d, rest[0]),
        d.address == out_.last().address,
        d.value == out_.last().value,
        rest[0].address == d.address,
    ensures
        sorted_ops(out_.push(d) + rest),
        forall|y: MemoryOp|
            #[trigger] (out_.push(d) + rest).contains(y) <==> ((out_ + rest).contains(y) || y
                == d),
        ties_identical(out_ + rest) ==> ties_identical(out_.push(d) + rest),
        ties_identical(out_ + rest) && read_consistent(out_ + rest) ==> read_consistent(
            out_.push(d) + rest,
        ),
        zero_init_ok(out_ + rest) ==> zero_init_ok(out_.push(d) + rest),
        inactive_are_reads(out_ + rest) ==> inactive_are_reads(out_.push(d) + rest),
        active_ops(out_.push(d) + rest) == active_ops(out_ + rest),
{
    let c = out_ + rest;
    let c2 = out_.push(d) + rest;
    let p = out_.len() as int;
    let prev = out_.last();
    let r0 = rest[0];
    lemma_push_mid_contains(out_, rest, d);
    lemma_active_push_inactive(out_, rest, d);
    lemma_split_keys(out_, rest, d);
    lemma_push_mid_sorted(out_, rest, d);
    assert(c[p - 1] == prev && c.contains(prev));
    assert(c[p] == r0 && c.contains(r0));
    if ties_identical(c) {
        assert forall|a: MemoryOp, b: MemoryOp|
            #[trigger] c2.contains(a) && #[trigger] c2.contains(b) && key_eq(a, b) implies a
            == b by {
            if a == d && b == d {
            } else if a == d {
                assert(c.contains(b));
                assert(!key_eq(b, d));
            } else if b == d {
                assert(c.contains(a));
                assert(!key_eq(a, d));
            } else {
                assert(c.contains(a) && c.contains(b));
            }
        }
    }
    if ties_identical(c) && read_consistent(c) {
        assert forall|a: MemoryOp, b: MemoryOp|
            #[trigger] c2.contains(a) && #[trigger] c2.contains(b) && a.address == b.address
                && key_lt(a, b) && b.kind == MemoryOpKind::Read && !op_between(c2, a, b) implies
            b.value == a.value by {
            if a == d && b == d {
                assert(false);
            } else if b == d {
                // the predecessor carries the value d repeats
                assert(c.contains(a));
                if a == prev {
                } else {
                    if key_lt(a, prev) {
                        assert(c2.contains(prev));
                        assert(op_between(c2, a, d));
                        assert(false);
                    } else if key_lt(prev, a) {
                        // a is above the predecessor yet below d: impossible,
                        // every element of the log sits outside that window
                        if out_.contains(a) {
                            assert(key_lt(a, d));
                            let i = choose|i: int| 0 <= i < out_.len() && out_[i] == a;
                            assert(c[i] == a);
                            if i < p - 1 {
                                assert(key_le(c[i], c[p - 1]));
                            }
                            assert(false);
                        } else {
                            let i = choose|i: int| 0 <= i < c.len() && c[i] == a;
                            if i < p {
                                assert(out_[i] == a);
                                assert(out_.contains(a));
                                assert(false);
                            } else {
                                if i > p {
                                    assert(key_le(c[p], c[i]));
                                }
                                assert(key_le(r0, a));
                                assert(key_lt(a, d) && key_lt(d, r0));
                                assert(false);
                            }
                        }
                    } else {
                        assert(key_eq(a, prev));
                        assert(a == prev);
                    }
                }
            } else if a == d {
                // the value propagates to the next operation at this address
                assert(c.contains(b));
                let i = choose|i: int| 0 <= i < c.len() && c[i] == b;
                if i < p {
                    assert(out_[i] == b);
                    assert(out_.contains(b));
                    assert(key_lt(b, d));
                    assert(false);
                } else {
                    if b == r0 {
                        // read consistency of the old log between prev and r0
                        assert(key_lt(prev, r0));
                        assert(!op_between(c, prev, r0)) by {
                            if op_between(c, prev, r0) {
                                let w = choose|w: MemoryOp|
                                    c.contains(w) && w.address == prev.address && key_lt(
                                        prev,
                                        w,
                                    ) && key_lt(w, r0);
                                let j = choose|j: int| 0 <= j < c.len() && c[j] == w;
                                if j < p {
                                    assert(out_[j] == w);
                                    if j < p - 1 {
                                        assert(key_le(c[j], c[p - 1]));
                                    }
                                    assert(false);
                                } else {
                                    if j > p {
                                        assert(key_le(c[p], c[j]));
                                    }
                                    assert(false);
                                }
                            }
                        }
                        assert(r0.value == prev.value);
                    } else {
                        if key_eq(r0, b) {
                            assert(b == r0);
                            assert(false);
                        } else {
                            if i > p {
                                assert(key_le(c[p], c[i]));
                            }
                            assert(key_lt(r0, b));
                            assert(c2.contains(r0));
                            assert(op_between(c2, d, b));
                            assert(false);
                        }
                    }
                }
            } else {
                assert(c.contains(a) && c.contains(b));
                assert(!op_between(c, a, b)) by {
                    if op_between(c, a, b) {
                        let w = choose|w: MemoryOp|
                            c.contains(w) && w.address == a.address && key_lt(a, w) && key_lt(
                                w,
                                b,
                            );
                        assert(c2.contains(w));
                        assert(op_between(c2, a, b));
                    }
                }
            }
        }
    }
    if zero_init_ok(c) {
        assert forall|b: MemoryOp|
            #[trigger] c2.contains(b) && b.kind == MemoryOpKind::Read
                && !crate::segments::is_preinitialized_segment(b.address.segment)
                && first_op_of_address(c2, b) implies value_is_zero(b.value) by {
            if b == d {
                // the predecessor shares d's address and comes earlier
                assert(c2.contains(prev));
                assert(key_lt(prev, d));
                assert(false);
            } else {
                assert(c.contains(b));
                assert(first_op_of_address(c, b)) by {
                    assert forall|w: MemoryOp|
                        #[trigger] c.contains(w) && w.address == b.address implies !key_lt(
                        w,
                        b,
                    ) by {
                        assert(c2.contains(w));
                    }
                }
            }
        }
    }
    if inactive_are_reads(c) {
        assert forall|a: MemoryOp| #[trigger] c2.contains(a) && !a.filter implies a.kind
            == MemoryOpKind::Read by {
            if a != d {
                assert(c.contains(a));
            }
        }
    }
}

/// Pushing an exact copy of the last operation (a padding row) preserves
/// every log predicate, provided the copy is an inactive zero-valued read.
pub proof fn lemma_append_duplicate(out_: Seq<MemoryOp>, d: MemoryOp)
    requires
        sorted_ops(out_),
        out_.len() > 0,
        d == out_.last(),
        d.kind == MemoryOpKind::Read,
        !d.filter,
        value_is_zero(d.value),
    ensures
        sorted_ops(out_.push(d)),
        forall|y: MemoryOp| #[trigger] out_.push(d).contains(y) <==> out_.contains(y),
        ties_identical(out_) ==> ties_identical(out_.push(d)),
        ties_identical(out_) && read_consistent(out_) ==> read_consistent(out_.push(d)),
        zero_init_ok(out_) ==> zero_init_ok(out_.push(d)),
        inactive_are_reads(out_) ==> inactive_are_reads(out_.push(d)),
        active_ops(out_.push(d)) == active_ops(out_),
{
    let c = out_;
    let c2 = out_.push(d);
    let p = out_.len() as int;
    assert(c2 =~= out_.push(d) + Seq::<MemoryOp>::empty());
    lemma_push_mid_contains(out_, Seq::<MemoryOp>::empty(), d);
    lemma_active_push_inactive(out_, Seq::<MemoryOp>::empty(), d);
    assert(forall|y: MemoryOp| #[trigger] (out_ + Seq::<MemoryOp>::empty()).contains(y) <==> out_.contains(y));
    assert(active_ops(out_ + Seq::<MemoryOp>::empty()) =~= active_ops(out_));
    assert(c.contains(d)) by {
        assert(c[p - 1] == d);
    }
    assert forall|x: int, y: int| 0 <= x < y < c2.len() implies key_le(c2[x], c2[y]) by {
        if y < p {
        } else {
            assert(c2[y] == d);
            if x < p - 1 {
                assert(key_le(c[x], c[p - 1]));
            }
        }
    }
    // every element's key is at most d's key
    assert forall|x: MemoryOp| #[trigger] c.contains(x) implies key_le(x, d) by {
        let i = choose|i: int| 0 <= i < c.len() && c[i] == x;
        if i < p - 1 {
            assert(key_le(c[i], c[p - 1]));
        }
    }
    if ties_identical(c) {
        assert forall|a: MemoryOp, b: MemoryOp|
            #[trigger] c2.contains(a) && #[trigger] c2.contains(b) && key_eq(a, b) implies a
            == b by {
            assert(c.contains(a) || a == d);
            assert(c.contains(b) || b == d);
            assert(c.contains(a) && c.contains(b));
        }
    }
    if ties_identical(c) && read_consistent(c) {
        assert forall|a: MemoryOp, b: MemoryOp|
            #[trigger] c2.contains(a) && #[trigger] c2.contains(b) && a.address == b.address
                && key_lt(a, b) && b.kind == MemoryOpKind::Read && !op_between(c2, a, b) implies
            b.value == a.value by {
            assert(c.contains(a) && c.contains(b));
            assert(!op_between(c, a, b)) by {
                if op_between(c, a, b) {
                    let w = choose|w: MemoryOp|
                        c.contains(w) && w.address == a.address && key_lt(a, w) && key_lt(w, b);
                    assert(c2.contains(w));
                    assert(op_between(c2, a, b));
                }
            }
        }
    }
    if zero_init_ok(c) {
        assert forall|b: MemoryOp|
            #[trigger] c2.contains(b) && b.kind == MemoryOpKind::Read
                && !crate::segments::is_preinitialized_segment(b.address.segment)
                && first_op_of_address(c2, b) implies value_is_zero(b.value) by {
            assert(c.contains(b));
            assert(first_op_of_address(c, b)) by {
                assert forall|w: MemoryOp|
                    #[trigger] c.contains(w) && w.address == b.address implies !key_lt(w, b) by {
                    assert(c2.contains(w));
                }
            }
        }
    }
    if inactive_are_reads(c) {
        assert forall|a: MemoryOp| #[trigger] c2.contains(a) && !a.filter implies a.kind
            == MemoryOpKind::Read by {
            assert(c.contains(a));
        }
    }
}

/// Membership after a plain push.
pub proof fn lemma_push_contains(s: Seq<MemoryOp>, d: MemoryOp)
    ensures
        forall|y: MemoryOp| #[trigger] s.push(d).contains(y) <==> (s.contains(y) || y == d),
{
    assert forall|y: MemoryOp| #[trigger] s.push(d).contains(y) implies (s.contains(y) || y
        == d) by {
        let i = choose|i: int| 0 <= i < s.push(d).len() && s.push(d)[i] == y;
        if i < s.len() {
            assert(s[i] == y);
        }
    }
    assert forall|y: MemoryOp| s.contains(y) || y == d implies #[trigger] s.push(d).contains(
        y,
    ) by {
        if s.contains(y) {
            let i = choose|i: int| 0 <= i < s.len() && s[i] == y;
            assert(s.push(d)[i] == y);
        } else {
            assert(s.push(d)[s.len() as int] == d);
        }
    }
}

/// A push whose new adjacent pair fits the bound keeps the list free of
/// oversized gaps.
pub proof fn lemma_push_pairwise_bounded(s: Seq<MemoryOp>, d: MemoryOp, max_rc: u64)
    requires
        no_oversized_gaps(s, max_rc),
        s.len() > 0 ==> pair_bounded(s.last(), d, max_rc),
    ensures
        no_oversized_gaps(s.push(d), max_rc),
{
    let s2 = s.push(d);
    assert forall|k: int| 0 <= k < s2.len() - 1 implies pair_bounded(#[trigger] s2[k], s2[k + 1], max_rc) by {
        if k < s.len() - 1 {
            assert(pair_bounded(s[k], s[k + 1], max_rc));
        } else {
            assert(s2[k] == s.last() && s2[k + 1] == d);
        }
    }
}

/// The synthetic read prepended when the first sorted operation does not
/// start at virtual offset zero.
pub open spec fn front_dummy_spec() -> MemoryOp {
    MemoryOp {
        filter: false,
        timestamp: 1,
        address: MemoryAddress { context: 0, segment: 0, virt: 0 },
        kind: MemoryOpKind::Read,
        value: [0u32, 0, 0, 0, 0, 0, 0, 0],
    }
}

/// Inserts synthetic reads into the sorted operation list until no adjacent
/// gap exceeds the returned bound `max_rc`, the largest value the
/// range-check lookup of the final trace will be able to certify.  If the
/// first operation's virtual offset is nonzero, a zero-address read is
/// prepended first, so that the offset baseline itself is range-checkable.
/// Returns `max_rc`, one less than the smallest power of two at or above
/// the list length counted after that prepend.
///
/// The list stays sorted, the real operations are exactly preserved, every
/// inserted operation is an inactive read, well-formedness of the log is
/// kept, and a list that already satisfies the bound (and starts at offset
/// zero) is returned unchanged.
#[verifier::rlimit(100)]
pub fn fill_gaps(memory_ops: &mut Vec<MemoryOp>) -> (max_rc: u64)
    requires
        old(memory_ops)@.len() >= 1,
        old(memory_ops)@.len() <= 0x1000_0000,
        sorted_ops(old(memory_ops)@),
        crate::ops::ops_bounded(old(memory_ops)@),
    ensures
        sorted_ops(final(memory_ops)@),
        final(memory_ops)@.len() >= old(memory_ops)@.len(),
        final(memory_ops)@[0].address.virt == 0,
        no_oversized_gaps(final(memory_ops)@, max_rc),
        crate::pow2::is_power_of_two((max_rc + 1) as u64),
        max_rc + 1 >= old(memory_ops)@.len(),
        max_rc < 0x2000_0000,
        forall|m: u64|
            crate::pow2::is_power_of_two(m) && m >= final(memory_ops)@.len() ==> max_rc < m,
        active_ops(final(memory_ops)@) == active_ops(old(memory_ops)@),
        crate::ops::well_formed_log(old(memory_ops)@) ==> crate::ops::well_formed_log(
            final(memory_ops)@,
        ),
        ties_identical(old(memory_ops)@) ==> ties_identical(final(memory_ops)@),
        inactive_are_reads(old(memory_ops)@) ==> inactive_are_reads(final(memory_ops)@),
        filled_ops_bounded(final(memory_ops)@),
        (old(memory_ops)@[0].address.virt == 0 && no_oversized_gaps(old(memory_ops)@, max_rc))
            ==> final(memory_ops)@ == old(memory_ops)@,
        old(memory_ops)@[0].address.virt == 0 ==> max_rc + 1 == crate::pow2::pow2_ceil(
            old(memory_ops)@.len() as u64,
        ),
{
    let ghost orig = memory_ops@;
    let ghost hyp = crate::ops::well_formed_log(orig);
    let ghost hyp_t = ties_identical(orig);
    let ghost hyp_i = inactive_are_reads(orig);
    proof {
        reveal(crate::ops::well_formed_log);
    }
    let n = memory_ops.len();
    let mut out: Vec<MemoryOp> = Vec::new();
    let mut prepended: bool = false;
    proof {
        assert(Seq::<MemoryOp>::empty() + orig.skip(0) =~= orig);
        assert(active_ops(out@ + orig.skip(0)) == active_ops(orig));
    }
    if memory_ops[0].address.virt != 0 {
        let d0 = MemoryOp::new_dummy_read(
            MemoryAddress { context: 0, segment: 0, virt: 0 },
            1,
            crate::ops::zero_value(),
        );
        proof {
            assert(orig.skip(0) =~= orig);
            assert(orig.skip(0)[0] == orig[0]);
            assert(key_lt(d0, orig[0]));
            assert(addr_lt(d0.address, orig[0].address));
            lemma_append_fresh_dummy(out@, orig.skip(0), d0);
            lemma_push_contains(out@, d0);
        }
        out.push(d0);
        prepended = true;
        proof {
            assert(d0 == front_dummy_spec());
            assert(out@ =~= seq![front_dummy_spec()]);
        }
    }
    let base_len: usize = if prepended {
        n + 1
    } else {
        n
    };
    let np = crate::pow2::next_power_of_two_ge(base_len as u64);
    let max_rc: u64 = np - 1;
    proof {
        reveal(crate::pow2::is_power_of_two);
        assert(np >= 1);
        assert(np < 2 * base_len as u64 || base_len == 0);
        assert(max_rc < 0x2000_0000);
    }
    proof {
        if orig[0].address.virt == 0 {
            assert(!prepended);
            assert(np == crate::pow2::pow2_ceil(orig.len() as u64));
        }
    }
    let ghost hyp_idem = orig[0].address.virt == 0 && no_oversized_gaps(orig, max_rc);
    let mut i: usize = 0;
    while i < n
        invariant
            memory_ops@ == orig,
            n == orig.len(),
            1 <= n <= 0x1000_0000,
            0 <= i <= n,
            sorted_ops(orig),
            crate::ops::ops_bounded(orig),
            hyp == crate::ops::well_formed_log(orig),
            hyp_t == ties_identical(orig),
            hyp_i == inactive_are_reads(orig),
            hyp_idem == (orig[0].address.virt == 0 && no_oversized_gaps(orig, max_rc)),
            max_rc < 0x2000_0000,
            max_rc + 1 == np,
            crate::pow2::is_power_of_two(np),
            np >= base_len as u64,
            base_len == n + if prepended {
                1int
            } else {
                0int
            },
            prepended ==> orig[0].address.virt != 0,
            !prepended ==> orig[0].address.virt == 0,
            out@.len() >= i + if prepended {
                1int
            } else {
                0int
            },
            i > 0 ==> out@.len() > 0 && out@.last() == orig[i - 1],
            i == 0 && prepended ==> out@ == seq![front_dummy_spec()],
            i == 0 && !prepended ==> out@ == Seq::<MemoryOp>::empty(),
            out@.len() > 0 ==> out@[0].address.virt == 0,
            sorted_ops(out@ + orig.skip(i as int)),
            no_oversized_gaps(out@, max_rc),
            active_ops(out@ + orig.skip(i as int)) == active_ops(orig),
            hyp ==> ties_identical(out@ + orig.skip(i as int)) && read_consistent(
                out@ + orig.skip(i as int),
            ) && zero_init_ok(out@ + orig.skip(i as int)) && inactive_are_reads(
                out@ + orig.skip(i as int),
            ),
            hyp_t ==> ties_identical(out@ + orig.skip(i as int)),
            hyp_i ==> inactive_are_reads(out@ + orig.skip(i as int)),
            filled_ops_bounded(out@),
            hyp_idem ==> out@ == orig.take(i as int) && !prepended,
        decreases n - i,
    {
        let nxt = *(&memory_ops[i]);
        proof {
            assert(nxt == orig[i as int]);
            assert(orig.skip(i as int)[0] == orig[i as int]);
            assert(orig.contains(orig[i as int]));
            assert(crate::ops::op_bounded(nxt));
        }
        if out.len() > 0 {
            let cur = *(&out[out.len() - 1]);
            proof {
                assert(max_rc >= 1) by {
                    if i == 0 {
                        assert(prepended);
                    }
                    assert(base_len >= 2);
                    assert(np >= base_len as u64);
                }
                assert(cur == out@.last());
                assert(cur.timestamp <= MAX_TIMESTAMP) by {
                    if i > 0 {
                        assert(cur == orig[i - 1]);
                        assert(orig.contains(orig[i - 1]));
                    }
                }
                // cur precedes nxt in key order
                assert(key_le(cur, nxt)) by {
                    let c = out@ + orig.skip(i as int);
                    let p = out@.len() as int;
                    assert(c[p - 1] == cur);
                    assert(c[p] == nxt);
                }
            }
            if cur.address.context != nxt.address.context || cur.address.segment
                != nxt.address.segment {
                if nxt.address.virt > max_rc {
                    // collect the offsets of the descending chain, then
                    // append them in ascending key order
                    let mut tmp: Vec<u64> = Vec::new();
                    let mut w: u64 = nxt.address.virt;
                    proof {
                        assert(0int * max_rc == 0) by (nonlinear_arith);
                    }
                    while w > max_rc
                        invariant
                            max_rc >= 1,
                            1 <= w <= nxt.address.virt,
                            w == nxt.address.virt - tmp@.len() * max_rc,
                            forall|j: int|
                                0 <= j < tmp@.len() ==> #[trigger] tmp@[j] == nxt.address.virt - (
                                j + 1) * max_rc,
                        decreases w,
                    {
                        proof {
                            assert((tmp@.len() + 1) * max_rc == tmp@.len() * max_rc + max_rc)
                                by (nonlinear_arith);
                        }
                        w = w - max_rc;
                        tmp.push(w);
                    }
                    let mut k = tmp.len();
                    proof {
                        assert(0int * max_rc == 0) by (nonlinear_arith);
                        assert(k >= 1);
                        assert(tmp@[k - 1] == w && w <= max_rc && w >= 1);
                    }
                    while k > 0
                        invariant
                            0 <= k <= tmp@.len(),
                            tmp@.len() >= 1,
                            max_rc >= 1,
                            n == orig.len(),
                            0 <= i < n,
                            nxt == orig[i as int],
                            sorted_ops(orig),
                            crate::ops::ops_bounded(orig),
                            hyp == crate::ops::well_formed_log(orig),
                            hyp_t == ties_identical(orig),
                            hyp_i == inactive_are_reads(orig),
                            hyp_idem == (orig[0].address.virt == 0 && no_oversized_gaps(
                                orig,
                                max_rc,
                            )),
                            crate::ops::op_bounded(nxt),
                            cur.timestamp <= MAX_TIMESTAMP,
                            cur.address.context != nxt.address.context || cur.address.segment
                                != nxt.address.segment,
                            nxt.address.virt > max_rc,
                            key_le(cur, nxt),
                            forall|j: int|
                                0 <= j < tmp@.len() ==> #[trigger] tmp@[j] == nxt.address.virt - (
                                j + 1) * max_rc,
                            tmp@[tmp@.len() - 1] <= max_rc,
                            tmp@[tmp@.len() - 1] >= 1,
                            out@.len() > 0,
                            k == tmp@.len() ==> out@.last() == cur,
                            k < tmp@.len() ==> out@.last() == (MemoryOp {
                                filter: false,
                                timestamp: (cur.timestamp + 1) as u64,
                                address: MemoryAddress {
                                    context: nxt.address.context,
                                    segment: nxt.address.segment,
                                    virt: tmp@[k as int],
                                },
                                kind: MemoryOpKind::Read,
                                value: [0u32, 0, 0, 0, 0, 0, 0, 0],
                            }),
                            out@[0].address.virt == 0,
                            out@.len() >= i + if prepended {
                                1int
                            } else {
                                0int
                            },
                            sorted_ops(out@ + orig.skip(i as int)),
                            no_oversized_gaps(out@, max_rc),
                            active_ops(out@ + orig.skip(i as int)) == active_ops(orig),
                            hyp ==> ties_identical(out@ + orig.skip(i as int)) && read_consistent(
                                out@ + orig.skip(i as int),
                            ) && zero_init_ok(out@ + orig.skip(i as int)) && inactive_are_reads(
                                out@ + orig.skip(i as int),
                            ),
                            hyp_t ==> ties_identical(out@ + orig.skip(i as int)),
                            hyp_i ==> inactive_are_reads(out@ + orig.skip(i as int)),
                            filled_ops_bounded(out@),
                            hyp_idem ==> false,
                        decreases k,
                    {
                        proof {
                            if hyp_idem {
                                assert(false);
                            }
                        }
                        k = k - 1;
                        let d = MemoryOp::new_dummy_read(
                            MemoryAddress {
                                context: nxt.address.context,
                                segment: nxt.address.segment,
                                virt: tmp[k],
                            },
                            cur.timestamp + 1,
                            crate::ops::zero_value(),
                        );
                        proof {
                            let rest = orig.skip(i as int);
                            assert(rest[0] == nxt);
                            assert((k + 2) * max_rc == (k + 1) * max_rc + max_rc)
                                by (nonlinear_arith);
                            assert((k + 1) * max_rc >= max_rc) by (nonlinear_arith)
                                requires
                                    k >= 0,
                                    max_rc >= 1,
                            ;
                            assert(tmp@[k as int] == nxt.address.virt - (k + 1) * max_rc);
                            assert(d.address.virt < nxt.address.virt);
                            assert(key_lt(out@.last(), d)) by {
                                if k + 1 == tmp@.len() {
                                    assert(out@.last() == cur);
                                } else {
                                    assert(tmp@[k + 1] == nxt.address.virt - (k + 2) * max_rc);
                                    assert(out@.last().address.virt == tmp@[k + 1]);
                                    assert(tmp@[k + 1] < tmp@[k as int]);
                                }
                            }
                            assert(addr_lt(out@.last().address, d.address)) by {
                                if k + 1 == tmp@.len() {
                                    assert(out@.last() == cur);
                                } else {
                                    assert(tmp@[k + 1] == nxt.address.virt - (k + 2) * max_rc);
                                    assert(out@.last().address.virt == tmp@[k + 1]);
                                }
                            }
                            assert(key_lt(d, nxt));
                            assert(addr_lt(d.address, nxt.address));
                            lemma_append_fresh_dummy(out@, rest, d);
                            lemma_push_contains(out@, d);
                            assert(pair_bounded(out@.last(), d, max_rc)) by {
                                if k + 1 == tmp@.len() {
                                    assert(out@.last() == cur);
                                    assert(d.address.virt == tmp@[tmp@.len() - 1]);
                                } else {
                                    assert(tmp@[k + 1] == nxt.address.virt - (k + 2) * max_rc);
                                    assert(out@.last().address.virt == tmp@[k + 1]);
                                }
                            }
                            lemma_push_pairwise_bounded(out@, d, max_rc);
                            assert(filled_op_bounded(d));
                        }
                        out.push(d);
                    }
                    proof {
                        assert(out@.last().address.virt == tmp@[0]);
                        assert(tmp@[0] == nxt.address.virt - (0 + 1) * max_rc);
                        assert((0 + 1) * max_rc == max_rc) by (nonlinear_arith);
                        assert(pair_bounded(out@.last(), nxt, max_rc));
                    }
                } else {
                    proof {
                        assert(out@.last() == cur);
                        assert(pair_bounded(out@.last(), nxt, max_rc));
                    }
                }
            } else if cur.address.virt != nxt.address.virt {
                proof {
                    assert(cur.address.virt < nxt.address.virt);
                }
                while nxt.address.virt - out[out.len() - 1].address.virt - 1 > max_rc
                    invariant
                        max_rc >= 1,
                        n == orig.len(),
                        0 <= i < n,
                        nxt == orig[i as int],
                        sorted_ops(orig),
                        crate::ops::ops_bounded(orig),
                        hyp == crate::ops::well_formed_log(orig),
                        hyp_t == ties_identical(orig),
                        hyp_i == inactive_are_reads(orig),
                        hyp_idem == (orig[0].address.virt == 0 && no_oversized_gaps(orig, max_rc)),
                        crate::ops::op_bounded(nxt),
                        cur.timestamp <= MAX_TIMESTAMP,
                        out@.len() > 0,
                        out@.last().address.context == nxt.address.context,
                        out@.last().address.segment == nxt.address.segment,
                        cur.address.virt <= out@.last().address.virt,
                        out@.last().address.virt < nxt.address.virt,
                        out@.last().timestamp <= cur.timestamp + (out@.last().address.virt
                            - cur.address.virt),
                        out@[0].address.virt == 0,
                        out@.len() >= i + if prepended {
                            1int
                        } else {
                            0int
                        },
                        sorted_ops(out@ + orig.skip(i as int)),
                        no_oversized_gaps(out@, max_rc),
                        active_ops(out@ + orig.skip(i as int)) == active_ops(orig),
                        hyp ==> ties_identical(out@ + orig.skip(i as int)) && read_consistent(
                            out@ + orig.skip(i as int),
                        ) && zero_init_ok(out@ + orig.skip(i as int)) && inactive_are_reads(
                            out@ + orig.skip(i as int),
                        ),
                        hyp_t ==> ties_identical(out@ + orig.skip(i as int)),
                        hyp_i ==> inactive_are_reads(out@ + orig.skip(i as int)),
                        filled_ops_bounded(out@),
                        hyp_idem ==> out@ == orig.take(i as int) && out@.last() == orig[i - 1]
                            && i > 0,
                    decreases nxt.address.virt - out@.last().address.virt,
                {
                    let last = *(&out[out.len() - 1]);
                    proof {
                        if hyp_idem {
                            assert(pair_bounded(orig[i - 1], orig[i as int], max_rc));
                            assert(false);
                        }
                    }
                    let d = MemoryOp::new_dummy_read(
                        MemoryAddress {
                            context: last.address.context,
                            segment: last.address.segment,
                            virt: last.address.virt + max_rc + 1,
                        },
                        last.timestamp + 1,
                        crate::ops::zero_value(),
                    );
                    proof {
                        let rest = orig.skip(i as int);
                        assert(rest[0] == nxt);
                        assert(key_lt(last, d));
                        assert(addr_lt(last.address, d.address));
                        assert(key_lt(d, nxt));
                        assert(addr_lt(d.address, nxt.address));
                        lemma_append_fresh_dummy(out@, rest, d);
                        lemma_push_contains(out@, d);
                        assert(pair_bounded(last, d, max_rc));
                        lemma_push_pairwise_bounded(out@, d, max_rc);
                        assert(filled_op_bounded(d));
                    }
                    out.push(d);
                }
                proof {
                    assert(pair_bounded(out@.last(), nxt, max_rc));
                }
            } else {
                proof {
                    assert(cur.timestamp <= nxt.timestamp);
                }
                while nxt.timestamp - out[out.len() - 1].timestamp > max_rc
                    invariant
                        max_rc >= 1,
                        n == orig.len(),
                        0 <= i < n,
                        nxt == orig[i as int],
                        sorted_ops(orig),
                        crate::ops::ops_bounded(orig),
                        hyp == crate::ops::well_formed_log(orig),
                        hyp_t == ties_identical(orig),
                        hyp_i == inactive_are_reads(orig),
                        hyp_idem == (orig[0].address.virt == 0 && no_oversized_gaps(orig, max_rc)),
                        crate::ops::op_bounded(nxt),
                        out@.len() > 0,
                        out@.last().address == nxt.address,
                        out@.last().timestamp <= nxt.timestamp,
                        out@.last().timestamp <= MAX_TIMESTAMP,
                        out@[0].address.virt == 0,
                        out@.len() >= i + if prepended {
                            1int
                        } else {
                            0int
                        },
                        sorted_ops(out@ + orig.skip(i as int)),
                        no_oversized_gaps(out@, max_rc),
                        active_ops(out@ + orig.skip(i as int)) == active_ops(orig),
                        hyp ==> ties_identical(out@ + orig.skip(i as int)) && read_consistent(
                            out@ + orig.skip(i as int),
                        ) && zero_init_ok(out@ + orig.skip(i as int)) && inactive_are_reads(
                            out@ + orig.skip(i as int),
                        ),
                        hyp_t ==> ties_identical(out@ + orig.skip(i as int)),
                        hyp_i ==> inactive_are_reads(out@ + orig.skip(i as int)),
                        filled_ops_bounded(out@),
                        hyp_idem ==> out@ == orig.take(i as int) && out@.last() == orig[i - 1]
                            && i > 0,
                    decreases nxt.timestamp - out@.last().timestamp,
                {
                    let last = *(&out[out.len() - 1]);
                    proof {
                        if hyp_idem {
                            assert(pair_bounded(orig[i - 1], orig[i as int], max_rc));
                            assert(false);
                        }
                    }
                    let d = MemoryOp::new_dummy_read(
                        last.address,
                        last.timestamp + max_rc,
                        last.value,
                    );
                    proof {
                        let rest = orig.skip(i as int);
                        assert(rest[0] == nxt);
                        assert(key_lt(last, d));
                        assert(key_lt(d, nxt));
                        lemma_append_carry_dummy(out@, rest, d);
                        lemma_push_contains(out@, d);
                        assert(pair_bounded(last, d, max_rc));
                        lemma_push_pairwise_bounded(out@, d, max_rc);
                        assert(filled_op_bounded(d));
                    }
                    out.push(d);
                }
                proof {
                    assert(pair_bounded(out@.last(), nxt, max_rc));
                }
            }
        }
        proof {
            // appending the real operation leaves the combined log unchanged
            let rest = orig.skip(i as int);
            assert(rest[0] == nxt);
            assert(out@.push(nxt) + orig.skip(i + 1) =~= out@ + rest);
            lemma_push_pairwise_bounded(out@, nxt, max_rc);
            lemma_push_contains(out@, nxt);
            assert(crate::ops::op_bounded(nxt));
            if hyp_idem {
                assert(out@ == orig.take(i as int));
                assert(out@.push(nxt) =~= orig.take(i + 1));
            }
        }
        out.push(nxt);
        i = i + 1;
    }
    proof {
        assert(out@ + orig.skip(n as int) =~= out@);
        assert(out@.last() == orig[n - 1]);
        if hyp_idem {
            assert(out@ == orig.take(n as int));
            assert(orig.take(n as int) =~= orig);
        }
        assert forall|m: u64|
            crate::pow2::is_power_of_two(m) && m >= out@.len() implies max_rc < m by {
            assert(out@.len() >= base_len);
        }
    }
    *memory_ops = out;
    max_rc
}

/// The padding operation derived from the last sorted operation: the next
/// virtual offset and timestamp, an inactive zero-valued read.
pub open spec fn padding_op_spec(last: MemoryOp) -> MemoryOp {
    MemoryOp {
        filter: false,
        timestamp: (last.timestamp + 1) as u64,
        address: MemoryAddress {
            context: last.address.context,
            segment: last.address.segment,
            virt: (last.address.virt + 1) as u64,
        },
        kind: MemoryOpKind::Read,
        value: [0u32, 0u32, 0u32, 0u32, 0u32, 0u32, 0u32, 0u32],
    }
}

/// Extends the sorted operation list with copies of one synthetic read
/// until its length is the next power of two strictly above the current
/// count, so that at least one padding row always exists.  Returns the
/// padded length.
pub fn pad_memory_ops(memory_ops: &mut Vec<MemoryOp>) -> (padded_len: usize)
    requires
        old(memory_ops)@.len() >= 1,
        old(memory_ops)@.len() <= 0x1000_0000,
        sorted_ops(old(memory_ops)@),
        filled_ops_bounded(old(memory_ops)@),
    ensures
        final(memory_ops)@.len() == padded_len,
        crate::pow2::is_power_of_two(padded_len as u64),
        padded_len > old(memory_ops)@.len(),
        padded_len <= 0x2000_0000,
        forall|m: u64|
            crate::pow2::is_power_of_two(m) && m > old(memory_ops)@.len() ==> padded_len as u64
                <= m,
        final(memory_ops)@.take(old(memory_ops)@.len() as int) == old(memory_ops)@,
        forall|k: int|
            old(memory_ops)@.len() <= k < padded_len ==> final(memory_ops)@[k] == padding_op_spec(
                old(memory_ops)@.last(),
            ),
        sorted_ops(final(memory_ops)@),
        forall|mrc: u64|
            no_oversized_gaps(old(memory_ops)@, mrc) ==> no_oversized_gaps(
                final(memory_ops)@,
                mrc,
            ),
        active_ops(final(memory_ops)@) == active_ops(old(memory_ops)@),
        crate::ops::well_formed_log(old(memory_ops)@) ==> crate::ops::well_formed_log(
            final(memory_ops)@,
        ),
        ties_identical(old(memory_ops)@) ==> ties_identical(final(memory_ops)@),
        inactive_are_reads(old(memory_ops)@) ==> inactive_are_reads(final(memory_ops)@),
        trace_ops_bounded(final(memory_ops)@),
        padded_len as u64 == crate::pow2::pow2_ceil((old(memory_ops)@.len() + 1) as u64),
{
    let ghost orig = memory_ops@;
    let ghost hyp = crate::ops::well_formed_log(orig);
    let ghost hyp_t = ties_identical(orig);
    let ghost hyp_i = inactive_are_reads(orig);
    proof {
        reveal(crate::ops::well_formed_log);
    }
    let n = memory_ops.len();
    let last_op = *(&memory_ops[n - 1]);
    proof {
        assert(orig.contains(orig[n - 1]));
        assert(filled_op_bounded(last_op));
    }
    let padding_op = MemoryOp {
        filter: false,
        kind: MemoryOpKind::Read,
        address: MemoryAddress {
            context: last_op.address.context,
            segment: last_op.address.segment,
            virt: last_op.address.virt + 1,
        },
        timestamp: last_op.timestamp + 1,
        value: crate::ops::zero_value(),
    };
    proof {
        assert(padding_op == padding_op_spec(orig.last()));
        assert(trace_op_bounded(padding_op));
    }
    let target_u64 = crate::pow2::next_power_of_two_ge((n + 1) as u64);
    let target = target_u64 as usize;
    proof {
        assert(target > n);
        assert(target <= 0x2000_0000) by {
            reveal(crate::pow2::is_power_of_two);
            assert(target_u64 < 2 * ((n + 1) as u64));
        }
        assert(orig.take(n as int) =~= orig);
        assert forall|x: MemoryOp| #[trigger] orig.contains(x) implies trace_op_bounded(x) by {
            assert(filled_op_bounded(x));
        }
    }
    while memory_ops.len() < target
        invariant
            n == orig.len(),
            1 <= n <= 0x1000_0000,
            n < target <= 0x2000_0000,
            hyp == crate::ops::well_formed_log(orig),
            hyp_t == ties_identical(orig),
            hyp_i == inactive_are_reads(orig),
            sorted_ops(orig),
            filled_ops_bounded(orig),
            padding_op == padding_op_spec(orig.last()),
            trace_op_bounded(padding_op),
            n <= memory_ops@.len() <= target,
            memory_ops@.take(n as int) == orig,
            forall|k: int| n <= k < memory_ops@.len() ==> memory_ops@[k] == padding_op,
            memory_ops@.len() > n ==> memory_ops@.last() == padding_op,
            sorted_ops(memory_ops@),
            forall|mrc: u64| no_oversized_gaps(orig, mrc) ==> no_oversized_gaps(memory_ops@, mrc),
            active_ops(memory_ops@) == active_ops(orig),
            hyp ==> ties_identical(memory_ops@) && read_consistent(memory_ops@) && zero_init_ok(
                memory_ops@,
            ) && inactive_are_reads(memory_ops@),
            hyp_t ==> ties_identical(memory_ops@),
            hyp_i ==> inactive_are_reads(memory_ops@),
            trace_ops_bounded(memory_ops@),
        decreases target - memory_ops@.len(),
    {
        proof {
            let s = memory_ops@;
            let rest = Seq::<MemoryOp>::empty();
            assert(s + rest =~= s);
            if s.len() == n {
                // the first padding row sits at a fresh address
                assert(s.last() == orig.last()) by {
                    assert(s.take(n as int) == orig);
                    assert(s.take(n as int)[n - 1] == s[n - 1]);
                }
                assert(orig.contains(orig[n - 1]));
                assert(filled_op_bounded(orig.last()));
                assert(key_lt(s.last(), padding_op));
                assert(addr_lt(s.last().address, padding_op.address));
                lemma_append_fresh_dummy(s, rest, padding_op);
                assert(s.push(padding_op) + rest =~= s.push(padding_op));
                assert(s + rest =~= s);
            } else {
                // further padding rows repeat the previous one exactly
                assert(s.last() == padding_op);
                lemma_append_duplicate(s, padding_op);
            }
            lemma_push_contains(s, padding_op);
            assert forall|mrc: u64|
                no_oversized_gaps(orig, mrc) implies no_oversized_gaps(
                s.push(padding_op),
                mrc,
            ) by {
                assert(no_oversized_gaps(s, mrc));
                assert(pair_bounded(s.last(), padding_op, mrc)) by {
                    if s.len() == n {
                        assert(s.last() == orig.last()) by {
                            assert(s.take(n as int) == orig);
                            assert(s.take(n as int)[n - 1] == s[n - 1]);
                        }
                    }
                }
                lemma_push_pairwise_bounded(s, padding_op, mrc);
            }
            assert(s.push(padding_op).take(n as int) =~= s.take(n as int));
        }
        memory_ops.push(padding_op);
    }
    proof {
        assert(memory_ops@.len() == target);
    }
    memory_ops.len()
}

} // verus!
