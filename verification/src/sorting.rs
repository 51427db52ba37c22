//! In-place sort of an operation list by its sorting key.

use vstd::prelude::*;
use crate::ops::{key_le, key_lt, key_less, sorted_ops, MemoryOp};

verus! {

/// Sorts the operations by (context, segment, virtual offset, timestamp),
/// keeping exactly the same operations.
pub fn sort_ops(v: &mut Vec<MemoryOp>)
    ensures
        sorted_ops(final(v)@),
        final(v)@.to_multiset() == old(v)@.to_multiset(),
        final(v)@.len() == old(v)@.len(),
{
    let n = v.len();
    proof {
        vstd::seq_lib::to_multiset_len(v@);
        vstd::seq_lib::to_multiset_len(old(v)@);
    }
    let mut i: usize = 1;
    while i < n
        invariant
            1 <= i,
            n == v@.len(),
            v@.to_multiset() == old(v)@.to_multiset(),
            forall|x: int, y: int| 0 <= x < y < i && y < n ==> key_le(#[trigger] v@[x], #[trigger] v@[y]),
        decreases n - i,
    {
        let mut j: usize = i;
        while j > 0 && key_less(&v[j], &v[j - 1])
            invariant
                0 <= j <= i < n,
                n == v@.len(),
                v@.to_multiset() == old(v)@.to_multiset(),
                forall|x: int, y: int|
                    0 <= x < y <= i && x != j && y != j ==> key_le(#[trigger] v@[x], #[trigger] v@[y]),
                forall|y: int| j < y <= i ==> key_le(#[trigger] v@[j as int], #[trigger] v@[y]),
            decreases j,
        {
            let a = v[j - 1];
            let b = v[j];
            proof {
                broadcast use vstd::multiset::group_multiset_axioms;

                vstd::seq_lib::to_multiset_update(v@, j - 1, b);
                vstd::seq_lib::to_multiset_update(v@.update(j - 1, b), j as int, a);
                vstd::seq_lib::to_multiset_contains(v@, a);
                assert(v@.contains(a));
                assert(v@.update(j - 1, b).update(j as int, a).to_multiset()
                    =~= v@.to_multiset());
            }
            v.set(j - 1, b);
            v.set(j, a);
            j = j - 1;
        }
        proof {
            assert forall|x: int, y: int| 0 <= x < y <= i implies key_le(v@[x], v@[y]) by {
                if x == j as int {
                    if j > 0 {
                        assert(key_le(v@[j as int], v@[y]));
                    }
                } else if y == j as int {
                    // the loop stopped with either j == 0 (impossible here since x < y == j)
                    // or v[j - 1] <= v[j]; x <= j - 1 and transitivity closes the pair
                    assert(key_le(v@[j - 1], v@[j as int]));
                    if x < j - 1 {
                        assert(key_le(v@[x], v@[j - 1]));
                    }
                }
            }
        }
        i = i + 1;
    }
    proof {
        if n == 0 {
            assert(v@.len() == 0);
        }
    }
}

} // verus!
