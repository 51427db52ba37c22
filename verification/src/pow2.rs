//! Powers of two: the trace length and the range-check bound are tied to
//! the smallest power of two at or above a given count.

use vstd::prelude::*;

verus! {

/// Whether `x` is a power of two.
#[verifier::opaque]
pub open spec fn is_power_of_two(x: u64) -> bool
    decreases x,
{
    if x == 0 {
        false
    } else if x == 1 {
        true
    } else {
        x % 2 == 0 && is_power_of_two(x / 2)
    }
}

/// The smallest power of two at or above `n`, as a specification-level
/// function.
pub open spec fn pow2_ceil(n: u64) -> u64
    decreases n,
{
    if n <= 1 {
        1u64
    } else {
        (2 * pow2_ceil(((n + 1) / 2) as u64)) as u64
    }
}

/// `pow2_ceil` is what its name says: a power of two, at least `n`,
/// minimal with that, and below twice `n`.
pub proof fn lemma_pow2_ceil(n: u64)
    requires
        n <= 0x4000_0000_0000_0000,
    ensures
        is_power_of_two(pow2_ceil(n)),
        pow2_ceil(n) >= n,
        n >= 1 ==> pow2_ceil(n) < 2 * n,
        forall|m: u64| is_power_of_two(m) && m >= n ==> pow2_ceil(n) <= m,
    decreases n,
{
    reveal(is_power_of_two);
    if n <= 1 {
        assert(is_power_of_two(1u64));
        assert forall|m: u64| is_power_of_two(m) && m >= n implies pow2_ceil(n) <= m by {
            if m == 0 {
                assert(!is_power_of_two(0u64));
            }
        }
    } else {
        let h = ((n + 1) / 2) as u64;
        lemma_pow2_ceil(h);
        let p = pow2_ceil(h);
        assert(p < 2 * h);
        assert(pow2_ceil(n) == (2 * p) as u64);
        assert(2 * p < 4 * h);
        assert(2 * p <= 0x8000_0000_0000_0000);
        assert(is_power_of_two((2 * p) as u64)) by {
            assert((2 * p) as u64 % 2 == 0);
            assert(((2 * p) as u64) / 2 == p);
        }
        assert(2 * p >= 2 * h);
        assert(2 * h >= n);
        assert forall|m: u64| is_power_of_two(m) && m >= n implies pow2_ceil(n) <= m by {
            if m < 2 * p {
                assert(m >= n >= 2);
                assert(m % 2 == 0 && is_power_of_two(m / 2));
                assert(m / 2 >= h) by {
                    assert(2 * (m / 2) == m);
                    assert(m >= n);
                }
                assert(p <= m / 2);
                assert(2 * p <= m);
                assert(false);
            }
        }
    }
}

/// Distinct powers of two are at least a factor of two apart.
pub proof fn lemma_pow2_gap(a: u64, b: u64)
    requires
        is_power_of_two(a),
        is_power_of_two(b),
        a < b,
    ensures
        2 * a <= b,
    decreases b,
{
    reveal(is_power_of_two);
    if b == 1 {
        // impossible: a < 1 contradicts is_power_of_two(a)
        assert(false);
    } else {
        if a == b / 2 {
        } else if a < b / 2 {
            lemma_pow2_gap(a, b / 2);
        } else {
            lemma_pow2_gap(b / 2, a);
        }
    }
}

/// The smallest power of two at or above `n`.
pub fn next_power_of_two_ge(n: u64) -> (r: u64)
    requires
        n <= 0x4000_0000_0000_0000,
    ensures
        is_power_of_two(r),
        r >= n,
        forall|m: u64| is_power_of_two(m) && m >= n ==> r <= m,
        n >= 1 ==> r < 2 * n,
        r == pow2_ceil(n),
{
    proof {
        reveal(is_power_of_two);
    }
    let mut p: u64 = 1;
    while p < n
        invariant
            is_power_of_two(p),
            p == 1 || p / 2 < n,
            n <= 0x4000_0000_0000_0000,
        decreases 2 * n - p,
    {
        proof {
            reveal(is_power_of_two);
            assert(p < 0x8000_0000_0000_0000u64);
            assert(is_power_of_two((2 * p) as u64));
        }
        p = p * 2;
    }
    proof {
        assert forall|m: u64| is_power_of_two(m) && m >= n implies p <= m by {
            if m < p {
                lemma_pow2_gap(m, p);
                assert(2 * m <= p);
                if p > 1 {
                    assert(m <= p / 2);
                    assert(p / 2 < n);
                    assert(false);
                } else {
                    assert(false);
                }
            }
        }
        if n >= 1 && p >= 2 * n {
            assert(p > 1);
            assert(p / 2 >= n);
            assert(false);
        }
        lemma_pow2_ceil(n);
        assert(p == pow2_ceil(n)) by {
            assert(pow2_ceil(n) <= p);
            assert(p <= pow2_ceil(n));
        }
    }
    p
}

/// Runtime test for being a power of two.
pub fn power_of_two_check(x: u64) -> (b: bool)
    ensures
        b == is_power_of_two(x),
{
    let mut v: u64 = x;
    if v == 0 {
        proof {
            reveal(is_power_of_two);
        }
        return false;
    }
    while v > 1
        invariant
            v >= 1,
            is_power_of_two(x) == is_power_of_two(v),
        decreases v,
    {
        if v % 2 != 0 {
            proof {
                reveal(is_power_of_two);
            }
            return false;
        }
        proof {
            reveal(is_power_of_two);
        }
        v = v / 2;
    }
    proof {
        reveal(is_power_of_two);
    }
    true
}

} // verus!
