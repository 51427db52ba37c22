//! Arithmetic in the 64-bit prime field the trace columns live in.
//!
//! Every column value is a canonical residue below `FIELD_ORDER`
//! (the Goldilocks prime, 2^64 - 2^32 + 1).  The operations are defined
//! directly as integer arithmetic modulo `FIELD_ORDER` and are proved to
//! return exactly that.

use vstd::prelude::*;
use vstd::arithmetic::div_mod::{lemma_mod_multiples_vanish, lemma_mul_mod_noop_general};
use vstd::arithmetic::mul::lemma_mul_is_associative;

verus! {

/// Order of the field: the prime 2^64 - 2^32 + 1.
pub const FIELD_ORDER: u64 = 0xFFFF_FFFF_0000_0001;

/// A canonical field element: an integer below the field order.
pub open spec fn is_fe(x: u64) -> bool {
    x < FIELD_ORDER
}

/// Sum in the field, on canonical representatives.
pub open spec fn fe_add_spec(a: u64, b: u64) -> u64 {
    (((a as int) + (b as int)) % (FIELD_ORDER as int)) as u64
}

/// Difference in the field, on canonical representatives.
pub open spec fn fe_sub_spec(a: u64, b: u64) -> u64 {
    ((((a as int) - (b as int)) % (FIELD_ORDER as int) + (FIELD_ORDER as int))
        % (FIELD_ORDER as int)) as u64
}

/// Product in the field, on canonical representatives.
pub open spec fn fe_mul_spec(a: u64, b: u64) -> u64 {
    (((a as int) * (b as int)) % (FIELD_ORDER as int)) as u64
}

/// Repeated product in the field: `b` raised to the power `e`.
pub open spec fn fe_pow_spec(b: u64, e: nat) -> u64
    decreases e,
{
    if e == 0 {
        1u64
    } else {
        fe_mul_spec(fe_pow_spec(b, (e - 1) as nat), b)
    }
}

/// The multiplicative inverse of a nonzero field element, obtained by
/// exponentiation to `FIELD_ORDER - 2`; zero for the zero element, which has
/// no inverse.
#[verifier::opaque]
pub open spec fn fe_inv_or_zero_spec(t: u64) -> u64 {
    if t == 0 {
        0u64
    } else {
        fe_pow_spec(t, (FIELD_ORDER - 2) as nat)
    }
}

pub fn fe_add(a: u64, b: u64) -> (r: u64)
    requires
        is_fe(a),
        is_fe(b),
    ensures
        r == fe_add_spec(a, b),
        is_fe(r),
{
    let s: u128 = (a as u128) + (b as u128);
    (s % (FIELD_ORDER as u128)) as u64
}

pub fn fe_sub(a: u64, b: u64) -> (r: u64)
    requires
        is_fe(a),
        is_fe(b),
    ensures
        r == fe_sub_spec(a, b),
        is_fe(r),
{
    let s: u128 = (a as u128) + (FIELD_ORDER as u128) - (b as u128);
    let r = (s % (FIELD_ORDER as u128)) as u64;
    proof {
        lemma_mod_multiples_vanish(1int, (a as int) - (b as int), FIELD_ORDER as int);
        lemma_mod_multiples_vanish(
            1int,
            ((a as int) - (b as int)) % (FIELD_ORDER as int),
            FIELD_ORDER as int,
        );
        vstd::arithmetic::div_mod::lemma_mod_twice((a as int) - (b as int), FIELD_ORDER as int);
    }
    r
}

pub fn fe_mul(a: u64, b: u64) -> (r: u64)
    requires
        is_fe(a),
        is_fe(b),
    ensures
        r == fe_mul_spec(a, b),
        is_fe(r),
{
    proof {
        assert((a as int) * (b as int) <= 0xFFFF_FFFF_FFFF_FFFFint * 0xFFFF_FFFF_FFFF_FFFFint)
            by (nonlinear_arith)
            requires
                0 <= a as int <= 0xFFFF_FFFF_FFFF_FFFFint,
                0 <= b as int <= 0xFFFF_FFFF_FFFF_FFFFint,
        ;
    }
    let p: u128 = (a as u128) * (b as u128);
    (p % (FIELD_ORDER as u128)) as u64
}

/// Every field product is a canonical element.
pub proof fn lemma_fe_mul_in_field(a: u64, b: u64)
    ensures
        is_fe(fe_mul_spec(a, b)),
{
    vstd::arithmetic::div_mod::lemma_mod_bound(
        (a as int) * (b as int),
        FIELD_ORDER as int,
    );
}

/// Every field power is a canonical element.
pub proof fn lemma_fe_pow_in_field(b: u64, e: nat)
    ensures
        is_fe(fe_pow_spec(b, e)),
    decreases e,
{
    if e == 0 {
    } else {
        lemma_fe_mul_in_field(fe_pow_spec(b, (e - 1) as nat), b);
    }
}

/// Products in the field may be computed on residues: reducing a factor
/// first does not change the result.
pub proof fn lemma_fe_mul_noop(x: int, y: int)
    requires
        x >= 0,
        y >= 0,
    ensures
        fe_mul_spec((x % (FIELD_ORDER as int)) as u64, (y % (FIELD_ORDER as int)) as u64)
            == ((x * y) % (FIELD_ORDER as int)) as u64,
{
    lemma_mul_mod_noop_general(x, y, FIELD_ORDER as int);
}

/// The field product is associative.
pub proof fn lemma_fe_mul_assoc(a: u64, b: u64, c: u64)
    ensures
        fe_mul_spec(fe_mul_spec(a, b), c) == fe_mul_spec(a, fe_mul_spec(b, c)),
{
    let m = FIELD_ORDER as int;
    lemma_mul_mod_noop_general((a as int) * (b as int), c as int, m);
    lemma_mul_mod_noop_general(a as int, (b as int) * (c as int), m);
    lemma_mul_is_associative(a as int, b as int, c as int);
    assert(((a as int) * (b as int)) % m == (fe_mul_spec(a, b) as int) % m) by {
        vstd::arithmetic::div_mod::lemma_mod_twice((a as int) * (b as int), m);
    }
    assert(((b as int) * (c as int)) % m == (fe_mul_spec(b, c) as int) % m) by {
        vstd::arithmetic::div_mod::lemma_mod_twice((b as int) * (c as int), m);
    }
}

/// The field product is commutative.
pub proof fn lemma_fe_mul_comm(a: u64, b: u64)
    ensures
        fe_mul_spec(a, b) == fe_mul_spec(b, a),
{
    vstd::arithmetic::mul::lemma_mul_is_commutative(a as int, b as int);
}

/// One is neutral for the field product on canonical elements.
pub proof fn lemma_fe_mul_one(a: u64)
    requires
        is_fe(a),
    ensures
        fe_mul_spec(a, 1u64) == a,
{
    vstd::arithmetic::div_mod::lemma_small_mod(a as nat, FIELD_ORDER as nat);
}

/// Splitting an exponent splits the power into a product.
pub proof fn lemma_fe_pow_add(b: u64, m: nat, n: nat)
    ensures
        fe_pow_spec(b, m + n) == fe_mul_spec(fe_pow_spec(b, m), fe_pow_spec(b, n)),
    decreases n,
{
    if n == 0 {
        lemma_fe_pow_in_field(b, m);
        lemma_fe_mul_one(fe_pow_spec(b, m));
    } else {
        lemma_fe_pow_add(b, m, (n - 1) as nat);
        assert(fe_pow_spec(b, m + n) == fe_mul_spec(fe_pow_spec(b, (m + n - 1) as nat), b));
        lemma_fe_mul_assoc(fe_pow_spec(b, m), fe_pow_spec(b, (n - 1) as nat), b);
    }
}

/// A power of a square is the power of the base at twice the exponent.
pub proof fn lemma_fe_pow_square(b: u64, k: nat)
    ensures
        fe_pow_spec(fe_mul_spec(b, b), k) == fe_pow_spec(b, 2 * k),
    decreases k,
{
    if k == 0 {
    } else {
        lemma_fe_pow_square(b, (k - 1) as nat);
        let s = fe_mul_spec(b, b);
        assert(fe_pow_spec(s, k) == fe_mul_spec(fe_pow_spec(s, (k - 1) as nat), s));
        lemma_fe_pow_add(b, (2 * k - 2) as nat, 1);
        lemma_fe_pow_add(b, (2 * k - 1) as nat, 1);
        lemma_fe_pow_in_field(b, 1);
        lemma_fe_mul_one(fe_pow_spec(b, 1));
        assert(fe_pow_spec(b, 1) == fe_mul_spec(fe_pow_spec(b, 0), b));
        lemma_fe_mul_in_field(1u64, b);
        // pow(b, 2k) == mul(pow(b, 2k-2), mul(b, b))
        lemma_fe_pow_add(b, (2 * k - 2) as nat, 2);
        assert(fe_pow_spec(b, 2) == fe_mul_spec(fe_pow_spec(b, 1), b));
        assert(fe_pow_spec(b, 1) == fe_mul_spec(1u64, b));
        assert(fe_mul_spec(1u64, b) == fe_mul_spec(b, 1u64)) by {
            lemma_fe_mul_comm(1u64, b);
        }
        assert(fe_pow_spec(b, 2) == fe_mul_spec(fe_mul_spec(b, 1u64), b));
        lemma_fe_mul_assoc(b, 1u64, b);
        assert(fe_pow_spec(b, 2) == fe_mul_spec(b, fe_mul_spec(1u64, b)));
        assert(fe_mul_spec(1u64, b) == fe_mul_spec(b, 1u64)) by {
            lemma_fe_mul_comm(1u64, b);
        }
        assert(fe_pow_spec(b, 2) == fe_mul_spec(b, b)) by {
            if is_fe(b) {
                lemma_fe_mul_one(b);
            } else {
                assert(b == FIELD_ORDER || b > FIELD_ORDER);
                lemma_mul_mod_noop_general(b as int, 1int, FIELD_ORDER as int);
                vstd::arithmetic::div_mod::lemma_mod_bound(b as int, FIELD_ORDER as int);
                lemma_fe_mul_noop(b as int, b as int);
                lemma_fe_mul_noop((b as int) % (FIELD_ORDER as int), b as int);
                assert(fe_mul_spec(b, 1u64) == ((b as int) % (FIELD_ORDER as int)) as u64);
                assert(fe_mul_spec(((b as int) % (FIELD_ORDER as int)) as u64, b)
                    == fe_mul_spec(b, b)) by {
                    lemma_mul_mod_noop_general(b as int, b as int, FIELD_ORDER as int);
                    vstd::arithmetic::div_mod::lemma_mod_twice(b as int, FIELD_ORDER as int);
                }
            }
        }
    }
}

/// Modular exponentiation by repeated squaring.
pub fn fe_pow(b: u64, e: u64) -> (r: u64)
    requires
        is_fe(b),
    ensures
        r == fe_pow_spec(b, e as nat),
        is_fe(r),
{
    let mut result: u64 = 1;
    let mut base: u64 = b;
    let mut exp: u64 = e;
    proof {
        lemma_fe_mul_one(1u64);
        assert(fe_mul_spec(result, fe_pow_spec(base, exp as nat)) == fe_pow_spec(b, e as nat))
            by {
            lemma_fe_pow_in_field(base, exp as nat);
            lemma_fe_mul_comm(result, fe_pow_spec(base, exp as nat));
            lemma_fe_mul_one(fe_pow_spec(base, exp as nat));
        }
    }
    while exp > 0
        invariant
            is_fe(result),
            is_fe(base),
            fe_mul_spec(result, fe_pow_spec(base, exp as nat)) == fe_pow_spec(b, e as nat),
        decreases exp,
    {
        if exp % 2 == 1 {
            let new_result = fe_mul(result, base);
            proof {
                let k = (exp / 2) as nat;
                assert(exp as nat == 2 * k + 1);
                lemma_fe_pow_add(base, 1, 2 * k);
                assert(fe_pow_spec(base, 1) == fe_mul_spec(fe_pow_spec(base, 0), base));
                lemma_fe_mul_comm(1u64, base);
                lemma_fe_mul_one(base);
                assert(fe_pow_spec(base, 1) == base);
                // result * pow(base, 2k+1) == (result * base) * pow(base, 2k)
                lemma_fe_mul_assoc(result, base, fe_pow_spec(base, 2 * k));
                assert(fe_mul_spec(base, fe_pow_spec(base, 2 * k))
                    == fe_pow_spec(base, exp as nat));
                lemma_fe_pow_square(base, k);
                assert(fe_mul_spec(new_result, fe_pow_spec(fe_mul_spec(base, base), k))
                    == fe_pow_spec(b, e as nat));
            }
            result = new_result;
        } else {
            proof {
                let k = (exp / 2) as nat;
                assert(exp as nat == 2 * k);
                lemma_fe_pow_square(base, k);
                assert(fe_mul_spec(result, fe_pow_spec(fe_mul_spec(base, base), k))
                    == fe_pow_spec(b, e as nat));
            }
        }
        base = fe_mul(base, base);
        exp = exp / 2;
    }
    proof {
        lemma_fe_mul_one(result);
    }
    result
}

/// The column value standing for the inverse of a timestamp: the inverse of
/// a nonzero timestamp, and zero for timestamp zero.
pub fn fe_inv_or_zero(t: u64) -> (r: u64)
    requires
        is_fe(t),
    ensures
        r == fe_inv_or_zero_spec(t),
        is_fe(r),
{
    proof {
        reveal(fe_inv_or_zero_spec);
    }
    if t == 0 {
        0
    } else {
        fe_pow(t, FIELD_ORDER - 2)
    }
}

/// The inverse-or-zero of any canonical element is canonical.
pub proof fn lemma_fe_inv_in_field(t: u64)
    ensures
        is_fe(fe_inv_or_zero_spec(t)),
{
    reveal(fe_inv_or_zero_spec);
    if t != 0 {
        lemma_fe_pow_in_field(t, (FIELD_ORDER - 2) as nat);
    }
}

} // verus!
