use memory_stark::field::{fe_add, fe_inv_or_zero, fe_mul, fe_pow, fe_sub, FIELD_ORDER};
use memory_stark::pow2::{next_power_of_two_ge, power_of_two_check};

#[test]
fn field_addition_wraps() {
    assert_eq!(fe_add(1, 2), 3);
    assert_eq!(fe_add(FIELD_ORDER - 1, 1), 0);
    assert_eq!(fe_add(FIELD_ORDER - 1, 5), 4);
}

#[test]
fn field_subtraction_wraps() {
    assert_eq!(fe_sub(5, 3), 2);
    assert_eq!(fe_sub(0, 1), FIELD_ORDER - 1);
    assert_eq!(fe_sub(3, 5), FIELD_ORDER - 2);
}

#[test]
fn field_multiplication_reduces() {
    assert_eq!(fe_mul(3, 7), 21);
    assert_eq!(fe_mul(FIELD_ORDER - 1, FIELD_ORDER - 1), 1);
    assert_eq!(fe_mul(FIELD_ORDER - 1, 2), FIELD_ORDER - 2);
}

#[test]
fn field_powers() {
    assert_eq!(fe_pow(2, 10), 1024);
    assert_eq!(fe_pow(5, 0), 1);
    assert_eq!(fe_pow(0, 3), 0);
}

#[test]
fn timestamp_inverse_is_inverse() {
    let inv = fe_inv_or_zero(5);
    assert_eq!(fe_mul(5, inv), 1);
    let inv2 = fe_inv_or_zero(123456789);
    assert_eq!(fe_mul(123456789, inv2), 1);
    assert_eq!(fe_inv_or_zero(0), 0);
}

#[test]
fn next_power_of_two_bounds() {
    assert_eq!(next_power_of_two_ge(0), 1);
    assert_eq!(next_power_of_two_ge(1), 1);
    assert_eq!(next_power_of_two_ge(2), 2);
    assert_eq!(next_power_of_two_ge(3), 4);
    assert_eq!(next_power_of_two_ge(5), 8);
    assert_eq!(next_power_of_two_ge(1024), 1024);
    assert_eq!(next_power_of_two_ge(1025), 2048);
}

#[test]
fn power_of_two_membership() {
    assert!(power_of_two_check(1));
    assert!(power_of_two_check(2));
    assert!(power_of_two_check(64));
    assert!(!power_of_two_check(0));
    assert!(!power_of_two_check(3));
    assert!(!power_of_two_check(96));
}
