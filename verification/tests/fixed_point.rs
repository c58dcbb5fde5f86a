use fairvalue::fixed::{mul_div, HUNDRED, ONE};

#[test]
fn one_and_hundred_have_six_fractional_digits() {
    assert_eq!(ONE, 1_000_000);
    assert_eq!(HUNDRED, 100 * ONE);
}

#[test]
fn mul_div_multiplies_then_divides() {
    assert_eq!(mul_div(6, 7, 3), Some(14));
    assert_eq!(mul_div(1_500_000, 1_000_000, ONE), Some(1_500_000));
}

#[test]
fn mul_div_rounds_towards_zero() {
    assert_eq!(mul_div(7, 1, 2), Some(3));
    assert_eq!(mul_div(-7, 1, 2), Some(-3));
    assert_eq!(mul_div(7, 1, -2), Some(-3));
    assert_eq!(mul_div(-7, 1, -2), Some(3));
    assert_eq!(mul_div(1, 1, 2), Some(0));
    assert_eq!(mul_div(-1, 1, 2), Some(0));
}

#[test]
fn mul_div_by_zero_is_none() {
    assert_eq!(mul_div(1, 1, 0), None);
    assert_eq!(mul_div(0, 0, 0), None);
}

#[test]
fn mul_div_survives_a_product_beyond_64_bits() {
    assert_eq!(mul_div(i64::MAX, i64::MAX, i64::MAX), Some(i64::MAX));
    assert_eq!(mul_div(i64::MIN, i64::MIN, i64::MIN), Some(i64::MIN));
    assert_eq!(mul_div(4_000_000_000_000, 5_000_000_000_000, 10_000_000_000_000), Some(2_000_000_000_000));
}

#[test]
fn mul_div_result_beyond_64_bits_is_none() {
    assert_eq!(mul_div(i64::MAX, 2, 1), None);
    assert_eq!(mul_div(i64::MIN, -1, 1), None);
    assert_eq!(mul_div(i64::MIN, 1, -1), None);
    assert_eq!(mul_div(i64::MIN, 1, 1), Some(i64::MIN));
}
