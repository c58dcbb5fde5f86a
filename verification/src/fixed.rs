//! Signed fixed-point arithmetic with six fractional digits.
//!
//! A decimal number `d` is held as the integer `d * 1_000_000`. Quotients
//! are rounded towards zero. All operations are checked: a result that
//! cannot be represented, or a division by zero, gives `None`.

use vstd::prelude::*;
use vstd::arithmetic::div_mod::lemma_div_denominator;

verus! {

/// The fixed-point representation of the number one.
pub const ONE: i64 = 1_000_000;

/// The fixed-point representation of one hundred, the divisor that turns a
/// percentage into a fraction.
pub const HUNDRED: i64 = 100_000_000;

/// Whether a mathematical integer can be held in an `i64`.
pub open spec fn fits(x: int) -> bool {
    i64::MIN <= x <= i64::MAX
}

/// Whether the magnitude of a mathematical integer can be held in an
/// `i128`, as a positive and as a negative number.
pub open spec fn fits_wide(x: int) -> bool {
    -i128::MAX <= x <= i128::MAX
}

/// The quotient of `a` by `b`, rounded towards zero. Only meaningful for `b != 0`.
pub open spec fn trunc_div(a: int, b: int) -> int {
    if b == 0 {
        0
    } else if a >= 0 && b > 0 {
        a / b
    } else if a < 0 && b < 0 {
        (-a) / (-b)
    } else if a < 0 {
        -((-a) / b)
    } else {
        -(a / (-b))
    }
}

/// The magnitude of an integer.
pub open spec fn abs(a: int) -> int {
    if a >= 0 {
        a
    } else {
        -a
    }
}

/// `a * b / c` rounded towards zero, where it exists and fits in `i64`.
pub open spec fn mul_div_spec(a: int, b: int, c: int) -> Option<int> {
    if c != 0 && fits(trunc_div(a * b, c)) {
        Some(trunc_div(a * b, c))
    } else {
        None
    }
}

/// The sum of two integers, where it fits in `i64`.
pub open spec fn add_spec(a: int, b: int) -> Option<int> {
    if fits(a + b) {
        Some(a + b)
    } else {
        None
    }
}

/// The difference of two integers, where it fits in `i64`.
pub open spec fn sub_spec(a: int, b: int) -> Option<int> {
    if fits(a - b) {
        Some(a - b)
    } else {
        None
    }
}

/// Whether an executable optional value holds the given mathematical one.
pub open spec fn same(r: Option<i64>, m: Option<int>) -> bool {
    match (r, m) {
        (Some(x), Some(y)) => x == y,
        (None, None) => true,
        _ => false,
    }
}

/// Computes `a * b / c`, rounded towards zero, through a 128-bit product.
pub fn mul_div(a: i64, b: i64, c: i64) -> (r: Option<i64>)
    ensures
        same(r, mul_div_spec(a as int, b as int, c as int)),
{
    mul_div_wide(a as i128, b, c)
}

/// Computes `a * b / c`, rounded towards zero, for a first factor as wide
/// as the difference of two `i64`.
pub(crate) fn mul_div_wide(a: i128, b: i64, c: i64) -> (r: Option<i64>)
    requires
        -0xffff_ffff_ffff_ffff <= a <= 0xffff_ffff_ffff_ffff,
    ensures
        same(r, mul_div_spec(a as int, b as int, c as int)),
{
    if c == 0 {
        return None;
    }
    let wide_b: i128 = b as i128;
    assert(-0x8000_0000_0000_0000_0000_0000_0000_0000 <= a * wide_b
        <= 0x7fff_ffff_ffff_ffff_ffff_ffff_ffff_ffff) by (nonlinear_arith)
        requires
            -0xffff_ffff_ffff_ffff <= a <= 0xffff_ffff_ffff_ffff,
            -0x8000_0000_0000_0000 <= wide_b <= 0x7fff_ffff_ffff_ffff,
    ;
    let product: i128 = a * wide_b;
    let wide_c: i128 = c as i128;
    match product.checked_div(wide_c) {
        None => {
            proof {
                lemma_trunc_div_bound(product as int, wide_c as int);
            }
            None
        },
        Some(q) => {
            if q < i64::MIN as i128 || q > i64::MAX as i128 {
                None
            } else {
                Some(q as i64)
            }
        },
    }
}

/// A quotient is no larger in magnitude than its dividend.
pub proof fn lemma_trunc_div_bound(a: int, b: int)
    requires
        b != 0,
    ensures
        abs(trunc_div(a, b)) <= abs(a),
{
    let x = abs(a);
    let y = abs(b);
    assert(0 <= x / y <= x) by (nonlinear_arith)
        requires
            x >= 0,
            y > 0,
    ;
}

/// Whether an executable optional wide value holds the given mathematical one.
pub open spec fn same_wide(r: Option<i128>, m: Option<int>) -> bool {
    match (r, m) {
        (Some(x), Some(y)) => x == y,
        (None, None) => true,
        _ => false,
    }
}

/// Dividing by one number and then by another, rounding towards zero each
/// time, is dividing by their product and rounding once.
pub proof fn lemma_trunc_div_twice(n: int, a: int, b: int)
    requires
        a != 0,
        b != 0,
    ensures
        a * b != 0,
        trunc_div(trunc_div(n, a), b) == trunc_div(n, a * b),
{
    let x = abs(n);
    let c = abs(a);
    let d = abs(b);
    lemma_div_denominator(x, c, d);
    assert(0 <= x / c) by (nonlinear_arith)
        requires
            0 <= x,
            0 < c,
    ;
    assert(0 <= (x / c) / d) by (nonlinear_arith)
        requires
            0 <= x / c,
            0 < d,
    ;
    assert((a > 0 && b > 0 || a < 0 && b < 0) ==> a * b == c * d) by (nonlinear_arith)
        requires
            c == (if a >= 0 { a } else { -a }),
            d == (if b >= 0 { b } else { -b }),
    ;
    assert((a > 0 && b < 0 || a < 0 && b > 0) ==> a * b == -(c * d)) by (nonlinear_arith)
        requires
            c == (if a >= 0 { a } else { -a }),
            d == (if b >= 0 { b } else { -b }),
    ;
    assert(c * d > 0) by (nonlinear_arith)
        requires
            c > 0,
            d > 0,
    ;
    let q = x / c;
    assert(trunc_div(n, a) == q || trunc_div(n, a) == -q);
    if q == 0 {
        assert(x / (c * d) == 0);
    }
}

} // verus!
