//! Fixed-point arithmetic for the quantities of the economy.
//!
//! A quantity is an `i64` that counts millionths: `SCALE` stands for one whole
//! (one second, one metal, a rate of one per second, a fraction of 100%).
//! Results that leave the range of `i64` saturate at its ends. Quotients are
//! rounded toward negative infinity, but for the one that says that it rounds
//! up.

use vstd::prelude::*;

verus! {

/// The representation of one whole.
pub const SCALE: i64 = 1_000_000;

/// `x`, held to the range of `i64`.
pub open spec fn saturate(x: int) -> int {
    if x < i64::MIN {
        i64::MIN as int
    } else if x > i64::MAX {
        i64::MAX as int
    } else {
        x
    }
}

/// The saturating sum `a + b`.
pub open spec fn sum(a: int, b: int) -> int {
    saturate(a + b)
}

/// The saturating difference `a - b`.
pub open spec fn difference(a: int, b: int) -> int {
    saturate(a - b)
}

/// The smaller of `a` and `b`.
pub open spec fn least(a: int, b: int) -> int {
    if a <= b {
        a
    } else {
        b
    }
}

/// The greater of `a` and `b`.
pub open spec fn greatest(a: int, b: int) -> int {
    if a >= b {
        a
    } else {
        b
    }
}

/// The exact quotient `n / d`, rounded toward negative infinity (`d != 0`).
pub open spec fn floor_div(n: int, d: int) -> int {
    if d > 0 {
        n / d
    } else {
        (-n) / (-d)
    }
}

/// The saturating value of `a * b / c`: the product is exact, the quotient is
/// rounded toward negative infinity (`c != 0`).
pub open spec fn ratio(a: int, b: int, c: int) -> int {
    saturate(floor_div(a * b, c))
}

/// The fixed-point product of two fixed-point numbers.
pub open spec fn scaled(a: int, b: int) -> int {
    ratio(a, b, SCALE as int)
}

/// The exact quotient `n / d`, rounded toward positive infinity (`d != 0`).
pub open spec fn ceil_div(n: int, d: int) -> int {
    -floor_div(-n, d)
}

/// The fixed-point product of two fixed-point numbers, rounded up to the next
/// millionth, and saturating.
pub open spec fn scaled_up(a: int, b: int) -> int {
    saturate(ceil_div(a * b, SCALE as int))
}

/// Holds a wide intermediate result to the range of `i64`.
pub fn narrow(x: i128) -> (r: i64)
    ensures
        r == saturate(x as int),
{
    if x < i64::MIN as i128 {
        i64::MIN
    } else if x > i64::MAX as i128 {
        i64::MAX
    } else {
        x as i64
    }
}

/// Saturating addition.
pub fn sat_add(a: i64, b: i64) -> (r: i64)
    ensures
        r == sum(a as int, b as int),
{
    narrow(a as i128 + b as i128)
}

/// Saturating subtraction.
pub fn sat_sub(a: i64, b: i64) -> (r: i64)
    ensures
        r == difference(a as int, b as int),
{
    narrow(a as i128 - b as i128)
}

/// The smaller of two numbers.
pub fn smaller(a: i64, b: i64) -> (r: i64)
    ensures
        r == least(a as int, b as int),
{
    if a <= b {
        a
    } else {
        b
    }
}

/// The greater of two numbers.
pub fn larger(a: i64, b: i64) -> (r: i64)
    ensures
        r == greatest(a as int, b as int),
{
    if a >= b {
        a
    } else {
        b
    }
}

/// `a * b / c` with an exact product, a quotient rounded toward negative
/// infinity, and a saturating result.
pub fn mul_div(a: i64, b: i64, c: i64) -> (r: i64)
    requires
        c != 0,
    ensures
        r == ratio(a as int, b as int, c as int),
{
    assert(-0x4000_0000_0000_0000_0000_0000_0000_0000 <= a * b
        <= 0x4000_0000_0000_0000_0000_0000_0000_0000) by (nonlinear_arith)
        requires
            -0x8000_0000_0000_0000 <= a <= 0x7fff_ffff_ffff_ffff,
            -0x8000_0000_0000_0000 <= b <= 0x7fff_ffff_ffff_ffff,
    ;
    let product: i128 = (a as i128) * (b as i128);
    let (n, d): (i128, i128) = if c < 0 {
        (-product, -(c as i128))
    } else {
        (product, c as i128)
    };
    assert(n / d == floor_div(a * b, c as int));
    assert(i128::MIN <= n / d <= i128::MAX) by (nonlinear_arith)
        requires
            d >= 1,
            -0x4000_0000_0000_0000_0000_0000_0000_0000 <= n
                <= 0x4000_0000_0000_0000_0000_0000_0000_0000,
    ;
    match n.checked_div_euclid(d) {
        Some(q) => narrow(q),
        None => vstd::pervasive::unreached(),
    }
}

/// Calls `approx::AbsDiff::default().eq` on two `i64`: whether the absolute
/// value of `a - b` is within the default tolerance, which for `i64` is 0.
/// The crate computes the difference and its absolute value in `i64`, so the
/// call is limited to arguments for which both fit.
#[verifier::external_body]
fn abs_diff_eq(a: i64, b: i64) -> (r: bool)
    requires
        i64::MIN < a - b <= i64::MAX,
    ensures
        r == (a == b),
{
    approx::AbsDiff::default().eq(&a, &b)
}

/// Whether two numbers are equal within the tolerance of the representation.
/// In fixed point nothing is lost to rounding between two equal values, so the
/// tolerance is 0 and the numbers must be the same.
pub fn approx_eq(a: i64, b: i64) -> (r: bool)
    ensures
        r == (a == b),
{
    let gap: i128 = a as i128 - b as i128;
    if (i64::MIN as i128) < gap && gap <= i64::MAX as i128 {
        abs_diff_eq(a, b)
    } else {
        false
    }
}

/// The fixed-point product of two fixed-point numbers.
pub fn mul_fixed(a: i64, b: i64) -> (r: i64)
    ensures
        r == scaled(a as int, b as int),
{
    mul_div(a, b, SCALE)
}

/// The fixed-point product of two fixed-point numbers, rounded up to the next
/// millionth.
pub fn mul_fixed_up(a: i64, b: i64) -> (r: i64)
    ensures
        r == scaled_up(a as int, b as int),
{
    assert(-0x4000_0000_0000_0000_0000_0000_0000_0000 <= a * b
        <= 0x4000_0000_0000_0000_0000_0000_0000_0000) by (nonlinear_arith)
        requires
            -0x8000_0000_0000_0000 <= a <= 0x7fff_ffff_ffff_ffff,
            -0x8000_0000_0000_0000 <= b <= 0x7fff_ffff_ffff_ffff,
    ;
    let negated: i128 = -((a as i128) * (b as i128));
    match negated.checked_div_euclid(1_000_000) {
        Some(q) => narrow(-q),
        None => vstd::pervasive::unreached(),
    }
}

} // verus!
