use crate::error::ErrorCode;
use vstd::prelude::*;

verus! {

/// The fixed-point scale: `ONE` stands for 1.0 in every rate, ratio and percentage.
pub const ONE: u64 = 1_000_000_000;

/// `floor(a * m / d)` over the mathematical integers. Only meaningful for `d > 0`.
pub open spec fn mul_div(a: int, m: int, d: int) -> int {
    (a * m) / d
}

/// Whether `floor(a * m / d)` exists and fits in 64 bits.
pub open spec fn mul_div_fits(a: int, m: int, d: int) -> bool {
    d > 0 && mul_div(a, m, d) <= u64::MAX
}

/// Scaled multiply-divide: `floor(a * m / d)`, computed through a 128-bit product so that
/// only the final quotient can be out of range. A quotient that does not fit in 64 bits is
/// an overflow, and so is a divisor of zero, which has no quotient.
pub fn muldiv(a: u64, m: u64, d: u64) -> (r: Result<u64, ErrorCode>)
    ensures
        mul_div_fits(a as int, m as int, d as int) ==> r == Ok::<u64, ErrorCode>(
            mul_div(a as int, m as int, d as int) as u64,
        ),
        !mul_div_fits(a as int, m as int, d as int) ==> r == Err::<u64, ErrorCode>(
            ErrorCode::Overflow,
        ),
{
    if d == 0 {
        return Err(ErrorCode::Overflow);
    }
    assert(a * m <= u64::MAX * u64::MAX) by (nonlinear_arith)
        requires
            a <= u64::MAX,
            m <= u64::MAX,
    ;
    let product: u128 = a as u128 * m as u128;
    let quotient: u128 = product / d as u128;
    if quotient > u64::MAX as u128 {
        return Err(ErrorCode::Overflow);
    }
    Ok(quotient as u64)
}

/// The floor is within one of the exact quotient.
pub proof fn lemma_mul_div_bounds(a: int, m: int, d: int)
    by (nonlinear_arith)
    requires
        d > 0,
    ensures
        mul_div(a, m, d) * d <= a * m < (mul_div(a, m, d) + 1) * d,
{
}

/// The only integer `q` with `q * d <= a * m < (q + 1) * d` is the floor.
pub proof fn lemma_mul_div_unique(a: int, m: int, d: int, q: int)
    by (nonlinear_arith)
    requires
        d > 0,
        q * d <= a * m < (q + 1) * d,
    ensures
        mul_div(a, m, d) == q,
{
}

/// Scaling by a factor of at most one never grows a quantity.
pub proof fn lemma_mul_div_le(a: int, m: int, d: int)
    by (nonlinear_arith)
    requires
        0 <= a,
        0 <= m <= d,
        0 < d,
    ensures
        0 <= mul_div(a, m, d) <= a,
{
}

/// Scaling by exactly one changes nothing.
pub proof fn lemma_mul_div_one(a: int, d: int)
    by (nonlinear_arith)
    requires
        0 < d,
    ensures
        mul_div(a, d, d) == a,
{
}

/// Scaling zero, or by zero, gives zero.
pub proof fn lemma_mul_div_zero(a: int, d: int)
    by (nonlinear_arith)
    requires
        0 < d,
    ensures
        mul_div(a, 0, d) == 0,
        mul_div(0, a, d) == 0,
{
}

/// A larger product gives no smaller a quotient.
pub proof fn lemma_mul_div_increases(a1: int, m1: int, a2: int, m2: int, d: int)
    by (nonlinear_arith)
    requires
        0 < d,
        a1 * m1 <= a2 * m2,
    ensures
        mul_div(a1, m1, d) <= mul_div(a2, m2, d),
{
}

/// A larger divisor gives no larger a quotient.
pub proof fn lemma_mul_div_decreases(a: int, m: int, d1: int, d2: int)
    by (nonlinear_arith)
    requires
        0 <= a * m,
        0 < d1 <= d2,
    ensures
        mul_div(a, m, d2) <= mul_div(a, m, d1),
{
}

/// Of two fractions, the one that is no larger has no larger a floor.
pub proof fn lemma_mul_div_compare(a1: int, m1: int, d1: int, a2: int, m2: int, d2: int)
    requires
        0 < d1,
        0 < d2,
        (a1 * m1) * d2 <= (a2 * m2) * d1,
    ensures
        mul_div(a1, m1, d1) <= mul_div(a2, m2, d2),
{
    let q = mul_div(a1, m1, d1);
    lemma_mul_div_bounds(a1, m1, d1);
    assert(q * d2 <= a2 * m2) by (nonlinear_arith)
        requires
            q * d1 <= a1 * m1,
            (a1 * m1) * d2 <= (a2 * m2) * d1,
            0 < d1,
            0 < d2,
    ;
    assert(q <= (a2 * m2) / d2) by (nonlinear_arith)
        requires
            q * d2 <= a2 * m2,
            0 < d2,
    ;
}

} // verus!
