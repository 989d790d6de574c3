//! Rounding of exact ratios to whole numbers.

use vstd::prelude::*;

verus! {

/// The ratio of two integers, as a real number.
pub open spec fn ratio(numerator: int, denominator: int) -> real {
    numerator as real / denominator as real
}

/// The whole number next to `x` in the direction of zero.
pub open spec fn truncate(x: real) -> int {
    if x >= 0real {
        x.floor()
    } else {
        -((-x).floor())
    }
}

/// Rounding towards zero moves a number by less than one, never away from zero.
pub proof fn lemma_truncate_bounds(x: real)
    ensures
        x >= 0real ==> (truncate(x) as real) <= x && x < ((truncate(x) + 1) as real),
        x <= 0real ==> ((truncate(x) - 1) as real) < x && x <= (truncate(x) as real),
{
}

/// The floor of a ratio with a positive denominator is the integer quotient.
pub proof fn lemma_floor_ratio(n: int, d: int)
    requires
        d > 0,
    ensures
        ratio(n, d).floor() == n / d,
{
    let q = n / d;
    let r = n % d;
    assert(n == d * q + r && 0 <= r < d) by (nonlinear_arith)
        requires
            d > 0,
            q == n / d,
            r == n % d,
    ;
    assert((q as real) <= ratio(n, d) && ratio(n, d) < ((q + 1) as real)) by (nonlinear_arith)
        requires
            d > 0,
            n == d * q + r,
            0 <= r < d,
    ;
}

/// Rounding a ratio towards zero divides the magnitudes.
pub proof fn lemma_truncate_ratio(n: int, d: int)
    requires
        d > 0,
    ensures
        n >= 0 ==> truncate(ratio(n, d)) == n / d,
        n <= 0 ==> truncate(ratio(n, d)) == -((-n) / d),
{
    lemma_floor_ratio(n, d);
    lemma_floor_ratio(-n, d);
    assert(ratio(-n, d) == -ratio(n, d)) by (nonlinear_arith)
        requires
            d > 0,
    ;
    assert(n >= 0 ==> ratio(n, d) >= 0real) by (nonlinear_arith)
        requires
            d > 0,
    ;
    assert(n <= 0 ==> ratio(n, d) <= 0real) by (nonlinear_arith)
        requires
            d > 0,
    ;
    if n == 0 {
        assert(ratio(n, d) == 0real) by (nonlinear_arith)
            requires
                d > 0,
                n == 0,
        ;
    }
}

/// Two ratios with positive denominators compare as their cross products do.
pub proof fn lemma_ratio_order(a: int, b: int, c: int, d: int)
    requires
        b > 0,
        d > 0,
    ensures
        ratio(a, b) <= ratio(c, d) <==> a * d <= c * b,
        ratio(a, b) < ratio(c, d) <==> a * d < c * b,
        ratio(a, b) == ratio(c, d) <==> a * d == c * b,
{
    assert(ratio(a, b) <= ratio(c, d) <==> a * d <= c * b) by (nonlinear_arith)
        requires
            b > 0,
            d > 0,
    ;
    assert(ratio(c, d) <= ratio(a, b) <==> c * b <= a * d) by (nonlinear_arith)
        requires
            b > 0,
            d > 0,
    ;
}

/// The difference of two ratios, over their common denominator.
pub proof fn lemma_ratio_difference(a: int, b: int, c: int, d: int)
    requires
        b > 0,
        d > 0,
    ensures
        b * d > 0,
        ratio(a, b) - ratio(c, d) == ratio(a * d - c * b, b * d),
{
    assert(b * d > 0) by (nonlinear_arith)
        requires
            b > 0,
            d > 0,
    ;
    assert(ratio(a, b) - ratio(c, d) == ratio(a * d - c * b, b * d)) by (nonlinear_arith)
        requires
            b > 0,
            d > 0,
    ;
}

/// A ratio has the sign of its numerator where the denominator is positive.
pub proof fn lemma_ratio_sign(a: int, b: int)
    requires
        b > 0,
    ensures
        ratio(a, b) >= 0real <==> a >= 0,
        ratio(a, b) > 0real <==> a > 0,
        ratio(a, b) == 0real <==> a == 0,
        ratio(a, 1) == a as real,
{
    assert(ratio(a, b) >= 0real <==> a >= 0) by (nonlinear_arith)
        requires
            b > 0,
    ;
    assert(ratio(a, b) <= 0real <==> a <= 0) by (nonlinear_arith)
        requires
            b > 0,
    ;
    assert(ratio(a, 1) == a as real) by (nonlinear_arith);
}

/// The product of two ratios is the ratio of the products.
pub proof fn lemma_ratio_product(a: int, b: int, c: int, d: int)
    requires
        b > 0,
        d > 0,
    ensures
        b * d > 0,
        ratio(a, b) * ratio(c, d) == ratio(a * c, b * d),
{
    assert(b * d > 0) by (nonlinear_arith)
        requires
            b > 0,
            d > 0,
    ;
    let x = a as real;
    let y = b as real;
    let z = c as real;
    let w = d as real;
    assert((a * c) as real == x * z && (b * d) as real == y * w) by (nonlinear_arith)
        requires
            x == a as real,
            y == b as real,
            z == c as real,
            w == d as real,
    ;
    assert((x / y) * (z / w) == (x * z) / (y * w)) by (nonlinear_arith)
        requires
            y > 0real,
            w > 0real,
    ;
}

} // verus!
