//! Fixed-point scalar arithmetic.
//!
//! Every quantity of the renderer (coordinates, colors, matrix cells,
//! ray parameters) is a signed fixed-point number: an `i128` counting
//! units of `1 / SCALE`.  Multiplication and division round the exact
//! quotient to the nearest representable value (halves toward positive
//! infinity); addition, subtraction and negation are exact.
//!
//! Approximate equality tolerates `EPSILON` units, the real value 1e-5.
//! The same tolerance decides invertibility of a matrix and the offset
//! that lifts shadow and refraction rays off a surface, so one epsilon
//! governs the whole pipeline.

use vstd::prelude::*;

verus! {

/// Number of fixed-point units per real unit: resolution 1e-9.
pub const SCALE: i128 = 1_000_000_000;

/// Half of `SCALE`, the rounding offset of `fx_mul`.
pub const HALF_SCALE: i128 = 500_000_000;

/// Tolerance of approximate equality, in units: the real value 1e-5.
pub const EPSILON: i128 = 10_000;

/// Largest operand magnitude accepted by multiplication and division:
/// the product of two operands this size still fits in an `i128`.
pub const FX_LIM: i128 = 13_000_000_000_000_000_000;

/// Division of `n` by `d > 0`, rounded to the nearest integer,
/// halves toward positive infinity.
pub open spec fn rdiv(n: int, d: int) -> int {
    (n + d / 2) / d
}

/// The fixed-point product: the exact product rescaled and rounded.
pub open spec fn fx_mul_s(a: int, b: int) -> int {
    rdiv(a * b, SCALE as int)
}

/// The fixed-point quotient: `a / b` rescaled and rounded.
pub open spec fn fx_div_s(a: int, b: int) -> int {
    if b > 0 {
        rdiv(a * (SCALE as int), b)
    } else {
        rdiv(-(a * (SCALE as int)), -b)
    }
}

/// Integer square root: the greatest `r` with `r * r <= n`.
pub open spec fn isqrt_s(n: nat) -> nat
    decreases n,
{
    if n == 0 {
        0
    } else {
        let r = isqrt_s((n - 1) as nat);
        if (r + 1) * (r + 1) <= n {
            r + 1
        } else {
            r
        }
    }
}

/// The fixed-point square root of a nonnegative value.
pub open spec fn fx_sqrt_s(a: int) -> int {
    isqrt_s((a * (SCALE as int)) as nat) as int
}

/// Two fixed-point values are approximately equal when they differ by
/// at most `EPSILON` units.
pub open spec fn approx_s(a: int, b: int) -> bool {
    -(EPSILON as int) <= a - b <= EPSILON as int
}

/// `isqrt_s` is characterized by the two bounding squares.
pub proof fn lemma_isqrt(n: nat)
    ensures
        isqrt_s(n) * isqrt_s(n) <= n,
        n < (isqrt_s(n) + 1) * (isqrt_s(n) + 1),
    decreases n,
{
    if n == 0 {
        let s = isqrt_s(n);
        assert(s == 0);
        assert((s + 1) * (s + 1) == 1) by (nonlinear_arith)
            requires
                s == 0,
        {}
    } else {
        lemma_isqrt((n - 1) as nat);
        let r = isqrt_s((n - 1) as nat);
        assert(r * r <= n - 1);
        assert(n - 1 < (r + 1) * (r + 1));
        if (r + 1) * (r + 1) <= n {
            assert(isqrt_s(n) == r + 1);
            assert(n < ((r + 1) + 1) * ((r + 1) + 1)) by (nonlinear_arith)
                requires
                    n <= (r + 1) * (r + 1),
                    0 <= r,
            {}
        } else {
            assert(isqrt_s(n) == r);
        }
    }
}

/// A square above `n` bounds the integer square root of `n`.
pub proof fn lemma_isqrt_le(n: nat, m: nat)
    requires
        n <= m * m,
    ensures
        isqrt_s(n) <= m,
{
    lemma_isqrt(n);
    let s = isqrt_s(n);
    assert(s <= m) by (nonlinear_arith)
        requires
            s * s <= n,
            n <= m * m,
            0 <= s,
            0 <= m,
    {}
}

/// Any `r` bracketed by the two squares is the integer square root.
pub proof fn lemma_isqrt_unique(n: nat, r: nat)
    requires
        r * r <= n,
        n < (r + 1) * (r + 1),
    ensures
        r == isqrt_s(n),
{
    lemma_isqrt(n);
    let s = isqrt_s(n);
    assert(r == s) by (nonlinear_arith)
        requires
            r * r <= n,
            n < (r + 1) * (r + 1),
            s * s <= n,
            n < (s + 1) * (s + 1),
    {}
}

/// Dividing a value of bounded magnitude by a positive divisor keeps
/// it within the same magnitude.
pub proof fn lemma_div_range(x: int, d: int, m: int)
    requires
        d >= 1,
        -m <= x <= m,
        0 <= m,
    ensures
        -m <= x / d <= m,
{
    vstd::arithmetic::div_mod::lemma_fundamental_div_mod(x, d);
    vstd::arithmetic::div_mod::lemma_mod_bound(x, d);
    let q = x / d;
    let rr = x % d;
    assert(-m <= q <= m) by (nonlinear_arith)
        requires
            x == d * q + rr,
            0 <= rr < d,
            1 <= d,
            -m <= x <= m,
            0 <= m,
    {}
}

/// Negating a dividend at worst lowers the quotient one past the
/// negated quotient.
pub proof fn lemma_div_neg(m: int, d: int)
    requires
        d > 0,
        0 <= m,
    ensures
        -(m / d) - 1 <= (-m) / d <= -(m / d),
{
    vstd::arithmetic::div_mod::lemma_fundamental_div_mod(m, d);
    vstd::arithmetic::div_mod::lemma_mod_bound(m, d);
    let q = m / d;
    let rr = m % d;
    if rr == 0 {
        assert(-m == (-q) * d + 0) by (nonlinear_arith)
            requires
                m == d * q + rr,
                rr == 0,
        {}
        vstd::arithmetic::div_mod::lemma_fundamental_div_mod_converse(-m, d, -q, 0);
    } else {
        assert(-m == (-q - 1) * d + (d - rr)) by (nonlinear_arith)
            requires
                m == d * q + rr,
        {}
        vstd::arithmetic::div_mod::lemma_fundamental_div_mod_converse(-m, d, -q - 1, d - rr);
    }
}

/// A bound on the operand bounds the rounded quotient.
pub proof fn lemma_rdiv_bound(n: int, d: int, m: int)
    requires
        d > 0,
        -m <= n <= m,
        0 <= m,
    ensures
        -(m / d) - 1 <= rdiv(n, d) <= m / d + 1,
{
    let h = d / 2;
    vstd::arithmetic::div_mod::lemma_remainder_lower(d, 2);
    vstd::arithmetic::div_mod::lemma_remainder_upper(d, 2);
    assert(0 <= h < d);
    vstd::arithmetic::div_mod::lemma_div_is_ordered(n + h, m + d, d);
    vstd::arithmetic::div_mod::lemma_div_plus_one(m, d);
    assert(rdiv(n, d) <= m / d + 1);
    vstd::arithmetic::div_mod::lemma_div_is_ordered(-m, n + h, d);
    lemma_div_neg(m, d);
}

/// The magnitudes of the factors bound the fixed-point product.
pub proof fn lemma_fx_mul_s_bound(a: int, b: int, m: int, n: int)
    requires
        -m <= a <= m,
        -n <= b <= n,
        0 <= m,
        0 <= n,
    ensures
        -((m * n) / (SCALE as int)) - 1 <= fx_mul_s(a, b) <= (m * n) / (SCALE as int) + 1,
{
    assert(-(m * n) <= a * b <= m * n) by (nonlinear_arith)
        requires
            -m <= a <= m,
            -n <= b <= n,
            0 <= m,
            0 <= n,
    {}
    assert(m * n >= 0) by (nonlinear_arith)
        requires
            0 <= m,
            0 <= n,
    {}
    lemma_rdiv_bound(a * b, SCALE as int, m * n);
}

/// Division rounded to the nearest integer, halves toward positive
/// infinity.
pub fn rdiv_exec(n: i128, d: i128) -> (r: i128)
    requires
        0 < d <= 100_000_000_000_000_000_000_000i128,
        -169_100_000_000_000_000_000_000_000_000_000_000_000i128 <= n
            <= 169_100_000_000_000_000_000_000_000_000_000_000_000i128,
    ensures
        r == rdiv(n as int, d as int),
{
    let ho = d.checked_div_euclid(2);
    proof {
        vstd::arithmetic::div_mod::lemma_div_pos_is_pos(d as int, 2);
        vstd::arithmetic::div_mod::lemma_div_nonincreasing(d as int, 2);
    }
    let h = ho.unwrap();
    let q = n + h;
    let qo = q.checked_div_euclid(d);
    proof {
        lemma_div_range(q as int, d as int,
            170_000_000_000_000_000_000_000_000_000_000_000_000int);
    }
    qo.unwrap()
}

/// The fixed-point product of two bounded values.
pub fn fx_mul(a: i128, b: i128) -> (r: i128)
    requires
        -FX_LIM <= a <= FX_LIM,
        -FX_LIM <= b <= FX_LIM,
    ensures
        r == fx_mul_s(a as int, b as int),
{
    proof {
        assert(-169_000_000_000_000_000_000_000_000_000_000_000_000int <= a * b
            <= 169_000_000_000_000_000_000_000_000_000_000_000_000int) by (nonlinear_arith)
            requires
                -13_000_000_000_000_000_000int <= a <= 13_000_000_000_000_000_000int,
                -13_000_000_000_000_000_000int <= b <= 13_000_000_000_000_000_000int,
        {}
    }
    let p = a * b;
    rdiv_exec(p, SCALE)
}

/// The fixed-point product of a large value and a small factor.
pub fn fx_mul_wide(a: i128, b: i128) -> (r: i128)
    requires
        -1_000_000_000_000_000_000_000_000_000i128 <= a
            <= 1_000_000_000_000_000_000_000_000_000i128,
        -100_000_000_000i128 <= b <= 100_000_000_000i128,
    ensures
        r == fx_mul_s(a as int, b as int),
{
    proof {
        assert(-100_000_000_000_000_000_000_000_000_000_000_000_000int <= a * b
            <= 100_000_000_000_000_000_000_000_000_000_000_000_000int) by (nonlinear_arith)
            requires
                -1_000_000_000_000_000_000_000_000_000int <= a
                    <= 1_000_000_000_000_000_000_000_000_000int,
                -100_000_000_000int <= b <= 100_000_000_000int,
        {}
    }
    let p = a * b;
    rdiv_exec(p, SCALE)
}

/// The product of two fixed-point values in the unit interval stays
/// in the unit interval.
pub proof fn lemma_fx_unit_closed(a: int, b: int)
    requires
        0 <= a <= SCALE as int,
        0 <= b <= SCALE as int,
    ensures
        0 <= fx_mul_s(a, b) <= SCALE as int,
{
    let s = SCALE as int;
    assert(0 <= a * b <= s * s) by (nonlinear_arith)
        requires
            0 <= a <= s,
            0 <= b <= s,
    {}
    vstd::arithmetic::div_mod::lemma_div_pos_is_pos(a * b + s / 2, s);
    vstd::arithmetic::div_mod::lemma_div_is_ordered(a * b + s / 2, s * s + s / 2, s);
    vstd::arithmetic::div_mod::lemma_fundamental_div_mod_converse(s * s + s / 2, s, s, s / 2);
}

/// A bound on the dividend and an inclusive floor on the divisor
/// magnitude bound the fixed-point quotient.
pub proof fn lemma_fx_div_s_bound_ge(a: int, b: int, m: int, e: int)
    requires
        -m <= a <= m,
        0 <= m,
        1 <= e,
        b >= e || b <= -e,
    ensures
        -((m * (SCALE as int)) / e) - 1 <= fx_div_s(a, b)
            <= (m * (SCALE as int)) / e + 1,
{
    let s = SCALE as int;
    assert(0 <= m * s && -(m * s) <= a * s <= m * s) by (nonlinear_arith)
        requires
            -m <= a <= m,
            0 <= m,
            s == 1_000_000_000int,
    {}
    if b > 0 {
        lemma_rdiv_bound(a * s, b, m * s);
        vstd::arithmetic::div_mod::lemma_div_is_ordered_by_denominator(m * s, e, b);
    } else {
        lemma_rdiv_bound(-(a * s), -b, m * s);
        vstd::arithmetic::div_mod::lemma_div_is_ordered_by_denominator(m * s, e, -b);
    }
}

/// Largest divisor magnitude accepted by `fx_div`.
pub const FX_DIV_LIM: i128 = 100_000_000_000_000_000_000_000;

/// The fixed-point quotient of two bounded values; the divisor must
/// not be zero.
pub fn fx_div(a: i128, b: i128) -> (r: i128)
    requires
        -FX_LIM <= a <= FX_LIM,
        -FX_DIV_LIM <= b <= FX_DIV_LIM,
        b != 0,
    ensures
        r == fx_div_s(a as int, b as int),
{
    let n = a * SCALE;
    if b > 0 {
        rdiv_exec(n, b)
    } else {
        rdiv_exec(-n, -b)
    }
}

/// A bound on the dividend and a floor on the divisor bound the
/// fixed-point quotient.
pub proof fn lemma_fx_div_s_bound(a: int, b: int, m: int, e: int)
    requires
        -m <= a <= m,
        0 <= m,
        0 < e,
        b > e || b < -e,
    ensures
        -((m * (SCALE as int)) / (e + 1)) - 1 <= fx_div_s(a, b)
            <= (m * (SCALE as int)) / (e + 1) + 1,
{
    let s = SCALE as int;
    assert(0 <= m * s && -(m * s) <= a * s <= m * s) by (nonlinear_arith)
        requires
            -m <= a <= m,
            0 <= m,
            s == 1_000_000_000int,
    {}
    if b > 0 {
        lemma_rdiv_bound(a * s, b, m * s);
        vstd::arithmetic::div_mod::lemma_div_is_ordered_by_denominator(m * s, e + 1, b);
    } else {
        lemma_rdiv_bound(-(a * s), -b, m * s);
        vstd::arithmetic::div_mod::lemma_div_is_ordered_by_denominator(m * s, e + 1, -b);
    }
}

/// Largest value accepted by the square root: rescaling it still fits
/// in an `i128`.
pub const SQRT_LIM: i128 = 140_000_000_000_000_000_000_000_000_000;

/// The fixed-point square root of a bounded nonnegative value.
pub fn fx_sqrt(a: i128) -> (r: i128)
    requires
        0 <= a <= SQRT_LIM,
    ensures
        r == fx_sqrt_s(a as int),
        0 <= r <= 12_000_000_000_000_000_000i128,
{
    let n = a * SCALE;
    let mut lo: i128 = 0;
    let mut hi: i128 = 12_000_000_000_000_000_001;
    proof {
        assert((12_000_000_000_000_000_001int) * (12_000_000_000_000_000_001int) > n)
            by (nonlinear_arith)
            requires
                n <= 140_000_000_000_000_000_000_000_000_000int * 1_000_000_000int,
        {}
    }
    while lo + 1 < hi
        invariant
            0 <= lo < hi <= 12_000_000_000_000_000_001i128,
            lo * lo <= n,
            hi * hi > n,
            n == a * SCALE,
            0 <= a <= SQRT_LIM,
        decreases hi - lo,
    {
        let mid = lo + rdiv_trunc_small(hi - lo);
        proof {
            vstd::arithmetic::div_mod::lemma_div_pos_is_pos((hi - lo) as int, 2);
            vstd::arithmetic::div_mod::lemma_div_is_strictly_smaller((hi - lo) as int, 2);
            assert(lo < mid < hi);
            assert(mid * mid <= 12_000_000_000_000_000_001int * 12_000_000_000_000_000_001int)
                by (nonlinear_arith)
                requires
                    0 <= mid <= 12_000_000_000_000_000_001int,
            {}
        }
        if mid * mid <= n {
            lo = mid;
        } else {
            hi = mid;
        }
    }
    proof {
        assert(hi == lo + 1);
        lemma_isqrt_unique((a * SCALE) as nat, lo as nat);
    }
    lo
}

/// Halves a small positive value, rounding down.
fn rdiv_trunc_small(n: i128) -> (r: i128)
    requires
        0 < n <= 20_000_000_000_000_000_000i128,
    ensures
        r == n as int / 2,
{
    let ro = n.checked_div_euclid(2);
    proof {
        vstd::arithmetic::div_mod::lemma_div_pos_is_pos(n as int, 2);
        vstd::arithmetic::div_mod::lemma_div_nonincreasing(n as int, 2);
    }
    ro.unwrap()
}

/// Whether two fixed-point values differ by at most `EPSILON` units.
pub fn approx_eq(a: i128, b: i128) -> (r: bool)
    requires
        -1_000_000_000_000_000_000_000_000_000_000i128 <= a
            <= 1_000_000_000_000_000_000_000_000_000_000i128,
        -1_000_000_000_000_000_000_000_000_000_000i128 <= b
            <= 1_000_000_000_000_000_000_000_000_000_000i128,
    ensures
        r == approx_s(a as int, b as int),
{
    let d = a - b;
    -EPSILON <= d && d <= EPSILON
}

} // verus!
