//! Homogeneous four-component tuples: points (`w` = 1) and vectors
//! (`w` = 0), with the vector algebra of the renderer.
//!
//! The mathematical model of a tuple is `Vec4`, four unbounded
//! fixed-point values; every operation's contract states the exact
//! fixed-point result over that model.

use vstd::prelude::*;
use crate::fixed::EPSILON;
use crate::fixed::SCALE;
use crate::fixed::approx_s;
use crate::fixed::fx_div;
use crate::fixed::fx_div_s;
use crate::fixed::fx_mul;
use crate::fixed::fx_mul_s;
use crate::fixed::fx_sqrt;
use crate::fixed::fx_sqrt_s;
use crate::fixed::isqrt_s;
use crate::fixed::lemma_isqrt;
use crate::fixed::lemma_rdiv_bound;
use crate::fixed::rdiv;
use crate::fixed::rdiv_exec;

verus! {

/// Component bound accepted by the tuple operations, about 2e9 in
/// real terms: squares and sums of products of two such components
/// still fit in an `i128`.
pub const TUP_LIM: i128 = 2_000_000_000_000_000_000;

/// Bound on the components of a normalized tuple: slightly above the
/// real value 2.
pub const NORM_LIM: i128 = 2_000_100_000;

/// The mathematical value of a tuple: four unbounded fixed-point
/// components.
pub ghost struct Vec4 {
    pub x: int,
    pub y: int,
    pub z: int,
    pub w: int,
}

/// A point (`w` = 1) or vector (`w` = 0) in homogeneous coordinates.
#[derive(Debug, Clone, Copy)]
pub struct Tuple {
    pub x: i128,
    pub y: i128,
    pub z: i128,
    pub w: i128,
}

impl View for Tuple {
    type V = Vec4;

    open spec fn view(&self) -> Vec4 {
        Vec4 { x: self.x as int, y: self.y as int, z: self.z as int, w: self.w as int }
    }
}

/// All four components lie within `m` units of zero.
pub open spec fn tup_within(t: Vec4, m: int) -> bool {
    &&& -m <= t.x <= m
    &&& -m <= t.y <= m
    &&& -m <= t.z <= m
    &&& -m <= t.w <= m
}

/// Componentwise sum; exact.
pub open spec fn tup_plus(a: Vec4, b: Vec4) -> Vec4 {
    Vec4 { x: a.x + b.x, y: a.y + b.y, z: a.z + b.z, w: a.w + b.w }
}

/// Componentwise difference; exact.
pub open spec fn tup_minus(a: Vec4, b: Vec4) -> Vec4 {
    Vec4 { x: a.x - b.x, y: a.y - b.y, z: a.z - b.z, w: a.w - b.w }
}

/// Componentwise negation; exact.
pub open spec fn tup_neg(a: Vec4) -> Vec4 {
    Vec4 { x: -a.x, y: -a.y, z: -a.z, w: -a.w }
}

/// Scaling of the spatial components by a fixed-point factor; the `w`
/// component is left unchanged, so scaling keeps points points and
/// vectors vectors.
pub open spec fn tup_scale(t: Vec4, f: int) -> Vec4 {
    Vec4 {
        x: fx_mul_s(t.x, f),
        y: fx_mul_s(t.y, f),
        z: fx_mul_s(t.z, f),
        w: t.w,
    }
}

/// Division of the spatial components by a fixed-point factor; `w` is
/// left unchanged.
pub open spec fn tup_div(t: Vec4, f: int) -> Vec4 {
    Vec4 {
        x: fx_div_s(t.x, f),
        y: fx_div_s(t.y, f),
        z: fx_div_s(t.z, f),
        w: t.w,
    }
}

/// The dot product of the spatial components, rounded once.
pub open spec fn dot_s(a: Vec4, b: Vec4) -> int {
    rdiv(a.x * b.x + a.y * b.y + a.z * b.z, SCALE as int)
}

/// The cross product of the spatial components; the result is a
/// vector.
pub open spec fn cross_s(a: Vec4, b: Vec4) -> Vec4 {
    Vec4 {
        x: fx_mul_s(a.y, b.z) - fx_mul_s(a.z, b.y),
        y: fx_mul_s(a.z, b.x) - fx_mul_s(a.x, b.z),
        z: fx_mul_s(a.x, b.y) - fx_mul_s(a.y, b.x),
        w: 0,
    }
}

/// The squared magnitude of the spatial components, rounded once.
pub open spec fn mag2_s(t: Vec4) -> int {
    rdiv(t.x * t.x + t.y * t.y + t.z * t.z, SCALE as int)
}

/// The magnitude of the spatial components.
pub open spec fn mag_s(t: Vec4) -> int {
    fx_sqrt_s(mag2_s(t))
}

/// The tuple scaled to unit length: each spatial component divided by
/// the magnitude; `w` is left unchanged.
pub open spec fn norm_s(t: Vec4) -> Vec4 {
    tup_div(t, mag_s(t))
}

/// The reflection of `v` about the normal `n`:
/// `v - n * (2 * dot(v, n))`.
pub open spec fn reflect_s(v: Vec4, n: Vec4) -> Vec4 {
    tup_minus(v, tup_scale(n, 2 * dot_s(v, n)))
}

/// Componentwise approximate equality within `EPSILON`.
pub open spec fn tup_approx(a: Vec4, b: Vec4) -> bool {
    &&& approx_s(a.x, b.x)
    &&& approx_s(a.y, b.y)
    &&& approx_s(a.z, b.z)
    &&& approx_s(a.w, b.w)
}

impl Tuple {
    /// A point: `w` is exactly 1.
    pub fn point(x: i128, y: i128, z: i128) -> (r: Tuple)
        ensures
            r@ == (Vec4 { x: x as int, y: y as int, z: z as int, w: SCALE as int }),
    {
        Tuple { x, y, z, w: SCALE }
    }

    /// A vector: `w` is exactly 0.
    pub fn vector(x: i128, y: i128, z: i128) -> (r: Tuple)
        ensures
            r@ == (Vec4 { x: x as int, y: y as int, z: z as int, w: 0int }),
    {
        Tuple { x, y, z, w: 0 }
    }

    /// Whether the tuple is approximately a point (`w` near 1).
    pub fn is_point(&self) -> (r: bool)
        requires
            -TUP_LIM <= self.w <= TUP_LIM,
        ensures
            r == approx_s(self@.w, SCALE as int),
    {
        let d = self.w - SCALE;
        -EPSILON <= d && d <= EPSILON
    }

    /// Whether the tuple is approximately a vector (`w` near 0).
    pub fn is_vector(&self) -> (r: bool)
        requires
            -TUP_LIM <= self.w <= TUP_LIM,
        ensures
            r == approx_s(self@.w, 0),
    {
        -EPSILON <= self.w && self.w <= EPSILON
    }

    /// Componentwise approximate equality within `EPSILON`.
    pub fn approx_eq(&self, other: &Tuple) -> (r: bool)
        requires
            tup_within(self@, TUP_LIM as int),
            tup_within(other@, TUP_LIM as int),
        ensures
            r == tup_approx(self@, other@),
    {
        crate::fixed::approx_eq(self.x, other.x)
            && crate::fixed::approx_eq(self.y, other.y)
            && crate::fixed::approx_eq(self.z, other.z)
            && crate::fixed::approx_eq(self.w, other.w)
    }

    /// The componentwise sum.
    pub fn plus(&self, other: &Tuple) -> (r: Tuple)
        requires
            tup_within(self@, TUP_LIM as int),
            tup_within(other@, TUP_LIM as int),
        ensures
            r@ == tup_plus(self@, other@),
    {
        Tuple {
            x: self.x + other.x,
            y: self.y + other.y,
            z: self.z + other.z,
            w: self.w + other.w,
        }
    }

    /// The componentwise difference.
    pub fn minus(&self, other: &Tuple) -> (r: Tuple)
        requires
            tup_within(self@, TUP_LIM as int),
            tup_within(other@, TUP_LIM as int),
        ensures
            r@ == tup_minus(self@, other@),
    {
        Tuple {
            x: self.x - other.x,
            y: self.y - other.y,
            z: self.z - other.z,
            w: self.w - other.w,
        }
    }

    /// The componentwise negation.
    pub fn neg(&self) -> (r: Tuple)
        requires
            tup_within(self@, TUP_LIM as int),
        ensures
            r@ == tup_neg(self@),
    {
        Tuple { x: -self.x, y: -self.y, z: -self.z, w: -self.w }
    }

    /// The spatial components scaled by a fixed-point factor; `w` is
    /// unchanged.
    pub fn times(&self, factor: i128) -> (r: Tuple)
        requires
            tup_within(self@, TUP_LIM as int),
            -TUP_LIM <= factor <= TUP_LIM,
        ensures
            r@ == tup_scale(self@, factor as int),
    {
        Tuple {
            x: fx_mul(self.x, factor),
            y: fx_mul(self.y, factor),
            z: fx_mul(self.z, factor),
            w: self.w,
        }
    }

    /// The spatial components divided by a nonzero fixed-point
    /// factor; `w` is unchanged.
    pub fn div_by(&self, factor: i128) -> (r: Tuple)
        requires
            tup_within(self@, TUP_LIM as int),
            -TUP_LIM <= factor <= TUP_LIM,
            factor != 0,
        ensures
            r@ == tup_div(self@, factor as int),
    {
        Tuple {
            x: fx_div(self.x, factor),
            y: fx_div(self.y, factor),
            z: fx_div(self.z, factor),
            w: self.w,
        }
    }

    /// The dot product of the spatial components.
    pub fn dot_product(a: &Tuple, b: &Tuple) -> (r: i128)
        requires
            tup_within(a@, TUP_LIM as int),
            tup_within(b@, TUP_LIM as int),
        ensures
            r == dot_s(a@, b@),
    {
        proof {
            lemma_prod_bound(a@.x, b@.x, TUP_LIM as int, TUP_LIM as int);
            lemma_prod_bound(a@.y, b@.y, TUP_LIM as int, TUP_LIM as int);
            lemma_prod_bound(a@.z, b@.z, TUP_LIM as int, TUP_LIM as int);
        }
        let s = a.x * b.x + a.y * b.y + a.z * b.z;
        rdiv_exec(s, SCALE)
    }

    /// The cross product of the spatial components; the result is a
    /// vector.
    pub fn cross_product(a: &Tuple, b: &Tuple) -> (r: Tuple)
        requires
            tup_within(a@, TUP_LIM as int),
            tup_within(b@, TUP_LIM as int),
        ensures
            r@ == cross_s(a@, b@),
    {
        proof {
            crate::fixed::lemma_fx_mul_s_bound(a@.y, b@.z, TUP_LIM as int, TUP_LIM as int);
            crate::fixed::lemma_fx_mul_s_bound(a@.z, b@.y, TUP_LIM as int, TUP_LIM as int);
            crate::fixed::lemma_fx_mul_s_bound(a@.z, b@.x, TUP_LIM as int, TUP_LIM as int);
            crate::fixed::lemma_fx_mul_s_bound(a@.x, b@.z, TUP_LIM as int, TUP_LIM as int);
            crate::fixed::lemma_fx_mul_s_bound(a@.x, b@.y, TUP_LIM as int, TUP_LIM as int);
            crate::fixed::lemma_fx_mul_s_bound(a@.y, b@.x, TUP_LIM as int, TUP_LIM as int);
        }
        Tuple {
            x: fx_mul(a.y, b.z) - fx_mul(a.z, b.y),
            y: fx_mul(a.z, b.x) - fx_mul(a.x, b.z),
            z: fx_mul(a.x, b.y) - fx_mul(a.y, b.x),
            w: 0,
        }
    }

    /// The magnitude of the spatial components.
    pub fn magnitude(&self) -> (r: i128)
        requires
            tup_within(self@, TUP_LIM as int),
        ensures
            r == mag_s(self@),
            0 <= r <= 3_500_000_000_000_000_000i128,
    {
        proof {
            lemma_square_bound(self@.x, TUP_LIM as int);
            lemma_square_bound(self@.y, TUP_LIM as int);
            lemma_square_bound(self@.z, TUP_LIM as int);
        }
        let s = self.x * self.x + self.y * self.y + self.z * self.z;
        let m2 = rdiv_exec(s, SCALE);
        proof {
            lemma_rdiv_bound(s as int, SCALE as int,
                12_000_000_000_000_000_000_000_000_000_000_000_000int);
            vstd::arithmetic::div_mod::lemma_div_pos_is_pos(
                s + (SCALE as int) / 2, SCALE as int);
            crate::fixed::lemma_isqrt_le((m2 * SCALE) as nat, 3_500_000_000_000_000_000nat);
        }
        fx_sqrt(m2)
    }

    /// The tuple scaled to approximately unit length; the magnitude
    /// must be positive.
    pub fn normalize(&self) -> (r: Tuple)
        requires
            tup_within(self@, TUP_LIM as int),
            mag_s(self@) >= 1,
        ensures
            r@ == norm_s(self@),
            -NORM_LIM <= r@.x <= NORM_LIM,
            -NORM_LIM <= r@.y <= NORM_LIM,
            -NORM_LIM <= r@.z <= NORM_LIM,
    {
        let m = self.magnitude();
        proof {
            lemma_norm_comp_bound(self@.x, self@, m as int);
            lemma_norm_comp_bound(self@.y, self@, m as int);
            lemma_norm_comp_bound(self@.z, self@, m as int);
        }
        Tuple {
            x: fx_div(self.x, m),
            y: fx_div(self.y, m),
            z: fx_div(self.z, m),
            w: self.w,
        }
    }

    /// The reflection of the vector `v` about the normal `n`.
    pub fn reflect(v: &Tuple, n: &Tuple) -> (r: Tuple)
        requires
            tup_within(v@, 1_000_000_000_000_000int),
            tup_within(n@, 4_000_000_000int),
        ensures
            r@ == reflect_s(v@, n@),
    {
        proof {
            lemma_prod_bound(v@.x, n@.x, 1_000_000_000_000_000int, 4_000_000_000int);
            lemma_prod_bound(v@.y, n@.y, 1_000_000_000_000_000int, 4_000_000_000int);
            lemma_prod_bound(v@.z, n@.z, 1_000_000_000_000_000int, 4_000_000_000int);
            lemma_rdiv_bound(v@.x * n@.x + v@.y * n@.y + v@.z * n@.z, SCALE as int,
                12_000_000_000_000_000_000_000_000int);
        }
        let d2 = 2 * Tuple::dot_product(v, n);
        proof {
            crate::fixed::lemma_fx_mul_s_bound(n@.x, d2 as int, 4_000_000_000int,
                25_000_000_000_000_000int);
            crate::fixed::lemma_fx_mul_s_bound(n@.y, d2 as int, 4_000_000_000int,
                25_000_000_000_000_000int);
            crate::fixed::lemma_fx_mul_s_bound(n@.z, d2 as int, 4_000_000_000int,
                25_000_000_000_000_000int);
        }
        let scaled = Tuple {
            x: fx_mul(n.x, d2),
            y: fx_mul(n.y, d2),
            z: fx_mul(n.z, d2),
            w: n.w,
        };
        Tuple {
            x: v.x - scaled.x,
            y: v.y - scaled.y,
            z: v.z - scaled.z,
            w: v.w - scaled.w,
        }
    }
}

/// Bounds on two factors bound their product.
pub proof fn lemma_prod_bound(a: int, b: int, ma: int, mb: int)
    requires
        -ma <= a <= ma,
        -mb <= b <= mb,
        0 <= ma,
        0 <= mb,
    ensures
        -(ma * mb) <= a * b <= ma * mb,
{
    assert(-(ma * mb) <= a * b <= ma * mb) by (nonlinear_arith)
        requires
            -ma <= a <= ma,
            -mb <= b <= mb,
            0 <= ma,
            0 <= mb,
    {}
}

/// The square of a value of magnitude at most `m` lies between 0 and
/// `m * m`.
pub proof fn lemma_square_bound(a: int, m: int)
    requires
        -m <= a <= m,
        0 <= m,
    ensures
        0 <= a * a <= m * m,
{
    assert(0 <= a * a <= m * m) by (nonlinear_arith)
        requires
            -m <= a <= m,
            0 <= m,
    {}
}

/// The components of a normalized tuple lie within 2.1 units of
/// zero, spatially.
pub proof fn lemma_norm_comp_bound_pub(t: Vec4)
    requires
        tup_within(t, TUP_LIM as int),
        mag_s(t) >= 1,
    ensures
        -2_100_000_000int <= norm_s(t).x <= 2_100_000_000int,
        -2_100_000_000int <= norm_s(t).y <= 2_100_000_000int,
        -2_100_000_000int <= norm_s(t).z <= 2_100_000_000int,
        norm_s(t).w == t.w,
{
    lemma_norm_comp_bound(t.x, t, mag_s(t));
    lemma_norm_comp_bound(t.y, t, mag_s(t));
    lemma_norm_comp_bound(t.z, t, mag_s(t));
}

/// Each component of a normalized tuple is below `NORM_LIM`: the
/// computed magnitude is never much smaller than any single component,
/// so the quotient stays near or below one.
proof fn lemma_norm_comp_bound(c: int, t: Vec4, m: int)
    requires
        c == t.x || c == t.y || c == t.z,
        tup_within(t, TUP_LIM as int),
        mag_s(t) >= 1,
        m == mag_s(t),
    ensures
        -(NORM_LIM as int) <= fx_div_s(c, m) <= NORM_LIM as int,
{
    let s = SCALE as int;
    let n = t.x * t.x + t.y * t.y + t.z * t.z;
    let m2 = mag2_s(t);
    assert(0 <= c * c <= n && n <= 12_000_000_000_000_000_000_000_000_000_000_000_000int)
        by (nonlinear_arith)
        requires
            c == t.x || c == t.y || c == t.z,
            tup_within(t, TUP_LIM as int),
            n == t.x * t.x + t.y * t.y + t.z * t.z,
    {}
    let a = if c >= 0 { c } else { -c };
    // The computed magnitude brackets the true squared length.
    vstd::arithmetic::div_mod::lemma_fundamental_div_mod(n + s / 2, s);
    vstd::arithmetic::div_mod::lemma_mod_bound(n + s / 2, s);
    assert(m2 * s > n - s) by (nonlinear_arith)
        requires
            n + s / 2 == s * m2 + ((n + s / 2) % s),
            0 <= (n + s / 2) % s < s,
            s == 1_000_000_000int,
            n >= 0,
    {}
    lemma_isqrt((m2 * s) as nat);
    let q = isqrt_s((m2 * s) as nat) as int;
    assert(m == q);
    assert(m2 >= 1) by {
        vstd::arithmetic::div_mod::lemma_div_pos_is_pos(n + s / 2, s);
        if m2 == 0 {
            assert(isqrt_s(0) == 0);
        }
    }
    assert((q + 1) * (q + 1) > m2 * s);
    // Lower bound on the magnitude: at least the square root of one
    // scale unit.
    assert(q >= 31_622) by (nonlinear_arith)
        requires
            (q + 1) * (q + 1) > m2 * s,
            m2 >= 1,
            s == 1_000_000_000int,
            q >= 1,
    {}
    // The magnitude is at least about half of any single component.
    assert((q + 1) * (q + 1) > a * a - s) by (nonlinear_arith)
        requires
            (q + 1) * (q + 1) > m2 * s,
            m2 * s > n - s,
            0 <= c * c <= n,
            a == (if c >= 0 { c } else { -c }),
    {}
    if a <= 63_247 {
        assert(a * s < q * (2 * s + 95_001)) by (nonlinear_arith)
            requires
                a <= 63_247,
                0 <= a,
                q >= 31_622,
                s == 1_000_000_000int,
        {}
    } else {
        assert(2 * q >= a - 2) by (nonlinear_arith)
            requires
                (q + 1) * (q + 1) > a * a - s,
                a > 63_247,
                q >= 0,
                s == 1_000_000_000int,
        {}
        assert(a * s < q * (2 * s + 95_001)) by (nonlinear_arith)
            requires
                2 * q >= a - 2,
                a > 63_247,
                q >= 31_622,
                s == 1_000_000_000int,
        {}
    }
    vstd::arithmetic::div_mod::lemma_multiply_divide_lt(a * s, q, 2 * s + 95_001);
    assert((a * s) / q < 2 * s + 95_001);
    lemma_rdiv_bound(c * s, q, a * s);
    assert(fx_div_s(c, m) == rdiv(c * s, q));
    assert(-(NORM_LIM as int) <= rdiv(c * s, q) <= NORM_LIM as int);
}

/// A point plus a vector is a point, and a vector plus a vector is a
/// vector: addition adds the `w` components exactly.
pub proof fn lemma_add_keeps_kind(p: Vec4, v: Vec4, u: Vec4)
    requires
        p.w == SCALE as int,
        v.w == 0,
        u.w == 0,
    ensures
        tup_plus(p, v).w == SCALE as int,
        tup_plus(v, u).w == 0,
{
}

/// A point minus a point is a vector, a point minus a vector is a
/// point, and a vector minus a vector is a vector: subtraction
/// subtracts the `w` components exactly.
pub proof fn lemma_sub_keeps_kind(p: Vec4, q: Vec4, v: Vec4, u: Vec4)
    requires
        p.w == SCALE as int,
        q.w == SCALE as int,
        v.w == 0,
        u.w == 0,
    ensures
        tup_minus(p, q).w == 0,
        tup_minus(p, v).w == SCALE as int,
        tup_minus(v, u).w == 0,
{
}

} // verus!
