//! Procedural patterns: a color as a function of a local point,
//! composed with the owning shape's and the pattern's own transforms.
//!
//! Each pattern stores its transform together with the precomputed
//! inverse; the constructors establish that the stored inverse is the
//! matrix inverse of the stored transform.

use vstd::prelude::*;
use crate::color::Color;
use crate::color::Rgb;
use crate::color::col_within;
use crate::fixed::SCALE;
use crate::fixed::fx_mul;
use crate::fixed::fx_mul_s;
use crate::fixed::fx_sqrt;
use crate::fixed::fx_sqrt_s;
use crate::fixed::rdiv;
use crate::fixed::rdiv_exec;
use crate::matrix::MAT_LIM;
use crate::matrix::MatV;
use crate::matrix::Matrix;
use crate::matrix::identity_s;
use crate::matrix::inverse_s;
use crate::matrix::is_invertible_s;
use crate::matrix::mat_square;
use crate::matrix::mat_within;
use crate::matrix::mul_tuple_s;
use crate::tuple::Tuple;
use crate::tuple::Vec4;
use crate::tuple::tup_within;

verus! {

/// Cell bound on a pattern's inverse transform: the real value 20.
pub const PAT_INV_LIM: i128 = 20_000_000_000;

/// Component bound on points handed to pattern sampling.
pub const PAT_PT_LIM: i128 = 110_000_000_000_000;

/// Channel bound on pattern colors: the real value 10.
pub const PAT_COL_LIM: i128 = 10_000_000_000;

/// The variant of a pattern.
#[derive(Debug, Clone, Copy, PartialEq, Eq, Structural)]
pub enum PatKind {
    Checkers,
    Gradient,
    Ring,
    Stripe,
    Test,
}

/// The mathematical value of a pattern: its variant, its two colors
/// (ignored by the test variant), and its transform with the stored
/// inverse.
pub ghost struct PatV {
    pub kind: PatKind,
    pub first: Rgb,
    pub second: Rgb,
    pub transform: MatV,
    pub inverse: MatV,
}

/// A pattern the shading pipeline accepts: bounded colors, a square
/// transform, and a bounded square inverse.
pub open spec fn pat_wf(p: PatV) -> bool {
    &&& col_within(p.first, PAT_COL_LIM as int)
    &&& col_within(p.second, PAT_COL_LIM as int)
    &&& mat_square(p.transform)
    &&& p.transform.rows == 4
    &&& mat_within(p.transform, MAT_LIM as int)
    &&& mat_square(p.inverse)
    &&& p.inverse.rows == 4
    &&& mat_within(p.inverse, PAT_INV_LIM as int)
}

/// The floor of a fixed-point value, as an integer.
pub open spec fn floor_u(v: int) -> int {
    v / (SCALE as int)
}

/// The stripe color: the floor of `x` decides by parity.
pub open spec fn stripe_at_s(p: PatV, pt: Vec4) -> Rgb {
    if floor_u(pt.x) % 2 == 0 {
        p.first
    } else {
        p.second
    }
}

/// The gradient color: linear interpolation by the fractional part of
/// `x`.
pub open spec fn gradient_at_s(p: PatV, pt: Vec4) -> Rgb {
    let f = pt.x % (SCALE as int);
    Rgb {
        r: p.first.r + fx_mul_s(p.second.r - p.first.r, f),
        g: p.first.g + fx_mul_s(p.second.g - p.first.g, f),
        b: p.first.b + fx_mul_s(p.second.b - p.first.b, f),
    }
}

/// The ring color: the floor of the radius in the xz plane decides by
/// parity.
pub open spec fn ring_at_s(p: PatV, pt: Vec4) -> Rgb {
    let r = fx_sqrt_s(rdiv(pt.x * pt.x + pt.z * pt.z, SCALE as int));
    if floor_u(r) % 2 == 0 {
        p.first
    } else {
        p.second
    }
}

/// The checkers color: the floors of all three coordinates decide by
/// the parity of their sum.
pub open spec fn checkers_at_s(p: PatV, pt: Vec4) -> Rgb {
    if (floor_u(pt.x) + floor_u(pt.y) + floor_u(pt.z)) % 2 == 0 {
        p.first
    } else {
        p.second
    }
}

/// The test color: the local coordinates echoed as channels.
pub open spec fn test_at_s(pt: Vec4) -> Rgb {
    Rgb { r: pt.x, g: pt.y, b: pt.z }
}

/// The pattern color at a pattern-local point.
pub open spec fn pattern_at_s(p: PatV, pt: Vec4) -> Rgb {
    match p.kind {
        PatKind::Checkers => checkers_at_s(p, pt),
        PatKind::Gradient => gradient_at_s(p, pt),
        PatKind::Ring => ring_at_s(p, pt),
        PatKind::Stripe => stripe_at_s(p, pt),
        PatKind::Test => test_at_s(pt),
    }
}

/// The pattern color at a world point on a shape: the point carried
/// to shape space by the shape's stored inverse, then to pattern
/// space by the pattern's stored inverse.
pub open spec fn pattern_at_shape_s(p: PatV, shape_inv: MatV, wp: Vec4) -> Rgb {
    pattern_at_s(p, mul_tuple_s(p.inverse, mul_tuple_s(shape_inv, wp)))
}

/// A pattern constructor argument is accepted when it is absent or an
/// invertible bounded transform with a bounded inverse.
pub open spec fn pat_transform_ok(t: Option<Matrix>) -> bool {
    match t {
        Option::None => true,
        Option::Some(m) => {
            &&& mat_square(m@)
            &&& m@.rows == 4
            &&& mat_within(m@, MAT_LIM as int)
            &&& is_invertible_s(m@)
            &&& mat_within(inverse_s(m@), PAT_INV_LIM as int)
        },
    }
}

/// The stored transform for a constructor argument: the matrix given,
/// or the identity.
pub open spec fn pat_transform_of(t: Option<Matrix>) -> MatV {
    match t {
        Option::None => identity_s(),
        Option::Some(m) => m@,
    }
}

/// The stored inverse for a constructor argument: the inverse of the
/// matrix given, or the identity.
pub open spec fn pat_inverse_of(t: Option<Matrix>) -> MatV {
    match t {
        Option::None => identity_s(),
        Option::Some(m) => inverse_s(m@),
    }
}


/// Resolves an optional transform to the stored pair: the transform
/// and its inverse, or the identity twice.
fn resolve_transform(t: &Option<Matrix>) -> (r: (Matrix, Matrix))
    requires
        pat_transform_ok(*t),
    ensures
        r.0@ == pat_transform_of(*t),
        r.1@ == pat_inverse_of(*t),
        mat_square(r.0@),
        r.0@.rows == 4,
        mat_within(r.0@, MAT_LIM as int),
        mat_square(r.1@),
        r.1@.rows == 4,
        mat_within(r.1@, PAT_INV_LIM as int),
{
    match t {
        Option::Some(m) => {
            let inv = m.inverse();
            (*m, inv)
        },
        Option::None => {
            let id = Matrix::identity();
            proof {
                crate::matrix::lemma_within_cells(identity_s(), MAT_LIM as int);
                crate::matrix::lemma_within_cells(identity_s(), PAT_INV_LIM as int);
            }
            (id, id)
        },
    }
}

/// The floor of a fixed-point value, as an integer.
fn floor_exec(v: i128) -> (r: i128)
    requires
        -100_000_000_000_000_000_000_000_000_000_000i128 <= v
            <= 100_000_000_000_000_000_000_000_000_000_000i128,
    ensures
        r == floor_u(v as int),
{
    let ro = v.checked_div_euclid(SCALE);
    proof {
        crate::fixed::lemma_div_range(v as int, SCALE as int,
            100_000_000_000_000_000_000_000_000_000_000int);
    }
    ro.unwrap()
}

/// Whether an integer is even.
fn is_even(v: i128) -> (r: bool)
    requires
        -100_000_000_000_000_000_000_000_000_000_000i128 <= v
            <= 100_000_000_000_000_000_000_000_000_000_000i128,
    ensures
        r == (v as int % 2 == 0),
{
    let qo = v.checked_div_euclid(2);
    proof {
        crate::fixed::lemma_div_range(v as int, 2,
            100_000_000_000_000_000_000_000_000_000_000int);
        vstd::arithmetic::div_mod::lemma_fundamental_div_mod(v as int, 2);
        vstd::arithmetic::div_mod::lemma_mod_bound(v as int, 2);
    }
    let q = qo.unwrap();
    q * 2 == v
}

/// Component bound accepted by the local pattern samplers.
pub const PAT_LOCAL_LIM: i128 = 8_000_000_000_000_000_000;


/// The checkers pattern.
#[derive(Debug, Clone, Copy)]
pub struct CheckersPattern {
    pub first: Color,
    pub second: Color,
    pub transform: Matrix,
    pub inverse: Matrix,
}

impl View for CheckersPattern {
    type V = PatV;

    open spec fn view(&self) -> PatV {
        PatV {
            kind: PatKind::Checkers,
            first: self.first@,
            second: self.second@,
            transform: self.transform@,
            inverse: self.inverse@,
        }
    }
}

impl CheckersPattern {
    /// A checkers pattern from two colors and an optional
    /// transform.
    pub fn new(first: Color, second: Color, transform: Option<Matrix>) -> (p: Self)
        requires
            pat_transform_ok(transform),
            col_within(first@, PAT_COL_LIM as int),
            col_within(second@, PAT_COL_LIM as int),
        ensures
            p@.first == first@,
            p@.second == second@,
            p@.transform == pat_transform_of(transform),
            p@.inverse == pat_inverse_of(transform),
            pat_wf(p@),
    {
        let (t, inv) = resolve_transform(&transform);
        CheckersPattern { first, second, transform: t, inverse: inv }
    }

    /// The pattern color at a pattern-local point.
    pub fn pattern_at(&self, point: &Tuple) -> (c: Color)
        requires
            pat_wf(self@),
            tup_within(point@, PAT_LOCAL_LIM as int),
        ensures
            c@ == checkers_at_s(self@, point@),
    {
        let fx = floor_exec(point.x);
        let fy = floor_exec(point.y);
        let fz = floor_exec(point.z);
        if is_even(fx + fy + fz) {
            self.first
        } else {
            self.second
        }
    }
}


/// The gradient pattern.
#[derive(Debug, Clone, Copy)]
pub struct GradientPattern {
    pub first: Color,
    pub second: Color,
    pub transform: Matrix,
    pub inverse: Matrix,
}

impl View for GradientPattern {
    type V = PatV;

    open spec fn view(&self) -> PatV {
        PatV {
            kind: PatKind::Gradient,
            first: self.first@,
            second: self.second@,
            transform: self.transform@,
            inverse: self.inverse@,
        }
    }
}

impl GradientPattern {
    /// A gradient pattern from two colors and an optional
    /// transform.
    pub fn new(first: Color, second: Color, transform: Option<Matrix>) -> (p: Self)
        requires
            pat_transform_ok(transform),
            col_within(first@, PAT_COL_LIM as int),
            col_within(second@, PAT_COL_LIM as int),
        ensures
            p@.first == first@,
            p@.second == second@,
            p@.transform == pat_transform_of(transform),
            p@.inverse == pat_inverse_of(transform),
            pat_wf(p@),
    {
        let (t, inv) = resolve_transform(&transform);
        GradientPattern { first, second, transform: t, inverse: inv }
    }

    /// The pattern color at a pattern-local point.
    pub fn pattern_at(&self, point: &Tuple) -> (c: Color)
        requires
            pat_wf(self@),
            tup_within(point@, PAT_LOCAL_LIM as int),
        ensures
            c@ == gradient_at_s(self@, point@),
    {
        let fl = floor_exec(point.x);
        let f = point.x - fl * SCALE;
        proof {
            vstd::arithmetic::div_mod::lemma_fundamental_div_mod(point@.x, SCALE as int);
            vstd::arithmetic::div_mod::lemma_mod_bound(point@.x, SCALE as int);
            crate::fixed::lemma_fx_mul_s_bound(self@.second.r - self@.first.r, f as int,
                2 * PAT_COL_LIM as int, SCALE as int);
            crate::fixed::lemma_fx_mul_s_bound(self@.second.g - self@.first.g, f as int,
                2 * PAT_COL_LIM as int, SCALE as int);
            crate::fixed::lemma_fx_mul_s_bound(self@.second.b - self@.first.b, f as int,
                2 * PAT_COL_LIM as int, SCALE as int);
        }
        Color {
            r: self.first.r + fx_mul(self.second.r - self.first.r, f),
            g: self.first.g + fx_mul(self.second.g - self.first.g, f),
            b: self.first.b + fx_mul(self.second.b - self.first.b, f),
        }
    }
}


/// The ring pattern.
#[derive(Debug, Clone, Copy)]
pub struct RingPattern {
    pub first: Color,
    pub second: Color,
    pub transform: Matrix,
    pub inverse: Matrix,
}

impl View for RingPattern {
    type V = PatV;

    open spec fn view(&self) -> PatV {
        PatV {
            kind: PatKind::Ring,
            first: self.first@,
            second: self.second@,
            transform: self.transform@,
            inverse: self.inverse@,
        }
    }
}

impl RingPattern {
    /// A ring pattern from two colors and an optional
    /// transform.
    pub fn new(first: Color, second: Color, transform: Option<Matrix>) -> (p: Self)
        requires
            pat_transform_ok(transform),
            col_within(first@, PAT_COL_LIM as int),
            col_within(second@, PAT_COL_LIM as int),
        ensures
            p@.first == first@,
            p@.second == second@,
            p@.transform == pat_transform_of(transform),
            p@.inverse == pat_inverse_of(transform),
            pat_wf(p@),
    {
        let (t, inv) = resolve_transform(&transform);
        RingPattern { first, second, transform: t, inverse: inv }
    }

    /// The pattern color at a pattern-local point.
    pub fn pattern_at(&self, point: &Tuple) -> (c: Color)
        requires
            pat_wf(self@),
            tup_within(point@, PAT_LOCAL_LIM as int),
        ensures
            c@ == ring_at_s(self@, point@),
    {
        proof {
            crate::tuple::lemma_square_bound(point@.x, PAT_LOCAL_LIM as int);
            crate::tuple::lemma_square_bound(point@.z, PAT_LOCAL_LIM as int);
            crate::fixed::lemma_rdiv_bound(point@.x * point@.x + point@.z * point@.z,
                SCALE as int, 128_000_000_000_000_000_000_000_000_000_000_000_000int);
            vstd::arithmetic::div_mod::lemma_div_pos_is_pos(
                point@.x * point@.x + point@.z * point@.z + (SCALE as int) / 2,
                SCALE as int);
        }
        let m2 = rdiv_exec(point.x * point.x + point.z * point.z, SCALE);
        let r = fx_sqrt(m2);
        let fr = floor_exec(r);
        if is_even(fr) {
            self.first
        } else {
            self.second
        }
    }
}


/// The stripe pattern.
#[derive(Debug, Clone, Copy)]
pub struct StripePattern {
    pub first: Color,
    pub second: Color,
    pub transform: Matrix,
    pub inverse: Matrix,
}

impl View for StripePattern {
    type V = PatV;

    open spec fn view(&self) -> PatV {
        PatV {
            kind: PatKind::Stripe,
            first: self.first@,
            second: self.second@,
            transform: self.transform@,
            inverse: self.inverse@,
        }
    }
}

impl StripePattern {
    /// A stripe pattern from two colors and an optional
    /// transform.
    pub fn new(first: Color, second: Color, transform: Option<Matrix>) -> (p: Self)
        requires
            pat_transform_ok(transform),
            col_within(first@, PAT_COL_LIM as int),
            col_within(second@, PAT_COL_LIM as int),
        ensures
            p@.first == first@,
            p@.second == second@,
            p@.transform == pat_transform_of(transform),
            p@.inverse == pat_inverse_of(transform),
            pat_wf(p@),
    {
        let (t, inv) = resolve_transform(&transform);
        StripePattern { first, second, transform: t, inverse: inv }
    }

    /// The pattern color at a pattern-local point.
    pub fn pattern_at(&self, point: &Tuple) -> (c: Color)
        requires
            pat_wf(self@),
            tup_within(point@, PAT_LOCAL_LIM as int),
        ensures
            c@ == stripe_at_s(self@, point@),
    {
        let fx = floor_exec(point.x);
        if is_even(fx) {
            self.first
        } else {
            self.second
        }
    }
}


/// The test pattern: echoes local coordinates as color channels.
#[derive(Debug, Clone, Copy)]
pub struct TestPattern {
    pub transform: Matrix,
    pub inverse: Matrix,
}

impl View for TestPattern {
    type V = PatV;

    open spec fn view(&self) -> PatV {
        PatV {
            kind: PatKind::Test,
            first: crate::color::black_s(),
            second: crate::color::black_s(),
            transform: self.transform@,
            inverse: self.inverse@,
        }
    }
}

impl TestPattern {
    /// A test pattern from an optional transform.
    pub fn new(transform: Option<Matrix>) -> (p: Self)
        requires
            pat_transform_ok(transform),
        ensures
            p@.transform == pat_transform_of(transform),
            p@.inverse == pat_inverse_of(transform),
            pat_wf(p@),
    {
        let (t, inv) = resolve_transform(&transform);
        TestPattern { transform: t, inverse: inv }
    }

    /// The local coordinates echoed as a color.
    pub fn pattern_at(&self, point: &Tuple) -> (c: Color)
        ensures
            c@ == test_at_s(point@),
    {
        Color { r: point.x, g: point.y, b: point.z }
    }
}

/// A procedural pattern of any variant.
#[derive(Debug, Clone, Copy)]
pub enum PatternType {
    Checkers(CheckersPattern),
    Gradient(GradientPattern),
    Ring(RingPattern),
    Stripe(StripePattern),
    Test(TestPattern),
}

impl View for PatternType {
    type V = PatV;

    open spec fn view(&self) -> PatV {
        match self {
            PatternType::Checkers(p) => p@,
            PatternType::Gradient(p) => p@,
            PatternType::Ring(p) => p@,
            PatternType::Stripe(p) => p@,
            PatternType::Test(p) => p@,
        }
    }
}

impl PatternType {
    /// The pattern's stored inverse transform.
    pub fn inverse_matrix(&self) -> (m: &Matrix)
        ensures
            m@ == self@.inverse,
    {
        match self {
            PatternType::Checkers(p) => &p.inverse,
            PatternType::Gradient(p) => &p.inverse,
            PatternType::Ring(p) => &p.inverse,
            PatternType::Stripe(p) => &p.inverse,
            PatternType::Test(p) => &p.inverse,
        }
    }

    /// The pattern color at a pattern-local point.
    pub fn pattern_at(&self, point: &Tuple) -> (c: Color)
        requires
            pat_wf(self@),
            tup_within(point@, PAT_LOCAL_LIM as int),
        ensures
            c@ == pattern_at_s(self@, point@),
    {
        match self {
            PatternType::Checkers(p) => p.pattern_at(point),
            PatternType::Gradient(p) => p.pattern_at(point),
            PatternType::Ring(p) => p.pattern_at(point),
            PatternType::Stripe(p) => p.pattern_at(point),
            PatternType::Test(p) => p.pattern_at(point),
        }
    }

    /// The pattern color at a world point on a shape: the point is
    /// carried to shape space, then to pattern space, then sampled.
    pub fn pattern_at_shape(&self, shape: &crate::shape::Shape, world_point: &Tuple)
        -> (c: Color)
        requires
            pat_wf(self@),
            crate::shape::shape_wf(shape@),
            tup_within(world_point@, PAT_PT_LIM as int),
        ensures
            c@ == pattern_at_shape_s(self@, shape@.inverse, world_point@),
    {
        proof {
            crate::matrix::lemma_mul_tuple_bound(shape@.inverse, world_point@,
                80_000_000_000int, 110_000_000_000_000int);
        }
        let object_point = shape.inverse.times_tuple(world_point);
        proof {
            crate::matrix::lemma_mul_tuple_bound(self@.inverse, object_point@,
                20_000_000_000int, 35_200_000_000_000_001int);
        }
        let inv = self.inverse_matrix();
        let pattern_point = inv.times_tuple(&object_point);
        proof {
            assert(tup_within(pattern_point@, PAT_LOCAL_LIM as int));
        }
        self.pattern_at(&pattern_point)
    }
}

} // verus!
