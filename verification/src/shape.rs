//! Shapes: the closed set of primitive variants, each owning a
//! transform (with its precomputed inverse) and a material.
//!
//! The generic behavior is built once: `intersect` carries the ray to
//! local space by the stored inverse and delegates to the variant's
//! local intersection; `normal_at` carries the point to local space,
//! asks the variant for the local normal, and carries it back by the
//! transposed inverse before normalizing.

use vstd::prelude::*;
use crate::fixed::EPSILON;
use crate::fixed::SCALE;
use crate::fixed::fx_div;
use crate::fixed::fx_div_s;
use crate::fixed::fx_mul;
use crate::fixed::fx_mul_s;
use crate::fixed::fx_sqrt;
use crate::fixed::fx_sqrt_s;
use crate::intersection::Intersection;
use crate::intersection::IntersectionV;
use crate::intersection::Intersections;
use crate::intersection::sort_s;
use crate::material::Material;
use crate::material::MatlV;
use crate::material::matl_wf;
use crate::matrix::MAT_LIM;
use crate::matrix::MatV;
use crate::matrix::Matrix;
use crate::matrix::identity_s;
use crate::matrix::inverse_s;
use crate::matrix::is_invertible_s;
use crate::matrix::mat_approx;
use crate::matrix::mat_square;
use crate::matrix::mat_within;
use crate::matrix::mul_tuple_s;
use crate::matrix::transpose_s;
use crate::ray::Ray;
use crate::ray::RayV;
use crate::ray::ray_transform_s;
use crate::tuple::Tuple;
use crate::tuple::Vec4;
use crate::tuple::dot_s;
use crate::tuple::mag_s;
use crate::tuple::norm_s;
use crate::tuple::tup_within;

verus! {

/// Cell bound on a shape's transform and inverse: the real value 80,
/// the edge of the representable scene volume.
pub const SHAPE_CELL_LIM: i128 = 80_000_000_000;

/// Bound on a recorded hit distance: the real value 150; hits beyond
/// the representable horizon are discarded.
pub const T_MAX: i128 = 150_000_000_000;

/// Component bound on rays handed to local intersection.
pub const LOCAL_RAY_LIM: i128 = 20_000_000_000_000;

/// The variant of a shape.
#[derive(Debug, Clone, Copy, PartialEq, Eq, Structural)]
pub enum ShapeKind {
    Sphere,
    Plane,
}

/// The mathematical value of a shape.
pub ghost struct ShapeV {
    pub kind: ShapeKind,
    pub transform: MatV,
    pub inverse: MatV,
    pub material: MatlV,
}

/// A primitive shape: its variant, its transform with the stored
/// inverse, and its material.
#[derive(Debug, Clone, Copy)]
pub struct Shape {
    pub kind: ShapeKind,
    pub transform: Matrix,
    pub inverse: Matrix,
    pub material: Material,
}

impl View for Shape {
    type V = ShapeV;

    open spec fn view(&self) -> ShapeV {
        ShapeV {
            kind: self.kind,
            transform: self.transform@,
            inverse: self.inverse@,
            material: self.material@,
        }
    }
}

/// A shape the pipeline accepts: square bounded transform and
/// inverse, and a well-formed material.
pub open spec fn shape_wf(s: ShapeV) -> bool {
    &&& mat_square(s.transform)
    &&& s.transform.rows == 4
    &&& mat_within(s.transform, SHAPE_CELL_LIM as int)
    &&& mat_square(s.inverse)
    &&& s.inverse.rows == 4
    &&& mat_within(s.inverse, SHAPE_CELL_LIM as int)
    &&& matl_wf(s.material)
}

/// Two shapes are the same for identity purposes: same variant and
/// approximately equal transforms; the material does not take part.
pub open spec fn shape_eq_s(a: ShapeV, b: ShapeV) -> bool {
    a.kind == b.kind && mat_approx(a.transform, b.transform)
}

/// A hit distance within the representable horizon.
pub open spec fn t_ok(t: int) -> bool {
    -(T_MAX as int) <= t <= T_MAX as int
}

/// The distances at which a local ray meets the unit sphere: the two
/// quadratic roots, even when negative or equal; none when the
/// discriminant is negative or the direction is degenerate.
pub open spec fn sphere_ts(local: RayV) -> Seq<int> {
    let s2r = Vec4 {
        x: local.origin.x,
        y: local.origin.y,
        z: local.origin.z,
        w: local.origin.w - SCALE as int,
    };
    let a = dot_s(local.direction, local.direction);
    let b = 2 * dot_s(local.direction, s2r);
    let c = dot_s(s2r, s2r) - SCALE as int;
    let d = fx_mul_s(b, b) - 4 * fx_mul_s(a, c);
    if a == 0 || d < 0 {
        Seq::empty()
    } else {
        let sq = fx_sqrt_s(d);
        seq![fx_div_s(-b - sq, 2 * a), fx_div_s(-b + sq, 2 * a)]
    }
}

/// The local hits of a shape, tagged with the shape, with hits beyond
/// the horizon discarded.
pub open spec fn sphere_hits(s: ShapeV, local: RayV) -> Seq<IntersectionV> {
    let ts = sphere_ts(local);
    if ts.len() == 0 {
        Seq::empty()
    } else {
        let first = if t_ok(ts[0]) {
            seq![IntersectionV { t: ts[0], object: s }]
        } else {
            Seq::empty()
        };
        if t_ok(ts[1]) {
            first.push(IntersectionV { t: ts[1], object: s })
        } else {
            first
        }
    }
}

/// The local hits of a plane: none when the ray runs parallel to the
/// plane (within `EPSILON`), else the single crossing of y = 0, if it
/// lies within the horizon.
pub open spec fn plane_hits(s: ShapeV, local: RayV) -> Seq<IntersectionV> {
    if -(EPSILON as int) < local.direction.y < EPSILON as int {
        Seq::empty()
    } else {
        let t = fx_div_s(-local.origin.y, local.direction.y);
        if t_ok(t) {
            seq![IntersectionV { t: t, object: s }]
        } else {
            Seq::empty()
        }
    }
}

/// The local hits of a shape by variant.
pub open spec fn local_hits(s: ShapeV, local: RayV) -> Seq<IntersectionV> {
    match s.kind {
        ShapeKind::Sphere => sphere_hits(s, local),
        ShapeKind::Plane => plane_hits(s, local),
    }
}

/// The world hits of a shape: the local hits of the ray carried to
/// local space by the stored inverse, in ascending order.
pub open spec fn shape_intersect_s(s: ShapeV, r: RayV) -> Seq<IntersectionV> {
    sort_s(local_hits(s, ray_transform_s(r, s.inverse)))
}

/// The local normal of a variant at a local point: the point itself
/// as a vector for the sphere, the constant +y for the plane.
pub open spec fn local_normal_s(kind: ShapeKind, lp: Vec4) -> Vec4 {
    match kind {
        ShapeKind::Sphere => Vec4 { x: lp.x, y: lp.y, z: lp.z, w: 0 },
        ShapeKind::Plane => Vec4 { x: 0, y: SCALE as int, z: 0, w: 0 },
    }
}

/// The world normal of a shape at a world point: the local normal
/// carried back by the transposed inverse, forced to a vector and
/// normalized; the zero vector when the result is degenerate.
pub open spec fn normal_at_s(s: ShapeV, wp: Vec4) -> Vec4 {
    let lp = mul_tuple_s(s.inverse, wp);
    let ln = local_normal_s(s.kind, lp);
    let wn = mul_tuple_s(transpose_s(s.inverse), ln);
    let v = Vec4 { x: wn.x, y: wn.y, z: wn.z, w: 0 };
    if mag_s(v) >= 1 {
        norm_s(v)
    } else {
        Vec4 { x: 0, y: 0, z: 0, w: 0 }
    }
}

/// A shape constructor transform argument is accepted when it is
/// absent or invertible with a bounded inverse.
pub open spec fn shape_transform_ok(t: Option<Matrix>) -> bool {
    match t {
        Option::None => true,
        Option::Some(m) => {
            &&& mat_square(m@)
            &&& m@.rows == 4
            &&& mat_within(m@, MAT_LIM as int)
            &&& mat_within(m@, SHAPE_CELL_LIM as int)
            &&& is_invertible_s(m@)
            &&& mat_within(inverse_s(m@), SHAPE_CELL_LIM as int)
        },
    }
}

/// The stored transform for a constructor argument.
pub open spec fn shape_transform_of(t: Option<Matrix>) -> MatV {
    match t {
        Option::None => identity_s(),
        Option::Some(m) => m@,
    }
}

/// The stored inverse for a constructor argument.
pub open spec fn shape_inverse_of(t: Option<Matrix>) -> MatV {
    match t {
        Option::None => identity_s(),
        Option::Some(m) => inverse_s(m@),
    }
}

/// The stored material for a constructor argument: the one given, or
/// the default.
pub open spec fn shape_material_of(m: Option<Material>) -> MatlV {
    match m {
        Option::None => crate::material::default_matl_s(),
        Option::Some(mm) => mm@,
    }
}

/// Resolves an optional transform to the stored pair for a shape.
fn resolve_shape_transform(t: &Option<Matrix>) -> (r: (Matrix, Matrix))
    requires
        shape_transform_ok(*t),
    ensures
        r.0@ == shape_transform_of(*t),
        r.1@ == shape_inverse_of(*t),
        mat_square(r.0@),
        r.0@.rows == 4,
        mat_within(r.0@, SHAPE_CELL_LIM as int),
        mat_square(r.1@),
        r.1@.rows == 4,
        mat_within(r.1@, SHAPE_CELL_LIM as int),
{
    match t {
        Option::Some(m) => {
            let inv = m.inverse();
            (*m, inv)
        },
        Option::None => {
            let id = Matrix::identity();
            proof {
                crate::matrix::lemma_within_cells(identity_s(), SHAPE_CELL_LIM as int);
            }
            (id, id)
        },
    }
}

/// Builds a shape of the given variant.
fn make_shape(kind: ShapeKind, transform: Option<Matrix>, material: Option<Material>)
    -> (s: Shape)
    requires
        shape_transform_ok(transform),
        (material matches Option::Some(m) ==> matl_wf(m@)),
    ensures
        s@.kind == kind,
        s@.transform == shape_transform_of(transform),
        s@.inverse == shape_inverse_of(transform),
        s@.material == shape_material_of(material),
        shape_wf(s@),
{
    let (t, inv) = resolve_shape_transform(&transform);
    let m = match material {
        Option::Some(mm) => mm,
        Option::None => Material::default(),
    };
    Shape { kind, transform: t, inverse: inv, material: m }
}

/// The sphere variant: the canonical unit sphere at the local origin.
pub struct Sphere {}

impl Sphere {
    /// A sphere with an optional transform and material.
    pub fn new(transform: Option<Matrix>, material: Option<Material>) -> (s: Shape)
        requires
            shape_transform_ok(transform),
            (material matches Option::Some(m) ==> matl_wf(m@)),
        ensures
            s@.kind == ShapeKind::Sphere,
            s@.transform == shape_transform_of(transform),
            s@.inverse == shape_inverse_of(transform),
            s@.material == shape_material_of(material),
            shape_wf(s@),
    {
        make_shape(ShapeKind::Sphere, transform, material)
    }

    /// A sphere with an optional transform and material.
    pub fn new_boxed(transform: Option<Matrix>, material: Option<Material>) -> (s: Shape)
        requires
            shape_transform_ok(transform),
            (material matches Option::Some(m) ==> matl_wf(m@)),
        ensures
            s@.kind == ShapeKind::Sphere,
            s@.transform == shape_transform_of(transform),
            s@.inverse == shape_inverse_of(transform),
            s@.material == shape_material_of(material),
            shape_wf(s@),
    {
        Sphere::new(transform, material)
    }

    /// The default sphere: identity transform, default material.
    pub fn default_boxed() -> (s: Shape)
        ensures
            s@.kind == ShapeKind::Sphere,
            s@.transform == identity_s(),
            s@.inverse == identity_s(),
            s@.material == shape_material_of(None),
            shape_wf(s@),
    {
        Sphere::new(None, None)
    }
}

/// The plane variant: the canonical xz plane with normal +y.
pub struct Plane {}

impl Plane {
    /// A plane with an optional transform and material.
    pub fn new(transform: Option<Matrix>, material: Option<Material>) -> (s: Shape)
        requires
            shape_transform_ok(transform),
            (material matches Option::Some(m) ==> matl_wf(m@)),
        ensures
            s@.kind == ShapeKind::Plane,
            s@.transform == shape_transform_of(transform),
            s@.inverse == shape_inverse_of(transform),
            s@.material == shape_material_of(material),
            shape_wf(s@),
    {
        make_shape(ShapeKind::Plane, transform, material)
    }

    /// A plane with an optional transform and material.
    pub fn new_boxed(transform: Option<Matrix>, material: Option<Material>) -> (s: Shape)
        requires
            shape_transform_ok(transform),
            (material matches Option::Some(m) ==> matl_wf(m@)),
        ensures
            s@.kind == ShapeKind::Plane,
            s@.transform == shape_transform_of(transform),
            s@.inverse == shape_inverse_of(transform),
            s@.material == shape_material_of(material),
            shape_wf(s@),
    {
        Plane::new(transform, material)
    }

    /// The default plane: identity transform, default material.
    pub fn default_boxed() -> (s: Shape)
        ensures
            s@.kind == ShapeKind::Plane,
            s@.transform == identity_s(),
            s@.inverse == identity_s(),
            s@.material == shape_material_of(None),
            shape_wf(s@),
    {
        Plane::new(None, None)
    }
}

impl Shape {
    /// The shape's transform.
    pub fn transformation(&self) -> (m: Matrix)
        ensures
            m@ == self@.transform,
    {
        self.transform
    }

    /// The shape's material.
    pub fn material(&self) -> (m: &Material)
        ensures
            m@ == self@.material,
    {
        &self.material
    }

    /// Replaces the shape's material.
    pub fn set_material(&mut self, m: Material)
        requires
            matl_wf(m@),
        ensures
            final(self)@.kind == old(self)@.kind,
            final(self)@.transform == old(self)@.transform,
            final(self)@.inverse == old(self)@.inverse,
            final(self)@.material == m@,
    {
        self.material = m;
    }

    /// Whether two shapes are the same for identity purposes.
    pub fn shape_eq(&self, other: &Shape) -> (r: bool)
        requires
            shape_wf(self@),
            shape_wf(other@),
        ensures
            r == shape_eq_s(self@, other@),
    {
        let kind_eq = match (self.kind, other.kind) {
            (ShapeKind::Sphere, ShapeKind::Sphere) => true,
            (ShapeKind::Plane, ShapeKind::Plane) => true,
            _ => false,
        };
        kind_eq && self.transform.approx_eq(&other.transform)
    }

    /// The local normal of the shape's variant at a local point.
    pub fn local_normal_at(&self, local_point: &Tuple) -> (n: Tuple)
        ensures
            n@ == local_normal_s(self@.kind, local_point@),
    {
        match self.kind {
            ShapeKind::Sphere => Tuple::vector(local_point.x, local_point.y, local_point.z),
            ShapeKind::Plane => Tuple::vector(0, SCALE, 0),
        }
    }

    /// The world normal at a world point: carried to local space,
    /// computed there, carried back by the transposed inverse, and
    /// normalized; the zero vector when degenerate.
    pub fn normal_at(&self, world_point: &Tuple) -> (n: Tuple)
        requires
            shape_wf(self@),
            tup_within(world_point@, 10_000_000_000_000int),
        ensures
            n@ == normal_at_s(self@, world_point@),
            tup_within(n@, crate::tuple::NORM_LIM as int),
    {
        proof {
            crate::matrix::lemma_mul_tuple_bound(self@.inverse, world_point@,
                80_000_000_000int, 10_000_000_000_000int);
        }
        let local_point = self.inverse.times_tuple(world_point);
        let local_normal = self.local_normal_at(&local_point);
        let trans = self.inverse.transpose();
        proof {
            assert(tup_within(local_point@, 3_200_000_000_000_001int));
            assert(tup_within(local_normal@, 3_200_000_000_000_001int)) by {
                match self@.kind {
                    ShapeKind::Sphere => {
                        assert(local_normal@.x == local_point@.x);
                    },
                    ShapeKind::Plane => {
                        assert(local_normal@.y == SCALE as int);
                    },
                }
            }
            lemma_transpose_within(self@.inverse, SHAPE_CELL_LIM as int);
            crate::matrix::lemma_mul_tuple_bound(transpose_s(self@.inverse), local_normal@,
                80_000_000_000int, 3_200_000_000_000_001int);
        }
        let world_normal = trans.times_tuple(&local_normal);
        let v = Tuple::vector(world_normal.x, world_normal.y, world_normal.z);
        let m = v.magnitude();
        if m >= 1 {
            v.normalize()
        } else {
            Tuple::vector(0, 0, 0)
        }
    }

    /// The local hits of the shape's variant for a local-space ray,
    /// in ascending order.
    pub fn local_intersect(&self, r: &Ray) -> (xs: Intersections)
        requires
            shape_wf(self@),
            crate::ray::ray_within(r@, LOCAL_RAY_LIM as int),
        ensures
            xs@ == sort_s(local_hits(self@, r@)),
    {
        let mut v: Vec<Intersection> = Vec::new();
        match self.kind {
            ShapeKind::Sphere => {
                proof {
                    lemma_sphere_quadratic_bounds(r@);
                }
                let s2r = Tuple {
                    x: r.origin.x,
                    y: r.origin.y,
                    z: r.origin.z,
                    w: r.origin.w - SCALE,
                };
                let a = Tuple::dot_product(&r.direction, &r.direction);
                let b = 2 * Tuple::dot_product(&r.direction, &s2r);
                let c = Tuple::dot_product(&s2r, &s2r) - SCALE;
                let d = fx_mul(b, b) - 4 * fx_mul(a, c);
                if a != 0 && d >= 0 {
                    let sq = fx_sqrt(d);
                    proof {
                        crate::fixed::lemma_isqrt_le((d as int * SCALE as int) as nat,
                            3_700_000_000_000_000_000nat);
                    }
                    let t1 = fx_div(-b - sq, 2 * a);
                    let t2 = fx_div(-b + sq, 2 * a);
                    if -T_MAX <= t1 && t1 <= T_MAX {
                        v.push(Intersection { t: t1, object: *self });
                    }
                    if -T_MAX <= t2 && t2 <= T_MAX {
                        v.push(Intersection { t: t2, object: *self });
                    }
                }
                proof {
                    assert(crate::intersection::inters_view(v@)
                        =~= sphere_hits(self@, r@));
                }
            },
            ShapeKind::Plane => {
                if r.direction.y <= -EPSILON || EPSILON <= r.direction.y {
                    let t = fx_div(-r.origin.y, r.direction.y);
                    if -T_MAX <= t && t <= T_MAX {
                        v.push(Intersection { t: t, object: *self });
                    }
                }
                proof {
                    assert(crate::intersection::inters_view(v@)
                        =~= plane_hits(self@, r@));
                }
            },
        }
        Intersections::new(v)
    }

    /// The world hits of the shape: the ray carried to local space by
    /// the stored inverse, then intersected there.
    pub fn intersect(&self, r: &Ray) -> (xs: Intersections)
        requires
            shape_wf(self@),
            tup_within(r@.origin, 60_000_000_000int),
            tup_within(r@.direction, 60_000_000_000int),
        ensures
            xs@ == shape_intersect_s(self@, r@),
    {
        proof {
            crate::matrix::lemma_mul_tuple_bound(self@.inverse, r@.origin,
                80_000_000_000int, 60_000_000_000int);
            crate::matrix::lemma_mul_tuple_bound(self@.inverse, r@.direction,
                80_000_000_000int, 60_000_000_000int);
        }
        let local = r.transform(&self.inverse);
        self.local_intersect(&local)
    }
}

/// The transpose of a bounded matrix is bounded.
pub proof fn lemma_transpose_within(m: MatV, k: int)
    requires
        mat_square(m),
        mat_within(m, k),
        0 <= k,
    ensures
        mat_square(transpose_s(m)),
        transpose_s(m).rows == m.rows,
        mat_within(transpose_s(m), k),
{
    let t = transpose_s(m);
    assert forall|i: int| 0 <= i < 16 implies -k <= #[trigger] t.data[i] <= k by {
        if 0 <= i < m.rows * m.columns {
            crate::matrix::lemma_div_small(i, m.rows);
            crate::matrix::lemma_cell_within(m, i % m.rows, i / m.rows, k);
        }
    }
}

/// The quadratic of the unit sphere stays within the fixed-point
/// operating ranges for a bounded local ray.
proof fn lemma_sphere_quadratic_bounds(r: RayV)
    requires
        crate::ray::ray_within(r, LOCAL_RAY_LIM as int),
    ensures
        ({
            let s2r = Vec4 {
                x: r.origin.x,
                y: r.origin.y,
                z: r.origin.z,
                w: r.origin.w - SCALE as int,
            };
            let a = dot_s(r.direction, r.direction);
            let b = 2 * dot_s(r.direction, s2r);
            let c = dot_s(s2r, s2r) - SCALE as int;
            &&& 0 <= a <= 1_200_000_000_000_000_001int
            &&& -2_400_000_000_000_000_002int <= b <= 2_400_000_000_000_000_002int
            &&& -1_300_000_000_000_000_000int <= c <= 1_300_000_000_000_000_000int
            &&& 0 <= fx_mul_s(b, b) <= 5_800_000_000_000_000_000_000_000_000int
            &&& -1_570_000_000_000_000_000_000_000_000int <= fx_mul_s(a, c)
                <= 1_570_000_000_000_000_000_000_000_000int
            &&& -13_000_000_000_000_000_000_000_000_000int
                <= fx_mul_s(b, b) - 4 * fx_mul_s(a, c)
                <= 13_000_000_000_000_000_000_000_000_000int
        }),
{
    let lim = LOCAL_RAY_LIM as int;
    let s = SCALE as int;
    let s2r = Vec4 {
        x: r.origin.x,
        y: r.origin.y,
        z: r.origin.z,
        w: r.origin.w - s,
    };
    crate::tuple::lemma_square_bound(r.direction.x, lim);
    crate::tuple::lemma_square_bound(r.direction.y, lim);
    crate::tuple::lemma_square_bound(r.direction.z, lim);
    crate::fixed::lemma_rdiv_bound(
        r.direction.x * r.direction.x + r.direction.y * r.direction.y
            + r.direction.z * r.direction.z, s,
        1_200_000_000_000_000_000_000_000_000int);
    vstd::arithmetic::div_mod::lemma_div_pos_is_pos(
        r.direction.x * r.direction.x + r.direction.y * r.direction.y
            + r.direction.z * r.direction.z + s / 2, s);
    crate::tuple::lemma_prod_bound(r.direction.x, s2r.x, lim, lim);
    crate::tuple::lemma_prod_bound(r.direction.y, s2r.y, lim, lim);
    crate::tuple::lemma_prod_bound(r.direction.z, s2r.z, lim, lim);
    crate::fixed::lemma_rdiv_bound(
        r.direction.x * s2r.x + r.direction.y * s2r.y + r.direction.z * s2r.z, s,
        1_200_000_000_000_000_000_000_000_000int);
    crate::tuple::lemma_square_bound(s2r.x, lim);
    crate::tuple::lemma_square_bound(s2r.y, lim);
    crate::tuple::lemma_square_bound(s2r.z, lim);
    crate::fixed::lemma_rdiv_bound(
        s2r.x * s2r.x + s2r.y * s2r.y + s2r.z * s2r.z, s,
        1_200_000_000_000_000_000_000_000_000int);
    let a = dot_s(r.direction, r.direction);
    let b = 2 * dot_s(r.direction, s2r);
    let c = dot_s(s2r, s2r) - s;
    crate::fixed::lemma_fx_mul_s_bound(b, b, 2_400_000_000_000_000_002int,
        2_400_000_000_000_000_002int);
    crate::tuple::lemma_square_bound(b, 2_400_000_000_000_000_002int);
    vstd::arithmetic::div_mod::lemma_div_pos_is_pos(b * b + (SCALE as int) / 2,
        SCALE as int);
    crate::fixed::lemma_fx_mul_s_bound(a, c, 1_200_000_000_000_000_001int,
        1_300_000_000_000_000_000int);
}

} // verus!
