//! The scene: an optional light and a shape list, with ray-scene
//! intersection, shadow testing, and the recursive color resolution
//! with reflection, refraction and Fresnel blending.
//!
//! The bounce budget is the only guard against unbounded recursion:
//! every recursive call is proved to consume budget, so `color_at`
//! terminates for any finite budget.

use vstd::prelude::*;
use crate::color::Color;
use crate::color::Rgb;
use crate::color::black_s;
use crate::color::col_clamp;
use crate::color::col_plus;
use crate::color::col_scale;
use crate::color::col_within;
use crate::comps::Comps;
use crate::comps::CompsV;
use crate::comps::comps_wf;
use crate::comps::hits_wf;
use crate::comps::prepare_s;
use crate::comps::shapes_view;
use crate::comps::world_ray_ok;
use crate::fixed::SCALE;
use crate::fixed::fx_div;
use crate::fixed::fx_div_s;
use crate::fixed::fx_mul;
use crate::fixed::fx_mul_s;
use crate::fixed::fx_sqrt;
use crate::fixed::fx_sqrt_s;
use crate::intersection::Intersection;
use crate::intersection::IntersectionV;
use crate::intersection::Intersections;
use crate::intersection::hit_s;
use crate::intersection::inters_view;
use crate::intersection::sort_s;
use crate::intersection::sorted_s;
use crate::light::LightV;
use crate::light::PointLight;
use crate::light::light_wf;
use crate::material::lighting_s;
use crate::material::pow_s;
use crate::ray::Ray;
use crate::ray::RayV;
use crate::shape::Shape;
use crate::shape::ShapeV;
use crate::shape::shape_intersect_s;
use crate::shape::shape_wf;
use crate::shape::t_ok;
use crate::tuple::Tuple;
use crate::tuple::Vec4;
use crate::tuple::dot_s;
use crate::tuple::tup_minus;
use crate::tuple::tup_scale;
use crate::tuple::norm_s;
use crate::tuple::mag_s;

verus! {

/// Clamp applied to the color a secondary ray contributes:
/// contributions beyond this brightness saturate.
pub const CHAN_LIM: i128 = 100_000_000_000_000_000_000;

/// Bound on the channels any shading call returns.
pub const SHADE_LIM: i128 = 7_000_000_000_000_000_000_000;

/// The mathematical value of a world.
pub ghost struct WorldV {
    pub light: Option<LightV>,
    pub shapes: Seq<ShapeV>,
}

/// The scene: an optional point light and the shape list.
#[derive(Debug)]
pub struct World {
    pub light: Option<PointLight>,
    pub shapes: Vec<Shape>,
}

impl View for World {
    type V = WorldV;

    open spec fn view(&self) -> WorldV {
        WorldV {
            light: match self.light {
                Option::Some(l) => Option::Some(l@),
                Option::None => Option::None,
            },
            shapes: shapes_view(self.shapes@),
        }
    }
}

/// A world the pipeline accepts: a well-formed light, if any, and
/// well-formed shapes.
pub open spec fn world_wf(w: WorldV) -> bool {
    &&& match w.light {
        Option::Some(l) => light_wf(l),
        Option::None => true,
    }
    &&& forall|k: int| 0 <= k < w.shapes.len() ==> shape_wf(#[trigger] w.shapes[k])
}

/// The hits of the first `k` shapes, in shape order.
pub open spec fn hits_pref_s(shapes: Seq<ShapeV>, r: RayV, k: int) -> Seq<IntersectionV>
    decreases k,
{
    if k <= 0 {
        Seq::empty()
    } else {
        hits_pref_s(shapes, r, k - 1) + shape_intersect_s(shapes[k - 1], r)
    }
}

/// The scene intersection: every shape's hits collected and sorted
/// ascending; empty for a ray outside the representable volume.
pub open spec fn world_intersect_s(w: WorldV, r: RayV) -> Seq<IntersectionV> {
    if !world_ray_ok(r) {
        Seq::empty()
    } else {
        sort_s(hits_pref_s(w.shapes, r, w.shapes.len() as int))
    }
}

/// Whether a point is shadowed: a hit on the way to the light,
/// strictly closer than the light itself.  A point out of the
/// representable volume, or one at the light itself, is unshadowed.
pub open spec fn is_shadowed_s(w: WorldV, p: Vec4) -> bool {
    match w.light {
        Option::None => false,
        Option::Some(l) => {
            let v = tup_minus(l.position, p);
            if mag_s(v) < 1 {
                false
            } else {
                let ray = RayV { origin: p, direction: norm_s(v) };
                match hit_s(world_intersect_s(w, ray)) {
                    Option::Some(h) => h.t < mag_s(v),
                    Option::None => false,
                }
            }
        },
    }
}

/// A fixed-point value clamped into the unit interval.
pub open spec fn clamp01(v: int) -> int {
    if v < 0 {
        0
    } else if v > SCALE as int {
        SCALE as int
    } else {
        v
    }
}

/// The Schlick approximation of the Fresnel reflectance, clamped to
/// the unit interval: one under total internal reflection, else
/// `r0 + (1 - r0) * (1 - cos)^5` with the transmitted cosine in place
/// of the incident one when exiting into a lighter medium.
pub open spec fn schlick_s(c: CompsV) -> int {
    let cos0 = dot_s(c.eyev, c.normalv);
    if c.n1 > c.n2 {
        if c.n2 == 0 {
            SCALE as int
        } else {
            let n = fx_div_s(c.n1, c.n2);
            let sin2_t = fx_mul_s(fx_mul_s(n, n), SCALE as int - fx_mul_s(cos0, cos0));
            if sin2_t > SCALE as int {
                SCALE as int
            } else {
                schlick_r0_s(c.n1, c.n2, fx_sqrt_s(SCALE as int - sin2_t))
            }
        }
    } else {
        schlick_r0_s(c.n1, c.n2, cos0)
    }
}

/// The reflectance from the base reflectance of the index pair and
/// the chosen cosine.
pub open spec fn schlick_r0_s(n1: int, n2: int, cos: int) -> int {
    let q = if n1 + n2 == 0 {
        0
    } else {
        fx_div_s(n1 - n2, n1 + n2)
    };
    let r0 = fx_mul_s(q, q);
    clamp01(r0 + fx_mul_s(SCALE as int - r0, pow_s(clamp01(SCALE as int - cos), 5)))
}

/// The color a hit contributes: surface lighting plus the reflected
/// and refracted contributions, Fresnel-blended when the material is
/// both reflective and transparent; black without a light or budget.
pub open spec fn shade_hit_s(w: WorldV, c: CompsV, remaining: nat) -> Rgb
    decreases remaining, 0int,
{
    match w.light {
        Option::None => black_s(),
        Option::Some(l) => {
            if remaining == 0 {
                black_s()
            } else {
                let shadowed = is_shadowed_s(w, c.over_point);
                let surface = lighting_s(c.object.material, c.object.inverse, l, c.point,
                    c.eyev, c.normalv, shadowed);
                let reflected = reflected_color_s(w, c, (remaining - 1) as nat);
                let refracted = refracted_color_s(w, c, (remaining - 1) as nat);
                if c.object.material.reflective > 0 && c.object.material.transparency > 0 {
                    let reflectance = schlick_s(c);
                    col_plus(col_plus(surface, col_scale(reflected, reflectance)),
                        col_scale(refracted, SCALE as int - reflectance))
                } else {
                    col_plus(col_plus(surface, reflected), refracted)
                }
            }
        },
    }
}

/// The reflected contribution: the color along the reflection ray
/// from just above the surface, scaled by the reflectivity; black for
/// a dull material or an exhausted budget.
pub open spec fn reflected_color_s(w: WorldV, c: CompsV, remaining: nat) -> Rgb
    decreases remaining, 2int,
{
    if c.object.material.reflective == 0 || remaining == 0 {
        black_s()
    } else {
        let ray = RayV { origin: c.over_point, direction: c.reflectv };
        col_scale(col_clamp(color_at_s(w, ray, remaining), CHAN_LIM as int),
            c.object.material.reflective)
    }
}

/// The refracted contribution by Snell's law: black for an opaque
/// material, an exhausted budget, or total internal reflection; else
/// the color along the refracted ray from just under the surface,
/// scaled by the transparency.
pub open spec fn refracted_color_s(w: WorldV, c: CompsV, remaining: nat) -> Rgb
    decreases remaining, 2int,
{
    if c.object.material.transparency == 0 || remaining == 0 {
        black_s()
    } else if c.n2 == 0 {
        black_s()
    } else {
        let n_ratio = fx_div_s(c.n1, c.n2);
        let cos_i = dot_s(c.eyev, c.normalv);
        let sin2_t = fx_mul_s(fx_mul_s(n_ratio, n_ratio),
            SCALE as int - fx_mul_s(cos_i, cos_i));
        if sin2_t > SCALE as int {
            black_s()
        } else {
            let cos_t = fx_sqrt_s(SCALE as int - sin2_t);
            let direction = tup_minus(
                tup_scale(c.normalv, fx_mul_s(n_ratio, cos_i) - cos_t),
                tup_scale(c.eyev, n_ratio));
            let ray = RayV { origin: c.under_point, direction: direction };
            col_scale(col_clamp(color_at_s(w, ray, (remaining - 1) as nat), CHAN_LIM as int),
                c.object.material.transparency)
        }
    }
}

/// The color seen along a ray: black when nothing is hit, else the
/// shaded color of the nearest visible hit.
pub open spec fn color_at_s(w: WorldV, r: RayV, remaining: nat) -> Rgb
    decreases remaining, 1int,
{
    let xs = world_intersect_s(w, r);
    match hit_s(xs) {
        Option::None => black_s(),
        Option::Some(h) => shade_hit_s(w, prepare_s(h, r, xs), remaining),
    }
}

/// Whether a ray lies within the representable scene volume.
fn ray_ok_check(r: &Ray) -> (ok: bool)
    ensures
        ok == world_ray_ok(r@),
{
    let o = &r.origin;
    let d = &r.direction;
    -60_000_000_000 <= o.x && o.x <= 60_000_000_000
        && -60_000_000_000 <= o.y && o.y <= 60_000_000_000
        && -60_000_000_000 <= o.z && o.z <= 60_000_000_000
        && o.w == SCALE
        && -60_000_000_000 <= d.x && d.x <= 60_000_000_000
        && -60_000_000_000 <= d.y && d.y <= 60_000_000_000
        && -60_000_000_000 <= d.z && d.z <= 60_000_000_000
        && d.w == 0
}

/// Every record of a sorted scene intersection has a well-formed
/// shape of the world and a distance within the horizon.
pub proof fn lemma_world_hits_props(w: WorldV, r: RayV)
    requires
        world_wf(w),
    ensures
        hits_wf(world_intersect_s(w, r)),
        forall|k: int| 0 <= k < world_intersect_s(w, r).len()
            ==> t_ok((#[trigger] world_intersect_s(w, r)[k]).t),
        sorted_s(world_intersect_s(w, r)),
{
    broadcast use vstd::seq_lib::group_to_multiset_ensures;

    if !world_ray_ok(r) {
        assert(world_intersect_s(w, r) =~= Seq::empty());
    } else {
        let all = hits_pref_s(w.shapes, r, w.shapes.len() as int);
        lemma_hits_pref_props(w.shapes, r, w.shapes.len() as int);
        crate::intersection::lemma_sort_sorted(all);
        let sorted = sort_s(all);
        assert forall|k: int| 0 <= k < sorted.len() implies
            shape_wf((#[trigger] sorted[k]).object) && t_ok(sorted[k].t) by {
            assert(sorted.contains(sorted[k]));
            assert(sorted.to_multiset().count(sorted[k]) > 0);
            assert(all.to_multiset().count(sorted[k]) > 0);
            assert(all.contains(sorted[k]));
            let j = choose|j: int| 0 <= j < all.len() && all[j] == sorted[k];
        }
    }
}

/// Every record of the concatenated per-shape hits has a well-formed
/// shape of the world and a distance within the horizon.
proof fn lemma_hits_pref_props(shapes: Seq<ShapeV>, r: RayV, k: int)
    requires
        0 <= k <= shapes.len(),
        forall|j: int| 0 <= j < shapes.len() ==> shape_wf(#[trigger] shapes[j]),
    ensures
        forall|i: int| 0 <= i < hits_pref_s(shapes, r, k).len()
            ==> shape_wf((#[trigger] hits_pref_s(shapes, r, k)[i]).object)
                && t_ok(hits_pref_s(shapes, r, k)[i].t),
    decreases k,
{
    broadcast use vstd::seq_lib::group_to_multiset_ensures;

    if k > 0 {
        lemma_hits_pref_props(shapes, r, k - 1);
        let pre = hits_pref_s(shapes, r, k - 1);
        let s = shapes[k - 1];
        let local = crate::shape::local_hits(s, crate::ray::ray_transform_s(r, s.inverse));
        lemma_local_hits_props(s, crate::ray::ray_transform_s(r, s.inverse));
        crate::intersection::lemma_sort_sorted(local);
        let mine = shape_intersect_s(s, r);
        assert forall|i: int| 0 <= i < mine.len() implies
            shape_wf((#[trigger] mine[i]).object) && t_ok(mine[i].t) by {
            assert(mine.contains(mine[i]));
            assert(mine.to_multiset().count(mine[i]) > 0);
            assert(local.to_multiset().count(mine[i]) > 0);
            assert(local.contains(mine[i]));
            let j = choose|j: int| 0 <= j < local.len() && local[j] == mine[i];
        }
        assert forall|i: int| 0 <= i < hits_pref_s(shapes, r, k).len() implies
            shape_wf((#[trigger] hits_pref_s(shapes, r, k)[i]).object)
                && t_ok(hits_pref_s(shapes, r, k)[i].t) by {
            if i < pre.len() {
                assert(hits_pref_s(shapes, r, k)[i] == pre[i]);
            } else {
                assert(hits_pref_s(shapes, r, k)[i] == mine[i - pre.len()]);
            }
        }
    }
}

/// Every local hit carries the shape itself and a distance within the
/// horizon.
proof fn lemma_local_hits_props(s: ShapeV, local: RayV)
    ensures
        forall|i: int| 0 <= i < crate::shape::local_hits(s, local).len()
            ==> (#[trigger] crate::shape::local_hits(s, local)[i]).object == s
                && t_ok(crate::shape::local_hits(s, local)[i].t),
{
    let hs = crate::shape::local_hits(s, local);
    assert forall|i: int| 0 <= i < hs.len() implies
        (#[trigger] hs[i]).object == s && t_ok(hs[i].t) by {
        match s.kind {
            crate::shape::ShapeKind::Sphere => {},
            crate::shape::ShapeKind::Plane => {},
        }
    }
}

impl World {
    /// A world from an optional light and a shape list.
    pub fn new(light: Option<PointLight>, shapes: Vec<Shape>) -> (w: World)
        requires
            (light matches Option::Some(l) ==> light_wf(l@)),
            forall|k: int| 0 <= k < shapes@.len() ==> shape_wf((#[trigger] shapes@[k])@),
        ensures
            w@.light == (match light {
                Option::Some(l) => Option::Some(l@),
                Option::None => Option::<LightV>::None,
            }),
            w@.shapes == shapes_view(shapes@),
            world_wf(w@),
    {
        let w = World { light, shapes };
        proof {
            assert forall|k: int| 0 <= k < w@.shapes.len() implies
                shape_wf(#[trigger] w@.shapes[k]) by {
                assert(w@.shapes[k] == w.shapes@[k]@);
            }
        }
        w
    }

    /// The scene intersection: every shape's hits, sorted ascending.
    pub fn intersect(&self, r: &Ray) -> (xs: Intersections)
        requires
            world_wf(self@),
        ensures
            xs@ == world_intersect_s(self@, r@),
            sorted_s(xs@),
            hits_wf(xs@),
            forall|k: int| 0 <= k < xs@.len() ==> t_ok((#[trigger] xs@[k]).t),
    {
        proof {
            lemma_world_hits_props(self@, r@);
        }
        if !ray_ok_check(r) {
            let e = Intersections::new(Vec::new());
            proof {
                assert(inters_view(Seq::<Intersection>::empty()) =~= Seq::<
                    IntersectionV,
                >::empty());
                assert(e@ =~= Seq::<IntersectionV>::empty());
            }
            return e;
        }
        let mut v: Vec<Intersection> = Vec::new();
        let mut i: usize = 0;
        proof {
            assert(inters_view(v@) =~= hits_pref_s(self@.shapes, r@, 0));
        }
        while i < self.shapes.len()
            invariant
                0 <= i <= self.shapes@.len(),
                world_wf(self@),
                self@.shapes.len() == self.shapes@.len(),
                world_ray_ok(r@),
                inters_view(v@) == hits_pref_s(self@.shapes, r@, i as int),
            decreases self.shapes@.len() - i,
        {
            let shape = &self.shapes[i];
            proof {
                assert(shape@ == self@.shapes[i as int]);
            }
            let hits = shape.intersect(r);
            let n = hits.len();
            let mut j: usize = 0;
            while j < n
                invariant
                    0 <= j <= n,
                    n == hits@.len(),
                    hits@ == shape_intersect_s(self@.shapes[i as int], r@),
                    0 <= i < self@.shapes.len(),
                    inters_view(v@) == hits_pref_s(self@.shapes, r@, i as int)
                        + hits@.subrange(0, j as int),
                decreases n - j,
            {
                let x = *hits.get(j);
                let ghost vpre = v@;
                v.push(x);
                proof {
                    assert(v@ =~= vpre.push(x));
                    assert(inters_view(v@) =~= inters_view(vpre).push(x@));
                    assert(hits@.subrange(0, j as int + 1)
                        =~= hits@.subrange(0, j as int).push(hits@[j as int]));
                    assert(inters_view(v@) =~= hits_pref_s(self@.shapes, r@, i as int)
                        + hits@.subrange(0, j as int + 1));
                }
                j += 1;
            }
            proof {
                assert(hits@.subrange(0, n as int) =~= hits@);
                assert(inters_view(v@) =~= hits_pref_s(self@.shapes, r@, i as int + 1));
            }
            i += 1;
        }
        Intersections::new(v)
    }

    /// Whether a point is shadowed from the world's light.
    pub fn is_shadowed(&self, point: &Tuple) -> (r: bool)
        requires
            world_wf(self@),
            crate::tuple::tup_within(point@, 10_000_000_000_000int),
            point@.w == SCALE as int,
        ensures
            r == is_shadowed_s(self@, point@),
    {
        match &self.light {
            Option::None => false,
            Option::Some(l) => {
                let v = l.position.minus(point);
                let distance = v.magnitude();
                if distance < 1 {
                    return false;
                }
                let direction = v.normalize();
                let ray = Ray::new(point, &direction);
                let xs = self.intersect(&ray);
                match xs.hit() {
                    Option::Some(h) => h.t < distance,
                    Option::None => false,
                }
            },
        }
    }
}

/// A fixed-point value clamped into the unit interval.
fn clamp01_exec(v: i128) -> (r: i128)
    ensures
        r as int == clamp01(v as int),
        0 <= r <= SCALE,
{
    if v < 0 {
        0
    } else if v > SCALE {
        SCALE
    } else {
        v
    }
}

/// The Schlick approximation of the Fresnel reflectance, clamped to
/// the unit interval.
pub fn schlick(comps: &Comps) -> (r: i128)
    requires
        comps_wf(comps@),
    ensures
        r as int == schlick_s(comps@),
        0 <= r <= SCALE,
{
    proof {
        lemma_cos_bound(comps@.eyev, comps@.normalv);
    }
    let cos0 = Tuple::dot_product(&comps.eyev, &comps.normalv);
    if comps.n1 > comps.n2 {
        if comps.n2 == 0 {
            return SCALE;
        }
        proof {
            crate::fixed::lemma_fx_div_s_bound_ge(comps@.n1, comps@.n2,
                10_000_000_000int, 100_000_000int);
        }
        let n = fx_div(comps.n1, comps.n2);
        proof {
            crate::fixed::lemma_fx_mul_s_bound(n as int, n as int, 100_000_000_001int,
                100_000_000_001int);
            crate::fixed::lemma_fx_mul_s_bound(cos0 as int, cos0 as int,
                560_000_000_000int, 560_000_000_000int);
        }
        let c2 = fx_mul(cos0, cos0);
        let nn = fx_mul(n, n);
        proof {
            crate::fixed::lemma_fx_mul_s_bound(nn as int, SCALE as int - c2 as int,
                10_000_200_002int * 1_000int, 314_600_000_001int * 1_000int);
        }
        let sin2_t = fx_mul(nn, SCALE - c2);
        if sin2_t > SCALE {
            return SCALE;
        }
        proof {
            crate::fixed::lemma_isqrt_le(((SCALE as int - sin2_t as int)
                * SCALE as int) as nat, 66_000_000_000_000_000nat);
        }
        let cos_t = fx_sqrt(SCALE - sin2_t);
        schlick_r0(comps.n1, comps.n2, cos_t)
    } else {
        schlick_r0(comps.n1, comps.n2, cos0)
    }
}

/// The reflectance from the base reflectance of the index pair and
/// the chosen cosine.
fn schlick_r0(n1: i128, n2: i128, cos: i128) -> (r: i128)
    requires
        n1 == 0 || SCALE / 10 <= n1,
        n2 == 0 || SCALE / 10 <= n2,
        0 <= n1 <= 10_000_000_000,
        0 <= n2 <= 10_000_000_000,
        -100_000_000_000_000_000i128 <= cos <= 100_000_000_000_000_000i128,
    ensures
        r as int == schlick_r0_s(n1 as int, n2 as int, cos as int),
        0 <= r <= SCALE,
{
    let q = if n1 + n2 == 0 {
        0
    } else {
        proof {
            crate::fixed::lemma_fx_div_s_bound_ge(n1 as int - n2 as int,
                n1 as int + n2 as int, 10_000_000_000int, 100_000_000int);
        }
        fx_div(n1 - n2, n1 + n2)
    };
    proof {
        crate::fixed::lemma_fx_mul_s_bound(q as int, q as int, 100_000_000_001int,
            100_000_000_001int);
    }
    let r0 = fx_mul(q, q);
    let base = clamp01_exec(SCALE - cos);
    let p5 = crate::material::fx_pow(base, 5);
    proof {
        crate::material::lemma_pow_unit(base as int, 5nat);
        crate::fixed::lemma_fx_mul_s_bound(SCALE as int - r0 as int, p5 as int,
            11_000_200_003int * 1_000int, SCALE as int);
    }
    let t = r0 + fx_mul(SCALE - r0, p5);
    clamp01_exec(t)
}

/// The cosine between bounded eye and normal vectors is bounded.
proof fn lemma_cos_bound(eyev: Vec4, normalv: Vec4)
    requires
        crate::tuple::tup_within(eyev, 61_000_000_000int),
        crate::tuple::tup_within(normalv, 3_000_000_000int),
    ensures
        -560_000_000_000int <= dot_s(eyev, normalv) <= 560_000_000_000int,
{
    crate::tuple::lemma_prod_bound(eyev.x, normalv.x, 61_000_000_000int, 3_000_000_000int);
    crate::tuple::lemma_prod_bound(eyev.y, normalv.y, 61_000_000_000int, 3_000_000_000int);
    crate::tuple::lemma_prod_bound(eyev.z, normalv.z, 61_000_000_000int, 3_000_000_000int);
    crate::fixed::lemma_rdiv_bound(eyev.x * normalv.x + eyev.y * normalv.y
        + eyev.z * normalv.z, SCALE as int, 549_000_000_000_000_000_000int);
}

impl World {
    /// The color a hit contributes: surface lighting plus the
    /// reflected and refracted contributions, Fresnel-blended when the
    /// material is both reflective and transparent.
    pub fn shade_hit(&self, comps: &Comps, remaining: u8) -> (c: Color)
        requires
            world_wf(self@),
            comps_wf(comps@),
        ensures
            c@ == shade_hit_s(self@, comps@, remaining as nat),
            col_within(c@, SHADE_LIM as int),
        decreases remaining as int, 0int,
    {
        match &self.light {
            Option::None => Color::black(),
            Option::Some(l) => {
                if remaining == 0 {
                    return Color::black();
                }
                let light = *l;
                let shadowed = self.is_shadowed(&comps.over_point);
                let material = comps.object.material;
                let surface = material.lighting(&comps.object, &light, &comps.point,
                    &comps.eyev, &comps.normalv, shadowed);
                proof {
                    crate::material::lemma_lighting_bound(comps@.object.material,
                        comps@.object.inverse, light@, comps@.point, comps@.eyev,
                        comps@.normalv, shadowed);
                }
                let reflected = self.reflected_color(comps, remaining - 1);
                let refracted = self.refracted_color(comps, remaining - 1);
                if material.reflective > 0 && material.transparency > 0 {
                    let reflectance = schlick(comps);
                    proof {
                        crate::color::lemma_col_scale_bound(
                            crate::color::col_clamp(color_at_s(self@, RayV {
                                origin: comps@.over_point,
                                direction: comps@.reflectv,
                            }, (remaining - 1) as nat), CHAN_LIM as int),
                            comps@.object.material.reflective, CHAN_LIM as int,
                            SCALE as int);
                        crate::color::lemma_col_scale_bound(reflected@,
                            reflectance as int, 200_000_000_000_000_000_000int,
                            SCALE as int);
                        crate::color::lemma_col_scale_bound(refracted@,
                            SCALE as int - reflectance as int,
                            200_000_000_000_000_000_000int, SCALE as int);
                    }
                    surface.plus(&reflected.times(reflectance)).plus(
                        &refracted.times(SCALE - reflectance))
                } else {
                    surface.plus(&reflected).plus(&refracted)
                }
            },
        }
    }

    /// The reflected contribution: the color along the reflection ray
    /// from just above the surface, scaled by the reflectivity.
    pub fn reflected_color(&self, comps: &Comps, remaining: u8) -> (c: Color)
        requires
            world_wf(self@),
            comps_wf(comps@),
        ensures
            c@ == reflected_color_s(self@, comps@, remaining as nat),
            col_within(c@, 200_000_000_000_000_000_000int),
        decreases remaining as int, 2int,
    {
        if comps.object.material.reflective == 0 || remaining == 0 {
            return Color::black();
        }
        let ray = Ray::new(&comps.over_point, &comps.reflectv);
        let col = self.color_at(&ray, remaining);
        let clamped = col.clamp_channels(CHAN_LIM);
        proof {
            crate::color::lemma_col_scale_bound(clamped@,
                comps@.object.material.reflective, CHAN_LIM as int, SCALE as int);
        }
        clamped.times(comps.object.material.reflective)
    }

    /// The refracted contribution by Snell's law, black under total
    /// internal reflection.
    pub fn refracted_color(&self, comps: &Comps, remaining: u8) -> (c: Color)
        requires
            world_wf(self@),
            comps_wf(comps@),
        ensures
            c@ == refracted_color_s(self@, comps@, remaining as nat),
            col_within(c@, 200_000_000_000_000_000_000int),
        decreases remaining as int, 2int,
    {
        if comps.object.material.transparency == 0 || remaining == 0 {
            return Color::black();
        }
        if comps.n2 == 0 {
            return Color::black();
        }
        proof {
            crate::fixed::lemma_fx_div_s_bound_ge(comps@.n1, comps@.n2,
                10_000_000_000int, 100_000_000int);
            lemma_cos_bound(comps@.eyev, comps@.normalv);
        }
        let n_ratio = fx_div(comps.n1, comps.n2);
        let cos_i = Tuple::dot_product(&comps.eyev, &comps.normalv);
        proof {
            crate::fixed::lemma_fx_mul_s_bound(n_ratio as int, n_ratio as int,
                100_000_000_001int, 100_000_000_001int);
            crate::fixed::lemma_fx_mul_s_bound(cos_i as int, cos_i as int,
                560_000_000_000int, 560_000_000_000int);
        }
        let c2 = fx_mul(cos_i, cos_i);
        let nn = fx_mul(n_ratio, n_ratio);
        proof {
            crate::fixed::lemma_fx_mul_s_bound(nn as int, SCALE as int - c2 as int,
                10_000_200_002int * 1_000int, 314_600_000_001int * 1_000int);
        }
        let sin2_t = fx_mul(nn, SCALE - c2);
        if sin2_t > SCALE {
            return Color::black();
        }
        proof {
            crate::fixed::lemma_isqrt_le(((SCALE as int - sin2_t as int)
                * SCALE as int) as nat, 66_000_000_000_000_000nat);
        }
        let cos_t = fx_sqrt(SCALE - sin2_t);
        proof {
            crate::fixed::lemma_fx_mul_s_bound(n_ratio as int, cos_i as int,
                100_000_000_001int, 560_000_000_000int);
        }
        let f = fx_mul(n_ratio, cos_i) - cos_t;
        let dirn = comps.normalv.times(f);
        let eyepart = comps.eyev.times(n_ratio);
        proof {
            crate::fixed::lemma_fx_mul_s_bound(comps@.normalv.x, f as int,
                3_000_000_000int, 122_000_000_000_000_000int);
            crate::fixed::lemma_fx_mul_s_bound(comps@.normalv.y, f as int,
                3_000_000_000int, 122_000_000_000_000_000int);
            crate::fixed::lemma_fx_mul_s_bound(comps@.normalv.z, f as int,
                3_000_000_000int, 122_000_000_000_000_000int);
            crate::fixed::lemma_fx_mul_s_bound(comps@.eyev.x, n_ratio as int,
                61_000_000_000int, 100_000_000_001int);
            crate::fixed::lemma_fx_mul_s_bound(comps@.eyev.y, n_ratio as int,
                61_000_000_000int, 100_000_000_001int);
            crate::fixed::lemma_fx_mul_s_bound(comps@.eyev.z, n_ratio as int,
                61_000_000_000int, 100_000_000_001int);
        }
        let direction = dirn.minus(&eyepart);
        let ray = Ray::new(&comps.under_point, &direction);
        let col = self.color_at(&ray, remaining - 1);
        let clamped = col.clamp_channels(CHAN_LIM);
        proof {
            crate::color::lemma_col_scale_bound(clamped@,
                comps@.object.material.transparency, CHAN_LIM as int, SCALE as int);
        }
        clamped.times(comps.object.material.transparency)
    }

    /// The color seen along a ray: black when nothing is hit, else the
    /// shaded color of the nearest visible hit.
    pub fn color_at(&self, r: &Ray, remaining: u8) -> (c: Color)
        requires
            world_wf(self@),
        ensures
            c@ == color_at_s(self@, r@, remaining as nat),
            col_within(c@, SHADE_LIM as int),
        decreases remaining as int, 1int,
    {
        let xs = self.intersect(r);
        let h = xs.hit();
        match h {
            Option::None => Color::black(),
            Option::Some(hh) => {
                proof {
                    if !world_ray_ok(r@) {
                        assert(xs@ =~= Seq::<IntersectionV>::empty());
                    }
                    crate::intersection::lemma_hit_min(xs@);
                    let w = choose|i: int| 0 <= i < xs@.len() && xs@[i] == hh@;
                    assert(shape_wf(hh@.object) && t_ok(hh@.t));
                }
                let comps = Comps::prepare_computations(&hh, r, Option::Some(xs));
                self.shade_hit(&comps, remaining)
            },
        }
    }
}


} // verus!
