//! Precomputed per-hit state: the hit point, eye and normal vectors,
//! the acne-avoiding offset points, the reflection vector, and the
//! refractive indices on both sides of the surface.

use vstd::prelude::*;
use crate::fixed::EPSILON;
use crate::fixed::SCALE;
use crate::intersection::Intersection;
use crate::intersection::IntersectionV;
use crate::intersection::Intersections;
use crate::intersection::inter_eq_s;
use crate::material::MATL_SCALAR_LIM;
use crate::ray::Ray;
use crate::ray::RayV;
use crate::shape::Shape;
use crate::shape::ShapeV;
use crate::shape::T_MAX;
use crate::shape::normal_at_s;
use crate::shape::shape_eq_s;
use crate::shape::shape_wf;
use crate::tuple::Tuple;
use crate::tuple::Vec4;
use crate::tuple::dot_s;
use crate::tuple::reflect_s;
use crate::tuple::tup_minus;
use crate::tuple::tup_neg;
use crate::tuple::tup_plus;
use crate::tuple::tup_scale;
use crate::tuple::tup_within;

verus! {

/// The mathematical value of the precomputed state.
pub ghost struct CompsV {
    pub t: int,
    pub object: ShapeV,
    pub point: Vec4,
    pub over_point: Vec4,
    pub under_point: Vec4,
    pub eyev: Vec4,
    pub normalv: Vec4,
    pub inside: bool,
    pub reflectv: Vec4,
    pub n1: int,
    pub n2: int,
}

/// Precomputed per-hit state.
#[derive(Debug, Clone, Copy)]
pub struct Comps {
    pub t: i128,
    pub object: Shape,
    pub point: Tuple,
    pub over_point: Tuple,
    pub under_point: Tuple,
    pub eyev: Tuple,
    pub normalv: Tuple,
    pub inside: bool,
    pub reflectv: Tuple,
    pub n1: i128,
    pub n2: i128,
}

impl View for Comps {
    type V = CompsV;

    open spec fn view(&self) -> CompsV {
        CompsV {
            t: self.t as int,
            object: self.object@,
            point: self.point@,
            over_point: self.over_point@,
            under_point: self.under_point@,
            eyev: self.eyev@,
            normalv: self.normalv@,
            inside: self.inside,
            reflectv: self.reflectv@,
            n1: self.n1 as int,
            n2: self.n2 as int,
        }
    }
}

/// Precomputed state the shading pipeline accepts: bounded fields, a
/// well-formed shape, and refractive indices from well-formed
/// materials (or the zero the walk leaves when the hit is absent from
/// its list).
pub open spec fn comps_wf(c: CompsV) -> bool {
    &&& shape_wf(c.object)
    &&& tup_within(c.point, 10_000_000_000_000int)
    &&& c.point.w == SCALE as int
    &&& tup_within(c.over_point, 10_000_000_000_000int)
    &&& tup_within(c.under_point, 10_000_000_000_000int)
    &&& tup_within(c.eyev, 61_000_000_000int)
    &&& tup_within(c.normalv, 3_000_000_000int)
    &&& tup_within(c.reflectv, 3_400_000_000_000int)
    &&& c.normalv.w == 0
    &&& c.over_point.w == SCALE as int
    &&& c.under_point.w == SCALE as int
    &&& (c.n1 == 0 || (SCALE as int) / 10 <= c.n1) && c.n1 <= MATL_SCALAR_LIM as int
    &&& (c.n2 == 0 || (SCALE as int) / 10 <= c.n2) && c.n2 <= MATL_SCALAR_LIM as int
}

/// A ray the world pipeline accepts: a point origin and a vector
/// direction, both inside the representable scene volume.
pub open spec fn world_ray_ok(r: RayV) -> bool {
    &&& tup_within(r.origin, 60_000_000_000int)
    &&& r.origin.w == SCALE as int
    &&& tup_within(r.direction, 60_000_000_000int)
    &&& r.direction.w == 0
}

/// The sequence of views of a vector of shapes.
pub open spec fn shapes_view(s: Seq<Shape>) -> Seq<ShapeV> {
    s.map_values(|x: Shape| x@)
}

/// The index of the first container equal to the shape, or -1.
pub open spec fn first_match(cs: Seq<ShapeV>, o: ShapeV) -> int
    decreases cs.len(),
{
    if cs.len() == 0 {
        -1
    } else if shape_eq_s(cs[0], o) {
        0
    } else {
        let r = first_match(cs.subrange(1, cs.len() as int), o);
        if r == -1 {
            -1
        } else {
            r + 1
        }
    }
}

/// `first_match` returns -1 or a valid index that matches.
pub proof fn lemma_first_match_range(cs: Seq<ShapeV>, o: ShapeV)
    ensures
        -1 <= first_match(cs, o) < cs.len(),
    decreases cs.len(),
{
    if cs.len() > 0 && !shape_eq_s(cs[0], o) {
        lemma_first_match_range(cs.subrange(1, cs.len() as int), o);
    }
}

/// Toggling a shape on the container stack: remove its first
/// occurrence, or push it.
pub open spec fn toggle(cs: Seq<ShapeV>, o: ShapeV) -> Seq<ShapeV> {
    let m = first_match(cs, o);
    if m >= 0 {
        cs.remove(m)
    } else {
        cs.push(o)
    }
}

/// The refractive index of the medium at the top of the container
/// stack; vacuum when the stack is empty.
pub open spec fn stack_index(cs: Seq<ShapeV>) -> int {
    if cs.len() == 0 {
        SCALE as int
    } else {
        cs.last().material.refractive_index
    }
}

/// The walk over the sorted hit list that resolves the refractive
/// indices at the target hit: `n1` is the medium being exited, `n2`
/// the medium being entered; both zero when the target never appears.
pub open spec fn refr_walk(target: IntersectionV, xs: Seq<IntersectionV>, cs: Seq<ShapeV>)
    -> (int, int)
    decreases xs.len(),
{
    if xs.len() == 0 {
        (0, 0)
    } else {
        let cur = xs[0];
        let cs2 = toggle(cs, cur.object);
        if inter_eq_s(target, cur) {
            (stack_index(cs), stack_index(cs2))
        } else {
            refr_walk(target, xs.subrange(1, xs.len() as int), cs2)
        }
    }
}

/// The effective hit list for an optional list argument: the list
/// given, or the target alone.
pub open spec fn effective_list(i: IntersectionV, xs: Option<Intersections>)
    -> Seq<IntersectionV> {
    match xs {
        Option::Some(l) => l@,
        Option::None => seq![i],
    }
}

/// The precomputed state for a hit: the position along the ray, the
/// eye vector, the normal (flipped when the ray starts inside), the
/// offset points one `EPSILON` along the normal on either side, the
/// reflection of the ray direction, and the refractive indices from
/// the container walk.
pub open spec fn prepare_s(i: IntersectionV, r: RayV, xs: Seq<IntersectionV>) -> CompsV {
    let point = crate::ray::ray_pos_s(r, i.t);
    let eyev = tup_neg(r.direction);
    let n0 = normal_at_s(i.object, point);
    let inside = dot_s(n0, eyev) < 0;
    let normalv = if inside {
        tup_neg(n0)
    } else {
        n0
    };
    let over_point = tup_plus(point, tup_scale(normalv, EPSILON as int));
    let under_point = tup_minus(point, tup_scale(normalv, EPSILON as int));
    let reflectv = reflect_s(r.direction, normalv);
    let nn = refr_walk(i, xs, Seq::empty());
    CompsV {
        t: i.t,
        object: i.object,
        point: point,
        over_point: over_point,
        under_point: under_point,
        eyev: eyev,
        normalv: normalv,
        inside: inside,
        reflectv: reflectv,
        n1: nn.0,
        n2: nn.1,
    }
}

/// Every shape of a hit list is well-formed.
pub open spec fn hits_wf(xs: Seq<IntersectionV>) -> bool {
    forall|k: int| 0 <= k < xs.len() ==> shape_wf((#[trigger] xs[k]).object)
}

/// Indices produced by the walk come from well-formed materials or
/// are the absent-target zeros.
pub proof fn lemma_walk_range(target: IntersectionV, xs: Seq<IntersectionV>, cs: Seq<ShapeV>)
    requires
        hits_wf(xs),
        forall|k: int| 0 <= k < cs.len() ==> shape_wf(#[trigger] cs[k]),
    ensures
        refr_walk(target, xs, cs).0 == 0
            || (SCALE as int) / 10 <= refr_walk(target, xs, cs).0,
        refr_walk(target, xs, cs).0 <= MATL_SCALAR_LIM as int,
        refr_walk(target, xs, cs).1 == 0
            || (SCALE as int) / 10 <= refr_walk(target, xs, cs).1,
        refr_walk(target, xs, cs).1 <= MATL_SCALAR_LIM as int,
    decreases xs.len(),
{
    if xs.len() > 0 {
        let cur = xs[0];
        let cs2 = toggle(cs, cur.object);
        lemma_first_match_range(cs, cur.object);
        assert forall|k: int| 0 <= k < cs2.len() implies shape_wf(#[trigger] cs2[k]) by {
            let m = first_match(cs, cur.object);
            if m >= 0 {
                assert(cs.remove(m) =~= cs.subrange(0, m)
                    + cs.subrange(m + 1, cs.len() as int));
                if k < m {
                    assert(cs2[k] == cs[k]);
                } else {
                    assert(cs2[k] == cs[k + 1]);
                }
            } else {
                if k < cs.len() {
                    assert(cs2[k] == cs[k]);
                } else {
                    assert(cs2[k] == cur.object);
                }
            }
        }
        if inter_eq_s(target, cur) {
            if cs.len() > 0 {
                assert(shape_wf(cs[cs.len() - 1]));
            }
            if cs2.len() > 0 {
                assert(shape_wf(cs2[cs2.len() - 1]));
            }
        } else {
            let rest = xs.subrange(1, xs.len() as int);
            assert(hits_wf(rest)) by {
                assert forall|k: int| 0 <= k < rest.len() implies
                    shape_wf((#[trigger] rest[k]).object) by {
                    assert(rest[k] == xs[k + 1]);
                }
            }
            lemma_walk_range(target, rest, cs2);
        }
    }
}

impl Comps {
    /// The precomputed state for a chosen hit, its ray, and the full
    /// sorted hit list (or the hit alone when no list is given).
    #[verifier::rlimit(100)]
    pub fn prepare_computations(i: &Intersection, r: &Ray, xs: Option<Intersections>)
        -> (c: Comps)
        requires
            shape_wf(i@.object),
            -T_MAX <= i.t <= T_MAX,
            world_ray_ok(r@),
            hits_wf(effective_list(i@, xs)),
        ensures
            c@ == prepare_s(i@, r@, effective_list(i@, xs)),
            comps_wf(c@),
    {
        proof {
            crate::fixed::lemma_fx_mul_s_bound(r@.direction.x, i@.t, 60_000_000_000int,
                150_000_000_000int);
            crate::fixed::lemma_fx_mul_s_bound(r@.direction.y, i@.t, 60_000_000_000int,
                150_000_000_000int);
            crate::fixed::lemma_fx_mul_s_bound(r@.direction.z, i@.t, 60_000_000_000int,
                150_000_000_000int);
        }
        let point = r.position(i.t);
        proof {
            assert(tup_within(point@, 10_000_000_000_000int));
            assert(point@.w == SCALE as int) by {
                assert(tup_scale(r@.direction, i@.t).w == 0);
            }
        }
        let eyev = r.direction.neg();
        let n0 = self_normal(&i.object, &point);
        let d = Tuple::dot_product(&n0, &eyev);
        let inside = d < 0;
        let normalv = if inside {
            n0.neg()
        } else {
            n0
        };
        proof {
            crate::fixed::lemma_fx_mul_s_bound(normalv@.x, EPSILON as int,
                3_000_000_000int, EPSILON as int);
            crate::fixed::lemma_fx_mul_s_bound(normalv@.y, EPSILON as int,
                3_000_000_000int, EPSILON as int);
            crate::fixed::lemma_fx_mul_s_bound(normalv@.z, EPSILON as int,
                3_000_000_000int, EPSILON as int);
        }
        let offset = normalv.times(EPSILON);
        let over_point = point.plus(&offset);
        let under_point = point.minus(&offset);
        proof {
            assert(normalv@.w == 0);
            assert(offset@.w == 0);
            assert(over_point@.w == SCALE as int);
            assert(under_point@.w == SCALE as int);
        }
        let reflectv = Tuple::reflect(&r.direction, &normalv);
        proof {
            lemma_world_reflect_bound(r@.direction, normalv@);
        }
        let nn = refractive_indices(i, &xs);
        proof {
            assert(nn.0 == 0 || SCALE / 10 <= nn.0);
            assert(nn.0 <= MATL_SCALAR_LIM);
        }
        let n1 = nn.0;
        let n2 = nn.1;
        let c = Comps {
            t: i.t,
            object: i.object,
            point,
            over_point,
            under_point,
            eyev,
            normalv,
            inside,
            reflectv,
            n1,
            n2,
        };
        proof {
            assert(shape_wf(c@.object));
            assert(tup_within(c@.point, 10_000_000_000_000int));
            assert(c@.point.w == SCALE as int);
            assert(tup_within(c@.over_point, 10_000_000_000_000int));
            assert(tup_within(c@.under_point, 10_000_000_000_000int));
            assert(tup_within(c@.eyev, 61_000_000_000int));
            assert(tup_within(c@.normalv, 3_000_000_000int));
            assert(tup_within(c@.reflectv, 3_400_000_000_000int));
            assert(c@.normalv.w == 0);
            assert(c@.over_point.w == SCALE as int);
            assert(c@.under_point.w == SCALE as int);
            assert((c@.n1 == 0 || (SCALE as int) / 10 <= c@.n1)
                && c@.n1 <= MATL_SCALAR_LIM as int);
            assert((c@.n2 == 0 || (SCALE as int) / 10 <= c@.n2)
                && c@.n2 <= MATL_SCALAR_LIM as int);
        }
        c
    }
}

/// The world normal, with the bound facts the caller needs.
fn self_normal(s: &Shape, p: &Tuple) -> (n: Tuple)
    requires
        shape_wf(s@),
        tup_within(p@, 10_000_000_000_000int),
    ensures
        n@ == normal_at_s(s@, p@),
        tup_within(n@, 3_000_000_000int),
        n@.w == 0,
{
    let n = s.normal_at(p);
    proof {
        assert(n@.w == 0) by {
            let v = crate::tuple::norm_s(Vec4 {
                x: crate::matrix::mul_tuple_s(crate::matrix::transpose_s(s@.inverse),
                    crate::shape::local_normal_s(s@.kind,
                        crate::matrix::mul_tuple_s(s@.inverse, p@))).x,
                y: crate::matrix::mul_tuple_s(crate::matrix::transpose_s(s@.inverse),
                    crate::shape::local_normal_s(s@.kind,
                        crate::matrix::mul_tuple_s(s@.inverse, p@))).y,
                z: crate::matrix::mul_tuple_s(crate::matrix::transpose_s(s@.inverse),
                    crate::shape::local_normal_s(s@.kind,
                        crate::matrix::mul_tuple_s(s@.inverse, p@))).z,
                w: 0,
            });
        }
    }
    n
}

/// The reflection of a scene-bounded direction about a normal is
/// bounded.
proof fn lemma_world_reflect_bound(v: Vec4, n: Vec4)
    requires
        tup_within(v, 60_000_000_000int),
        tup_within(n, 3_000_000_000int),
    ensures
        tup_within(reflect_s(v, n), 3_400_000_000_000int),
{
    crate::tuple::lemma_prod_bound(v.x, n.x, 60_000_000_000int, 3_000_000_000int);
    crate::tuple::lemma_prod_bound(v.y, n.y, 60_000_000_000int, 3_000_000_000int);
    crate::tuple::lemma_prod_bound(v.z, n.z, 60_000_000_000int, 3_000_000_000int);
    crate::fixed::lemma_rdiv_bound(v.x * n.x + v.y * n.y + v.z * n.z, SCALE as int,
        540_000_000_000_000_000_000int);
    let d2 = 2 * dot_s(v, n);
    crate::fixed::lemma_fx_mul_s_bound(n.x, d2, 3_000_000_000int, 1_080_000_000_002int);
    crate::fixed::lemma_fx_mul_s_bound(n.y, d2, 3_000_000_000int, 1_080_000_000_002int);
    crate::fixed::lemma_fx_mul_s_bound(n.z, d2, 3_000_000_000int, 1_080_000_000_002int);
}

/// Walks the sorted hit list, keeping the stack of shapes the ray is
/// currently inside, and resolves the refractive indices at the
/// target hit.
fn refractive_indices(target: &Intersection, xs: &Option<Intersections>) -> (r: (i128, i128))
    requires
        shape_wf(target@.object),
        hits_wf(effective_list(target@, *xs)),
    ensures
        (r.0 as int, r.1 as int) == refr_walk(target@, effective_list(target@, *xs),
            Seq::empty()),
        r.0 == 0 || SCALE / 10 <= r.0,
        r.0 <= MATL_SCALAR_LIM,
        r.1 == 0 || SCALE / 10 <= r.1,
        r.1 <= MATL_SCALAR_LIM,
{
    proof {
        lemma_walk_range(target@, effective_list(target@, *xs), Seq::empty());
    }
    match xs {
        Option::Some(list) => walk_list(target, list),
        Option::None => {
            let single = Intersections::from_one(*target);
            walk_list(target, &single)
        },
    }
}

/// The container walk over a concrete list.
fn walk_list(target: &Intersection, list: &Intersections) -> (r: (i128, i128))
    requires
        shape_wf(target@.object),
        hits_wf(list@),
    ensures
        (r.0 as int, r.1 as int) == refr_walk(target@, list@, Seq::empty()),
{
    let mut containers: Vec<Shape> = Vec::new();
    let mut k: usize = 0;
    let n = list.len();
    proof {
        assert(list@.subrange(0, list@.len() as int) =~= list@);
        assert(shapes_view(containers@) =~= Seq::<ShapeV>::empty());
    }
    while k < n
        invariant
            0 <= k <= n,
            n == list@.len(),
            hits_wf(list@),
            forall|j: int| 0 <= j < containers@.len()
                ==> shape_wf((#[trigger] containers@[j])@),
            refr_walk(target@, list@.subrange(k as int, list@.len() as int),
                shapes_view(containers@)) == refr_walk(target@, list@, Seq::empty()),
            shape_wf(target@.object),
        decreases n - k,
    {
        let ghost pre = shapes_view(containers@);
        let ghost sub = list@.subrange(k as int, list@.len() as int);
        proof {
            assert(sub[0] == list@[k as int]);
            assert(sub.subrange(1, sub.len() as int)
                =~= list@.subrange(k as int + 1, list@.len() as int));
        }
        let cur = *list.get(k);
        let is_target = target.equals(&cur);
        let n1 = stack_top(&containers);
        let m = find_shape(&containers, &cur.object);
        match m {
            Option::Some(idx) => {
                containers.remove(idx);
            },
            Option::None => {
                containers.push(cur.object);
            },
        }
        proof {
            lemma_first_match_range(pre, list@[k as int].object);
            assert(shapes_view(containers@) =~= toggle(pre, list@[k as int].object));
            let cs2 = shapes_view(containers@);
            assert forall|j: int| 0 <= j < containers@.len() implies
                shape_wf((#[trigger] containers@[j])@) by {
                let mm = first_match(pre, list@[k as int].object);
                if mm >= 0 {
                    assert(pre.remove(mm) =~= pre.subrange(0, mm)
                        + pre.subrange(mm + 1, pre.len() as int));
                    if j < mm {
                        assert(cs2[j] == pre[j]);
                    } else {
                        assert(cs2[j] == pre[j + 1]);
                    }
                } else {
                    if j < pre.len() {
                        assert(cs2[j] == pre[j]);
                    }
                }
            }
        }
        if is_target {
            let n2 = stack_top(&containers);
            return (n1, n2);
        }
        k += 1;
    }
    proof {
        assert(list@.subrange(n as int, n as int).len() == 0);
    }
    (0, 0)
}

/// The refractive index at the top of a container stack.
fn stack_top(containers: &Vec<Shape>) -> (r: i128)
    ensures
        r as int == stack_index(shapes_view(containers@)),
{
    if containers.len() == 0 {
        SCALE
    } else {
        let last = containers.len() - 1;
        containers[last].material.refractive_index
    }
}

/// The first index holding a shape equal to the one given.
fn find_shape(containers: &Vec<Shape>, o: &Shape) -> (r: Option<usize>)
    requires
        shape_wf(o@),
        forall|j: int| 0 <= j < containers@.len() ==> shape_wf((#[trigger] containers@[j])@),
    ensures
        match r {
            Option::Some(idx) => idx < containers@.len()
                && first_match(shapes_view(containers@), o@) == idx as int,
            Option::None => first_match(shapes_view(containers@), o@) == -1,
        },
{
    let mut j: usize = 0;
    while j < containers.len()
        invariant
            0 <= j <= containers@.len(),
            forall|k: int| 0 <= k < j
                ==> !shape_eq_s((#[trigger] shapes_view(containers@)[k]), o@),
            shape_wf(o@),
            forall|jj: int| 0 <= jj < containers@.len()
                ==> shape_wf((#[trigger] containers@[jj])@),
        decreases containers@.len() - j,
    {
        if containers[j].shape_eq(o) {
            proof {
                lemma_first_match_at(shapes_view(containers@), o@, j as int);
            }
            return Some(j);
        }
        j += 1;
    }
    proof {
        lemma_first_match_none(shapes_view(containers@), o@);
    }
    None
}

/// A scan that found a match at `j`, with no match before it, found
/// the first match.
pub proof fn lemma_first_match_at(cs: Seq<ShapeV>, o: ShapeV, j: int)
    requires
        0 <= j < cs.len(),
        shape_eq_s(cs[j], o),
        forall|k: int| 0 <= k < j ==> !shape_eq_s(#[trigger] cs[k], o),
    ensures
        first_match(cs, o) == j,
    decreases j,
{
    if j == 0 {
    } else {
        let rest = cs.subrange(1, cs.len() as int);
        assert(rest[j - 1] == cs[j]);
        assert forall|k: int| 0 <= k < j - 1 implies !shape_eq_s(#[trigger] rest[k], o) by {
            assert(rest[k] == cs[k + 1]);
        }
        lemma_first_match_at(rest, o, j - 1);
    }
}

/// A scan that found no match anywhere reports none.
pub proof fn lemma_first_match_none(cs: Seq<ShapeV>, o: ShapeV)
    requires
        forall|k: int| 0 <= k < cs.len() ==> !shape_eq_s(#[trigger] cs[k], o),
    ensures
        first_match(cs, o) == -1,
    decreases cs.len(),
{
    if cs.len() > 0 {
        let rest = cs.subrange(1, cs.len() as int);
        assert forall|k: int| 0 <= k < rest.len() implies !shape_eq_s(#[trigger] rest[k], o) by {
            assert(rest[k] == cs[k + 1]);
        }
        lemma_first_match_none(rest, o);
    }
}

} // verus!
