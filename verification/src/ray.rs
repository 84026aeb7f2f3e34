//! Rays: an origin point and a direction vector, with parametric
//! position and transformation by a matrix.

use vstd::prelude::*;
use crate::fixed::fx_mul;
use crate::matrix::MAT_MUL_LIM;
use crate::matrix::MatV;
use crate::matrix::Matrix;
use crate::matrix::mat_square;
use crate::matrix::mat_within;
use crate::matrix::mul_tuple_s;
use crate::tuple::Tuple;
use crate::tuple::Vec4;
use crate::tuple::tup_plus;
use crate::tuple::tup_scale;
use crate::tuple::tup_within;

verus! {

/// Component bound accepted by the ray operations.
pub const RAY_LIM: i128 = 1_000_000_000_000_000_000;

/// The mathematical value of a ray: its origin and direction.
pub ghost struct RayV {
    pub origin: Vec4,
    pub direction: Vec4,
}

/// A ray: an origin point and a direction vector.
#[derive(Debug, Clone, Copy)]
pub struct Ray {
    pub origin: Tuple,
    pub direction: Tuple,
}

impl View for Ray {
    type V = RayV;

    open spec fn view(&self) -> RayV {
        RayV { origin: self.origin@, direction: self.direction@ }
    }
}

/// Both the origin and the direction lie within `m` units of zero.
pub open spec fn ray_within(r: RayV, m: int) -> bool {
    tup_within(r.origin, m) && tup_within(r.direction, m)
}

/// The point `t` units along the ray: origin plus direction scaled.
pub open spec fn ray_pos_s(r: RayV, t: int) -> Vec4 {
    tup_plus(r.origin, tup_scale(r.direction, t))
}

/// The ray carried through a matrix: both parts multiplied.
pub open spec fn ray_transform_s(r: RayV, m: MatV) -> RayV {
    RayV {
        origin: mul_tuple_s(m, r.origin),
        direction: mul_tuple_s(m, r.direction),
    }
}

impl Ray {
    /// A ray from an origin and a direction.
    pub fn new(origin: &Tuple, direction: &Tuple) -> (r: Ray)
        ensures
            r@.origin == origin@,
            r@.direction == direction@,
    {
        Ray { origin: *origin, direction: *direction }
    }

    /// The point `t` units along the ray.
    pub fn position(&self, t: i128) -> (p: Tuple)
        requires
            ray_within(self@, RAY_LIM as int),
            -RAY_LIM <= t <= RAY_LIM,
        ensures
            p@ == ray_pos_s(self@, t as int),
    {
        proof {
            crate::fixed::lemma_fx_mul_s_bound(self@.direction.x, t as int,
                RAY_LIM as int, RAY_LIM as int);
            crate::fixed::lemma_fx_mul_s_bound(self@.direction.y, t as int,
                RAY_LIM as int, RAY_LIM as int);
            crate::fixed::lemma_fx_mul_s_bound(self@.direction.z, t as int,
                RAY_LIM as int, RAY_LIM as int);
        }
        let scaled = Tuple {
            x: fx_mul(self.direction.x, t),
            y: fx_mul(self.direction.y, t),
            z: fx_mul(self.direction.z, t),
            w: self.direction.w,
        };
        Tuple {
            x: self.origin.x + scaled.x,
            y: self.origin.y + scaled.y,
            z: self.origin.z + scaled.z,
            w: self.origin.w + scaled.w,
        }
    }

    /// The ray carried through a matrix.
    pub fn transform(&self, m: &Matrix) -> (r: Ray)
        requires
            mat_square(m@),
            m@.rows == 4,
            mat_within(m@, MAT_MUL_LIM as int),
            ray_within(self@, MAT_MUL_LIM as int),
        ensures
            r@ == ray_transform_s(self@, m@),
    {
        Ray {
            origin: m.times_tuple(&self.origin),
            direction: m.times_tuple(&self.direction),
        }
    }
}

} // verus!
