//! The view transform: the matrix that moves the world so that the
//! eye stands at the origin looking down the negative z axis.

use vstd::prelude::*;
use crate::fixed::SCALE;
use crate::matrix::MAT_MUL_LIM;
use crate::matrix::MatV;
use crate::matrix::Matrix;
use crate::matrix::lemma_within_cells;
use crate::matrix::mul_s;
use crate::transform::translation;
use crate::transform::translation_s;
use crate::tuple::NORM_LIM;
use crate::tuple::Tuple;
use crate::tuple::Vec4;
use crate::tuple::cross_s;
use crate::tuple::mag_s;
use crate::tuple::norm_s;
use crate::tuple::tup_minus;
use crate::tuple::tup_within;

verus! {

/// Component bound accepted by the view transform inputs.
pub const VIEW_LIM: i128 = 100_000_000_000_000;

/// The orientation matrix from the basis vectors of the eye frame.
pub open spec fn orientation_s(left: Vec4, true_up: Vec4, forward: Vec4) -> MatV {
    MatV {
        rows: 4,
        columns: 4,
        data: seq![
            left.x, left.y, left.z, 0,
            true_up.x, true_up.y, true_up.z, 0,
            -forward.x, -forward.y, -forward.z, 0,
            0, 0, 0, SCALE as int,
        ],
    }
}

/// The view transform: the orientation of the eye frame composed
/// with the translation that moves the eye to the origin.
pub open spec fn view_transform_s(from: Vec4, to: Vec4, up: Vec4) -> MatV {
    let forward = norm_s(tup_minus(to, from));
    let upn = norm_s(up);
    let left = cross_s(forward, upn);
    let true_up = cross_s(left, forward);
    mul_s(orientation_s(left, true_up, forward), translation_s(-from.x, -from.y, -from.z))
}

/// Builds the view transform for an eye at `from` looking at `to`
/// with `up` roughly upward; both the gaze and `up` must have
/// positive magnitude.
pub fn view_transform(from: &Tuple, to: &Tuple, up: &Tuple) -> (m: Matrix)
    requires
        tup_within(from@, VIEW_LIM as int),
        tup_within(to@, VIEW_LIM as int),
        tup_within(up@, VIEW_LIM as int),
        from@.w == SCALE as int,
        to@.w == SCALE as int,
        up@.w == 0,
        mag_s(tup_minus(to@, from@)) >= 1,
        mag_s(up@) >= 1,
    ensures
        m@ == view_transform_s(from@, to@, up@),
{
    let forward = to.minus(from).normalize();
    let upn = up.normalize();
    proof {
        assert(forward@.w == 0 && upn@.w == 0);
        assert(tup_within(forward@, NORM_LIM as int));
        assert(tup_within(upn@, NORM_LIM as int));
    }
    let left = Tuple::cross_product(&forward, &upn);
    proof {
        lemma_cross_bound(forward@, upn@, NORM_LIM as int, NORM_LIM as int);
    }
    let true_up = Tuple::cross_product(&left, &forward);
    proof {
        lemma_cross_bound(left@, forward@, 9_000_000_000int, NORM_LIM as int);
    }
    let orientation = Matrix {
        rows: 4,
        columns: 4,
        data: [
            left.x, left.y, left.z, 0,
            true_up.x, true_up.y, true_up.z, 0,
            -forward.x, -forward.y, -forward.z, 0,
            0, 0, 0, SCALE,
        ],
    };
    proof {
        assert(orientation@.data =~= orientation_s(left@, true_up@, forward@).data);
        lemma_within_cells(orientation@, MAT_MUL_LIM as int);
        let tr = translation_s(-from@.x, -from@.y, -from@.z);
        lemma_within_cells(tr, MAT_MUL_LIM as int);
    }
    let shift = translation(-from.x, -from.y, -from.z);
    orientation.times(&shift)
}

/// Componentwise bounds on two vectors bound their cross product.
pub proof fn lemma_cross_bound(a: Vec4, b: Vec4, ka: int, kb: int)
    requires
        tup_within(a, ka),
        tup_within(b, kb),
        0 <= ka,
        0 <= kb,
    ensures
        tup_within(cross_s(a, b), 2 * ((ka * kb) / (SCALE as int)) + 2),
{
    crate::fixed::lemma_fx_mul_s_bound(a.y, b.z, ka, kb);
    crate::fixed::lemma_fx_mul_s_bound(a.z, b.y, ka, kb);
    crate::fixed::lemma_fx_mul_s_bound(a.z, b.x, ka, kb);
    crate::fixed::lemma_fx_mul_s_bound(a.x, b.z, ka, kb);
    crate::fixed::lemma_fx_mul_s_bound(a.x, b.y, ka, kb);
    crate::fixed::lemma_fx_mul_s_bound(a.y, b.x, ka, kb);
}

} // verus!
