//! Affine transform builders: translation, scaling, rotation about
//! each axis, shearing, and composition of a transform list.
//!
//! Rotations take the cosine and sine of the angle as fixed-point
//! values, since the trigonometric evaluation itself is not part of
//! this library's arithmetic.

use vstd::prelude::*;
use crate::fixed::SCALE;
use crate::fixed::rdiv;
use crate::matrix::MatV;
use crate::matrix::Matrix;
use crate::matrix::identity_s;
use crate::matrix::mat_at;
use crate::matrix::mat_square;
use crate::matrix::mat_within;
use crate::matrix::mul_cell_s;
use crate::matrix::mul_s;
use crate::matrix::MAT_MUL_LIM;

verus! {

/// The translation by `(x, y, z)`.
pub open spec fn translation_s(x: int, y: int, z: int) -> MatV {
    MatV {
        rows: 4,
        columns: 4,
        data: seq![
            SCALE as int, 0, 0, x,
            0, SCALE as int, 0, y,
            0, 0, SCALE as int, z,
            0, 0, 0, SCALE as int,
        ],
    }
}

/// The scaling by `(x, y, z)`.
pub open spec fn scaling_s(x: int, y: int, z: int) -> MatV {
    MatV {
        rows: 4,
        columns: 4,
        data: seq![
            x, 0, 0, 0,
            0, y, 0, 0,
            0, 0, z, 0,
            0, 0, 0, SCALE as int,
        ],
    }
}

/// The rotation about the x axis with the given cosine and sine.
pub open spec fn rotation_x_s(c: int, s: int) -> MatV {
    MatV {
        rows: 4,
        columns: 4,
        data: seq![
            SCALE as int, 0, 0, 0,
            0, c, -s, 0,
            0, s, c, 0,
            0, 0, 0, SCALE as int,
        ],
    }
}

/// The rotation about the y axis with the given cosine and sine.
pub open spec fn rotation_y_s(c: int, s: int) -> MatV {
    MatV {
        rows: 4,
        columns: 4,
        data: seq![
            c, 0, s, 0,
            0, SCALE as int, 0, 0,
            -s, 0, c, 0,
            0, 0, 0, SCALE as int,
        ],
    }
}

/// The rotation about the z axis with the given cosine and sine.
pub open spec fn rotation_z_s(c: int, s: int) -> MatV {
    MatV {
        rows: 4,
        columns: 4,
        data: seq![
            c, -s, 0, 0,
            s, c, 0, 0,
            0, 0, SCALE as int, 0,
            0, 0, 0, SCALE as int,
        ],
    }
}

/// The shear with each coordinate moved in proportion to the others.
pub open spec fn shearing_s(xy: int, xz: int, yx: int, yz: int, zx: int, zy: int) -> MatV {
    MatV {
        rows: 4,
        columns: 4,
        data: seq![
            SCALE as int, xy, xz, 0,
            yx, SCALE as int, yz, 0,
            zx, zy, SCALE as int, 0,
            0, 0, 0, SCALE as int,
        ],
    }
}

/// The composition of a transform list: the identity multiplied by
/// each matrix from the last to the first, so the first-listed
/// transform is applied to a point last.
pub open spec fn transforms_s(list: Seq<MatV>) -> MatV
    decreases list.len(),
{
    if list.len() == 0 {
        identity_s()
    } else {
        mul_s(transforms_s(list.subrange(1, list.len() as int)), list[0])
    }
}

/// The translation by `(x, y, z)`.
pub fn translation(x: i128, y: i128, z: i128) -> (m: Matrix)
    ensures
        m@ == translation_s(x as int, y as int, z as int),
{
    let m = Matrix {
        rows: 4,
        columns: 4,
        data: [
            SCALE, 0, 0, x,
            0, SCALE, 0, y,
            0, 0, SCALE, z,
            0, 0, 0, SCALE,
        ],
    };
    proof {
        assert(m@.data =~= translation_s(x as int, y as int, z as int).data);
    }
    m
}

/// The scaling by `(x, y, z)`.
pub fn scaling(x: i128, y: i128, z: i128) -> (m: Matrix)
    ensures
        m@ == scaling_s(x as int, y as int, z as int),
{
    let m = Matrix {
        rows: 4,
        columns: 4,
        data: [
            x, 0, 0, 0,
            0, y, 0, 0,
            0, 0, z, 0,
            0, 0, 0, SCALE,
        ],
    };
    proof {
        assert(m@.data =~= scaling_s(x as int, y as int, z as int).data);
    }
    m
}

/// The rotation about the x axis with the given cosine and sine.
pub fn rotation_x(c: i128, s: i128) -> (m: Matrix)
    requires
        -SCALE <= c <= SCALE,
        -SCALE <= s <= SCALE,
    ensures
        m@ == rotation_x_s(c as int, s as int),
{
    let m = Matrix {
        rows: 4,
        columns: 4,
        data: [
            SCALE, 0, 0, 0,
            0, c, -s, 0,
            0, s, c, 0,
            0, 0, 0, SCALE,
        ],
    };
    proof {
        assert(m@.data =~= rotation_x_s(c as int, s as int).data);
    }
    m
}

/// The rotation about the y axis with the given cosine and sine.
pub fn rotation_y(c: i128, s: i128) -> (m: Matrix)
    requires
        -SCALE <= c <= SCALE,
        -SCALE <= s <= SCALE,
    ensures
        m@ == rotation_y_s(c as int, s as int),
{
    let m = Matrix {
        rows: 4,
        columns: 4,
        data: [
            c, 0, s, 0,
            0, SCALE, 0, 0,
            -s, 0, c, 0,
            0, 0, 0, SCALE,
        ],
    };
    proof {
        assert(m@.data =~= rotation_y_s(c as int, s as int).data);
    }
    m
}

/// The rotation about the z axis with the given cosine and sine.
pub fn rotation_z(c: i128, s: i128) -> (m: Matrix)
    requires
        -SCALE <= c <= SCALE,
        -SCALE <= s <= SCALE,
    ensures
        m@ == rotation_z_s(c as int, s as int),
{
    let m = Matrix {
        rows: 4,
        columns: 4,
        data: [
            c, -s, 0, 0,
            s, c, 0, 0,
            0, 0, SCALE, 0,
            0, 0, 0, SCALE,
        ],
    };
    proof {
        assert(m@.data =~= rotation_z_s(c as int, s as int).data);
    }
    m
}

/// The shear with each coordinate moved in proportion to the others.
pub fn shearing(xy: i128, xz: i128, yx: i128, yz: i128, zx: i128, zy: i128) -> (m: Matrix)
    ensures
        m@ == shearing_s(xy as int, xz as int, yx as int, yz as int, zx as int, zy as int),
{
    let m = Matrix {
        rows: 4,
        columns: 4,
        data: [
            SCALE, xy, xz, 0,
            yx, SCALE, yz, 0,
            zx, zy, SCALE, 0,
            0, 0, 0, SCALE,
        ],
    };
    proof {
        assert(m@.data =~= shearing_s(
            xy as int, xz as int, yx as int, yz as int, zx as int, zy as int).data);
    }
    m
}

/// The sequence of views of a vector of matrices.
pub open spec fn mats_view(list: Seq<Matrix>) -> Seq<MatV> {
    list.map_values(|m: Matrix| m@)
}

/// Composes a list of transforms so that the first-listed transform
/// is applied to a point last.
pub fn transforms(list: &Vec<Matrix>) -> (m: Matrix)
    requires
        forall|i: int| 0 <= i < list@.len() ==> mat_square(#[trigger] list@[i]@)
            && list@[i]@.rows == 4
            && mat_within(list@[i]@, MAT_MUL_LIM as int),
        forall|i: int| 0 <= i < list@.len()
            ==> mat_within(transforms_s(mats_view(list@).subrange(i, list@.len() as int)),
                MAT_MUL_LIM as int),
    ensures
        m@ == transforms_s(mats_view(list@)),
{
    let ghost vs = mats_view(list@);
    let mut m = Matrix::identity();
    proof {
        assert(vs.subrange(list@.len() as int, list@.len() as int).len() == 0);
        assert(mat_within(identity_s(), MAT_MUL_LIM as int)) by {
            assert forall|i: int| 0 <= i < 16 implies
                -MAT_MUL_LIM <= #[trigger] identity_s().data[i] <= MAT_MUL_LIM by {}
        }
    }
    let mut i: usize = list.len();
    while i > 0
        invariant
            0 <= i <= list@.len(),
            vs == mats_view(list@),
            vs.len() == list@.len(),
            forall|j: int| 0 <= j < list@.len() ==> mat_square(#[trigger] list@[j]@)
                && list@[j]@.rows == 4
                && mat_within(list@[j]@, MAT_MUL_LIM as int),
            forall|j: int| 0 <= j < list@.len()
                ==> mat_within(transforms_s(vs.subrange(j, vs.len() as int)),
                    MAT_MUL_LIM as int),
            m@ == transforms_s(vs.subrange(i as int, vs.len() as int)),
            mat_within(m@, MAT_MUL_LIM as int),
            mat_square(m@),
            m@.rows == 4,
        decreases i,
    {
        i = i - 1;
        let next = m.times(&list[i]);
        proof {
            let tail = vs.subrange(i as int, vs.len() as int);
            assert(tail.subrange(1, tail.len() as int)
                =~= vs.subrange(i as int + 1, vs.len() as int));
            assert(tail[0] == list@[i as int]@);
        }
        m = next;
    }
    proof {
        assert(vs.subrange(0, vs.len() as int) =~= vs);
    }
    m
}

/// One cell of the product of the identity with `m` equals the cell
/// of `m`.
#[verifier::rlimit(60)]
proof fn lemma_identity_cell(m: MatV, r: int, c: int)
    requires
        mat_square(m),
        m.rows == 4,
        0 <= r < 4,
        0 <= c < 4,
    ensures
        mul_cell_s(identity_s(), m, r, c) == mat_at(m, r, c),
{
    let m0 = mat_at(m, 0, c);
    let m1 = mat_at(m, 1, c);
    let m2 = mat_at(m, 2, c);
    let m3 = mat_at(m, 3, c);
    if r == 0 {
        let i0 = mat_at(identity_s(), 0, 0);
        let i1 = mat_at(identity_s(), 0, 1);
        let i2 = mat_at(identity_s(), 0, 2);
        let i3 = mat_at(identity_s(), 0, 3);
        assert(i0 == SCALE as int);
        assert(i1 == 0);
        assert(i2 == 0);
        assert(i3 == 0);
        assert(i0 * m0 + i1 * m1 + i2 * m2 + i3 * m3 == (SCALE as int) * m0)
            by (nonlinear_arith)
            requires
                i0 == SCALE as int,
                i1 == 0,
                i2 == 0,
                i3 == 0,
        {}
        assert(mul_cell_s(identity_s(), m, 0, c)
            == rdiv((SCALE as int) * m0, SCALE as int));
        lemma_rdiv_scale_exact(m0);
    }
    if r == 1 {
        let i0 = mat_at(identity_s(), 1, 0);
        let i1 = mat_at(identity_s(), 1, 1);
        let i2 = mat_at(identity_s(), 1, 2);
        let i3 = mat_at(identity_s(), 1, 3);
        assert(i0 == 0);
        assert(i1 == SCALE as int);
        assert(i2 == 0);
        assert(i3 == 0);
        assert(i0 * m0 + i1 * m1 + i2 * m2 + i3 * m3 == (SCALE as int) * m1)
            by (nonlinear_arith)
            requires
                i0 == 0,
                i1 == SCALE as int,
                i2 == 0,
                i3 == 0,
        {}
        assert(mul_cell_s(identity_s(), m, 1, c)
            == rdiv((SCALE as int) * m1, SCALE as int));
        lemma_rdiv_scale_exact(m1);
    }
    if r == 2 {
        let i0 = mat_at(identity_s(), 2, 0);
        let i1 = mat_at(identity_s(), 2, 1);
        let i2 = mat_at(identity_s(), 2, 2);
        let i3 = mat_at(identity_s(), 2, 3);
        assert(i0 == 0);
        assert(i1 == 0);
        assert(i2 == SCALE as int);
        assert(i3 == 0);
        assert(i0 * m0 + i1 * m1 + i2 * m2 + i3 * m3 == (SCALE as int) * m2)
            by (nonlinear_arith)
            requires
                i0 == 0,
                i1 == 0,
                i2 == SCALE as int,
                i3 == 0,
        {}
        assert(mul_cell_s(identity_s(), m, 2, c)
            == rdiv((SCALE as int) * m2, SCALE as int));
        lemma_rdiv_scale_exact(m2);
    }
    if r == 3 {
        let i0 = mat_at(identity_s(), 3, 0);
        let i1 = mat_at(identity_s(), 3, 1);
        let i2 = mat_at(identity_s(), 3, 2);
        let i3 = mat_at(identity_s(), 3, 3);
        assert(i0 == 0);
        assert(i1 == 0);
        assert(i2 == 0);
        assert(i3 == SCALE as int);
        assert(i0 * m0 + i1 * m1 + i2 * m2 + i3 * m3 == (SCALE as int) * m3)
            by (nonlinear_arith)
            requires
                i0 == 0,
                i1 == 0,
                i2 == 0,
                i3 == SCALE as int,
        {}
        assert(mul_cell_s(identity_s(), m, 3, c)
            == rdiv((SCALE as int) * m3, SCALE as int));
        lemma_rdiv_scale_exact(m3);
    }
}

/// Multiplying by the identity on the left returns the matrix
/// unchanged: rescaling by the unit diagonal is exact.
pub proof fn lemma_identity_times(m: MatV)
    requires
        mat_square(m),
        m.rows == 4,
    ensures
        mul_s(identity_s(), m) =~= m,
{
    let p = mul_s(identity_s(), m);
    assert forall|i: int| 0 <= i < 16 implies p.data[i] == m.data[i] by {
        crate::matrix::lemma_div_small(i, 4);
        let r = i / 4;
        let c = i % 4;
        crate::matrix::lemma_flat_index(4, 4, r, c);
        assert(p.data[i] == mul_cell_s(identity_s(), m, r, c));
        lemma_identity_cell(m, r, c);
        assert(i == r * 4 + c) by (nonlinear_arith)
            requires
                r == i / 4,
                c == i % 4,
                0 <= i < 16,
        {}
    }
}

/// Rescaling a whole multiple of the scale is exact.
pub proof fn lemma_rdiv_scale_exact(x: int)
    ensures
        rdiv((SCALE as int) * x, SCALE as int) == x,
{
    let s = SCALE as int;
    assert(s * x + s / 2 == x * s + s / 2) by (nonlinear_arith)
    {}
    vstd::arithmetic::div_mod::lemma_fundamental_div_mod_converse(
        s * x + s / 2, s, x, s / 2);
}

/// Composing a three-transform list multiplies the matrices from the
/// last to the first: applied to a point, the first-listed transform
/// acts last.
pub proof fn lemma_transforms_order(a: MatV, b: MatV, c: MatV)
    requires
        mat_square(a),
        mat_square(b),
        mat_square(c),
        a.rows == 4,
        b.rows == 4,
        c.rows == 4,
    ensures
        transforms_s(seq![a, b, c]) == mul_s(mul_s(c, b), a),
{
    let l3 = seq![a, b, c];
    let l2 = seq![b, c];
    let l1 = seq![c];
    let l0 = Seq::<MatV>::empty();
    assert(l3.subrange(1, 3) =~= l2);
    assert(l2.subrange(1, 2) =~= l1);
    assert(l1.subrange(1, 1) =~= l0);
    assert(l1.len() == 1 && l1[0] == c && l2.len() == 2 && l2[0] == b
        && l3.len() == 3 && l3[0] == a);
    assert(transforms_s(l0) == identity_s());
    assert(l1.subrange(1, 1) == l0);
    assert(transforms_s(l1) == mul_s(identity_s(), c));
    lemma_identity_times(c);
    assert(mul_s(identity_s(), c) =~= c);
    assert(transforms_s(l2) == mul_s(transforms_s(l1), b));
    assert(transforms_s(l1) =~= c);
    assert(transforms_s(l3) == mul_s(mul_s(c, b), a));
}

} // verus!
