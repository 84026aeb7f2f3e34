//! Square matrices up to 4x4, stored in a flat 16-cell array:
//! construction, transposition, cofactor-expansion determinants, and
//! inversion.
//!
//! The mathematical model is `MatV`, a sequence of unbounded
//! fixed-point cells with a row and column count; `det_s`, `cof_s` and
//! `inverse_s` define the exact fixed-point results that the
//! executable operations are proved to return.

use vstd::prelude::*;
use crate::fixed::EPSILON;
use crate::fixed::SCALE;
use crate::fixed::approx_s;
use crate::fixed::fx_div;
use crate::fixed::fx_div_s;
use crate::fixed::fx_mul;
use crate::fixed::fx_mul_s;
use crate::fixed::lemma_fx_div_s_bound;
use crate::fixed::lemma_fx_mul_s_bound;
use crate::fixed::lemma_div_range;
use crate::fixed::lemma_rdiv_bound;
use crate::fixed::rdiv;
use crate::fixed::rdiv_exec;
use crate::tuple::Tuple;
use crate::tuple::Vec4;
use crate::tuple::lemma_prod_bound;

verus! {

/// Cell bound under which determinants and inverses are free of
/// overflow: the real value 1000.
pub const MAT_LIM: i128 = 1_000_000_000_000;

/// Cell bound accepted by matrix products: the real value one
/// million.
pub const MAT_MUL_LIM: i128 = 1_000_000_000_000_000;

/// Component bound on tuples handed to the matrix-tuple product.
pub const TUP_MUL_LIM: i128 = 1_000_000_000_000_000_000;

/// Bound on the cells of the inverse of a `MAT_LIM`-bounded matrix.
pub const MAT_INV_LIM: i128 = 670_000_000_000_000_000_000_000;

/// Bound on 2x2 determinants of `MAT_LIM`-bounded matrices.
pub const DET2_LIM: i128 = 2_100_000_000_000_000;

/// Bound on 3x3 determinants of `MAT_LIM`-bounded matrices.
pub const DET3_LIM: i128 = 6_600_000_000_000_000_000;

/// Bound on 4x4 determinants of `MAT_LIM`-bounded matrices.
pub const DET4_LIM: i128 = 27_000_000_000_000_000_000_000;

/// The mathematical value of a matrix: its shape and sixteen
/// unbounded fixed-point cells in row-major order.
#[verifier::ext_equal]
pub ghost struct MatV {
    pub rows: int,
    pub columns: int,
    pub data: Seq<int>,
}

/// A square matrix of fixed-point cells; sizes 2x2 to 4x4 are used.
#[derive(Debug, Clone, Copy)]
pub struct Matrix {
    pub rows: usize,
    pub columns: usize,
    pub data: [i128; 16],
}

impl View for Matrix {
    type V = MatV;

    open spec fn view(&self) -> MatV {
        MatV {
            rows: self.rows as int,
            columns: self.columns as int,
            data: self.data@.map_values(|v: i128| v as int),
        }
    }
}

/// The cell of `m` at `row`, `column` in the flat layout.
pub open spec fn mat_at(m: MatV, row: int, column: int) -> int {
    m.data[row * m.columns + column]
}

/// A square matrix of a size this module supports.
pub open spec fn mat_square(m: MatV) -> bool {
    &&& m.rows == m.columns
    &&& 2 <= m.rows <= 4
    &&& m.data.len() == 16
}

/// All sixteen stored cells lie within `k` units of zero.
pub open spec fn mat_within(m: MatV, k: int) -> bool {
    forall|i: int| 0 <= i < 16 ==> -k <= #[trigger] m.data[i] <= k
}

/// The 4x4 identity.
pub open spec fn identity_s() -> MatV {
    MatV {
        rows: 4,
        columns: 4,
        data: seq![
            SCALE as int, 0, 0, 0,
            0, SCALE as int, 0, 0,
            0, 0, SCALE as int, 0,
            0, 0, 0, SCALE as int,
        ],
    }
}

/// The transpose of a square matrix; unused cells are zero.
pub open spec fn transpose_s(m: MatV) -> MatV {
    MatV {
        rows: m.columns,
        columns: m.rows,
        data: Seq::new(16, |i: int|
            if 0 <= i < m.rows * m.columns {
                mat_at(m, i % m.rows, i / m.rows)
            } else {
                0
            }),
    }
}

/// The submatrix of `m` with row `dr` and column `dc` removed; unused
/// cells are zero.
pub open spec fn sub_s(m: MatV, dr: int, dc: int) -> MatV {
    let n = m.rows - 1;
    MatV {
        rows: n,
        columns: n,
        data: Seq::new(16, |i: int|
            if 0 <= i < n * n {
                let r = i / n;
                let c = i % n;
                mat_at(m, if r >= dr { r + 1 } else { r }, if c >= dc { c + 1 } else { c })
            } else {
                0
            }),
    }
}

/// The determinant: the direct two-by-two formula, rounded once, or
/// cofactor expansion along row 0.
pub open spec fn det_s(m: MatV) -> int
    decreases m.rows, 2int,
{
    if m.rows == 2 {
        rdiv(mat_at(m, 0, 0) * mat_at(m, 1, 1) - mat_at(m, 1, 0) * mat_at(m, 0, 1),
            SCALE as int)
    } else if m.rows == 3 {
        fx_mul_s(mat_at(m, 0, 0), cof_s(m, 0, 0))
            + fx_mul_s(mat_at(m, 0, 1), cof_s(m, 0, 1))
            + fx_mul_s(mat_at(m, 0, 2), cof_s(m, 0, 2))
    } else {
        fx_mul_s(mat_at(m, 0, 0), cof_s(m, 0, 0))
            + fx_mul_s(mat_at(m, 0, 1), cof_s(m, 0, 1))
            + fx_mul_s(mat_at(m, 0, 2), cof_s(m, 0, 2))
            + fx_mul_s(mat_at(m, 0, 3), cof_s(m, 0, 3))
    }
}

/// The minor: the determinant of the submatrix.
pub open spec fn minor_s(m: MatV, r: int, c: int) -> int
    decreases m.rows, 0int,
{
    if m.rows >= 3 {
        det_s(sub_s(m, r, c))
    } else {
        0
    }
}

/// The cofactor: the minor, negated on odd positions.
pub open spec fn cof_s(m: MatV, r: int, c: int) -> int
    decreases m.rows, 1int,
{
    if (r + c) % 2 == 0 {
        minor_s(m, r, c)
    } else {
        -minor_s(m, r, c)
    }
}

/// Invertible: the determinant is not approximately zero.
pub open spec fn is_invertible_s(m: MatV) -> bool {
    !approx_s(det_s(m), 0)
}

/// The inverse of a 4x4 matrix: transposed cofactors divided by the
/// determinant.
pub open spec fn inverse_s(m: MatV) -> MatV {
    MatV {
        rows: 4,
        columns: 4,
        data: Seq::new(16, |i: int| fx_div_s(cof_s(m, i % 4, i / 4), det_s(m))),
    }
}

/// One cell of the 4x4 matrix product: the four-term dot product of a
/// row of `a` with a column of `b`, rounded once.
pub open spec fn mul_cell_s(a: MatV, b: MatV, r: int, c: int) -> int {
    rdiv(
        mat_at(a, r, 0) * mat_at(b, 0, c) + mat_at(a, r, 1) * mat_at(b, 1, c)
            + mat_at(a, r, 2) * mat_at(b, 2, c) + mat_at(a, r, 3) * mat_at(b, 3, c),
        SCALE as int,
    )
}

/// The 4x4 matrix product.
pub open spec fn mul_s(a: MatV, b: MatV) -> MatV {
    MatV {
        rows: 4,
        columns: 4,
        data: Seq::new(16, |i: int| mul_cell_s(a, b, i / 4, i % 4)),
    }
}

/// The product of a 4x4 matrix and a tuple: each component a
/// four-term dot product, rounded once.
pub open spec fn mul_tuple_s(m: MatV, t: Vec4) -> Vec4 {
    Vec4 {
        x: rdiv(mat_at(m, 0, 0) * t.x + mat_at(m, 0, 1) * t.y + mat_at(m, 0, 2) * t.z
            + mat_at(m, 0, 3) * t.w, SCALE as int),
        y: rdiv(mat_at(m, 1, 0) * t.x + mat_at(m, 1, 1) * t.y + mat_at(m, 1, 2) * t.z
            + mat_at(m, 1, 3) * t.w, SCALE as int),
        z: rdiv(mat_at(m, 2, 0) * t.x + mat_at(m, 2, 1) * t.y + mat_at(m, 2, 2) * t.z
            + mat_at(m, 2, 3) * t.w, SCALE as int),
        w: rdiv(mat_at(m, 3, 0) * t.x + mat_at(m, 3, 1) * t.y + mat_at(m, 3, 2) * t.z
            + mat_at(m, 3, 3) * t.w, SCALE as int),
    }
}

/// Approximate equality: equal shape and all cells within `EPSILON`.
pub open spec fn mat_approx(a: MatV, b: MatV) -> bool {
    &&& a.rows == b.rows
    &&& a.columns == b.columns
    &&& forall|i: int| 0 <= i < a.rows * a.columns ==> approx_s(#[trigger] a.data[i], b.data[i])
}

impl Matrix {
    /// A zero-filled matrix.
    pub fn new(rows: usize, columns: usize) -> (m: Matrix)
        requires
            1 <= rows <= 4,
            1 <= columns <= 4,
        ensures
            m@.rows == rows,
            m@.columns == columns,
            forall|i: int| 0 <= i < 16 ==> #[trigger] m@.data[i] == 0,
    {
        Matrix { rows, columns, data: [0; 16] }
    }

    /// A matrix filled row-major from a slice; missing values are
    /// zero, extra values are ignored.
    pub fn new_with_values(rows: usize, columns: usize, values: &[i128]) -> (m: Matrix)
        requires
            1 <= rows <= 4,
            1 <= columns <= 4,
        ensures
            m@.rows == rows,
            m@.columns == columns,
            forall|i: int| 0 <= i < 16 ==> #[trigger] m@.data[i]
                == if i < values@.len() { values@[i] as int } else { 0 },
    {
        let mut m = Matrix { rows, columns, data: [0; 16] };
        let mut i: usize = 0;
        while i < 16
            invariant
                0 <= i <= 16,
                m.rows == rows,
                m.columns == columns,
                forall|j: int| 0 <= j < i ==> #[trigger] m.data@[j] as int
                    == if j < values@.len() { values@[j] as int } else { 0 },
                forall|j: int| i <= j < 16 ==> #[trigger] m.data@[j] == 0i128,
            decreases 16 - i,
        {
            if i < values.len() {
                m.data[i] = values[i];
            }
            i += 1;
        }
        m
    }

    /// The 4x4 identity matrix.
    pub fn identity() -> (m: Matrix)
        ensures
            m@ == identity_s(),
    {
        let m = Matrix {
            rows: 4,
            columns: 4,
            data: [
                SCALE, 0, 0, 0,
                0, SCALE, 0, 0,
                0, 0, SCALE, 0,
                0, 0, 0, SCALE,
            ],
        };
        proof {
            assert(m@.data =~= identity_s().data);
        }
        m
    }

    /// The cell at `row`, `column`.
    pub fn get(&self, row: usize, column: usize) -> (v: i128)
        requires
            row < self@.rows,
            column < self@.columns,
            self@.rows <= 4,
            self@.columns <= 4,
        ensures
            v == mat_at(self@, row as int, column as int),
    {
        proof {
            lemma_flat_index(self@.rows, self@.columns, row as int, column as int);
        }
        self.data[(row * self.columns) + column]
    }

    /// Replaces the cell at `row`, `column`.
    pub fn set(&mut self, row: usize, column: usize, value: i128)
        requires
            row < old(self)@.rows,
            column < old(self)@.columns,
            old(self)@.rows <= 4,
            old(self)@.columns <= 4,
        ensures
            final(self)@.rows == old(self)@.rows,
            final(self)@.columns == old(self)@.columns,
            final(self)@.data == old(self)@.data.update(
                row * old(self)@.columns + column, value as int),
    {
        proof {
            lemma_flat_index(self@.rows, self@.columns, row as int, column as int);
        }
        self.data[(row * self.columns) + column] = value;
        proof {
            assert(self@.data =~= old(self)@.data.update(
                row as int * old(self)@.columns + column, value as int));
        }
    }

    /// Whether two matrices have the same shape and approximately
    /// equal cells.
    pub fn approx_eq(&self, other: &Matrix) -> (r: bool)
        requires
            self@.rows * self@.columns <= 16,
            other@.rows * other@.columns <= 16,
            mat_within(self@, 1_000_000_000_000_000_000_000_000_000_000int),
            mat_within(other@, 1_000_000_000_000_000_000_000_000_000_000int),
        ensures
            r == mat_approx(self@, other@),
    {
        if self.rows != other.rows || self.columns != other.columns {
            return false;
        }
        let total = self.rows * self.columns;
        let mut i: usize = 0;
        while i < total
            invariant
                0 <= i <= total,
                total == self@.rows * self@.columns,
                total <= 16,
                self@.rows == other@.rows,
                self@.columns == other@.columns,
                mat_within(self@, 1_000_000_000_000_000_000_000_000_000_000int),
                mat_within(other@, 1_000_000_000_000_000_000_000_000_000_000int),
                forall|j: int| 0 <= j < i ==> approx_s(#[trigger] self@.data[j], other@.data[j]),
            decreases total - i,
        {
            proof {
                assert(self@.data[i as int] == self.data@[i as int] as int);
                assert(other@.data[i as int] == other.data@[i as int] as int);
            }
            if !crate::fixed::approx_eq(self.data[i], other.data[i]) {
                proof {
                    assert(!approx_s(self@.data[i as int], other@.data[i as int]));
                }
                return false;
            }
            i += 1;
        }
        true
    }

    /// The transpose.
    pub fn transpose(&self) -> (r: Matrix)
        requires
            mat_square(self@),
        ensures
            r@ == transpose_s(self@),
    {
        let n = self.rows;
        proof {
            assert(n * n <= 16) by (nonlinear_arith)
                requires
                    0 <= n <= 4,
            {}
        }
        let total = n * n;
        let mut r = Matrix { rows: self.columns, columns: self.rows, data: [0; 16] };
        let mut k: usize = 0;
        while k < total
            invariant
                0 <= k <= total,
                total == n * n <= 16,
                n == self@.rows,
                mat_square(self@),
                r.rows == n,
                r.columns == n,
                forall|j: int| 0 <= j < k ==> #[trigger] r.data@[j] as int
                    == transpose_s(self@).data[j],
                forall|j: int| k <= j < 16 ==> #[trigger] r.data@[j] == 0i128,
            decreases total - k,
        {
            let row = k / n;
            let col = k % n;
            proof {
                vstd::arithmetic::div_mod::lemma_fundamental_div_mod(k as int, n as int);
                vstd::arithmetic::div_mod::lemma_mod_bound(k as int, n as int);
                lemma_div_small(k as int, n as int);
                lemma_flat_index(n as int, n as int, col as int, row as int);
            }
            let v = self.data[col * n + row];
            r.data[k] = v;
            proof {
                assert(transpose_s(self@).data[k as int]
                    == mat_at(self@, k as int % n as int, k as int / n as int));
            }
            k += 1;
        }
        proof {
            assert(r@.data =~= transpose_s(self@).data);
        }
        r
    }
}

impl Matrix {
    /// The submatrix with one row and one column removed.
    pub fn submatrix(&self, row: usize, column: usize) -> (r: Matrix)
        requires
            mat_square(self@),
            self@.rows >= 3,
            row < self@.rows,
            column < self@.columns,
        ensures
            r@ == sub_s(self@, row as int, column as int),
    {
        let n = self.rows - 1;
        proof {
            assert(n * n <= 16) by (nonlinear_arith)
                requires
                    0 <= n <= 3,
            {}
        }
        let total = n * n;
        let mut r = Matrix { rows: n, columns: n, data: [0; 16] };
        let mut k: usize = 0;
        while k < total
            invariant
                0 <= k <= total,
                total == n * n <= 16,
                2 <= n <= 3,
                n == self@.rows - 1,
                mat_square(self@),
                row < self@.rows,
                column < self@.columns,
                r.rows == n,
                r.columns == n,
                forall|j: int| 0 <= j < k ==> #[trigger] r.data@[j] as int
                    == sub_s(self@, row as int, column as int).data[j],
                forall|j: int| k <= j < 16 ==> #[trigger] r.data@[j] == 0i128,
            decreases total - k,
        {
            let dr = k / n;
            let dc = k % n;
            proof {
                lemma_div_small(k as int, n as int);
            }
            let sr = if dr >= row { dr + 1 } else { dr };
            let sc = if dc >= column { dc + 1 } else { dc };
            proof {
                lemma_flat_index(self@.rows, self@.columns, sr as int, sc as int);
            }
            let v = self.data[sr * self.columns + sc];
            r.data[k] = v;
            k += 1;
        }
        proof {
            assert(r@.data =~= sub_s(self@, row as int, column as int).data);
        }
        r
    }

    /// The determinant, by the direct formula for 2x2 and cofactor
    /// expansion along row 0 above that.
    pub fn determinant(&self) -> (d: i128)
        requires
            mat_square(self@),
            mat_within(self@, MAT_LIM as int),
        ensures
            d == det_s(self@),
            -DET4_LIM <= d <= DET4_LIM,
        decreases self@.rows, 2int,
    {
        proof {
            lemma_det_bound(self@);
        }
        if self.rows == 2 {
            let a = self.get(0, 0);
            let b = self.get(0, 1);
            let c = self.get(1, 0);
            let d = self.get(1, 1);
            proof {
                lemma_cell_within(self@, 0, 0, MAT_LIM as int);
                lemma_cell_within(self@, 0, 1, MAT_LIM as int);
                lemma_cell_within(self@, 1, 0, MAT_LIM as int);
                lemma_cell_within(self@, 1, 1, MAT_LIM as int);
                lemma_prod_bound(a as int, d as int, MAT_LIM as int, MAT_LIM as int);
                lemma_prod_bound(c as int, b as int, MAT_LIM as int, MAT_LIM as int);
            }
            rdiv_exec(a * d - c * b, SCALE)
        } else if self.rows == 3 {
            let t0 = fx_mul(self.get(0, 0), self.cofactor(0, 0));
            let t1 = fx_mul(self.get(0, 1), self.cofactor(0, 1));
            let t2 = fx_mul(self.get(0, 2), self.cofactor(0, 2));
            proof {
                lemma_term_bound(self@, 0);
                lemma_term_bound(self@, 1);
                lemma_term_bound(self@, 2);
            }
            t0 + t1 + t2
        } else {
            let t0 = fx_mul(self.get(0, 0), self.cofactor(0, 0));
            let t1 = fx_mul(self.get(0, 1), self.cofactor(0, 1));
            let t2 = fx_mul(self.get(0, 2), self.cofactor(0, 2));
            let t3 = fx_mul(self.get(0, 3), self.cofactor(0, 3));
            proof {
                lemma_term_bound(self@, 0);
                lemma_term_bound(self@, 1);
                lemma_term_bound(self@, 2);
                lemma_term_bound(self@, 3);
            }
            t0 + t1 + t2 + t3
        }
    }

    /// The minor: the determinant of the submatrix.
    pub fn minor(&self, row: usize, column: usize) -> (v: i128)
        requires
            mat_square(self@),
            self@.rows >= 3,
            mat_within(self@, MAT_LIM as int),
            row < self@.rows,
            column < self@.columns,
        ensures
            v == minor_s(self@, row as int, column as int),
            -DET3_LIM <= v <= DET3_LIM,
        decreases self@.rows, 0int,
    {
        let s = self.submatrix(row, column);
        proof {
            lemma_sub_within(self@, row as int, column as int, MAT_LIM as int);
            lemma_det_bound(s@);
        }
        s.determinant()
    }

    /// The cofactor: the minor, negated on odd positions.
    pub fn cofactor(&self, row: usize, column: usize) -> (v: i128)
        requires
            mat_square(self@),
            self@.rows >= 3,
            mat_within(self@, MAT_LIM as int),
            row < self@.rows,
            column < self@.columns,
        ensures
            v == cof_s(self@, row as int, column as int),
            -DET3_LIM <= v <= DET3_LIM,
        decreases self@.rows, 1int,
    {
        let m = self.minor(row, column);
        if (row + column) % 2 == 0 {
            m
        } else {
            -m
        }
    }

    /// Whether the determinant is not approximately zero.
    pub fn is_invertible(&self) -> (r: bool)
        requires
            mat_square(self@),
            mat_within(self@, MAT_LIM as int),
        ensures
            r == is_invertible_s(self@),
    {
        let d = self.determinant();
        !(-EPSILON <= d && d <= EPSILON)
    }

    /// The inverse of an invertible 4x4 matrix: transposed cofactors
    /// divided by the determinant.
    pub fn inverse(&self) -> (r: Matrix)
        requires
            mat_square(self@),
            self@.rows == 4,
            mat_within(self@, MAT_LIM as int),
            is_invertible_s(self@),
        ensures
            r@ == inverse_s(self@),
            r@.rows == 4,
            r@.columns == 4,
            r@.data.len() == 16,
            mat_within(r@, MAT_INV_LIM as int),
    {
        let det = self.determinant();
        let mut r = Matrix { rows: 4, columns: 4, data: [0; 16] };
        let mut k: usize = 0;
        while k < 16
            invariant
                0 <= k <= 16,
                mat_square(self@),
                self@.rows == 4,
                mat_within(self@, MAT_LIM as int),
                is_invertible_s(self@),
                det == det_s(self@),
                -DET4_LIM <= det <= DET4_LIM,
                r.rows == 4,
                r.columns == 4,
                forall|j: int| 0 <= j < k ==> #[trigger] r.data@[j] as int
                    == inverse_s(self@).data[j]
                    && -MAT_INV_LIM <= r.data@[j] <= MAT_INV_LIM,
                forall|j: int| k <= j < 16 ==> #[trigger] r.data@[j] == 0i128,
            decreases 16 - k,
        {
            let i = k / 4;
            let j = k % 4;
            proof {
                lemma_div_small(k as int, 4);
            }
            let c = self.cofactor(j, i);
            proof {
                lemma_fx_div_s_bound(c as int, det as int, DET3_LIM as int, EPSILON as int);
            }
            let v = fx_div(c, det);
            r.data[k] = v;
            k += 1;
        }
        proof {
            assert(r@.data =~= inverse_s(self@).data);
        }
        r
    }

    /// The 4x4 matrix product.
    pub fn times(&self, other: &Matrix) -> (r: Matrix)
        requires
            mat_square(self@),
            mat_square(other@),
            self@.rows == 4,
            other@.rows == 4,
            mat_within(self@, MAT_MUL_LIM as int),
            mat_within(other@, MAT_MUL_LIM as int),
        ensures
            r@ == mul_s(self@, other@),
            r@.rows == 4,
            r@.columns == 4,
            r@.data.len() == 16,
    {
        let mut r = Matrix { rows: 4, columns: 4, data: [0; 16] };
        let mut k: usize = 0;
        while k < 16
            invariant
                0 <= k <= 16,
                mat_square(self@),
                mat_square(other@),
                self@.rows == 4,
                other@.rows == 4,
                mat_within(self@, MAT_MUL_LIM as int),
                mat_within(other@, MAT_MUL_LIM as int),
                r.rows == 4,
                r.columns == 4,
                forall|j: int| 0 <= j < k ==> #[trigger] r.data@[j] as int
                    == mul_s(self@, other@).data[j],
                forall|j: int| k <= j < 16 ==> #[trigger] r.data@[j] == 0i128,
            decreases 16 - k,
        {
            let row = k / 4;
            let col = k % 4;
            proof {
                lemma_div_small(k as int, 4);
            }
            let v = mat4_dot(self, other, row, col);
            r.data[k] = v;
            k += 1;
        }
        proof {
            assert(r@.data =~= mul_s(self@, other@).data);
        }
        r
    }

    /// The product of a 4x4 matrix and a tuple.
    pub fn times_tuple(&self, t: &Tuple) -> (r: Tuple)
        requires
            mat_square(self@),
            self@.rows == 4,
            mat_within(self@, MAT_MUL_LIM as int),
            crate::tuple::tup_within(t@, TUP_MUL_LIM as int),
        ensures
            r@ == mul_tuple_s(self@, t@),
    {
        let x = mat4_row_dot(self, t, 0);
        let y = mat4_row_dot(self, t, 1);
        let z = mat4_row_dot(self, t, 2);
        let w = mat4_row_dot(self, t, 3);
        Tuple { x, y, z, w }
    }
}

/// The dot product of row `r` of `a` with column `c` of `b`, rounded
/// once.
fn mat4_dot(a: &Matrix, b: &Matrix, r: usize, c: usize) -> (v: i128)
    requires
        mat_square(a@),
        mat_square(b@),
        a@.rows == 4,
        b@.rows == 4,
        mat_within(a@, MAT_MUL_LIM as int),
        mat_within(b@, MAT_MUL_LIM as int),
        r < 4,
        c < 4,
    ensures
        v == mul_cell_s(a@, b@, r as int, c as int),
{
    proof {
        lemma_row_within(a@, r as int, MAT_MUL_LIM as int);
        lemma_col_within(b@, c as int, MAT_MUL_LIM as int);
        lemma_prod_bound(mat_at(a@, r as int, 0), mat_at(b@, 0, c as int),
            MAT_MUL_LIM as int, MAT_MUL_LIM as int);
        lemma_prod_bound(mat_at(a@, r as int, 1), mat_at(b@, 1, c as int),
            MAT_MUL_LIM as int, MAT_MUL_LIM as int);
        lemma_prod_bound(mat_at(a@, r as int, 2), mat_at(b@, 2, c as int),
            MAT_MUL_LIM as int, MAT_MUL_LIM as int);
        lemma_prod_bound(mat_at(a@, r as int, 3), mat_at(b@, 3, c as int),
            MAT_MUL_LIM as int, MAT_MUL_LIM as int);
    }
    let s = a.get(r, 0) * b.get(0, c) + a.get(r, 1) * b.get(1, c)
        + a.get(r, 2) * b.get(2, c) + a.get(r, 3) * b.get(3, c);
    rdiv_exec(s, SCALE)
}

/// The dot product of row `r` of `m` with a tuple, rounded once.
fn mat4_row_dot(m: &Matrix, t: &Tuple, r: usize) -> (v: i128)
    requires
        mat_square(m@),
        m@.rows == 4,
        mat_within(m@, MAT_MUL_LIM as int),
        crate::tuple::tup_within(t@, TUP_MUL_LIM as int),
        r < 4,
    ensures
        r == 0 ==> v == mul_tuple_s(m@, t@).x,
        r == 1 ==> v == mul_tuple_s(m@, t@).y,
        r == 2 ==> v == mul_tuple_s(m@, t@).z,
        r == 3 ==> v == mul_tuple_s(m@, t@).w,
{
    proof {
        lemma_row_within(m@, r as int, MAT_MUL_LIM as int);
        lemma_prod_bound(mat_at(m@, r as int, 0), t@.x, MAT_MUL_LIM as int,
            TUP_MUL_LIM as int);
        lemma_prod_bound(mat_at(m@, r as int, 1), t@.y, MAT_MUL_LIM as int,
            TUP_MUL_LIM as int);
        lemma_prod_bound(mat_at(m@, r as int, 2), t@.z, MAT_MUL_LIM as int,
            TUP_MUL_LIM as int);
        lemma_prod_bound(mat_at(m@, r as int, 3), t@.w, MAT_MUL_LIM as int,
            TUP_MUL_LIM as int);
    }
    let s = m.get(r, 0) * t.x + m.get(r, 1) * t.y + m.get(r, 2) * t.z + m.get(r, 3) * t.w;
    rdiv_exec(s, SCALE)
}

/// A stored cell of a bounded matrix is bounded.
pub proof fn lemma_cell_within(m: MatV, r: int, c: int, k: int)
    requires
        mat_within(m, k),
        0 <= r < m.rows,
        0 <= c < m.columns,
        m.rows <= 4,
        m.columns <= 4,
    ensures
        -k <= mat_at(m, r, c) <= k,
{
    lemma_flat_index(m.rows, m.columns, r, c);
}

/// Every cell of row `r` of a bounded 4x4 matrix is bounded.
proof fn lemma_row_within(m: MatV, r: int, k: int)
    requires
        mat_square(m),
        m.rows == 4,
        mat_within(m, k),
        0 <= r < 4,
    ensures
        forall|c: int| 0 <= c < 4 ==> -k <= #[trigger] mat_at(m, r, c) <= k,
{
    assert forall|c: int| 0 <= c < 4 implies -k <= #[trigger] mat_at(m, r, c) <= k by {
        lemma_cell_within(m, r, c, k);
    }
}

/// Every cell of column `c` of a bounded 4x4 matrix is bounded.
proof fn lemma_col_within(m: MatV, c: int, k: int)
    requires
        mat_square(m),
        m.rows == 4,
        mat_within(m, k),
        0 <= c < 4,
    ensures
        forall|r: int| 0 <= r < 4 ==> -k <= #[trigger] mat_at(m, r, c) <= k,
{
    assert forall|r: int| 0 <= r < 4 implies -k <= #[trigger] mat_at(m, r, c) <= k by {
        lemma_cell_within(m, r, c, k);
    }
}

/// The submatrix of a square bounded matrix is square and bounded.
pub proof fn lemma_sub_within(m: MatV, dr: int, dc: int, k: int)
    requires
        mat_square(m),
        m.rows >= 3,
        mat_within(m, k),
        0 <= k,
        0 <= dr < m.rows,
        0 <= dc < m.columns,
    ensures
        mat_square(sub_s(m, dr, dc)),
        mat_within(sub_s(m, dr, dc), k),
{
    let s = sub_s(m, dr, dc);
    let n = m.rows - 1;
    assert forall|i: int| 0 <= i < 16 implies -k <= #[trigger] s.data[i] <= k by {
        if 0 <= i < n * n {
            lemma_div_small(i, n);
            let r = i / n;
            let c = i % n;
            let sr = if r >= dr { r + 1 } else { r };
            let sc = if c >= dc { c + 1 } else { c };
            lemma_cell_within(m, sr, sc, k);
        }
    }
}

/// One cofactor-expansion term of a bounded matrix is bounded.
proof fn lemma_term_bound(m: MatV, x: int)
    requires
        mat_square(m),
        m.rows >= 3,
        mat_within(m, MAT_LIM as int),
        0 <= x < m.columns,
    ensures
        m.rows == 3 ==> -2_200_000_000_000_000_000int
            <= fx_mul_s(mat_at(m, 0, x), cof_s(m, 0, x)) <= 2_200_000_000_000_000_000int,
        m.rows == 4 ==> -6_700_000_000_000_000_000_000int
            <= fx_mul_s(mat_at(m, 0, x), cof_s(m, 0, x)) <= 6_700_000_000_000_000_000_000int,
    decreases m.rows, 0int,
{
    lemma_cell_within(m, 0, x, MAT_LIM as int);
    lemma_sub_within(m, 0, x, MAT_LIM as int);
    lemma_det_bound(sub_s(m, 0, x));
    if m.rows == 3 {
        lemma_fx_mul_s_bound(mat_at(m, 0, x), cof_s(m, 0, x), MAT_LIM as int,
            DET2_LIM as int);
    } else if m.rows == 4 {
        lemma_fx_mul_s_bound(mat_at(m, 0, x), cof_s(m, 0, x), MAT_LIM as int,
            DET3_LIM as int);
    }
}

/// Determinants of bounded matrices are bounded, by size.
pub proof fn lemma_det_bound(m: MatV)
    requires
        mat_square(m),
        mat_within(m, MAT_LIM as int),
    ensures
        m.rows == 2 ==> -DET2_LIM <= det_s(m) <= DET2_LIM,
        m.rows == 3 ==> -DET3_LIM <= det_s(m) <= DET3_LIM,
        m.rows == 4 ==> -DET4_LIM <= det_s(m) <= DET4_LIM,
    decreases m.rows, 1int,
{
    if m.rows == 2 {
        lemma_cell_within(m, 0, 0, MAT_LIM as int);
        lemma_cell_within(m, 0, 1, MAT_LIM as int);
        lemma_cell_within(m, 1, 0, MAT_LIM as int);
        lemma_cell_within(m, 1, 1, MAT_LIM as int);
        lemma_prod_bound(mat_at(m, 0, 0), mat_at(m, 1, 1), MAT_LIM as int, MAT_LIM as int);
        lemma_prod_bound(mat_at(m, 1, 0), mat_at(m, 0, 1), MAT_LIM as int, MAT_LIM as int);
        lemma_rdiv_bound(mat_at(m, 0, 0) * mat_at(m, 1, 1) - mat_at(m, 1, 0) * mat_at(m, 0, 1),
            SCALE as int, 2_000_000_000_000_000_000_000_000int);
    } else if m.rows == 3 {
        lemma_term_bound(m, 0);
        lemma_term_bound(m, 1);
        lemma_term_bound(m, 2);
    } else {
        lemma_term_bound(m, 0);
        lemma_term_bound(m, 1);
        lemma_term_bound(m, 2);
        lemma_term_bound(m, 3);
    }
}

/// A bounded matrix applied to a bounded tuple gives a bounded tuple.
pub proof fn lemma_mul_tuple_bound(m: MatV, t: Vec4, km: int, kt: int)
    requires
        mat_square(m),
        m.rows == 4,
        mat_within(m, km),
        crate::tuple::tup_within(t, kt),
        0 <= km,
        0 <= kt,
    ensures
        crate::tuple::tup_within(mul_tuple_s(m, t),
            (4 * km * kt) / (SCALE as int) + 1),
{
    assert(0 <= 4 * km * kt) by (nonlinear_arith)
        requires
            0 <= km,
            0 <= kt,
    {}
    assert forall|r: int| 0 <= r < 4 implies
        -(4 * km * kt) <= #[trigger] (mat_at(m, r, 0) * t.x + mat_at(m, r, 1) * t.y
            + mat_at(m, r, 2) * t.z + mat_at(m, r, 3) * t.w) <= 4 * km * kt by {
        lemma_row_within(m, r, km);
        lemma_prod_bound(mat_at(m, r, 0), t.x, km, kt);
        lemma_prod_bound(mat_at(m, r, 1), t.y, km, kt);
        lemma_prod_bound(mat_at(m, r, 2), t.z, km, kt);
        lemma_prod_bound(mat_at(m, r, 3), t.w, km, kt);
        let p0 = mat_at(m, r, 0) * t.x;
        let p1 = mat_at(m, r, 1) * t.y;
        let p2 = mat_at(m, r, 2) * t.z;
        let p3 = mat_at(m, r, 3) * t.w;
        assert(-(4 * km * kt) <= p0 + p1 + p2 + p3 <= 4 * km * kt) by (nonlinear_arith)
            requires
                -(km * kt) <= p0 <= km * kt,
                -(km * kt) <= p1 <= km * kt,
                -(km * kt) <= p2 <= km * kt,
                -(km * kt) <= p3 <= km * kt,
        {}
    }
    lemma_rdiv_bound(mat_at(m, 0, 0) * t.x + mat_at(m, 0, 1) * t.y + mat_at(m, 0, 2) * t.z
        + mat_at(m, 0, 3) * t.w, SCALE as int, 4 * km * kt);
    lemma_rdiv_bound(mat_at(m, 1, 0) * t.x + mat_at(m, 1, 1) * t.y + mat_at(m, 1, 2) * t.z
        + mat_at(m, 1, 3) * t.w, SCALE as int, 4 * km * kt);
    lemma_rdiv_bound(mat_at(m, 2, 0) * t.x + mat_at(m, 2, 1) * t.y + mat_at(m, 2, 2) * t.z
        + mat_at(m, 2, 3) * t.w, SCALE as int, 4 * km * kt);
    lemma_rdiv_bound(mat_at(m, 3, 0) * t.x + mat_at(m, 3, 1) * t.y + mat_at(m, 3, 2) * t.z
        + mat_at(m, 3, 3) * t.w, SCALE as int, 4 * km * kt);
    lemma_div_range(4 * km * kt, SCALE as int, 4 * km * kt);
}

/// Bounds on each of the sixteen cells give `mat_within`.
pub proof fn lemma_within_cells(m: MatV, k: int)
    requires
        m.data.len() == 16,
        -k <= m.data[0] <= k,
        -k <= m.data[1] <= k,
        -k <= m.data[2] <= k,
        -k <= m.data[3] <= k,
        -k <= m.data[4] <= k,
        -k <= m.data[5] <= k,
        -k <= m.data[6] <= k,
        -k <= m.data[7] <= k,
        -k <= m.data[8] <= k,
        -k <= m.data[9] <= k,
        -k <= m.data[10] <= k,
        -k <= m.data[11] <= k,
        -k <= m.data[12] <= k,
        -k <= m.data[13] <= k,
        -k <= m.data[14] <= k,
        -k <= m.data[15] <= k,
    ensures
        mat_within(m, k),
{
    assert forall|i: int| 0 <= i < 16 implies -k <= #[trigger] m.data[i] <= k by {
        if i == 0 {
            assert(-k <= m.data[0] <= k);
        }
        if i == 1 {
            assert(-k <= m.data[1] <= k);
        }
        if i == 2 {
            assert(-k <= m.data[2] <= k);
        }
        if i == 3 {
            assert(-k <= m.data[3] <= k);
        }
        if i == 4 {
            assert(-k <= m.data[4] <= k);
        }
        if i == 5 {
            assert(-k <= m.data[5] <= k);
        }
        if i == 6 {
            assert(-k <= m.data[6] <= k);
        }
        if i == 7 {
            assert(-k <= m.data[7] <= k);
        }
        if i == 8 {
            assert(-k <= m.data[8] <= k);
        }
        if i == 9 {
            assert(-k <= m.data[9] <= k);
        }
        if i == 10 {
            assert(-k <= m.data[10] <= k);
        }
        if i == 11 {
            assert(-k <= m.data[11] <= k);
        }
        if i == 12 {
            assert(-k <= m.data[12] <= k);
        }
        if i == 13 {
            assert(-k <= m.data[13] <= k);
        }
        if i == 14 {
            assert(-k <= m.data[14] <= k);
        }
        if i == 15 {
            assert(-k <= m.data[15] <= k);
        }
    }
}

/// A valid row and column pair maps to a flat index below the cell
/// count.
pub proof fn lemma_flat_index(rows: int, columns: int, r: int, c: int)
    requires
        0 <= r < rows,
        0 <= c < columns,
        rows <= 4,
        columns <= 4,
    ensures
        0 <= r * columns + c < 16,
        r * columns + c < rows * columns,
        rows * columns <= 16,
{
    assert(0 <= r * columns + c < rows * columns && rows * columns <= 16)
        by (nonlinear_arith)
        requires
            0 <= r < rows,
            0 <= c < columns,
            rows <= 4,
            columns <= 4,
    {}
}

/// A pixel coordinate maps to a flat index below the cell count.
pub proof fn lemma_flat_pixel(width: int, height: int, x: int, y: int)
    requires
        0 <= x < width,
        0 <= y < height,
    ensures
        0 <= y * width + x < width * height,
{
    assert(0 <= y * width + x < width * height) by (nonlinear_arith)
        requires
            0 <= x < width,
            0 <= y < height,
    {}
}

/// A flat index below `w * h` splits into a column below `w` and a
/// row below `h`.
pub proof fn lemma_div_small_rect(k: int, w: int, h: int)
    requires
        0 <= k,
        0 < w,
        0 < h,
        k < w * h,
    ensures
        0 <= k % w < w,
        0 <= k / w < h,
{
    vstd::arithmetic::div_mod::lemma_div_pos_is_pos(k, w);
    vstd::arithmetic::div_mod::lemma_mod_bound(k, w);
    vstd::arithmetic::div_mod::lemma_multiply_divide_lt(k, w, h);
}

/// A flat index below `n * n` has quotient below `n`.
pub proof fn lemma_div_small(k: int, n: int)
    requires
        0 <= k,
        0 < n,
        k < n * n,
    ensures
        0 <= k / n < n,
        0 <= k % n < n,
{
    vstd::arithmetic::div_mod::lemma_div_pos_is_pos(k, n);
    vstd::arithmetic::div_mod::lemma_mod_bound(k, n);
    vstd::arithmetic::div_mod::lemma_multiply_divide_lt(k, n, n);
}

} // verus!
