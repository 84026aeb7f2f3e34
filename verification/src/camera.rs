//! The camera: maps pixel coordinates to primary rays and drives the
//! per-pixel render loop.
//!
//! The field of view enters as the tangent of half the view angle,
//! since the trigonometric evaluation is not part of this library's
//! arithmetic.

use vstd::prelude::*;
use crate::canvas::Canvas;
use crate::canvas::canvas_wf;
use crate::color::Rgb;
use crate::fixed::HALF_SCALE;
use crate::fixed::SCALE;
use crate::fixed::fx_div;
use crate::fixed::fx_div_s;
use crate::fixed::fx_mul;
use crate::fixed::fx_mul_s;
use crate::matrix::MatV;
use crate::matrix::Matrix;
use crate::matrix::identity_s;
use crate::matrix::inverse_s;
use crate::matrix::is_invertible_s;
use crate::matrix::mat_square;
use crate::matrix::mat_within;
use crate::matrix::mul_tuple_s;
use crate::matrix::MAT_LIM;
use crate::ray::Ray;
use crate::ray::RayV;
use crate::shape::SHAPE_CELL_LIM;
use crate::tuple::Tuple;
use crate::tuple::Vec4;
use crate::tuple::mag_s;
use crate::tuple::norm_s;
use crate::tuple::tup_minus;
use crate::world::World;
use crate::world::color_at_s;
use crate::world::world_wf;

verus! {

/// The reflection and refraction budget of the primary rays.
pub const DEFAULT_BOUNCES: u8 = 5;

/// The mathematical value of a camera.
pub ghost struct CameraV {
    pub hsize: int,
    pub vsize: int,
    pub half_view: int,
    pub pixel_size: int,
    pub half_width: int,
    pub half_height: int,
    pub transform: MatV,
    pub inverse: MatV,
}

/// A camera: the raster size, the tangent of half the field of view,
/// the derived pixel geometry, and the view transform with its stored
/// inverse.
#[derive(Debug, Clone, Copy)]
pub struct Camera {
    pub hsize: usize,
    pub vsize: usize,
    pub half_view: i128,
    pub pixel_size: i128,
    pub half_width: i128,
    pub half_height: i128,
    pub transform: Matrix,
    pub inverse: Matrix,
}

impl View for Camera {
    type V = CameraV;

    open spec fn view(&self) -> CameraV {
        CameraV {
            hsize: self.hsize as int,
            vsize: self.vsize as int,
            half_view: self.half_view as int,
            pixel_size: self.pixel_size as int,
            half_width: self.half_width as int,
            half_height: self.half_height as int,
            transform: self.transform@,
            inverse: self.inverse@,
        }
    }
}

/// The aspect ratio of the raster.
pub open spec fn cam_aspect(hsize: int, vsize: int) -> int {
    fx_div_s(hsize * (SCALE as int), vsize * (SCALE as int))
}

/// Half the world width of the view plane.
pub open spec fn cam_half_width(hsize: int, vsize: int, half_view: int) -> int {
    if cam_aspect(hsize, vsize) >= SCALE as int {
        half_view
    } else {
        fx_mul_s(half_view, cam_aspect(hsize, vsize))
    }
}

/// Half the world height of the view plane.
pub open spec fn cam_half_height(hsize: int, vsize: int, half_view: int) -> int {
    if cam_aspect(hsize, vsize) >= SCALE as int {
        fx_div_s(half_view, cam_aspect(hsize, vsize))
    } else {
        half_view
    }
}

/// The world size of one pixel.
pub open spec fn cam_pixel_size(hsize: int, vsize: int, half_view: int) -> int {
    fx_div_s(2 * cam_half_width(hsize, vsize, half_view), hsize * (SCALE as int))
}

/// A camera the pipeline accepts: a small positive raster, bounded
/// nonnegative pixel geometry, and a bounded transform pair.
pub open spec fn camera_wf(c: CameraV) -> bool {
    &&& 1 <= c.hsize <= 10_000
    &&& 1 <= c.vsize <= 10_000
    &&& 0 <= c.half_view <= 1_000_000_000_000int
    &&& 0 <= c.pixel_size
    &&& 0 <= c.half_width <= 1_000_000_000_000int
    &&& 0 <= c.half_height <= 1_000_000_000_000int
    &&& c.hsize * c.pixel_size <= 4_000_000_000_000int
    &&& c.vsize * c.pixel_size <= 4_000_000_000_000int
    &&& mat_square(c.transform)
    &&& c.transform.rows == 4
    &&& mat_within(c.transform, SHAPE_CELL_LIM as int)
    &&& mat_square(c.inverse)
    &&& c.inverse.rows == 4
    &&& mat_within(c.inverse, SHAPE_CELL_LIM as int)
}

/// The primary ray through the center of pixel `(px, py)`: the pixel
/// and the eye carried to world space by the inverse view transform,
/// the direction their normalized difference (or the zero vector when
/// degenerate).
pub open spec fn ray_for_pixel_s(c: CameraV, px: int, py: int) -> RayV {
    let xoffset = fx_mul_s(px * (SCALE as int) + (HALF_SCALE as int), c.pixel_size);
    let yoffset = fx_mul_s(py * (SCALE as int) + (HALF_SCALE as int), c.pixel_size);
    let worldx = c.half_width - xoffset;
    let worldy = c.half_height - yoffset;
    let pixel = mul_tuple_s(c.inverse, Vec4 {
        x: worldx,
        y: worldy,
        z: -(SCALE as int),
        w: SCALE as int,
    });
    let origin = mul_tuple_s(c.inverse, Vec4 { x: 0, y: 0, z: 0, w: SCALE as int });
    let diff = tup_minus(pixel, origin);
    let direction = if mag_s(diff) >= 1 {
        norm_s(diff)
    } else {
        Vec4 { x: 0, y: 0, z: 0, w: 0 }
    };
    RayV { origin: origin, direction: direction }
}

/// The color of the flat pixel `k` of a render.
pub open spec fn render_pixel_s(c: CameraV, w: crate::world::WorldV, k: int) -> Rgb {
    color_at_s(w, ray_for_pixel_s(c, k % c.hsize, k / c.hsize), DEFAULT_BOUNCES as nat)
}

impl Camera {
    /// A camera from the raster size, the tangent of half the field
    /// of view, and an optional view transform.
    pub fn new(hsize: usize, vsize: usize, half_view: i128, transform: Option<Matrix>)
        -> (c: Camera)
        requires
            1 <= hsize <= 10_000,
            1 <= vsize <= 10_000,
            0 <= half_view <= 1_000_000_000_000i128,
            (transform matches Option::Some(m) ==> {
                &&& mat_square(m@)
                &&& m@.rows == 4
                &&& mat_within(m@, MAT_LIM as int)
                &&& mat_within(m@, SHAPE_CELL_LIM as int)
                &&& is_invertible_s(m@)
                &&& mat_within(inverse_s(m@), SHAPE_CELL_LIM as int)
            }),
            cam_half_width(hsize as int, vsize as int, half_view as int)
                <= 1_000_000_000_000int,
            cam_half_height(hsize as int, vsize as int, half_view as int)
                <= 1_000_000_000_000int,
            cam_half_width(hsize as int, vsize as int, half_view as int) >= 0,
            cam_half_height(hsize as int, vsize as int, half_view as int) >= 0,
            cam_pixel_size(hsize as int, vsize as int, half_view as int) >= 0,
            hsize * cam_pixel_size(hsize as int, vsize as int, half_view as int)
                <= 4_000_000_000_000int,
            vsize * cam_pixel_size(hsize as int, vsize as int, half_view as int)
                <= 4_000_000_000_000int,
        ensures
            c@.hsize == hsize,
            c@.vsize == vsize,
            c@.half_view == half_view,
            c@.half_width == cam_half_width(hsize as int, vsize as int, half_view as int),
            c@.half_height == cam_half_height(hsize as int, vsize as int, half_view as int),
            c@.pixel_size == cam_pixel_size(hsize as int, vsize as int, half_view as int),
            c@.transform == (match transform {
                Option::Some(m) => m@,
                Option::None => identity_s(),
            }),
            c@.inverse == (match transform {
                Option::Some(m) => inverse_s(m@),
                Option::None => identity_s(),
            }),
            camera_wf(c@),
    {
        let g = derive_geometry(hsize, vsize, half_view);
        let half_width = g.0;
        let half_height = g.1;
        let pixel_size = g.2;
        let (t, inv) = match transform {
            Option::Some(m) => {
                let i = m.inverse();
                (m, i)
            },
            Option::None => {
                proof {
                    crate::matrix::lemma_within_cells(identity_s(), SHAPE_CELL_LIM as int);
                }
                (Matrix::identity(), Matrix::identity())
            },
        };
        Camera {
            hsize,
            vsize,
            half_view,
            pixel_size,
            half_width,
            half_height,
            transform: t,
            inverse: inv,
        }
    }

    /// The primary ray through the center of a pixel.
    pub fn ray_for_pixel(&self, px: usize, py: usize) -> (r: Ray)
        requires
            camera_wf(self@),
            px < self@.hsize,
            py < self@.vsize,
        ensures
            r@ == ray_for_pixel_s(self@, px as int, py as int),
    {
        let pxs = (px as i128) * SCALE + HALF_SCALE;
        let pys = (py as i128) * SCALE + HALF_SCALE;
        proof {
            lemma_offset_bound(px as int, self@.hsize, self@.pixel_size);
            lemma_offset_bound(py as int, self@.vsize, self@.pixel_size);
        }
        let xoffset = fx_mul(pxs, self.pixel_size);
        let yoffset = fx_mul(pys, self.pixel_size);
        let worldx = self.half_width - xoffset;
        let worldy = self.half_height - yoffset;
        let target = Tuple::point(worldx, worldy, -SCALE);
        proof {
            crate::matrix::lemma_mul_tuple_bound(self@.inverse, target@,
                80_000_000_000int, 5_100_000_000_000int);
            crate::matrix::lemma_mul_tuple_bound(self@.inverse,
                Vec4 { x: 0, y: 0, z: 0, w: SCALE as int },
                80_000_000_000int, 1_000_000_000int);
        }
        let pixel = self.inverse.times_tuple(&target);
        let zero = Tuple::point(0, 0, 0);
        let origin = self.inverse.times_tuple(&zero);
        let diff = pixel.minus(&origin);
        let m = diff.magnitude();
        let direction = if m >= 1 {
            diff.normalize()
        } else {
            Tuple::vector(0, 0, 0)
        };
        Ray::new(&origin, &direction)
    }

    /// Renders the world: every pixel's primary ray resolved with the
    /// default bounce budget, in raster order.
    pub fn render(&self, w: &World) -> (c: Canvas)
        requires
            camera_wf(self@),
            world_wf(w@),
        ensures
            c.width == self@.hsize,
            c.height == self@.vsize,
            canvas_wf(c),
            forall|k: int| 0 <= k < c@.len() ==> #[trigger] c@[k]
                == render_pixel_s(self@, w@, k),
    {
        proof {
            assert(self@.hsize * self@.vsize <= 100_000_000int) by (nonlinear_arith)
                requires
                    1 <= self@.hsize <= 10_000,
                    1 <= self@.vsize <= 10_000,
            {}
        }
        let total = self.hsize * self.vsize;
        let mut canvas = Canvas::new(self.hsize, self.vsize);
        let mut k: usize = 0;
        while k < total
            invariant
                0 <= k <= total,
                total == self@.hsize * self@.vsize,
                camera_wf(self@),
                world_wf(w@),
                canvas.width == self@.hsize,
                canvas.height == self@.vsize,
                canvas_wf(canvas),
                canvas@.len() == total,
                forall|j: int| 0 <= j < k ==> #[trigger] canvas@[j]
                    == render_pixel_s(self@, w@, j),
            decreases total - k,
        {
            let x = k % self.hsize;
            let y = k / self.hsize;
            proof {
                crate::matrix::lemma_div_small_rect(k as int, self@.hsize, self@.vsize);
            }
            let ray = self.ray_for_pixel(x, y);
            let color = w.color_at(&ray, DEFAULT_BOUNCES);
            let ghost pre = canvas@;
            canvas.write_pixel(x, y, color);
            proof {
                vstd::arithmetic::div_mod::lemma_fundamental_div_mod(k as int,
                    self@.hsize);
                vstd::arithmetic::mul::lemma_mul_is_commutative(y as int, self@.hsize);
                assert(y * canvas.width + x == k);
                assert(canvas@ =~= pre.update(k as int, color@));
            }
            k += 1;
        }
        canvas
    }
}

/// The pixel offset along an axis is bounded by the view-plane size.
proof fn lemma_offset_bound(p: int, psize: int, pixel_size: int)
    requires
        0 <= p < psize,
        1 <= psize <= 10_000,
        0 <= pixel_size,
        psize * pixel_size <= 4_000_000_000_000int,
    ensures
        0 <= fx_mul_s(p * (SCALE as int) + (HALF_SCALE as int), pixel_size)
            <= 4_100_000_000_000int,
        pixel_size <= 4_000_000_000_000int,
{
    let s = SCALE as int;
    let pf = p * s + (HALF_SCALE as int);
    assert(0 <= pf && pf <= psize * s) by (nonlinear_arith)
        requires
            pf == p * s + (HALF_SCALE as int),
            0 <= p < psize,
            s == 1_000_000_000int,
            HALF_SCALE as int == 500_000_000int,
    {}
    assert(pixel_size <= 4_000_000_000_000int) by (nonlinear_arith)
        requires
            1 <= psize,
            0 <= pixel_size,
            psize * pixel_size <= 4_000_000_000_000int,
    {}
    assert(0 <= pf * pixel_size <= 4_000_000_000_000_000_000_000int) by (nonlinear_arith)
        requires
            0 <= pf,
            pf <= psize * s,
            0 <= pixel_size,
            psize * pixel_size <= 4_000_000_000_000int,
            s == 1_000_000_000int,
    {}
    crate::fixed::lemma_rdiv_bound(pf * pixel_size, s, 4_000_000_000_000_000_000_000int);
    vstd::arithmetic::div_mod::lemma_div_pos_is_pos(pf * pixel_size + s / 2, s);
}

/// The derived pixel geometry of a camera: half the view-plane width
/// and height, and the world size of one pixel.
fn derive_geometry(hsize: usize, vsize: usize, half_view: i128) -> (r: (i128, i128, i128))
    requires
        1 <= hsize <= 10_000,
        1 <= vsize <= 10_000,
        0 <= half_view <= 1_000_000_000_000i128,
    ensures
        r.0 == cam_half_width(hsize as int, vsize as int, half_view as int),
        r.1 == cam_half_height(hsize as int, vsize as int, half_view as int),
        r.2 == cam_pixel_size(hsize as int, vsize as int, half_view as int),
        -20_000_000_000_000_000i128 <= r.0 <= 20_000_000_000_000_000i128,
        -20_000_000_000_000_000_000i128 <= r.2 <= 20_000_000_000_000_000_000i128,
{
    let hs = (hsize as i128) * SCALE;
    let vs = (vsize as i128) * SCALE;
    let aspect = fx_div(hs, vs);
    proof {
        crate::fixed::lemma_fx_div_s_bound_ge(hs as int, vs as int,
            10_000_000_000_000int, 1_000_000_000int);
    }
    let (half_width, half_height) = if aspect >= SCALE {
        (half_view, fx_div(half_view, aspect))
    } else {
        (fx_mul(half_view, aspect), half_view)
    };
    proof {
        crate::fixed::lemma_fx_mul_s_bound(half_view as int, aspect as int,
            1_000_000_000_000int, 10_000_000_000_001int);
        if aspect >= SCALE {
            crate::fixed::lemma_fx_div_s_bound_ge(half_view as int, aspect as int,
                1_000_000_000_000int, 1_000_000_000int);
        }
    }
    let pixel_size = fx_div(2 * half_width, hs);
    proof {
        crate::fixed::lemma_fx_div_s_bound_ge(2 * half_width as int, hs as int,
            20_000_000_000_100_000int, 1_000_000_000int);
    }
    (half_width, half_height, pixel_size)
}

/// Whether a raster size and half-view tangent yield a camera the
/// pipeline accepts: nonnegative bounded pixel geometry on both axes.
/// A program can test this before building a camera.
pub fn settings_ok(hsize: usize, vsize: usize, half_view: i128) -> (r: bool)
    requires
        1 <= hsize <= 10_000,
        1 <= vsize <= 10_000,
        0 <= half_view <= 1_000_000_000_000i128,
    ensures
        r == {
            let hw = cam_half_width(hsize as int, vsize as int, half_view as int);
            let hh = cam_half_height(hsize as int, vsize as int, half_view as int);
            let ps = cam_pixel_size(hsize as int, vsize as int, half_view as int);
            &&& 0 <= hw <= 1_000_000_000_000int
            &&& 0 <= hh <= 1_000_000_000_000int
            &&& 0 <= ps
            &&& hsize * ps <= 4_000_000_000_000int
            &&& vsize * ps <= 4_000_000_000_000int
        },
{
    let g = derive_geometry(hsize, vsize, half_view);
    proof {
        assert(-200_000_000_000_000_000_000_000int
            <= (hsize as int) * (g.2 as int) <= 200_000_000_000_000_000_000_000int)
            by (nonlinear_arith)
            requires
                1 <= hsize <= 10_000,
                -20_000_000_000_000_000_000int <= g.2 <= 20_000_000_000_000_000_000int,
        {}
        assert(-200_000_000_000_000_000_000_000int
            <= (vsize as int) * (g.2 as int) <= 200_000_000_000_000_000_000_000int)
            by (nonlinear_arith)
            requires
                1 <= vsize <= 10_000,
                -20_000_000_000_000_000_000int <= g.2 <= 20_000_000_000_000_000_000int,
        {}
    }
    0 <= g.0 && g.0 <= 1_000_000_000_000
        && 0 <= g.1 && g.1 <= 1_000_000_000_000
        && 0 <= g.2
        && (hsize as i128) * g.2 <= 4_000_000_000_000
        && (vsize as i128) * g.2 <= 4_000_000_000_000
}

} // verus!
