//! The raster: a fixed grid of pixels, default black.

use vstd::prelude::*;
use crate::color::Color;
use crate::color::Rgb;
use crate::color::black_s;

verus! {

/// A pixel grid in row-major order.
#[derive(Debug)]
pub struct Canvas {
    pub width: usize,
    pub height: usize,
    pub pixels: Vec<Color>,
}

impl View for Canvas {
    type V = Seq<Rgb>;

    open spec fn view(&self) -> Seq<Rgb> {
        self.pixels@.map_values(|c: Color| c@)
    }
}

/// A canvas is consistent when it holds exactly one pixel per cell.
pub open spec fn canvas_wf(c: Canvas) -> bool {
    c.pixels@.len() == c.width * c.height
}

impl Canvas {
    /// A black canvas.
    pub fn new(width: usize, height: usize) -> (c: Canvas)
        requires
            width * height <= 100_000_000,
        ensures
            c.width == width,
            c.height == height,
            canvas_wf(c),
            forall|i: int| 0 <= i < c@.len() ==> #[trigger] c@[i] == black_s(),
    {
        Canvas::new_filled(width, height, Color::black())
    }

    /// A canvas filled with one color.
    pub fn new_filled(width: usize, height: usize, color: Color) -> (c: Canvas)
        requires
            width * height <= 100_000_000,
        ensures
            c.width == width,
            c.height == height,
            canvas_wf(c),
            forall|i: int| 0 <= i < c@.len() ==> #[trigger] c@[i] == color@,
    {
        let total = width * height;
        let mut pixels: Vec<Color> = Vec::new();
        let mut i: usize = 0;
        while i < total
            invariant
                0 <= i <= total,
                pixels@.len() == i,
                forall|j: int| 0 <= j < i ==> #[trigger] pixels@[j]@ == color@,
            decreases total - i,
        {
            pixels.push(color);
            i += 1;
        }
        Canvas { width, height, pixels }
    }

    /// Replaces the pixel at `(x, y)`.
    pub fn write_pixel(&mut self, x: usize, y: usize, color: Color)
        requires
            canvas_wf(*old(self)),
            x < old(self).width,
            y < old(self).height,
        ensures
            final(self).width == old(self).width,
            final(self).height == old(self).height,
            canvas_wf(*final(self)),
            final(self)@ == old(self)@.update(y * old(self).width + x, color@),
    {
        // The pixel count is a vector length, so the flat index below
        // fits in a usize.
        let total = self.pixels.len();
        proof {
            crate::matrix::lemma_flat_pixel(self.width as int, self.height as int,
                x as int, y as int);
        }
        let idx = y * self.width + x;
        self.pixels[idx] = color;
        proof {
            assert(self@ =~= old(self)@.update(y as int * old(self).width as int + x as int,
                color@));
        }
    }

    /// The pixel at `(x, y)`.
    pub fn pixel_at(&self, x: usize, y: usize) -> (c: Color)
        requires
            canvas_wf(*self),
            x < self.width,
            y < self.height,
        ensures
            c@ == self@[y * self.width + x],
    {
        // The pixel count is a vector length, so the flat index below
        // fits in a usize.
        let total = self.pixels.len();
        proof {
            crate::matrix::lemma_flat_pixel(self.width as int, self.height as int,
                x as int, y as int);
        }
        let idx = y * self.width + x;
        self.pixels[idx]
    }
}

} // verus!
