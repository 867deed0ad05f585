use crate::arith::lemma_index_in_range;
use crate::pixel::Rgb;
use vstd::prelude::*;

verus! {

/// The pixel of the row-major raster `b` of width `w` at column `x` of
/// row `y`.
pub open spec fn at(b: Seq<Rgb>, w: int, x: int, y: int) -> Rgb {
    b[y * w + x]
}

/// A dense, row-major raster of [`Rgb`] pixels with explicit dimensions.
///
/// Every coordinate `(x, y)` with `x < width` and `y < height` maps to
/// exactly one stored pixel; no other coordinate is ever read or written.
/// The raster is never resized once built.
pub struct PixelBuffer {
    pub width: u32,
    pub height: u32,
    pub pixels: Vec<Rgb>,
}

impl PixelBuffer {
    /// The storage holds exactly one pixel per in-bounds coordinate.
    pub open spec fn wf(self) -> bool {
        self.pixels@.len() == self.width as int * self.height as int
    }

    /// The pixel stored at `(x, y)`.
    pub open spec fn pix(self, x: int, y: int) -> Rgb {
        at(self.pixels@, self.width as int, x, y)
    }

    /// A raster of the given dimensions with every pixel equal to `fill`.
    pub fn from_pixel(width: u32, height: u32, fill: Rgb) -> (buf: PixelBuffer)
        requires
            width as int * height as int <= usize::MAX as int,
        ensures
            buf.wf(),
            buf.width == width,
            buf.height == height,
            forall|i: int| 0 <= i < buf.pixels@.len() ==> buf.pixels@[i] == fill,
            forall|x: int, y: int|
                0 <= x < width && 0 <= y < height ==> buf.pix(x, y) == fill,
    {
        let n = (width as usize) * (height as usize);
        let mut pixels: Vec<Rgb> = Vec::new();
        while pixels.len() < n
            invariant
                pixels@.len() <= n,
                forall|i: int| 0 <= i < pixels@.len() ==> pixels@[i] == fill,
            decreases n - pixels@.len(),
        {
            pixels.push(fill);
        }
        let buf = PixelBuffer { width, height, pixels };
        proof {
            assert forall|x: int, y: int|
                0 <= x < width && 0 <= y < height implies buf.pix(x, y) == fill by {
                lemma_index_in_range(width as int, height as int, x, y);
            }
        }
        buf
    }

    /// An all-black raster of the given dimensions.
    pub fn new(width: u32, height: u32) -> (buf: PixelBuffer)
        requires
            width as int * height as int <= usize::MAX as int,
        ensures
            buf.wf(),
            buf.width == width,
            buf.height == height,
            forall|x: int, y: int|
                0 <= x < width && 0 <= y < height ==> buf.pix(x, y) == (Rgb {
                    r: 0,
                    g: 0,
                    b: 0,
                }),
    {
        PixelBuffer::from_pixel(width, height, Rgb::black())
    }

    /// Read the pixel at `(x, y)`.
    pub fn get_pixel(&self, x: u32, y: u32) -> (p: Rgb)
        requires
            self.wf(),
            x < self.width,
            y < self.height,
        ensures
            p == self.pix(x as int, y as int),
    {
        let _n = self.pixels.len();
        proof {
            lemma_index_in_range(self.width as int, self.height as int, x as int, y as int);
        }
        let i = (y as usize) * (self.width as usize) + (x as usize);
        self.pixels[i]
    }

    /// Replace the pixel at `(x, y)`.
    pub fn put_pixel(&mut self, x: u32, y: u32, p: Rgb)
        requires
            old(self).wf(),
            x < old(self).width,
            y < old(self).height,
        ensures
            final(self).wf(),
            final(self).width == old(self).width,
            final(self).height == old(self).height,
            final(self).pixels@ == old(self).pixels@.update(
                y as int * old(self).width as int + x as int,
                p,
            ),
    {
        let _n = self.pixels.len();
        proof {
            lemma_index_in_range(self.width as int, self.height as int, x as int, y as int);
        }
        let i = (y as usize) * (self.width as usize) + (x as usize);
        self.pixels.set(i, p);
    }
}

} // verus!
