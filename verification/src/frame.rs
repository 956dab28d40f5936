//! RGBA frames: the rasters that everything else reads.

use vstd::prelude::*;

verus! {

/// One red-green-blue colour.
#[derive(Debug, Clone, Copy, PartialEq, Eq, Structural)]
pub struct Rgb {
    pub r: u8,
    pub g: u8,
    pub b: u8,
}

/// An RGBA raster: `width * height` pixels in row-major order, four bytes
/// (red, green, blue, alpha) per pixel.
#[derive(Debug, Clone)]
pub struct Frame {
    pub width: u32,
    pub height: u32,
    pub pixels: Vec<u8>,
}

/// Row-major offsets stay inside a `w * h` raster of four-byte pixels.
pub proof fn lemma_pixel_offset(x: int, y: int, w: int, h: int)
    requires
        0 <= x < w,
        0 <= y < h,
    ensures
        0 <= y * w + x < w * h,
        (y * w + x) * 4 + 3 < w * h * 4,
{
    assert(y * w + x < w * h) by (nonlinear_arith)
        requires
            0 <= x < w,
            0 <= y < h,
    ;
    assert(0 <= y * w) by (nonlinear_arith)
        requires
            0 <= y,
            0 <= w,
    ;
}

impl Frame {
    /// The buffer holds exactly four bytes for each of the `width * height` pixels.
    pub open spec fn wf(&self) -> bool {
        self.pixels@.len() == self.width as int * self.height as int * 4
    }

    /// Number of pixels in the raster.
    pub open spec fn pixel_count(&self) -> int {
        self.width as int * self.height as int
    }

    /// Colour of the `k`-th pixel in row-major order.
    pub open spec fn rgb_at(&self, k: int) -> Rgb {
        Rgb { r: self.pixels@[4 * k], g: self.pixels@[4 * k + 1], b: self.pixels@[4 * k + 2] }
    }

    /// Alpha of the `k`-th pixel in row-major order.
    pub open spec fn alpha_at(&self, k: int) -> u8 {
        self.pixels@[4 * k + 3]
    }

    /// Alpha of the pixel in column `x` of row `y`.
    pub open spec fn alpha_xy(&self, x: int, y: int) -> u8 {
        self.alpha_at(y * self.width + x)
    }

    /// The pixel at (`x`, `y`) lies inside the raster and is not fully transparent.
    pub open spec fn occupied(&self, x: int, y: int) -> bool {
        &&& 0 <= x < self.width
        &&& 0 <= y < self.height
        &&& self.alpha_xy(x, y) > 0
    }

    /// Wraps a pixel buffer, provided its length fits the dimensions.
    pub fn new(width: u32, height: u32, pixels: Vec<u8>) -> (r: Option<Frame>)
        ensures
            r is Some <==> pixels@.len() == width as int * height as int * 4,
            r matches Some(f) ==> f.wf() && f.width == width && f.height == height && f.pixels
                == pixels,
    {
        assert(width as int * height as int * 4 <= 0xFFFF_FFFF * 0xFFFF_FFFF * 4)
            by (nonlinear_arith)
            requires
                0 <= width <= 0xFFFF_FFFF,
                0 <= height <= 0xFFFF_FFFF,
        ;
        assert(0 <= width as int * height as int) by (nonlinear_arith)
            requires
                0 <= width,
                0 <= height,
        ;
        let expected: u128 = (width as u128) * (height as u128) * 4;
        if pixels.len() as u128 == expected {
            Some(Frame { width, height, pixels })
        } else {
            None
        }
    }

    /// Whether the frame is well formed and has the given dimensions.
    pub fn has_size(&self, width: u32, height: u32) -> (b: bool)
        ensures
            b == (self.wf() && self.width == width && self.height == height),
    {
        assert(self.width as int * self.height as int * 4 <= 0xFFFF_FFFF * 0xFFFF_FFFF * 4)
            by (nonlinear_arith)
            requires
                0 <= self.width <= 0xFFFF_FFFF,
                0 <= self.height <= 0xFFFF_FFFF,
        ;
        assert(0 <= self.width as int * self.height as int) by (nonlinear_arith)
            requires
                0 <= self.width,
                0 <= self.height,
        ;
        let expected: u128 = (self.width as u128) * (self.height as u128) * 4;
        self.pixels.len() as u128 == expected && self.width == width && self.height == height
    }

    /// Number of pixels, as a machine integer.
    pub fn len(&self) -> (n: usize)
        requires
            self.wf(),
        ensures
            n == self.pixel_count(),
    {
        assert(0 <= self.width as int * self.height as int) by (nonlinear_arith)
            requires
                0 <= self.width,
                0 <= self.height,
        ;
        self.pixels.len() / 4
    }

    /// Colour of the `k`-th pixel.
    pub fn rgb(&self, k: usize) -> (c: Rgb)
        requires
            self.wf(),
            k < self.pixel_count(),
        ensures
            c == self.rgb_at(k as int),
    {
        let n = self.pixels.len();
        assert(4 * k + 3 < n);
        Rgb { r: self.pixels[4 * k], g: self.pixels[4 * k + 1], b: self.pixels[4 * k + 2] }
    }

    /// Alpha of the `k`-th pixel.
    pub fn alpha(&self, k: usize) -> (a: u8)
        requires
            self.wf(),
            k < self.pixel_count(),
        ensures
            a == self.alpha_at(k as int),
    {
        let n = self.pixels.len();
        assert(4 * k + 3 < n);
        self.pixels[4 * k + 3]
    }

    /// Row-major position of the pixel in column `x` of row `y`.
    pub fn offset(&self, x: u32, y: u32) -> (k: usize)
        requires
            self.wf(),
            x < self.width,
            y < self.height,
        ensures
            k == y as int * self.width as int + x as int,
            k < self.pixel_count(),
    {
        proof {
            lemma_pixel_offset(x as int, y as int, self.width as int, self.height as int);
        }
        let n = self.pixels.len();
        assert(y as int * self.width as int + x as int <= n);
        y as usize * self.width as usize + x as usize
    }
}

} // verus!
