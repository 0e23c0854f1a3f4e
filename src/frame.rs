//! Raw frame geometry: tightly packed RGB-family pixel layouts.
use vstd::prelude::*;

verus! {

/// Pixel layouts that the codec reads and writes.
#[derive(Clone, Copy, PartialEq, Eq, Debug, Structural)]
pub enum PixelFormat {
    /// Four bytes per pixel: red, green, blue, then an unused padding byte.
    Rgbx,
    /// Three bytes per pixel: red, green, blue.
    Rgb,
}

impl PixelFormat {
    pub open spec fn spec_bytes_per_pixel(self) -> nat {
        match self {
            PixelFormat::Rgbx => 4,
            PixelFormat::Rgb => 3,
        }
    }

    pub fn bytes_per_pixel(&self) -> (r: usize)
        ensures
            r == self.spec_bytes_per_pixel(),
    {
        match self {
            PixelFormat::Rgbx => 4,
            PixelFormat::Rgb => 3,
        }
    }
}

/// The negotiated shape of every frame of a stream segment.
#[derive(Clone, Copy, PartialEq, Eq, Debug, Structural)]
pub struct VideoGeometry {
    pub width: u32,
    pub height: u32,
    pub format: PixelFormat,
}

impl VideoGeometry {
    pub open spec fn bpp(self) -> int {
        self.format.spec_bytes_per_pixel() as int
    }

    /// Number of bytes a tightly packed frame of this geometry occupies.
    pub open spec fn frame_size(self) -> int {
        self.bpp() * (self.width * self.height)
    }

    /// Byte offset of the first channel of pixel `(x, y)`.
    pub open spec fn pixel_offset(self, x: int, y: int) -> int {
        self.bpp() * (x + self.width * y)
    }

    /// Byte offset of channel `c` of pixel `(x, y)`.
    pub open spec fn channel_index(self, x: int, y: int, c: int) -> int {
        self.pixel_offset(x, y) + c
    }

    /// Whether a buffer of `len` bytes holds a whole frame of this geometry.
    pub fn holds_frame(&self, len: usize) -> (r: bool)
        ensures
            r == (len >= self.frame_size()),
    {
        let bpp = self.format.bytes_per_pixel() as u128;
        let w = self.width as u128;
        let h = self.height as u128;
        assert(w * h <= 0xffff_ffff * 0xffff_ffff) by (nonlinear_arith)
            requires
                w <= 0xffff_ffff,
                h <= 0xffff_ffff,
        ;
        let area = w * h;
        assert(bpp * area <= 4 * (0xffff_ffff * 0xffff_ffff)) by (nonlinear_arith)
            requires
                area <= 0xffff_ffff * 0xffff_ffff,
                bpp <= 4,
        ;
        bpp * area <= len as u128
    }
}

/// Where a pixel `(x, y)` of a `width`-wide grid sits when the grid is
/// stored row by row, and why that index fits in the `width * height` cells.
pub proof fn lemma_cell_in_grid(width: int, height: int, x: int, y: int)
    requires
        0 <= x < width,
        0 <= y < height,
    ensures
        0 <= x + width * y < width * height,
        x + width * y + 1 <= width * height,
{
    assert(width * y <= width * (height - 1)) by (nonlinear_arith)
        requires
            0 <= y < height,
            0 < width,
    ;
    assert(width * (height - 1) == width * height - width) by (nonlinear_arith);
    assert(0 <= width * y) by (nonlinear_arith)
        requires
            0 <= y,
            0 < width,
    ;
}

/// Every channel byte of an in-frame pixel lies inside the frame.
pub proof fn lemma_channel_in_frame(g: VideoGeometry, x: int, y: int, c: int)
    requires
        0 <= x < g.width,
        0 <= y < g.height,
        0 <= c < g.bpp(),
    ensures
        0 <= g.channel_index(x, y, c) < g.frame_size(),
{
    let p = x + g.width * y;
    lemma_cell_in_grid(g.width as int, g.height as int, x, y);
    let b = g.bpp();
    let a = g.width * g.height;
    assert(0 <= b * p + c < b * a) by (nonlinear_arith)
        requires
            0 <= p,
            p + 1 <= a,
            0 <= c < b,
    ;
}

/// Distinct (pixel, channel) pairs of a frame occupy distinct bytes.
pub proof fn lemma_channels_distinct(
    g: VideoGeometry,
    x1: int,
    y1: int,
    c1: int,
    x2: int,
    y2: int,
    c2: int,
)
    requires
        0 <= x1 < g.width,
        0 <= y1 < g.height,
        0 <= c1 < g.bpp(),
        0 <= x2 < g.width,
        0 <= y2 < g.height,
        0 <= c2 < g.bpp(),
        x1 != x2 || y1 != y2 || c1 != c2,
    ensures
        g.channel_index(x1, y1, c1) != g.channel_index(x2, y2, c2),
{
    let w = g.width as int;
    let b = g.bpp();
    let cell_a = x1 + w * y1;
    let cell_b = x2 + w * y2;
    if y1 != y2 {
        assert(cell_a != cell_b) by (nonlinear_arith)
            requires
                0 <= x1 < w,
                0 <= x2 < w,
                y1 != y2,
                cell_a == x1 + w * y1,
                cell_b == x2 + w * y2,
        {
            if y1 < y2 {
                assert(w * y1 + w <= w * y2);
            } else {
                assert(w * y2 + w <= w * y1);
            }
        }
    }
    if cell_a != cell_b {
        assert(b * cell_a + c1 != b * cell_b + c2) by (nonlinear_arith)
            requires
                cell_a != cell_b,
                0 <= c1 < b,
                0 <= c2 < b,
        {
            if cell_a < cell_b {
                assert(b * cell_a + b <= b * cell_b);
            } else {
                assert(b * cell_b + b <= b * cell_a);
            }
        }
    }
}

} // verus!
