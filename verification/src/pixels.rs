//! Pixels, and the grid of pixels that an image is, held in the `image`
//! crate's buffer type.

use image::ImageBuffer;
use image::Rgba;
use vstd::prelude::*;

verus! {

/// One colour sample: red, green, blue and alpha, eight bits each.
#[derive(Clone, Copy, Debug, PartialEq, Eq, Structural)]
pub struct Pixel {
    pub r: u8,
    pub g: u8,
    pub b: u8,
    pub a: u8,
}

impl Pixel {
    /// The bytes of a pixel in channel order.
    pub open spec fn bytes(self) -> Seq<u8> {
        seq![self.r, self.g, self.b, self.a]
    }

    /// The four bytes of the pixel: red, green, blue, alpha.
    pub fn as_bytes(&self) -> (r: [u8; 4])
        ensures
            r@ == self.bytes(),
    {
        let r: [u8; 4] = [self.r, self.g, self.b, self.a];
        assert(r@ =~= self.bytes());
        r
    }
}

/// A grid of RGBA pixels, eight bits per channel, kept in an
/// `image::ImageBuffer`. Verus sees nothing inside; the contracts speak of
/// [`grid_size`] and [`grid_pixels`].
#[verifier::external_body]
pub struct PixelGrid {
    inner: ImageBuffer<Rgba<u8>, Vec<u8>>,
}

/// The width and the height of a grid, in pixels.
pub uninterp spec fn grid_size(grid: PixelGrid) -> (nat, nat);

/// The pixels of a grid, row after row: the pixel in column `x` of row
/// `y` is entry `y * width + x`.
pub uninterp spec fn grid_pixels(grid: PixelGrid) -> Seq<Pixel>;

/// What a grid is to the contracts: its measures and its pixels.
pub struct GridView {
    pub width: nat,
    pub height: nat,
    pub pixels: Seq<Pixel>,
}

impl GridView {
    /// There is one pixel for each place of the grid.
    pub open spec fn wf(self) -> bool {
        self.pixels.len() == self.width * self.height
    }

    /// The pixel in column `x` of row `y`.
    pub open spec fn pixel(self, x: int, y: int) -> Pixel {
        self.pixels[y * self.width + x]
    }
}

impl View for PixelGrid {
    type V = GridView;

    open spec fn view(&self) -> GridView {
        GridView {
            width: grid_size(*self).0,
            height: grid_size(*self).1,
            pixels: grid_pixels(*self),
        }
    }
}

/// The pixel with every channel at zero.
pub open spec fn blank_pixel() -> Pixel {
    Pixel { r: 0, g: 0, b: 0, a: 0 }
}

/// Whether a grid of the given measures can be held: the bytes of one
/// row can be counted in `usize`, and the bytes of all rows are no more
/// than a vector takes.
pub open spec fn grid_fits(width: u32, height: u32) -> bool {
    4 * width <= usize::MAX && 4 * (width * height) <= isize::MAX
}

/// Calls `ImageBuffer::new`. It counts the bytes in `usize`, four times the
/// width first and that times the height, and panics where either product
/// overflows; then it allocates a vector of that many zero bytes, which
/// panics where they are more than a vector takes.
#[verifier::external_body]
pub(crate) fn grid_new(width: u32, height: u32) -> (grid: PixelGrid)
    requires
        grid_fits(width, height),
    ensures
        grid_size(grid).0 == width,
        grid_size(grid).1 == height,
        grid_pixels(grid) == Seq::new((width * height) as nat, |i: int| blank_pixel()),
{
    PixelGrid { inner: ImageBuffer::new(width, height) }
}

/// Calls `ImageBuffer::dimensions`, which returns the stored width and
/// height. A grid is only ever made by [`grid_new`], so its measures passed
/// the count of `ImageBuffer::new`, and its buffer is a vector with four
/// bytes for each of its `width * height` pixels.
#[verifier::external_body]
pub(crate) fn grid_dimensions(grid: &PixelGrid) -> (d: (u32, u32))
    ensures
        d.0 == grid_size(*grid).0,
        d.1 == grid_size(*grid).1,
        grid_pixels(*grid).len() == d.0 * d.1,
        grid_fits(d.0, d.1),
{
    grid.inner.dimensions()
}

/// Calls `ImageBuffer::get_pixel`, which panics outside the grid and
/// otherwise reads the four bytes at `(y * width + x) * 4`.
#[verifier::external_body]
pub(crate) fn grid_get_pixel(grid: &PixelGrid, x: u32, y: u32) -> (p: Pixel)
    requires
        x < grid_size(*grid).0,
        y < grid_size(*grid).1,
    ensures
        p == grid_pixels(*grid)[y * grid_size(*grid).0 + x],
{
    let q = grid.inner.get_pixel(x, y);
    Pixel { r: q.0[0], g: q.0[1], b: q.0[2], a: q.0[3] }
}

/// Calls `ImageBuffer::put_pixel`, which panics outside the grid and
/// otherwise overwrites the four bytes at `(y * width + x) * 4`.
#[verifier::external_body]
pub(crate) fn grid_put_pixel(grid: &mut PixelGrid, x: u32, y: u32, p: Pixel)
    requires
        x < grid_size(*old(grid)).0,
        y < grid_size(*old(grid)).1,
    ensures
        grid_size(*final(grid)) == grid_size(*old(grid)),
        grid_pixels(*final(grid)) == grid_pixels(*old(grid)).update(
            y * grid_size(*old(grid)).0 + x,
            p,
        ),
{
    grid.inner.put_pixel(x, y, Rgba([p.r, p.g, p.b, p.a]))
}

impl PixelGrid {
    /// A grid of the given measures with every pixel blank, or `None` where
    /// such a grid cannot be held.
    pub fn new(width: u32, height: u32) -> (r: Option<PixelGrid>)
        ensures
            r is Some <==> grid_fits(width, height),
            r is Some ==> r->Some_0@ == (GridView {
                width: width as nat,
                height: height as nat,
                pixels: Seq::new((width * height) as nat, |i: int| blank_pixel()),
            }),
            r is Some ==> r->Some_0@.wf(),
    {
        assert(width * height <= 0xffff_ffff * 0xffff_ffff) by (nonlinear_arith)
            requires
                width <= 0xffff_ffff,
                height <= 0xffff_ffff,
        ;
        let places: u64 = (width as u64) * (height as u64);
        let bytes: u128 = 4 * (places as u128);
        let row: u64 = 4 * (width as u64);
        if row as u128 <= usize::MAX as u128 && bytes <= isize::MAX as u128 {
            Some(grid_new(width, height))
        } else {
            None
        }
    }

    /// The width and the height of the grid.
    pub fn dimensions(&self) -> (d: (u32, u32))
        ensures
            d.0 == self@.width,
            d.1 == self@.height,
            self@.wf(),
            grid_fits(d.0, d.1),
    {
        grid_dimensions(self)
    }

    /// The pixel in column `x` of row `y`, or `None` outside the grid.
    pub fn get_pixel(&self, x: u32, y: u32) -> (r: Option<Pixel>)
        ensures
            r == if x < self@.width && y < self@.height {
                Some(self@.pixel(x as int, y as int))
            } else {
                None
            },
    {
        let (w, h) = grid_dimensions(self);
        if x < w && y < h {
            Some(grid_get_pixel(self, x, y))
        } else {
            None
        }
    }

    /// Writes a pixel in column `x` of row `y`. Outside the grid nothing
    /// changes, and the answer is `false`.
    pub fn put_pixel(&mut self, x: u32, y: u32, p: Pixel) -> (done: bool)
        ensures
            done == (x < old(self)@.width && y < old(self)@.height),
            done ==> final(self)@ == (GridView {
                pixels: old(self)@.pixels.update(y * old(self)@.width + x, p),
                ..old(self)@
            }),
            !done ==> final(self)@ == old(self)@,
    {
        let (w, h) = grid_dimensions(self);
        if x < w && y < h {
            grid_put_pixel(self, x, y, p);
            true
        } else {
            false
        }
    }
}

} // verus!
