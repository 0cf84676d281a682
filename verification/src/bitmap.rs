//! Decoded bitmaps: the pixels of a BMP byte stream as plain values.

use crate::error::DecodeError;
use embedded_graphics::geometry::{OriginDimensions, Point};
use embedded_graphics::pixelcolor::{Rgb888, RgbColor};
use tinybmp::Bmp;
use vstd::prelude::*;

verus! {

/// The width and height that `tinybmp` reads from the header of `bytes`, or
/// `None` where it refuses `bytes` as a bitmap.
pub uninterp spec fn bmp_dimensions(bytes: Seq<u8>) -> Option<(u32, u32)>;

/// The red, green and blue that `tinybmp` decodes for the pixel in column `x`
/// and row `y` of `bytes`, rows counted from the top; `None` where it yields
/// no colour there.
pub uninterp spec fn bmp_color_at(bytes: Seq<u8>, x: int, y: int) -> Option<(u8, u8, u8)>;

/// Calls `tinybmp::Bmp::<Rgb888>::from_slice` and `OriginDimensions::size`.
/// The contract names the outcome; it claims nothing else of it. With 64-bit
/// words none of the decoder's header arithmetic can overflow, so the call
/// returns for every byte stream.
#[verifier::external_body]
fn bmp_size(bytes: &[u8]) -> (r: Option<(u32, u32)>)
    requires
        usize::BITS == 64,
    ensures
        r == bmp_dimensions(bytes@),
{
    let bmp = Bmp::<Rgb888>::from_slice(bytes).ok()?;
    let size = bmp.size();
    Some((size.width, size.height))
}

/// Calls `tinybmp::Bmp::<Rgb888>::from_slice` and `Bmp::pixel`, and reads the
/// three channels of the colour. The contract names the outcome; it claims
/// nothing else of it.
#[verifier::external_body]
fn bmp_pixel(bytes: &[u8], x: i32, y: i32) -> (r: Option<(u8, u8, u8)>)
    requires
        usize::BITS == 64,
    ensures
        r == bmp_color_at(bytes@, x as int, y as int),
{
    let bmp = Bmp::<Rgb888>::from_slice(bytes).ok()?;
    let color = bmp.pixel(Point::new(x, y))?;
    Some((color.r(), color.g(), color.b()))
}

/// A decoded image: `width` by `height` pixels of red, green and blue, stored
/// row by row from the top left.
pub struct Bitmap {
    pub width: usize,
    pub height: usize,
    pub pixels: Vec<(u8, u8, u8)>,
}

/// Position in a row-major store of rows of `width` pixels.
pub open spec fn row_major(width: int, x: int, y: int) -> int {
    y * width + x
}

impl Bitmap {
    /// Whether the store holds exactly `width * height` pixels.
    pub open spec fn wf(&self) -> bool {
        self.pixels@.len() == self.width * self.height
    }

    /// The colour in column `x` and row `y`.
    pub open spec fn rgb_at(&self, x: int, y: int) -> (u8, u8, u8) {
        self.pixels@[row_major(self.width as int, x, y)]
    }

    /// Whether `self` holds what the decoder reads from `bytes`: its
    /// dimensions, and at every position its colour.
    pub open spec fn decodes(&self, bytes: Seq<u8>) -> bool {
        &&& self.wf()
        &&& bmp_dimensions(bytes) == Some((self.width as u32, self.height as u32))
        &&& self.width <= i32::MAX
        &&& self.height <= i32::MAX
        &&& forall|x: int, y: int|
            0 <= x < self.width && 0 <= y < self.height ==> bmp_color_at(bytes, x, y) == Some(
                #[trigger] self.rgb_at(x, y),
            )
    }

    /// Whether the decoder yields a colour at every position of an image of
    /// `width` by `height` pixels.
    pub open spec fn all_pixels_decode(bytes: Seq<u8>, width: int, height: int) -> bool {
        forall|x: int, y: int|
            0 <= x < width && 0 <= y < height ==> (#[trigger] bmp_color_at(bytes, x, y)) is Some
    }

    /// Whether `bytes` decode to an image: the decoder accepts the header,
    /// both dimensions can be addressed, and every pixel has a colour.
    pub open spec fn decodable(bytes: Seq<u8>) -> bool {
        &&& bmp_dimensions(bytes) matches Some((w, h))
        &&& w <= i32::MAX
        &&& h <= i32::MAX
        &&& Self::all_pixels_decode(bytes, w as int, h as int)
    }

    /// Decodes a BMP byte stream into its pixels.
    pub fn decode(bytes: &[u8]) -> (r: Result<Bitmap, DecodeError>)
        ensures
            usize::BITS != 64 ==> r == Err::<Bitmap, DecodeError>(DecodeError::UnsupportedTarget),
            usize::BITS == 64 && !Self::decodable(bytes@) ==> r == Err::<Bitmap, DecodeError>(
                DecodeError::MalformedBitmap,
            ),
            usize::BITS == 64 && Self::decodable(bytes@) ==> r is Ok && r->Ok_0.decodes(bytes@),
    {
        if usize::BITS != 64 {
            return Err(DecodeError::UnsupportedTarget);
        }
        let (w, h) = match bmp_size(bytes) {
            Some(size) => size,
            None => {
                return Err(DecodeError::MalformedBitmap);
            },
        };
        if w > i32::MAX as u32 || h > i32::MAX as u32 {
            return Err(DecodeError::MalformedBitmap);
        }
        let width = w as usize;
        let height = h as usize;
        let mut pixels: Vec<(u8, u8, u8)> = Vec::new();
        let mut y: usize = 0;
        while y < height
            invariant
                usize::BITS == 64,
                bmp_dimensions(bytes@) == Some((w, h)),
                y <= height,
                width == w,
                height == h,
                w <= i32::MAX,
                h <= i32::MAX,
                pixels@.len() == row_major(width as int, 0, y as int),
                forall|xx: int, yy: int|
                    0 <= xx < width && 0 <= yy < y ==> bmp_color_at(bytes@, xx, yy) == Some(
                        pixels@[#[trigger] row_major(width as int, xx, yy)],
                    ),
            decreases height - y,
        {
            let mut x: usize = 0;
            while x < width
                invariant
                    usize::BITS == 64,
                    bmp_dimensions(bytes@) == Some((w, h)),
                    y < height,
                    x <= width,
                    width == w,
                    height == h,
                    w <= i32::MAX,
                    h <= i32::MAX,
                    pixels@.len() == row_major(width as int, x as int, y as int),
                    forall|xx: int, yy: int|
                        0 <= xx < width && 0 <= yy < y ==> bmp_color_at(bytes@, xx, yy) == Some(
                            pixels@[#[trigger] row_major(width as int, xx, yy)],
                        ),
                    forall|xx: int|
                        0 <= xx < x ==> bmp_color_at(bytes@, xx, y as int) == Some(
                            pixels@[#[trigger] row_major(width as int, xx, y as int)],
                        ),
                decreases width - x,
            {
                let color = match bmp_pixel(bytes, x as i32, y as i32) {
                    Some(color) => color,
                    None => {
                        assert(bmp_color_at(bytes@, x as int, y as int) is None);
                        assert(!Self::all_pixels_decode(bytes@, w as int, h as int));
                        return Err(DecodeError::MalformedBitmap);
                    },
                };
                let ghost before = pixels@;
                pixels.push(color);
                proof {
                    assert forall|xx: int, yy: int| 0 <= xx < width && 0 <= yy < y implies bmp_color_at(
                        bytes@,
                        xx,
                        yy,
                    ) == Some(pixels@[#[trigger] row_major(width as int, xx, yy)]) by {
                        lemma_row_major_order(width as int, xx, yy, y as int);
                        assert(pixels@[row_major(width as int, xx, yy)] == before[row_major(
                            width as int,
                            xx,
                            yy,
                        )]);
                    }
                    assert forall|xx: int| 0 <= xx < x + 1 implies bmp_color_at(
                        bytes@,
                        xx,
                        y as int,
                    ) == Some(pixels@[#[trigger] row_major(width as int, xx, y as int)]) by {
                        if xx < x {
                            assert(pixels@[row_major(width as int, xx, y as int)] == before[row_major(
                                width as int,
                                xx,
                                y as int,
                            )]);
                        }
                    }
                }
                x += 1;
            }
            proof {
                assert((y + 1) * width == y * width + width) by (nonlinear_arith);
            }
            y += 1;
        }
        proof {
            assert(height * width == width * height) by (nonlinear_arith);
        }
        let r = Bitmap { width, height, pixels };
        proof {
            assert forall|x: int, y: int| 0 <= x < r.width && 0 <= y < r.height implies bmp_color_at(
                bytes@,
                x,
                y,
            ) == Some(#[trigger] r.rgb_at(x, y)) by {
                assert(r.rgb_at(x, y) == r.pixels@[row_major(width as int, x, y)]);
            }
            assert forall|x: int, y: int| 0 <= x < w && 0 <= y < h implies (#[trigger] bmp_color_at(
                bytes@,
                x,
                y,
            )) is Some by {
                assert(bmp_color_at(bytes@, x, y) == Some(r.rgb_at(x, y)));
            }
        }
        Ok(r)
    }
}

/// In a row-major store the pixels of an earlier row come before the start of
/// any later row.
pub proof fn lemma_row_major_order(width: int, x: int, y: int, later: int)
    requires
        0 <= x < width,
        0 <= y < later,
    ensures
        0 <= row_major(width, x, y) < row_major(width, 0, later),
{
    assert(0 <= y * width) by (nonlinear_arith)
        requires
            0 <= y,
            0 <= width,
    ;
    assert((y + 1) * width <= later * width) by (nonlinear_arith)
        requires
            y + 1 <= later,
            0 <= width,
    ;
    assert((y + 1) * width == y * width + width) by (nonlinear_arith);
}

} // verus!
