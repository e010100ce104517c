//! Preprocessing, and the reference templates that the matcher looks for.
//!
//! A bitmap is normalised for matching by reducing it to luminance and then
//! thresholding every pixel against the mean of its neighbourhood. Templates
//! are decoded and preprocessed once and never change afterwards.

use crate::bitmap::{load_outcome, GrayBitmap, LoadError, RgbBitmap, MAX_PIXELS};
use vstd::prelude::*;

verus! {

/// How far the neighbourhood of a pixel reaches to each side.
pub const BLOCK_RADIUS: u32 = 4;

/// How far below the mean of its neighbourhood a pixel may lie and still
/// count as foreground.
pub const DELTA: i32 = 5;

/// The luminance samples that `image::DynamicImage::to_luma8` gives for the
/// RGB samples `rgb` of a `width` by `height` image.
pub uninterp spec fn luma_of(rgb: Seq<u8>, width: u32, height: u32) -> Seq<u8>;

/// The sum of the samples of row `y` in the columns `left` to `right`, both
/// included.
pub open spec fn row_sum(pixels: Seq<u8>, width: int, y: int, left: int, right: int) -> int
    decreases right - left + 1,
{
    if right < left {
        0
    } else {
        row_sum(pixels, width, y, left, right - 1) + pixels[y * width + right]
    }
}

/// The sum of the samples in the columns `left` to `right` of the rows `top`
/// to `bottom`, all included.
pub open spec fn block_sum(
    pixels: Seq<u8>,
    width: int,
    left: int,
    top: int,
    right: int,
    bottom: int,
) -> int
    decreases bottom - top + 1,
{
    if bottom < top {
        0
    } else {
        block_sum(pixels, width, left, top, right, bottom - 1) + row_sum(
            pixels,
            width,
            bottom,
            left,
            right,
        )
    }
}

/// The mean, rounded down, of the samples around the pixel in column `x` of
/// row `y`: of the block that reaches `radius` pixels to each side, as far as
/// it lies within the image.
pub open spec fn local_mean(
    pixels: Seq<u8>,
    width: int,
    height: int,
    x: int,
    y: int,
    radius: int,
) -> int {
    let left = if x - radius < 0 {
        0
    } else {
        x - radius
    };
    let right = if x + radius > width - 1 {
        width - 1
    } else {
        x + radius
    };
    let top = if y - radius < 0 {
        0
    } else {
        y - radius
    };
    let bottom = if y + radius > height - 1 {
        height - 1
    } else {
        y + radius
    };
    block_sum(pixels, width, left, top, right, bottom) / ((right - left + 1) * (bottom - top + 1))
}

/// The pixel in column `x` of row `y` is foreground: it is at least as bright
/// as the mean of its neighbourhood less `delta`.
pub open spec fn is_foreground(
    pixels: Seq<u8>,
    width: int,
    height: int,
    x: int,
    y: int,
    radius: int,
    delta: int,
) -> bool {
    pixels[y * width + x] >= local_mean(pixels, width, height, x, y, radius) - delta
}

/// Sample `k` of the local adaptive threshold: white where the pixel is
/// foreground, black elsewhere.
pub open spec fn thresholded_sample(
    pixels: Seq<u8>,
    width: u32,
    height: u32,
    radius: u32,
    delta: i32,
    k: int,
) -> u8 {
    if is_foreground(
        pixels,
        width as int,
        height as int,
        k % (width as int),
        k / (width as int),
        radius as int,
        delta as int,
    ) {
        255
    } else {
        0
    }
}

/// The local adaptive threshold of the grayscale samples of a `width` by
/// `height` image, row by row.
pub open spec fn thresholded(
    pixels: Seq<u8>,
    width: u32,
    height: u32,
    radius: u32,
    delta: i32,
) -> Seq<u8> {
    Seq::new(pixels.len(), |k: int| thresholded_sample(pixels, width, height, radius, delta, k))
}

/// Every sample is black or white.
pub open spec fn binarized(pixels: Seq<u8>) -> bool {
    forall|i: int| 0 <= i < pixels.len() ==> pixels[i] == 0 || pixels[i] == 255
}

/// What preprocessing makes of the RGB samples of a `width` by `height`
/// bitmap.
pub open spec fn preprocessed(rgb: Seq<u8>, width: u32, height: u32) -> Seq<u8> {
    thresholded(luma_of(rgb, width, height), width, height, BLOCK_RADIUS, DELTA)
}

proof fn lemma_uniform_row_sum(pixels: Seq<u8>, width: int, y: int, left: int, right: int, v: u8)
    requires
        0 <= left,
        left <= right + 1,
        right < width,
        0 <= y,
        (y + 1) * width <= pixels.len(),
        forall|k: int| 0 <= k < pixels.len() ==> pixels[k] == v,
    ensures
        row_sum(pixels, width, y, left, right) == (right - left + 1) * v,
    decreases right - left + 1,
{
    if right >= left {
        lemma_uniform_row_sum(pixels, width, y, left, right - 1, v);
        assert(0 <= y * width + right < pixels.len()) by (nonlinear_arith)
            requires
                0 <= y,
                0 <= right < width,
                (y + 1) * width <= pixels.len(),
        ;
        assert((right - left + 1) * v == (right - 1 - left + 1) * v + v) by (nonlinear_arith);
    } else {
        assert((right - left + 1) * v == 0) by (nonlinear_arith)
            requires
                right - left + 1 == 0,
        ;
    }
}

proof fn lemma_uniform_block_sum(
    pixels: Seq<u8>,
    width: int,
    left: int,
    top: int,
    right: int,
    bottom: int,
    v: u8,
)
    requires
        0 <= left <= right < width,
        0 <= top,
        top <= bottom + 1,
        (bottom + 1) * width <= pixels.len(),
        forall|k: int| 0 <= k < pixels.len() ==> pixels[k] == v,
    ensures
        block_sum(pixels, width, left, top, right, bottom) == ((right - left + 1) * (bottom - top
            + 1)) * v,
    decreases bottom - top + 1,
{
    let columns = right - left + 1;
    if bottom >= top {
        assert(bottom * width <= (bottom + 1) * width) by (nonlinear_arith)
            requires
                0 <= width,
        ;
        lemma_uniform_block_sum(pixels, width, left, top, right, bottom - 1, v);
        lemma_uniform_row_sum(pixels, width, bottom, left, right, v);
        assert((columns * (bottom - top + 1)) * v == (columns * (bottom - 1 - top + 1)) * v
            + columns * v) by (nonlinear_arith);
    } else {
        assert((columns * (bottom - top + 1)) * v == 0) by (nonlinear_arith)
            requires
                bottom - top + 1 == 0,
        ;
    }
}

/// A bitmap of one brightness comes out white all over, as long as `delta`
/// is not negative: every pixel equals the mean of its neighbourhood.
pub proof fn lemma_uniform_is_foreground(
    pixels: Seq<u8>,
    width: u32,
    height: u32,
    radius: u32,
    delta: i32,
    v: u8,
)
    requires
        width >= 1,
        height >= 1,
        pixels.len() == width * height,
        delta >= 0,
        forall|k: int| 0 <= k < pixels.len() ==> pixels[k] == v,
    ensures
        thresholded(pixels, width, height, radius, delta) == Seq::new(pixels.len(), |k: int| 255u8),
{
    let (w, h, r) = (width as int, height as int, radius as int);
    assert forall|k: int| 0 <= k < pixels.len() implies #[trigger] thresholded_sample(
        pixels,
        width,
        height,
        radius,
        delta,
        k,
    ) == 255 by {
        let (x, y) = (k % w, k / w);
        vstd::arithmetic::div_mod::lemma_fundamental_div_mod(k, w);
        vstd::arithmetic::div_mod::lemma_mod_pos_bound(k, w);
        vstd::arithmetic::div_mod::lemma_div_pos_is_pos(k, w);
        assert(w * y == y * w) by (nonlinear_arith);
        assert(y < h) by (nonlinear_arith)
            requires
                y * w + x < w * h,
                0 <= x,
                w > 0,
        ;
        let left = if x - r < 0 {
            0
        } else {
            x - r
        };
        let right = if x + r > w - 1 {
            w - 1
        } else {
            x + r
        };
        let top = if y - r < 0 {
            0
        } else {
            y - r
        };
        let bottom = if y + r > h - 1 {
            h - 1
        } else {
            y + r
        };
        assert((bottom + 1) * w <= h * w) by (nonlinear_arith)
            requires
                bottom + 1 <= h,
                w >= 0,
        ;
        assert(h * w == w * h) by (nonlinear_arith);
        lemma_uniform_block_sum(pixels, w, left, top, right, bottom, v);
        let count = (right - left + 1) * (bottom - top + 1);
        assert(count > 0) by (nonlinear_arith)
            requires
                count == (right - left + 1) * (bottom - top + 1),
                right - left + 1 > 0,
                bottom - top + 1 > 0,
        ;
        assert((count * v) / count == v) by (nonlinear_arith)
            requires
                count > 0,
        ;
    }
    assert(thresholded(pixels, width, height, radius, delta) =~= Seq::new(
        pixels.len(),
        |k: int| 255u8,
    ));
}

/// Calls `image::DynamicImage::to_luma8` on an 8-bit RGB image made of `rgb`.
/// Trusted: the result is that function's, one sample for each pixel.
#[verifier::external_body]
fn to_luma8(rgb: &Vec<u8>, width: u32, height: u32) -> (luma: Vec<u8>)
    requires
        rgb@.len() == 3 * (width * height),
        width * height <= MAX_PIXELS,
    ensures
        luma@ == luma_of(rgb@, width, height),
        luma@.len() == width * height,
{
    let color = image::RgbImage::from_raw(width, height, rgb.clone()).unwrap();
    image::DynamicImage::ImageRgb8(color).to_luma8().into_raw()
}

/// Calls `imageproc::contrast::adaptive_threshold` on a grayscale image made
/// of `pixels`. Trusted: a pixel of the result is 255 if the pixel of the
/// image is at least as bright as the mean, rounded down, of the block around
/// it less `delta`, and 0 otherwise; the block reaches `block_radius` pixels
/// to each side and is cut off at the edges of the image. The bounds keep the
/// function's 32-bit sums and its signed arithmetic in range.
#[verifier::external_body]
fn adaptive_threshold(
    pixels: &Vec<u8>,
    width: u32,
    height: u32,
    block_radius: u32,
    delta: i32,
) -> (out: Vec<u8>)
    requires
        pixels@.len() == width * height,
        1 <= width,
        1 <= height,
        width * height <= MAX_PIXELS,
        1 <= block_radius <= 0x7fff_ffff,
        -0x7fff_ff00 <= delta,
    ensures
        out@ == thresholded(pixels@, width, height, block_radius, delta),
{
    let gray = image::GrayImage::from_raw(width, height, pixels.clone()).unwrap();
    imageproc::contrast::adaptive_threshold(&gray, block_radius, delta).into_raw()
}

/// Normalises a bitmap for matching: luminance, then a local adaptive
/// threshold with [`BLOCK_RADIUS`] and [`DELTA`]. The result has the size of
/// the input and holds only black and white.
pub fn apply_threshold(img: &RgbBitmap) -> (out: GrayBitmap)
    requires
        img.wf(),
    ensures
        out.wf(),
        out.width() == img.width(),
        out.height() == img.height(),
        out@ == preprocessed(img@, img.width(), img.height()),
        binarized(out@),
{
    let width = img.width();
    let height = img.height();
    let luma = to_luma8(img.data(), width, height);
    let pixels = adaptive_threshold(&luma, width, height, BLOCK_RADIUS, DELTA);
    GrayBitmap::assemble(width, height, pixels)
}

/// Preprocessing is a function of the bitmap: equal bitmaps give equal
/// results, sample for sample.
pub proof fn lemma_preprocessing_repeats(a: RgbBitmap, b: RgbBitmap)
    requires
        a.wf(),
        b.wf(),
        a.width() == b.width(),
        a.height() == b.height(),
        a@ == b@,
    ensures
        preprocessed(a@, a.width(), a.height()) == preprocessed(b@, b.width(), b.height()),
{
}

/// A preprocessed reference bitmap with its size.
#[derive(Debug, Clone, PartialEq, Eq)]
pub struct AssetTemplate {
    pub image: GrayBitmap,
    pub width: u32,
    pub height: u32,
}

impl AssetTemplate {
    /// The bitmap is sound and the recorded size is its size.
    pub open spec fn wf(&self) -> bool {
        &&& self.image.wf()
        &&& self.width == self.image.width()
        &&& self.height == self.image.height()
    }

    /// A template of an already preprocessed bitmap.
    pub fn new(image: GrayBitmap) -> (t: Self)
        requires
            image.wf(),
        ensures
            t.wf(),
            t.image == image,
    {
        let width = image.width();
        let height = image.height();
        Self { image, width, height }
    }

    /// The template of a reference bitmap: preprocesses it and records its
    /// size.
    pub fn from_bitmap(bitmap: &RgbBitmap) -> (t: Self)
        requires
            bitmap.wf(),
        ensures
            t.wf(),
            t.width == bitmap.width(),
            t.height == bitmap.height(),
            t.image@ == preprocessed(bitmap@, bitmap.width(), bitmap.height()),
    {
        Self::new(apply_threshold(bitmap))
    }

    /// Loads a template from the contents of a PNG file: decodes them,
    /// preprocesses the bitmap and records its size. Fails if the contents
    /// are no PNG image or the image cannot be held as a bitmap.
    pub fn from_file(contents: &[u8]) -> (r: Result<Self, LoadError>)
        ensures
            match r {
                Ok(t) => {
                    &&& t.wf()
                    &&& load_outcome(contents@) matches Ok((width, height, rgb))
                    &&& t.width == width
                    &&& t.height == height
                    &&& t.image@ == preprocessed(rgb, width, height)
                },
                Err(e) => load_outcome(contents@) == Err::<(u32, u32, Seq<u8>), _>(e),
            },
    {
        match RgbBitmap::decode(contents) {
            Ok(bitmap) => Ok(Self::from_bitmap(&bitmap)),
            Err(e) => Err(e),
        }
    }
}

} // verus!
