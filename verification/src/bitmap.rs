//! Pixel buffers: an 8-bit RGB bitmap for captured screens and an 8-bit
//! grayscale bitmap for what the matcher works on.
//!
//! Both are row-major, without padding between rows, never empty, and hold at
//! most [`MAX_PIXELS`] pixels.

use vstd::prelude::*;

verus! {

/// The most pixels a bitmap may hold. Twice the sum of that many 8-bit samples
/// still fits in 32 bits, which the local-mean computation of the
/// preprocessing relies on.
pub const MAX_PIXELS: u64 = 8_421_504;

/// Why a buffer cannot be taken as a bitmap.
#[derive(Debug, Clone, Copy, PartialEq, Eq, Structural)]
pub enum BitmapError {
    /// The width or the height is zero.
    Empty,
    /// There are more than [`MAX_PIXELS`] pixels.
    TooLarge,
    /// The buffer does not hold exactly one sample per channel and pixel.
    WrongLength,
}

/// What validation says of a buffer of `len` samples that is to stand for a
/// `width` by `height` bitmap with `channels` samples per pixel.
pub open spec fn check_layout(width: u32, height: u32, len: nat, channels: nat) -> Result<
    (),
    BitmapError,
> {
    if width == 0 || height == 0 {
        Err(BitmapError::Empty)
    } else if width * height > MAX_PIXELS {
        Err(BitmapError::TooLarge)
    } else if len != channels * (width * height) {
        Err(BitmapError::WrongLength)
    } else {
        Ok(())
    }
}

fn validate_layout(width: u32, height: u32, len: usize, channels: u64) -> (r: Result<
    (),
    BitmapError,
>)
    requires
        1 <= channels <= 4,
    ensures
        r == check_layout(width, height, len as nat, channels as nat),
{
    if width == 0 || height == 0 {
        return Err(BitmapError::Empty);
    }
    assert(width * height <= 0xffff_ffff * 0xffff_ffff) by (nonlinear_arith)
        requires
            width <= 0xffff_ffff,
            height <= 0xffff_ffff,
    ;
    let area: u64 = width as u64 * height as u64;
    if area > MAX_PIXELS {
        return Err(BitmapError::TooLarge);
    }
    assert(channels * area <= 4 * MAX_PIXELS) by (nonlinear_arith)
        requires
            channels <= 4,
            area <= MAX_PIXELS,
    ;
    if len as u64 != channels * area {
        return Err(BitmapError::WrongLength);
    }
    Ok(())
}

/// Why the contents of a PNG file give no bitmap.
#[derive(Debug, Clone, Copy, PartialEq, Eq, Structural)]
pub enum LoadError {
    /// The contents are not a PNG image that can be decoded.
    Undecodable,
    /// The image was decoded but cannot be held as a bitmap.
    Unusable(BitmapError),
}

/// The size and the 8-bit RGB samples that
/// `image::load_from_memory_with_format` decodes from `bytes` as a PNG image,
/// or `None` where it reports an error.
pub uninterp spec fn decoded_png(bytes: Seq<u8>) -> Option<(u32, u32, Seq<u8>)>;

/// What loading makes of the contents of a PNG file: the size and samples of
/// the bitmap, or the reason why there is none.
pub open spec fn load_outcome(bytes: Seq<u8>) -> Result<(u32, u32, Seq<u8>), LoadError> {
    match decoded_png(bytes) {
        None => Err(LoadError::Undecodable),
        Some((width, height, rgb)) => match check_layout(width, height, rgb.len(), 3) {
            Err(e) => Err(LoadError::Unusable(e)),
            Ok(()) => Ok((width, height, rgb)),
        },
    }
}

#[verifier::external_type_specification]
#[verifier::external_body]
pub struct ExImageError(image::ImageError);

/// Calls `image::load_from_memory_with_format` with the format PNG and takes
/// the image as 8-bit RGB. Trusted: the size and samples are those the
/// function decodes, and it fails exactly where the function does. With the
/// format given, the function consults nothing but the bytes.
#[verifier::external_body]
fn load_from_memory_with_format(bytes: &[u8]) -> (r: Result<
    (u32, u32, Vec<u8>),
    image::ImageError,
>)
    ensures
        match r {
            Ok((width, height, rgb)) => decoded_png(bytes@) == Some((width, height, rgb@)),
            Err(_) => decoded_png(bytes@) is None,
        },
{
    let rgb = image::load_from_memory_with_format(bytes, image::ImageFormat::Png)?.into_rgb8();
    Ok((rgb.width(), rgb.height(), rgb.into_raw()))
}

/// An 8-bit grayscale bitmap.
#[derive(Debug, Clone, PartialEq, Eq)]
pub struct GrayBitmap {
    width: u32,
    height: u32,
    pixels: Vec<u8>,
}

impl View for GrayBitmap {
    type V = Seq<u8>;

    /// The samples, row by row.
    closed spec fn view(&self) -> Seq<u8> {
        self.pixels@
    }
}

impl GrayBitmap {
    pub closed spec fn spec_width(&self) -> u32 {
        self.width
    }

    pub closed spec fn spec_height(&self) -> u32 {
        self.height
    }

    /// Not empty, within [`MAX_PIXELS`], one sample per pixel.
    pub open spec fn wf(&self) -> bool {
        check_layout(self.width(), self.height(), self@.len(), 1) is Ok
    }

    /// The sample in column `x` of row `y`.
    pub open spec fn pixel(&self, x: int, y: int) -> u8 {
        self@[y * self.width() + x]
    }

    /// Takes `pixels` as the rows of a `width` by `height` bitmap, or says
    /// why it cannot.
    pub fn new(width: u32, height: u32, pixels: Vec<u8>) -> (r: Result<Self, BitmapError>)
        ensures
            match r {
                Ok(b) => {
                    &&& check_layout(width, height, pixels@.len(), 1) is Ok
                    &&& b.wf()
                    &&& b.width() == width
                    &&& b.height() == height
                    &&& b@ == pixels@
                },
                Err(e) => check_layout(width, height, pixels@.len(), 1) == Err::<(), _>(e),
            },
    {
        match validate_layout(width, height, pixels.len(), 1) {
            Ok(()) => Ok(Self { width, height, pixels }),
            Err(e) => Err(e),
        }
    }

    /// Takes `pixels` as the rows of a bitmap whose layout is known to be
    /// sound.
    pub(crate) fn assemble(width: u32, height: u32, pixels: Vec<u8>) -> (b: Self)
        requires
            check_layout(width, height, pixels@.len(), 1) is Ok,
        ensures
            b.wf(),
            b.width() == width,
            b.height() == height,
            b@ == pixels@,
    {
        Self { width, height, pixels }
    }

    #[verifier::when_used_as_spec(spec_width)]
    pub fn width(&self) -> (w: u32)
        ensures
            w == self.width(),
    {
        self.width
    }

    #[verifier::when_used_as_spec(spec_height)]
    pub fn height(&self) -> (h: u32)
        ensures
            h == self.height(),
    {
        self.height
    }

    /// The samples, row by row.
    pub fn pixels(&self) -> (p: &Vec<u8>)
        ensures
            p@ == self@,
    {
        &self.pixels
    }

    /// The sample in column `x` of row `y`.
    pub fn get(&self, x: u32, y: u32) -> (v: u8)
        requires
            self.wf(),
            x < self.width(),
            y < self.height(),
        ensures
            v == self.pixel(x as int, y as int),
    {
        proof {
            lemma_cell_in_range(x as int, y as int, self.width as int, self.height as int);
        }
        self.pixels[y as usize * self.width as usize + x as usize]
    }
}

/// An 8-bit RGB bitmap: three samples per pixel, red first.
#[derive(Debug, Clone, PartialEq, Eq)]
pub struct RgbBitmap {
    width: u32,
    height: u32,
    data: Vec<u8>,
}

impl View for RgbBitmap {
    type V = Seq<u8>;

    /// The samples, row by row, three to a pixel.
    closed spec fn view(&self) -> Seq<u8> {
        self.data@
    }
}

impl RgbBitmap {
    pub closed spec fn spec_width(&self) -> u32 {
        self.width
    }

    pub closed spec fn spec_height(&self) -> u32 {
        self.height
    }

    /// Not empty, within [`MAX_PIXELS`], three samples per pixel.
    pub open spec fn wf(&self) -> bool {
        check_layout(self.width(), self.height(), self@.len(), 3) is Ok
    }

    /// Channel `c` (0 red, 1 green, 2 blue) of the pixel in column `x` of row `y`.
    pub open spec fn channel(&self, x: int, y: int, c: int) -> u8 {
        self@[(y * self.width() + x) * 3 + c]
    }

    /// Where sample `k` of the `width` columns wide rectangle whose top left
    /// corner is `(x, y)` lies in this bitmap's samples.
    pub open spec fn sub_image_index(&self, x: u32, y: u32, width: u32, k: int) -> int {
        (y + k / (3 * width)) * (3 * self.width()) + 3 * x + k % (3 * width)
    }

    /// The samples of the `width` by `height` rectangle whose top left corner
    /// is `(x, y)`.
    pub open spec fn sub_image_data(&self, x: u32, y: u32, width: u32, height: u32) -> Seq<u8> {
        Seq::new(
            (3 * (width * height)) as nat,
            |k: int| self@[self.sub_image_index(x, y, width, k)],
        )
    }

    /// Takes `data` as the rows of a `width` by `height` bitmap, or says why
    /// it cannot.
    pub fn new(width: u32, height: u32, data: Vec<u8>) -> (r: Result<Self, BitmapError>)
        ensures
            match r {
                Ok(b) => {
                    &&& check_layout(width, height, data@.len(), 3) is Ok
                    &&& b.wf()
                    &&& b.width() == width
                    &&& b.height() == height
                    &&& b@ == data@
                },
                Err(e) => check_layout(width, height, data@.len(), 3) == Err::<(), _>(e),
            },
    {
        match validate_layout(width, height, data.len(), 3) {
            Ok(()) => Ok(Self { width, height, data }),
            Err(e) => Err(e),
        }
    }

    /// Decodes the contents of a PNG file into a bitmap. Fails if they are
    /// no PNG image, or if the image is too large to be held.
    pub fn decode(bytes: &[u8]) -> (r: Result<Self, LoadError>)
        ensures
            match r {
                Ok(b) => b.wf() && load_outcome(bytes@) == Ok::<_, LoadError>(
                    (b.width(), b.height(), b@),
                ),
                Err(e) => load_outcome(bytes@) == Err::<(u32, u32, Seq<u8>), _>(e),
            },
    {
        match load_from_memory_with_format(bytes) {
            Err(_) => Err(LoadError::Undecodable),
            Ok((width, height, data)) => match Self::new(width, height, data) {
                Ok(b) => Ok(b),
                Err(e) => Err(LoadError::Unusable(e)),
            },
        }
    }

    #[verifier::when_used_as_spec(spec_width)]
    pub fn width(&self) -> (w: u32)
        ensures
            w == self.width(),
    {
        self.width
    }

    #[verifier::when_used_as_spec(spec_height)]
    pub fn height(&self) -> (h: u32)
        ensures
            h == self.height(),
    {
        self.height
    }

    /// The samples, row by row, three to a pixel.
    pub fn data(&self) -> (d: &Vec<u8>)
        ensures
            d@ == self@,
    {
        &self.data
    }

    /// Channel `c` of the pixel in column `x` of row `y`.
    pub fn get(&self, x: u32, y: u32, c: u8) -> (v: u8)
        requires
            self.wf(),
            x < self.width(),
            y < self.height(),
            c < 3,
        ensures
            v == self.channel(x as int, y as int, c as int),
    {
        proof {
            lemma_cell_in_range(x as int, y as int, self.width as int, self.height as int);
        }
        self.data[(y as usize * self.width as usize + x as usize) * 3 + c as usize]
    }

    /// Copies out the `width` by `height` rectangle whose top left corner is
    /// `(x, y)`.
    pub fn sub_image(&self, x: u32, y: u32, width: u32, height: u32) -> (r: RgbBitmap)
        requires
            self.wf(),
            width >= 1,
            height >= 1,
            x + width <= self.width(),
            y + height <= self.height(),
        ensures
            r.wf(),
            r.width() == width,
            r.height() == height,
            r@ == self.sub_image_data(x, y, width, height),
    {
        proof {
            lemma_area_within(
                width as int,
                height as int,
                self.width as int,
                self.height as int,
            );
            lemma_side_within_area(self.width as int, self.height as int);
        }
        let row_len: usize = 3 * (width as usize);
        let stride: usize = 3 * (self.width as usize);
        let mut data: Vec<u8> = Vec::new();
        let mut row: usize = 0;
        while row < height as usize
            invariant
                self.wf(),
                width >= 1,
                x + width <= self.width,
                y + height <= self.height,
                row_len == 3 * width,
                stride == 3 * self.width,
                row <= height,
                width * height <= MAX_PIXELS,
                data.len() == row * row_len,
                forall|k: int|
                    0 <= k < data.len() ==> data[k] == self.data[#[trigger] self.sub_image_index(
                        x,
                        y,
                        width,
                        k,
                    )],
            decreases height - row,
        {
            proof {
                lemma_row_in_range(
                    x as int,
                    y as int + row as int,
                    width as int,
                    self.width as int,
                    self.height as int,
                );
                lemma_rows_within(row as int, height as int, row_len as int);
                assert(height * row_len == 3 * (width * height)) by (nonlinear_arith)
                    requires
                        row_len == 3 * width,
                ;
            }
            let start: usize = (y as usize + row) * stride + 3 * (x as usize);
            let mut col: usize = 0;
            while col < row_len
                invariant
                    self.wf(),
                    width >= 1,
                    row_len == 3 * width,
                    stride == 3 * self.width,
                    row < height,
                    col <= row_len,
                    start == (y + row) * stride + 3 * x,
                    start + row_len <= self.data.len(),
                    (row + 1) * row_len <= 3 * MAX_PIXELS,
                    data.len() == row * row_len + col,
                    forall|k: int|
                        0 <= k < data.len() ==> data[k] == self.data[#[trigger] self.sub_image_index(
                            x,
                            y,
                            width,
                            k,
                        )],
                decreases row_len - col,
            {
                proof {
                    let k = row * row_len + col;
                    vstd::arithmetic::div_mod::lemma_fundamental_div_mod_converse(
                        k as int,
                        row_len as int,
                        row as int,
                        col as int,
                    );
                    assert(self.sub_image_index(x, y, width, k as int) == start + col);
                    assert((row + 1) * row_len == row * row_len + row_len) by (nonlinear_arith);
                }
                data.push(self.data[start + col]);
                col += 1;
            }
            proof {
                assert((row + 1) * row_len == row * row_len + row_len) by (nonlinear_arith);
            }
            row += 1;
        }
        proof {
            assert(height * row_len == 3 * (width * height)) by (nonlinear_arith)
                requires
                    row_len == 3 * width,
            ;
            assert(data@ =~= self.sub_image_data(x, y, width, height));
        }
        RgbBitmap { width, height, data }
    }

    /// Each pixel of a sub-image is the pixel of this bitmap at the same
    /// offset from the sub-image's top left corner.
    pub proof fn lemma_sub_image_pixel(
        &self,
        x: u32,
        y: u32,
        width: u32,
        height: u32,
        i: int,
        j: int,
        c: int,
    )
        requires
            self.wf(),
            x + width <= self.width(),
            y + height <= self.height(),
            0 <= i < width,
            0 <= j < height,
            0 <= c < 3,
        ensures
            0 <= (j * width + i) * 3 + c < 3 * (width * height),
            self.sub_image_data(x, y, width, height)[(j * width + i) * 3 + c] == self.channel(
                x + i,
                y + j,
                c,
            ),
    {
        let k = (j * width + i) * 3 + c;
        lemma_cell_in_range(i, j, width as int, height as int);
        assert(k == j * (3 * width) + (3 * i + c)) by (nonlinear_arith)
            requires
                k == (j * width + i) * 3 + c,
        ;
        vstd::arithmetic::div_mod::lemma_fundamental_div_mod_converse(
            k,
            3 * width,
            j,
            3 * i + c,
        );
        assert(self.sub_image_index(x, y, width, k) == ((y + j) * self.width() + (x + i)) * 3 + c)
            by (nonlinear_arith)
            requires
                self.sub_image_index(x, y, width, k) == (y + j) * (3 * self.width()) + 3 * x + (3
                    * i + c),
        ;
    }
}

/// A cell of a grid lies within the grid's row-major extent.
proof fn lemma_cell_in_range(x: int, y: int, width: int, height: int)
    requires
        0 <= x < width,
        0 <= y < height,
    ensures
        0 <= y * width + x < width * height,
{
    assert(y * width + x < width * height) by (nonlinear_arith)
        requires
            0 <= x < width,
            0 <= y < height,
    ;
    assert(0 <= y * width) by (nonlinear_arith)
        requires
            0 <= y,
            0 <= width,
    ;
}

proof fn lemma_area_within(w: int, h: int, width: int, height: int)
    requires
        0 <= w <= width,
        0 <= h <= height,
    ensures
        w * h <= width * height,
{
    assert(w * h <= width * height) by (nonlinear_arith)
        requires
            0 <= w <= width,
            0 <= h <= height,
    ;
}

proof fn lemma_side_within_area(width: int, height: int)
    requires
        1 <= width,
        1 <= height,
    ensures
        width <= width * height,
        height <= width * height,
{
    assert(width <= width * height) by (nonlinear_arith)
        requires
            1 <= width,
            1 <= height,
    ;
    assert(height <= width * height) by (nonlinear_arith)
        requires
            1 <= width,
            1 <= height,
    ;
}

proof fn lemma_row_in_range(x: int, row: int, w: int, width: int, height: int)
    requires
        0 <= x,
        0 <= w,
        x + w <= width,
        0 <= row < height,
    ensures
        0 <= row * (3 * width) + 3 * x,
        row * (3 * width) + 3 * x + 3 * w <= 3 * (width * height),
{
    assert(row * (3 * width) + 3 * width <= 3 * (width * height)) by (nonlinear_arith)
        requires
            0 <= width,
            0 <= row < height,
    ;
    assert(0 <= row * (3 * width)) by (nonlinear_arith)
        requires
            0 <= width,
            0 <= row,
    ;
}

proof fn lemma_rows_within(row: int, height: int, row_len: int)
    requires
        0 <= row < height,
        0 <= row_len,
    ensures
        0 <= row * row_len,
        (row + 1) * row_len <= height * row_len,
{
    assert((row + 1) * row_len <= height * row_len) by (nonlinear_arith)
        requires
            0 <= row < height,
            0 <= row_len,
    ;
    assert(0 <= row * row_len) by (nonlinear_arith)
        requires
            0 <= row,
            0 <= row_len,
    ;
}

} // verus!
