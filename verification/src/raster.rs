//! The raster image that the preprocessing steps read and produce.

use vstd::prelude::*;
use crate::error::CaptchaError;
use vstd::string::*;

verus! {

/// The longest side an image may have: 2 to the power of 24. Up to it every
/// coordinate is exact as a 32-bit floating-point number, in which the
/// resampling computes.
pub const MAX_DIMENSION: u32 = 0x100_0000;

/// How the samples of one pixel are laid out.
#[derive(Clone, Copy, Debug, PartialEq, Eq, Structural)]
pub enum PixelFormat {
    /// Three 8-bit samples per pixel: red, green, blue.
    Rgb8,
    /// One 8-bit intensity per pixel.
    Luma8,
}

impl PixelFormat {
    /// Samples per pixel.
    pub open spec fn channels(self) -> nat {
        match self {
            PixelFormat::Rgb8 => 3,
            PixelFormat::Luma8 => 1,
        }
    }

    /// Samples per pixel.
    pub fn channel_count(self) -> (n: usize)
        ensures
            n == self.channels(),
    {
        match self {
            PixelFormat::Rgb8 => 3,
            PixelFormat::Luma8 => 1,
        }
    }
}

/// Whether neither side of an image of these dimensions exceeds
/// `MAX_DIMENSION`.
pub open spec fn within_limits(width: nat, height: nat) -> bool {
    &&& width <= MAX_DIMENSION
    &&& height <= MAX_DIMENSION
}

/// Decides `within_limits` for concrete dimensions.
pub fn fits_limits(width: u32, height: u32) -> (ok: bool)
    ensures
        ok == within_limits(width as nat, height as nat),
{
    width <= MAX_DIMENSION && height <= MAX_DIMENSION
}

/// The mathematical content of an image: its dimensions, its format and its
/// samples in row-major order, the channels of a pixel next to each other.
pub struct ImageModel {
    pub width: nat,
    pub height: nat,
    pub format: PixelFormat,
    pub samples: Seq<u8>,
}

impl ImageModel {
    /// The number of pixels.
    pub open spec fn pixel_count(self) -> nat {
        self.width * self.height
    }

    /// Whether this is a well-formed image: no side is too long, there is
    /// exactly one sample per pixel and channel, and a buffer can hold them.
    pub open spec fn wf(self) -> bool {
        &&& within_limits(self.width, self.height)
        &&& self.samples.len() == self.width * self.height * self.format.channels()
        &&& self.samples.len() <= usize::MAX
    }

    /// The part of the image inside the rectangle with the top left corner
    /// `(x, y)` and the given size, the rectangle first cut down to what
    /// lies inside the image.
    pub open spec fn cropped(self, x: nat, y: nat, width: nat, height: nat) -> ImageModel {
        let left = if x < self.width { x } else { self.width };
        let top = if y < self.height { y } else { self.height };
        let w = if width < self.width - left { width } else { (self.width - left) as nat };
        let h = if height < self.height - top { height } else { (self.height - top) as nat };
        let c = self.format.channels();
        ImageModel {
            width: w,
            height: h,
            format: self.format,
            samples: Seq::new(
                w * h * c,
                |i: int|
                    self.sample(
                        left + (i / (c as int)) % (w as int),
                        top + (i / (c as int)) / (w as int),
                        i % (c as int),
                    ),
            ),
        }
    }

    /// The sample of channel `c` at column `x`, row `y`.
    pub open spec fn sample(self, x: int, y: int, c: int) -> u8
        recommends
            0 <= x < self.width,
            0 <= y < self.height,
            0 <= c < self.format.channels(),
    {
        self.samples[(y * self.width + x) * self.format.channels() + c]
    }
}

/// An owned two-dimensional pixel buffer.
pub struct RasterImage {
    width: u32,
    height: u32,
    format: PixelFormat,
    data: Vec<u8>,
}

impl View for RasterImage {
    type V = ImageModel;

    closed spec fn view(&self) -> ImageModel {
        ImageModel {
            width: self.width as nat,
            height: self.height as nat,
            format: self.format,
            samples: self.data@,
        }
    }
}

impl RasterImage {
    #[verifier::type_invariant]
    spec fn inv(&self) -> bool {
        self@.wf()
    }

    /// Builds an image from its parts. Fails with `ImageTooLarge` when a
    /// side exceeds `MAX_DIMENSION`, and with `InvalidImage` when the buffer
    /// does not hold exactly one sample per pixel and channel.
    pub fn new(width: u32, height: u32, format: PixelFormat, data: Vec<u8>) -> (res: Result<
        RasterImage,
        CaptchaError,
    >)
        ensures
            match res {
                Ok(image) => {
                    &&& image@ == (ImageModel {
                        width: width as nat,
                        height: height as nat,
                        format,
                        samples: data@,
                    })
                    &&& image@.wf()
                },
                Err(CaptchaError::ImageTooLarge) => !within_limits(width as nat, height as nat),
                Err(CaptchaError::InvalidImage(_)) => {
                    &&& within_limits(width as nat, height as nat)
                    &&& data@.len() != width * height * format.channels()
                },
                Err(_) => false,
            },
    {
        if !fits_limits(width, height) {
            return Err(CaptchaError::ImageTooLarge);
        }
        assert(width * height <= 0x1_0000_0000_0000) by (nonlinear_arith)
            requires
                width <= 0x100_0000,
                height <= 0x100_0000,
        ;
        let pixels: u64 = (width as u64) * (height as u64);
        let expected: u64 = pixels * (format.channel_count() as u64);
        if data.len() as u64 != expected {
            return Err(CaptchaError::InvalidImage(String::from_str("buffer length does not match the dimensions")));
        }
        Ok(RasterImage { width, height, format, data })
    }

    /// Builds an image from parts that are known to fit together.
    pub(crate) fn from_parts(width: u32, height: u32, format: PixelFormat, data: Vec<u8>) -> (image:
        RasterImage)
        requires
            within_limits(width as nat, height as nat),
            data@.len() == width * height * format.channels(),
        ensures
            image@ == (ImageModel {
                width: width as nat,
                height: height as nat,
                format,
                samples: data@,
            }),
            image@.wf(),
    {
        let length = data.len();
        RasterImage { width, height, format, data }
    }

    /// The number of columns.
    pub fn width(&self) -> (w: u32)
        ensures
            w == self@.width,
            self@.wf(),
    {
        proof {
            use_type_invariant(self);
        }
        self.width
    }

    /// The number of rows.
    pub fn height(&self) -> (h: u32)
        ensures
            h == self@.height,
            self@.wf(),
    {
        proof {
            use_type_invariant(self);
        }
        self.height
    }

    /// The layout of a pixel.
    pub fn format(&self) -> (f: PixelFormat)
        ensures
            f == self@.format,
            self@.wf(),
    {
        proof {
            use_type_invariant(self);
        }
        self.format
    }

    /// The samples in row-major order.
    pub fn samples(&self) -> (data: &Vec<u8>)
        ensures
            data@ == self@.samples,
            self@.wf(),
    {
        proof {
            use_type_invariant(self);
        }
        &self.data
    }

    /// Gives up the image for its sample buffer.
    pub fn into_raw(self) -> (data: Vec<u8>)
        ensures
            data@ == self@.samples,
            self@.wf(),
    {
        proof {
            use_type_invariant(&self);
        }
        self.data
    }

    /// The sample of channel `c` at column `x`, row `y`, or `None` where
    /// there is no such sample.
    pub fn get_sample(&self, x: u32, y: u32, c: u8) -> (res: Option<u8>)
        ensures
            res == (if x < self@.width && y < self@.height && c < self@.format.channels() {
                Some(self@.sample(x as int, y as int, c as int))
            } else {
                None
            }),
    {
        proof {
            use_type_invariant(self);
        }
        let channels = self.format.channel_count();
        if x >= self.width || y >= self.height || c as usize >= channels {
            return None;
        }
        proof {
            lemma_position_in_range(x as int, y as int, self.width as int, self.height as int);
            assert((y * self.width + x) * channels + c < self.width * self.height * channels)
                by (nonlinear_arith)
                requires
                    0 <= y * self.width + x < self.width * self.height,
                    0 <= c < channels,
            ;
        }
        let position = (y as usize) * (self.width as usize) + (x as usize);
        Some(self.data[position * channels + (c as usize)])
    }

    /// The intensity at column `x`, row `y` of a grayscale image.
    pub(crate) fn luma_at(&self, x: u32, y: u32) -> (v: u8)
        requires
            self@.format == PixelFormat::Luma8,
            x < self@.width,
            y < self@.height,
        ensures
            v == self@.samples[y * self@.width + x],
    {
        proof {
            use_type_invariant(self);
            lemma_position_in_range(x as int, y as int, self.width as int, self.height as int);
            assert(self.format.channels() == 1);
            assert(self.data@.len() == self.width * self.height) by (nonlinear_arith)
                requires
                    self.data@.len() == self.width * self.height * 1,
            ;
        }
        self.data[(y as usize) * (self.width as usize) + (x as usize)]
    }

    /// Return a cut-out of this image delimited by the bounding rectangle,
    /// which is first cut down to what lies inside the image.
    #[verifier::loop_isolation(false)]
    pub fn crop_imm(&self, x: u32, y: u32, width: u32, height: u32) -> (out: RasterImage)
        ensures
            out@ == self@.cropped(x as nat, y as nat, width as nat, height as nat),
            out@.wf(),
    {
        proof {
            use_type_invariant(self);
        }
        let left = if x < self.width { x } else { self.width };
        let top = if y < self.height { y } else { self.height };
        let w = if width < self.width - left { width } else { self.width - left };
        let h = if height < self.height - top { height } else { self.height - top };
        let channels = self.format.channel_count();
        let ghost target = self@.cropped(x as nat, y as nat, width as nat, height as nat);
        proof {
            assert(w * h <= self.width * self.height) by (nonlinear_arith)
                requires
                    0 <= w <= self.width,
                    0 <= h <= self.height,
            ;
        }
        let mut data: Vec<u8> = Vec::new();
        let mut row: u32 = 0;
        while row < h
            invariant
                row <= h,
                data@.len() == row * w * channels,
                forall|k: int| 0 <= k < data@.len() ==> #[trigger] data@[k] == target.samples[k],
            decreases h - row,
        {
            let mut col: u32 = 0;
            while col < w
                invariant
                    col <= w,
                    data@.len() == (row * w + col) * channels,
                    forall|k: int| 0 <= k < data@.len() ==> #[trigger] data@[k] == target.samples[k],
                decreases w - col,
            {
                proof {
                    lemma_position_in_range(col as int, row as int, w as int, h as int);
                    lemma_row_major(col as int, row as int, w as int);
                    lemma_position_in_range(
                        (left + col) as int,
                        (top + row) as int,
                        self.width as int,
                        self.height as int,
                    );
                }
                let source: usize = ((top + row) as usize) * (self.width as usize) + ((left + col) as usize);
                let mut c: usize = 0;
                while c < channels
                    invariant
                        c <= channels,
                        data@.len() == (row * w + col) * channels + c,
                        forall|k: int|
                            0 <= k < data@.len() ==> #[trigger] data@[k] == target.samples[k],
                    decreases channels - c,
                {
                    proof {
                        lemma_row_major(c as int, row * w + col, channels as int);
                        assert(source * channels + c < self.width * self.height * channels)
                            by (nonlinear_arith)
                            requires
                                0 <= source < self.width * self.height,
                                0 <= c < channels,
                        ;
                        assert((row * w + col) * channels + c < w * h * channels)
                            by (nonlinear_arith)
                            requires
                                0 <= row * w + col < w * h,
                                0 <= c < channels,
                        ;
                        assert((row * w + col) * channels == channels * (row * w + col))
                            by (nonlinear_arith);
                    }
                    data.push(self.data[source * channels + c]);
                    c = c + 1;
                }
                assert((row * w + (col + 1)) * channels == (row * w + col) * channels + channels)
                    by (nonlinear_arith);
                col = col + 1;
            }
            assert((row + 1) * w * channels == (row * w + w) * channels) by (nonlinear_arith);
            row = row + 1;
        }
        assert(data@.len() == w * h * channels) by (nonlinear_arith)
            requires
                data@.len() == row * w * channels,
                row == h,
        ;
        assert(data@ =~= target.samples);
        let length = data.len();
        RasterImage { width: w, height: h, format: self.format, data }
    }

    /// Whether the image has no pixel at all.
    pub fn is_empty(&self) -> (e: bool)
        ensures
            e == (self@.pixel_count() == 0),
    {
        proof {
            use_type_invariant(self);
            assert(self@.width * self@.height == 0 <==> (self@.width == 0 || self@.height == 0)) by (nonlinear_arith);
        }
        self.width == 0 || self.height == 0
    }
}

impl Clone for RasterImage {
    fn clone(&self) -> (copy: RasterImage)
        ensures
            copy@ == self@,
            copy@.wf(),
    {
        proof {
            use_type_invariant(self);
        }
        RasterImage {
            width: self.width,
            height: self.height,
            format: self.format,
            data: self.data.clone(),
        }
    }
}

/// In a row-major layout the position of a sample gives back its column and
/// its row.
pub proof fn lemma_row_major(x: int, y: int, width: int)
    requires
        0 <= x < width,
        0 <= y,
    ensures
        (y * width + x) % width == x,
        (y * width + x) / width == y,
        0 <= y * width + x,
        y * width + x < (y + 1) * width,
{
    vstd::arithmetic::div_mod::lemma_fundamental_div_mod_converse(y * width + x, width, y, x);
    assert(y * width >= 0) by (nonlinear_arith)
        requires
            y >= 0,
            width > 0,
    ;
    assert((y + 1) * width == y * width + width) by (nonlinear_arith);
}

/// A position inside an image lies inside its sample buffer.
pub proof fn lemma_position_in_range(x: int, y: int, width: int, height: int)
    requires
        0 <= x < width,
        0 <= y < height,
    ensures
        0 <= y * width + x < width * height,
{
    assert(y * width + x < width * height) by (nonlinear_arith)
        requires
            0 <= x < width,
            0 <= y < height,
    ;
    assert(0 <= y * width + x) by (nonlinear_arith)
        requires
            0 <= x < width,
            0 <= y < height,
    ;
}

} // verus!
