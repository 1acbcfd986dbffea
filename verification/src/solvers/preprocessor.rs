//! Image Preprocessor Module
//!
//! Deterministic pixel transforms that prepare a captcha image for
//! recognition.

use vstd::prelude::*;
use crate::error::{CaptchaError, CaptchaResult};
use crate::imaging;
use crate::imaging::{
    adaptive_thresholded, gaussian_blurred, is_binary, lanczos3_resized, luma_of, median_filtered,
};
use vstd::string::*;
use crate::models::PreprocessOptions;
use crate::raster::{within_limits, ImageModel, PixelFormat, RasterImage};

verus! {

/// The standard deviation of the blur that `denoise` applies.
pub const DENOISE_SIGMA: u8 = 1;

/// The largest block radius that `adaptive_threshold` accepts.
pub const MAX_BLOCK_RADIUS: u32 = 0x7fff_ffff;

/// The largest number of pixels that `adaptive_threshold` accepts: twice
/// the sum of all intensities still fits in 32 bits.
pub const MAX_ADAPTIVE_PIXELS: u32 = 8_421_504;

/// The largest radius that `median_denoise` accepts: twice the number of
/// samples in its window still fits in 32 bits.
pub const MAX_MEDIAN_RADIUS: u32 = 16_383;

/// The intensity below which a pixel counts as dark.
pub const DARK_BELOW: u8 = 128;

/// The least width of a character region that is closed by a blank column.
pub const MIN_SEGMENT_WIDTH: u32 = 4;

/// The intensity above which a pixel counts as light.
pub const LIGHT_ABOVE: u8 = 200;

impl ImageModel {
    /// The intensities of the pixels, one sample each: the samples
    /// themselves for a grayscale image, the luma of each colour otherwise.
    pub open spec fn intensities(self) -> Seq<u8> {
        match self.format {
            PixelFormat::Luma8 => self.samples,
            PixelFormat::Rgb8 => Seq::new(
                self.width * self.height,
                |i: int| luma_of(self.samples[3 * i], self.samples[3 * i + 1], self.samples[3 * i + 2]),
            ),
        }
    }

    /// A grayscale image of the same dimensions with the given samples.
    pub open spec fn gray_with(self, samples: Seq<u8>) -> ImageModel {
        ImageModel { width: self.width, height: self.height, format: PixelFormat::Luma8, samples }
    }

    /// The image reduced to its intensities.
    pub open spec fn luma(self) -> ImageModel {
        self.gray_with(self.intensities())
    }

    /// Whether the image can be stretched to the given dimensions: no side
    /// of the result is too long and, unless the result has no pixel, the
    /// result and the intermediate buffer of the resampling, sixteen bytes
    /// for each pixel of an image as wide as this one and as high as the
    /// result, can be allocated.
    pub open spec fn resize_supported(self, width: nat, height: nat) -> bool {
        &&& within_limits(width, height)
        &&& width * height > 0 ==> {
            &&& self.width * height * 16 <= isize::MAX
            &&& width * height * self.format.channels() <= isize::MAX
        }
    }

    /// The image stretched to exactly the given dimensions.
    pub open spec fn resized(self, width: nat, height: nat) -> ImageModel {
        ImageModel {
            width,
            height,
            format: self.format,
            samples: if width * height == 0 {
                Seq::empty()
            } else {
                lanczos3_resized(
                    self.samples,
                    self.format.channels(),
                    self.width,
                    self.height,
                    width,
                    height,
                )
            },
        }
    }

    /// The grayscale image after the Gaussian blur.
    pub open spec fn denoised(self) -> ImageModel {
        self.gray_with(
            gaussian_blurred(self.intensities(), self.width, self.height, DENOISE_SIGMA as nat),
        )
    }

    /// The grayscale image cut in two at `cut`: intensities above it become
    /// 255, the others 0.
    pub open spec fn thresholded(self, cut: u8) -> ImageModel {
        self.gray_with(self.intensities().map_values(|v: u8| binarized(v, cut)))
    }

    /// The grayscale image after the adaptive threshold with the given
    /// block radius.
    pub open spec fn adaptively_thresholded(self, block_radius: nat) -> ImageModel {
        self.gray_with(
            if self.width * self.height == 0 {
                Seq::empty()
            } else {
                adaptive_thresholded(self.intensities(), self.width, self.height, block_radius)
            },
        )
    }

    /// The grayscale image after the median filter with the given radius in
    /// both directions.
    pub open spec fn median_denoised(self, radius: nat) -> ImageModel {
        self.gray_with(median_filtered(self.intensities(), self.width, self.height, radius, radius))
    }

    /// The grayscale image after erosion.
    pub open spec fn eroded(self, radius: u8) -> ImageModel {
        self.gray_with(imaging::eroded(self.intensities(), self.width, self.height, radius))
    }

    /// The grayscale image after dilation.
    pub open spec fn dilated(self, radius: u8) -> ImageModel {
        self.gray_with(imaging::dilated(self.intensities(), self.width, self.height, radius))
    }

    /// The intensity at column `x`, row `y`.
    pub open spec fn intensity(self, x: int, y: int) -> u8 {
        self.intensities()[y * self.width + x]
    }

    /// Whether the pixel has all four neighbours inside the image.
    pub open spec fn is_interior(self, x: int, y: int) -> bool {
        1 <= x && x + 1 < self.width && 1 <= y && y + 1 < self.height
    }

    /// What line removal makes of the pixel at column `x`, row `y`: an
    /// interior pixel is judged by its four neighbours in this image, a
    /// border pixel keeps its intensity.
    pub open spec fn line_cleaned_at(self, x: int, y: int) -> u8 {
        if self.is_interior(x, y) {
            line_cleaned(
                self.intensity(x, y),
                self.intensity(x, y - 1),
                self.intensity(x, y + 1),
                self.intensity(x - 1, y),
                self.intensity(x + 1, y),
            )
        } else {
            self.intensity(x, y)
        }
    }

    /// The grayscale image after line removal.
    pub open spec fn lines_removed(self) -> ImageModel {
        self.gray_with(
            Seq::new(
                self.width * self.height,
                |i: int| self.line_cleaned_at(i % (self.width as int), i / (self.width as int)),
            ),
        )
    }

    /// The grayscale image after histogram equalization: each intensity is
    /// replaced by the share of pixels that are at most as bright, scaled to
    /// the full range and rounded.
    pub open spec fn contrast_enhanced(self) -> ImageModel {
        let gray = self.intensities();
        self.gray_with(
            gray.map_values(
                |v: u8| equalized_level(count_at_most(gray, v as int), gray.len()) as u8,
            ),
        )
    }

    /// Whether column `x` holds a dark pixel.
    pub open spec fn column_has_ink(self, x: int) -> bool {
        exists|y: int| 0 <= y < self.height && is_dark(#[trigger] self.intensity(x, y))
    }

    /// For each column, whether it holds a dark pixel: the vertical
    /// projection profile, reduced to zero or not.
    pub open spec fn ink_profile(self) -> Seq<bool> {
        Seq::new(self.width, |x: int| self.column_has_ink(x))
    }

    /// The columns from `start` up to, not including, `end`, at full height.
    pub open spec fn columns(self, start: int, end: int) -> ImageModel {
        self.cropped(start as nat, 0, (end - start) as nat, self.height)
    }
}

/// Whether an intensity counts as dark.
pub open spec fn is_dark(value: u8) -> bool {
    value < DARK_BELOW
}

/// Whether an intensity counts as light.
pub open spec fn is_light(value: u8) -> bool {
    value > LIGHT_ABOVE
}

/// How many of four neighbouring intensities are dark.
pub open spec fn dark_neighbours(top: u8, bottom: u8, left: u8, right: u8) -> nat {
    (if is_dark(top) { 1nat } else { 0 }) + (if is_dark(bottom) { 1nat } else { 0 }) + (if is_dark(left) {
        1nat
    } else {
        0
    }) + (if is_dark(right) { 1nat } else { 0 })
}

/// What line removal makes of an interior pixel of intensity `current` with
/// the given neighbours. A pixel that is not dark stays. A dark pixel
/// between light above and below and dark left and right belongs to a
/// stroke and stays. Otherwise a dark pixel turns white when it lies
/// between light left and right and dark above and below (a vertical line),
/// or when at most one neighbour is dark (isolated noise).
pub open spec fn line_cleaned(current: u8, top: u8, bottom: u8, left: u8, right: u8) -> u8 {
    if !is_dark(current) {
        current
    } else if is_light(top) && is_light(bottom) && is_dark(left) && is_dark(right) {
        current
    } else if is_light(left) && is_light(right) && is_dark(top) && is_dark(bottom) {
        255
    } else if dark_neighbours(top, bottom, left, right) <= 1 {
        255
    } else {
        current
    }
}

/// How many samples equal `value`.
pub open spec fn count_equal(samples: Seq<u8>, value: int) -> nat
    decreases samples.len(),
{
    if samples.len() == 0 {
        0
    } else {
        count_equal(samples.drop_last(), value) + (if samples.last() == value {
            1nat
        } else {
            0
        })
    }
}

/// How many samples are at most `value`: the cumulative histogram.
pub open spec fn count_at_most(samples: Seq<u8>, value: int) -> nat
    decreases samples.len(),
{
    if samples.len() == 0 {
        0
    } else {
        count_at_most(samples.drop_last(), value) + (if samples.last() <= value {
            1nat
        } else {
            0
        })
    }
}

/// The share `at_most / total` of the full intensity 255, rounded to the
/// nearest integer, halves upwards.
pub open spec fn equalized_level(at_most: nat, total: nat) -> int {
    (510 * at_most + total) as int / (2 * total) as int
}

/// No more samples are counted than there are.
pub proof fn lemma_count_at_most_bounded(samples: Seq<u8>, value: int)
    ensures
        count_at_most(samples, value) <= samples.len(),
    decreases samples.len(),
{
    if samples.len() > 0 {
        lemma_count_at_most_bounded(samples.drop_last(), value);
    }
}

/// The cumulative histogram grows from one intensity to the next by the
/// number of samples of that intensity, and starts at nothing.
pub proof fn lemma_count_at_most_step(samples: Seq<u8>, value: int)
    ensures
        count_at_most(samples, value) == count_at_most(samples, value - 1) + count_equal(
            samples,
            value,
        ),
        value < 0 ==> count_at_most(samples, value) == 0,
        value >= 255 ==> count_at_most(samples, value) == samples.len(),
    decreases samples.len(),
{
    if samples.len() > 0 {
        lemma_count_at_most_step(samples.drop_last(), value);
    }
}

/// An equalized level is an intensity.
pub proof fn lemma_equalized_level_range(at_most: nat, total: nat)
    requires
        at_most <= total,
        total > 0,
    ensures
        0 <= equalized_level(at_most, total) <= 255,
{
    let numerator = (510 * at_most + total) as int;
    let divisor = (2 * total) as int;
    assert(0 <= numerator < 256 * divisor);
    vstd::arithmetic::div_mod::lemma_div_pos_is_pos(numerator, divisor);
    vstd::arithmetic::div_mod::lemma_div_by_multiple_is_strongly_ordered(
        numerator,
        256 * divisor,
        256,
        divisor,
    );
    vstd::arithmetic::div_mod::lemma_div_by_multiple(256, divisor);
}

/// Where a left-to-right scan of the columns stands: the regions it has
/// closed so far, each as first column and column after the last, and the
/// first column of the region it is in, if it is in one.
pub struct ScanState {
    pub closed: Seq<(int, int)>,
    pub open: Option<int>,
}

/// The state of the scan after the first `upto` columns. A region opens at
/// an inked column that follows a blank one, and closes at the next blank
/// column; a closed region narrower than `MIN_SEGMENT_WIDTH` is dropped.
pub open spec fn scan(ink: Seq<bool>, upto: int) -> ScanState
    decreases upto,
{
    if upto <= 0 {
        ScanState { closed: Seq::empty(), open: None }
    } else {
        let before = scan(ink, upto - 1);
        let column = upto - 1;
        match before.open {
            None => if ink[column] {
                ScanState { closed: before.closed, open: Some(column) }
            } else {
                before
            },
            Some(start) => if ink[column] {
                before
            } else if column - start >= MIN_SEGMENT_WIDTH {
                ScanState { closed: before.closed.push((start, column)), open: None }
            } else {
                ScanState { closed: before.closed, open: None }
            },
        }
    }
}

/// The character regions of a column profile, left to right: what the scan
/// has closed, and the region still open at the last column, whatever its
/// width.
pub open spec fn segment_bounds(ink: Seq<bool>) -> Seq<(int, int)> {
    let end = scan(ink, ink.len() as int);
    match end.open {
        Some(start) => end.closed.push((start, ink.len() as int)),
        None => end.closed,
    }
}

/// Whether the columns from `start` up to, not including, `end` are inked
/// and the column before `start`, if there is one, is blank.
pub open spec fn is_inked_from(ink: Seq<bool>, start: int, end: int) -> bool {
    &&& 0 <= start < end <= ink.len()
    &&& forall|k: int| start <= k < end ==> ink[k]
    &&& (start == 0 || !ink[start - 1])
}

/// Whether the columns from `start` up to, not including, `end` form a
/// maximal run of inked columns.
pub open spec fn is_run(ink: Seq<bool>, start: int, end: int) -> bool {
    &&& is_inked_from(ink, start, end)
    &&& (end == ink.len() || !ink[end])
}

/// Whether a maximal run counts as a character region: it is at least
/// `MIN_SEGMENT_WIDTH` columns wide, or it reaches the last column.
pub open spec fn is_region(ink: Seq<bool>, start: int, end: int) -> bool {
    &&& is_run(ink, start, end)
    &&& (end - start >= MIN_SEGMENT_WIDTH || end == ink.len())
}

/// What holds of the scan after the first `upto` columns.
spec fn scan_invariant(ink: Seq<bool>, upto: int) -> bool {
    let state = scan(ink, upto);
    &&& state.open matches Some(start) ==> is_inked_from(ink, start, upto)
    &&& state.open is None ==> upto == 0 || !ink[upto - 1]
    &&& forall|i: int|
        0 <= i < state.closed.len() ==> {
            let (a, b) = #[trigger] state.closed[i];
            &&& is_run(ink, a, b)
            &&& b < upto
            &&& b - a >= MIN_SEGMENT_WIDTH
            &&& (state.open matches Some(start) ==> b < start)
        }
    &&& forall|i: int, j: int|
        0 <= i < j < state.closed.len() ==> (#[trigger] state.closed[i]).1 < (
        #[trigger] state.closed[j]).0
    &&& forall|a: int, b: int|
        #[trigger] is_run(ink, a, b) && b < upto && b - a >= MIN_SEGMENT_WIDTH
            ==> state.closed.contains((a, b))
}

proof fn lemma_scan(ink: Seq<bool>, upto: int)
    requires
        0 <= upto <= ink.len(),
    ensures
        scan_invariant(ink, upto),
    decreases upto,
{
    if upto > 0 {
        lemma_scan(ink, upto - 1);
        let before = scan(ink, upto - 1);
        let after = scan(ink, upto);
        let column = upto - 1;
        assert forall|i: int| 0 <= i < after.closed.len() implies {
            let (a, b) = #[trigger] after.closed[i];
            &&& is_run(ink, a, b)
            &&& b < upto
            &&& b - a >= MIN_SEGMENT_WIDTH
            &&& (after.open matches Some(start) ==> b < start)
        } by {
            if i < before.closed.len() {
                assert(after.closed[i] == before.closed[i]);
            }
        }
        assert forall|i: int, j: int| 0 <= i < j < after.closed.len() implies (
        #[trigger] after.closed[i]).1 < (#[trigger] after.closed[j]).0 by {
            if j < before.closed.len() {
                assert(after.closed[i] == before.closed[i]);
                assert(after.closed[j] == before.closed[j]);
            } else {
                assert(after.closed[i] == before.closed[i]);
            }
        }
        assert forall|a: int, b: int|
            #[trigger] is_run(ink, a, b) && b < upto && b - a >= MIN_SEGMENT_WIDTH
            implies after.closed.contains((a, b)) by {
            if b < column {
                assert(before.closed.contains((a, b)));
                let i = choose|i: int| 0 <= i < before.closed.len() && before.closed[i] == (a, b);
                assert(after.closed[i] == (a, b));
            } else {
                assert(b == column);
                assert(ink[column - 1]);
                let start = before.open->Some_0;
                assert(before.open is Some);
                if a < start {
                    assert(ink[start - 1]);
                } else if a > start {
                    assert(ink[a - 1]);
                }
                assert(a == start);
                assert(after.closed == before.closed.push((a, b)));
                assert(after.closed[before.closed.len() as int] == (a, b));
            }
        }
    }
}

/// Every segment is a character region: a maximal run of inked columns
/// that is at least `MIN_SEGMENT_WIDTH` wide or reaches the last column.
pub proof fn lemma_segments_are_regions(ink: Seq<bool>, i: int)
    requires
        0 <= i < segment_bounds(ink).len(),
    ensures
        is_region(ink, segment_bounds(ink)[i].0, segment_bounds(ink)[i].1),
{
    lemma_scan(ink, ink.len() as int);
    let end = scan(ink, ink.len() as int);
    if i < end.closed.len() {
        assert(segment_bounds(ink)[i] == end.closed[i]);
    }
}

/// Segments come left to right and at least one blank column lies between
/// two of them.
pub proof fn lemma_segments_ordered(ink: Seq<bool>, i: int, j: int)
    requires
        0 <= i < j < segment_bounds(ink).len(),
    ensures
        segment_bounds(ink)[i].1 < segment_bounds(ink)[j].0,
{
    lemma_scan(ink, ink.len() as int);
    let end = scan(ink, ink.len() as int);
    assert(segment_bounds(ink)[i] == end.closed[i]);
    if j < end.closed.len() {
        assert(segment_bounds(ink)[j] == end.closed[j]);
    }
}

/// Every character region is among the segments.
pub proof fn lemma_segments_complete(ink: Seq<bool>, start: int, end: int)
    requires
        is_region(ink, start, end),
    ensures
        segment_bounds(ink).contains((start, end)),
{
    let n = ink.len() as int;
    lemma_scan(ink, n);
    let last = scan(ink, n);
    if end < n {
        assert(last.closed.contains((start, end)));
        let i = choose|i: int| 0 <= i < last.closed.len() && last.closed[i] == (start, end);
        assert(segment_bounds(ink)[i] == (start, end));
    } else {
        assert(ink[n - 1]);
        let open = last.open->Some_0;
        if start < open {
            assert(ink[open - 1]);
        } else if start > open {
            assert(ink[start - 1]);
        }
        assert(segment_bounds(ink)[last.closed.len() as int] == (start, end));
    }
}

/// What a binary threshold at `cut` makes of one intensity.
pub open spec fn binarized(value: u8, cut: u8) -> u8 {
    if value > cut {
        255
    } else {
        0
    }
}

/// The dimensions that the options ask for, if they name both.
pub open spec fn requested_size(options: PreprocessOptions) -> Option<(nat, nat)> {
    match (options.resize_width, options.resize_height) {
        (Some(w), Some(h)) => Some((w as nat, h as nat)),
        _ => None,
    }
}

/// Whether the options ask for grayscale; absent means yes.
pub open spec fn wants_grayscale(options: PreprocessOptions) -> bool {
    match options.grayscale {
        Some(g) => g,
        None => true,
    }
}

/// Whether the options ask for the blur; absent means no.
pub open spec fn wants_denoise(options: PreprocessOptions) -> bool {
    match options.denoise {
        Some(d) => d,
        None => false,
    }
}

/// Whether `preprocess` can honour the options on this image: it cannot
/// only when they ask for a size that the image cannot be stretched to.
pub open spec fn can_preprocess(image: ImageModel, options: PreprocessOptions) -> bool {
    match requested_size(options) {
        Some((w, h)) => image.resize_supported(w, h),
        None => true,
    }
}

/// The image after the resizing step.
pub open spec fn after_resize(image: ImageModel, options: PreprocessOptions) -> ImageModel {
    match requested_size(options) {
        Some((w, h)) => image.resized(w, h),
        None => image,
    }
}

/// The image after resizing and colour reduction.
pub open spec fn after_grayscale(image: ImageModel, options: PreprocessOptions) -> ImageModel {
    let resized = after_resize(image, options);
    if wants_grayscale(options) {
        resized.luma()
    } else {
        resized
    }
}

/// The image after resizing, colour reduction and blur.
pub open spec fn after_denoise(image: ImageModel, options: PreprocessOptions) -> ImageModel {
    let gray = after_grayscale(image, options);
    if wants_denoise(options) {
        gray.denoised()
    } else {
        gray
    }
}

/// What `preprocess` makes of an image: resize, then colour reduction, then
/// blur, then threshold, each only where the options ask for it.
pub open spec fn preprocessed(image: ImageModel, options: PreprocessOptions) -> ImageModel {
    let blurred = after_denoise(image, options);
    match options.threshold {
        Some(cut) => blurred.thresholded(cut),
        None => blurred,
    }
}

/// Thresholding twice at the same cut gives what thresholding once gives.
pub proof fn lemma_threshold_idempotent(image: ImageModel, cut: u8)
    ensures
        image.thresholded(cut).thresholded(cut) == image.thresholded(cut),
{
    let once = image.thresholded(cut);
    assert(once.thresholded(cut).samples =~= once.samples);
}

/// A thresholded image holds nothing but 0 and 255.
pub proof fn lemma_thresholded_is_binary(image: ImageModel, cut: u8)
    ensures
        is_binary(image.thresholded(cut).samples),
{
}

/// Where the options name both dimensions, the preprocessed image has
/// exactly these; otherwise it has those of the input.
pub proof fn lemma_preprocessed_size(image: ImageModel, options: PreprocessOptions)
    ensures
        match requested_size(options) {
            Some((w, h)) => preprocessed(image, options).width == w && preprocessed(
                image,
                options,
            ).height == h,
            None => preprocessed(image, options).width == image.width && preprocessed(
                image,
                options,
            ).height == image.height,
        },
{
}

/// The options of the full pipeline: grayscale, blur, threshold at 128, no
/// resizing.
pub open spec fn full_pipeline_options() -> PreprocessOptions {
    PreprocessOptions {
        grayscale: Some(true),
        denoise: Some(true),
        threshold: Some(128),
        resize_width: None,
        resize_height: None,
    }
}

/// What the full pipeline makes of an image.
pub open spec fn full_pipeline_of(image: ImageModel) -> ImageModel {
    preprocessed(image, full_pipeline_options()).contrast_enhanced().lines_removed()
}

impl RasterImage {
    /// A grayscale copy of the image.
    pub fn to_luma8(&self) -> (gray: RasterImage)
        ensures
            gray@ == self@.luma(),
            gray@.wf(),
            gray@.samples.len() == self@.width * self@.height,
    {
        let width = self.width();
        let height = self.height();
        let data = match self.format() {
            PixelFormat::Luma8 => self.samples().clone(),
            PixelFormat::Rgb8 => imaging::rgb_to_luma(self.samples(), width, height),
        };
        assert(data@ =~= self@.intensities());
        RasterImage::from_parts(width, height, PixelFormat::Luma8, data)
    }

    /// The image stretched to exactly `width` by `height` pixels with a
    /// Lanczos filter, or `ImageTooLarge` where that size is not supported.
    pub fn resize_exact(&self, width: u32, height: u32) -> (res: CaptchaResult<RasterImage>)
        ensures
            match res {
                Ok(out) => {
                    &&& self@.resize_supported(width as nat, height as nat)
                    &&& out@ == self@.resized(width as nat, height as nat)
                    &&& out@.wf()
                },
                Err(e) => e is ImageTooLarge && !self@.resize_supported(width as nat, height as nat),
            },
    {
        if !crate::raster::fits_limits(width, height) {
            return Err(CaptchaError::ImageTooLarge);
        }
        if width == 0 || height == 0 {
            assert(width * height == 0) by (nonlinear_arith)
                requires
                    width == 0 || height == 0,
            ;
            return Ok(RasterImage::from_parts(width, height, self.format(), Vec::new()));
        }
        assert(width * height > 0) by (nonlinear_arith)
            requires
                width > 0,
                height > 0,
        ;
        let own_width = self.width();
        let channels = self.format().channel_count();
        assert(own_width * height * 16 <= 0x10_0000_0000_0000 && width * height * channels
            <= 0x3_0000_0000_0000) by (nonlinear_arith)
            requires
                own_width <= 0x100_0000,
                width <= 0x100_0000,
                height <= 0x100_0000,
                channels <= 3,
        ;
        let scratch: u64 = (own_width as u64) * (height as u64) * 16;
        let result: u64 = (width as u64) * (height as u64) * (channels as u64);
        if scratch > isize::MAX as u64 || result > isize::MAX as u64 {
            return Err(CaptchaError::ImageTooLarge);
        }
        let data = imaging::resize_lanczos3(
            self.samples(),
            self.format(),
            own_width,
            self.height(),
            width,
            height,
        );
        Ok(RasterImage::from_parts(width, height, self.format(), data))
    }
}

/// Image preprocessor for captcha images
pub struct ImagePreprocessor;

impl ImagePreprocessor {
    /// Preprocess an image according to the given options: resize to the
    /// exact size if both dimensions are given, reduce to grayscale unless
    /// told otherwise, blur if asked, threshold if a cut is given, in this
    /// order. Fails with `ImageTooLarge` exactly when the requested size is
    /// not supported.
    pub fn preprocess(image: &RasterImage, options: &PreprocessOptions) -> (res: CaptchaResult<
        RasterImage,
    >)
        ensures
            match res {
                Ok(out) => {
                    &&& can_preprocess(image@, *options)
                    &&& out@ == preprocessed(image@, *options)
                    &&& out@.wf()
                },
                Err(e) => e is ImageTooLarge && !can_preprocess(image@, *options),
            },
            res is Ok ==> (requested_size(*options) matches Some((w, h)) ==> res->Ok_0@.width == w
                && res->Ok_0@.height == h),
    {
        let mut result = match (options.resize_width, options.resize_height) {
            (Some(width), Some(height)) => {
                match image.resize_exact(width, height) {
                    Ok(resized) => resized,
                    Err(e) => {
                        return Err(e);
                    },
                }
            },
            _ => image.clone(),
        };
        assert(result@ == after_resize(image@, *options));

        let grayscale = match options.grayscale {
            Some(g) => g,
            None => true,
        };
        if grayscale {
            result = result.to_luma8();
        }
        let denoise = match options.denoise {
            Some(d) => d,
            None => false,
        };
        if denoise {
            result = Self::denoise(&result)?;
        }
        if let Some(cut) = options.threshold {
            result = Self::apply_threshold(&result, cut)?;
        }
        Ok(result)
    }

    /// Apply Gaussian blur for denoising
    pub fn denoise(image: &RasterImage) -> (res: CaptchaResult<RasterImage>)
        ensures
            res matches Ok(out) && out@ == image@.denoised() && out@.wf(),
    {
        let gray = image.to_luma8();
        let blurred = imaging::gaussian_blur(gray.samples(), gray.width(), gray.height(), DENOISE_SIGMA);
        Ok(RasterImage::from_parts(gray.width(), gray.height(), PixelFormat::Luma8, blurred))
    }

    /// Apply binary threshold
    pub fn apply_threshold(image: &RasterImage, thresh_value: u8) -> (res: CaptchaResult<RasterImage>)
        ensures
            res matches Ok(out) && out@ == image@.thresholded(thresh_value) && out@.wf(),
    {
        let gray = image.to_luma8();
        let cut = imaging::threshold(gray.samples(), gray.width(), gray.height(), thresh_value);
        assert(cut@ =~= image@.intensities().map_values(|v: u8| binarized(v, thresh_value)));
        Ok(RasterImage::from_parts(gray.width(), gray.height(), PixelFormat::Luma8, cut))
    }

    /// Apply adaptive threshold for varying lighting conditions. Fails with
    /// `BadRequest` exactly when the block radius is zero or above
    /// `MAX_BLOCK_RADIUS`, and else with `ImageTooLarge` exactly when the
    /// image has more than `MAX_ADAPTIVE_PIXELS` pixels.
    pub fn adaptive_threshold(image: &RasterImage, block_radius: u32) -> (res: CaptchaResult<
        RasterImage,
    >)
        ensures
            match res {
                Ok(out) => {
                    &&& 0 < block_radius <= MAX_BLOCK_RADIUS
                    &&& image@.pixel_count() <= MAX_ADAPTIVE_PIXELS
                    &&& out@ == image@.adaptively_thresholded(block_radius as nat)
                    &&& out@.wf()
                    &&& is_binary(out@.samples)
                },
                Err(CaptchaError::BadRequest(_)) => !(0 < block_radius <= MAX_BLOCK_RADIUS),
                Err(CaptchaError::ImageTooLarge) => {
                    &&& 0 < block_radius <= MAX_BLOCK_RADIUS
                    &&& image@.pixel_count() > MAX_ADAPTIVE_PIXELS
                },
                Err(_) => false,
            },
    {
        if block_radius == 0 || block_radius > MAX_BLOCK_RADIUS {
            return Err(CaptchaError::BadRequest(String::from_str("block radius out of range")));
        }
        let gray = image.to_luma8();
        if gray.samples().len() > MAX_ADAPTIVE_PIXELS as usize {
            return Err(CaptchaError::ImageTooLarge);
        }
        if gray.is_empty() {
            assert(gray@.samples =~= Seq::<u8>::empty());
            return Ok(gray);
        }
        let cut = imaging::adaptive_threshold(
            gray.samples(),
            gray.width(),
            gray.height(),
            block_radius,
        );
        Ok(RasterImage::from_parts(gray.width(), gray.height(), PixelFormat::Luma8, cut))
    }

    /// Apply median filter to remove salt-and-pepper noise. Fails with
    /// `BadRequest` exactly when the radius is above `MAX_MEDIAN_RADIUS`.
    pub fn median_denoise(image: &RasterImage, radius: u32) -> (res: CaptchaResult<RasterImage>)
        ensures
            match res {
                Ok(out) => {
                    &&& radius <= MAX_MEDIAN_RADIUS
                    &&& out@ == image@.median_denoised(radius as nat)
                    &&& out@.wf()
                },
                Err(e) => e is BadRequest && radius > MAX_MEDIAN_RADIUS,
            },
    {
        if radius > MAX_MEDIAN_RADIUS {
            return Err(CaptchaError::BadRequest(String::from_str("median radius out of range")));
        }
        let gray = image.to_luma8();
        assert(2 * ((2 * radius + 1) * (2 * radius + 1)) <= u32::MAX) by (nonlinear_arith)
            requires
                radius <= 16_383,
        ;
        let filtered = imaging::median_filter(
            gray.samples(),
            gray.width(),
            gray.height(),
            radius,
            radius,
        );
        Ok(RasterImage::from_parts(gray.width(), gray.height(), PixelFormat::Luma8, filtered))
    }

    /// Apply morphological erosion
    pub fn erode_image(image: &RasterImage, radius: u8) -> (res: CaptchaResult<RasterImage>)
        ensures
            res matches Ok(out) && out@ == image@.eroded(radius) && out@.wf() && is_binary(
                out@.samples,
            ),
    {
        let gray = image.to_luma8();
        let eroded = imaging::erode(gray.samples(), gray.width(), gray.height(), radius);
        Ok(RasterImage::from_parts(gray.width(), gray.height(), PixelFormat::Luma8, eroded))
    }

    /// Apply morphological dilation
    pub fn dilate_image(image: &RasterImage, radius: u8) -> (res: CaptchaResult<RasterImage>)
        ensures
            res matches Ok(out) && out@ == image@.dilated(radius) && out@.wf() && is_binary(
                out@.samples,
            ),
    {
        let gray = image.to_luma8();
        let dilated = imaging::dilate(gray.samples(), gray.width(), gray.height(), radius);
        Ok(RasterImage::from_parts(gray.width(), gray.height(), PixelFormat::Luma8, dilated))
    }

    /// Remove noise lines: every dark interior pixel is judged by its four
    /// neighbours in the input and either kept or turned white.
    pub fn remove_lines(image: &RasterImage) -> (res: CaptchaResult<RasterImage>)
        ensures
            res matches Ok(out) && out@ == image@.lines_removed() && out@.wf(),
    {
        let gray = image.to_luma8();
        let width = gray.width();
        let height = gray.height();
        let ghost model = image@;
        let mut output: Vec<u8> = Vec::new();
        let mut y: u32 = 0;
        while y < height
            invariant
                y <= height,
                width == model.width,
                height == model.height,
                gray@ == model.luma(),
                gray@.wf(),
                gray@.samples.len() == width * height,
                output@.len() == y * width,
                forall|k: int|
                    0 <= k < output@.len() ==> #[trigger] output@[k] == model.line_cleaned_at(
                        k % (width as int),
                        k / (width as int),
                    ),
            decreases height - y,
        {
            let mut x: u32 = 0;
            while x < width
                invariant
                    x <= width,
                    y < height,
                    width == model.width,
                    height == model.height,
                    gray@ == model.luma(),
                    gray@.wf(),
                    gray@.samples.len() == width * height,
                    output@.len() == y * width + x,
                    forall|k: int|
                        0 <= k < output@.len() ==> #[trigger] output@[k] == model.line_cleaned_at(
                            k % (width as int),
                            k / (width as int),
                        ),
                decreases width - x,
            {
                proof {
                    crate::raster::lemma_row_major(x as int, y as int, width as int);
                }
                let current = gray.luma_at(x, y);
                let interior = 1 <= x && x < width - 1 && 1 <= y && y < height - 1;
                let value = if interior && current < DARK_BELOW {
                    let top = gray.luma_at(x, y - 1);
                    let bottom = gray.luma_at(x, y + 1);
                    let left = gray.luma_at(x - 1, y);
                    let right = gray.luma_at(x + 1, y);
                    assert((y - 1) * width + x == y * width + x - width) by (nonlinear_arith);
                    assert((y + 1) * width + x == y * width + x + width) by (nonlinear_arith);
                    Self::clean_pixel(current, top, bottom, left, right)
                } else {
                    current
                };
                assert(value == model.line_cleaned_at(x as int, y as int));
                output.push(value);
                x = x + 1;
            }
            assert((y + 1) * width == y * width + width) by (nonlinear_arith);
            y = y + 1;
        }
        assert(output@.len() == width * height) by (nonlinear_arith)
            requires
                output@.len() == y * width,
                y == height,
        ;
        assert(output@ =~= model.lines_removed().samples);
        Ok(RasterImage::from_parts(width, height, PixelFormat::Luma8, output))
    }

    /// Judges one dark or light pixel by its four neighbours.
    fn clean_pixel(current: u8, top: u8, bottom: u8, left: u8, right: u8) -> (value: u8)
        ensures
            value == line_cleaned(current, top, bottom, left, right),
    {
        if current >= DARK_BELOW {
            return current;
        }
        // Light above and below, dark on both sides: part of a character.
        if top > LIGHT_ABOVE && bottom > LIGHT_ABOVE && left < DARK_BELOW && right < DARK_BELOW {
            return current;
        }
        // Light on both sides, dark above and below: a vertical line.
        if left > LIGHT_ABOVE && right > LIGHT_ABOVE && top < DARK_BELOW && bottom < DARK_BELOW {
            return 255;
        }
        let mut dark: u8 = 0;
        if top < DARK_BELOW {
            dark = dark + 1;
        }
        if bottom < DARK_BELOW {
            dark = dark + 1;
        }
        if left < DARK_BELOW {
            dark = dark + 1;
        }
        if right < DARK_BELOW {
            dark = dark + 1;
        }
        if dark <= 1 {
            255
        } else {
            current
        }
    }

    /// Enhance contrast using histogram equalization
    pub fn enhance_contrast(image: &RasterImage) -> (res: CaptchaResult<RasterImage>)
        ensures
            res matches Ok(out) && out@ == image@.contrast_enhanced() && out@.wf(),
    {
        let gray = image.to_luma8();
        let width = gray.width();
        let height = gray.height();
        let data = gray.samples();
        let total = data.len();
        let histogram = Self::histogram(data);
        let levels = Self::equalization_table(&histogram, total, Ghost(data@));

        let mut output: Vec<u8> = Vec::new();
        let mut i: usize = 0;
        while i < total
            invariant
                i <= total,
                total == data@.len(),
                levels@.len() == 256,
                total > 0 ==> forall|v: int|
                    0 <= v < 256 ==> #[trigger] levels@[v] == equalized_level(
                        count_at_most(data@, v),
                        data@.len(),
                    ),
                output@.len() == i,
                forall|k: int|
                    0 <= k < i ==> #[trigger] output@[k] == equalized_level(
                        count_at_most(data@, data@[k] as int),
                        data@.len(),
                    ) as u8,
            decreases total - i,
        {
            output.push(levels[data[i] as usize]);
            i = i + 1;
        }
        assert(output@ =~= image@.contrast_enhanced().samples);
        Ok(RasterImage::from_parts(width, height, PixelFormat::Luma8, output))
    }

    /// Counts how often each intensity occurs.
    fn histogram(data: &Vec<u8>) -> (histogram: Vec<u64>)
        ensures
            histogram@.len() == 256,
            forall|v: int| 0 <= v < 256 ==> #[trigger] histogram@[v] == count_equal(data@, v),
    {
        let mut histogram: Vec<u64> = Vec::new();
        let mut v: usize = 0;
        while v < 256
            invariant
                v <= 256,
                histogram@.len() == v,
                forall|u: int| 0 <= u < v ==> #[trigger] histogram@[u] == 0,
            decreases 256 - v,
        {
            histogram.push(0);
            v = v + 1;
        }
        let mut i: usize = 0;
        while i < data.len()
            invariant
                i <= data@.len(),
                histogram@.len() == 256,
                forall|v: int|
                    0 <= v < 256 ==> #[trigger] histogram@[v] == count_equal(data@.take(i as int), v),
                forall|v: int| 0 <= v < 256 ==> #[trigger] histogram@[v] <= i,
            decreases data@.len() - i,
        {
            let value = data[i] as usize;
            proof {
                assert(data@.take(i + 1).drop_last() =~= data@.take(i as int));
            }
            let count = histogram[value];
            histogram.set(value, count + 1);
            i = i + 1;
        }
        assert(data@.take(data@.len() as int) =~= data@);
        histogram
    }

    /// Turns the histogram of `total` samples into the table that maps each
    /// intensity to its equalized level.
    fn equalization_table(histogram: &Vec<u64>, total: usize, Ghost(samples): Ghost<Seq<u8>>) -> (levels:
        Vec<u8>)
        requires
            histogram@.len() == 256,
            total == samples.len(),
            forall|v: int| 0 <= v < 256 ==> #[trigger] histogram@[v] == count_equal(samples, v),
        ensures
            levels@.len() == 256,
            samples.len() > 0 ==> forall|v: int|
                0 <= v < 256 ==> #[trigger] levels@[v] == equalized_level(
                    count_at_most(samples, v),
                    samples.len(),
                ),
    {
        let mut levels: Vec<u8> = Vec::new();
        let mut sum: u64 = 0;
        let mut v: usize = 0;
        proof {
            lemma_count_at_most_step(samples, -1);
        }
        while v < 256
            invariant
                v <= 256,
                histogram@.len() == 256,
                total == samples.len(),
                forall|u: int| 0 <= u < 256 ==> #[trigger] histogram@[u] == count_equal(samples, u),
                sum == count_at_most(samples, v as int - 1),
                levels@.len() == v,
                total > 0 ==> forall|u: int|
                    0 <= u < v ==> #[trigger] levels@[u] == equalized_level(
                        count_at_most(samples, u),
                        samples.len(),
                    ),
            decreases 256 - v,
        {
            proof {
                lemma_count_at_most_step(samples, v as int);
                lemma_count_at_most_bounded(samples, v as int);
            }
            sum = sum + histogram[v];
            let level: u8 = if total == 0 {
                0
            } else {
                proof {
                    lemma_equalized_level_range(sum as nat, total as nat);
                }
                ((510 * (sum as u128) + (total as u128)) / (2 * (total as u128))) as u8
            };
            levels.push(level);
            v = v + 1;
        }
        levels
    }

    /// Segment characters from the image: one cut-out of the input, at full
    /// height, for each character region of its column profile, left to
    /// right.
    pub fn segment_characters(image: &RasterImage) -> (res: CaptchaResult<Vec<RasterImage>>)
        ensures
            res matches Ok(segments) && ({
                let bounds = segment_bounds(image@.ink_profile());
                &&& segments@.len() == bounds.len()
                &&& forall|i: int|
                    0 <= i < bounds.len() ==> (#[trigger] segments@[i])@ == image@.columns(
                        bounds[i].0,
                        bounds[i].1,
                    ) && segments@[i]@.wf()
            }),
    {
        let gray = image.to_luma8();
        let width = gray.width();
        let height = gray.height();
        let ghost model = image@;
        let ghost ink = model.ink_profile();

        // Find vertical projections to locate character boundaries
        let mut projection: Vec<bool> = Vec::new();
        let mut x: u32 = 0;
        while x < width
            invariant
                x <= width,
                width == model.width,
                height == model.height,
                gray@ == model.luma(),
                gray@.wf(),
                projection@.len() == x,
                forall|k: int| 0 <= k < x ==> #[trigger] projection@[k] == model.column_has_ink(k),
            decreases width - x,
        {
            let inked = Self::column_has_ink(&gray, x, Ghost(model));
            projection.push(inked);
            x = x + 1;
        }
        assert(projection@ =~= ink);

        // Find character boundaries
        let mut segments: Vec<RasterImage> = Vec::new();
        let mut in_char = false;
        let mut start: u32 = 0;
        let mut x: u32 = 0;
        while x < width
            invariant
                x <= width,
                width == model.width,
                height == model.height,
                image@ == model,
                projection@ == ink,
                ink.len() == width,
                in_char == (scan(ink, x as int).open is Some),
                in_char ==> scan(ink, x as int).open == Some(start as int) && start < x,
                segments@.len() == scan(ink, x as int).closed.len(),
                forall|i: int|
                    0 <= i < segments@.len() ==> (#[trigger] segments@[i])@ == model.columns(
                        scan(ink, x as int).closed[i].0,
                        scan(ink, x as int).closed[i].1,
                    ) && segments@[i]@.wf(),
            decreases width - x,
        {
            let inked = projection[x as usize];
            let ghost before = scan(ink, x as int);
            assert(scan(ink, x + 1) == match before.open {
                None => if ink[x as int] {
                    ScanState { closed: before.closed, open: Some(x as int) }
                } else {
                    before
                },
                Some(s) => if ink[x as int] {
                    before
                } else if x - s >= MIN_SEGMENT_WIDTH {
                    ScanState { closed: before.closed.push((s, x as int)), open: None }
                } else {
                    ScanState { closed: before.closed, open: None }
                },
            });
            if inked && !in_char {
                in_char = true;
                start = x;
            } else if !inked && in_char {
                in_char = false;
                if x - start > 3 {
                    // Minimum character width
                    let char_image = image.crop_imm(start, 0, x - start, height);
                    segments.push(char_image);
                }
            }
            x = x + 1;
        }

        // Handle last character
        if in_char {
            let char_image = image.crop_imm(start, 0, width - start, height);
            segments.push(char_image);
        }
        Ok(segments)
    }

    /// Whether a column of a grayscale image holds a dark pixel.
    fn column_has_ink(gray: &RasterImage, x: u32, Ghost(model): Ghost<ImageModel>) -> (inked: bool)
        requires
            gray@ == model.luma(),
            gray@.wf(),
            x < model.width,
        ensures
            inked == model.column_has_ink(x as int),
    {
        let height = gray.height();
        let mut inked = false;
        let mut y: u32 = 0;
        while y < height
            invariant
                y <= height,
                height == model.height,
                gray@ == model.luma(),
                gray@.wf(),
                x < model.width,
                inked == (exists|k: int| 0 <= k < y && is_dark(#[trigger] model.intensity(x as int, k))),
            decreases height - y,
        {
            let value = gray.luma_at(x, y);
            assert(value == model.intensity(x as int, y as int));
            if value < DARK_BELOW {
                inked = true;
            }
            y = y + 1;
        }
        inked
    }

    /// Apply full preprocessing pipeline optimized for text captchas:
    /// grayscale, blur and threshold at 128, then contrast enhancement, then
    /// line removal.
    pub fn full_pipeline(image: &RasterImage) -> (res: CaptchaResult<RasterImage>)
        ensures
            res matches Ok(out) && out@ == full_pipeline_of(image@) && out@.wf(),
    {
        let options = PreprocessOptions {
            grayscale: Some(true),
            denoise: Some(true),
            threshold: Some(128),
            resize_width: None,
            resize_height: None,
        };
        let result = Self::preprocess(image, &options)?;
        let result = Self::enhance_contrast(&result)?;
        let result = Self::remove_lines(&result)?;
        Ok(result)
    }
}

} // verus!
