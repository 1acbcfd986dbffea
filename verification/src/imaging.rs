//! The pixel operations that the `image` and `imageproc` crates carry out.
//!
//! Every function here hands plain sample buffers to one outside function and
//! takes a plain sample buffer back. Its contract is believed, not proved.

use vstd::prelude::*;
use crate::raster::PixelFormat;

verus! {

/// The intensity that `image` gives a pixel of the colour `(r, g, b)`: the
/// weighted sum with the coefficients 2126, 7152 and 722, divided by 10000,
/// the remainder dropped.
pub open spec fn luma_of(r: u8, g: u8, b: u8) -> u8 {
    ((2126 * (r as int) + 7152 * (g as int) + 722 * (b as int)) / 10000) as u8
}

/// What `image`'s Lanczos resampling with window 3 makes of an image that is
/// stretched to new dimensions.
pub uninterp spec fn lanczos3_resized(
    samples: Seq<u8>,
    channels: nat,
    width: nat,
    height: nat,
    new_width: nat,
    new_height: nat,
) -> Seq<u8>;

/// What `imageproc`'s Gaussian blur of standard deviation `sigma` makes of a
/// grayscale image.
pub uninterp spec fn gaussian_blurred(samples: Seq<u8>, width: nat, height: nat, sigma: nat) -> Seq<
    u8,
>;

/// What `imageproc`'s adaptive threshold with the given block radius makes
/// of a grayscale image.
pub uninterp spec fn adaptive_thresholded(
    samples: Seq<u8>,
    width: nat,
    height: nat,
    block_radius: nat,
) -> Seq<u8>;

/// What `imageproc`'s median filter with the given radii makes of a
/// grayscale image.
pub uninterp spec fn median_filtered(
    samples: Seq<u8>,
    width: nat,
    height: nat,
    x_radius: nat,
    y_radius: nat,
) -> Seq<u8>;

/// What `imageproc`'s erosion in the L-infinity norm makes of a grayscale
/// image.
pub uninterp spec fn eroded(samples: Seq<u8>, width: nat, height: nat, radius: u8) -> Seq<u8>;

/// What `imageproc`'s dilation in the L-infinity norm makes of a grayscale
/// image.
pub uninterp spec fn dilated(samples: Seq<u8>, width: nat, height: nat, radius: u8) -> Seq<u8>;

/// Whether every sample is pure black or pure white.
pub open spec fn is_binary(samples: Seq<u8>) -> bool {
    forall|i: int| 0 <= i < samples.len() ==> samples[i] == 0 || samples[i] == 255
}

/// Calls `image::DynamicImage::to_luma8` on an RGB image. The result has one
/// sample per pixel, the intensity `luma_of` of that pixel's colour.
#[verifier::external_body]
pub(crate) fn rgb_to_luma(samples: &Vec<u8>, width: u32, height: u32) -> (out: Vec<u8>)
    requires
        samples@.len() == width * height * 3,
    ensures
        out@.len() == width * height,
        forall|i: int|
            0 <= i < out@.len() ==> #[trigger] out@[i] == luma_of(
                samples@[3 * i],
                samples@[3 * i + 1],
                samples@[3 * i + 2],
            ),
{
    let rgb = image::RgbImage::from_raw(width, height, samples.clone()).unwrap();
    image::DynamicImage::ImageRgb8(rgb).to_luma8().into_raw()
}

/// Calls `image::DynamicImage::resize_exact` with the Lanczos filter of
/// window 3, on a source whose coordinates are exact as 32-bit
/// floating-point numbers and for a result with at least one pixel. The
/// result has the new dimensions and the same format; its samples are
/// those that the crate computes from the arguments.
#[verifier::external_body]
pub(crate) fn resize_lanczos3(
    samples: &Vec<u8>,
    format: PixelFormat,
    width: u32,
    height: u32,
    new_width: u32,
    new_height: u32,
) -> (out: Vec<u8>)
    requires
        samples@.len() == width * height * format.channels(),
        width <= 0x100_0000,
        height <= 0x100_0000,
        0 < new_width * new_height,
        width * new_height * 16 <= isize::MAX,
        new_width * new_height * format.channels() <= isize::MAX,
    ensures
        out@.len() == new_width * new_height * format.channels(),
        out@ == lanczos3_resized(
            samples@,
            format.channels(),
            width as nat,
            height as nat,
            new_width as nat,
            new_height as nat,
        ),
{
    let source = match format {
        PixelFormat::Rgb8 => image::DynamicImage::ImageRgb8(
            image::RgbImage::from_raw(width, height, samples.clone()).unwrap(),
        ),
        PixelFormat::Luma8 => image::DynamicImage::ImageLuma8(
            image::GrayImage::from_raw(width, height, samples.clone()).unwrap(),
        ),
    };
    source.resize_exact(new_width, new_height, image::imageops::FilterType::Lanczos3).into_bytes()
}

/// Calls `imageproc::filter::gaussian_blur_f32` on a grayscale image. The
/// result has the same dimensions; its samples are those that the crate
/// computes from the arguments.
#[verifier::external_body]
pub(crate) fn gaussian_blur(samples: &Vec<u8>, width: u32, height: u32, sigma: u8) -> (out: Vec<u8>)
    requires
        samples@.len() == width * height,
        width <= i32::MAX,
        height <= i32::MAX,
        sigma > 0,
    ensures
        out@.len() == samples@.len(),
        out@ == gaussian_blurred(samples@, width as nat, height as nat, sigma as nat),
{
    let gray = image::GrayImage::from_raw(width, height, samples.clone()).unwrap();
    imageproc::filter::gaussian_blur_f32(&gray, sigma.into()).into_raw()
}

/// Calls `imageproc::contrast::threshold` on a grayscale image. Every sample
/// above `cut` becomes 255, every other sample 0.
#[verifier::external_body]
pub(crate) fn threshold(samples: &Vec<u8>, width: u32, height: u32, cut: u8) -> (out: Vec<u8>)
    requires
        samples@.len() == width * height,
    ensures
        out@.len() == samples@.len(),
        forall|i: int|
            0 <= i < out@.len() ==> #[trigger] out@[i] == (if samples@[i] > cut {
                255u8
            } else {
                0u8
            }),
{
    let gray = image::GrayImage::from_raw(width, height, samples.clone()).unwrap();
    imageproc::contrast::threshold(&gray, cut).into_raw()
}

/// Calls `imageproc::contrast::adaptive_threshold` on a grayscale image. The
/// result has the same dimensions and holds only 0 and 255; which of the two
/// a sample becomes is what the crate computes from the arguments.
#[verifier::external_body]
pub(crate) fn adaptive_threshold(samples: &Vec<u8>, width: u32, height: u32, block_radius: u32) -> (out:
    Vec<u8>)
    requires
        samples@.len() == width * height,
        0 < width * height,
        510 * (width * height) <= u32::MAX,
        0 < block_radius <= i32::MAX,
    ensures
        out@.len() == samples@.len(),
        is_binary(out@),
        out@ == adaptive_thresholded(samples@, width as nat, height as nat, block_radius as nat),
{
    let gray = image::GrayImage::from_raw(width, height, samples.clone()).unwrap();
    imageproc::contrast::adaptive_threshold(&gray, block_radius).into_raw()
}

/// Calls `imageproc::filter::median_filter` on a grayscale image. The result
/// has the same dimensions; its samples are those that the crate computes
/// from the arguments.
#[verifier::external_body]
pub(crate) fn median_filter(
    samples: &Vec<u8>,
    width: u32,
    height: u32,
    x_radius: u32,
    y_radius: u32,
) -> (out: Vec<u8>)
    requires
        samples@.len() == width * height,
        width <= 0x4000_0000,
        height <= 0x4000_0000,
        2 * ((2 * x_radius + 1) * (2 * y_radius + 1)) <= u32::MAX,
    ensures
        out@.len() == samples@.len(),
        out@ == median_filtered(
            samples@,
            width as nat,
            height as nat,
            x_radius as nat,
            y_radius as nat,
        ),
{
    let gray = image::GrayImage::from_raw(width, height, samples.clone()).unwrap();
    imageproc::filter::median_filter(&gray, x_radius, y_radius).into_raw()
}

/// Calls `imageproc::morphology::erode` with the L-infinity norm on a
/// grayscale image. The result has the same dimensions and holds only 0 and
/// 255; which of the two a sample becomes is what the crate computes from
/// the arguments.
#[verifier::external_body]
pub(crate) fn erode(samples: &Vec<u8>, width: u32, height: u32, radius: u8) -> (out: Vec<u8>)
    requires
        samples@.len() == width * height,
        width + height <= u32::MAX,
    ensures
        out@.len() == samples@.len(),
        is_binary(out@),
        out@ == eroded(samples@, width as nat, height as nat, radius),
{
    let gray = image::GrayImage::from_raw(width, height, samples.clone()).unwrap();
    imageproc::morphology::erode(&gray, imageproc::distance_transform::Norm::LInf, radius).into_raw()
}

/// Calls `imageproc::morphology::dilate` with the L-infinity norm on a
/// grayscale image. The result has the same dimensions and holds only 0 and
/// 255; which of the two a sample becomes is what the crate computes from
/// the arguments.
#[verifier::external_body]
pub(crate) fn dilate(samples: &Vec<u8>, width: u32, height: u32, radius: u8) -> (out: Vec<u8>)
    requires
        samples@.len() == width * height,
        width + height <= u32::MAX,
    ensures
        out@.len() == samples@.len(),
        is_binary(out@),
        out@ == dilated(samples@, width as nat, height as nat, radius),
{
    let gray = image::GrayImage::from_raw(width, height, samples.clone()).unwrap();
    imageproc::morphology::dilate(&gray, imageproc::distance_transform::Norm::LInf, radius).into_raw()
}

} // verus!
