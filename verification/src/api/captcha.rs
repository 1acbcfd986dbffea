//! How an image arrives: Base64 text, possibly a data URL, that holds an
//! encoded image file.

use vstd::prelude::*;
use vstd::string::*;
use crate::codec::{
    base64_decode, base64_decoded, decode_error_text, decode_image, decoded_image, hex_encode,
    hex_encoded, image_error_text, io_error_text, sha256, sha256_digest,
};
use crate::error::{CaptchaError, CaptchaResult};
use crate::models::{PreprocessOptions, SolveRequest};
use crate::raster::{within_limits, ImageModel, PixelFormat, RasterImage};
use crate::solvers::cnn::accepts_every_image;
use crate::solvers::{Inference, SolveResult, SolverManager};
use crate::text::push_decimal;

verus! {

/// Result for a single image in batch
pub struct BatchResult {
    pub index: usize,
    pub success: bool,
    pub result: Option<SolveResult>,
    pub error: Option<String>,
}

/// The position of the last comma of a text, or -1 if it has none.
pub open spec fn last_comma(text: Seq<char>) -> int
    decreases text.len(),
{
    if text.len() == 0 {
        -1
    } else if text.last() == ',' {
        text.len() - 1
    } else {
        last_comma(text.drop_last())
    }
}

/// The Base64 part of a text that may be a data URL: what follows its last
/// comma, or all of it if it has none.
pub open spec fn base64_payload(text: Seq<char>) -> Seq<char> {
    text.subrange(last_comma(text) + 1, text.len() as int)
}

/// The last comma lies inside the text.
pub proof fn lemma_last_comma_range(text: Seq<char>)
    ensures
        -1 <= last_comma(text) < text.len(),
    decreases text.len(),
{
    if text.len() > 0 {
        lemma_last_comma_range(text.drop_last());
    }
}

/// The pixel format of a decoded image: intensities or colours.
pub open spec fn format_of(gray: bool) -> PixelFormat {
    if gray {
        PixelFormat::Luma8
    } else {
        PixelFormat::Rgb8
    }
}

/// Decode base64 image data. A data URL is reduced to what follows its
/// last comma first. Fails with `InvalidImage` exactly when that is no
/// Base64 text.
pub fn decode_base64_image(base64_str: &str) -> (res: CaptchaResult<Vec<u8>>)
    ensures
        match res {
            Ok(bytes) => base64_decoded(base64_payload(base64_str@)) == Some(bytes@),
            Err(e) => e is InvalidImage && base64_decoded(base64_payload(base64_str@)) is None,
        },
{
    // Handle data URL format
    let mut start: usize = 0;
    let mut position: usize = 0;
    let length = base64_str.unicode_len();
    for c in it: base64_str.chars()
        invariant
            it.seq() == base64_str@,
            length == base64_str@.len(),
            position == it.index(),
            start == last_comma(base64_str@.take(it.index() as int)) + 1,
    {
        proof {
            assert(base64_str@.take(it.index() + 1).drop_last() =~= base64_str@.take(
                it.index() as int,
            ));
        }
        position = position + 1;
        if c == ',' {
            start = position;
        }
    }
    proof {
        assert(base64_str@.take(base64_str@.len() as int) =~= base64_str@);
        lemma_last_comma_range(base64_str@);
    }
    let data = base64_str.substring_char(start, length);
    match base64_decode(data) {
        Ok(bytes) => Ok(bytes),
        Err(e) => {
            let reason = String::from_str("Invalid base64: ").concat(decode_error_text(&e).as_str());
            Err(CaptchaError::InvalidImage(reason))
        },
    }
}

/// Load image from bytes. Fails with `InvalidImage` exactly when the bytes
/// are no image file or their samples do not fit the dimensions, and with
/// `ImageTooLarge` exactly when a side of the image is too long.
pub fn load_image(data: &[u8]) -> (res: CaptchaResult<RasterImage>)
    ensures
        match res {
            Ok(image) => {
                &&& decoded_image(data@) matches Some((width, height, gray, samples))
                &&& image@ == (ImageModel { width, height, format: format_of(gray), samples })
                &&& image@.wf()
            },
            Err(CaptchaError::ImageTooLarge) => {
                &&& decoded_image(data@) matches Some((width, height, gray, samples))
                &&& !within_limits(width, height)
            },
            Err(CaptchaError::InvalidImage(_)) => decoded_image(data@) matches Some(
                (width, height, gray, samples),
            ) ==> within_limits(width, height) && samples.len() != width * height * format_of(
                gray,
            ).channels(),
            Err(_) => false,
        },
{
    match decode_image(data) {
        Ok(Ok((width, height, gray, samples))) => {
            let format = if gray {
                PixelFormat::Luma8
            } else {
                PixelFormat::Rgb8
            };
            RasterImage::new(width, height, format, samples)
        },
        Ok(Err(e)) => {
            let reason = String::from_str("Cannot decode image: ").concat(
                image_error_text(&e).as_str(),
            );
            Err(CaptchaError::InvalidImage(reason))
        },
        Err(e) => {
            let reason = String::from_str("Cannot detect image format: ").concat(
                io_error_text(&e).as_str(),
            );
            Err(CaptchaError::InvalidImage(reason))
        },
    }
}

/// Calculate SHA256 hash of data, in hexadecimal.
pub fn calculate_hash(data: &[u8]) -> (hash: String)
    ensures
        hash@ == hex_encoded(sha256(data@)),
        hash@.len() == 64,
{
    let digest = sha256_digest(data);
    hex_encode(&digest)
}

/// The reason for which a batch is refused under a limit of `limit` images.
pub open spec fn batch_refusal(limit: usize) -> Seq<char> {
    "Batch size exceeds limit of "@ + crate::text::decimal_digits(limit as nat)
}

/// Limit batch size. Fails with `BadRequest` exactly when there are more
/// images than the limit allows.
pub fn check_batch_size(count: usize, limit: usize) -> (res: CaptchaResult<()>)
    ensures
        match res {
            Ok(_) => count <= limit,
            Err(e) => count > limit && (e matches CaptchaError::BadRequest(reason) && reason@
                == batch_refusal(limit)),
        },
{
    if count > limit {
        let mut reason = String::from_str("Batch size exceeds limit of ");
        push_decimal(&mut reason, limit as u64);
        return Err(CaptchaError::BadRequest(reason));
    }
    Ok(())
}

/// The entry of a batch answer for the image at `index`: the result of a
/// success, the description of a failure.
pub fn batch_result(index: usize, outcome: CaptchaResult<SolveResult>) -> (entry: BatchResult)
    ensures
        entry.index == index,
        match outcome {
            Ok(result) => entry.success && entry.result == Some(result) && entry.error is None,
            Err(e) => !entry.success && entry.result is None && (entry.error matches Some(text)
                && text@ == e.description()),
        },
{
    match outcome {
        Ok(result) => BatchResult { index, success: true, result: Some(result), error: None },
        Err(e) => BatchResult { index, success: false, result: None, error: Some(e.to_string()) },
    }
}

/// The name of the solver that a request asks for, or the default.
pub open spec fn requested_solver(manager: &SolverManager, request: &SolveRequest) -> Seq<char> {
    match request.model {
        Some(name) => name@,
        None => manager.default_solver(),
    }
}

/// The options that a request carries.
pub open spec fn requested_options(request: &SolveRequest) -> Option<&PreprocessOptions> {
    match request.preprocess {
        Some(options) => Some(&options),
        None => None,
    }
}

/// Whether `res` answers a request. Text that is no Base64 and bytes that
/// are no image give `InvalidImage`, an image with too long a side
/// `ImageTooLarge`; otherwise `res` is what the registry returns for the
/// image, the solver and the options of the request.
pub open spec fn is_answer<F: Fn(&RasterImage) -> CaptchaResult<Inference>>(
    manager: &SolverManager,
    request: &SolveRequest,
    infer: &F,
    res: CaptchaResult<SolveResult>,
) -> bool {
    match base64_decoded(base64_payload(request.image_base64@)) {
        None => res matches Err(CaptchaError::InvalidImage(_)),
        Some(bytes) => match decoded_image(bytes) {
            None => res matches Err(CaptchaError::InvalidImage(_)),
            Some((width, height, gray, samples)) => if !within_limits(width, height) {
                res matches Err(CaptchaError::ImageTooLarge)
            } else if samples.len() != width * height * format_of(gray).channels() {
                res matches Err(CaptchaError::InvalidImage(_))
            } else {
                manager.is_dispatch(
                    ImageModel { width, height, format: format_of(gray), samples },
                    requested_solver(manager, request),
                    requested_options(request),
                    infer,
                    res,
                )
            },
        },
    }
}

/// Process a single image of a request: decode the text, load the image
/// and let the registry solve it with the solver and the options that the
/// request names.
pub fn process_single_image<F: Fn(&RasterImage) -> CaptchaResult<Inference>>(
    manager: &SolverManager,
    request: &SolveRequest,
    infer: &F,
) -> (res: CaptchaResult<SolveResult>)
    requires
        accepts_every_image(infer),
    ensures
        is_answer(manager, request, infer, res),
        res matches Ok(result) ==> result.wf(),
{
    // Decode and load image
    let image_data = decode_base64_image(request.image_base64.as_str())?;
    let image = load_image(image_data.as_slice())?;
    // Solve
    let model = match &request.model {
        Some(name) => Some(name.as_str()),
        None => None,
    };
    let options = match &request.preprocess {
        Some(options) => Some(options),
        None => None,
    };
    manager.solve(&image, model, options, infer)
}

} // verus!
