//! Encodings that outside crates compute: Base64, SHA-256, hexadecimal and
//! the decoding of image files.
//!
//! Every function here hands plain values to one outside function and takes
//! plain values back. Its contract is believed, not proved.

use vstd::prelude::*;

verus! {

/// Declares `base64::DecodeError`, the error of a failed Base64 decoding.
/// Nothing is claimed of what it holds.
#[verifier::external_type_specification]
#[verifier::external_body]
pub struct ExDecodeError(base64::DecodeError);

/// Declares `std::io::Error`, the error of a failed read. Nothing is
/// claimed of what it holds.
#[verifier::external_type_specification]
#[verifier::external_body]
pub struct ExIoError(std::io::Error);

/// Declares `image::ImageError`, the error of a failed image decoding.
/// Nothing is claimed of what it holds.
#[verifier::external_type_specification]
#[verifier::external_body]
pub struct ExImageError(image::ImageError);

/// The bytes that a text stands for in standard Base64 with padding, where
/// it stands for any.
pub uninterp spec fn base64_decoded(text: Seq<char>) -> Option<Seq<u8>>;

/// The SHA-256 digest of a sequence of bytes.
pub uninterp spec fn sha256(data: Seq<u8>) -> Seq<u8>;

/// What an encoded image file holds, where the bytes are such a file: the
/// width, the height, whether the samples are intensities rather than
/// colours, and the samples in row-major order.
pub uninterp spec fn decoded_image(data: Seq<u8>) -> Option<(nat, nat, bool, Seq<u8>)>;

/// The hexadecimal digit of a value below 16, letters in lower case.
pub open spec fn hex_digit(value: nat) -> char {
    if value < 10 {
        (48 + value) as char
    } else {
        (87 + value) as char
    }
}

/// The bytes in hexadecimal, two digits each, letters in lower case.
pub open spec fn hex_encoded(data: Seq<u8>) -> Seq<char> {
    Seq::new(
        2 * data.len(),
        |i: int|
            if i % 2 == 0 {
                hex_digit((data[i / 2] / 16) as nat)
            } else {
                hex_digit((data[i / 2] % 16) as nat)
            },
    )
}

/// Calls `base64::Engine::decode` on the standard engine. The result is a
/// function of the text alone.
#[verifier::external_body]
pub(crate) fn base64_decode(text: &str) -> (res: Result<Vec<u8>, base64::DecodeError>)
    ensures
        match res {
            Ok(bytes) => base64_decoded(text@) == Some(bytes@),
            Err(_) => base64_decoded(text@) is None,
        },
{
    base64::Engine::decode(&base64::engine::general_purpose::STANDARD, text)
}

/// Calls `to_string` on a Base64 decoding error.
#[verifier::external_body]
pub(crate) fn decode_error_text(error: &base64::DecodeError) -> (text: String) {
    error.to_string()
}

/// Calls `sha2::Sha256::digest`. The digest has 32 bytes and is a function
/// of the data alone.
#[verifier::external_body]
pub(crate) fn sha256_digest(data: &[u8]) -> (digest: Vec<u8>)
    ensures
        digest@ == sha256(data@),
        digest@.len() == 32,
{
    <sha2::Sha256 as sha2::Digest>::digest(data).to_vec()
}

/// Calls `hex::encode`, which writes each byte as two hexadecimal digits,
/// letters in lower case.
#[verifier::external_body]
pub(crate) fn hex_encode(data: &Vec<u8>) -> (text: String)
    ensures
        text@ == hex_encoded(data@),
{
    hex::encode(data)
}

/// Calls `image::io::Reader::with_guessed_format` and then
/// `image::io::Reader::decode` on the bytes, and hands out the image as
/// plain values: an 8-bit grayscale image as it is, any other converted to
/// 8-bit RGB. The outer error is that of reading the beginning of the
/// bytes, the inner one that of decoding. The result is a function of the
/// bytes alone.
#[verifier::external_body]
pub(crate) fn decode_image(data: &[u8]) -> (res: Result<
    Result<(u32, u32, bool, Vec<u8>), image::ImageError>,
    std::io::Error,
>)
    ensures
        match res {
            Ok(Ok((width, height, gray, samples))) => decoded_image(data@) == Some(
                (width as nat, height as nat, gray, samples@),
            ),
            _ => decoded_image(data@) is None,
        },
{
    let reader = image::io::Reader::new(std::io::Cursor::new(data)).with_guessed_format()?;
    Ok(
        match reader.decode() {
            Ok(image::DynamicImage::ImageLuma8(gray)) => Ok(
                (gray.width(), gray.height(), true, gray.into_raw()),
            ),
            Ok(other) => Ok((other.width(), other.height(), false, other.to_rgb8().into_raw())),
            Err(error) => Err(error),
        },
    )
}

/// Calls `to_string` on an input error.
#[verifier::external_body]
pub(crate) fn io_error_text(error: &std::io::Error) -> (text: String) {
    error.to_string()
}

/// Calls `to_string` on an image decoding error.
#[verifier::external_body]
pub(crate) fn image_error_text(error: &image::ImageError) -> (text: String) {
    error.to_string()
}

} // verus!
