//! The text-line solver: preprocessing, a recognition step and the cleaning
//! of what was recognized.

use vstd::prelude::*;
use vstd::string::*;
use crate::codec::hex_digit;
use crate::error::{CaptchaError, CaptchaResult};
use crate::models::PreprocessOptions;
use crate::raster::{ImageModel, RasterImage};
use crate::solvers::preprocessor::{can_preprocess, preprocessed, ImagePreprocessor};
use crate::solvers::{backend_failure, is_backend_failure, SolveResult, CONFIDENCE_ONE};
use crate::text::{
    ascii_uppercase, char_is_alphanumeric, char_to_ascii_uppercase, is_alphanumeric, is_ascii,
    is_ascii_alphanumeric, push_char,
};

verus! {

/// The confidence, in millionths, that the placeholder recognition reports.
pub const PLACEHOLDER_CONFIDENCE: u32 = 850_000;

/// What cleaning makes of recognized text: every character that is not
/// alphanumeric is dropped and ASCII letters become upper case.
pub open spec fn post_processed(text: Seq<char>) -> Seq<char> {
    text.filter(|c: char| is_alphanumeric(c)).map_values(|c: char| ascii_uppercase(c))
}

/// Whether every character of a text is an ASCII character.
pub open spec fn is_ascii_text(text: Seq<char>) -> bool {
    forall|i: int| 0 <= i < text.len() ==> is_ascii(#[trigger] text[i])
}

/// What cleaning makes of ASCII text: the digits and letters in their
/// order, the letters in upper case.
pub open spec fn ascii_cleaned(text: Seq<char>) -> Seq<char> {
    text.filter(|c: char| is_ascii_alphanumeric(c)).map_values(|c: char| ascii_uppercase(c))
}

/// Cleaned ASCII text holds nothing but digits and capital letters.
pub proof fn lemma_ascii_cleaned_symbols(text: Seq<char>)
    ensures
        forall|k: int|
            0 <= k < ascii_cleaned(text).len() ==> {
                let c = #[trigger] ascii_cleaned(text)[k];
                '0' <= c <= '9' || 'A' <= c <= 'Z'
            },
    decreases text.len(),
{
    reveal(Seq::filter);
    let keep = |c: char| is_ascii_alphanumeric(c);
    let upper = |c: char| ascii_uppercase(c);
    if text.len() > 0 {
        lemma_ascii_cleaned_symbols(text.drop_last());
        let earlier = ascii_cleaned(text.drop_last());
        if keep(text.last()) {
            assert(ascii_cleaned(text) =~= earlier.push(upper(text.last())));
        } else {
            assert(ascii_cleaned(text) =~= earlier);
        }
        assert forall|k: int| 0 <= k < ascii_cleaned(text).len() implies {
            let c = #[trigger] ascii_cleaned(text)[k];
            '0' <= c <= '9' || 'A' <= c <= 'Z'
        } by {
            if k < earlier.len() {
                assert(ascii_cleaned(text)[k] == earlier[k]);
            }
        }
    }
}

/// The sum of all samples.
pub open spec fn intensity_sum(samples: Seq<u8>) -> nat
    decreases samples.len(),
{
    if samples.len() == 0 {
        0
    } else {
        intensity_sum(samples.drop_last()) + samples.last() as nat
    }
}

/// A number in hexadecimal, without leading zeros.
pub open spec fn hex_digits(n: nat) -> Seq<char>
    decreases n,
{
    if n < 16 {
        seq![hex_digit(n)]
    } else {
        hex_digits(n / 16).push(hex_digit(n % 16))
    }
}

/// The symbol that the placeholder recognition makes of one hexadecimal
/// digit: a decimal digit stays, any other character becomes the capital
/// letter whose place in the alphabet is its code's remainder modulo 26.
pub open spec fn placeholder_symbol(c: char) -> char {
    if '0' <= c <= '9' {
        c
    } else {
        (((c as u32) % 256) % 26 + 65) as char
    }
}

/// The first six characters of a text, or all of it if it is shorter.
pub open spec fn first_six(text: Seq<char>) -> Seq<char> {
    if text.len() <= 6 {
        text
    } else {
        text.take(6)
    }
}

/// The text that the placeholder recognition reads from an image of the
/// given width and average intensity.
pub open spec fn placeholder_text(width: nat, average: nat) -> Seq<char> {
    first_six(hex_digits(width % 100) + hex_digits(average % 256)).map_values(
        |c: char| placeholder_symbol(c),
    )
}

/// The average intensity of an image with at least one pixel, the
/// remainder dropped.
pub open spec fn average_intensity(image: ImageModel) -> nat {
    intensity_sum(image.intensities()) / image.pixel_count()
}

/// What the placeholder recognition reads from an image.
pub open spec fn placeholder_reading(image: ImageModel) -> Seq<char> {
    placeholder_text(image.width, average_intensity(image))
}

/// The confidence in millionths that stands for a confidence in percent. A
/// value below 0 counts as 0, one above 100 as 100.
pub open spec fn normalized_confidence(percent: i32) -> u32 {
    if percent <= 0 {
        0
    } else if percent >= 100 {
        CONFIDENCE_ONE
    } else {
        (percent * 10_000) as u32
    }
}

/// Brings a confidence in percent to millionths.
pub fn normalize_confidence(percent: i32) -> (confidence: u32)
    ensures
        confidence == normalized_confidence(percent),
        confidence <= CONFIDENCE_ONE,
{
    if percent <= 0 {
        0
    } else if percent >= 100 {
        CONFIDENCE_ONE
    } else {
        (percent as u32) * 10_000
    }
}

/// Whether a recognition backend can be called on every well-formed image.
pub open spec fn recognizes_every_image<R: Fn(&RasterImage) -> CaptchaResult<(String, i32)>>(
    recognize: &R,
) -> bool {
    forall|input: &RasterImage| input@.wf() ==> #[trigger] call_requires(recognize, (input,))
}

/// The options that a solver works with: the caller's, or the defaults
/// that leave every choice open.
pub open spec fn effective_options(options: Option<&PreprocessOptions>) -> PreprocessOptions {
    match options {
        Some(given) => *given,
        None => PreprocessOptions::unset(),
    }
}

/// OCR-based captcha solver
pub struct OcrSolver {
    ready: bool,
    models_path: String,
}

impl OcrSolver {
    /// Whether the solver has been initialized.
    pub closed spec fn ready(&self) -> bool {
        self.ready
    }

    /// Where the solver looks for its resources.
    pub closed spec fn models_path(&self) -> Seq<char> {
        self.models_path@
    }

    /// Create a new OCR solver, initialized and ready.
    pub fn new(models_path: &str) -> (res: CaptchaResult<OcrSolver>)
        ensures
            res matches Ok(solver) && solver.ready() && solver.models_path() == models_path@,
    {
        let mut solver = OcrSolver::uninitialized(models_path);
        solver.initialize();
        Ok(solver)
    }

    /// A solver that is not ready yet.
    pub fn uninitialized(models_path: &str) -> (solver: OcrSolver)
        ensures
            !solver.ready(),
            solver.models_path() == models_path@,
    {
        OcrSolver { ready: false, models_path: String::from_str(models_path) }
    }

    /// Makes the solver ready. A solver that is ready stays ready.
    pub fn initialize(&mut self)
        ensures
            final(self).ready(),
            final(self).models_path() == old(self).models_path(),
    {
        self.ready = true;
    }

    /// Get solver name
    pub fn name(&self) -> (name: &'static str)
        ensures
            name@ == "ocr"@,
    {
        "ocr"
    }

    /// Check if solver is ready
    pub fn is_ready(&self) -> (ready: bool)
        ensures
            ready == self.ready(),
    {
        self.ready
    }

    /// Perform OCR on an image with the placeholder recognition. Fails with
    /// `ProcessingError` exactly when the image has no pixel.
    pub fn perform_ocr(&self, image: &RasterImage) -> (res: CaptchaResult<(String, u32)>)
        ensures
            match res {
                Ok((text, confidence)) => {
                    &&& image@.pixel_count() > 0
                    &&& text@ == placeholder_reading(image@)
                    &&& confidence == PLACEHOLDER_CONFIDENCE
                },
                Err(e) => e is ProcessingError && image@.pixel_count() == 0,
            },
    {
        // Convert image to grayscale
        let gray = image.to_luma8();
        if gray.is_empty() {
            return Err(CaptchaError::ProcessingError(String::from_str("image has no pixels")));
        }
        let text = self.mock_ocr(&gray);
        Ok((text, PLACEHOLDER_CONFIDENCE))
    }

    /// Placeholder recognition: a short text that depends on the width and
    /// the average intensity of the image alone.
    fn mock_ocr(&self, image: &RasterImage) -> (text: String)
        requires
            image@.format == crate::raster::PixelFormat::Luma8,
            image@.pixel_count() > 0,
        ensures
            text@ == placeholder_text(
                image@.width,
                intensity_sum(image@.samples) / image@.pixel_count(),
            ),
    {
        let width = image.width();
        let data = image.samples();
        let count = data.len();
        assert(count == image@.pixel_count()) by {
            assert(image@.format.channels() == 1);
            assert(image@.width * image@.height * 1 == image@.width * image@.height)
                by (nonlinear_arith);
        }
        let mut sum: u128 = 0;
        let mut i: usize = 0;
        while i < count
            invariant
                i <= count,
                count == data@.len(),
                sum == intensity_sum(data@.take(i as int)),
                sum <= 255 * i,
            decreases count - i,
        {
            proof {
                assert(data@.take(i + 1).drop_last() =~= data@.take(i as int));
            }
            sum = sum + data[i] as u128;
            i = i + 1;
        }
        assert(data@.take(count as int) =~= data@);
        let average = sum / (count as u128);
        proof {
            assert(average <= 255) by (nonlinear_arith)
                requires
                    sum <= 255 * count,
                    count > 0,
                    average == sum / (count as u128),
            ;
        }
        let mut hash: Vec<char> = Vec::new();
        Self::push_hex(&mut hash, (width % 100) as u8);
        Self::push_hex(&mut hash, (average % 256) as u8);
        let mut text = String::new();
        let ghost symbol = |c: char| placeholder_symbol(c);
        let mut k: usize = 0;
        while k < hash.len() && k < 6
            invariant
                k <= hash@.len(),
                k <= 6,
                symbol == (|c: char| placeholder_symbol(c)),
                text@ == hash@.take(k as int).map_values(symbol),
            decreases hash@.len() - k,
        {
            let c = hash[k];
            let mapped = if '0' <= c && c <= '9' {
                c
            } else {
                (((c as u32) % 256) % 26 + 65) as u8 as char
            };
            proof {
                assert(hash@.take(k + 1) =~= hash@.take(k as int).push(c));
                assert(hash@.take(k + 1).map_values(symbol) =~= hash@.take(k as int).map_values(
                    symbol,
                ).push(symbol(c)));
            }
            push_char(&mut text, mapped);
            k = k + 1;
        }
        proof {
            if hash@.len() <= 6 {
                assert(hash@.take(k as int) =~= hash@);
            }
        }
        text
    }

    /// Appends the hexadecimal digits of a number to a text.
    fn push_hex(text: &mut Vec<char>, n: u8)
        ensures
            final(text)@ == old(text)@ + hex_digits(n as nat),
    {
        if n >= 16 {
            text.push(Self::hex_char(n / 16));
        }
        text.push(Self::hex_char(n % 16));
        proof {
            if n >= 16 {
                assert(hex_digits(n as nat) =~= seq![hex_digit((n / 16) as nat)].push(
                    hex_digit((n % 16) as nat),
                )) by {
                    assert(hex_digits((n as nat) / 16) =~= seq![hex_digit((n / 16) as nat)]);
                }
            }
            assert(final(text)@ =~= old(text)@ + hex_digits(n as nat));
        }
    }

    /// The hexadecimal digit of a value below 16.
    fn hex_char(value: u8) -> (c: char)
        requires
            value < 16,
        ensures
            c == hex_digit(value as nat),
    {
        if value < 10 {
            (48 + value) as char
        } else {
            (87 + value) as char
        }
    }

    /// Whether `res` is what `solve` returns for the image and the options.
    /// A solver that is not ready fails with `ModelLoadError`. A ready one
    /// fails with `ImageTooLarge` when the options ask for a size that is
    /// not supported and with `ProcessingError` when the preprocessed image
    /// has no pixel; otherwise it returns the cleaned placeholder reading
    /// of the preprocessed image under its own name.
    pub open spec fn is_solution(
        &self,
        image: ImageModel,
        options: Option<&PreprocessOptions>,
        res: CaptchaResult<SolveResult>,
    ) -> bool {
        let effective = effective_options(options);
        if !self.ready() {
            res matches Err(CaptchaError::ModelLoadError(reason)) && reason@
                == "OCR solver not ready"@
        } else if !can_preprocess(image, effective) {
            res matches Err(CaptchaError::ImageTooLarge)
        } else if preprocessed(image, effective).pixel_count() == 0 {
            res matches Err(CaptchaError::ProcessingError(_))
        } else {
            &&& res matches Ok(result)
            &&& result.text@ == post_processed(placeholder_reading(preprocessed(image, effective)))
            &&& result.confidence == PLACEHOLDER_CONFIDENCE
            &&& result.solver_name@ == "ocr"@
            &&& result.wf()
        }
    }

    /// Solve a captcha image: preprocess it with the caller's options, or
    /// with the defaults, recognize the text, and clean it.
    pub fn solve(&self, image: &RasterImage, options: Option<&PreprocessOptions>) -> (res:
        CaptchaResult<SolveResult>)
        ensures
            self.is_solution(image@, options, res),
    {
        if !self.is_ready() {
            return Err(CaptchaError::ModelLoadError(String::from_str("OCR solver not ready")));
        }
        // Preprocess image
        let processed = match options {
            Some(opts) => ImagePreprocessor::preprocess(image, opts)?,
            None => ImagePreprocessor::preprocess(image, &PreprocessOptions::default())?,
        };
        // Perform OCR
        let (text, confidence) = self.perform_ocr(&processed)?;
        // Post-process result
        let cleaned_text = self.post_process(text.as_str());
        Ok(SolveResult {
            text: cleaned_text,
            confidence,
            solver_name: String::from_str(self.name()),
        })
    }

    /// Whether `result` is what the solver makes of a backend's reading:
    /// the text cleaned, the confidence in percent brought to millionths,
    /// the solver's own name.
    pub open spec fn is_reading_of(&self, reading: (String, i32), result: SolveResult) -> bool {
        &&& result.text@ == post_processed(reading.0@)
        &&& result.confidence == normalized_confidence(reading.1)
        &&& result.solver_name@ == "ocr"@
    }

    /// Whether `res` is what `solve_with` returns for the image and the
    /// options with the given backend. A solver that is not ready fails
    /// with `ModelLoadError`. A ready one fails with `ImageTooLarge` when
    /// the options ask for a size that is not supported; otherwise the
    /// backend is given the preprocessed image in grayscale, and `res` is
    /// its failure, passed on as a backend failure, or what the solver
    /// makes of its reading.
    pub open spec fn is_solution_with<F: Fn(&RasterImage) -> CaptchaResult<(String, i32)>>(
        &self,
        image: ImageModel,
        options: Option<&PreprocessOptions>,
        recognize: &F,
        res: CaptchaResult<SolveResult>,
    ) -> bool {
        let effective = effective_options(options);
        if !self.ready() {
            res matches Err(CaptchaError::ModelLoadError(reason)) && reason@
                == "OCR solver not ready"@
        } else if !can_preprocess(image, effective) {
            res matches Err(CaptchaError::ImageTooLarge)
        } else {
            exists|input: RasterImage, outcome: CaptchaResult<(String, i32)>|
                input@ == preprocessed(image, effective).luma() && #[trigger] call_ensures(
                    recognize,
                    (&input,),
                    outcome,
                ) && match outcome {
                    Err(failure) => res matches Err(reported) && is_backend_failure(
                        failure,
                        reported,
                    ),
                    Ok(reading) => res matches Ok(result) && self.is_reading_of(reading, result)
                        && result.wf(),
                }
        }
    }

    /// Solve a captcha image with a recognition backend: preprocess the
    /// image, hand it to the backend in grayscale, and clean what it read.
    pub fn solve_with<F: Fn(&RasterImage) -> CaptchaResult<(String, i32)>>(
        &self,
        image: &RasterImage,
        options: Option<&PreprocessOptions>,
        recognize: &F,
    ) -> (res: CaptchaResult<SolveResult>)
        requires
            recognizes_every_image(recognize),
        ensures
            self.is_solution_with(image@, options, recognize, res),
    {
        if !self.is_ready() {
            return Err(CaptchaError::ModelLoadError(String::from_str("OCR solver not ready")));
        }
        let processed = match options {
            Some(opts) => ImagePreprocessor::preprocess(image, opts)?,
            None => ImagePreprocessor::preprocess(image, &PreprocessOptions::default())?,
        };
        let gray = processed.to_luma8();
        let outcome = recognize(&gray);
        let ghost witnessed = outcome;
        let res = match outcome {
            Ok(reading) => Ok(self.conclude(reading)),
            Err(failure) => Err(backend_failure(failure)),
        };
        assert(call_ensures(recognize, (&gray,), witnessed));
        res
    }

    /// Turns a backend's reading, the raw text and the confidence in
    /// percent, into the solver's result.
    pub fn conclude(&self, reading: (String, i32)) -> (result: SolveResult)
        ensures
            self.is_reading_of(reading, result),
            result.wf(),
    {
        let (raw_text, raw_confidence) = reading;
        SolveResult {
            text: self.post_process(raw_text.as_str()),
            confidence: normalize_confidence(raw_confidence),
            solver_name: String::from_str(self.name()),
        }
    }

    /// Post-process OCR result: every character that is not alphanumeric is
    /// dropped and ASCII letters become upper case. Of ASCII text, exactly
    /// the digits and letters stay.
    pub fn post_process(&self, text: &str) -> (cleaned: String)
        ensures
            cleaned@ == post_processed(text@),
            is_ascii_text(text@) ==> cleaned@ == ascii_cleaned(text@),
            cleaned@.len() <= text@.len(),
    {
        let mut cleaned = String::new();
        let ghost keep = |c: char| is_alphanumeric(c);
        let ghost keep_ascii = |c: char| is_ascii_alphanumeric(c);
        let ghost upper = |c: char| ascii_uppercase(c);
        proof {
            reveal(Seq::filter);
            assert(text@.take(0).filter(keep).map_values(upper) =~= Seq::<char>::empty());
            assert(text@.take(0).filter(keep_ascii).map_values(upper) =~= Seq::<char>::empty());
        }
        for c in it: text.chars()
            invariant
                it.seq() == text@,
                keep == (|c: char| is_alphanumeric(c)),
                keep_ascii == (|c: char| is_ascii_alphanumeric(c)),
                upper == (|c: char| ascii_uppercase(c)),
                cleaned@ == text@.take(it.index() as int).filter(keep).map_values(upper),
                is_ascii_text(text@.take(it.index() as int)) ==> cleaned@ == text@.take(
                    it.index() as int,
                ).filter(keep_ascii).map_values(upper),
                cleaned@.len() <= it.index(),
        {
            let kept = char_is_alphanumeric(c);
            proof {
                reveal(Seq::filter);
                let before = text@.take(it.index() as int);
                let after = text@.take(it.index() + 1);
                assert(after.drop_last() =~= before);
                assert(after.last() == c);
                if keep(c) {
                    assert(after.filter(keep).map_values(upper) =~= before.filter(keep).map_values(
                        upper,
                    ).push(upper(c)));
                }
                if is_ascii_text(after) {
                    assert(is_ascii(after[it.index() as int]));
                    assert forall|i: int| 0 <= i < before.len() implies is_ascii(
                        #[trigger] before[i],
                    ) by {
                        assert(before[i] == after[i]);
                    }
                    if keep_ascii(c) {
                        assert(after.filter(keep_ascii).map_values(upper) =~= before.filter(
                            keep_ascii,
                        ).map_values(upper).push(upper(c)));
                    }
                }
            }
            if kept {
                push_char(&mut cleaned, char_to_ascii_uppercase(c));
            }
        }
        assert(text@.take(text@.len() as int) =~= text@);
        cleaned
    }
}

} // verus!
