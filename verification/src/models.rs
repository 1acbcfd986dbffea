//! The plain values that travel between a caller and the solvers.

use vstd::prelude::*;

verus! {

/// Request for solving a single captcha
#[derive(Debug, Clone)]
pub struct SolveRequest {
    pub image_base64: String,
    pub model: Option<String>,
    pub preprocess: Option<PreprocessOptions>,
}

/// Request for batch solving
#[derive(Debug, Clone)]
pub struct BatchSolveRequest {
    pub images: Vec<SolveRequest>,
}

/// Image preprocessing options. A field that is absent leaves the choice to
/// the solver's own default.
#[derive(Debug, Clone, Copy)]
pub struct PreprocessOptions {
    pub grayscale: Option<bool>,
    pub threshold: Option<u8>,
    pub denoise: Option<bool>,
    pub resize_width: Option<u32>,
    pub resize_height: Option<u32>,
}

impl PreprocessOptions {
    /// The options that leave every choice open.
    pub open spec fn unset() -> PreprocessOptions {
        PreprocessOptions {
            grayscale: None,
            threshold: None,
            denoise: None,
            resize_width: None,
            resize_height: None,
        }
    }
}

impl Default for PreprocessOptions {
    fn default() -> (options: PreprocessOptions)
        ensures
            options == PreprocessOptions::unset(),
    {
        PreprocessOptions {
            grayscale: None,
            threshold: None,
            denoise: None,
            resize_width: None,
            resize_height: None,
        }
    }
}

} // verus!
