//! What a request that registers or changes a model must look like.

use vstd::prelude::*;
use vstd::string::*;
use crate::error::{CaptchaError, CaptchaResult};
use crate::text::str_eq;

verus! {

/// A request to register a model.
#[derive(Debug, Clone)]
pub struct UploadModelRequest {
    pub name: String,
    pub model_type: String,
    pub version: Option<String>,
    pub description: Option<String>,
    /// Base64 encoded model file
    pub model_data: Option<String>,
}

/// A request to change a model.
#[derive(Debug, Clone)]
pub struct UpdateModelRequest {
    pub is_active: Option<bool>,
    pub is_default: Option<bool>,
    pub description: Option<String>,
}

/// Whether a text names a kind of model that the service knows.
pub open spec fn is_model_type(model_type: Seq<char>) -> bool {
    ||| model_type == "ocr"@
    ||| model_type == "cnn"@
    ||| model_type == "rnn"@
    ||| model_type == "transformer"@
    ||| model_type == "ensemble"@
}

/// Whether a text names a kind of model that the service knows.
pub fn check_model_type(model_type: &str) -> (known: bool)
    ensures
        known == is_model_type(model_type@),
{
    str_eq(model_type, "ocr") || str_eq(model_type, "cnn") || str_eq(model_type, "rnn") || str_eq(
        model_type,
        "transformer",
    ) || str_eq(model_type, "ensemble")
}

/// Checks a name and a kind of model. Fails with `BadRequest` and
/// `missing_name` when the name is empty, else with `BadRequest` and
/// "Invalid model type" when the kind is not known.
pub fn validate_named_model(name: &str, model_type: &str, missing_name: &str) -> (res: CaptchaResult<
    (),
>)
    ensures
        match res {
            Ok(_) => name@.len() > 0 && is_model_type(model_type@),
            Err(e) => e matches CaptchaError::BadRequest(reason) && (if name@.len() == 0 {
                reason@ == missing_name@
            } else {
                !is_model_type(model_type@) && reason@ == "Invalid model type"@
            }),
        },
{
    if name.is_empty() {
        return Err(CaptchaError::BadRequest(String::from_str(missing_name)));
    }
    if !check_model_type(model_type) {
        return Err(CaptchaError::BadRequest(String::from_str("Invalid model type")));
    }
    Ok(())
}

impl UploadModelRequest {
    /// Validate request: the model needs a name and a known kind.
    pub fn validate(&self) -> (res: CaptchaResult<()>)
        ensures
            match res {
                Ok(_) => self.name@.len() > 0 && is_model_type(self.model_type@),
                Err(e) => e matches CaptchaError::BadRequest(reason) && (if self.name@.len() == 0 {
                    reason@ == "Model name is required"@
                } else {
                    !is_model_type(self.model_type@) && reason@ == "Invalid model type"@
                }),
            },
    {
        validate_named_model(self.name.as_str(), self.model_type.as_str(), "Model name is required")
    }

    /// The version of the model: the request's, or "1.0.0".
    pub fn version_or_default(&self) -> (version: String)
        ensures
            version@ == (match self.version {
                Some(given) => given@,
                None => "1.0.0"@,
            }),
    {
        match &self.version {
            Some(given) => given.clone(),
            None => String::from_str("1.0.0"),
        }
    }
}

/// Where the file of a model of that name lies under the models path.
pub fn model_file_path(models_path: &str, name: &str) -> (path: String)
    ensures
        path@ == models_path@ + "/"@ + name@ + ".onnx"@,
{
    String::from_str(models_path).concat("/").concat(name).concat(".onnx")
}

/// Whether a model can become the default. Fails with `BadRequest` exactly
/// when the model is not active.
pub fn check_default_candidate(is_active: bool) -> (res: CaptchaResult<()>)
    ensures
        match res {
            Ok(_) => is_active,
            Err(e) => !is_active && (e matches CaptchaError::BadRequest(reason) && reason@
                == "Cannot set inactive model as default"@),
        },
{
    if !is_active {
        return Err(
            CaptchaError::BadRequest(String::from_str("Cannot set inactive model as default")),
        );
    }
    Ok(())
}

} // verus!
