//! The error type shared by every fallible operation of the library.

use vstd::prelude::*;
use vstd::string::*;

verus! {

/// What can go wrong while handling a recognition request.
#[derive(Debug)]
pub enum CaptchaError {
    /// Invalid image data
    InvalidImage(String),
    /// Image too large
    ImageTooLarge,
    /// Model not found
    ModelNotFound(String),
    /// Model loading failed
    ModelLoadError(String),
    /// Processing timeout
    Timeout,
    /// Database error
    DatabaseError(String),
    /// Internal processing error
    ProcessingError(String),
    /// Invalid request
    BadRequest(String),
    /// Unauthorized
    Unauthorized,
    /// Not found
    NotFound(String),
}

/// Result type alias for captcha operations
pub type CaptchaResult<T> = Result<T, CaptchaError>;

impl CaptchaError {
    /// The text that describes this error to a reader.
    pub open spec fn description(self) -> Seq<char> {
        match self {
            CaptchaError::InvalidImage(msg) => "Invalid image: "@ + msg@,
            CaptchaError::ImageTooLarge => "Image exceeds maximum allowed size"@,
            CaptchaError::ModelNotFound(name) => "Model not found: "@ + name@,
            CaptchaError::ModelLoadError(msg) => "Failed to load model: "@ + msg@,
            CaptchaError::Timeout => "Processing timeout"@,
            CaptchaError::DatabaseError(msg) => "Database error: "@ + msg@,
            CaptchaError::ProcessingError(msg) => "Processing error: "@ + msg@,
            CaptchaError::BadRequest(msg) => "Bad request: "@ + msg@,
            CaptchaError::Unauthorized => "Unauthorized"@,
            CaptchaError::NotFound(msg) => "Not found: "@ + msg@,
        }
    }

    /// The HTTP status that answers a request which ended in this error.
    pub open spec fn status(self) -> u16 {
        match self {
            CaptchaError::InvalidImage(_) => 400,
            CaptchaError::ImageTooLarge => 400,
            CaptchaError::ModelNotFound(_) => 404,
            CaptchaError::ModelLoadError(_) => 500,
            CaptchaError::Timeout => 408,
            CaptchaError::DatabaseError(_) => 500,
            CaptchaError::ProcessingError(_) => 500,
            CaptchaError::BadRequest(_) => 400,
            CaptchaError::Unauthorized => 401,
            CaptchaError::NotFound(_) => 404,
        }
    }

    /// The short code that names the kind of error in an answer.
    pub open spec fn code(self) -> Seq<char> {
        match self {
            CaptchaError::InvalidImage(_) => "invalid_image"@,
            CaptchaError::ImageTooLarge => "image_too_large"@,
            CaptchaError::ModelNotFound(_) => "model_not_found"@,
            CaptchaError::ModelLoadError(_) => "model_load_error"@,
            CaptchaError::Timeout => "timeout"@,
            CaptchaError::DatabaseError(_) => "database_error"@,
            CaptchaError::ProcessingError(_) => "processing_error"@,
            CaptchaError::BadRequest(_) => "bad_request"@,
            CaptchaError::Unauthorized => "unauthorized"@,
            CaptchaError::NotFound(_) => "not_found"@,
        }
    }

    /// The message that an answer carries: the error's own text, a fixed
    /// text where it has none, and the quoted name for a missing model.
    pub open spec fn message(self) -> Seq<char> {
        match self {
            CaptchaError::InvalidImage(msg) => msg@,
            CaptchaError::ImageTooLarge => "Image exceeds maximum allowed size"@,
            CaptchaError::ModelNotFound(name) => "Model '"@ + name@ + "' not found"@,
            CaptchaError::ModelLoadError(msg) => msg@,
            CaptchaError::Timeout => "Processing timeout"@,
            CaptchaError::DatabaseError(msg) => msg@,
            CaptchaError::ProcessingError(msg) => msg@,
            CaptchaError::BadRequest(msg) => msg@,
            CaptchaError::Unauthorized => "Unauthorized"@,
            CaptchaError::NotFound(msg) => msg@,
        }
    }

    /// The HTTP status that answers a request which ended in this error.
    pub fn http_status(&self) -> (status: u16)
        ensures
            status == self.status(),
    {
        match self {
            CaptchaError::InvalidImage(_) => 400,
            CaptchaError::ImageTooLarge => 400,
            CaptchaError::ModelNotFound(_) => 404,
            CaptchaError::ModelLoadError(_) => 500,
            CaptchaError::Timeout => 408,
            CaptchaError::DatabaseError(_) => 500,
            CaptchaError::ProcessingError(_) => 500,
            CaptchaError::BadRequest(_) => 400,
            CaptchaError::Unauthorized => 401,
            CaptchaError::NotFound(_) => 404,
        }
    }

    /// The short code that names the kind of error in an answer.
    pub fn error_code(&self) -> (code: &'static str)
        ensures
            code@ == self.code(),
    {
        match self {
            CaptchaError::InvalidImage(_) => "invalid_image",
            CaptchaError::ImageTooLarge => "image_too_large",
            CaptchaError::ModelNotFound(_) => "model_not_found",
            CaptchaError::ModelLoadError(_) => "model_load_error",
            CaptchaError::Timeout => "timeout",
            CaptchaError::DatabaseError(_) => "database_error",
            CaptchaError::ProcessingError(_) => "processing_error",
            CaptchaError::BadRequest(_) => "bad_request",
            CaptchaError::Unauthorized => "unauthorized",
            CaptchaError::NotFound(_) => "not_found",
        }
    }

    /// The message that an answer carries.
    pub fn error_message(&self) -> (message: String)
        ensures
            message@ == self.message(),
    {
        match self {
            CaptchaError::InvalidImage(msg) => msg.clone(),
            CaptchaError::ImageTooLarge => String::from_str("Image exceeds maximum allowed size"),
            CaptchaError::ModelNotFound(name) => String::from_str("Model '").concat(
                name.as_str(),
            ).concat("' not found"),
            CaptchaError::ModelLoadError(msg) => msg.clone(),
            CaptchaError::Timeout => String::from_str("Processing timeout"),
            CaptchaError::DatabaseError(msg) => msg.clone(),
            CaptchaError::ProcessingError(msg) => msg.clone(),
            CaptchaError::BadRequest(msg) => msg.clone(),
            CaptchaError::Unauthorized => String::from_str("Unauthorized"),
            CaptchaError::NotFound(msg) => msg.clone(),
        }
    }

    /// Renders the error as text.
    pub fn to_string(&self) -> (text: String)
        ensures
            text@ == self.description(),
    {
        match self {
            CaptchaError::InvalidImage(msg) => String::from_str("Invalid image: ").concat(
                msg.as_str(),
            ),
            CaptchaError::ImageTooLarge => String::from_str("Image exceeds maximum allowed size"),
            CaptchaError::ModelNotFound(name) => String::from_str("Model not found: ").concat(
                name.as_str(),
            ),
            CaptchaError::ModelLoadError(msg) => String::from_str("Failed to load model: ").concat(
                msg.as_str(),
            ),
            CaptchaError::Timeout => String::from_str("Processing timeout"),
            CaptchaError::DatabaseError(msg) => String::from_str("Database error: ").concat(
                msg.as_str(),
            ),
            CaptchaError::ProcessingError(msg) => String::from_str("Processing error: ").concat(
                msg.as_str(),
            ),
            CaptchaError::BadRequest(msg) => String::from_str("Bad request: ").concat(msg.as_str()),
            CaptchaError::Unauthorized => String::from_str("Unauthorized"),
            CaptchaError::NotFound(msg) => String::from_str("Not found: ").concat(msg.as_str()),
        }
    }
}

} // verus!
