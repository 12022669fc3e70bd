//! The service's error kinds, their HTTP status and their messages.

use vstd::prelude::*;
use vstd::string::*;

verus! {

/// What went wrong, with a human-readable detail.
pub enum AppError {
    FileTooLarge(String),
    UnsupportedFormat(String),
    InvalidMultipart(String),
    TaskNotFound(String),
    Io(String),
    Serde(String),
    Compression(String),
    ModelLoad(String),
    BadRequest(String),
    Internal(String),
}

impl AppError {
    /// The detail text carried by the error.
    pub open spec fn detail(&self) -> Seq<char> {
        match self {
            AppError::FileTooLarge(s) => s@,
            AppError::UnsupportedFormat(s) => s@,
            AppError::InvalidMultipart(s) => s@,
            AppError::TaskNotFound(s) => s@,
            AppError::Io(s) => s@,
            AppError::Serde(s) => s@,
            AppError::Compression(s) => s@,
            AppError::ModelLoad(s) => s@,
            AppError::BadRequest(s) => s@,
            AppError::Internal(s) => s@,
        }
    }

    /// The error is the client's doing (a 4xx answer).
    pub open spec fn is_client_error(&self) -> bool {
        self is FileTooLarge || self is UnsupportedFormat || self is InvalidMultipart
            || self is TaskNotFound || self is BadRequest
    }

    /// The HTTP status answered for the error.
    pub open spec fn spec_status_code(&self) -> u16 {
        match self {
            AppError::FileTooLarge(_) => 413,
            AppError::UnsupportedFormat(_) => 400,
            AppError::InvalidMultipart(_) => 400,
            AppError::TaskNotFound(_) => 404,
            AppError::BadRequest(_) => 400,
            _ => 500,
        }
    }

    /// The HTTP status answered for the error.
    pub fn status_code(&self) -> (code: u16)
        ensures
            code == self.spec_status_code(),
    {
        match self {
            AppError::FileTooLarge(_) => 413,
            AppError::UnsupportedFormat(_) => 400,
            AppError::InvalidMultipart(_) => 400,
            AppError::TaskNotFound(_) => 404,
            AppError::BadRequest(_) => 400,
            _ => 500,
        }
    }

    /// The machine-readable kind reported in the error body.
    pub open spec fn spec_error_type(&self) -> Seq<char> {
        match self {
            AppError::FileTooLarge(_) => "file_too_large"@,
            AppError::UnsupportedFormat(_) => "unsupported_format"@,
            AppError::InvalidMultipart(_) => "invalid_multipart"@,
            AppError::TaskNotFound(_) => "task_not_found"@,
            AppError::BadRequest(_) => "bad_request"@,
            _ => "internal_error"@,
        }
    }

    /// The machine-readable kind reported in the error body.
    pub fn error_type(&self) -> (kind: String)
        ensures
            kind@ == self.spec_error_type(),
    {
        match self {
            AppError::FileTooLarge(_) => String::from_str("file_too_large"),
            AppError::UnsupportedFormat(_) => String::from_str("unsupported_format"),
            AppError::InvalidMultipart(_) => String::from_str("invalid_multipart"),
            AppError::TaskNotFound(_) => String::from_str("task_not_found"),
            AppError::BadRequest(_) => String::from_str("bad_request"),
            _ => String::from_str("internal_error"),
        }
    }

    /// The text before the detail in the error's message.
    pub open spec fn spec_prefix(&self) -> Seq<char> {
        match self {
            AppError::FileTooLarge(_) => "File too large: "@,
            AppError::UnsupportedFormat(_) => "Unsupported file format: "@,
            AppError::InvalidMultipart(_) => "Invalid multipart request: "@,
            AppError::TaskNotFound(_) => "Task not found: "@,
            AppError::Io(_) => "IO error: "@,
            AppError::Serde(_) => "Serialization error: "@,
            AppError::Compression(_) => "Compression error: "@,
            AppError::ModelLoad(_) => "Model loading error: "@,
            AppError::BadRequest(_) => "Bad request: "@,
            AppError::Internal(_) => "Internal server error: "@,
        }
    }

    /// The error's message: its kind in words, a colon, then the detail.
    pub fn message(&self) -> (msg: String)
        ensures
            msg@ == self.spec_prefix() + self.detail(),
    {
        let (prefix, detail) = match self {
            AppError::FileTooLarge(s) => ("File too large: ", s),
            AppError::UnsupportedFormat(s) => ("Unsupported file format: ", s),
            AppError::InvalidMultipart(s) => ("Invalid multipart request: ", s),
            AppError::TaskNotFound(s) => ("Task not found: ", s),
            AppError::Io(s) => ("IO error: ", s),
            AppError::Serde(s) => ("Serialization error: ", s),
            AppError::Compression(s) => ("Compression error: ", s),
            AppError::ModelLoad(s) => ("Model loading error: ", s),
            AppError::BadRequest(s) => ("Bad request: ", s),
            AppError::Internal(s) => ("Internal server error: ", s),
        };
        let mut msg = String::from_str(prefix);
        msg.append(detail.as_str());
        msg
    }
}

/// The error answered for an input the service cannot work on.
pub proof fn lemma_client_errors_are_4xx(e: AppError)
    ensures
        e.is_client_error() <==> 400 <= e.spec_status_code() < 500,
        !e.is_client_error() ==> e.spec_status_code() == 500,
{
}

} // verus!
