//! The daemon's API error: an HTTP status, a stable machine-readable code and
//! a human-readable message.
use vstd::prelude::*;
use crate::json::JsonValue;

verus! {

pub const STATUS_BAD_REQUEST: u16 = 400;
pub const STATUS_UNAUTHORIZED: u16 = 401;
pub const STATUS_FORBIDDEN: u16 = 403;
pub const STATUS_NOT_FOUND: u16 = 404;
pub const STATUS_CONFLICT: u16 = 409;
pub const STATUS_PAYLOAD_TOO_LARGE: u16 = 413;
pub const STATUS_UNSUPPORTED_MEDIA_TYPE: u16 = 415;
pub const STATUS_INTERNAL: u16 = 500;

#[derive(Debug)]
pub struct ApiError {
    pub status: u16,
    pub code: String,
    pub message: String,
    /// Structured details for the client, when the error carries any.
    pub details: Option<JsonValue>,
}

impl ApiError {
    pub fn new(status: u16, code: &str, message: &str) -> (e: ApiError)
        ensures
            e.status == status,
            e.code@ == code@,
            e.message@ == message@,
            e.details is None,
    {
        ApiError { status, code: code.to_owned(), message: message.to_owned(), details: None }
    }

    pub fn bad_request(code: &str, message: &str) -> (e: ApiError)
        ensures
            e.status == STATUS_BAD_REQUEST,
            e.code@ == code@,
            e.message@ == message@,
            e.details is None,
    {
        ApiError::new(STATUS_BAD_REQUEST, code, message)
    }

    pub fn conflict(code: &str, message: &str) -> (e: ApiError)
        ensures
            e.status == STATUS_CONFLICT,
            e.code@ == code@,
            e.message@ == message@,
            e.details is None,
    {
        ApiError::new(STATUS_CONFLICT, code, message)
    }

    pub fn forbidden(code: &str, message: &str) -> (e: ApiError)
        ensures
            e.status == STATUS_FORBIDDEN,
            e.code@ == code@,
            e.message@ == message@,
            e.details is None,
    {
        ApiError::new(STATUS_FORBIDDEN, code, message)
    }

    /// The error with structured details attached.
    pub fn with_details(self, details: JsonValue) -> (e: ApiError)
        ensures
            e.status == self.status,
            e.code@ == self.code@,
            e.message@ == self.message@,
            e.details == Some(details),
    {
        ApiError { details: Some(details), ..self }
    }

    pub fn internal(message: &str) -> (e: ApiError)
        ensures
            e.status == STATUS_INTERNAL,
            e.code@ == "internal_error"@,
            e.message@ == message@,
            e.details is None,
    {
        ApiError::new(STATUS_INTERNAL, "internal_error", message)
    }
}

} // verus!
