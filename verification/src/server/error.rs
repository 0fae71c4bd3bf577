//! Error answers of the HTTP service.
use vstd::prelude::*;

use crate::error::{error_message, ConverterError};

verus! {

/// An error answer: HTTP status, a stable machine-readable code and a
/// message for people.
#[derive(Debug)]
pub struct ApiError {
    pub status: u16,
    pub code: String,
    pub message: String,
}

impl ApiError {
    /// 400: the request is malformed; `code` says how.
    pub fn bad_request(code: &str, message: &str) -> (e: ApiError)
        ensures
            e.status == 400,
            e.code@ == code@,
            e.message@ == message@,
    {
        ApiError { status: 400, code: code.to_owned(), message: message.to_owned() }
    }

    /// 413: the upload or the image is too large.
    pub fn payload_too_large(message: String) -> (e: ApiError)
        ensures
            e.status == 413,
            e.code@ == "payload_too_large"@,
            e.message@ == message@,
    {
        ApiError { status: 413, code: "payload_too_large".to_owned(), message }
    }

    /// 429: no conversion slot became free in time.
    pub fn too_many_requests(message: String) -> (e: ApiError)
        ensures
            e.status == 429,
            e.code@ == "conversion_queue_full"@,
            e.message@ == message@,
    {
        ApiError { status: 429, code: "conversion_queue_full".to_owned(), message }
    }

    /// 504: the conversion did not finish in time.
    pub fn timeout(message: String) -> (e: ApiError)
        ensures
            e.status == 504,
            e.code@ == "conversion_timeout"@,
            e.message@ == message@,
    {
        ApiError { status: 504, code: "conversion_timeout".to_owned(), message }
    }

    /// 500: the service itself failed.
    pub fn internal(message: String) -> (e: ApiError)
        ensures
            e.status == 500,
            e.code@ == "internal_error"@,
            e.message@ == message@,
    {
        ApiError { status: 500, code: "internal_error".to_owned(), message }
    }

    /// 400: the uploaded bytes are not an image that can be read.
    pub fn image(message: String) -> (e: ApiError)
        ensures
            e.status == 400,
            e.code@ == "invalid_image"@,
            e.message@ == message@,
    {
        ApiError { status: 400, code: "invalid_image".to_owned(), message }
    }

    /// 422: the converter refused or failed the conversion.
    pub fn conversion(error: ConverterError) -> (e: ApiError)
        ensures
            e.status == 422,
            e.code@ == "conversion_failed"@,
            e.message@ == error_message(error),
    {
        let message = error.to_string();
        ApiError { status: 422, code: "conversion_failed".to_owned(), message }
    }
}

} // verus!
