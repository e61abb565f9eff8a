//! The library's error type.
//!
//! Variants that would carry the HTTP client's own error values belong to
//! the I/O shell around this crate; here live the plain-data errors that
//! the verified logic itself produces.

use vstd::prelude::*;

verus! {

/// Everything that can go wrong on the library's side of a request.
#[derive(Debug, Clone)]
pub enum AiError {
    /// The HTTP client could not be configured; the description says why.
    InvalidClient(String),
    /// A model identifier was not recognised.
    InvalidModel,
    /// A client was built without an API key.
    MissingApiKey,
    /// The API key cannot be carried in a request header.
    InvalidApiKey,
    /// The remote API answered with a non-success status code; carries
    /// the status and the response body.
    ApiError(u16, String),
    /// A JSON document could not be decoded; carries the description.
    Json(String),
}

/// Shorthand for results with the library's error type.
pub type AiResult<T> = Result<T, AiError>;

} // verus!
