//! The errors a request can end in, and the HTTP status each is answered with.

use vstd::prelude::*;

verus! {

/// Why a catalog request failed. Messages from outside libraries are carried as text.
#[derive(Debug, Clone, PartialEq, Eq)]
pub enum AppError {
    /// Failed to call the OpenList API for the given path (network / parse).
    OpenListRequest { path: String, message: String },
    /// OpenList returned a non-success response code inside its JSON envelope.
    OpenListApi { path: String, code: i32, message: String },
    /// The requested path was not found in OpenList.
    NotFound { path: String },
    /// Failed to serialise an OPDS feed to XML.
    XmlSerialise { message: String },
    /// Generic internal error (catch-all for unexpected conditions).
    Internal { message: String },
}

/// The HTTP status an error is answered with.
pub open spec fn spec_status_code(e: AppError) -> u16 {
    match e {
        AppError::NotFound { .. } => 404,
        AppError::OpenListRequest { .. } => 502,
        AppError::OpenListApi { code, .. } => if code == 403 { 403 } else { 502 },
        AppError::XmlSerialise { .. } => 500,
        AppError::Internal { .. } => 500,
    }
}

/// `e` is the API error for `path`, with OpenList's `code` and `message`.
pub open spec fn is_api_error(e: AppError, path: Seq<char>, code: i32, message: Seq<char>) -> bool {
    e matches AppError::OpenListApi { path: p, code: c, message: m } && p@ == path && c == code
        && m@ == message
}

/// `e` says that `path` was not found.
pub open spec fn is_not_found(e: AppError, path: Seq<char>) -> bool {
    e matches AppError::NotFound { path: p } && p@ == path
}

/// `e` is an internal error with `message`.
pub open spec fn is_internal(e: AppError, message: Seq<char>) -> bool {
    e matches AppError::Internal { message: m } && m@ == message
}

impl AppError {
    /// The HTTP status code for this error: 404 for a missing path, 403 when
    /// OpenList answered 403, 502 for other upstream failures, 500 otherwise.
    pub fn status_code(&self) -> (code: u16)
        ensures
            code == spec_status_code(*self),
    {
        match self {
            AppError::NotFound { .. } => 404,
            AppError::OpenListRequest { .. } => 502,
            AppError::OpenListApi { code, .. } => if *code == 403 { 403 } else { 502 },
            AppError::XmlSerialise { .. } => 500,
            AppError::Internal { .. } => 500,
        }
    }
}

} // verus!
