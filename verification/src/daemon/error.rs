//! Errors as the daemon reports them, to HTTP callers and over the bridge.
use vstd::prelude::*;

verus! {

/// What went wrong, as a code that callers can act on.
#[derive(Debug, Clone, Copy, PartialEq, Eq, Structural)]
pub enum ErrorCode {
    Unauthorized,
    InvalidRequest,
    BrowserUnavailable,
    QueueFull,
    Timeout,
    NavigationFailed,
    ExtractionFailed,
    Cancelled,
    ProtocolError,
    InstanceConflict,
    InternalError,
}

/// An error with a message for people and a hint whether a retry can help.
#[derive(Debug)]
pub struct ErrorDetail {
    pub code: ErrorCode,
    pub message: String,
    pub retryable: bool,
}

impl ErrorDetail {
    /// Whether this error has exactly these contents.
    pub open spec fn says(self, code: ErrorCode, message: Seq<char>, retryable: bool) -> bool {
        &&& self.code == code
        &&& self.message@ == message
        &&& self.retryable == retryable
    }

    pub fn new(code: ErrorCode, message: String, retryable: bool) -> (result: Self)
        ensures
            result == (ErrorDetail { code, message, retryable }),
    {
        ErrorDetail { code, message, retryable }
    }

    /// An error about a request that will stay wrong however often it is sent.
    pub fn invalid_request(message: String) -> (result: Self)
        ensures
            result == (ErrorDetail { code: ErrorCode::InvalidRequest, message, retryable: false }),
    {
        Self::new(ErrorCode::InvalidRequest, message, false)
    }

    /// An error about a browser that may come back.
    pub fn browser_unavailable(message: String) -> (result: Self)
        ensures
            result == (ErrorDetail {
                code: ErrorCode::BrowserUnavailable,
                message,
                retryable: true,
            }),
    {
        Self::new(ErrorCode::BrowserUnavailable, message, true)
    }

    /// An error about a search that took too long.
    pub fn timeout(message: String) -> (result: Self)
        ensures
            result == (ErrorDetail { code: ErrorCode::Timeout, message, retryable: true }),
    {
        Self::new(ErrorCode::Timeout, message, true)
    }
}

impl Clone for ErrorDetail {
    fn clone(&self) -> (result: Self)
        ensures
            result == *self,
    {
        ErrorDetail { code: self.code, message: self.message.clone(), retryable: self.retryable }
    }
}

/// The body of an error response.
#[derive(Debug)]
pub struct ErrorResponse {
    pub error: ErrorDetail,
}

/// An error together with the HTTP status that answers it.
#[derive(Debug)]
pub struct ApiError {
    pub status: u16,
    pub detail: ErrorDetail,
}

/// The HTTP status that stands for an error code.
pub open spec fn status_of(code: ErrorCode) -> u16 {
    match code {
        ErrorCode::Unauthorized => 401,
        ErrorCode::InvalidRequest | ErrorCode::ProtocolError => 400,
        ErrorCode::BrowserUnavailable | ErrorCode::InstanceConflict => 503,
        ErrorCode::QueueFull => 429,
        ErrorCode::Timeout => 504,
        ErrorCode::Cancelled => 409,
        ErrorCode::NavigationFailed | ErrorCode::ExtractionFailed => 422,
        ErrorCode::InternalError => 500,
    }
}

impl ApiError {
    pub fn new(status: u16, detail: ErrorDetail) -> (result: Self)
        ensures
            result == (ApiError { status, detail }),
    {
        ApiError { status, detail }
    }

    /// The error with the status that its code asks for.
    pub fn from_detail(detail: ErrorDetail) -> (result: Self)
        ensures
            result == (ApiError { status: status_of(detail.code), detail }),
    {
        let status: u16 = match detail.code {
            ErrorCode::Unauthorized => 401,
            ErrorCode::InvalidRequest | ErrorCode::ProtocolError => 400,
            ErrorCode::BrowserUnavailable | ErrorCode::InstanceConflict => 503,
            ErrorCode::QueueFull => 429,
            ErrorCode::Timeout => 504,
            ErrorCode::Cancelled => 409,
            ErrorCode::NavigationFailed | ErrorCode::ExtractionFailed => 422,
            ErrorCode::InternalError => 500,
        };
        ApiError { status, detail }
    }
}

} // verus!
