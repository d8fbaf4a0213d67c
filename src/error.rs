//! The error kinds the core raises, and the HTTP status each maps to.
use vstd::prelude::*;

verus! {

#[derive(Clone, Copy, Debug, PartialEq, Eq, Structural)]
pub enum ApiError {
    InvalidParameters,
    InvalidPin,
    PinRequired,
    SessionBlocked,
    TooManyRequests,
    SessionNotFound,
    InvalidToken,
    NotAFile,
    NotFound,
    PortBound,
    Io,
    Json,
    Unknown,
}

impl ApiError {
    pub open spec fn spec_status_code(self) -> u16 {
        match self {
            ApiError::InvalidParameters | ApiError::NotAFile | ApiError::Json => 400,
            ApiError::InvalidPin | ApiError::PinRequired | ApiError::SessionBlocked | ApiError::SessionNotFound
            | ApiError::InvalidToken => 403,
            ApiError::NotFound => 404,
            ApiError::TooManyRequests => 429,
            ApiError::PortBound | ApiError::Io | ApiError::Unknown => 500,
        }
    }

    /// The HTTP status answered for this error.
    pub fn status_code(&self) -> (r: u16)
        ensures
            r == self.spec_status_code(),
    {
        match self {
            ApiError::InvalidParameters | ApiError::NotAFile | ApiError::Json => 400,
            ApiError::InvalidPin | ApiError::PinRequired | ApiError::SessionBlocked | ApiError::SessionNotFound
            | ApiError::InvalidToken => 403,
            ApiError::NotFound => 404,
            ApiError::TooManyRequests => 429,
            ApiError::PortBound | ApiError::Io | ApiError::Unknown => 500,
        }
    }

    pub open spec fn spec_message(self) -> Seq<char> {
        match self {
            ApiError::InvalidParameters => "Invalid parameters"@,
            ApiError::InvalidPin => "Invalid PIN"@,
            ApiError::PinRequired => "PIN required"@,
            ApiError::SessionBlocked => "Session blocked"@,
            ApiError::TooManyRequests => "Too many requests"@,
            ApiError::SessionNotFound => "Session not found"@,
            ApiError::InvalidToken => "Invalid token"@,
            ApiError::NotAFile => "Not a file"@,
            ApiError::NotFound => "Not found"@,
            ApiError::PortBound => "Port bound"@,
            ApiError::Io => "I/O error"@,
            ApiError::Json => "Malformed JSON"@,
            ApiError::Unknown => "Unknown error"@,
        }
    }

    /// A short human-readable description.
    pub fn message(&self) -> (r: &'static str)
        ensures
            r@ == self.spec_message(),
    {
        match self {
            ApiError::InvalidParameters => "Invalid parameters",
            ApiError::InvalidPin => "Invalid PIN",
            ApiError::PinRequired => "PIN required",
            ApiError::SessionBlocked => "Session blocked",
            ApiError::TooManyRequests => "Too many requests",
            ApiError::SessionNotFound => "Session not found",
            ApiError::InvalidToken => "Invalid token",
            ApiError::NotAFile => "Not a file",
            ApiError::NotFound => "Not found",
            ApiError::PortBound => "Port bound",
            ApiError::Io => "I/O error",
            ApiError::Json => "Malformed JSON",
            ApiError::Unknown => "Unknown error",
        }
    }
}

} // verus!
