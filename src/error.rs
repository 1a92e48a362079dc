//! The library's errors.
use vstd::prelude::*;

verus! {

/// What can go wrong while building a client or refreshing its flags.
#[derive(Debug, Clone)]
pub enum FlagError {
    /// The remote fetch failed in transport.
    HttpError(String),
    /// The cache backend failed.
    CacheError(String),
    /// Identity for the remote fetch is missing or invalid.
    AuthError(String),
    /// The remote service answered with an unexpected status.
    ApiError(String),
    /// The client's configuration is invalid.
    BuilderError(String),
}

impl FlagError {
    /// The human-readable form of the error.
    pub open spec fn message_spec(&self) -> Seq<char> {
        match self {
            FlagError::HttpError(m) => "HTTP error: "@ + m@,
            FlagError::CacheError(m) => "Cache error: "@ + m@,
            FlagError::AuthError(m) => "Missing authentication: "@ + m@,
            FlagError::ApiError(m) => "API error: "@ + m@,
            FlagError::BuilderError(m) => "Builder error: "@ + m@,
        }
    }

    /// The human-readable form of the error.
    pub fn message(&self) -> (r: String)
        ensures
            r@ == self.message_spec(),
    {
        match self {
            FlagError::HttpError(m) => String::from_str("HTTP error: ").concat(m.as_str()),
            FlagError::CacheError(m) => String::from_str("Cache error: ").concat(m.as_str()),
            FlagError::AuthError(m) => String::from_str("Missing authentication: ").concat(m.as_str()),
            FlagError::ApiError(m) => String::from_str("API error: ").concat(m.as_str()),
            FlagError::BuilderError(m) => String::from_str("Builder error: ").concat(m.as_str()),
        }
    }
}

} // verus!
