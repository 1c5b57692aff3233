//! Classified failures of the export.

use vstd::prelude::*;

verus! {

/// `std::io::Error`. It is carried through and never looked into.
#[verifier::external_type_specification]
#[verifier::external_body]
pub struct ExIoError(std::io::Error);

/// The status code that the service sends when it limits the request rate.
pub const TOO_MANY_REQUESTS: u16 = 429;

/// A failure of the HTTP exchange itself.
#[derive(Debug)]
pub enum HttpFailure {
    /// The server answered with a status outside the 2xx range.
    Status(u16),
    /// No answer arrived; the text says why.
    Transport(String),
}

/// Why a page or a document could not be had.
#[derive(Debug)]
pub enum ApiError {
    /// The request failed in transit, or the server refused it.
    UReqError(HttpFailure),
    /// The body of the answer is not JSON.
    JsonError(json::Error),
    /// The body of the answer could not be read.
    StdError(std::io::Error),
    /// The answer is JSON of an unexpected shape; the text says how.
    OtherError(String),
}

/// The result is an `OtherError` with the given text.
pub open spec fn is_other_error<T>(r: Result<T, ApiError>, text: Seq<char>) -> bool {
    r matches Err(ApiError::OtherError(message)) && message@ == text
}

impl ApiError {
    /// The HTTP status that the error carries, if the server answered.
    pub open spec fn spec_status(&self) -> Option<u16> {
        match self {
            ApiError::UReqError(HttpFailure::Status(code)) => Some(*code),
            _ => None,
        }
    }

    /// The error is the service's demand to slow down.
    pub open spec fn spec_is_rate_limited(&self) -> bool {
        self.spec_status() == Some(TOO_MANY_REQUESTS)
    }

    /// The HTTP status that the error carries, if the server answered.
    #[verifier::when_used_as_spec(spec_status)]
    pub fn status(&self) -> (r: Option<u16>)
        ensures
            r == self.spec_status(),
    {
        match self {
            ApiError::UReqError(HttpFailure::Status(code)) => Some(*code),
            _ => None,
        }
    }

    /// Whether the error is the service's demand to slow down.
    #[verifier::when_used_as_spec(spec_is_rate_limited)]
    pub fn is_rate_limited(&self) -> (r: bool)
        ensures
            r == self.spec_is_rate_limited(),
    {
        match self.status() {
            Some(code) => code == TOO_MANY_REQUESTS,
            None => false,
        }
    }
}

impl From<HttpFailure> for ApiError {
    fn from(failure: HttpFailure) -> (r: Self) {
        ApiError::UReqError(failure)
    }
}

impl vstd::std_specs::convert::FromSpecImpl<HttpFailure> for ApiError {
    open spec fn obeys_from_spec() -> bool {
        true
    }

    open spec fn from_spec(failure: HttpFailure) -> Self {
        ApiError::UReqError(failure)
    }
}

impl From<json::Error> for ApiError {
    fn from(error: json::Error) -> (r: Self) {
        ApiError::JsonError(error)
    }
}

impl vstd::std_specs::convert::FromSpecImpl<json::Error> for ApiError {
    open spec fn obeys_from_spec() -> bool {
        true
    }

    open spec fn from_spec(error: json::Error) -> Self {
        ApiError::JsonError(error)
    }
}

impl From<std::io::Error> for ApiError {
    fn from(error: std::io::Error) -> (r: Self) {
        ApiError::StdError(error)
    }
}

impl vstd::std_specs::convert::FromSpecImpl<std::io::Error> for ApiError {
    open spec fn obeys_from_spec() -> bool {
        true
    }

    open spec fn from_spec(error: std::io::Error) -> Self {
        ApiError::StdError(error)
    }
}

impl From<String> for ApiError {
    fn from(text: String) -> (r: Self) {
        ApiError::OtherError(text)
    }
}

impl vstd::std_specs::convert::FromSpecImpl<String> for ApiError {
    open spec fn obeys_from_spec() -> bool {
        true
    }

    open spec fn from_spec(text: String) -> Self {
        ApiError::OtherError(text)
    }
}

} // verus!
