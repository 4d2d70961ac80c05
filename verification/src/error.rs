//! Error types of the transport.

use vstd::prelude::*;

verus! {

/// Why an outbound HTTP exchange failed.
#[derive(Clone, Debug, PartialEq, Eq)]
pub enum HttpEgressError {
    /// The request could not be assembled.
    InvalidRequest(String),
    /// The remote could not be reached.
    ConnectionFailed(String),
    /// The exchange timed out.
    Timeout(String),
    /// The remote answered 401.
    Unauthorized(String),
    /// The remote answered 403.
    Forbidden(String),
    /// The remote answered 404.
    NotFound(String),
    /// The remote answered 429.
    RateLimited(String),
    /// The remote answered 502.
    BadGateway(String),
    /// The remote answered 503.
    ServiceUnavailable(String),
    /// Anything else (oversized responses, failed health checks, ...).
    Internal(String),
}

/// The variant of an `HttpEgressError`, without its message.
#[derive(Clone, Copy, Debug, PartialEq, Eq)]
pub enum ErrorKind {
    InvalidRequest,
    ConnectionFailed,
    Timeout,
    Unauthorized,
    Forbidden,
    NotFound,
    RateLimited,
    BadGateway,
    ServiceUnavailable,
    Internal,
}

impl HttpEgressError {
    /// The error as its variant and message.
    pub open spec fn view_parts(self) -> (ErrorKind, Seq<char>) {
        match self {
            HttpEgressError::InvalidRequest(m) => (ErrorKind::InvalidRequest, m@),
            HttpEgressError::ConnectionFailed(m) => (ErrorKind::ConnectionFailed, m@),
            HttpEgressError::Timeout(m) => (ErrorKind::Timeout, m@),
            HttpEgressError::Unauthorized(m) => (ErrorKind::Unauthorized, m@),
            HttpEgressError::Forbidden(m) => (ErrorKind::Forbidden, m@),
            HttpEgressError::NotFound(m) => (ErrorKind::NotFound, m@),
            HttpEgressError::RateLimited(m) => (ErrorKind::RateLimited, m@),
            HttpEgressError::BadGateway(m) => (ErrorKind::BadGateway, m@),
            HttpEgressError::ServiceUnavailable(m) => (ErrorKind::ServiceUnavailable, m@),
            HttpEgressError::Internal(m) => (ErrorKind::Internal, m@),
        }
    }

    /// The variant.
    pub fn kind(&self) -> (k: ErrorKind)
        ensures
            k == self.view_parts().0,
    {
        match self {
            HttpEgressError::InvalidRequest(_) => ErrorKind::InvalidRequest,
            HttpEgressError::ConnectionFailed(_) => ErrorKind::ConnectionFailed,
            HttpEgressError::Timeout(_) => ErrorKind::Timeout,
            HttpEgressError::Unauthorized(_) => ErrorKind::Unauthorized,
            HttpEgressError::Forbidden(_) => ErrorKind::Forbidden,
            HttpEgressError::NotFound(_) => ErrorKind::NotFound,
            HttpEgressError::RateLimited(_) => ErrorKind::RateLimited,
            HttpEgressError::BadGateway(_) => ErrorKind::BadGateway,
            HttpEgressError::ServiceUnavailable(_) => ErrorKind::ServiceUnavailable,
            HttpEgressError::Internal(_) => ErrorKind::Internal,
        }
    }

    /// The message.
    pub fn message(&self) -> (m: &String)
        ensures
            m@ == self.view_parts().1,
    {
        match self {
            HttpEgressError::InvalidRequest(m) => m,
            HttpEgressError::ConnectionFailed(m) => m,
            HttpEgressError::Timeout(m) => m,
            HttpEgressError::Unauthorized(m) => m,
            HttpEgressError::Forbidden(m) => m,
            HttpEgressError::NotFound(m) => m,
            HttpEgressError::RateLimited(m) => m,
            HttpEgressError::BadGateway(m) => m,
            HttpEgressError::ServiceUnavailable(m) => m,
            HttpEgressError::Internal(m) => m,
        }
    }
}

/// Result of an outbound HTTP operation.
pub type HttpEgressResult<T> = Result<T, HttpEgressError>;

/// Why a value failed validation.
#[derive(Clone, Debug, PartialEq, Eq)]
pub enum ValidationError {
    /// The value is invalid; the message says which constraint it breaks.
    Invalid(String),
}

impl ValidationError {
    /// The human-readable message.
    pub fn message(&self) -> (m: String)
        ensures
            m@ == self.message_view(),
    {
        match self {
            ValidationError::Invalid(m) => m.clone(),
        }
    }

    /// The message, by its characters.
    pub open spec fn message_view(&self) -> Seq<char> {
        match self {
            ValidationError::Invalid(m) => m@,
        }
    }
}

/// A validation result by its messages: `Ok` or the error's message.
pub open spec fn verdict_of(r: Result<(), ValidationError>) -> Result<(), Seq<char>> {
    match r {
        Ok(()) => Ok(()),
        Err(e) => Err(e.message_view()),
    }
}

/// A result carrying a message string, by its characters.
pub open spec fn message_verdict(r: Result<(), String>) -> Result<(), Seq<char>> {
    match r {
        Ok(()) => Ok(()),
        Err(m) => Err(m@),
    }
}

} // verus!
