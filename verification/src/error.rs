//! The closed set of failure categories a caller can branch on, and the
//! exact mapping from transport status codes onto them.

use vstd::prelude::*;
use crate::constants::{
    STATUS_ACCESS_DENIED, STATUS_INVALID_CREDENTIALS, STATUS_SERVER_ERROR,
    STATUS_TOO_MANY_REQUESTS,
};

verus! {

/// Every failure the pipeline or its transport can surface. Categories that
/// wrap outside causes carry a descriptive text instead of the cause.
#[derive(Debug)]
pub enum FreeMobileError {
    /// The credentials are blank, or the transport rejected them.
    InvalidCredentials,
    /// The transport's rate limit was exceeded.
    TooManyRequests,
    /// The transport denied access to the sending service.
    AccessDenied,
    /// The transport failed internally.
    ServerError,
    /// The request itself failed, before any status code was answered.
    HttpError(String),
    /// The message is empty or whitespace-only.
    EmptyMessage,
    /// The message is malformed; the payload says how.
    InvalidMessage(String),
    /// The configuration is unusable; the payload says why.
    ConfigError(String),
    /// Reading an input source failed.
    IoError(String),
    /// A failure no other category classifies.
    Unknown,
}

/// The display text of each failure category; categories with a payload
/// append it to their fixed prefix.
pub open spec fn spec_describe(e: &FreeMobileError) -> Seq<char> {
    match e {
        FreeMobileError::InvalidCredentials => "Invalid credentials provided"@,
        FreeMobileError::TooManyRequests => "Too many requests sent (rate limit exceeded)"@,
        FreeMobileError::AccessDenied => "Access denied - check your FreeMobile subscription"@,
        FreeMobileError::ServerError => "FreeMobile server error"@,
        FreeMobileError::HttpError(m) => "HTTP request failed: "@ + m@,
        FreeMobileError::EmptyMessage => "Message is empty"@,
        FreeMobileError::InvalidMessage(m) => "Invalid message format: "@ + m@,
        FreeMobileError::ConfigError(m) => "Configuration error: "@ + m@,
        FreeMobileError::IoError(m) => "IO error: "@ + m@,
        FreeMobileError::Unknown => "Unknown error occurred"@,
    }
}

impl FreeMobileError {
    /// The display text of this failure, so a caller can report it without
    /// inspecting transport details.
    pub fn describe(&self) -> (r: String)
        ensures
            r@ == spec_describe(self),
    {
        match self {
            FreeMobileError::InvalidCredentials => String::from_str(
                "Invalid credentials provided",
            ),
            FreeMobileError::TooManyRequests => String::from_str(
                "Too many requests sent (rate limit exceeded)",
            ),
            FreeMobileError::AccessDenied => String::from_str(
                "Access denied - check your FreeMobile subscription",
            ),
            FreeMobileError::ServerError => String::from_str("FreeMobile server error"),
            FreeMobileError::HttpError(m) => {
                let mut s = String::from_str("HTTP request failed: ");
                s.append(m.as_str());
                s
            },
            FreeMobileError::EmptyMessage => String::from_str("Message is empty"),
            FreeMobileError::InvalidMessage(m) => {
                let mut s = String::from_str("Invalid message format: ");
                s.append(m.as_str());
                s
            },
            FreeMobileError::ConfigError(m) => {
                let mut s = String::from_str("Configuration error: ");
                s.append(m.as_str());
                s
            },
            FreeMobileError::IoError(m) => {
                let mut s = String::from_str("IO error: ");
                s.append(m.as_str());
                s
            },
            FreeMobileError::Unknown => String::from_str("Unknown error occurred"),
        }
    }

    /// Classifies a transport status code into its failure category; codes
    /// outside the fixed table are unclassified.
    pub fn from_status_code(status: u16) -> (r: Self)
        ensures
            r == (if status == STATUS_INVALID_CREDENTIALS {
                FreeMobileError::InvalidCredentials
            } else if status == STATUS_TOO_MANY_REQUESTS {
                FreeMobileError::TooManyRequests
            } else if status == STATUS_ACCESS_DENIED {
                FreeMobileError::AccessDenied
            } else if status == STATUS_SERVER_ERROR {
                FreeMobileError::ServerError
            } else {
                FreeMobileError::Unknown
            }),
    {
        if status == STATUS_INVALID_CREDENTIALS {
            FreeMobileError::InvalidCredentials
        } else if status == STATUS_TOO_MANY_REQUESTS {
            FreeMobileError::TooManyRequests
        } else if status == STATUS_ACCESS_DENIED {
            FreeMobileError::AccessDenied
        } else if status == STATUS_SERVER_ERROR {
            FreeMobileError::ServerError
        } else {
            FreeMobileError::Unknown
        }
    }
}

} // verus!
