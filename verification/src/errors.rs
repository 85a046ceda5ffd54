//! Error taxonomy of the library.
//!
//! Collection fetching and credential validation treat every error as fatal
//! to their call; the download scheduler records per-item errors in the batch
//! summary instead of aborting the batch.

use vstd::prelude::*;

verus! {

#[derive(Debug, Clone, PartialEq, Eq)]
pub enum BandcampError {
    /// Bad or missing credential at login.
    AuthError(String),
    /// The credential failed validation.
    InvalidCredentials,
    /// An operation was attempted before validation.
    NotLoggedIn,
    /// The server answered 401 mid-operation.
    SessionExpired,
    /// The server answered 503 mid-operation.
    ServiceUnavailable,
    /// Transport-level failure, described by the driver.
    NetworkError(String),
    /// Non-success asset status, failed extraction trigger, or poll exhaustion.
    DownloadError(String),
    /// Local filesystem failure, described by the driver.
    IoError(String),
    /// A body could not be decoded into the expected shape.
    ParseError(String),
}

/// Mathematical image of an error: the variant with its text as a sequence.
pub enum ErrorModel {
    Auth(Seq<char>),
    InvalidCredentials,
    NotLoggedIn,
    SessionExpired,
    ServiceUnavailable,
    Network(Seq<char>),
    Download(Seq<char>),
    Io(Seq<char>),
    Parse(Seq<char>),
}

impl View for BandcampError {
    type V = ErrorModel;

    open spec fn view(&self) -> ErrorModel {
        match self {
            BandcampError::AuthError(s) => ErrorModel::Auth(s@),
            BandcampError::InvalidCredentials => ErrorModel::InvalidCredentials,
            BandcampError::NotLoggedIn => ErrorModel::NotLoggedIn,
            BandcampError::SessionExpired => ErrorModel::SessionExpired,
            BandcampError::ServiceUnavailable => ErrorModel::ServiceUnavailable,
            BandcampError::NetworkError(s) => ErrorModel::Network(s@),
            BandcampError::DownloadError(s) => ErrorModel::Download(s@),
            BandcampError::IoError(s) => ErrorModel::Io(s@),
            BandcampError::ParseError(s) => ErrorModel::Parse(s@),
        }
    }
}

pub open spec fn error_message_spec(e: BandcampError) -> Seq<char> {
    match e {
        BandcampError::AuthError(s) => "Authentication failed: "@ + s@,
        BandcampError::InvalidCredentials => "Invalid credentials"@,
        BandcampError::NotLoggedIn => "Not logged in"@,
        BandcampError::SessionExpired => "Session expired"@,
        BandcampError::ServiceUnavailable => "Service unavailable"@,
        BandcampError::NetworkError(s) => "Network error: "@ + s@,
        BandcampError::DownloadError(s) => "Download failed: "@ + s@,
        BandcampError::IoError(s) => "IO error: "@ + s@,
        BandcampError::ParseError(s) => "Parse error: "@ + s@,
    }
}

impl BandcampError {
    /// A second value with the same variant and text.
    pub fn duplicate(&self) -> (r: BandcampError)
        ensures
            r@ == self@,
    {
        match self {
            BandcampError::AuthError(s) => BandcampError::AuthError(s.clone()),
            BandcampError::InvalidCredentials => BandcampError::InvalidCredentials,
            BandcampError::NotLoggedIn => BandcampError::NotLoggedIn,
            BandcampError::SessionExpired => BandcampError::SessionExpired,
            BandcampError::ServiceUnavailable => BandcampError::ServiceUnavailable,
            BandcampError::NetworkError(s) => BandcampError::NetworkError(s.clone()),
            BandcampError::DownloadError(s) => BandcampError::DownloadError(s.clone()),
            BandcampError::IoError(s) => BandcampError::IoError(s.clone()),
            BandcampError::ParseError(s) => BandcampError::ParseError(s.clone()),
        }
    }

    /// Human-readable description, one line per variant.
    pub fn message(&self) -> (r: String)
        ensures
            r@ == error_message_spec(*self),
    {
        match self {
            BandcampError::AuthError(s) => String::from_str("Authentication failed: ").concat(
                s.as_str(),
            ),
            BandcampError::InvalidCredentials => String::from_str("Invalid credentials"),
            BandcampError::NotLoggedIn => String::from_str("Not logged in"),
            BandcampError::SessionExpired => String::from_str("Session expired"),
            BandcampError::ServiceUnavailable => String::from_str("Service unavailable"),
            BandcampError::NetworkError(s) => String::from_str("Network error: ").concat(
                s.as_str(),
            ),
            BandcampError::DownloadError(s) => String::from_str("Download failed: ").concat(
                s.as_str(),
            ),
            BandcampError::IoError(s) => String::from_str("IO error: ").concat(s.as_str()),
            BandcampError::ParseError(s) => String::from_str("Parse error: ").concat(s.as_str()),
        }
    }
}

} // verus!
