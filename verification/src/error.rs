//! The error type of the download API.

use vstd::prelude::*;

verus! {

/// Why a download did not complete.
#[derive(Debug, Clone, PartialEq, Eq)]
#[non_exhaustive]
pub enum Error {
    /// The download was paused and can be resumed when resumable state was saved.
    Paused,
    /// The download was cancelled and partial output/state was removed when possible.
    Cancelled,
    /// The request URL could not be parsed.
    InvalidUrl { message: String },
    /// An HTTP request or response failed.
    Http { message: String },
    /// File or filesystem I/O failed.
    Io { message: String },
    /// Saved resumable state could not be read, written, or decoded.
    State { message: String },
    /// A download could not be started because the runtime environment is unavailable.
    RuntimeUnavailable { message: String },
    /// The download failed.
    DownloadFailed { message: String },
}

/// The text that describes `e` to a user.
pub open spec fn error_text(e: Error) -> Seq<char> {
    match e {
        Error::Paused => seq!['i', 'n', 't', 'e', 'r', 'r', 'u', 'p', 't', 'e', 'd'],
        Error::Cancelled => seq!['c', 'a', 'n', 'c', 'e', 'l', 'l', 'e', 'd'],
        Error::InvalidUrl { message } => message@,
        Error::Http { message } => message@,
        Error::Io { message } => message@,
        Error::State { message } => message@,
        Error::RuntimeUnavailable { message } => message@,
        Error::DownloadFailed { message } => message@,
    }
}

impl Error {
    pub fn runtime_unavailable(message: String) -> (e: Error)
        ensures
            e == (Error::RuntimeUnavailable { message }),
    {
        Error::RuntimeUnavailable { message }
    }

    pub fn download_failed(message: String) -> (e: Error)
        ensures
            e == (Error::DownloadFailed { message }),
    {
        Error::DownloadFailed { message }
    }

    /// Returns true if the download was paused.
    pub fn is_paused(&self) -> (b: bool)
        ensures
            b <==> *self is Paused,
    {
        match self {
            Error::Paused => true,
            _ => false,
        }
    }

    /// Returns true if the download was cancelled.
    pub fn is_cancelled(&self) -> (b: bool)
        ensures
            b <==> *self is Cancelled,
    {
        match self {
            Error::Cancelled => true,
            _ => false,
        }
    }

    /// The text that describes this error to a user.
    pub fn message(&self) -> (s: String)
        ensures
            s@ == error_text(*self),
    {
        match self {
            Error::Paused => {
                let v: Vec<char> = vec!['i', 'n', 't', 'e', 'r', 'r', 'u', 'p', 't', 'e', 'd'];
                crate::text::string_of(v.as_slice())
            },
            Error::Cancelled => {
                let v: Vec<char> = vec!['c', 'a', 'n', 'c', 'e', 'l', 'l', 'e', 'd'];
                crate::text::string_of(v.as_slice())
            },
            Error::InvalidUrl { message }
            | Error::Http { message }
            | Error::Io { message }
            | Error::State { message }
            | Error::RuntimeUnavailable { message }
            | Error::DownloadFailed { message } => message.clone(),
        }
    }
}

} // verus!
