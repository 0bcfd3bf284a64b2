//! What can go wrong in a scan. Errors that come from outside the library
//! (the HTTP client, the file system, JSON) are held by their message.
use crate::text::push_str;
use vstd::prelude::*;

verus! {

/// An error of the scanner.
#[derive(Debug, Clone)]
pub enum PathScanError {
    Http(String),
    InvalidUrl(String),
    WordlistNotFound(String),
    WordlistRead(String),
    Cancelled,
    Serde(String),
    Other(String),
}

/// The message that describes an error.
pub open spec fn error_message(e: PathScanError) -> Seq<char> {
    match e {
        PathScanError::Http(m) => "HTTP request failed: "@ + m@,
        PathScanError::InvalidUrl(m) => "invalid URL: "@ + m@,
        PathScanError::WordlistNotFound(m) => "wordlist not found: "@ + m@,
        PathScanError::WordlistRead(m) => "wordlist read error: "@ + m@,
        PathScanError::Cancelled => "scan cancelled by user"@,
        PathScanError::Serde(m) => "serialization error: "@ + m@,
        PathScanError::Other(m) => m@,
    }
}

/// A copy of `e`.
pub fn copy_error(e: &PathScanError) -> (r: PathScanError)
    ensures
        r == *e,
{
    match e {
        PathScanError::Http(m) => PathScanError::Http(m.clone()),
        PathScanError::InvalidUrl(m) => PathScanError::InvalidUrl(m.clone()),
        PathScanError::WordlistNotFound(m) => PathScanError::WordlistNotFound(m.clone()),
        PathScanError::WordlistRead(m) => PathScanError::WordlistRead(m.clone()),
        PathScanError::Cancelled => PathScanError::Cancelled,
        PathScanError::Serde(m) => PathScanError::Serde(m.clone()),
        PathScanError::Other(m) => PathScanError::Other(m.clone()),
    }
}

impl PathScanError {
    /// The message that describes the error, as it is shown to the user.
    pub fn message(&self) -> (s: String)
        ensures
            s@ == error_message(*self),
    {
        let mut s = String::new();
        match self {
            PathScanError::Http(m) => {
                push_str(&mut s, "HTTP request failed: ");
                push_str(&mut s, m.as_str());
            },
            PathScanError::InvalidUrl(m) => {
                push_str(&mut s, "invalid URL: ");
                push_str(&mut s, m.as_str());
            },
            PathScanError::WordlistNotFound(m) => {
                push_str(&mut s, "wordlist not found: ");
                push_str(&mut s, m.as_str());
            },
            PathScanError::WordlistRead(m) => {
                push_str(&mut s, "wordlist read error: ");
                push_str(&mut s, m.as_str());
            },
            PathScanError::Cancelled => {
                push_str(&mut s, "scan cancelled by user");
            },
            PathScanError::Serde(m) => {
                push_str(&mut s, "serialization error: ");
                push_str(&mut s, m.as_str());
            },
            PathScanError::Other(m) => {
                push_str(&mut s, m.as_str());
            },
        }
        s
    }
}

} // verus!
