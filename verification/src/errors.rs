//! Errors reported by the resource layer around the tokenizer.

use vstd::prelude::*;

verus! {

/// Failure to obtain or read a parameter bundle.  The tokenizer itself has no
/// recoverable runtime errors; these arise only while loading resources.
#[derive(Debug)]
pub enum SentenceSplitterError {
    /// A remote parameter bundle could not be fetched.
    FileDownloadError(String),
    /// A local read failed.
    IOError(String),
}

impl SentenceSplitterError {
    /// A human-readable description of the error.
    pub fn message(&self) -> (r: String)
        ensures
            match self {
                SentenceSplitterError::FileDownloadError(m) => r@ == "Endpoint not available error: "@
                    + m@,
                SentenceSplitterError::IOError(m) => r@ == "IO error: "@ + m@,
            },
    {
        match self {
            SentenceSplitterError::FileDownloadError(m) => String::from_str(
                "Endpoint not available error: ",
            ).concat(m.as_str()),
            SentenceSplitterError::IOError(m) => String::from_str("IO error: ").concat(m.as_str()),
        }
    }
}

} // verus!
