//! Errors of extraction and of the download pipeline.

use vstd::prelude::*;

verus! {

/// Why a page could not be read, or a download could not go on.
#[derive(Clone, Copy, Debug, PartialEq, Eq)]
pub enum Error {
    /// No element carries the named class.
    MissingClass(&'static str),
    /// No element carries the named attribute (or attribute value).
    MissingAttr(&'static str),
    /// A field that must hold an unsigned number does not.
    InvalidNumber,
    /// The download's final address names no file.
    InvalidDownload,
    /// The server declared no content length.
    UnknownLength,
    /// The bytes received do not add up to the declared length.
    Transfer,
}

/// A one-line description of an error.
pub open spec fn error_message(e: Error) -> Seq<char> {
    match e {
        Error::MissingClass(c) => "missing class: "@ + c@,
        Error::MissingAttr(a) => "missing attribute: "@ + a@,
        Error::InvalidNumber => "invalid number"@,
        Error::InvalidDownload => "invalid download"@,
        Error::UnknownLength => "unknown content length"@,
        Error::Transfer => "incomplete transfer"@,
    }
}

impl Error {
    /// A one-line description of the error.
    pub fn message(&self) -> (r: String)
        ensures
            r@ == error_message(*self),
    {
        let mut s = String::new();
        match self {
            Error::MissingClass(c) => {
                s.append("missing class: ");
                s.append(c);
            },
            Error::MissingAttr(a) => {
                s.append("missing attribute: ");
                s.append(a);
            },
            Error::InvalidNumber => s.append("invalid number"),
            Error::InvalidDownload => s.append("invalid download"),
            Error::UnknownLength => s.append("unknown content length"),
            Error::Transfer => s.append("incomplete transfer"),
        }
        s
    }
}

} // verus!
