//! The error kinds a caller can observe, each with a stable machine-readable
//! code and an HTTP-style status class.

use vstd::prelude::*;

verus! {

/// Every failure the library reports, as a distinct kind so that callers can
/// branch on the cause.
#[derive(Clone, Copy, Debug, PartialEq, Eq, Structural)]
pub enum Error {
    /// A path identifier that does not parse as a listing identifier.
    InvalidIdentifierFormat,
    /// Image bytes that no supported raster format decodes.
    InvalidImageData,
    /// Transport text that is not a valid binary-to-text encoding.
    MalformedEncoding,
    /// The requested listing does not exist.
    NotFound,
    /// A storage-level failure, such as an identifier collision.
    StorageFailure,
}

impl Error {
    /// The stable machine-readable code for this error kind.
    pub fn code(&self) -> (r: &'static str)
        ensures
            *self is InvalidIdentifierFormat ==> r@ == "E_INVALID_UUID"@,
            *self is InvalidImageData ==> r@ == "E_INVALID_IMAGE"@,
            *self is MalformedEncoding ==> r@ == "E_MALFORMED_ENCODING"@,
            *self is NotFound ==> r@ == "E_NOT_FOUND"@,
            *self is StorageFailure ==> r@ == "E_INTERNAL"@,
    {
        match self {
            Error::InvalidIdentifierFormat => "E_INVALID_UUID",
            Error::InvalidImageData => "E_INVALID_IMAGE",
            Error::MalformedEncoding => "E_MALFORMED_ENCODING",
            Error::NotFound => "E_NOT_FOUND",
            Error::StorageFailure => "E_INTERNAL",
        }
    }

    /// The HTTP-style status of this error kind: client faults are 400,
    /// a missing listing is 404, and storage failures are 500.
    pub fn http_status(&self) -> (r: u16)
        ensures
            r == match *self {
                Error::InvalidIdentifierFormat => 400u16,
                Error::InvalidImageData => 400u16,
                Error::MalformedEncoding => 400u16,
                Error::NotFound => 404u16,
                Error::StorageFailure => 500u16,
            },
    {
        match self {
            Error::InvalidIdentifierFormat => 400,
            Error::InvalidImageData => 400,
            Error::MalformedEncoding => 400,
            Error::NotFound => 404,
            Error::StorageFailure => 500,
        }
    }
}

} // verus!
