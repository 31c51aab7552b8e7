//! Errors reported while parsing or regenerating a SilverDB database.

use vstd::prelude::*;

verus! {

/// Possible errors encountered when parsing, writing or decoding.
#[derive(Clone, Copy, Debug, PartialEq, Eq, Structural)]
pub enum SilverError {
    /// Section content that should decode as text did not.
    ContentParseFailure,
    /// The buffer does not begin with a structurally plausible header.
    /// Probing callers use this to tell "no database here" from corruption.
    InvalidHeader,
    /// A read or write fell outside the buffer's bounds.
    ParseError,
    /// A malformed four-byte section signature.
    InvalidMagic,
    /// A bitmap resource whose declared content length does not match the
    /// bytes that actually remain, or whose header shape is not understood.
    InvalidBitmap,
    /// A bitmap pixel-format tag outside the recognized set.
    UnknownBitmap,
    /// Re-encoding a decoded raster to the output image container failed.
    ImageError,
}

impl SilverError {
    /// A short human-readable description of the error.
    pub fn describe(&self) -> &'static str {
        match self {
            SilverError::ContentParseFailure => "Failed to parse section content.",
            SilverError::InvalidHeader => "Invalid header for SilverDB file encountered!",
            SilverError::ParseError => "Failed to parse file format.",
            SilverError::InvalidMagic => "Invalid magic detected!",
            SilverError::InvalidBitmap => "Invalid bitmap resource entry encountered!",
            SilverError::UnknownBitmap => "Unrecognized bitmap pixel format encountered!",
            SilverError::ImageError => "Failed to convert image.",
        }
    }
}

} // verus!
