//! The failures that the library reports.

use vstd::prelude::*;

verus! {

/// Why a composition was refused.
#[derive(Clone, Copy, Debug, PartialEq, Eq, Structural)]
pub enum ComposeError {
    /// No image was given.
    EmptyInput,
    /// The layout name is none of `horizontal`, `vertical`, `grid`.
    UnsupportedLayout,
}

/// Why a capture was refused or failed.
#[derive(Clone, Debug, PartialEq, Eq)]
pub enum CaptureError {
    /// The enumeration holds no display flagged as primary.
    NoPrimaryMonitor,
    /// Clamped to the primary display, the region has no area left; the
    /// fields are the extents that clamping left.
    InvalidRegion { width: u32, height: u32 },
    /// The backend failed; the text is the cause it gave.
    CaptureBackendFailure(String),
}

/// Why an image could not be turned into text or text into an image.
#[derive(Debug, PartialEq, Eq)]
pub enum CodecError {
    /// The text starts like a data URL but has no comma before its payload.
    InvalidDataUrl,
    /// The payload is not base64; the text is the decoder's reason.
    Base64(String),
    /// The bytes are not an image; the text is the decoder's reason.
    Image(String),
    /// The image could not be encoded; the text is the encoder's reason.
    Encoding(String),
    /// The decoded image is empty or its bytes do not match its size.
    MalformedImage,
    /// The encoded image is too long to be written as base64 text.
    TooLong,
}

/// The mathematical model of a `CodecError`: the same cases, each reason as
/// a sequence of characters.
pub enum CodecFault {
    InvalidDataUrl,
    Base64(Seq<char>),
    Image(Seq<char>),
    Encoding(Seq<char>),
    MalformedImage,
    TooLong,
}

impl View for CodecError {
    type V = CodecFault;

    open spec fn view(&self) -> CodecFault {
        match self {
            CodecError::InvalidDataUrl => CodecFault::InvalidDataUrl,
            CodecError::Base64(reason) => CodecFault::Base64(reason@),
            CodecError::Image(reason) => CodecFault::Image(reason@),
            CodecError::Encoding(reason) => CodecFault::Encoding(reason@),
            CodecError::MalformedImage => CodecFault::MalformedImage,
            CodecError::TooLong => CodecFault::TooLong,
        }
    }
}

/// Why a request to compose stored screenshots failed.
#[derive(Debug, PartialEq, Eq)]
pub enum RequestError {
    /// None of the requested identifiers names a stored screenshot.
    NoScreenshotsFound,
    /// A stored screenshot could not be read, or the composite not written.
    Codec(CodecError),
    /// The composition was refused.
    Compose(ComposeError),
    /// The canvas would be larger than a buffer can be.
    CanvasTooLarge,
}

/// The mathematical model of a `RequestError`.
pub enum RequestFault {
    NoScreenshotsFound,
    Codec(CodecFault),
    Compose(ComposeError),
    CanvasTooLarge,
}

impl View for RequestError {
    type V = RequestFault;

    open spec fn view(&self) -> RequestFault {
        match self {
            RequestError::NoScreenshotsFound => RequestFault::NoScreenshotsFound,
            RequestError::Codec(error) => RequestFault::Codec(error@),
            RequestError::Compose(error) => RequestFault::Compose(*error),
            RequestError::CanvasTooLarge => RequestFault::CanvasTooLarge,
        }
    }
}

} // verus!
