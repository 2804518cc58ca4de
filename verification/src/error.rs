use vstd::prelude::*;

verus! {

/// Everything that can go wrong inside the library. Every failure is
/// returned to the caller as a value; nothing is swallowed or retried.
#[derive(Debug, Clone, Copy, PartialEq, Eq, Structural)]
pub enum Error {
    /// A seed lies outside the valid range for the current pattern count.
    InvalidSeed,
    /// A hex color code is malformed: wrong length or a non-hex digit.
    InvalidHexColor,
    /// A layer override is invalid: its pattern index is out of bounds, it
    /// names a layer that does not exist, or more than six entries were given.
    InvalidLayerOverride,
    /// A pattern or base texture is not exactly 20x40 after cropping.
    DimensionMismatch,
    /// Image bytes could not be decoded.
    DecodeFailure,
}

impl Error {
    /// A short human-readable description of the error.
    pub fn message(self) -> &'static str {
        match self {
            Error::InvalidSeed => "seed is out of range for the current pattern count",
            Error::InvalidHexColor => "hex color code must be 6 hex digits",
            Error::InvalidLayerOverride => "layer override is out of bounds or too long",
            Error::DimensionMismatch => "texture does not match the 20x40 banner dimensions",
            Error::DecodeFailure => "image bytes could not be decoded",
        }
    }
}

} // verus!
