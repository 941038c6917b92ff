//! Errors of loading a font and of loading a glyph.

use vstd::prelude::*;

verus! {

/// Declares `std::io::Error`, carried unread by the loading error.
#[verifier::external_type_specification]
#[verifier::external_body]
pub struct ExIoError(std::io::Error);

/// Why a font could not be loaded.
#[derive(Debug)]
pub enum FontLoadingError {
    /// The data was not recognised as a font or a font collection.
    UnknownFormat,
    /// The collection has no font at the requested index.
    NoSuchFontInCollection,
    /// The data, or the requested font in it, could not be parsed.
    Parse,
    /// A path was given where this loader has no file system to read it from.
    NoFilesystem,
    /// Reading the font's bytes failed.
    Io(std::io::Error),
}

/// Why a glyph operation failed.
#[derive(Clone, Copy, Debug, PartialEq, Eq, Structural)]
pub enum GlyphLoadingError {
    /// The glyph id is not below the font's glyph count.
    NoSuchGlyph,
    /// The font lacks, or holds malformed, data that the operation needs.
    PlatformError,
    /// This loader cannot do what was asked (a hinting mode, rasterization).
    Unsupported,
}

} // verus!
