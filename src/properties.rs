//! Style properties in CSS terms, and the plain values that loader calls
//! exchange.

use std::sync::Arc;
use vstd::prelude::*;

verus! {

/// The slant of a font.
#[derive(Clone, Copy, Debug, PartialEq, Eq, Structural)]
pub enum Style {
    Normal,
    Italic,
    Oblique,
}

/// Width of a font, in tenths of a percent of the normal width (1000 is normal).
#[derive(Clone, Copy, Debug, PartialEq, Eq, Structural)]
pub struct Stretch(pub u32);

/// Weight of a font on the CSS scale (400 is normal, 700 bold).
#[derive(Clone, Copy, Debug, PartialEq, Eq, Structural)]
pub struct Weight(pub u16);

/// The CSS-like properties of a font.
#[derive(Clone, Copy, Debug, PartialEq, Eq, Structural)]
pub struct Properties {
    pub stretch: Stretch,
    pub weight: Weight,
    pub style: Style,
}

/// How glyph outlines are grid-fitted. Sizes are in 1/64 pixel.
#[derive(Clone, Copy, Debug, PartialEq, Eq, Structural)]
pub enum HintingOptions {
    Unhinted,
    Vertical(u32),
    VerticalSubpixel(u32),
    Full(u32),
}

/// The kind of font data that was recognised.
#[derive(Clone, Copy, Debug, PartialEq, Eq, Structural)]
pub enum FileType {
    /// A single font.
    Single,
    /// A collection holding this many fonts.
    Collection(u32),
}

/// Where a font can be loaded from.
#[derive(Clone, Debug)]
pub enum Handle {
    /// A font file on disk, and the index of the font in it.
    Path { path: String, font_index: u32 },
    /// Font data in memory, and the index of the font in it.
    Memory { bytes: Arc<Vec<u8>>, font_index: u32 },
}

} // verus!
