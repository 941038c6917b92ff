//! Font-unit geometry and the font-wide metrics record.

use vstd::prelude::*;

verus! {

/// A vector in font units.
#[derive(Clone, Copy, Debug, PartialEq, Eq, Structural)]
pub struct FontVector {
    pub x: i32,
    pub y: i32,
}

/// An axis-aligned rectangle in font units.
#[derive(Clone, Copy, Debug, PartialEq, Eq, Structural)]
pub struct FontRect {
    pub min_x: i32,
    pub min_y: i32,
    pub max_x: i32,
    pub max_y: i32,
}

/// Values that apply to the whole font, in font units.
#[derive(Clone, Copy, Debug, PartialEq, Eq, Structural)]
pub struct Metrics {
    /// Font units per em.
    pub units_per_em: u32,
    /// Distance from the baseline to the top of the tallest glyphs.
    pub ascent: i32,
    /// Distance from the baseline to the bottom of the lowest glyphs (negative below).
    pub descent: i32,
    /// Extra gap between lines.
    pub line_gap: i32,
    /// Position of the underline relative to the baseline.
    pub underline_position: i32,
    /// Thickness of the underline.
    pub underline_thickness: i32,
    /// Height of capital letters.
    pub cap_height: i32,
    /// Height of lowercase letters.
    pub x_height: i32,
    /// The union of all glyph bounds, as the font header records it.
    pub bounding_box: FontRect,
}

} // verus!
