//! A font loader over raw OpenType/TrueType bytes.
//!
//! The container header, the table directory and the metric tables are read by
//! verified code in [`sfnt`], and glyph outlines are decoded in [`outline`];
//! names, style attributes, glyph names and the character map are read through
//! the swash crate.

mod backend;
pub mod error;
pub mod font;
pub mod metrics;
pub mod outline;
pub mod properties;
pub mod sfnt;
