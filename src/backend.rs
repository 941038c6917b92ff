//! The calls into swash that the loader relies on.

use std::sync::Arc;
use vstd::prelude::*;
use crate::sfnt::{charmap_safe, font_count, font_offset, is_collection, is_font_at, names_safe};

verus! {

/// Declares `swash::CacheKey`, which a font keeps and hands back to swash
/// unread.
#[verifier::external_type_specification]
#[verifier::external_body]
pub struct ExCacheKey(swash::CacheKey);

/// The string with name id `id` of the font whose directory is at `offset`,
/// as swash decodes the `name` table, preferring a record without a language.
pub uninterp spec fn localized_name(data: Seq<u8>, offset: u32, id: u16) -> Option<Seq<char>>;

/// The raw stretch, the weight and the style kind (0 normal, 1 italic,
/// 2 oblique) that swash derives for the font at `offset`.
pub uninterp spec fn style_attributes(data: Seq<u8>, offset: u32) -> (u16, u16, u8);

/// The glyph that the font's character map gives `c`, zero where none.
pub uninterp spec fn mapped_glyph(data: Seq<u8>, offset: u32, c: char) -> u16;

/// The UTF-8 bytes of the name that the `post` table gives glyph `g`.
pub uninterp spec fn post_glyph_name(data: Seq<u8>, offset: u32, g: u16) -> Option<Seq<u8>>;

/// Relies on `swash::FontRef::from_index`: it accepts the data and index for
/// which the single-font or `ttcf` header places a table directory, records
/// that directory's offset, and draws a fresh cache key.
#[verifier::external_body]
pub(crate) fn font_ref_from_index(data: &[u8], index: u32) -> (r: Option<(u32, swash::CacheKey)>)
    ensures
        match r {
            Some((off, _)) => font_offset(data@, index as int) == Some(off),
            None => font_offset(data@, index as int).is_none(),
        },
{
    swash::FontRef::from_index(data, index as usize).map(|f| (f.offset, f.key))
}

/// Relies on `swash::FontDataRef::new`, `is_collection` and `len`: the data is
/// accepted when it starts with a font or a `ttcf` header; the count is the
/// collection's, or one.
#[verifier::external_body]
pub(crate) fn font_data_kind(data: &[u8]) -> (r: Option<(bool, usize)>)
    ensures
        r == (if is_font_at(data@, 0) || is_collection(data@) {
            Some((is_collection(data@), font_count(data@) as usize))
        } else {
            None
        }),
{
    swash::FontDataRef::new(data).map(|d| (d.is_collection(), d.len()))
}

/// Relies on `swash::LocalizedStrings::find_by_id` with no language, and the
/// `Display` of the string it finds. Decoding a Mac Roman record indexes its
/// string's bytes, so every record must keep its string inside the table.
#[verifier::external_body]
pub(crate) fn find_name(data: &[u8], offset: u32, key: swash::CacheKey, id: u16) -> (r: Option<String>)
    requires
        names_safe(data@, offset as int),
    ensures
        match r {
            Some(s) => localized_name(data@, offset, id) == Some(s@),
            None => localized_name(data@, offset, id).is_none(),
        },
{
    let font = swash::FontRef { data, offset, key };
    font.localized_strings()
        .find_by_id(swash::StringId::from_raw(id), None)
        .map(|s| s.to_string())
}

/// Relies on `swash::Attributes::parts`: the raw stretch, the weight, and which
/// style variant it is.
#[verifier::external_body]
pub(crate) fn attribute_parts(data: &[u8], offset: u32, key: swash::CacheKey) -> (r: (u16, u16, u8))
    ensures
        r == style_attributes(data@, offset),
{
    let font = swash::FontRef { data, offset, key };
    let (stretch, weight, style) = font.attributes().parts();
    let kind: u8 = match style {
        swash::Style::Normal => 0,
        swash::Style::Italic => 1,
        swash::Style::Oblique(_) => 2,
    };
    (stretch.raw(), weight.0, kind)
}

/// Relies on `swash::Charmap::map`: the glyph for `c`, zero where unmapped.
/// A format-12 group adds its span to its start glyph in 32 bits, so no group
/// may overflow there.
#[verifier::external_body]
pub(crate) fn map_char(data: &[u8], offset: u32, key: swash::CacheKey, c: char) -> (r: u16)
    requires
        charmap_safe(data@, offset as int),
    ensures
        r == mapped_glyph(data@, offset, c),
{
    let font = swash::FontRef { data, offset, key };
    font.charmap().map(c)
}

/// Relies on `swash::FontRef::glyph_name`: the `post` table's name of glyph `g`.
#[verifier::external_body]
pub(crate) fn glyph_name(data: &[u8], offset: u32, key: swash::CacheKey, g: u16) -> (r: Option<Vec<u8>>)
    ensures
        match r {
            Some(v) => post_glyph_name(data@, offset, g) == Some(v@),
            None => post_glyph_name(data@, offset, g).is_none(),
        },
{
    let font = swash::FontRef { data, offset, key };
    font.glyph_name(g).map(|s| s.as_bytes().to_vec())
}

/// Relies on `Arc::clone`: the new pointer shares the same value.
#[verifier::external_body]
pub(crate) fn share(a: &Arc<Vec<u8>>) -> (r: Arc<Vec<u8>>)
    ensures
        r@ == a@,
{
    Arc::clone(a)
}

} // verus!
