//! A font loaded from bytes: the immutable data, the offset of its table
//! directory and a cache key; every query re-reads the tables it needs.

use std::sync::Arc;
use vstd::prelude::*;
use vstd::slice::slice_to_vec;
use vstd::string::StringSliceAdditionalSpecFns;
use crate::backend::{
    attribute_parts, find_name, font_data_kind, font_ref_from_index, glyph_name, localized_name,
    map_char, mapped_glyph, post_glyph_name, share, style_attributes,
};
use crate::error::{FontLoadingError, GlyphLoadingError};
use crate::metrics::{FontRect, FontVector, Metrics};
use crate::outline::{contours_well_formed, decode_simple_glyph, simple_glyph_commands, PathCommand};
use crate::properties::{FileType, Handle, HintingOptions, Properties, Stretch, Style, Weight};
use crate::sfnt::{
    advance_of, bounds_of, bytes_equal, find_table, font_count, font_metrics, font_offset,
    glyph_advance, glyph_bounds, glyph_count, glyph_count_of, glyph_data, glyph_record, is_collection, is_font_at,
    metrics_of, table_data, charmap_safe, check_charmaps, check_directory, check_names,
    directory_sound, fixed_pitch, fixed_pitch_of, names_safe, TAG_OS2,
};

verus! {

/// Name id of the family name.
pub const NAME_ID_FAMILY: u16 = 1;
/// Name id of the full name.
pub const NAME_ID_FULL: u16 = 4;
/// Name id of the PostScript name.
pub const NAME_ID_POSTSCRIPT: u16 = 6;

/// A font loaded from raw bytes.
pub struct Font {
    data: Arc<Vec<u8>>,
    offset: u32,
    index: u32,
    key: swash::CacheKey,
}

/// The platform handle of a font: for this loader, the font itself.
pub type NativeFont = Font;

/// Fonts to fall back on for text that a font cannot render.
pub struct FallbackResult {
    /// Candidate fonts, most preferred first.
    pub fonts: Vec<Font>,
    /// The length in bytes of the prefix of the text that the font renders.
    pub valid_len: usize,
}

/// Where font `index` of the data has a sound table directory.
pub open spec fn loadable(s: Seq<u8>, index: int) -> Option<u32> {
    match font_offset(s, index) {
        Some(off) => if directory_sound(s, off as int) {
            Some(off)
        } else {
            None
        },
        None => None,
    }
}

/// The name with id `id`, where every `name` table is sound enough to decode.
pub open spec fn font_name(s: Seq<u8>, offset: u32, id: u16) -> Option<Seq<char>> {
    if names_safe(s, offset as int) {
        localized_name(s, offset, id)
    } else {
        None
    }
}

/// Stretch of 100 % in tenths of a percent.
pub const STRETCH_NORMAL: u32 = 1000;
/// Narrowest stretch, 50 %.
pub const STRETCH_MIN: u32 = 500;
/// Widest stretch, 200 %.
pub const STRETCH_MAX: u32 = 2000;
/// Normal weight.
pub const WEIGHT_NORMAL: u16 = 400;
/// Heaviest weight.
pub const WEIGHT_MAX: u16 = 1000;

pub open spec fn clamp_int(v: int, lo: int, hi: int) -> int {
    if v < lo {
        lo
    } else if v > hi {
        hi
    } else {
        v
    }
}

/// The properties of a font: CSS defaults without an `OS/2` table, else
/// swash's attributes brought into the CSS ranges.
pub open spec fn properties_of(s: Seq<u8>, offset: u32) -> Properties {
    if table_data(s, offset as int, TAG_OS2) is None {
        Properties {
            stretch: Stretch(STRETCH_NORMAL),
            weight: Weight(WEIGHT_NORMAL),
            style: Style::Normal,
        }
    } else {
        let p = properties_from(style_attributes(s, offset));
        Properties {
            stretch: Stretch(clamp_int(p.stretch.0 as int, STRETCH_MIN as int, STRETCH_MAX as int) as u32),
            weight: Weight(clamp_int(p.weight.0 as int, 1, WEIGHT_MAX as int) as u16),
            style: p.style,
        }
    }
}

/// A name, or the empty string where the font has none.
pub open spec fn name_or_empty(n: Option<Seq<char>>) -> Seq<char> {
    match n {
        Some(s) => s,
        None => Seq::empty(),
    }
}

/// The properties that swash's raw attributes stand for: a raw stretch unit is
/// half a percent above fifty percent.
pub open spec fn properties_from(parts: (u16, u16, u8)) -> Properties {
    Properties {
        stretch: Stretch((5 * parts.0 + 500) as u32),
        weight: Weight(parts.1),
        style: if parts.2 == 1 {
            Style::Italic
        } else if parts.2 == 2 {
            Style::Oblique
        } else {
            Style::Normal
        },
    }
}

/// A character-map result, where glyph zero means that nothing is mapped.
pub open spec fn mapped_to_option(g: u16) -> Option<u32> {
    if g == 0 {
        None
    } else {
        Some(g as u32)
    }
}

/// The first glyph at or after `from`, below `count`, whose `post` name is `name`.
pub open spec fn first_named(data: Seq<u8>, offset: u32, name: Seq<u8>, from: int, count: int) -> Option<u32>
    decreases count - from,
{
    if from >= count {
        None
    } else if post_glyph_name(data, offset, from as u16) == Some(name) {
        Some(from as u32)
    } else {
        first_named(data, offset, name, from + 1, count)
    }
}

/// What a per-glyph query returns: no such glyph past the glyph count, an
/// error where the tables cannot answer, else the answer.
pub open spec fn glyph_result<T>(s: Seq<u8>, base: int, g: int, answer: Option<T>) -> Result<T, GlyphLoadingError> {
    if g >= glyph_count_of(s, base) {
        Err(GlyphLoadingError::NoSuchGlyph)
    } else {
        match answer {
            Some(v) => Ok(v),
            None => Err(GlyphLoadingError::PlatformError),
        }
    }
}

/// The advance of glyph `g` as a vector along the baseline.
pub open spec fn advance_vector(s: Seq<u8>, base: int, g: int) -> Option<FontVector> {
    match advance_of(s, base, g) {
        Some(a) => Some(FontVector { x: a as i32, y: 0 }),
        None => None,
    }
}

/// The commands of a `glyf` record: none for an empty record, else those of
/// the simple glyph it holds.
pub open spec fn glyph_outline(rec: Seq<u8>) -> Option<Seq<PathCommand>> {
    if rec.len() == 0 {
        Some(Seq::empty())
    } else {
        simple_glyph_commands(rec)
    }
}

/// An unhinted outline query for a glyph below the count gives the decoded
/// commands of its record, or a platform error where there are none.
pub open spec fn outline_matches(r: Result<Vec<PathCommand>, GlyphLoadingError>, rec: Option<Seq<u8>>) -> bool {
    match rec {
        Some(g) => match glyph_outline(g) {
            Some(c) => r is Ok && r->Ok_0@ == c,
            None => r == Err::<Vec<PathCommand>, GlyphLoadingError>(GlyphLoadingError::PlatformError),
        },
        None => r == Err::<Vec<PathCommand>, GlyphLoadingError>(GlyphLoadingError::PlatformError),
    }
}

/// What `analyze_bytes` reports for data.
pub open spec fn file_type_of(s: Seq<u8>) -> Result<FileType, FontLoadingError> {
    if is_collection(s) {
        Ok(FileType::Collection(font_count(s) as u32))
    } else if is_font_at(s, 0) {
        Ok(FileType::Single)
    } else {
        Err(FontLoadingError::UnknownFormat)
    }
}

impl Font {
    /// The bytes the font was loaded from (the whole collection, for a member).
    pub closed spec fn bytes(&self) -> Seq<u8> {
        self.data@
    }

    /// The offset of the font's table directory in its bytes.
    pub closed spec fn directory(&self) -> u32 {
        self.offset
    }

    /// The index of the font in its bytes.
    pub closed spec fn index(&self) -> u32 {
        self.index
    }

    /// The cache key that swash gave the font when it was loaded.
    pub closed spec fn key(&self) -> swash::CacheKey {
        self.key
    }

    #[verifier::type_invariant]
    spec fn directory_is_located(&self) -> bool {
        loadable(self.data@, self.index as int) == Some(self.offset)
    }

    /// Loads font `index` from raw font data (the contents of a `.ttf`,
    /// `.otf` or `.ttc` file).
    pub fn from_bytes(data: Arc<Vec<u8>>, index: u32) -> (r: Result<Font, FontLoadingError>)
        ensures
            r is Ok <==> loadable(data@, index as int) is Some,
            match r {
                Ok(f) => f.bytes() == data@ && f.index() == index && loadable(data@, index as int)
                    == Some(f.directory()),
                Err(e) => e is Parse,
            },
    {
        match font_ref_from_index(data.as_slice(), index) {
            Some((offset, key)) => {
                if check_directory(data.as_slice(), offset) {
                    Ok(Font { data, offset, index, key })
                } else {
                    Err(FontLoadingError::Parse)
                }
            },
            None => Err(FontLoadingError::Parse),
        }
    }

    /// Loads the font that a handle names. This loader reads no files: a path
    /// handle is refused, and the caller's file layer opens it.
    pub fn from_handle(handle: &Handle) -> (r: Result<Font, FontLoadingError>)
        ensures
            match handle {
                Handle::Memory { bytes, font_index } => {
                    &&& r is Ok <==> loadable(bytes@, *font_index as int) is Some
                    &&& r matches Ok(f) ==> f.bytes() == bytes@ && f.index() == *font_index
                        && loadable(bytes@, *font_index as int) == Some(f.directory())
                    &&& r matches Err(e) ==> e is Parse
                },
                Handle::Path { .. } => r matches Err(e) && e is NoFilesystem,
            },
    {
        match handle {
            Handle::Memory { bytes, font_index } => Font::from_bytes(share(bytes), *font_index),
            Handle::Path { .. } => Err(FontLoadingError::NoFilesystem),
        }
    }

    /// Returns the font itself, which is this loader's native handle.
    pub fn from_native_font(font: NativeFont) -> (r: Font)
        ensures
            r == font,
    {
        font
    }

    /// Determines whether data is a supported font, and if so, of which kind.
    pub fn analyze_bytes(data: Arc<Vec<u8>>) -> (r: Result<FileType, FontLoadingError>)
        ensures
            r == file_type_of(data@),
    {
        match font_data_kind(data.as_slice()) {
            Some((true, n)) => Ok(FileType::Collection(n as u32)),
            Some((false, _)) => Ok(FileType::Single),
            None => Err(FontLoadingError::UnknownFormat),
        }
    }

    /// Returns the native handle of the font: a font sharing the same data.
    pub fn native_font(&self) -> (r: NativeFont)
        ensures
            r.bytes() == self.bytes(),
            r.directory() == self.directory(),
            r.index() == self.index(),
            r.key() == self.key(),
    {
        proof {
            use_type_invariant(self);
        }
        Font { data: share(&self.data), offset: self.offset, index: self.index, key: self.key }
    }

    fn find_localized_string(&self, id: u16) -> (r: Option<String>)
        ensures
            match r {
                Some(s) => font_name(self.bytes(), self.directory(), id) == Some(s@),
                None => font_name(self.bytes(), self.directory(), id) is None,
            },
    {
        if !check_names(self.data.as_slice(), self.offset) {
            return None;
        }
        find_name(self.data.as_slice(), self.offset, self.key, id)
    }

    /// Returns the PostScript name of the font, if it has one.
    pub fn postscript_name(&self) -> (r: Option<String>)
        ensures
            match r {
                Some(s) => font_name(self.bytes(), self.directory(), NAME_ID_POSTSCRIPT) == Some(s@),
                None => font_name(self.bytes(), self.directory(), NAME_ID_POSTSCRIPT) is None,
            },
    {
        self.find_localized_string(NAME_ID_POSTSCRIPT)
    }

    /// Returns the full name of the font; empty where the font has none.
    pub fn full_name(&self) -> (r: String)
        ensures
            r@ == name_or_empty(font_name(self.bytes(), self.directory(), NAME_ID_FULL)),
    {
        match self.find_localized_string(NAME_ID_FULL) {
            Some(s) => s,
            None => String::new(),
        }
    }

    /// Returns the name of the font family; empty where the font has none.
    pub fn family_name(&self) -> (r: String)
        ensures
            r@ == name_or_empty(font_name(self.bytes(), self.directory(), NAME_ID_FAMILY)),
    {
        match self.find_localized_string(NAME_ID_FAMILY) {
            Some(s) => s,
            None => String::new(),
        }
    }

    /// Returns true if and only if the font is fixed-width, as its `post`
    /// table declares.
    pub fn is_monospace(&self) -> (r: bool)
        ensures
            r == fixed_pitch_of(self.bytes(), self.directory() as int),
    {
        fixed_pitch(self.data.as_slice(), self.offset)
    }

    /// Returns the font's properties in CSS terms: stretch within 50 % to
    /// 200 %, weight within 1 to 1000, and 100 % and 400 for a font without
    /// an `OS/2` table.
    pub fn properties(&self) -> (r: Properties)
        ensures
            r == properties_of(self.bytes(), self.directory()),
            STRETCH_MIN <= r.stretch.0 <= STRETCH_MAX,
            1 <= r.weight.0 <= WEIGHT_MAX,
            table_data(self.bytes(), self.directory() as int, TAG_OS2) is None ==> r.stretch.0
                == STRETCH_NORMAL && r.weight.0 == WEIGHT_NORMAL,
    {
        if find_table(self.data.as_slice(), self.offset, TAG_OS2).is_none() {
            return Properties {
                stretch: Stretch(STRETCH_NORMAL),
                weight: Weight(WEIGHT_NORMAL),
                style: Style::Normal,
            };
        }
        let (stretch, weight, kind) = attribute_parts(self.data.as_slice(), self.offset, self.key);
        let style = if kind == 1 {
            Style::Italic
        } else if kind == 2 {
            Style::Oblique
        } else {
            Style::Normal
        };
        let tenths: u32 = 5 * stretch as u32 + 500;
        let tenths = if tenths > STRETCH_MAX {
            STRETCH_MAX
        } else {
            tenths
        };
        let weight = if weight < 1 {
            1
        } else if weight > WEIGHT_MAX {
            WEIGHT_MAX
        } else {
            weight
        };
        Properties { stretch: Stretch(tenths), weight: Weight(weight), style }
    }

    /// Returns the number of glyphs; glyph ids range from zero up to it.
    pub fn glyph_count(&self) -> (r: u32)
        ensures
            r == glyph_count_of(self.bytes(), self.directory() as int) as u32,
    {
        glyph_count(self.data.as_slice(), self.offset) as u32
    }

    /// Returns the usual glyph for a character, as the character map gives it.
    /// This is no substitute for shaping.
    pub fn glyph_for_char(&self, c: char) -> (r: Option<u32>)
        ensures
            r == (if charmap_safe(self.bytes(), self.directory() as int) {
                mapped_to_option(mapped_glyph(self.bytes(), self.directory(), c))
            } else {
                None
            }),
    {
        if !check_charmaps(self.data.as_slice(), self.offset) {
            return None;
        }
        let g = map_char(self.data.as_slice(), self.offset, self.key, c);
        if g == 0 {
            None
        } else {
            Some(g as u32)
        }
    }

    /// Returns the first glyph whose `post` name is `name`.
    pub fn glyph_by_name(&self, name: &str) -> (r: Option<u32>)
        ensures
            r == first_named(
                self.bytes(),
                self.directory(),
                name.spec_bytes(),
                0,
                glyph_count_of(self.bytes(), self.directory() as int) as int,
            ),
    {
        let target = name.as_bytes();
        let data = self.data.as_slice();
        let count = glyph_count(data, self.offset) as u32;
        let mut g: u32 = 0;
        while g < count
            invariant
                g <= count,
                count == glyph_count_of(self.bytes(), self.directory() as int) as u32,
                data@ == self.bytes(),
                target@ == name.spec_bytes(),
                first_named(self.bytes(), self.directory(), target@, g as int, count as int)
                    == first_named(self.bytes(), self.directory(), target@, 0, count as int),
            decreases count - g,
        {
            match glyph_name(data, self.offset, self.key, g as u16) {
                Some(n) => {
                    if bytes_equal(n.as_slice(), target) {
                        return Some(g);
                    }
                },
                None => {},
            }
            g = g + 1;
        }
        None
    }

    /// Returns the outline of a glyph as path commands in font units. Only
    /// unhinted outlines are produced (a hinting mode is unsupported); a glyph
    /// without an outline gives no commands; a composite or malformed glyph,
    /// or a font without `glyf` outlines, is a platform error.
    pub fn outline(&self, glyph_id: u32, hinting_options: HintingOptions) -> (r: Result<Vec<PathCommand>, GlyphLoadingError>)
        ensures
            glyph_id >= glyph_count_of(self.bytes(), self.directory() as int) ==> r == Err::<Vec<PathCommand>, GlyphLoadingError>(GlyphLoadingError::NoSuchGlyph),
            glyph_id < glyph_count_of(self.bytes(), self.directory() as int) ==> {
                let record = glyph_record(self.bytes(), self.directory() as int, glyph_id as int);
                &&& !(hinting_options is Unhinted) ==> (r matches Err(e) && e == GlyphLoadingError::Unsupported)
                &&& hinting_options is Unhinted ==> outline_matches(r, record)
            },
            r matches Ok(c) ==> contours_well_formed(c@),
    {
        let data = self.data.as_slice();
        if glyph_id >= glyph_count(data, self.offset) as u32 {
            return Err(GlyphLoadingError::NoSuchGlyph);
        }
        match hinting_options {
            HintingOptions::Unhinted => {},
            _ => return Err(GlyphLoadingError::Unsupported),
        }
        let record = match glyph_data(data, self.offset, glyph_id) {
            Some(g) => g,
            None => return Err(GlyphLoadingError::PlatformError),
        };
        if record.len() == 0 {
            return Ok(Vec::new());
        }
        match decode_simple_glyph(record) {
            Some(c) => Ok(c),
            None => Err(GlyphLoadingError::PlatformError),
        }
    }

    /// Returns the bounding box of a glyph in font units.
    pub fn typographic_bounds(&self, glyph_id: u32) -> (r: Result<FontRect, GlyphLoadingError>)
        ensures
            r == glyph_result(
                self.bytes(),
                self.directory() as int,
                glyph_id as int,
                bounds_of(self.bytes(), self.directory() as int, glyph_id as int),
            ),
    {
        let data = self.data.as_slice();
        if glyph_id >= glyph_count(data, self.offset) as u32 {
            return Err(GlyphLoadingError::NoSuchGlyph);
        }
        match glyph_bounds(data, self.offset, glyph_id) {
            Some(b) => Ok(b),
            None => Err(GlyphLoadingError::PlatformError),
        }
    }

    /// Returns the distance from the origin of a glyph to the next, in font units.
    pub fn advance(&self, glyph_id: u32) -> (r: Result<FontVector, GlyphLoadingError>)
        ensures
            r == glyph_result(
                self.bytes(),
                self.directory() as int,
                glyph_id as int,
                advance_vector(self.bytes(), self.directory() as int, glyph_id as int),
            ),
    {
        let data = self.data.as_slice();
        if glyph_id >= glyph_count(data, self.offset) as u32 {
            return Err(GlyphLoadingError::NoSuchGlyph);
        }
        match glyph_advance(data, self.offset, glyph_id) {
            Some(a) => Ok(FontVector { x: a as i32, y: 0 }),
            None => Err(GlyphLoadingError::PlatformError),
        }
    }

    /// Returns how far a glyph is displaced from the origin: no displacement
    /// for horizontal layout.
    pub fn origin(&self, glyph_id: u32) -> (r: Result<FontVector, GlyphLoadingError>)
        ensures
            r == glyph_result(
                self.bytes(),
                self.directory() as int,
                glyph_id as int,
                Some(FontVector { x: 0, y: 0 }),
            ),
    {
        if glyph_id >= glyph_count(self.data.as_slice(), self.offset) as u32 {
            return Err(GlyphLoadingError::NoSuchGlyph);
        }
        Ok(FontVector { x: 0, y: 0 })
    }

    /// Returns the metrics that apply to the whole font.
    pub fn metrics(&self) -> (r: Metrics)
        ensures
            r == metrics_of(self.bytes(), self.directory() as int),
    {
        font_metrics(self.data.as_slice(), self.offset)
    }

    /// Returns a handle from which the font can be loaded again.
    pub fn handle(&self) -> (r: Option<Handle>)
        ensures
            r matches Some(Handle::Memory { bytes, font_index }) && bytes@ == self.bytes()
                && font_index == self.index(),
    {
        Some(Handle::Memory { bytes: share(&self.data), font_index: self.index })
    }

    /// Returns the raw font data: for a member of a collection, the whole collection.
    pub fn copy_font_data(&self) -> (r: Option<Arc<Vec<u8>>>)
        ensures
            r matches Some(d) && d@ == self.bytes(),
    {
        Some(share(&self.data))
    }

    /// Whether this loader can hint in the requested way: it renders outlines
    /// as they are, so only unhinted output is supported, for outlines and for
    /// rasterization alike.
    pub fn supports_hinting_options(&self, hinting_options: HintingOptions, for_rasterization: bool) -> (r: bool)
        ensures
            r == (hinting_options is Unhinted),
    {
        match hinting_options {
            HintingOptions::Unhinted => true,
            _ => false,
        }
    }

    /// Fallback fonts for a text in a locale. This loader has no cascade: it
    /// claims the whole text and proposes no fonts.
    pub fn get_fallbacks(&self, text: &str, locale: &str) -> (r: FallbackResult)
        ensures
            r.valid_len == text.spec_bytes().len(),
            r.fonts@.len() == 0,
    {
        FallbackResult { fonts: Vec::new(), valid_len: text.as_bytes().len() }
    }

    /// Returns the raw contents of the table with the given four-byte tag.
    pub fn load_font_table(&self, table_tag: u32) -> (r: Option<Vec<u8>>)
        ensures
            match r {
                Some(t) => table_data(self.bytes(), self.directory() as int, table_tag) == Some(t@),
                None => table_data(self.bytes(), self.directory() as int, table_tag) is None,
            },
    {
        match find_table(self.data.as_slice(), self.offset, table_tag) {
            Some(t) => Some(slice_to_vec(t)),
            None => None,
        }
    }
}

} // verus!
