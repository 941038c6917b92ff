use std::sync::Arc;

use font_kit::error::{FontLoadingError, GlyphLoadingError};
use font_kit::font::Font;
use font_kit::metrics::{FontRect, FontVector};
use font_kit::outline::PathCommand;
use font_kit::properties::{FileType, Handle, HintingOptions, Stretch, Style, Weight};

type Table = ([u8; 4], Vec<u8>);

fn put16(v: &mut Vec<u8>, x: u16) {
    v.extend_from_slice(&x.to_be_bytes());
}

fn put32(v: &mut Vec<u8>, x: u32) {
    v.extend_from_slice(&x.to_be_bytes());
}

fn set16(v: &mut [u8], at: usize, x: u16) {
    v[at..at + 2].copy_from_slice(&x.to_be_bytes());
}

fn set32(v: &mut [u8], at: usize, x: u32) {
    v[at..at + 4].copy_from_slice(&x.to_be_bytes());
}

/// A `name` table with UTF-16BE Windows records for the given ids.
fn name_table(names: &[(u16, &str)]) -> Vec<u8> {
    let mut storage = Vec::new();
    let mut t = Vec::new();
    put16(&mut t, 0);
    put16(&mut t, names.len() as u16);
    put16(&mut t, 6 + 12 * names.len() as u16);
    for (id, s) in names {
        let start = storage.len() as u16;
        for unit in s.encode_utf16() {
            put16(&mut storage, unit);
        }
        put16(&mut t, 3);
        put16(&mut t, 1);
        put16(&mut t, 0x409);
        put16(&mut t, *id);
        put16(&mut t, storage.len() as u16 - start);
        put16(&mut t, start);
    }
    t.extend_from_slice(&storage);
    t
}

/// A `cmap` table whose format 4 subtable maps 'A' to glyph 1 and 'B' to glyph 2.
fn cmap_table() -> Vec<u8> {
    let mut t = Vec::new();
    put16(&mut t, 0);
    put16(&mut t, 1);
    put16(&mut t, 3);
    put16(&mut t, 1);
    put32(&mut t, 12);
    let mut sub = Vec::new();
    put16(&mut sub, 4);
    put16(&mut sub, 32);
    put16(&mut sub, 0);
    put16(&mut sub, 4);
    put16(&mut sub, 4);
    put16(&mut sub, 1);
    put16(&mut sub, 0);
    put16(&mut sub, 0x42);
    put16(&mut sub, 0xFFFF);
    put16(&mut sub, 0);
    put16(&mut sub, 0x41);
    put16(&mut sub, 0xFFFF);
    put16(&mut sub, 1u16.wrapping_sub(0x41));
    put16(&mut sub, 1);
    put16(&mut sub, 0);
    put16(&mut sub, 0);
    t.extend_from_slice(&sub);
    t
}

/// Glyph 1: a triangle of on-curve points with two-byte deltas. Glyph 3: a
/// contour with two off-curve points, written with one-byte and repeated
/// coordinates. Glyphs 0 and 2 have no outline.
fn glyf_table() -> Vec<u8> {
    let mut g = Vec::new();
    put16(&mut g, 1);
    put16(&mut g, 10);
    put16(&mut g, (-20i16) as u16);
    put16(&mut g, 590);
    put16(&mut g, 700);
    put16(&mut g, 2);
    put16(&mut g, 0);
    g.extend_from_slice(&[1, 1, 1]);
    for x in [10i16, 580, -290] {
        put16(&mut g, x as u16);
    }
    for y in [-20i16, 0, 720] {
        put16(&mut g, y as u16);
    }
    g.push(0);
    assert_eq!(g.len(), 30);
    put16(&mut g, 1);
    put16(&mut g, 0);
    put16(&mut g, 0);
    put16(&mut g, 100);
    put16(&mut g, 100);
    put16(&mut g, 3);
    put16(&mut g, 0);
    g.extend_from_slice(&[0x31, 0x32, 0x34, 0x23]);
    g.extend_from_slice(&[100, 100]);
    g.extend_from_slice(&[100]);
    g.push(0);
    assert_eq!(g.len(), 52);
    g
}

/// The tables of a four-glyph TrueType font.
fn tables(family: &str, monospace: bool, italic: bool) -> Vec<Table> {
    let mut head = vec![0u8; 54];
    set32(&mut head, 0, 0x0001_0000);
    set32(&mut head, 12, 0x5F0F_3CF5);
    set16(&mut head, 18, 1000);
    set16(&mut head, 36, (-50i16) as u16);
    set16(&mut head, 38, (-200i16) as u16);
    set16(&mut head, 40, 1000);
    set16(&mut head, 42, 900);
    set16(&mut head, 50, 0);

    let mut hhea = vec![0u8; 36];
    set32(&mut hhea, 0, 0x0001_0000);
    set16(&mut hhea, 4, 800);
    set16(&mut hhea, 6, (-200i16) as u16);
    set16(&mut hhea, 8, 90);
    set16(&mut hhea, 34, 2);

    let mut maxp = Vec::new();
    put32(&mut maxp, 0x0000_5000);
    put16(&mut maxp, 4);

    let mut hmtx = Vec::new();
    put16(&mut hmtx, 500);
    put16(&mut hmtx, 0);
    put16(&mut hmtx, if monospace { 500 } else { 600 });
    put16(&mut hmtx, 10);
    put16(&mut hmtx, 20);
    put16(&mut hmtx, 30);

    let glyf = glyf_table();
    let mut loca = Vec::new();
    for w in [0u16, 0, 15, 15, 26] {
        put16(&mut loca, w);
    }

    let mut post = vec![0u8; 32];
    set32(&mut post, 0, 0x0001_0000);
    set16(&mut post, 8, (-75i16) as u16);
    set16(&mut post, 10, 50);
    set32(&mut post, 12, if monospace { 1 } else { 0 });

    let mut os2 = vec![0u8; 96];
    set16(&mut os2, 0, 2);
    set16(&mut os2, 4, 700);
    set16(&mut os2, 6, 5);
    set16(&mut os2, 62, if italic { 1 } else { 0x40 });
    set16(&mut os2, 86, 500);
    set16(&mut os2, 88, 700);

    let full = format!("{} Bold", family);
    vec![
        (*b"OS/2", os2),
        (*b"cmap", cmap_table()),
        (*b"glyf", glyf),
        (*b"head", head),
        (*b"hhea", hhea),
        (*b"hmtx", hmtx),
        (*b"loca", loca),
        (*b"maxp", maxp),
        (*b"name", name_table(&[(1, family), (4, &full), (6, "Sample-Bold")])),
        (*b"post", post),
    ]
}

/// Lays out fonts as one file: a single font, or a `ttcf` collection.
fn assemble(fonts: &[Vec<Table>], collection: bool) -> Vec<u8> {
    let header = if collection { 12 + 4 * fonts.len() } else { 0 };
    let mut dir_at = Vec::new();
    let mut at = header;
    for f in fonts {
        dir_at.push(at);
        at += 12 + 16 * f.len();
    }
    let mut out = Vec::new();
    if collection {
        out.extend_from_slice(b"ttcf");
        put32(&mut out, 0x0001_0000);
        put32(&mut out, fonts.len() as u32);
        for d in &dir_at {
            put32(&mut out, *d as u32);
        }
    }
    let mut data = Vec::new();
    let mut records = Vec::new();
    for f in fonts {
        let mut recs = Vec::new();
        for (tag, bytes) in f {
            recs.push((*tag, at + data.len(), bytes.len()));
            data.extend_from_slice(bytes);
            while data.len() % 4 != 0 {
                data.push(0);
            }
        }
        records.push(recs);
    }
    for (f, recs) in fonts.iter().zip(records.iter()) {
        put32(&mut out, 0x0001_0000);
        put16(&mut out, f.len() as u16);
        put16(&mut out, 0);
        put16(&mut out, 0);
        put16(&mut out, 0);
        for (tag, offset, len) in recs {
            out.extend_from_slice(tag);
            put32(&mut out, 0);
            put32(&mut out, *offset as u32);
            put32(&mut out, *len as u32);
        }
    }
    out.extend_from_slice(&data);
    out
}

fn sans() -> Arc<Vec<u8>> {
    Arc::new(assemble(&[tables("Testa Sans", false, false)], false))
}

fn mono() -> Arc<Vec<u8>> {
    Arc::new(assemble(&[tables("Testa Mono", true, false)], false))
}

fn pair() -> Arc<Vec<u8>> {
    Arc::new(assemble(
        &[tables("Testa Sans", false, false), tables("Testa Serif", false, true)],
        true,
    ))
}

#[test]
fn single_font_index_one_is_refused_and_index_zero_loads() {
    let data = sans();
    assert!(matches!(Font::from_bytes(data.clone(), 1), Err(FontLoadingError::Parse)));
    let font = Font::from_bytes(data, 0).unwrap();
    assert_eq!(font.family_name(), "Testa Sans");
}

#[test]
fn malformed_data_is_a_parse_error() {
    let cases: Vec<Vec<u8>> = vec![
        vec![],
        vec![0, 1, 0],
        b"not a font at all".to_vec(),
        b"ttcf".to_vec(),
        {
            let mut v = b"ttcf".to_vec();
            put32(&mut v, 0x0001_0000);
            put32(&mut v, 1);
            put32(&mut v, 9999);
            v
        },
        {
            let mut v = b"ttcf".to_vec();
            put32(&mut v, 0x0001_0000);
            put32(&mut v, 1);
            put32(&mut v, 16);
            put32(&mut v, 0xDEAD_BEEF);
            v
        },
    ];
    for c in cases {
        assert!(matches!(Font::from_bytes(Arc::new(c), 0), Err(FontLoadingError::Parse)));
    }
}

#[test]
fn loading_is_repeatable() {
    let data = sans();
    let a = Font::from_bytes(data.clone(), 0).unwrap();
    let b = Font::from_bytes(data, 0).unwrap();
    assert_eq!(a.family_name(), b.family_name());
    assert_eq!(a.glyph_count(), b.glyph_count());
    assert_eq!(a.load_font_table(u32::from_be_bytes(*b"head")), b.load_font_table(u32::from_be_bytes(*b"head")));
}

#[test]
fn collection_members_load_by_index() {
    let data = pair();
    let first = Font::from_bytes(data.clone(), 0).unwrap();
    let second = Font::from_bytes(data.clone(), 1).unwrap();
    assert_eq!(first.family_name(), "Testa Sans");
    assert_eq!(second.family_name(), "Testa Serif");
    assert!(matches!(Font::from_bytes(data, 2), Err(FontLoadingError::Parse)));
}

#[test]
fn analyze_recognises_kinds() {
    assert_eq!(Font::analyze_bytes(sans()).unwrap(), FileType::Single);
    assert_eq!(Font::analyze_bytes(pair()).unwrap(), FileType::Collection(2));
    assert!(matches!(
        Font::analyze_bytes(Arc::new(b"garbage!".to_vec())),
        Err(FontLoadingError::UnknownFormat)
    ));
}

#[test]
fn monospace_flag() {
    assert!(Font::from_bytes(mono(), 0).unwrap().is_monospace());
    assert!(!Font::from_bytes(sans(), 0).unwrap().is_monospace());
}

#[test]
fn names() {
    let font = Font::from_bytes(sans(), 0).unwrap();
    assert_eq!(font.family_name(), "Testa Sans");
    assert_eq!(font.full_name(), "Testa Sans Bold");
    assert_eq!(font.postscript_name(), Some("Sample-Bold".to_string()));
}

#[test]
fn missing_names_are_empty() {
    let mut t = tables("X", false, false);
    for entry in t.iter_mut() {
        if &entry.0 == b"name" {
            entry.1 = name_table(&[]);
        }
    }
    let font = Font::from_bytes(Arc::new(assemble(&[t], false)), 0).unwrap();
    assert_eq!(font.family_name(), "");
    assert_eq!(font.full_name(), "");
    assert_eq!(font.postscript_name(), None);
}

#[test]
fn properties_from_os2() {
    let upright = Font::from_bytes(sans(), 0).unwrap().properties();
    assert_eq!(upright.weight, Weight(700));
    assert_eq!(upright.stretch, Stretch(1000));
    assert_eq!(upright.style, Style::Normal);
    let italic = Font::from_bytes(pair(), 1).unwrap().properties();
    assert_eq!(italic.style, Style::Italic);
}

#[test]
fn glyph_count_from_maxp() {
    assert_eq!(Font::from_bytes(sans(), 0).unwrap().glyph_count(), 4);
}

#[test]
fn advances_in_and_out_of_range() {
    let font = Font::from_bytes(sans(), 0).unwrap();
    assert_eq!(font.advance(0), Ok(FontVector { x: 500, y: 0 }));
    assert_eq!(font.advance(1), Ok(FontVector { x: 600, y: 0 }));
    assert_eq!(font.advance(3), Ok(FontVector { x: 600, y: 0 }));
    assert_eq!(font.advance(4), Err(GlyphLoadingError::NoSuchGlyph));
    assert_eq!(font.advance(u32::MAX), Err(GlyphLoadingError::NoSuchGlyph));
}

#[test]
fn bounds_in_and_out_of_range() {
    let font = Font::from_bytes(sans(), 0).unwrap();
    assert_eq!(
        font.typographic_bounds(1),
        Ok(FontRect { min_x: 10, min_y: -20, max_x: 590, max_y: 700 })
    );
    assert_eq!(
        font.typographic_bounds(0),
        Ok(FontRect { min_x: 0, min_y: 0, max_x: 0, max_y: 0 })
    );
    for g in 0..4 {
        assert!(font.typographic_bounds(g).is_ok());
        assert!(font.advance(g).is_ok());
    }
    assert_eq!(font.typographic_bounds(4), Err(GlyphLoadingError::NoSuchGlyph));
}

#[test]
fn missing_metric_tables_are_glyph_errors() {
    let t: Vec<Table> = tables("X", false, false)
        .into_iter()
        .filter(|(tag, _)| tag != b"hmtx" && tag != b"glyf")
        .collect();
    let font = Font::from_bytes(Arc::new(assemble(&[t], false)), 0).unwrap();
    assert_eq!(font.advance(0), Err(GlyphLoadingError::PlatformError));
    assert_eq!(font.typographic_bounds(1), Err(GlyphLoadingError::PlatformError));
    assert_eq!(font.advance(9), Err(GlyphLoadingError::NoSuchGlyph));
}

#[test]
fn origin_is_zero() {
    let font = Font::from_bytes(sans(), 0).unwrap();
    assert_eq!(font.origin(2), Ok(FontVector { x: 0, y: 0 }));
    assert_eq!(font.origin(4), Err(GlyphLoadingError::NoSuchGlyph));
}

#[test]
fn font_metrics() {
    let m = Font::from_bytes(sans(), 0).unwrap().metrics();
    assert_eq!(m.units_per_em, 1000);
    assert_eq!(m.ascent, 800);
    assert_eq!(m.descent, -200);
    assert_eq!(m.line_gap, 90);
    assert_eq!(m.underline_position, -75);
    assert_eq!(m.underline_thickness, 50);
    assert_eq!(m.x_height, 500);
    assert_eq!(m.cap_height, 700);
    assert_eq!(m.bounding_box, FontRect { min_x: -50, min_y: -200, max_x: 1000, max_y: 900 });
}

#[test]
fn table_lengths_match_directory() {
    let font = Font::from_bytes(sans(), 0).unwrap();
    for (tag, bytes) in tables("Testa Sans", false, false) {
        let got = font.load_font_table(u32::from_be_bytes(tag)).unwrap();
        assert_eq!(got.len(), bytes.len());
        assert_eq!(got, bytes);
    }
    assert_eq!(font.load_font_table(u32::from_be_bytes(*b"GSUB")), None);
}

#[test]
fn tables_of_second_collection_member() {
    let font = Font::from_bytes(pair(), 1).unwrap();
    let name = font.load_font_table(u32::from_be_bytes(*b"name")).unwrap();
    assert_eq!(name, name_table(&[(1, "Testa Serif"), (4, "Testa Serif Bold"), (6, "Sample-Bold")]));
}

#[test]
fn characters_map_to_glyphs() {
    let font = Font::from_bytes(sans(), 0).unwrap();
    assert_eq!(font.glyph_for_char('A'), Some(1));
    assert_eq!(font.glyph_for_char('B'), Some(2));
    assert_eq!(font.glyph_for_char('Z'), None);
}

#[test]
fn glyphs_by_post_name() {
    let font = Font::from_bytes(sans(), 0).unwrap();
    assert_eq!(font.glyph_by_name(".notdef"), Some(0));
    assert_eq!(font.glyph_by_name("space"), Some(3));
    assert_eq!(font.glyph_by_name("exclam"), None);
    assert_eq!(font.glyph_by_name("no such glyph"), None);
}

#[test]
fn fallbacks_claim_the_whole_text() {
    let font = Font::from_bytes(sans(), 0).unwrap();
    let r = font.get_fallbacks("héllo", "en-US");
    assert_eq!(r.valid_len, "héllo".len());
    assert_eq!(r.valid_len, 6);
    assert!(r.fonts.is_empty());
    assert_eq!(font.get_fallbacks("", "").valid_len, 0);
}

#[test]
fn hinting_support() {
    let font = Font::from_bytes(sans(), 0).unwrap();
    assert!(font.supports_hinting_options(HintingOptions::Unhinted, false));
    assert!(font.supports_hinting_options(HintingOptions::Unhinted, true));
    assert!(!font.supports_hinting_options(HintingOptions::Full(640), true));
    assert!(!font.supports_hinting_options(HintingOptions::Vertical(640), false));
}

#[test]
fn handles_round_trip() {
    let data = pair();
    let font = Font::from_bytes(data.clone(), 1).unwrap();
    let handle = font.handle().unwrap();
    match &handle {
        Handle::Memory { bytes, font_index } => {
            assert_eq!(**bytes, *data);
            assert_eq!(*font_index, 1);
        }
        Handle::Path { .. } => panic!("expected a memory handle"),
    }
    let again = Font::from_handle(&handle).unwrap();
    assert_eq!(again.family_name(), "Testa Serif");
    let path = Handle::Path { path: "/fonts/a.ttf".to_string(), font_index: 0 };
    assert!(matches!(Font::from_handle(&path), Err(FontLoadingError::NoFilesystem)));
}

#[test]
fn data_and_native_font_share_bytes() {
    let data = sans();
    let font = Font::from_bytes(data.clone(), 0).unwrap();
    assert_eq!(*font.copy_font_data().unwrap(), *data);
    let native = font.native_font();
    assert_eq!(native.family_name(), "Testa Sans");
    let back = Font::from_native_font(native);
    assert_eq!(back.glyph_count(), 4);
}

fn v(x: i32, y: i32) -> FontVector {
    FontVector { x, y }
}

#[test]
fn outline_of_a_triangle() {
    let font = Font::from_bytes(sans(), 0).unwrap();
    assert_eq!(
        font.outline(1, HintingOptions::Unhinted).unwrap(),
        vec![
            PathCommand::MoveTo(v(10, -20)),
            PathCommand::LineTo(v(590, -20)),
            PathCommand::LineTo(v(300, 700)),
            PathCommand::Close,
        ]
    );
}

#[test]
fn outline_with_off_curve_points() {
    let font = Font::from_bytes(sans(), 0).unwrap();
    assert_eq!(
        font.outline(3, HintingOptions::Unhinted).unwrap(),
        vec![
            PathCommand::MoveTo(v(0, 0)),
            PathCommand::QuadTo(v(100, 0), v(100, 50)),
            PathCommand::QuadTo(v(100, 100), v(0, 100)),
            PathCommand::Close,
        ]
    );
}

#[test]
fn notdef_and_space_outlines_are_empty() {
    let font = Font::from_bytes(sans(), 0).unwrap();
    assert_eq!(font.outline(0, HintingOptions::Unhinted), Ok(vec![]));
    assert_eq!(font.outline(2, HintingOptions::Unhinted), Ok(vec![]));
}

#[test]
fn outline_errors() {
    let font = Font::from_bytes(sans(), 0).unwrap();
    assert_eq!(font.outline(4, HintingOptions::Unhinted), Err(GlyphLoadingError::NoSuchGlyph));
    assert_eq!(font.outline(1, HintingOptions::Full(640)), Err(GlyphLoadingError::Unsupported));
}

#[test]
fn every_contour_is_closed_once() {
    let font = Font::from_bytes(pair(), 1).unwrap();
    for g in 0..font.glyph_count() {
        let cmds = font.outline(g, HintingOptions::Unhinted).unwrap();
        let mut open = false;
        for c in cmds {
            match c {
                PathCommand::MoveTo(_) => {
                    assert!(!open);
                    open = true;
                }
                PathCommand::Close => {
                    assert!(open);
                    open = false;
                }
                _ => assert!(open),
            }
        }
        assert!(!open);
    }
}

fn replace(t: &mut Vec<Table>, tag: &[u8; 4], bytes: Vec<u8>) {
    for entry in t.iter_mut() {
        if &entry.0 == tag {
            entry.1 = bytes.clone();
        }
    }
}

fn load(t: Vec<Table>) -> Font {
    Font::from_bytes(Arc::new(assemble(&[t], false)), 0).unwrap()
}

#[test]
fn bare_version_tag_is_a_parse_error() {
    assert!(matches!(Font::from_bytes(Arc::new(vec![0, 1, 0, 0]), 0), Err(FontLoadingError::Parse)));
    let mut v = Vec::new();
    put32(&mut v, 0x0001_0000);
    put16(&mut v, 1);
    put16(&mut v, 0);
    put16(&mut v, 0);
    put16(&mut v, 0);
    v.extend_from_slice(b"head");
    put32(&mut v, 0);
    put32(&mut v, 28);
    put32(&mut v, 54);
    assert!(matches!(Font::from_bytes(Arc::new(v), 0), Err(FontLoadingError::Parse)));
}

#[test]
fn name_string_outside_its_table_gives_no_names() {
    let mut name = Vec::new();
    put16(&mut name, 0);
    put16(&mut name, 1);
    put16(&mut name, 18);
    put16(&mut name, 1);
    put16(&mut name, 0);
    put16(&mut name, 0);
    put16(&mut name, 1);
    put16(&mut name, 40);
    put16(&mut name, 0);
    let mut t = tables("X", false, false);
    replace(&mut t, b"name", name);
    let font = load(t);
    assert_eq!(font.family_name(), "");
    assert_eq!(font.postscript_name(), None);
}

#[test]
fn overflowing_format12_group_maps_nothing() {
    let mut cmap = Vec::new();
    put16(&mut cmap, 0);
    put16(&mut cmap, 1);
    put16(&mut cmap, 3);
    put16(&mut cmap, 10);
    put32(&mut cmap, 12);
    put16(&mut cmap, 12);
    put16(&mut cmap, 0);
    put32(&mut cmap, 28);
    put32(&mut cmap, 0);
    put32(&mut cmap, 1);
    put32(&mut cmap, 0x41);
    put32(&mut cmap, 0x42);
    put32(&mut cmap, 0xFFFF_FFFF);
    let mut t = tables("X", false, false);
    replace(&mut t, b"cmap", cmap);
    let font = load(t);
    assert_eq!(font.glyph_for_char('B'), None);
    assert_eq!(font.glyph_for_char('A'), None);
}

#[test]
fn missing_os2_gives_css_defaults() {
    let t: Vec<Table> = tables("X", false, true).into_iter().filter(|(tag, _)| tag != b"OS/2").collect();
    let p = load(t).properties();
    assert_eq!(p.stretch, Stretch(1000));
    assert_eq!(p.weight, Weight(400));
    assert_eq!(p.style, Style::Normal);
}

#[test]
fn properties_are_brought_into_css_ranges() {
    let mut t = tables("X", false, false);
    let mut os2 = vec![0u8; 96];
    set16(&mut os2, 0, 2);
    set16(&mut os2, 4, 0);
    set16(&mut os2, 6, 9);
    replace(&mut t, b"OS/2", os2);
    let p = load(t).properties();
    assert_eq!(p.weight, Weight(1));
    assert_eq!(p.stretch, Stretch(2000));
    let mut t = tables("X", false, false);
    let mut os2 = vec![0u8; 96];
    set16(&mut os2, 0, 2);
    set16(&mut os2, 4, 1023);
    set16(&mut os2, 6, 1);
    replace(&mut t, b"OS/2", os2);
    let p = load(t).properties();
    assert_eq!(p.weight, Weight(1000));
    assert_eq!(p.stretch, Stretch(500));
}

#[test]
fn zero_contour_glyph_has_empty_outline() {
    let mut t = tables("X", false, false);
    let mut glyf = glyf_table();
    glyf.extend_from_slice(&[0u8; 10]);
    let mut loca = Vec::new();
    for w in [0u16, 0, 15, 26, 31] {
        put16(&mut loca, w);
    }
    replace(&mut t, b"glyf", glyf);
    replace(&mut t, b"loca", loca);
    let font = load(t);
    assert_eq!(font.outline(3, HintingOptions::Unhinted), Ok(vec![]));
    assert_eq!(font.outline(2, HintingOptions::Unhinted).unwrap().len(), 4);
}

#[test]
fn composite_glyph_is_a_platform_error() {
    let mut t = tables("X", false, false);
    let mut glyf = glyf_table();
    glyf.extend_from_slice(&[0xFF, 0xFF, 0, 0, 0, 0, 0, 0, 0, 0]);
    let mut loca = Vec::new();
    for w in [0u16, 0, 15, 26, 31] {
        put16(&mut loca, w);
    }
    replace(&mut t, b"glyf", glyf);
    replace(&mut t, b"loca", loca);
    let font = load(t);
    assert_eq!(font.outline(3, HintingOptions::Unhinted), Err(GlyphLoadingError::PlatformError));
}
