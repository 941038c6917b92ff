//! Reading the sfnt container: big-endian fields, the single-font or collection
//! header, and the table directory of one font.

use vstd::prelude::*;
use vstd::slice::slice_subrange;

verus! {

/// Version tag of a TrueType-outline font (`0x00010000`).
pub const SFNT_VERSION_TRUETYPE: u32 = 0x0001_0000;

/// Version tag `OTTO` of a font with CFF outlines.
pub const SFNT_VERSION_OTTO: u32 = 0x4F54_544F;

/// Version tag `true` of an Apple TrueType font.
pub const SFNT_VERSION_TRUE: u32 = 0x7472_7565;

/// Header tag `ttcf` of a font collection.
pub const COLLECTION_TAG: u32 = 0x7474_6366;

/// Size of one record of the table directory.
pub const TABLE_RECORD_SIZE: u64 = 16;

/// Offset of the first table record from the start of the directory.
pub const TABLE_RECORDS_START: u64 = 12;

/// The big-endian 16-bit value at `pos`, if two bytes are there.
pub open spec fn be_u16(s: Seq<u8>, pos: int) -> Option<u16> {
    if 0 <= pos && pos + 2 <= s.len() {
        Some((s[pos] as int * 0x100 + s[pos + 1] as int) as u16)
    } else {
        None
    }
}

/// The big-endian 32-bit value at `pos`, if four bytes are there.
pub open spec fn be_u32(s: Seq<u8>, pos: int) -> Option<u32> {
    if 0 <= pos && pos + 4 <= s.len() {
        Some(
            (s[pos] as int * 0x100_0000 + s[pos + 1] as int * 0x1_0000 + s[pos + 2] as int * 0x100
                + s[pos + 3] as int) as u32,
        )
    } else {
        None
    }
}

/// A 16-bit field read as a two's complement signed value.
pub open spec fn signed16(x: u16) -> int {
    if x < 0x8000 {
        x as int
    } else {
        x as int - 0x1_0000
    }
}

pub open spec fn or_zero32(v: Option<u32>) -> u32 {
    match v {
        Some(x) => x,
        None => 0,
    }
}

/// Whether a table directory (of a single font) starts at `offset`.
pub open spec fn is_font_at(s: Seq<u8>, offset: int) -> bool {
    let tag = or_zero32(be_u32(s, offset));
    tag == SFNT_VERSION_TRUETYPE || tag == SFNT_VERSION_OTTO || tag == SFNT_VERSION_TRUE
}

/// Whether the data starts with a collection header.
pub open spec fn is_collection(s: Seq<u8>) -> bool {
    be_u32(s, 0) == Some(COLLECTION_TAG)
}

/// The number of fonts the data holds: the collection's count, one for a
/// single font, none for anything else.
pub open spec fn font_count(s: Seq<u8>) -> nat {
    if is_collection(s) {
        or_zero32(be_u32(s, 8)) as nat
    } else if is_font_at(s, 0) {
        1
    } else {
        0
    }
}

/// Where the header places the table directory of font `index`.
pub open spec fn subfont_offset(s: Seq<u8>, index: int) -> Option<u32> {
    if index < 0 || index >= font_count(s) {
        None
    } else if is_font_at(s, 0) {
        Some(0)
    } else {
        be_u32(s, 12 + 4 * index)
    }
}

/// The offset of the table directory of font `index`, when the header places
/// one there and a font version tag starts it.
pub open spec fn font_offset(s: Seq<u8>, index: int) -> Option<u32> {
    match subfont_offset(s, index) {
        Some(off) => if is_font_at(s, off as int) {
            Some(off)
        } else {
            None
        },
        None => None,
    }
}

/// Start of the record of table `i` in the directory at `base`.
pub open spec fn record_pos(base: int, i: int) -> int {
    base + TABLE_RECORDS_START + TABLE_RECORD_SIZE * i
}

/// The first record at or after `i`, below `n`, whose tag is `tag`.
pub open spec fn find_record(s: Seq<u8>, base: int, tag: u32, i: int, n: int) -> Option<int>
    decreases n - i,
{
    if i >= n {
        None
    } else if be_u32(s, record_pos(base, i)) == Some(tag) {
        Some(i)
    } else {
        find_record(s, base, tag, i + 1, n)
    }
}

/// The start and the declared length of table `tag`, as the directory at
/// `base` records them (the first record with that tag).
pub open spec fn table_range(s: Seq<u8>, base: int, tag: u32) -> Option<(u32, u32)> {
    match be_u16(s, base + 4) {
        None => None,
        Some(n) => match find_record(s, base, tag, 0, n as int) {
            None => None,
            Some(i) => match (be_u32(s, record_pos(base, i) + 8), be_u32(s, record_pos(base, i) + 12)) {
                (Some(start), Some(len)) => Some((start, len)),
                _ => None,
            },
        },
    }
}

/// The bytes of table `tag`, when its record lies wholly inside the data.
pub open spec fn table_data(s: Seq<u8>, base: int, tag: u32) -> Option<Seq<u8>> {
    match table_range(s, base, tag) {
        Some((start, len)) => if start as int + len as int <= s.len() {
            Some(s.subrange(start as int, start as int + len as int))
        } else {
            None
        },
        None => None,
    }
}

/// Reads the big-endian 16-bit value at `pos`.
pub fn read_u16(data: &[u8], pos: u64) -> (r: Option<u16>)
    ensures
        r == be_u16(data@, pos as int),
        data@.len() <= usize::MAX,
{
    let len = data.len() as u64;
    if pos < len && len - pos >= 2 {
        let p = pos as usize;
        let v: u16 = (data[p] as u16) * 0x100 + data[p + 1] as u16;
        Some(v)
    } else {
        None
    }
}

/// Reads the big-endian 32-bit value at `pos`.
pub fn read_u32(data: &[u8], pos: u64) -> (r: Option<u32>)
    ensures
        r == be_u32(data@, pos as int),
{
    let len = data.len() as u64;
    if pos < len && len - pos >= 4 {
        let p = pos as usize;
        let v: u32 = (data[p] as u32) * 0x100_0000 + (data[p + 1] as u32) * 0x1_0000
            + (data[p + 2] as u32) * 0x100 + data[p + 3] as u32;
        Some(v)
    } else {
        None
    }
}

/// Converts a 16-bit field to its two's complement value.
pub fn to_signed16(x: u16) -> (r: i32)
    ensures
        r as int == signed16(x),
{
    if x < 0x8000 {
        x as i32
    } else {
        x as i32 - 0x1_0000
    }
}

/// Finds the bytes of table `tag` in the directory at `base`.
pub fn find_table(data: &[u8], base: u32, tag: u32) -> (r: Option<&[u8]>)
    ensures
        match r {
            Some(t) => table_data(data@, base as int, tag) == Some(t@),
            None => table_data(data@, base as int, tag).is_none(),
        },
{
    let n = match read_u16(data, base as u64 + 4) {
        Some(n) => n,
        None => return None,
    };
    let mut i: u64 = 0;
    while i < n as u64
        invariant
            i <= n,
            be_u16(data@, base as int + 4) == Some(n),
            find_record(data@, base as int, tag, i as int, n as int) == find_record(
                data@,
                base as int,
                tag,
                0,
                n as int,
            ),
        decreases n - i,
    {
        let pos = base as u64 + TABLE_RECORDS_START + TABLE_RECORD_SIZE * i;
        assert(pos as int == record_pos(base as int, i as int));
        if read_u32(data, pos) == Some(tag) {
            let start = match read_u32(data, pos + 8) {
                Some(v) => v,
                None => return None,
            };
            let len = match read_u32(data, pos + 12) {
                Some(v) => v,
                None => return None,
            };
            if start as u64 + len as u64 <= data.len() as u64 {
                let t = slice_subrange(data, start as usize, start as usize + len as usize);
                return Some(t);
            } else {
                return None;
            }
        }
        i = i + 1;
    }
    None
}

} // verus!

verus! {

/// Tag `maxp`.
pub const TAG_MAXP: u32 = 0x6D61_7870;
/// Tag `hhea`.
pub const TAG_HHEA: u32 = 0x6868_6561;
/// Tag `hmtx`.
pub const TAG_HMTX: u32 = 0x686D_7478;
/// Tag `head`.
pub const TAG_HEAD: u32 = 0x6865_6164;
/// Tag `loca`.
pub const TAG_LOCA: u32 = 0x6C6F_6361;
/// Tag `glyf`.
pub const TAG_GLYF: u32 = 0x676C_7966;
/// Tag `post`.
pub const TAG_POST: u32 = 0x706F_7374;
/// Tag `OS/2`.
pub const TAG_OS2: u32 = 0x4F53_2F32;

/// A 16-bit field of a table that may be absent.
pub open spec fn field16(t: Option<Seq<u8>>, pos: int) -> Option<u16> {
    match t {
        Some(t) => be_u16(t, pos),
        None => None,
    }
}

/// A 32-bit field of a table that may be absent.
pub open spec fn field32(t: Option<Seq<u8>>, pos: int) -> Option<u32> {
    match t {
        Some(t) => be_u32(t, pos),
        None => None,
    }
}

/// A signed 16-bit field, zero where it cannot be read.
pub open spec fn signed_or_zero(v: Option<u16>) -> int {
    match v {
        Some(x) => signed16(x),
        None => 0,
    }
}

/// The glyph count of the `maxp` table, zero without one.
pub open spec fn glyph_count_of(s: Seq<u8>, base: int) -> u16 {
    match field16(table_data(s, base, TAG_MAXP), 4) {
        Some(n) => n,
        None => 0,
    }
}

/// The advance width of glyph `g`: its own long metric, or the last one for
/// glyphs past the long metrics.
pub open spec fn advance_of(s: Seq<u8>, base: int, g: int) -> Option<u16> {
    match (field16(table_data(s, base, TAG_HHEA), 34), table_data(s, base, TAG_HMTX)) {
        (Some(n), Some(hmtx)) => if n == 0 {
            None
        } else if g < n {
            be_u16(hmtx, 4 * g)
        } else {
            be_u16(hmtx, 4 * (n - 1))
        },
        _ => None,
    }
}

/// The byte span of glyph `g` in `glyf`, as `loca` gives it in the format
/// that `head` names.
pub open spec fn glyph_span(s: Seq<u8>, base: int, g: int) -> Option<(int, int)> {
    let loca = table_data(s, base, TAG_LOCA);
    match field16(table_data(s, base, TAG_HEAD), 50) {
        Some(format) => if format == 0 {
            match (field16(loca, 2 * g), field16(loca, 2 * g + 2)) {
                (Some(a), Some(b)) => Some((2 * a, 2 * b)),
                _ => None,
            }
        } else {
            match (field32(loca, 4 * g), field32(loca, 4 * g + 4)) {
                (Some(a), Some(b)) => Some((a as int, b as int)),
                _ => None,
            }
        },
        None => None,
    }
}

/// A rectangle made of four signed 16-bit fields.
pub open spec fn rect_of(x0: u16, y0: u16, x1: u16, y1: u16) -> crate::metrics::FontRect {
    crate::metrics::FontRect {
        min_x: signed16(x0) as i32,
        min_y: signed16(y0) as i32,
        max_x: signed16(x1) as i32,
        max_y: signed16(y1) as i32,
    }
}

/// The bounding box that the glyph's `glyf` header records; the empty box at
/// the origin for a glyph without an outline.
pub open spec fn bounds_of(s: Seq<u8>, base: int, g: int) -> Option<crate::metrics::FontRect> {
    match (glyph_span(s, base, g), table_data(s, base, TAG_GLYF)) {
        (Some((a, b)), Some(glyf)) => if a == b {
            Some(rect_of(0, 0, 0, 0))
        } else if a > b {
            None
        } else {
            match (be_u16(glyf, a + 2), be_u16(glyf, a + 4), be_u16(glyf, a + 6), be_u16(glyf, a + 8)) {
                (Some(x0), Some(y0), Some(x1), Some(y1)) => Some(rect_of(x0, y0, x1, y1)),
                _ => None,
            }
        },
        _ => None,
    }
}

/// The font-wide metrics, each field zero where its table is absent.
pub open spec fn metrics_of(s: Seq<u8>, base: int) -> crate::metrics::Metrics {
    let head = table_data(s, base, TAG_HEAD);
    let hhea = table_data(s, base, TAG_HHEA);
    let post = table_data(s, base, TAG_POST);
    let os2 = table_data(s, base, TAG_OS2);
    crate::metrics::Metrics {
        units_per_em: match field16(head, 18) {
            Some(u) => u as u32,
            None => 0,
        },
        ascent: signed_or_zero(field16(hhea, 4)) as i32,
        descent: signed_or_zero(field16(hhea, 6)) as i32,
        line_gap: signed_or_zero(field16(hhea, 8)) as i32,
        underline_position: signed_or_zero(field16(post, 8)) as i32,
        underline_thickness: signed_or_zero(field16(post, 10)) as i32,
        cap_height: signed_or_zero(field16(os2, 88)) as i32,
        x_height: signed_or_zero(field16(os2, 86)) as i32,
        bounding_box: crate::metrics::FontRect {
            min_x: signed_or_zero(field16(head, 36)) as i32,
            min_y: signed_or_zero(field16(head, 38)) as i32,
            max_x: signed_or_zero(field16(head, 40)) as i32,
            max_y: signed_or_zero(field16(head, 42)) as i32,
        },
    }
}

/// Reads a 16-bit field of a table that may be absent.
pub fn table_u16(t: Option<&[u8]>, pos: u64) -> (r: Option<u16>)
    ensures
        r == field16(
            match t {
                Some(t) => Some(t@),
                None => None,
            },
            pos as int,
        ),
{
    match t {
        Some(t) => read_u16(t, pos),
        None => None,
    }
}

/// Reads a 32-bit field of a table that may be absent.
pub fn table_u32(t: Option<&[u8]>, pos: u64) -> (r: Option<u32>)
    ensures
        r == field32(
            match t {
                Some(t) => Some(t@),
                None => None,
            },
            pos as int,
        ),
{
    match t {
        Some(t) => read_u32(t, pos),
        None => None,
    }
}

/// Reads a signed 16-bit field, zero where it cannot be read.
pub fn signed_field(v: Option<u16>) -> (r: i32)
    ensures
        r as int == signed_or_zero(v),
{
    match v {
        Some(x) => to_signed16(x),
        None => 0,
    }
}

/// The glyph count that `maxp` records.
pub fn glyph_count(data: &[u8], base: u32) -> (r: u16)
    ensures
        r == glyph_count_of(data@, base as int),
{
    match table_u16(find_table(data, base, TAG_MAXP), 4) {
        Some(n) => n,
        None => 0,
    }
}

/// The advance width of glyph `g`.
pub fn glyph_advance(data: &[u8], base: u32, g: u32) -> (r: Option<u16>)
    ensures
        r == advance_of(data@, base as int, g as int),
{
    let n = table_u16(find_table(data, base, TAG_HHEA), 34);
    let hmtx = find_table(data, base, TAG_HMTX);
    match (n, hmtx) {
        (Some(n), Some(hmtx)) => {
            if n == 0 {
                None
            } else if g < n as u32 {
                read_u16(hmtx, 4 * g as u64)
            } else {
                read_u16(hmtx, 4 * (n as u64 - 1))
            }
        },
        _ => None,
    }
}

/// The byte span of glyph `g` in `glyf`.
pub fn glyph_location(data: &[u8], base: u32, g: u32) -> (r: Option<(u64, u64)>)
    ensures
        match r {
            Some((a, b)) => glyph_span(data@, base as int, g as int) == Some((a as int, b as int)),
            None => glyph_span(data@, base as int, g as int).is_none(),
        },
{
    let loca = find_table(data, base, TAG_LOCA);
    let format = match table_u16(find_table(data, base, TAG_HEAD), 50) {
        Some(f) => f,
        None => return None,
    };
    if format == 0 {
        match (table_u16(loca, 2 * g as u64), table_u16(loca, 2 * g as u64 + 2)) {
            (Some(a), Some(b)) => Some((2 * a as u64, 2 * b as u64)),
            _ => None,
        }
    } else {
        match (table_u32(loca, 4 * g as u64), table_u32(loca, 4 * g as u64 + 4)) {
            (Some(a), Some(b)) => Some((a as u64, b as u64)),
            _ => None,
        }
    }
}

/// The bounding box of glyph `g` from its `glyf` header.
pub fn glyph_bounds(data: &[u8], base: u32, g: u32) -> (r: Option<crate::metrics::FontRect>)
    ensures
        r == bounds_of(data@, base as int, g as int),
{
    let span = glyph_location(data, base, g);
    let glyf = find_table(data, base, TAG_GLYF);
    match (span, glyf) {
        (Some((a, b)), Some(glyf)) => {
            if a == b {
                Some(crate::metrics::FontRect { min_x: 0, min_y: 0, max_x: 0, max_y: 0 })
            } else if a > b {
                None
            } else {
                match (read_u16(glyf, a + 2), read_u16(glyf, a + 4), read_u16(glyf, a + 6), read_u16(glyf, a + 8)) {
                    (Some(x0), Some(y0), Some(x1), Some(y1)) => Some(
                        crate::metrics::FontRect {
                            min_x: to_signed16(x0),
                            min_y: to_signed16(y0),
                            max_x: to_signed16(x1),
                            max_y: to_signed16(y1),
                        },
                    ),
                    _ => None,
                }
            }
        },
        _ => None,
    }
}

/// The font-wide metrics of the directory at `base`.
pub fn font_metrics(data: &[u8], base: u32) -> (r: crate::metrics::Metrics)
    ensures
        r == metrics_of(data@, base as int),
{
    let head = find_table(data, base, TAG_HEAD);
    let hhea = find_table(data, base, TAG_HHEA);
    let post = find_table(data, base, TAG_POST);
    let os2 = find_table(data, base, TAG_OS2);
    let units_per_em: u32 = match table_u16(head, 18) {
        Some(u) => u as u32,
        None => 0,
    };
    crate::metrics::Metrics {
        units_per_em,
        ascent: signed_field(table_u16(hhea, 4)),
        descent: signed_field(table_u16(hhea, 6)),
        line_gap: signed_field(table_u16(hhea, 8)),
        underline_position: signed_field(table_u16(post, 8)),
        underline_thickness: signed_field(table_u16(post, 10)),
        cap_height: signed_field(table_u16(os2, 88)),
        x_height: signed_field(table_u16(os2, 86)),
        bounding_box: crate::metrics::FontRect {
            min_x: signed_field(table_u16(head, 36)),
            min_y: signed_field(table_u16(head, 38)),
            max_x: signed_field(table_u16(head, 40)),
            max_y: signed_field(table_u16(head, 42)),
        },
    }
}

} // verus!

verus! {

/// Whether two byte strings are equal.
pub fn bytes_equal(a: &[u8], b: &[u8]) -> (r: bool)
    ensures
        r == (a@ == b@),
{
    if a.len() != b.len() {
        return false;
    }
    let mut i: usize = 0;
    while i < a.len()
        invariant
            a@.len() == b@.len(),
            i <= a@.len(),
            forall|j: int| 0 <= j < i ==> a@[j] == b@[j],
        decreases a.len() - i,
    {
        if a[i] != b[i] {
            return false;
        }
        i = i + 1;
    }
    proof {
        assert(a@ =~= b@);
    }
    true
}

proof fn lemma_find_record_in_range(s: Seq<u8>, base: int, tag: u32, i: int, n: int)
    ensures
        find_record(s, base, tag, i, n) matches Some(j) ==> i <= j < n && be_u32(s, record_pos(base, j))
            == Some(tag),
    decreases n - i,
{
    if i < n {
        lemma_find_record_in_range(s, base, tag, i + 1, n);
    }
}

/// In a sound directory, a table that has a record is found, and holds
/// exactly as many bytes as that record declares.
pub proof fn table_length_matches_directory(s: Seq<u8>, base: int, tag: u32)
    requires
        directory_sound(s, base),
        find_record(s, base, tag, 0, or_zero16(be_u16(s, base + 4)) as int) is Some,
    ensures
        table_range(s, base, tag) is Some,
        table_data(s, base, tag) is Some,
        table_data(s, base, tag).unwrap().len() == table_range(s, base, tag).unwrap().1,
{
    let n = or_zero16(be_u16(s, base + 4)) as int;
    lemma_find_record_in_range(s, base, tag, 0, n);
    let j = find_record(s, base, tag, 0, n).unwrap();
    assert(record_sound(s, base, j));
}

} // verus!

verus! {

/// The `glyf` record of glyph `g`, when `loca` places it inside `glyf`.
pub open spec fn glyph_record(s: Seq<u8>, base: int, g: int) -> Option<Seq<u8>> {
    match (glyph_span(s, base, g), table_data(s, base, TAG_GLYF)) {
        (Some((a, b)), Some(glyf)) => if a <= b && b <= glyf.len() {
            Some(glyf.subrange(a, b))
        } else {
            None
        },
        _ => None,
    }
}

/// The `glyf` record of glyph `g`.
pub fn glyph_data(data: &[u8], base: u32, g: u32) -> (r: Option<&[u8]>)
    ensures
        match r {
            Some(t) => glyph_record(data@, base as int, g as int) == Some(t@),
            None => glyph_record(data@, base as int, g as int) is None,
        },
{
    let span = glyph_location(data, base, g);
    let glyf = find_table(data, base, TAG_GLYF);
    match (span, glyf) {
        (Some((a, b)), Some(glyf)) => {
            if a <= b && b <= glyf.len() as u64 {
                Some(slice_subrange(glyf, a as usize, b as usize))
            } else {
                None
            }
        },
        _ => None,
    }
}

} // verus!

verus! {

/// Tag `name`.
pub const TAG_NAME: u32 = 0x6E61_6D65;
/// Tag `cmap`.
pub const TAG_CMAP: u32 = 0x636D_6170;

pub open spec fn or_zero16(v: Option<u16>) -> u16 {
    match v {
        Some(x) => x,
        None => 0,
    }
}

/// Record `i` of the directory at `base` is readable and its table lies
/// inside the data.
pub open spec fn record_sound(s: Seq<u8>, base: int, i: int) -> bool {
    match (be_u32(s, record_pos(base, i) + 8), be_u32(s, record_pos(base, i) + 12)) {
        (Some(start), Some(len)) => start as int + len as int <= s.len(),
        _ => false,
    }
}

/// The directory at `base` has a readable table count and every record in it
/// points inside the data.
pub open spec fn directory_sound(s: Seq<u8>, base: int) -> bool {
    match be_u16(s, base + 4) {
        Some(n) => forall|i: int| 0 <= i < n ==> #[trigger] record_sound(s, base, i),
        None => false,
    }
}

/// Checks every record of the directory at `base`.
pub fn check_directory(data: &[u8], base: u32) -> (r: bool)
    ensures
        r == directory_sound(data@, base as int),
{
    let n = match read_u16(data, base as u64 + 4) {
        Some(n) => n,
        None => return false,
    };
    let mut i: u64 = 0;
    while i < n as u64
        invariant
            i <= n,
            be_u16(data@, base as int + 4) == Some(n),
            forall|k: int| 0 <= k < i ==> #[trigger] record_sound(data@, base as int, k),
        decreases n - i,
    {
        let pos = base as u64 + TABLE_RECORDS_START + TABLE_RECORD_SIZE * i;
        assert(pos as int == record_pos(base as int, i as int));
        match (read_u32(data, pos + 8), read_u32(data, pos + 12)) {
            (Some(start), Some(len)) => {
                if start as u64 + len as u64 > data.len() as u64 {
                    assert(!record_sound(data@, base as int, i as int));
                    return false;
                }
            },
            _ => {
                assert(!record_sound(data@, base as int, i as int));
                return false;
            },
        }
        i = i + 1;
    }
    true
}

/// The table that record `i` points to, when it lies inside the data.
pub open spec fn record_table(s: Seq<u8>, base: int, i: int) -> Option<Seq<u8>> {
    match (be_u32(s, record_pos(base, i) + 8), be_u32(s, record_pos(base, i) + 12)) {
        (Some(start), Some(len)) => if start as int + len as int <= s.len() {
            Some(s.subrange(start as int, start as int + len as int))
        } else {
            None
        },
        _ => None,
    }
}

/// Name record `i`, when all of it is in the table, keeps its string inside
/// the table.
pub open spec fn name_record_ok(t: Seq<u8>, i: int) -> bool {
    let r = 6 + 12 * i;
    r + 12 <= t.len() ==> match (be_u16(t, r + 8), be_u16(t, r + 10)) {
        (Some(len), Some(off)) => or_zero16(be_u16(t, 4)) as int + off as int + len as int <= t.len(),
        _ => true,
    }
}

/// Every record of a `name` table keeps its string inside the table.
pub open spec fn name_table_ok(t: Seq<u8>) -> bool {
    forall|i: int| 0 <= i < or_zero16(be_u16(t, 2)) ==> #[trigger] name_record_ok(t, i)
}

/// Every `name` table that the directory at `base` points to inside the data
/// keeps its strings inside itself.
pub open spec fn names_safe(s: Seq<u8>, base: int) -> bool {
    forall|i: int|
        0 <= i < or_zero16(be_u16(s, base + 4)) && be_u32(s, record_pos(base, i)) == Some(TAG_NAME)
            ==> match #[trigger] record_table(s, base, i) {
            Some(t) => name_table_ok(t),
            None => true,
        }
}

/// Group `i` of a format-12 subtable at `st`: its last glyph id fits in 32 bits.
pub open spec fn group_ok(s: Seq<u8>, st: int, i: int) -> bool {
    let g = st + 16 + 12 * i;
    match (be_u32(s, g), be_u32(s, g + 4), be_u32(s, g + 8)) {
        (Some(a), Some(b), Some(d)) => a > b || d as int + (b as int - a as int) <= u32::MAX,
        _ => true,
    }
}

/// A subtable at `st` whose format has low byte 12 has only such groups.
pub open spec fn subtable_ok(s: Seq<u8>, st: int) -> bool {
    match be_u16(s, st) {
        Some(f) => f % 256 == 12 ==> forall|i: int|
            0 <= i < or_zero32(be_u32(s, st + 12)) ==> #[trigger] group_ok(s, st, i),
        None => true,
    }
}

/// Encoding record `j` of the `cmap` table at `c` points to a sound subtable.
pub open spec fn encoding_ok(s: Seq<u8>, c: int, j: int) -> bool {
    match be_u32(s, c + 8 + 8 * j) {
        Some(off) => subtable_ok(s, c + off as int),
        None => true,
    }
}

/// Every encoding record of the `cmap` table at `c` is sound.
pub open spec fn cmap_ok(s: Seq<u8>, c: int) -> bool {
    forall|j: int| 0 <= j < or_zero16(be_u16(s, c + 2)) ==> #[trigger] encoding_ok(s, c, j)
}

/// Every `cmap` table that the directory at `base` names is sound.
pub open spec fn charmap_safe(s: Seq<u8>, base: int) -> bool {
    forall|i: int|
        0 <= i < or_zero16(be_u16(s, base + 4)) && be_u32(s, record_pos(base, i)) == Some(TAG_CMAP)
            ==> match #[trigger] be_u32(s, record_pos(base, i) + 8) {
            Some(c) => cmap_ok(s, c as int),
            None => true,
        }
}

fn check_name_table(t: &[u8]) -> (r: bool)
    ensures
        r == name_table_ok(t@),
{
    let n = or_zero_u16(read_u16(t, 2));
    let storage = or_zero_u16(read_u16(t, 4));
    let mut i: u64 = 0;
    while i < n as u64
        invariant
            i <= n,
            n == or_zero16(be_u16(t@, 2)),
            storage == or_zero16(be_u16(t@, 4)),
            t@.len() <= usize::MAX,
            forall|k: int| 0 <= k < i ==> #[trigger] name_record_ok(t@, k),
        decreases n - i,
    {
        let r = 6 + 12 * i;
        if r + 12 <= t.len() as u64 {
            match (read_u16(t, r + 8), read_u16(t, r + 10)) {
                (Some(len), Some(off)) => {
                    if storage as u64 + off as u64 + len as u64 > t.len() as u64 {
                        assert(!name_record_ok(t@, i as int));
                        return false;
                    }
                },
                _ => {},
            }
        }
        i = i + 1;
    }
    true
}

fn or_zero_u16(v: Option<u16>) -> (r: u16)
    ensures
        r == or_zero16(v),
{
    match v {
        Some(x) => x,
        None => 0,
    }
}

fn check_subtable(data: &[u8], st: u64) -> (r: bool)
    requires
        st <= 2 * (u32::MAX as u64),
    ensures
        r == subtable_ok(data@, st as int),
{
    let f = match read_u16(data, st) {
        Some(f) => f,
        None => return true,
    };
    if f % 256 != 12 {
        return true;
    }
    let n = match read_u32(data, st + 12) {
        Some(n) => n,
        None => 0,
    };
    let mut i: u64 = 0;
    while i < n as u64
        invariant
            i <= n,
            n == or_zero32(be_u32(data@, st as int + 12)),
            data@.len() <= usize::MAX,
            st <= 2 * (u32::MAX as u64),
            be_u16(data@, st as int) == Some(f),
            f % 256 == 12,
            forall|k: int| 0 <= k < i ==> #[trigger] group_ok(data@, st as int, k),
        decreases n - i,
    {
        let g = st + 16 + 12 * i;
        assert(g as int == st as int + 16 + 12 * (i as int));
        if g + 12 > data.len() as u64 {
            assert forall|k: int| i <= k < n implies #[trigger] group_ok(data@, st as int, k) by {
                assert(be_u32(data@, st + 16 + 12 * k + 8) is None);
            }
            return true;
        }
        match (read_u32(data, g), read_u32(data, g + 4), read_u32(data, g + 8)) {
            (Some(a), Some(b), Some(d)) => {
                if a <= b && d as u64 + (b - a) as u64 > u32::MAX as u64 {
                    assert(!group_ok(data@, st as int, i as int));
                    assert((i as int) < or_zero32(be_u32(data@, st as int + 12)));
                    return false;
                }
            },
            _ => {},
        }
        i = i + 1;
    }
    true
}

fn check_cmap(data: &[u8], c: u32) -> (r: bool)
    ensures
        r == cmap_ok(data@, c as int),
{
    let n = or_zero_u16(read_u16(data, c as u64 + 2));
    let mut j: u64 = 0;
    while j < n as u64
        invariant
            j <= n,
            n == or_zero16(be_u16(data@, c as int + 2)),
            forall|k: int| 0 <= k < j ==> #[trigger] encoding_ok(data@, c as int, k),
        decreases n - j,
    {
        match read_u32(data, c as u64 + 8 + 8 * j) {
            Some(off) => {
                if !check_subtable(data, c as u64 + off as u64) {
                    assert(!encoding_ok(data@, c as int, j as int));
                    return false;
                }
            },
            None => {},
        }
        j = j + 1;
    }
    true
}

/// Checks every `name` table of the directory at `base`.
pub fn check_names(data: &[u8], base: u32) -> (r: bool)
    ensures
        r == names_safe(data@, base as int),
{
    let n = or_zero_u16(read_u16(data, base as u64 + 4));
    let mut i: u64 = 0;
    while i < n as u64
        invariant
            i <= n,
            n == or_zero16(be_u16(data@, base as int + 4)),
            forall|k: int|
                0 <= k < i && be_u32(data@, record_pos(base as int, k)) == Some(TAG_NAME) ==> match #[trigger] record_table(
                    data@,
                    base as int,
                    k,
                ) {
                    Some(t) => name_table_ok(t),
                    None => true,
                },
        decreases n - i,
    {
        let pos = base as u64 + TABLE_RECORDS_START + TABLE_RECORD_SIZE * i;
        assert(pos as int == record_pos(base as int, i as int));
        if read_u32(data, pos) == Some(TAG_NAME) {
            match (read_u32(data, pos + 8), read_u32(data, pos + 12)) {
                (Some(start), Some(len)) => {
                    if start as u64 + len as u64 <= data.len() as u64 {
                        let t = slice_subrange(data, start as usize, start as usize + len as usize);
                        if !check_name_table(t) {
                            assert(record_table(data@, base as int, i as int) == Some(t@));
                            return false;
                        }
                    }
                },
                _ => {},
            }
        }
        i = i + 1;
    }
    true
}

/// Checks every `cmap` table of the directory at `base`.
pub fn check_charmaps(data: &[u8], base: u32) -> (r: bool)
    ensures
        r == charmap_safe(data@, base as int),
{
    let n = or_zero_u16(read_u16(data, base as u64 + 4));
    let mut i: u64 = 0;
    while i < n as u64
        invariant
            i <= n,
            n == or_zero16(be_u16(data@, base as int + 4)),
            forall|k: int|
                0 <= k < i && be_u32(data@, record_pos(base as int, k)) == Some(TAG_CMAP) ==> match #[trigger] be_u32(
                    data@,
                    record_pos(base as int, k) + 8,
                ) {
                    Some(c) => cmap_ok(data@, c as int),
                    None => true,
                },
        decreases n - i,
    {
        let pos = base as u64 + TABLE_RECORDS_START + TABLE_RECORD_SIZE * i;
        assert(pos as int == record_pos(base as int, i as int));
        if read_u32(data, pos) == Some(TAG_CMAP) {
            match read_u32(data, pos + 8) {
                Some(c) => {
                    if !check_cmap(data, c) {
                        return false;
                    }
                },
                None => {},
            }
        }
        i = i + 1;
    }
    true
}

/// The fixed-pitch flag of the `post` table: its 32-bit field at offset 12 is
/// non-zero.
pub open spec fn fixed_pitch_of(s: Seq<u8>, base: int) -> bool {
    match field32(table_data(s, base, TAG_POST), 12) {
        Some(v) => v != 0,
        None => false,
    }
}

/// Reads the fixed-pitch flag of `post`.
pub fn fixed_pitch(data: &[u8], base: u32) -> (r: bool)
    ensures
        r == fixed_pitch_of(data@, base as int),
{
    match table_u32(find_table(data, base, TAG_POST), 12) {
        Some(v) => v != 0,
        None => false,
    }
}

} // verus!
