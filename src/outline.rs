//! Glyph outlines: decoding a TrueType simple glyph into path commands in font
//! units, one contour per `MoveTo` ... `Close` span.

use vstd::prelude::*;
use crate::metrics::FontVector;
use crate::sfnt::{be_u16, read_u16, signed16, to_signed16};

verus! {

/// One path primitive of an outline.
#[derive(Clone, Copy, Debug, PartialEq, Eq, Structural)]
pub enum PathCommand {
    /// Starts a contour at a point.
    MoveTo(FontVector),
    /// A straight segment to a point.
    LineTo(FontVector),
    /// A quadratic curve through a control point to a point.
    QuadTo(FontVector, FontVector),
    /// Closes the current contour back to its start.
    Close,
}

/// Whether a contour is open after the first `n` commands.
pub open spec fn opens(c: Seq<PathCommand>, n: int) -> bool
    decreases n,
{
    if n <= 0 || n > c.len() {
        false
    } else {
        match c[n - 1] {
            PathCommand::MoveTo(_) => true,
            PathCommand::Close => false,
            _ => opens(c, n - 1),
        }
    }
}

/// A `MoveTo` comes only outside a contour; anything else only inside one.
pub open spec fn command_fits(c: Seq<PathCommand>, i: int) -> bool {
    if c[i] is MoveTo {
        !opens(c, i)
    } else {
        opens(c, i)
    }
}

/// Every command stands where it may.
pub open spec fn commands_fit(c: Seq<PathCommand>) -> bool {
    forall|i: int| 0 <= i < c.len() ==> command_fits(c, i)
}

/// Well-formed contours: every `MoveTo` is followed by exactly one `Close`
/// before the next `MoveTo` or the end, and nothing is drawn outside a contour.
pub open spec fn contours_well_formed(c: Seq<PathCommand>) -> bool {
    commands_fit(c) && !opens(c, c.len() as int)
}

proof fn lemma_opens_prefix(c: Seq<PathCommand>, x: PathCommand, i: int)
    requires
        0 <= i <= c.len(),
    ensures
        opens(c.push(x), i) == opens(c, i),
    decreases i,
{
    if i > 0 {
        assert(c.push(x)[i - 1] == c[i - 1]);
        lemma_opens_prefix(c, x, i - 1);
    }
}

/// Appends a command that fits where it lands.
fn emit(cmds: &mut Vec<PathCommand>, x: PathCommand)
    requires
        commands_fit(old(cmds)@),
        x is MoveTo ==> !opens(old(cmds)@, old(cmds)@.len() as int),
        !(x is MoveTo) ==> opens(old(cmds)@, old(cmds)@.len() as int),
    ensures
        final(cmds)@ == old(cmds)@.push(x),
        commands_fit(final(cmds)@),
        opens(final(cmds)@, final(cmds)@.len() as int) == match x {
            PathCommand::MoveTo(_) => true,
            PathCommand::Close => false,
            _ => opens(old(cmds)@, old(cmds)@.len() as int),
        },
{
    let ghost c = cmds@;
    cmds.push(x);
    proof {
        assert forall|i: int| 0 <= i < cmds@.len() implies command_fits(cmds@, i) by {
            lemma_opens_prefix(c, x, i);
            if i < c.len() {
                assert(cmds@[i] == c[i]);
                assert(command_fits(c, i));
            }
        }
        lemma_opens_prefix(c, x, c.len() as int);
    }
}

/// Half of a value, rounded towards zero.
pub open spec fn half(v: int) -> int {
    if v >= 0 {
        v / 2
    } else {
        -((-v) / 2)
    }
}

/// The point halfway between two points, each coordinate rounded towards zero.
pub open spec fn midpoint(a: FontVector, b: FontVector) -> FontVector {
    FontVector { x: half(a.x + b.x) as i32, y: half(a.y + b.y) as i32 }
}

fn halve(v: i64) -> (r: i32)
    requires
        2 * (i32::MIN as int) <= v <= 2 * (i32::MAX as int),
    ensures
        r as int == half(v as int),
{
    if v >= 0 {
        (v / 2) as i32
    } else {
        -((-v) / 2) as i32
    }
}

fn mid(a: FontVector, b: FontVector) -> (r: FontVector)
    ensures
        r == midpoint(a, b),
{
    FontVector { x: halve(a.x as i64 + b.x as i64), y: halve(a.y as i64 + b.y as i64) }
}

/// The first point of contour `start..=end`: its first point if on the curve,
/// else its last if that is, else the midpoint of the two.
pub open spec fn contour_first(flags: Seq<u8>, pts: Seq<FontVector>, start: int, end: int) -> FontVector {
    if flags[start] & 1 != 0 {
        pts[start]
    } else if flags[end] & 1 != 0 {
        pts[end]
    } else {
        midpoint(pts[start], pts[end])
    }
}

/// The points that follow the first point, as a half-open range.
pub open spec fn contour_range(flags: Seq<u8>, start: int, end: int) -> (int, int) {
    if flags[start] & 1 != 0 {
        (start + 1, end + 1)
    } else if flags[end] & 1 != 0 {
        (start, end)
    } else {
        (start, end + 1)
    }
}

/// Walks points `i..to`: an on-curve point ends a line or a curve; two
/// off-curve points in a row imply an on-curve point halfway between them.
/// Returns the commands and the off-curve point still pending.
pub open spec fn walk(
    flags: Seq<u8>,
    pts: Seq<FontVector>,
    i: int,
    to: int,
    pending: Option<FontVector>,
    acc: Seq<PathCommand>,
) -> (Seq<PathCommand>, Option<FontVector>)
    decreases to - i,
{
    if i >= to {
        (acc, pending)
    } else if flags[i] & 1 != 0 {
        let next = match pending {
            Some(c) => acc.push(PathCommand::QuadTo(c, pts[i])),
            None => acc.push(PathCommand::LineTo(pts[i])),
        };
        walk(flags, pts, i + 1, to, None, next)
    } else {
        let next = match pending {
            Some(c) => acc.push(PathCommand::QuadTo(c, midpoint(c, pts[i]))),
            None => acc,
        };
        walk(flags, pts, i + 1, to, Some(pts[i]), next)
    }
}

/// The commands of contour `start..=end` appended to `acc`.
pub open spec fn contour(flags: Seq<u8>, pts: Seq<FontVector>, start: int, end: int, acc: Seq<PathCommand>) -> Seq<PathCommand> {
    let first = contour_first(flags, pts, start, end);
    let (from, to) = contour_range(flags, start, end);
    let (body, pending) = walk(flags, pts, from, to, None, acc.push(PathCommand::MoveTo(first)));
    let closed = match pending {
        Some(c) => body.push(PathCommand::QuadTo(c, first)),
        None => body,
    };
    closed.push(PathCommand::Close)
}

/// The commands of contours `c..` (the first starting at point `start`)
/// appended to `acc`; `None` where a contour end goes backwards or past the points.
pub open spec fn contours(flags: Seq<u8>, pts: Seq<FontVector>, ends: Seq<u16>, c: int, start: int, acc: Seq<PathCommand>) -> Option<Seq<PathCommand>>
    decreases ends.len() - c,
{
    if c >= ends.len() || c < 0 {
        Some(acc)
    } else {
        let end = ends[c] as int;
        if end < start || end >= pts.len() || end >= flags.len() {
            None
        } else {
            contours(flags, pts, ends, c + 1, end + 1, contour(flags, pts, start, end, acc))
        }
    }
}

/// Emits one contour of points `start..=end`, whose on-curve flags are bit 0 of `flags`.
fn emit_contour(
    cmds: &mut Vec<PathCommand>,
    flags: &Vec<u8>,
    pts: &Vec<FontVector>,
    start: usize,
    end: usize,
)
    requires
        start <= end < flags@.len(),
        flags@.len() == pts@.len(),
        commands_fit(old(cmds)@),
        !opens(old(cmds)@, old(cmds)@.len() as int),
    ensures
        commands_fit(final(cmds)@),
        !opens(final(cmds)@, final(cmds)@.len() as int),
        final(cmds)@ == contour(flags@, pts@, start as int, end as int, old(cmds)@),
{
    let count = flags.len();
    assert(end + 1 <= count);
    let first_on = flags[start] & 1 != 0;
    let last_on = flags[end] & 1 != 0;
    let first = if first_on {
        pts[start]
    } else if last_on {
        pts[end]
    } else {
        mid(pts[start], pts[end])
    };
    emit(cmds, PathCommand::MoveTo(first));
    let ghost moved = cmds@;
    let (from, to) = if first_on {
        (start + 1, end + 1)
    } else if last_on {
        (start, end)
    } else {
        (start, end + 1)
    };
    assert(contour_range(flags@, start as int, end as int) == (from as int, to as int));
    let mut pending: Option<FontVector> = None;
    let mut i: usize = from;
    while i < to
        invariant
            from <= i <= to <= end + 1,
            end < flags@.len(),
            flags@.len() == pts@.len(),
            commands_fit(cmds@),
            opens(cmds@, cmds@.len() as int),
            walk(flags@, pts@, i as int, to as int, pending, cmds@) == walk(
                flags@,
                pts@,
                from as int,
                to as int,
                None,
                moved,
            ),
        decreases to - i,
    {
        let p = pts[i];
        if flags[i] & 1 != 0 {
            match pending {
                Some(c) => emit(cmds, PathCommand::QuadTo(c, p)),
                None => emit(cmds, PathCommand::LineTo(p)),
            }
            pending = None;
        } else {
            match pending {
                Some(c) => emit(cmds, PathCommand::QuadTo(c, mid(c, p))),
                None => {},
            }
            pending = Some(p);
        }
        i = i + 1;
    }
    match pending {
        Some(c) => emit(cmds, PathCommand::QuadTo(c, first)),
        None => {},
    }
    emit(cmds, PathCommand::Close);
}
fn read_byte(data: &[u8], pos: u64) -> (r: Option<u8>)
    ensures
        r matches Some(b) ==> pos < data@.len() && b == data@[pos as int],
        r is None ==> pos >= data@.len(),
        data@.len() <= usize::MAX,
{
    if pos < data.len() as u64 {
        Some(data[pos as usize])
    } else {
        None
    }
}

/// `acc` followed by copies of `f`, `count` of them but no more than bring
/// the length to `n`.
pub open spec fn repeat_flag(acc: Seq<u8>, f: u8, count: int, n: int) -> Seq<u8> {
    let room = if n - acc.len() > 0 {
        n - acc.len()
    } else {
        0
    };
    let k = if count < room {
        count
    } else {
        room
    };
    acc + Seq::new(k as nat, |j: int| f)
}

/// Reads flags from `p` until there are `n`: a flag with bit 3 set is followed
/// by a count of further copies of it.
pub open spec fn flags_from(s: Seq<u8>, p: int, n: int, acc: Seq<u8>) -> Option<(Seq<u8>, int)>
    decreases n - acc.len(),
{
    if acc.len() >= n {
        Some((acc, p))
    } else if p < 0 || p >= s.len() {
        None
    } else if s[p] & 8 != 0 {
        if p + 1 >= s.len() {
            None
        } else {
            flags_from(s, p + 2, n, repeat_flag(acc.push(s[p]), s[p], s[p + 1] as int, n))
        }
    } else {
        flags_from(s, p + 1, n, acc.push(s[p]))
    }
}

/// The `n` point flags that start at `p`, and where they end.
pub open spec fn point_flags(s: Seq<u8>, p: int, n: int) -> Option<(Seq<u8>, int)> {
    if p > s.len() {
        None
    } else {
        flags_from(s, p, n, Seq::empty())
    }
}

/// Reads `n` point flags starting at `pos`, expanding repeats.
fn read_flags(data: &[u8], pos: u64, n: usize) -> (r: Option<(Vec<u8>, u64)>)
    ensures
        match r {
            Some((f, p)) => point_flags(data@, pos as int, n as int) == Some((f@, p as int)) && f@.len()
                == n && p <= data@.len(),
            None => point_flags(data@, pos as int, n as int) is None,
        },
{
    if pos > data.len() as u64 {
        return None;
    }
    let mut flags: Vec<u8> = Vec::new();
    let mut p = pos;
    while flags.len() < n
        invariant
            flags@.len() <= n,
            p <= data@.len(),
            flags_from(data@, p as int, n as int, flags@) == point_flags(data@, pos as int, n as int),
        decreases n - flags@.len(),
    {
        let f = match read_byte(data, p) {
            Some(f) => f,
            None => return None,
        };
        if f & 8 != 0 {
            let count = match read_byte(data, p + 1) {
                Some(c) => c,
                None => return None,
            };
            p = p + 2;
            flags.push(f);
            let ghost pushed = flags@;
            let mut k: u8 = 0;
            while k < count && flags.len() < n
                invariant
                    pushed.len() <= flags@.len() <= n,
                    k <= count,
                    flags@ == pushed + Seq::new(k as nat, |j: int| f),
                    p <= data@.len(),
                decreases count - k,
            {
                flags.push(f);
                k = k + 1;
                proof {
                    assert(flags@ =~= pushed + Seq::new(k as nat, |j: int| f));
                }
            }
            proof {
                assert(flags@ =~= repeat_flag(pushed, f, count as int, n as int));
            }
        } else {
            p = p + 1;
            flags.push(f);
        }
    }
    Some((flags, p))
}

/// The change that flag `f` gives a coordinate at `p`, and where the next
/// delta starts. `short_bit` marks a one-byte delta whose sign `same_bit`
/// gives (set: positive); without it, `same_bit` repeats the last value and
/// its absence marks a two-byte delta.
pub open spec fn coord_step(s: Seq<u8>, p: int, f: u8, short_bit: u8, same_bit: u8) -> Option<(int, int)> {
    if f & short_bit != 0 {
        if 0 <= p < s.len() {
            Some((
                if f & same_bit != 0 {
                    s[p] as int
                } else {
                    -(s[p] as int)
                },
                p + 1,
            ))
        } else {
            None
        }
    } else if f & same_bit != 0 {
        Some((0, p))
    } else {
        match be_u16(s, p) {
            Some(d) => Some((signed16(d), p + 2)),
            None => None,
        }
    }
}

/// Reads one coordinate per flag from `p`, adding each delta to `value`;
/// `None` where a coordinate leaves the 32-bit range.
pub open spec fn coords_from(
    s: Seq<u8>,
    p: int,
    flags: Seq<u8>,
    short_bit: u8,
    same_bit: u8,
    value: int,
    acc: Seq<i32>,
) -> Option<(Seq<i32>, int)>
    decreases flags.len() - acc.len(),
{
    if acc.len() >= flags.len() {
        Some((acc, p))
    } else {
        match coord_step(s, p, flags[acc.len() as int], short_bit, same_bit) {
            None => None,
            Some((delta, next)) => {
                let v = value + delta;
                if v < i32::MIN || v > i32::MAX {
                    None
                } else {
                    coords_from(s, next, flags, short_bit, same_bit, v, acc.push(v as i32))
                }
            },
        }
    }
}

/// Reads one coordinate list.
fn read_coords(data: &[u8], pos: u64, flags: &Vec<u8>, short_bit: u8, same_bit: u8) -> (r: Option<(Vec<i32>, u64)>)
    requires
        pos <= data@.len(),
    ensures
        match r {
            Some((v, p)) => coords_from(data@, pos as int, flags@, short_bit, same_bit, 0, Seq::empty())
                == Some((v@, p as int)) && v@.len() == flags@.len() && p <= data@.len(),
            None => coords_from(data@, pos as int, flags@, short_bit, same_bit, 0, Seq::empty()) is None,
        },
{
    let mut out: Vec<i32> = Vec::new();
    let mut p = pos;
    let mut value: i64 = 0;
    let mut i: usize = 0;
    while i < flags.len()
        invariant
            i <= flags@.len(),
            out@.len() == i,
            p <= data@.len(),
            i32::MIN <= value <= i32::MAX,
            coords_from(data@, p as int, flags@, short_bit, same_bit, value as int, out@) == coords_from(
                data@,
                pos as int,
                flags@,
                short_bit,
                same_bit,
                0,
                Seq::empty(),
            ),
        decreases flags@.len() - i,
    {
        let f = flags[i];
        let delta: i64 = if f & short_bit != 0 {
            let d = match read_byte(data, p) {
                Some(d) => d,
                None => return None,
            };
            p = p + 1;
            if f & same_bit != 0 {
                d as i64
            } else {
                -(d as i64)
            }
        } else if f & same_bit != 0 {
            0
        } else {
            let d = match read_u16(data, p) {
                Some(d) => d,
                None => return None,
            };
            p = p + 2;
            to_signed16(d) as i64
        };
        value = value + delta;
        if value < i32::MIN as i64 || value > i32::MAX as i64 {
            return None;
        }
        out.push(value as i32);
        i = i + 1;
    }
    Some((out, p))
}

/// The contour end-point indices of a glyph with `n` contours, when all can be read.
pub open spec fn contour_ends(g: Seq<u8>, n: int) -> Option<Seq<u16>> {
    if forall|k: int| 0 <= k < n ==> #[trigger] be_u16(g, 10 + 2 * k) is Some {
        Some(Seq::new(n as nat, |k: int| be_u16(g, 10 + 2 * k).unwrap()))
    } else {
        None
    }
}

/// Points made of two coordinate lists.
pub open spec fn points(xs: Seq<i32>, ys: Seq<i32>) -> Seq<FontVector> {
    Seq::new(xs.len(), |i: int| FontVector { x: xs[i], y: ys[i] })
}

/// The path commands of a TrueType simple glyph record: contour end points,
/// instructions (skipped), flags, then x and y deltas; `None` for a composite
/// glyph or malformed data.
pub open spec fn simple_glyph_commands(g: Seq<u8>) -> Option<Seq<PathCommand>> {
    match be_u16(g, 0) {
        None => None,
        Some(n) => if n >= 0x8000 {
            None
        } else {
            match contour_ends(g, n as int) {
                None => None,
                Some(ends) => if n == 0 {
                    Some(Seq::empty())
                } else {
                    let npts = ends[n - 1] as int + 1;
                    let ins_at = 10 + 2 * n;
                    match be_u16(g, ins_at) {
                        None => None,
                        Some(il) => match point_flags(g, ins_at + 2 + il, npts) {
                            None => None,
                            Some((flags, p)) => match coords_from(g, p, flags, 2, 0x10, 0, Seq::empty()) {
                                None => None,
                                Some((xs, p2)) => match coords_from(g, p2, flags, 4, 0x20, 0, Seq::empty()) {
                                    None => None,
                                    Some((ys, _)) => contours(flags, points(xs, ys), ends, 0, 0, Seq::empty()),
                                },
                            },
                        },
                    }
                }
            }
        }
    }
}

/// Decodes the glyph record `glyph` (the bytes of one `glyf` entry) into path
/// commands. A composite glyph, or malformed data, gives `None`.
pub fn decode_simple_glyph(glyph: &[u8]) -> (r: Option<Vec<PathCommand>>)
    ensures
        match r {
            Some(c) => simple_glyph_commands(glyph@) == Some(c@),
            None => simple_glyph_commands(glyph@) is None,
        },
        r matches Some(c) ==> contours_well_formed(c@),
{
    let n = match read_u16(glyph, 0) {
        Some(n) => n,
        None => return None,
    };
    if n >= 0x8000 {
        return None;
    }
    let mut ends: Vec<u16> = Vec::new();
    let mut k: u64 = 0;
    while k < n as u64
        invariant
            k <= n,
            be_u16(glyph@, 0) == Some(n),
            n < 0x8000,
            ends@ == Seq::new(k as nat, |j: int| be_u16(glyph@, 10 + 2 * j).unwrap()),
            forall|j: int| 0 <= j < k ==> #[trigger] be_u16(glyph@, 10 + 2 * j) is Some,
        decreases n - k,
    {
        match read_u16(glyph, 10 + 2 * k) {
            Some(e) => ends.push(e),
            None => {
                assert(be_u16(glyph@, 10 + 2 * (k as int)) is None);
                assert(contour_ends(glyph@, n as int) is None);
                return None;
            },
        }
        k = k + 1;
        proof {
            assert(ends@ =~= Seq::new(k as nat, |j: int| be_u16(glyph@, 10 + 2 * j).unwrap()));
        }
    }
    assert(contour_ends(glyph@, n as int) == Some(ends@));
    let mut cmds: Vec<PathCommand> = Vec::new();
    if n == 0 {
        return Some(cmds);
    }
    let npts: usize = ends[ends.len() - 1] as usize + 1;
    let ins_at: u64 = 10 + 2 * n as u64;
    let ins_len = match read_u16(glyph, ins_at) {
        Some(l) => l,
        None => return None,
    };
    let (flags, p) = match read_flags(glyph, ins_at + 2 + ins_len as u64, npts) {
        Some(x) => x,
        None => return None,
    };
    let (xs, p) = match read_coords(glyph, p, &flags, 2, 0x10) {
        Some(x) => x,
        None => return None,
    };
    let (ys, _p) = match read_coords(glyph, p, &flags, 4, 0x20) {
        Some(x) => x,
        None => return None,
    };
    let mut pts: Vec<FontVector> = Vec::new();
    let mut i: usize = 0;
    while i < npts
        invariant
            i <= npts,
            xs@.len() == npts,
            ys@.len() == npts,
            pts@ == Seq::new(i as nat, |j: int| FontVector { x: xs@[j], y: ys@[j] }),
        decreases npts - i,
    {
        pts.push(FontVector { x: xs[i], y: ys[i] });
        i = i + 1;
        proof {
            assert(pts@ =~= Seq::new(i as nat, |j: int| FontVector { x: xs@[j], y: ys@[j] }));
        }
    }
    assert(pts@ =~= points(xs@, ys@));
    assert(simple_glyph_commands(glyph@) == contours(flags@, pts@, ends@, 0, 0, Seq::empty()));
    let mut start: usize = 0;
    let mut c: usize = 0;
    while c < ends.len()
        invariant
            c <= ends@.len(),
            simple_glyph_commands(glyph@) == contours(flags@, pts@, ends@, 0, 0, Seq::empty()),
            flags@.len() == npts,
            pts@.len() == npts,
            commands_fit(cmds@),
            !opens(cmds@, cmds@.len() as int),
            contours(flags@, pts@, ends@, c as int, start as int, cmds@) == contours(
                flags@,
                pts@,
                ends@,
                0,
                0,
                Seq::empty(),
            ),
        decreases ends@.len() - c,
    {
        let end = ends[c] as usize;
        if end < start || end >= npts {
            assert(ends@[c as int] as int == end as int);
            assert(contours(flags@, pts@, ends@, c as int, start as int, cmds@) is None);
            return None;
        }
        emit_contour(&mut cmds, &flags, &pts, start, end);
        start = end + 1;
        c = c + 1;
    }
    Some(cmds)
}

} // verus!
