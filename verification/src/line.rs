//! Lines: `line` plots a Bresenham line into a small white image placed at
//! the line's top-left corner; `tline` samples the sprite sheet along one.
use vstd::prelude::*;

use crate::gfx::{bit_length, bits_required, color_bits, max_bits, pixel_offset_fits, pixel_start, pixel_value, Gfx};
use crate::palette::RgbaImage;
use crate::plan::{add_script_functions, script_steps, AppPlan};
use crate::raster::{painted, Raster};

verus! {

/// The points that `bresenham::Bresenham` yields from `start` towards `end`.
pub uninterp spec fn bresenham_of(start: (isize, isize), end: (isize, isize)) -> Seq<(isize, isize)>;

/// The point lies in the box spanned by `start` and `end`.
pub open spec fn in_box(p: (isize, isize), start: (isize, isize), end: (isize, isize)) -> bool {
    &&& (start.0 <= p.0 <= end.0 || end.0 <= p.0 <= start.0)
    &&& (start.1 <= p.1 <= end.1 || end.1 <= p.1 <= start.1)
}

/// The larger of the two distances along the axes.
pub open spec fn chebyshev(start: (isize, isize), end: (isize, isize)) -> int {
    let dx = if start.0 <= end.0 { end.0 - start.0 } else { start.0 - end.0 };
    let dy = if start.1 <= end.1 { end.1 - start.1 } else { start.1 - end.1 };
    if dx >= dy { dx } else { dy }
}

/// Collects `bresenham::Bresenham::new(start, end)`: the points of the line
/// from `start` towards `end`, `start` included and `end` not (named
/// `bresenham_of`). The iterator takes one step per unit along the longer
/// axis, so there are as many points as that distance, the first is `start`,
/// and each lies in the box spanned by the two ends. Coordinates are kept
/// within `0..=u32::MAX`, where the iterator's arithmetic cannot overflow.
#[verifier::external_body]
fn bresenham_points(start: (isize, isize), end: (isize, isize)) -> (r: Vec<(isize, isize)>)
    requires
        0 <= start.0 <= u32::MAX,
        0 <= start.1 <= u32::MAX,
        0 <= end.0 <= u32::MAX,
        0 <= end.1 <= u32::MAX,
    ensures
        r@ == bresenham_of(start, end),
        r@.len() == chebyshev(start, end),
        r@.len() > 0 ==> r@[0] == start,
        forall|i: int| 0 <= i < r@.len() ==> in_box(#[trigger] r@[i], start, end),
{
    bresenham::Bresenham::new(start, end).collect()
}

/// Why a line cannot be drawn.
#[derive(Debug, Clone, Copy, PartialEq, Eq, Structural)]
pub enum LineError {
    /// A point falls outside the line's image.
    OutOfBounds { x: u32, y: u32 },
    /// The sprite sheet has no pixels.
    EmptySheet,
}

/// The smaller of two coordinates.
pub open spec fn min_i(a: i32, b: i32) -> i32 {
    if a <= b {
        a
    } else {
        b
    }
}

/// `|a - b| + 1`: the number of pixels a line spans along one axis.
pub open spec fn span_len(a: i32, b: i32) -> int {
    (if a <= b {
        b - a
    } else {
        a - b
    }) + 1
}

/// A line between `a` and `b` fits: its image's size and pixel count fit.
pub open spec fn line_fits(a: (i32, i32), b: (i32, i32)) -> bool {
    &&& span_len(a.0, b.0) * span_len(a.1, b.1) <= u32::MAX
    &&& span_len(a.0, b.0) * span_len(a.1, b.1) * 4 <= usize::MAX
}

/// The line's endpoints relative to its top-left corner.
pub open spec fn line_local(a: (i32, i32), b: (i32, i32)) -> ((isize, isize), (isize, isize)) {
    let mx = min_i(a.0, b.0);
    let my = min_i(a.1, b.1);
    (((a.0 - mx) as isize, (a.1 - my) as isize), ((b.0 - mx) as isize, (b.1 - my) as isize))
}

/// Point `p` lands inside a `w` by `h` image (its coordinates taken as `u32`).
pub open spec fn lands(p: (isize, isize), w: int, h: int) -> bool {
    (p.0 as u32) < w && (p.1 as u32) < h
}

/// The pixel index that point `p` lands on in an image `w` wide.
pub open spec fn landing_index(p: (isize, isize), w: int) -> int {
    (p.1 as u32) * w + (p.0 as u32)
}

/// Pixel index `q` is one of the points.
pub open spec fn on_line(points: Seq<(isize, isize)>, w: int, q: int) -> bool {
    exists|i: int| 0 <= i < points.len() && q == #[trigger] landing_index(points[i], w)
}

/// The first point that does not land inside the image.
pub open spec fn first_stray(points: Seq<(isize, isize)>, w: int, h: int, i: int) -> bool {
    &&& 0 <= i < points.len()
    &&& !lands(points[i], w, h)
    &&& forall|j: int| 0 <= j < i ==> lands(#[trigger] points[j], w, h)
}

/// Opaque white, as sRGB bytes.
pub open spec fn white() -> [u8; 4] {
    [255u8, 255u8, 255u8, 255u8]
}

/// Pico-8 `line(a, b)`: the white image of the Bresenham line from `a` to `b`
/// (`|dx| + 1` by `|dy| + 1` pixels) and where its top-left corner goes. Every
/// point lies in the line's box, so the error for a point outside the image
/// never comes.
pub fn line_image(a: (i32, i32), b: (i32, i32)) -> (r: Result<(Raster, (i32, i32)), LineError>)
    requires
        line_fits(a, b),
    ensures
        r is Ok,
        ({
            let (c, d) = line_local(a, b);
            let points = bresenham_of(c, d);
            let w = span_len(a.0, b.0);
            let h = span_len(a.1, b.1);
            match r {
                Ok((image, corner)) => {
                    &&& forall|i: int| 0 <= i < points.len() ==> lands(#[trigger] points[i], w, h)
                    &&& corner == (min_i(a.0, b.0), min_i(a.1, b.1))
                    &&& image.wf()
                    &&& image.width == w
                    &&& image.height == h
                    &&& image.pen == white()
                    &&& image.data@ == painted(
                        Seq::new((w * h * 4) as nat, |k: int| 0u8),
                        white(),
                        |q: int| on_line(points, w, q),
                    )
                },
                Err(e) => exists|i: int|
                    #[trigger] first_stray(points, w, h, i) && e == LineError::OutOfBounds {
                        x: points[i].0 as u32,
                        y: points[i].1 as u32,
                    },
            }
        }),
{
    let mx = if a.0 <= b.0 { a.0 } else { b.0 };
    let my = if a.1 <= b.1 { a.1 } else { b.1 };
    let w: u32 = if a.0 <= b.0 { (b.0 as i64 - a.0 as i64) as u32 } else { (a.0 as i64 - b.0 as i64) as u32 };
    let h: u32 = if a.1 <= b.1 { (b.1 as i64 - a.1 as i64) as u32 } else { (a.1 as i64 - b.1 as i64) as u32 };
    proof {
        assert(span_len(a.0, b.0) >= 1 && span_len(a.1, b.1) >= 1);
        assert(span_len(a.0, b.0) <= span_len(a.0, b.0) * span_len(a.1, b.1)) by (nonlinear_arith)
            requires span_len(a.1, b.1) >= 1, span_len(a.0, b.0) >= 1;
        assert(span_len(a.1, b.1) <= span_len(a.0, b.0) * span_len(a.1, b.1)) by (nonlinear_arith)
            requires span_len(a.1, b.1) >= 1, span_len(a.0, b.0) >= 1;
    }
    let w = w + 1;
    let h = h + 1;
    let c = ((a.0 as i64 - mx as i64) as isize, (a.1 as i64 - my as i64) as isize);
    let d = ((b.0 as i64 - mx as i64) as isize, (b.1 as i64 - my as i64) as isize);
    assert((c, d) == line_local(a, b));
    let points = bresenham_points(c, d);
    let mut image = Raster::new((w, h), [255u8, 255u8, 255u8, 255u8]);
    let ghost blank = image.data@;
    assert(blank =~= Seq::new((w * h * 4) as nat, |k: int| 0u8));
    let mut i: usize = 0;
    while i < points.len()
        invariant
            i <= points@.len(),
            points@ == bresenham_of(c, d),
            (c, d) == line_local(a, b),
            w == span_len(a.0, b.0),
            h == span_len(a.1, b.1),
            image.wf(),
            image.width == w,
            image.height == h,
            image.pen == white(),
            forall|j: int| 0 <= j < i ==> lands(#[trigger] points@[j], w as int, h as int),
            forall|j: int| 0 <= j < points@.len() ==> in_box(#[trigger] points@[j], c, d),
            0 <= c.0 < w && 0 <= d.0 < w && 0 <= c.1 < h && 0 <= d.1 < h,
            image.data@ == painted(blank, white(), |q: int| on_line(points@.take(i as int), w as int, q)),
        decreases points@.len() - i,
    {
        let (x, y) = points[i];
        let ux = x as u32;
        let uy = y as u32;
        proof {
            assert(in_box(points@[i as int], c, d));
        }
        if ux >= w || uy >= h {
            let e = LineError::OutOfBounds { x: ux, y: uy };
            proof {
                assert(first_stray(points@, w as int, h as int, i as int));
                assert(e == LineError::OutOfBounds { x: points@[i as int].0 as u32, y: points@[i as int].1 as u32 });
                assert(first_stray(points@, w as int, h as int, i as int) && e == LineError::OutOfBounds {
                    x: points@[i as int].0 as u32,
                    y: points@[i as int].1 as u32,
                });
                let (c2, d2) = line_local(a, b);
                assert(c2 == c && d2 == d);
                assert(bresenham_of(c2, d2) == points@);
                assert(span_len(a.0, b.0) == w as int);
            }
            return Err(e);
        }
        proof {
            assert(uy * w + ux < w * h) by (nonlinear_arith) requires ux < w, uy < h;
        }
        let ghost before = image.data@;
        image.paint(uy * w + ux);
        proof {
            let ws = w as int;
            assert forall|q: int| #[trigger] on_line(points@.take(i + 1), ws, q)
                <==> (on_line(points@.take(i as int), ws, q) || q == uy * ws + ux) by {
                if on_line(points@.take(i + 1), ws, q) {
                    let j = choose|j: int| 0 <= j < i + 1 && q == #[trigger] landing_index(points@.take(i + 1)[j], ws);
                    if j < i {
                        assert(points@.take(i as int)[j] == points@.take(i + 1)[j]);
                        assert(on_line(points@.take(i as int), ws, q));
                    }
                }
                if on_line(points@.take(i as int), ws, q) {
                    let j = choose|j: int| 0 <= j < i && q == #[trigger] landing_index(points@.take(i as int)[j], ws);
                    assert(points@.take(i as int)[j] == points@.take(i + 1)[j]);
                    assert(0 <= j < i + 1 && q == landing_index(points@.take(i + 1)[j], ws));
                }
                if q == uy * ws + ux {
                    assert(points@.take(i + 1)[i as int] == points@[i as int]);
                    assert(q == landing_index(points@.take(i + 1)[i as int], ws));
                }
            }
            assert(image.data@ =~= painted(blank, white(), |q: int| on_line(points@.take(i + 1), ws, q)));
        }
        i = i + 1;
    }
    proof {
        assert(points@.take(points@.len() as int) =~= points@);
    }
    Ok((image, (mx, my)))
}

/// The colour depth of a `tline` image: enough bits for every palette index
/// (four without a palette), at least one.
pub open spec fn tline_bitdepth(palette_len: usize) -> int {
    if palette_len == 0 {
        4
    } else {
        let b = bit_length((palette_len - 1) as nat) as int;
        if b < 1 {
            1
        } else {
            b
        }
    }
}

/// The colour depth of a `tline` image.
fn tline_depth(palette_len: usize) -> (r: usize)
    ensures
        r == tline_bitdepth(palette_len),
        1 <= r <= 64,
{
    if palette_len == 0 {
        return 4;
    }
    let b = match bits_required(palette_len) {
        Some(b) => b,
        None => 0,
    };
    if b < 1 {
        1
    } else {
        b as usize
    }
}

/// The sheet coordinate that map coordinate `m` samples on a sheet `n` wide:
/// the Euclidean remainder.
fn wrap_coord(m: i32, n: u32) -> (r: usize)
    requires
        0 < n <= i32::MAX,
    ensures
        r == (m as int) % (n as int),
        r < n,
{
    let mm = m as i64;
    let nn = n as i64;
    if mm >= 0 {
        (mm % nn) as usize
    } else {
        let k = (-mm) % nn;
        proof {
            let q = (-mm) / (nn as int);
            vstd::arithmetic::div_mod::lemma_fundamental_div_mod(-mm, nn as int);
            assert(-mm == nn * q + k);
            assert(mm == (-q) * nn - k) by (nonlinear_arith)
                requires -mm == nn * q + k;
            assert(mm == (-q - 1) * nn + (nn - k)) by (nonlinear_arith)
                requires mm == (-q) * nn - k;
            if k == 0 {
                vstd::arithmetic::div_mod::lemma_fundamental_div_mod_converse(mm as int, nn as int, -q, 0);
            } else {
                vstd::arithmetic::div_mod::lemma_fundamental_div_mod_converse(mm as int, nn as int, -q - 1, nn - k);
            }
        }
        if k == 0 {
            0
        } else {
            (nn - k) as usize
        }
    }
}

/// The move of the map coordinate per point: one to the right by default.
pub open spec fn map_step(m_delta: Option<(i32, i32)>) -> (int, int) {
    match m_delta {
        Some(dm) => (dm.0 as int, dm.1 as int),
        None => (1, 0),
    }
}

/// The map coordinate of the `i`th point of a `tline`.
pub open spec fn tline_map_coord(m_start: (i32, i32), m_delta: Option<(i32, i32)>, i: int) -> (int, int) {
    (m_start.0 + i * map_step(m_delta).0, m_start.1 + i * map_step(m_delta).1)
}

/// The colour index of the sheet at `(x, y)`, when its bits lie within the data.
pub open spec fn sample_at(sheet: Gfx, x: int, y: int) -> Option<u8> {
    let n = sheet.bitdepth as int;
    let start = pixel_start(x, y, n, sheet.width as int);
    if start + n <= sheet.bits().len() {
        Some(pixel_value(sheet.bits(), start, n) as u8)
    } else {
        None
    }
}

/// What the `i`th point of a `tline` samples.
pub open spec fn tline_sample(sheet: Gfx, m_start: (i32, i32), m_delta: Option<(i32, i32)>, i: int) -> Option<u8> {
    let m = tline_map_coord(m_start, m_delta, i);
    sample_at(sheet, m.0 % (sheet.width as int), m.1 % (sheet.height as int))
}

/// The bits after writing colour index `c` at `(x, y)` (`n` bits per pixel, `w`
/// pixels per row), when the pixel lies within the bits.
pub open spec fn write_pixel(bits: Seq<bool>, x: int, y: int, n: int, w: int, c: u8) -> Seq<bool> {
    let start = pixel_start(x, y, n, w);
    if start + n <= bits.len() {
        Seq::new(bits.len(), |k: int| if start <= k < start + n { color_bits(c, n)[k - start] } else { bits[k] })
    } else {
        bits
    }
}

/// The bits of a `tline` image after its first `count` points.
pub open spec fn tline_bits(
    points: Seq<(isize, isize)>,
    count: int,
    m_start: (i32, i32),
    m_delta: Option<(i32, i32)>,
    sheet: Gfx,
    n: int,
    w: int,
    blank: Seq<bool>,
) -> Seq<bool>
    decreases count,
{
    if count <= 0 {
        blank
    } else {
        let prev = tline_bits(points, count - 1, m_start, m_delta, sheet, n, w, blank);
        let p = points[count - 1];
        match tline_sample(sheet, m_start, m_delta, count - 1) {
            Some(c) => write_pixel(prev, p.0 as usize as int, p.1 as usize as int, n, w, c),
            None => prev,
        }
    }
}

/// The map coordinates of points `0..=n` fit an `i32`.
pub open spec fn map_coords_fit(n: int, m_start: (i32, i32), m_delta: Option<(i32, i32)>) -> bool {
    forall|i: int|
        0 <= i <= n ==> i32::MIN <= #[trigger] tline_map_coord(m_start, m_delta, i).0 <= i32::MAX
            && i32::MIN <= tline_map_coord(m_start, m_delta, i).1 <= i32::MAX
}

/// Whether the map coordinates of points `0..=n` fit an `i32`.
fn map_coords_fit_exec(n: usize, m_start: (i32, i32), m_delta: Option<(i32, i32)>) -> (r: bool)
    ensures
        r == map_coords_fit(n as int, m_start, m_delta),
{
    let (dx, dy) = match m_delta {
        Some(dm) => dm,
        None => (1, 0),
    };
    proof {
        assert((n as int) * (dx as int) <= 0xffff_ffff_ffff_ffff * 0x8000_0000) by (nonlinear_arith)
            requires 0 <= n <= 0xffff_ffff_ffff_ffff, -0x8000_0000 <= dx <= 0x7fff_ffff;
        assert((n as int) * (dx as int) >= -0xffff_ffff_ffff_ffff * 0x8000_0000) by (nonlinear_arith)
            requires 0 <= n <= 0xffff_ffff_ffff_ffff, -0x8000_0000 <= dx <= 0x7fff_ffff;
        assert((n as int) * (dy as int) <= 0xffff_ffff_ffff_ffff * 0x8000_0000) by (nonlinear_arith)
            requires 0 <= n <= 0xffff_ffff_ffff_ffff, -0x8000_0000 <= dy <= 0x7fff_ffff;
        assert((n as int) * (dy as int) >= -0xffff_ffff_ffff_ffff * 0x8000_0000) by (nonlinear_arith)
            requires 0 <= n <= 0xffff_ffff_ffff_ffff, -0x8000_0000 <= dy <= 0x7fff_ffff;
    }
    let last_x = m_start.0 as i128 + (n as i128) * (dx as i128);
    let last_y = m_start.1 as i128 + (n as i128) * (dy as i128);
    if last_x < i32::MIN as i128 || last_x > i32::MAX as i128 || last_y < i32::MIN as i128 || last_y > i32::MAX as i128 {
        proof {
            assert(tline_map_coord(m_start, m_delta, n as int) == (last_x as int, last_y as int));
            assert(!(i32::MIN <= tline_map_coord(m_start, m_delta, n as int).0 <= i32::MAX
                && i32::MIN <= tline_map_coord(m_start, m_delta, n as int).1 <= i32::MAX));
        }
        return false;
    }
    proof {
        assert forall|i: int| 0 <= i <= n implies i32::MIN <= #[trigger] tline_map_coord(m_start, m_delta, i).0
            <= i32::MAX && i32::MIN <= tline_map_coord(m_start, m_delta, i).1 <= i32::MAX by {
            lemma_between(m_start.0 as int, dx as int, i, n as int);
            lemma_between(m_start.1 as int, dy as int, i, n as int);
        }
    }
    true
}

/// Point `p`'s offset in an image `w` wide of `n` bits per pixel fits (its
/// coordinates taken as `usize`).
pub open spec fn point_fits(p: (isize, isize), n: int, w: int) -> bool {
    pixel_offset_fits(p.0 as usize as int, p.1 as usize as int, n, w)
}

/// A `tline` runs without a panic: the line fits, the sheet's sizes fit an
/// `i32` and its colour indices a byte, the output image fits, every map
/// coordinate fits an `i32`, every point's offset in the output fits, and the
/// output's colour indices are bytes (a palette of at most 256 colours).
pub open spec fn tline_fits(
    a: (i32, i32),
    b: (i32, i32),
    m_start: (i32, i32),
    m_delta: Option<(i32, i32)>,
    sheet: Gfx,
    palette_len: usize,
) -> bool {
    let (c, d) = line_local(a, b);
    let points = bresenham_of(c, d);
    let w = span_len(a.0, b.0);
    let h = span_len(a.1, b.1);
    let n = tline_bitdepth(palette_len);
    &&& line_fits(a, b)
    &&& sheet.width <= i32::MAX
    &&& sheet.height <= i32::MAX
    &&& sheet.bitdepth <= 8
    &&& (sheet.width > 0 && sheet.height > 0 ==> pixel_offset_fits(
        sheet.width - 1,
        sheet.height - 1,
        sheet.bitdepth as int,
        sheet.width as int,
    ))
    &&& w * h * n <= max_bits()
    &&& map_coords_fit(points.len() as int, m_start, m_delta)
    &&& forall|i: int| 0 <= i < points.len() ==> #[trigger] point_fits(points[i], n, w)
    &&& n <= 8
}

/// `tline` on an indexed sprite sheet: along the line from `a` to `b`, each
/// point samples the sheet at map coordinate `m` (wrapped to the sheet), which
/// starts at `m_start` and moves by `m_delta` (one to the right by default)
/// per point; a sampled palette index is written at the point into a fresh
/// indexed image of the line's size, deep enough for the palette. Returns the
/// image and where its top-left corner goes; an error for a sheet without pixels.
pub fn tline_gfx(
    a: (i32, i32),
    b: (i32, i32),
    m_start: (i32, i32),
    m_delta: Option<(i32, i32)>,
    sheet: &Gfx,
    palette_len: usize,
) -> (r: Result<(Gfx, (i32, i32)), LineError>)
    requires
        tline_fits(a, b, m_start, m_delta, *sheet, palette_len),
    ensures
        ({
            let (c, d) = line_local(a, b);
            let points = bresenham_of(c, d);
            let w = span_len(a.0, b.0);
            let h = span_len(a.1, b.1);
            let n = tline_bitdepth(palette_len);
            if sheet.width == 0 || sheet.height == 0 {
                r == Err::<(Gfx, (i32, i32)), LineError>(LineError::EmptySheet)
            } else {
                r matches Ok((g, corner)) && corner == (min_i(a.0, b.0), min_i(a.1, b.1)) && g.bitdepth
                    == n && g.width == w && g.height == h && g.bits() == tline_bits(
                    points,
                    points.len() as int,
                    m_start,
                    m_delta,
                    *sheet,
                    n,
                    w,
                    Seq::new((w * h * n) as nat, |k: int| false),
                )
            }
        }),
{
    if sheet.width == 0 || sheet.height == 0 {
        return Err(LineError::EmptySheet);
    }
    let mx = if a.0 <= b.0 { a.0 } else { b.0 };
    let my = if a.1 <= b.1 { a.1 } else { b.1 };
    proof {
        assert(span_len(a.0, b.0) <= span_len(a.0, b.0) * span_len(a.1, b.1)) by (nonlinear_arith)
            requires span_len(a.1, b.1) >= 1, span_len(a.0, b.0) >= 1;
        assert(span_len(a.1, b.1) <= span_len(a.0, b.0) * span_len(a.1, b.1)) by (nonlinear_arith)
            requires span_len(a.1, b.1) >= 1, span_len(a.0, b.0) >= 1;
    }
    let w: usize = if a.0 <= b.0 { (b.0 as i64 - a.0 as i64) as usize } else { (a.0 as i64 - b.0 as i64) as usize };
    let h: usize = if a.1 <= b.1 { (b.1 as i64 - a.1 as i64) as usize } else { (a.1 as i64 - b.1 as i64) as usize };
    let w = w + 1;
    let h = h + 1;
    let c = ((a.0 as i64 - mx as i64) as isize, (a.1 as i64 - my as i64) as isize);
    let d = ((b.0 as i64 - mx as i64) as isize, (b.1 as i64 - my as i64) as isize);
    assert((c, d) == line_local(a, b));
    let depth = tline_depth(palette_len);
    proof {
        assert(w * h <= w * h * depth) by (nonlinear_arith) requires depth >= 1, w >= 1, h >= 1;
    }
    let mut out = Gfx::new(depth, w, h);
    let ghost blank = out.bits();
    let points = bresenham_points(c, d);
    let (dmx, dmy) = match m_delta {
        Some(dm) => dm,
        None => (1, 0),
    };
    let tex_w = sheet.width as u32;
    let tex_h = sheet.height as u32;
    let mut m = m_start;
    let mut i: usize = 0;
    proof {
        assert(tline_map_coord(m_start, m_delta, 0) == (m_start.0 as int, m_start.1 as int));
    }
    while i < points.len()
        invariant
            i <= points@.len(),
            points@ == bresenham_of(c, d),
            (c, d) == line_local(a, b),
            w == span_len(a.0, b.0),
            h == span_len(a.1, b.1),
            tline_fits(a, b, m_start, m_delta, *sheet, palette_len),
            sheet.width > 0,
            sheet.height > 0,
            tex_w == sheet.width,
            tex_h == sheet.height,
            (dmx as int, dmy as int) == map_step(m_delta),
            (m.0 as int, m.1 as int) == tline_map_coord(m_start, m_delta, i as int),
            out.bitdepth == depth,
            out.width == w,
            out.height == h,
            depth == tline_bitdepth(palette_len),
            blank == Seq::new((w * h * depth) as nat, |k: int| false),
            out.bits().len() == w * h * depth,
            out.bits() == tline_bits(points@, i as int, m_start, m_delta, *sheet, depth as int, w as int, blank),
        decreases points@.len() - i,
    {
        let (x, y) = points[i];
        let tx = wrap_coord(m.0, tex_w);
        let ty = wrap_coord(m.1, tex_h);
        proof {
            assert(tx <= sheet.width - 1 && ty <= sheet.height - 1);
            assert(pixel_start(tx as int, ty as int, sheet.bitdepth as int, sheet.width as int)
                <= pixel_start(sheet.width - 1, sheet.height - 1, sheet.bitdepth as int, sheet.width as int)) by (nonlinear_arith)
                requires tx <= sheet.width - 1, ty <= sheet.height - 1, 0 <= tx, 0 <= ty;
            assert(ty * sheet.bitdepth <= (sheet.height - 1) * sheet.bitdepth) by (nonlinear_arith)
                requires ty <= sheet.height - 1, 0 <= ty;
        }
        let sampled = sheet.get(tx, ty);
        proof {
            assert(sampled == tline_sample(*sheet, m_start, m_delta, i as int));
            let (cc, dd) = line_local(a, b);
            assert(cc == c && dd == d);
            assert(bresenham_of(cc, dd) == points@);
            assert(tline_bitdepth(palette_len) == depth as int);
            assert(span_len(a.0, b.0) == w as int);
            assert(0 <= i < bresenham_of(cc, dd).len());
            assert(point_fits(bresenham_of(cc, dd)[i as int], tline_bitdepth(palette_len), span_len(a.0, b.0)));
            assert(point_fits(points@[i as int], depth as int, w as int));
        }
        let ghost prev = out.bits();
        match sampled {
            Some(index) => {
                proof {
                    assert(out.bits().len() == w * h * depth);
                }
                let _ = out.set(x as usize, y as usize, index);
                proof {
                    assert(out.bits() =~= write_pixel(prev, x as usize as int, y as usize as int, depth as int, w as int, index));
                }
            },
            None => {},
        }
        proof {
            assert(i32::MIN <= tline_map_coord(m_start, m_delta, i + 1).0 <= i32::MAX);
            assert(tline_map_coord(m_start, m_delta, i + 1).0 == tline_map_coord(m_start, m_delta, i as int).0 + map_step(m_delta).0) by (nonlinear_arith);
            assert(tline_map_coord(m_start, m_delta, i + 1).1 == tline_map_coord(m_start, m_delta, i as int).1 + map_step(m_delta).1) by (nonlinear_arith);
        }
        m = (m.0 + dmx, m.1 + dmy);
        i = i + 1;
    }
    Ok((out, (mx, my)))
}

/// Map coordinates move linearly, so they stay between the first and the last.
proof fn lemma_between(start: int, d: int, i: int, len: int)
    requires
        0 <= i <= len,
    ensures
        (start <= start + i * d <= start + len * d) || (start + len * d <= start + i * d <= start),
{
    if d >= 0 {
        assert(0 <= i * d <= len * d) by (nonlinear_arith) requires 0 <= i <= len, d >= 0;
    } else {
        assert(len * d <= i * d <= 0) by (nonlinear_arith) requires 0 <= i <= len, d < 0;
    }
}

/// `tline_gfx` where it runs without a panic (see `tline_fits`); `None` where
/// it would not.
pub fn try_tline_gfx(
    a: (i32, i32),
    b: (i32, i32),
    m_start: (i32, i32),
    m_delta: Option<(i32, i32)>,
    sheet: &Gfx,
    palette_len: usize,
) -> (r: Option<Result<(Gfx, (i32, i32)), LineError>>)
    ensures
        tline_fits(a, b, m_start, m_delta, *sheet, palette_len) <==> r is Some,
        r matches Some(res) ==> ({
            let (c, d) = line_local(a, b);
            let points = bresenham_of(c, d);
            let w = span_len(a.0, b.0);
            let h = span_len(a.1, b.1);
            let n = tline_bitdepth(palette_len);
            if sheet.width == 0 || sheet.height == 0 {
                res == Err::<(Gfx, (i32, i32)), LineError>(LineError::EmptySheet)
            } else {
                res matches Ok((g, corner)) && corner == (min_i(a.0, b.0), min_i(a.1, b.1)) && g.bitdepth
                    == n && g.width == w && g.height == h && g.bits() == tline_bits(
                    points,
                    points.len() as int,
                    m_start,
                    m_delta,
                    *sheet,
                    n,
                    w,
                    Seq::new((w * h * n) as nat, |k: int| false),
                )
            }
        }),
{
    if tline_fits_exec(a, b, m_start, m_delta, sheet, palette_len) {
        Some(tline_gfx(a, b, m_start, m_delta, sheet, palette_len))
    } else {
        None
    }
}

/// Whether a `tline` runs without a panic (see `tline_fits`).
fn tline_fits_exec(
    a: (i32, i32),
    b: (i32, i32),
    m_start: (i32, i32),
    m_delta: Option<(i32, i32)>,
    sheet: &Gfx,
    palette_len: usize,
) -> (r: bool)
    ensures
        r == tline_fits(a, b, m_start, m_delta, *sheet, palette_len),
{
    let sw: u128 = if a.0 <= b.0 { (b.0 as i64 - a.0 as i64) as u128 + 1 } else { (a.0 as i64 - b.0 as i64) as u128 + 1 };
    let sh: u128 = if a.1 <= b.1 { (b.1 as i64 - a.1 as i64) as u128 + 1 } else { (a.1 as i64 - b.1 as i64) as u128 + 1 };
    assert(sw * sh <= 0x1_0000_0000 * 0x1_0000_0000) by (nonlinear_arith)
        requires 1 <= sw <= 0x1_0000_0000, 1 <= sh <= 0x1_0000_0000;
    if sw * sh > u32::MAX as u128 || sw * sh * 4 > usize::MAX as u128 {
        return false;
    }
    assert(line_fits(a, b));
    if sheet.width > i32::MAX as usize || sheet.height > i32::MAX as usize || sheet.bitdepth > 8 {
        return false;
    }
    let bd = sheet.bitdepth as u128;
    let tw = sheet.width as u128;
    let th = sheet.height as u128;
    if tw > 0 && th > 0 {
        assert((th - 1) * bd * tw <= 0x8000_0000 * 8 * 0x8000_0000) by (nonlinear_arith)
            requires th <= 0x8000_0000, bd <= 8, tw <= 0x8000_0000, th >= 1;
        assert((tw - 1) * bd <= 0x8000_0000 * 8) by (nonlinear_arith)
            requires tw <= 0x8000_0000, bd <= 8, tw >= 1;
        assert((th - 1) * bd <= 0x8000_0000 * 8) by (nonlinear_arith)
            requires th <= 0x8000_0000, bd <= 8, th >= 1;
        if (th - 1) * bd > usize::MAX as u128 || (tw - 1) * bd + (th - 1) * bd * tw + bd > usize::MAX as u128 {
            return false;
        }
    }
    let n = tline_depth(palette_len);
    if n > 8 {
        return false;
    }
    let n128 = n as u128;
    assert(sw * sh * n128 <= 0xffff_ffff * 8) by (nonlinear_arith)
        requires sw * sh <= 0xffff_ffff, n128 <= 8;
    if sw * sh * n128 > (usize::MAX / 8) as u128 {
        return false;
    }
    proof {
        assert(crate::gfx::max_bits() == usize::MAX / 8);
    }
    let mx = if a.0 <= b.0 { a.0 } else { b.0 };
    let my = if a.1 <= b.1 { a.1 } else { b.1 };
    let c = ((a.0 as i64 - mx as i64) as isize, (a.1 as i64 - my as i64) as isize);
    let d = ((b.0 as i64 - mx as i64) as isize, (b.1 as i64 - my as i64) as isize);
    assert((c, d) == line_local(a, b));
    proof {
        assert(sw <= sw * sh) by (nonlinear_arith) requires sh >= 1, sw >= 1;
        assert(sh <= sw * sh) by (nonlinear_arith) requires sh >= 1, sw >= 1;
    }
    let points = bresenham_points(c, d);
    let len = points.len();
    if !map_coords_fit_exec(len, m_start, m_delta) {
        proof {
            let (cc, dd) = line_local(a, b);
            assert(cc == c && dd == d);
            assert(bresenham_of(cc, dd).len() == len);
        }
        return false;
    }
    let w = sw as usize;
    let mut i: usize = 0;
    while i < len
        invariant
            i <= len == points@.len(),
            points@ == bresenham_of(c, d),
            (c, d) == line_local(a, b),
            n == tline_bitdepth(palette_len),
            w == span_len(a.0, b.0),
            w <= 0xffff_ffff,
            1 <= n <= 8,
            forall|j: int| 0 <= j < i ==> #[trigger] point_fits(points@[j], n as int, w as int),
        decreases len - i,
    {
        let (x, y) = points[i];
        let ux = x as usize as u128;
        let uy = y as usize as u128;
        let n128 = n as u128;
        let w128 = w as u128;
        proof {
            assert(uy * n128 <= 0xffff_ffff_ffff_ffff * 8) by (nonlinear_arith)
                requires uy <= 0xffff_ffff_ffff_ffff, n128 <= 8;
            assert(uy * n128 * w128 <= 0xffff_ffff_ffff_ffff * 8 * 0xffff_ffff) by (nonlinear_arith)
                requires uy <= 0xffff_ffff_ffff_ffff, n128 <= 8, w128 <= 0xffff_ffff;
            assert(ux * n128 <= 0xffff_ffff_ffff_ffff * 8) by (nonlinear_arith)
                requires ux <= 0xffff_ffff_ffff_ffff, n128 <= 8;
        }
        if uy * n128 > usize::MAX as u128 || ux * n128 + uy * n128 * w128 + n128 > usize::MAX as u128 {
            proof {
                assert(!point_fits(points@[i as int], n as int, w as int));
                let (cc, dd) = line_local(a, b);
                assert(cc == c && dd == d);
                assert(bresenham_of(cc, dd) == points@);
                assert(!point_fits(bresenham_of(cc, dd)[i as int], tline_bitdepth(palette_len), span_len(a.0, b.0)));
            }
            return false;
        }
        i = i + 1;
    }
    true
}

/// What the `i`th point of a `tline` samples from an RGBA sheet.
pub open spec fn tline_rgba_sample(sheet: RgbaImage, m_start: (i32, i32), m_delta: Option<(i32, i32)>, i: int) -> [u8; 4] {
    let m = tline_map_coord(m_start, m_delta, i);
    sheet.at(m.0 % (sheet.width as int), m.1 % (sheet.height as int))
}

/// The bytes of an RGBA `tline` image after its first `count` points: each
/// point's pixel takes the colour its map coordinate samples.
pub open spec fn tline_rgba_data(
    points: Seq<(isize, isize)>,
    count: int,
    m_start: (i32, i32),
    m_delta: Option<(i32, i32)>,
    sheet: RgbaImage,
    w: int,
    blank: Seq<u8>,
) -> Seq<u8>
    decreases count,
{
    if count <= 0 {
        blank
    } else {
        let prev = tline_rgba_data(points, count - 1, m_start, m_delta, sheet, w, blank);
        let q = landing_index(points[count - 1], w);
        painted(prev, tline_rgba_sample(sheet, m_start, m_delta, count - 1), |k: int| k == q)
    }
}

/// An RGBA `tline` runs without a panic: the line fits, the sheet holds its
/// pixels and its sizes fit an `i32`, and every map coordinate fits an `i32`.
pub open spec fn tline_rgba_fits(
    a: (i32, i32),
    b: (i32, i32),
    m_start: (i32, i32),
    m_delta: Option<(i32, i32)>,
    sheet: RgbaImage,
) -> bool {
    let (c, d) = line_local(a, b);
    &&& line_fits(a, b)
    &&& sheet.wf()
    &&& sheet.width <= i32::MAX
    &&& sheet.height <= i32::MAX
    &&& map_coords_fit(bresenham_of(c, d).len() as int, m_start, m_delta)
}

/// `tline` on an RGBA sprite sheet: along the line from `a` to `b`, each point
/// takes the colour of the sheet at map coordinate `m` (wrapped to the sheet),
/// which starts at `m_start` and moves by `m_delta` (one to the right by
/// default) per point, in a fresh transparent image of the line's size.
/// Returns the image and where its top-left corner goes; an error for a sheet
/// without pixels (every point lies in the line's box, so none falls outside
/// the image).
pub fn tline_rgba(
    a: (i32, i32),
    b: (i32, i32),
    m_start: (i32, i32),
    m_delta: Option<(i32, i32)>,
    sheet: &RgbaImage,
) -> (r: Result<(Raster, (i32, i32)), LineError>)
    requires
        tline_rgba_fits(a, b, m_start, m_delta, *sheet),
    ensures
        ({
            let (c, d) = line_local(a, b);
            let points = bresenham_of(c, d);
            let w = span_len(a.0, b.0);
            let h = span_len(a.1, b.1);
            if sheet.width == 0 || sheet.height == 0 {
                r == Err::<(Raster, (i32, i32)), LineError>(LineError::EmptySheet)
            } else {
                &&& r is Ok
                &&& match r {
                    Ok((image, corner)) => {
                        &&& forall|i: int| 0 <= i < points.len() ==> lands(#[trigger] points[i], w, h)
                        &&& corner == (min_i(a.0, b.0), min_i(a.1, b.1))
                        &&& image.wf()
                        &&& image.width == w
                        &&& image.height == h
                        &&& image.data@ == tline_rgba_data(
                            points,
                            points.len() as int,
                            m_start,
                            m_delta,
                            *sheet,
                            w,
                            Seq::new((w * h * 4) as nat, |k: int| 0u8),
                        )
                    },
                    Err(e) => exists|i: int|
                        #[trigger] first_stray(points, w, h, i) && e == LineError::OutOfBounds {
                            x: points[i].0 as u32,
                            y: points[i].1 as u32,
                        },
                }
            }
        }),
{
    if sheet.width == 0 || sheet.height == 0 {
        return Err(LineError::EmptySheet);
    }
    let mx = if a.0 <= b.0 { a.0 } else { b.0 };
    let my = if a.1 <= b.1 { a.1 } else { b.1 };
    let w: u32 = if a.0 <= b.0 { (b.0 as i64 - a.0 as i64) as u32 } else { (a.0 as i64 - b.0 as i64) as u32 };
    let h: u32 = if a.1 <= b.1 { (b.1 as i64 - a.1 as i64) as u32 } else { (a.1 as i64 - b.1 as i64) as u32 };
    proof {
        assert(span_len(a.0, b.0) >= 1 && span_len(a.1, b.1) >= 1);
        assert(span_len(a.0, b.0) <= span_len(a.0, b.0) * span_len(a.1, b.1)) by (nonlinear_arith)
            requires span_len(a.1, b.1) >= 1, span_len(a.0, b.0) >= 1;
        assert(span_len(a.1, b.1) <= span_len(a.0, b.0) * span_len(a.1, b.1)) by (nonlinear_arith)
            requires span_len(a.1, b.1) >= 1, span_len(a.0, b.0) >= 1;
    }
    let w = w + 1;
    let h = h + 1;
    let c = ((a.0 as i64 - mx as i64) as isize, (a.1 as i64 - my as i64) as isize);
    let d = ((b.0 as i64 - mx as i64) as isize, (b.1 as i64 - my as i64) as isize);
    assert((c, d) == line_local(a, b));
    let points = bresenham_points(c, d);
    let mut image = Raster::new((w, h), [0u8, 0u8, 0u8, 0u8]);
    let ghost blank = image.data@;
    assert(blank =~= Seq::new((w * h * 4) as nat, |k: int| 0u8));
    let (dmx, dmy) = match m_delta {
        Some(dm) => dm,
        None => (1, 0),
    };
    let tex_w = sheet.width;
    let tex_h = sheet.height;
    let mut m = m_start;
    let mut i: usize = 0;
    proof {
        assert(tline_map_coord(m_start, m_delta, 0) == (m_start.0 as int, m_start.1 as int));
    }
    while i < points.len()
        invariant
            i <= points@.len(),
            points@ == bresenham_of(c, d),
            (c, d) == line_local(a, b),
            w == span_len(a.0, b.0),
            h == span_len(a.1, b.1),
            tline_rgba_fits(a, b, m_start, m_delta, *sheet),
            sheet.width > 0,
            sheet.height > 0,
            tex_w == sheet.width,
            tex_h == sheet.height,
            (dmx as int, dmy as int) == map_step(m_delta),
            (m.0 as int, m.1 as int) == tline_map_coord(m_start, m_delta, i as int),
            image.wf(),
            image.width == w,
            image.height == h,
            blank == Seq::new((w * h * 4) as nat, |k: int| 0u8),
            forall|j: int| 0 <= j < i ==> lands(#[trigger] points@[j], w as int, h as int),
            forall|j: int| 0 <= j < points@.len() ==> in_box(#[trigger] points@[j], c, d),
            0 <= c.0 < w && 0 <= d.0 < w && 0 <= c.1 < h && 0 <= d.1 < h,
            image.data@ == tline_rgba_data(points@, i as int, m_start, m_delta, *sheet, w as int, blank),
        decreases points@.len() - i,
    {
        let (x, y) = points[i];
        let tx = wrap_coord(m.0, tex_w);
        let ty = wrap_coord(m.1, tex_h);
        let color = sheet.color_at(tx as u32, ty as u32);
        let ux = x as u32;
        let uy = y as u32;
        proof {
            assert(in_box(points@[i as int], c, d));
        }
        if ux >= w || uy >= h {
            let e = LineError::OutOfBounds { x: ux, y: uy };
            proof {
                assert(first_stray(points@, w as int, h as int, i as int));
                let (c2, d2) = line_local(a, b);
                assert(c2 == c && d2 == d);
                assert(bresenham_of(c2, d2) == points@);
                assert(span_len(a.0, b.0) == w as int);
            }
            return Err(e);
        }
        proof {
            assert(uy * w + ux < w * h) by (nonlinear_arith) requires ux < w, uy < h;
            assert(color == tline_rgba_sample(*sheet, m_start, m_delta, i as int));
            assert(landing_index(points@[i as int], w as int) == uy * w + ux);
            let (c2, d2) = line_local(a, b);
            assert(c2 == c && d2 == d);
            assert(i < bresenham_of(c2, d2).len());
        }
        image.paint_color(uy * w + ux, color);
        proof {
            assert(i32::MIN <= tline_map_coord(m_start, m_delta, i + 1).0 <= i32::MAX);
            assert(tline_map_coord(m_start, m_delta, i + 1).0 == tline_map_coord(m_start, m_delta, i as int).0 + map_step(m_delta).0) by (nonlinear_arith);
            assert(tline_map_coord(m_start, m_delta, i + 1).1 == tline_map_coord(m_start, m_delta, i as int).1 + map_step(m_delta).1) by (nonlinear_arith);
        }
        m = (m.0 + dmx, m.1 + dmy);
        i = i + 1;
    }
    Ok((image, (mx, my)))
}

/// `tline_rgba` where it runs without a panic (see `tline_rgba_fits`); `None`
/// where it would not.
pub fn try_tline_rgba(
    a: (i32, i32),
    b: (i32, i32),
    m_start: (i32, i32),
    m_delta: Option<(i32, i32)>,
    sheet: &RgbaImage,
) -> (r: Option<Result<(Raster, (i32, i32)), LineError>>)
    ensures
        tline_rgba_fits(a, b, m_start, m_delta, *sheet) <==> r is Some,
        r matches Some(res) ==> ({
            let (c, d) = line_local(a, b);
            let points = bresenham_of(c, d);
            let w = span_len(a.0, b.0);
            let h = span_len(a.1, b.1);
            if sheet.width == 0 || sheet.height == 0 {
                res == Err::<(Raster, (i32, i32)), LineError>(LineError::EmptySheet)
            } else {
                &&& res is Ok
                &&& match res {
                    Ok((image, corner)) => {
                        &&& forall|i: int| 0 <= i < points.len() ==> lands(#[trigger] points[i], w, h)
                        &&& corner == (min_i(a.0, b.0), min_i(a.1, b.1))
                        &&& image.wf()
                        &&& image.width == w
                        &&& image.height == h
                        &&& image.data@ == tline_rgba_data(
                            points,
                            points.len() as int,
                            m_start,
                            m_delta,
                            *sheet,
                            w,
                            Seq::new((w * h * 4) as nat, |k: int| 0u8),
                        )
                    },
                    Err(e) => exists|i: int|
                        #[trigger] first_stray(points, w, h, i) && e == LineError::OutOfBounds {
                            x: points[i].0 as u32,
                            y: points[i].1 as u32,
                        },
                }
            }
        }),
{
    let sw: u128 = if a.0 <= b.0 { (b.0 as i64 - a.0 as i64) as u128 + 1 } else { (a.0 as i64 - b.0 as i64) as u128 + 1 };
    let sh: u128 = if a.1 <= b.1 { (b.1 as i64 - a.1 as i64) as u128 + 1 } else { (a.1 as i64 - b.1 as i64) as u128 + 1 };
    assert(sw * sh <= 0x1_0000_0000 * 0x1_0000_0000) by (nonlinear_arith)
        requires 1 <= sw <= 0x1_0000_0000, 1 <= sh <= 0x1_0000_0000;
    if sw * sh > u32::MAX as u128 || sw * sh * 4 > usize::MAX as u128 {
        return None;
    }
    assert(line_fits(a, b));
    if sheet.width > i32::MAX as u32 || sheet.height > i32::MAX as u32 {
        return None;
    }
    let sheet_w = sheet.width as u128;
    let sheet_h = sheet.height as u128;
    assert(sheet_w * sheet_h <= 0x8000_0000 * 0x8000_0000) by (nonlinear_arith)
        requires sheet_w <= 0x8000_0000, sheet_h <= 0x8000_0000, sheet_w >= 0, sheet_h >= 0;
    if sheet.pixels.len() as u128 != sheet_w * sheet_h {
        return None;
    }
    let mx = if a.0 <= b.0 { a.0 } else { b.0 };
    let my = if a.1 <= b.1 { a.1 } else { b.1 };
    let c = ((a.0 as i64 - mx as i64) as isize, (a.1 as i64 - my as i64) as isize);
    let d = ((b.0 as i64 - mx as i64) as isize, (b.1 as i64 - my as i64) as isize);
    assert((c, d) == line_local(a, b));
    proof {
        assert(sw <= sw * sh) by (nonlinear_arith) requires sh >= 1, sw >= 1;
        assert(sh <= sw * sh) by (nonlinear_arith) requires sh >= 1, sw >= 1;
    }
    let points = bresenham_points(c, d);
    if !map_coords_fit_exec(points.len(), m_start, m_delta) {
        return None;
    }
    Some(tline_rgba(a, b, m_start, m_delta, sheet))
}

/// The registrations of lines: their script functions.
pub fn plugin(app: &mut AppPlan)
    ensures
        final(app).same_features(*old(app)),
        final(app).steps@ == old(app).steps@ + script_steps(old(app).scripting, seq!["line", "tline"]),
{
    let names: [&'static str; 2] = ["line", "tline"];
    assert(names@ =~= seq!["line", "tline"]);
    let enabled = app.scripting;
    add_script_functions(app, enabled, &names);
}

} // verus!
