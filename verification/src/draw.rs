//! The draw state's pen and cursor, and plotting single pixels into indexed
//! images: `color`, `cursor`, `pset` and `sset`.
use vstd::prelude::*;

use crate::color::PColor;
use crate::gfx::{color_bits, pixel_offset_fits, pixel_start, Gfx};

verus! {

/// Why a draw call fails.
#[derive(Debug, Clone, Copy, PartialEq, Eq, Structural)]
pub enum DrawError {
    /// The palette has no colour of this index.
    NoSuchColor(usize),
    /// The pixel lies outside the image.
    OutOfBounds { color: usize, x: u32, y: u32 },
    /// A literal colour cannot be written into an indexed image.
    NotIndexed,
}

/// Pico-8 `color([c])`: sets the pen to `c` when given and returns the pen
/// it had. A palette index must be below the palette's length (`palette_len`),
/// else the pen is kept and the call fails.
pub fn color(pen: &mut PColor, new_color: Option<PColor>, palette_len: usize) -> (r: Result<PColor, DrawError>)
    ensures
        match new_color {
            Some(PColor::Palette(n)) => if n >= palette_len {
                r == Err::<PColor, DrawError>(DrawError::NoSuchColor(n)) && *final(pen) == *old(pen)
            } else {
                r == Ok::<PColor, DrawError>(*old(pen)) && *final(pen) == PColor::Palette(n)
            },
            Some(c) => r == Ok::<PColor, DrawError>(*old(pen)) && *final(pen) == c,
            None => r == Ok::<PColor, DrawError>(*old(pen)) && *final(pen) == *old(pen),
        },
{
    let last = *pen;
    match new_color {
        Some(c) => {
            match c {
                PColor::Palette(n) => {
                    if n >= palette_len {
                        return Err(DrawError::NoSuchColor(n));
                    }
                },
                PColor::Color(_) => {},
            }
            *pen = c;
        },
        None => {},
    }
    Ok(last)
}

/// Pico-8 `cursor([pos], [color])`: moves the print cursor and sets the pen,
/// each when given, and returns what they were; `V` is a 2D position.
pub fn cursor<V: Copy>(print_cursor: &mut V, pen: &mut PColor, pos: Option<V>, color: Option<PColor>) -> (r: (V, PColor))
    ensures
        r == (*old(print_cursor), *old(pen)),
        *final(print_cursor) == match pos {
            Some(p) => p,
            None => *old(print_cursor),
        },
        *final(pen) == match color {
            Some(c) => c,
            None => *old(pen),
        },
{
    let last = (*print_cursor, *pen);
    match pos {
        Some(p) => {
            *print_cursor = p;
        },
        None => {},
    }
    match color {
        Some(c) => {
            *pen = c;
        },
        None => {},
    }
    last
}

/// The bits after writing colour index `c` at `(x, y)`, when the pixel's bits
/// lie within the image (the image is unchanged otherwise).
pub open spec fn gfx_after_set(g: Gfx, x: int, y: int, c: u8) -> Seq<bool> {
    let n = g.bitdepth as int;
    let start = pixel_start(x, y, n, g.width as int);
    if start + n <= g.bits().len() {
        Seq::new(g.bits().len(), |k: int| if start <= k < start + n { color_bits(c, n)[k - start] } else { g.bits()[k] })
    } else {
        g.bits()
    }
}

/// The pixel's offset fits, and a pixel within the image is a byte deep.
pub open spec fn settable(g: Gfx, x: int, y: int) -> bool {
    &&& pixel_offset_fits(x, y, g.bitdepth as int, g.width as int)
    &&& pixel_start(x, y, g.bitdepth as int, g.width as int) + g.bitdepth <= g.bits().len() ==> g.bitdepth <= 8
}

/// Writes colour index `c` at `(x, y)` and states the image after.
fn set_pixel(g: &mut Gfx, x: u32, y: u32, c: u8) -> (r: bool)
    requires
        settable(*old(g), x as int, y as int),
    ensures
        final(g).bitdepth == old(g).bitdepth,
        final(g).width == old(g).width,
        final(g).height == old(g).height,
        final(g).bits() == gfx_after_set(*old(g), x as int, y as int, c),
        r == (pixel_start(x as int, y as int, old(g).bitdepth as int, old(g).width as int) + old(g).bitdepth
            <= old(g).bits().len()),
{
    let ghost before = *g;
    let r = g.set(x as usize, y as usize, c);
    proof {
        if r {
            assert(g.bits() =~= gfx_after_set(before, x as int, y as int, c));
        }
    }
    r
}

/// Pico-8 `pset(pos, [color])` on the indexed canvas: writes the colour (the
/// pen when none is given) at `pos`; fails for a pixel outside the image. The
/// colour must be a palette index.
pub fn pset(canvas: &mut Gfx, x: u32, y: u32, color: Option<PColor>, pen: PColor) -> (r: Result<(), DrawError>)
    requires
        match color {
            Some(c) => c,
            None => pen,
        } is Palette,
        settable(*old(canvas), x as int, y as int),
    ensures
        ({
            let p = match color {
                Some(c) => c,
                None => pen,
            }->Palette_0;
            let inside = pixel_start(x as int, y as int, old(canvas).bitdepth as int, old(canvas).width as int)
                + old(canvas).bitdepth <= old(canvas).bits().len();
            &&& final(canvas).bitdepth == old(canvas).bitdepth
            &&& final(canvas).width == old(canvas).width
            &&& final(canvas).height == old(canvas).height
            &&& final(canvas).bits() == gfx_after_set(*old(canvas), x as int, y as int, p as u8)
            &&& if inside {
                r is Ok
            } else {
                r == Err::<(), DrawError>(DrawError::OutOfBounds { color: p, x, y })
            }
        }),
{
    let c = match color {
        Some(c) => c,
        None => pen,
    };
    match c {
        PColor::Palette(p) => {
            if set_pixel(canvas, x, y, p as u8) {
                Ok(())
            } else {
                Err(DrawError::OutOfBounds { color: p, x, y })
            }
        },
        PColor::Color(_) => Err(DrawError::NotIndexed),
    }
}

/// Pico-8 `sset(pos, [color])` on an indexed sprite sheet: writes the colour
/// (the pen when none is given) at `pos` when it lies within the sheet; a
/// literal colour cannot be written.
pub fn sset(sheet: &mut Gfx, x: u32, y: u32, color: Option<PColor>, pen: PColor) -> (r: Result<(), DrawError>)
    requires
        settable(*old(sheet), x as int, y as int),
    ensures
        final(sheet).bitdepth == old(sheet).bitdepth,
        final(sheet).width == old(sheet).width,
        final(sheet).height == old(sheet).height,
        match match color {
            Some(c) => c,
            None => pen,
        } {
            PColor::Palette(p) => r is Ok && final(sheet).bits() == gfx_after_set(*old(sheet), x as int, y as int, p as u8),
            PColor::Color(_) => r == Err::<(), DrawError>(DrawError::NotIndexed) && final(sheet).bits() == old(sheet).bits(),
        },
{
    let c = match color {
        Some(c) => c,
        None => pen,
    };
    match c {
        PColor::Palette(p) => {
            let _ = set_pixel(sheet, x, y, p as u8);
            Ok(())
        },
        PColor::Color(_) => Err(DrawError::NotIndexed),
    }
}

/// `rnd` of a list: the item at a random number `r` modulo the list's length,
/// taken out by swapping the last item into its place; nothing from an empty list.
pub fn rnd_pick<T>(list: &mut Vec<T>, r: u64) -> (item: Option<T>)
    ensures
        old(list)@.len() == 0 ==> item is None && final(list)@ == old(list)@,
        old(list)@.len() > 0 ==> ({
            let i = (r as usize as int) % (old(list)@.len() as int);
            &&& item == Some(old(list)@[i])
            &&& final(list)@ == old(list)@.update(i, old(list)@.last()).drop_last()
        }),
{
    if list.len() == 0 {
        return None;
    }
    let i = (r as usize) % list.len();
    Some(list.swap_remove(i))
}

} // verus!
