//! Shape geometry in whole pixels.
use vstd::prelude::*;

use crate::plan::{add_script_functions, script_steps, AppPlan};

verus! {

/// The sign of `v`: -1, 0 or 1.
pub open spec fn sign(v: int) -> int {
    if v > 0 {
        1
    } else if v < 0 {
        -1
    } else {
        0
    }
}

/// The inclusive corners of the rectangle with origin `(x, y)` and size `(w, h)`:
/// the last pixel is `origin + size - sign(size)`, and the corners come ordered.
pub open spec fn spec_size_to_corners(x: int, y: int, w: int, h: int) -> (int, int, int, int) {
    let x1 = if w == 0 { x } else { x + w - sign(w) };
    let y1 = if h == 0 { y } else { y + h - sign(h) };
    (
        if x <= x1 { x } else { x1 },
        if y <= y1 { y } else { y1 },
        if x <= x1 { x1 } else { x },
        if y <= y1 { y1 } else { y },
    )
}

/// The inclusive corners `(x0, y0, x1, y1)` of a rounded rectangle given as
/// origin and size (already floored to whole pixels), with `x0 <= x1`, `y0 <= y1`.
pub fn size_to_corners(x: i32, y: i32, w: i32, h: i32) -> (r: (i32, i32, i32, i32))
    requires
        i32::MIN <= x + w <= i32::MAX,
        i32::MIN <= y + h <= i32::MAX,
    ensures
        (r.0 as int, r.1 as int, r.2 as int, r.3 as int) == spec_size_to_corners(
            x as int,
            y as int,
            w as int,
            h as int,
        ),
        r.0 <= r.2,
        r.1 <= r.3,
{
    let x1 = if w == 0 {
        x
    } else if w > 0 {
        x + w - 1
    } else {
        x + w + 1
    };
    let y1 = if h == 0 {
        y
    } else if h > 0 {
        y + h - 1
    } else {
        y + h + 1
    };
    let (x0, x1) = if x <= x1 {
        (x, x1)
    } else {
        (x1, x)
    };
    let (y0, y1) = if y <= y1 {
        (y, y1)
    } else {
        (y1, y)
    };
    (x0, y0, x1, y1)
}

/// The rectangle spans `|w|` pixels across (one for a zero width).
pub proof fn lemma_corners_width(x: int, y: int, w: int, h: int)
    ensures
        ({
            let (x0, y0, x1, y1) = spec_size_to_corners(x, y, w, h);
            &&& x1 - x0 + 1 == if w == 0 { 1 } else if w > 0 { w } else { -w }
            &&& y1 - y0 + 1 == if h == 0 { 1 } else if h > 0 { h } else { -h }
        }),
{
}

/// The registrations of rounded rectangles: their script functions.
pub fn plugin(app: &mut AppPlan)
    ensures
        final(app).same_features(*old(app)),
        final(app).steps@ == old(app).steps@ + script_steps(
            old(app).scripting,
            seq!["rrectfill", "rrect"],
        ),
{
    let names: [&'static str; 2] = ["rrectfill", "rrect"];
    assert(names@ =~= seq!["rrectfill", "rrect"]);
    let enabled = app.scripting;
    add_script_functions(app, enabled, &names);
}

} // verus!
