//! Pen colours: a palette index or a literal RGBA colour, and the pen default.
use vstd::prelude::*;

verus! {

/// A colour: an index into the current palette, or an sRGB colour as RGBA bytes.
#[derive(Debug, Clone, Copy)]
pub enum PColor {
    Palette(usize),
    Color([u8; 4]),
}

impl PColor {
    /// Maps the palette index with `f`; a literal colour is kept.
    pub fn map_pal<F: FnOnce(usize) -> usize>(&self, f: F) -> (r: PColor)
        requires
            *self matches PColor::Palette(i) ==> f.requires((i,)),
        ensures
            match *self {
                PColor::Palette(i) => r matches PColor::Palette(j) && f.ensures((i,), j),
                PColor::Color(c) => r == PColor::Color(c),
            },
    {
        match *self {
            PColor::Palette(i) => PColor::Palette(f(i)),
            PColor::Color(c) => PColor::Color(c),
        }
    }
}

impl From<usize> for PColor {
    fn from(n: usize) -> (r: PColor) {
        PColor::Palette(n)
    }
}

impl vstd::std_specs::convert::FromSpecImpl<usize> for PColor {
    open spec fn obeys_from_spec() -> bool {
        true
    }

    open spec fn from_spec(v: usize) -> PColor {
        PColor::Palette(v)
    }
}

/// A colour that may defer to the current pen.
#[derive(Debug, Clone, Copy)]
pub enum N9Color {
    Pen,
    PColor(PColor),
}

impl Default for N9Color {
    fn default() -> (r: N9Color)
        ensures
            r == N9Color::Pen,
    {
        N9Color::Pen
    }
}

impl N9Color {
    /// The colour to draw with: the pen colour for `Pen`.
    pub fn into_pcolor(&self, pen_color: &PColor) -> (r: PColor)
        ensures
            r == match *self {
                N9Color::Pen => *pen_color,
                N9Color::PColor(p) => p,
            },
    {
        match *self {
            N9Color::Pen => *pen_color,
            N9Color::PColor(p) => p,
        }
    }

    /// `Pen` when no colour is given.
    pub fn from_option(c: Option<PColor>) -> (r: N9Color)
        ensures
            r == match c {
                Some(p) => N9Color::PColor(p),
                None => N9Color::Pen,
            },
    {
        match c {
            Some(c) => N9Color::PColor(c),
            None => N9Color::Pen,
        }
    }
}

impl From<PColor> for N9Color {
    fn from(c: PColor) -> (r: N9Color) {
        N9Color::PColor(c)
    }
}

impl vstd::std_specs::convert::FromSpecImpl<PColor> for N9Color {
    open spec fn obeys_from_spec() -> bool {
        true
    }

    open spec fn from_spec(v: PColor) -> N9Color {
        N9Color::PColor(v)
    }
}

/// How `pal` remaps colours: on the following draws, on the screen, or secondary.
#[derive(Debug, Clone, Copy, PartialEq, Eq, Structural)]
pub enum PalModify {
    Following,
    Present,
    Secondary,
}

impl Default for PalModify {
    fn default() -> (r: PalModify)
        ensures
            r == PalModify::Following,
    {
        PalModify::Following
    }
}

impl PalModify {
    /// The mode that `pal`'s numeric argument names; modes above 2 do not exist.
    pub fn from_mode(mode: u8) -> (r: PalModify)
        requires
            mode <= 2,
        ensures
            r == (if mode == 0 {
                PalModify::Following
            } else if mode == 1 {
                PalModify::Present
            } else {
                PalModify::Secondary
            }),
    {
        match mode {
            0 => PalModify::Following,
            1 => PalModify::Present,
            _ => PalModify::Secondary,
        }
    }
}

} // verus!
