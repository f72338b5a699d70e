//! Palettes: how colour indices map to pixels of a palette image, the palette
//! settings of a config, and palette selection.
use vstd::prelude::*;

use crate::color::PColor;
use crate::plan::{add_script_functions, script_steps, AppPlan};

verus! {

/// How palette indices map to pixels in the palette image.
///
/// - `LinearByRow`: colour 0 is (0, 0), 1 is (1, 0), …, `width` is (0, 1).
/// - `LinearByColumn`: colour 0 is (0, 0), 1 is (0, 1), …, `height` is (1, 0).
/// - `FromRow(row)`: only that row; colour i is (i, row).
/// - `FromColumn(col)`: only that column; colour i is (col, i).
#[derive(Debug, Clone, Copy, PartialEq, Eq, Structural)]
pub enum PaletteAccess {
    LinearByRow,
    LinearByColumn,
    FromRow(u32),
    FromColumn(u32),
}

impl Default for PaletteAccess {
    fn default() -> (r: PaletteAccess)
        ensures
            r == PaletteAccess::LinearByRow,
    {
        PaletteAccess::LinearByRow
    }
}

/// The number of colours for an access mode and image size (saturating).
pub open spec fn spec_palette_len(access: PaletteAccess, width: u32, height: u32) -> int {
    match access {
        PaletteAccess::LinearByRow | PaletteAccess::LinearByColumn => if width * height
            <= usize::MAX {
            width * height
        } else {
            usize::MAX as int
        },
        PaletteAccess::FromRow(_) => width as int,
        PaletteAccess::FromColumn(_) => height as int,
    }
}

/// Number of palette entries for this access mode and image size.
pub fn palette_len(access: &PaletteAccess, width: u32, height: u32) -> (r: usize)
    ensures
        r == spec_palette_len(*access, width, height),
{
    match access {
        PaletteAccess::LinearByRow | PaletteAccess::LinearByColumn => {
            match (width as usize).checked_mul(height as usize) {
                Some(p) => p,
                None => usize::MAX,
            }
        },
        PaletteAccess::FromRow(_) => width as usize,
        PaletteAccess::FromColumn(_) => height as usize,
    }
}

/// The pixel that holds palette colour `index`, if the index is in range.
pub open spec fn spec_palette_index_to_xy(
    access: PaletteAccess,
    width: u32,
    height: u32,
    index: int,
) -> Option<(u32, u32)> {
    let w = width as int;
    let h = height as int;
    match access {
        PaletteAccess::LinearByRow => if index >= w * h {
            None
        } else {
            Some(((index % w) as u32, (index / w) as u32))
        },
        PaletteAccess::LinearByColumn => if index >= w * h {
            None
        } else {
            Some(((index / h) as u32, (index % h) as u32))
        },
        PaletteAccess::FromRow(row) => if index >= w || row >= height {
            None
        } else {
            Some((index as u32, row))
        },
        PaletteAccess::FromColumn(col) => if index >= h || col >= width {
            None
        } else {
            Some((col, index as u32))
        },
    }
}

/// The linear access modes count `width * height` colours, which must fit a
/// `usize`; the row and column modes multiply nothing.
pub open spec fn linear_fits(access: PaletteAccess, width: u32, height: u32) -> bool {
    (access is LinearByRow || access is LinearByColumn) ==> (width as int) * (height as int) <= usize::MAX
}

/// Maps palette index to (x, y) in the image. Returns `None` if the index is out of range.
pub fn palette_index_to_xy(access: &PaletteAccess, width: u32, height: u32, index: usize) -> (r:
    Option<(u32, u32)>)
    requires
        linear_fits(*access, width, height),
    ensures
        r == spec_palette_index_to_xy(*access, width, height, index as int),
{
    let w = width as usize;
    let h = height as usize;
    match access {
        PaletteAccess::LinearByRow => {
            proof {
                assert((w as int) * (h as int) > 0 ==> w > 0 && h > 0) by (nonlinear_arith);
            }
            if index >= w * h {
                return None;
            }
            proof {
                assert(index / w < h) by (nonlinear_arith)
                    requires
                        index < w * h,
                        w > 0,
                ;
            }
            Some(((index % w) as u32, (index / w) as u32))
        },
        PaletteAccess::LinearByColumn => {
            proof {
                assert((w as int) * (h as int) > 0 ==> w > 0 && h > 0) by (nonlinear_arith);
            }
            if index >= w * h {
                return None;
            }
            proof {
                assert(index / h < w) by (nonlinear_arith)
                    requires
                        index < w * h,
                        h > 0,
                ;
            }
            Some(((index / h) as u32, (index % h) as u32))
        },
        PaletteAccess::FromRow(row) => {
            if index >= w || *row >= height {
                return None;
            }
            Some((index as u32, *row))
        },
        PaletteAccess::FromColumn(col) => {
            if index >= h || *col >= width {
                return None;
            }
            Some((*col, index as u32))
        },
    }
}

/// Every index below the palette length maps to a pixel inside the image, and
/// indices beyond it map to none.
pub proof fn lemma_palette_index_in_image(access: PaletteAccess, width: u32, height: u32, index: int)
    requires
        0 <= index,
        linear_fits(access, width, height),
        match access {
            PaletteAccess::FromRow(row) => row < height,
            PaletteAccess::FromColumn(col) => col < width,
            _ => true,
        },
    ensures
        index < spec_palette_len(access, width, height) <==> spec_palette_index_to_xy(
            access,
            width,
            height,
            index,
        ) is Some,
        spec_palette_index_to_xy(access, width, height, index) matches Some((x, y)) ==> x < width
            && y < height,
{
    let w = width as int;
    let h = height as int;
    if index < w * h {
        if access is LinearByRow {
            assert(index / w < h) by (nonlinear_arith)
                requires
                    index < w * h,
                    0 <= index,
                    w > 0,
            ;
        }
        if access is LinearByColumn {
            assert(index / h < w) by (nonlinear_arith)
                requires
                    index < w * h,
                    0 <= index,
                    h > 0,
            ;
        }
    }
}

/// Linear palettes: index `x + y * width` (by row) or `x * height + y` (by
/// column) maps back to `(x, y)`.
pub proof fn lemma_palette_xy_roundtrip(width: u32, height: u32, x: u32, y: u32)
    requires
        x < width,
        y < height,
    ensures
        spec_palette_index_to_xy(PaletteAccess::LinearByRow, width, height, x + y * width) == Some(
            (x, y),
        ),
        spec_palette_index_to_xy(PaletteAccess::LinearByColumn, width, height, x * height + y)
            == Some((x, y)),
{
    let w = width as int;
    let h = height as int;
    assert(x + y * w < w * h) by (nonlinear_arith)
        requires
            x < w,
            y < h,
            0 <= x,
            0 <= y,
    ;
    assert(x * h + y < w * h) by (nonlinear_arith)
        requires
            x < w,
            y < h,
            0 <= x,
            0 <= y,
    ;
    vstd::arithmetic::div_mod::lemma_fundamental_div_mod_converse(
        (x + y * w) as int,
        w,
        y as int,
        x as int,
    );
    vstd::arithmetic::div_mod::lemma_fundamental_div_mod_converse(
        (x * h + y) as int,
        h,
        x as int,
        y as int,
    );
}

/// GPU shader access kinds.
pub const PALETTE_ACCESS_LINEAR_BY_ROW: u32 = 0;

pub const PALETTE_ACCESS_LINEAR_BY_COLUMN: u32 = 1;

pub const PALETTE_ACCESS_FROM_ROW: u32 = 2;

pub const PALETTE_ACCESS_FROM_COLUMN: u32 = 3;

/// Encodes `PaletteAccess` for GPU uniforms: (access kind, access parameter); the
/// parameter is the row for `FromRow`, the column for `FromColumn`, 0 otherwise.
pub fn palette_access_to_gpu(access: &PaletteAccess) -> (r: (u32, u32))
    ensures
        r == match *access {
            PaletteAccess::LinearByRow => (PALETTE_ACCESS_LINEAR_BY_ROW, 0u32),
            PaletteAccess::LinearByColumn => (PALETTE_ACCESS_LINEAR_BY_COLUMN, 0u32),
            PaletteAccess::FromRow(row) => (PALETTE_ACCESS_FROM_ROW, row),
            PaletteAccess::FromColumn(col) => (PALETTE_ACCESS_FROM_COLUMN, col),
        },
{
    match access {
        PaletteAccess::LinearByRow => (PALETTE_ACCESS_LINEAR_BY_ROW, 0),
        PaletteAccess::LinearByColumn => (PALETTE_ACCESS_LINEAR_BY_COLUMN, 0),
        PaletteAccess::FromRow(r) => (PALETTE_ACCESS_FROM_ROW, *r),
        PaletteAccess::FromColumn(c) => (PALETTE_ACCESS_FROM_COLUMN, *c),
    }
}

/// How a palette is read from its image file.
#[derive(Debug, Clone, Copy, PartialEq, Eq, Structural)]
pub enum PaletteSettings {
    FromImage,
    FromIndex,
    FromRow(u32),
    FromColumn(u32),
}

impl Default for PaletteSettings {
    fn default() -> (r: PaletteSettings)
        ensures
            r == PaletteSettings::FromImage,
    {
        PaletteSettings::FromImage
    }
}

/// The access mode for palette settings that read the image directly; a palette
/// extracted from an indexed image is a strip read linearly by row.
pub fn access_for_settings(settings: PaletteSettings) -> (r: PaletteAccess)
    ensures
        r == match settings {
            PaletteSettings::FromImage | PaletteSettings::FromIndex => PaletteAccess::LinearByRow,
            PaletteSettings::FromRow(row) => PaletteAccess::FromRow(row),
            PaletteSettings::FromColumn(col) => PaletteAccess::FromColumn(col),
        },
{
    match settings {
        PaletteSettings::FromImage | PaletteSettings::FromIndex => PaletteAccess::LinearByRow,
        PaletteSettings::FromRow(row) => PaletteAccess::FromRow(row),
        PaletteSettings::FromColumn(col) => PaletteAccess::FromColumn(col),
    }
}

/// The palette entry of a config: an image path and how to read it.
#[derive(Debug, Clone)]
pub struct PaletteConfig {
    pub path: String,
    pub row: Option<u32>,
    pub column: Option<u32>,
    pub extract_index: Option<bool>,
}

impl PaletteConfig {
    /// The settings: extracting the index wins, then a row, then a column,
    /// otherwise the whole image.
    pub fn into_settings(&self) -> (r: Option<PaletteSettings>)
        ensures
            r == Some(
                if self.extract_index == Some(true) {
                    PaletteSettings::FromIndex
                } else if self.row is Some {
                    PaletteSettings::FromRow(self.row.unwrap())
                } else if self.column is Some {
                    PaletteSettings::FromColumn(self.column.unwrap())
                } else {
                    PaletteSettings::FromImage
                },
            ),
    {
        let extract = match self.extract_index {
            Some(b) => b,
            None => false,
        };
        if extract {
            Some(PaletteSettings::FromIndex)
        } else if let Some(row) = self.row {
            Some(PaletteSettings::FromRow(row))
        } else if let Some(column) = self.column {
            Some(PaletteSettings::FromColumn(column))
        } else {
            Some(PaletteSettings::FromImage)
        }
    }
}

/// What can go wrong when choosing palettes and colours.
#[derive(Debug, Clone, Copy, PartialEq, Eq, Structural)]
pub enum PalError {
    NoSuchPalette { index: usize, count: usize },
    NoSuchColor(usize),
    NoSuchPaletteColor { color: usize, palette: usize },
    NoPico8Asset,
}

/// The palette selection of the draw state: the current palette, and the id
/// of the palette material built for it, cached until the palette changes.
#[derive(Debug, Clone, Copy, PartialEq, Eq, Structural)]
pub struct PaletteState {
    pub palette: usize,
    pub material: Option<u64>,
}

impl PaletteState {
    /// Drops the cached palette material, so the next draw builds it afresh.
    pub fn mark_palette_dirty(&mut self)
        ensures
            final(self).palette == old(self).palette,
            final(self).material is None,
    {
        self.material = None;
    }
}

/// Selects palette `palette_index` when given, returning the palette that was
/// current before; switching drops the cached palette material. An index
/// beyond `count` palettes is refused and changes nothing.
pub fn palm(state: &mut PaletteState, palette_index: Option<usize>, count: usize) -> (r: Result<
    usize,
    PalError,
>)
    ensures
        match palette_index {
            None => r == Ok::<usize, PalError>(old(state).palette) && *final(state) == *old(state),
            Some(index) => if index < count {
                r == Ok::<usize, PalError>(old(state).palette) && *final(state) == (PaletteState {
                    palette: index,
                    material: None,
                })
            } else {
                r == Err::<usize, PalError>(PalError::NoSuchPalette { index, count })
                    && *final(state) == *old(state)
            },
        },
{
    let last = state.palette;
    match palette_index {
        Some(index) => {
            if index < count {
                state.palette = index;
                state.mark_palette_dirty();
            } else {
                return Err(PalError::NoSuchPalette { index, count });
            }
            Ok(last)
        },
        None => Ok(last),
    }
}

/// The scripting form of `palm`: an index beyond the palettes wraps around.
pub fn palm_wrapping(state: &mut PaletteState, palette_index: Option<usize>, count: usize) -> (r:
    Result<usize, PalError>)
    ensures
        match palette_index {
            None => r == Ok::<usize, PalError>(old(state).palette) && *final(state) == *old(state),
            Some(index) => if index < count {
                r == Ok::<usize, PalError>(old(state).palette) && *final(state) == (PaletteState {
                    palette: index,
                    material: None,
                })
            } else if count > 0 {
                r == Ok::<usize, PalError>(old(state).palette) && *final(state) == (PaletteState {
                    palette: index % count,
                    material: None,
                })
            } else {
                r == Err::<usize, PalError>(PalError::NoSuchPalette { index, count })
                    && *final(state) == *old(state)
            },
        },
{
    match palm(state, palette_index, count) {
        Err(PalError::NoSuchPalette { index, count }) => {
            if count == 0 {
                return Err(PalError::NoSuchPalette { index, count });
            }
            palm(state, Some(index % count), count)
        },
        x => x,
    }
}

/// The number of palettes when no index is given, otherwise the number of
/// colours of that palette (`None` when its image is not loaded).
pub fn paln(palette_index: Option<usize>, count: usize, colors: Option<usize>) -> (r: Result<
    usize,
    PalError,
>)
    ensures
        match palette_index {
            None => r == Ok::<usize, PalError>(count),
            Some(index) => if index >= count {
                r == Err::<usize, PalError>(PalError::NoSuchPalette { index, count })
            } else {
                match colors {
                    Some(n) => r == Ok::<usize, PalError>(n),
                    None => r == Err::<usize, PalError>(
                        PalError::NoSuchPaletteColor { color: 0, palette: index },
                    ),
                }
            },
        },
{
    match palette_index {
        Some(index) => {
            if index >= count {
                return Err(PalError::NoSuchPalette { index, count });
            }
            match colors {
                Some(n) => Ok(n),
                None => Err(PalError::NoSuchPaletteColor { color: 0, palette: index }),
            }
        },
        None => Ok(count),
    }
}

/// The RGBA palette that an indexed PNG's `PLTE` chunk describes: every three
/// bytes give a colour, made opaque.
pub open spec fn palette_of_plte(plte: Seq<u8>) -> Seq<[u8; 4]> {
    Seq::new(plte.len() / 3, |i: int| [plte[3 * i], plte[3 * i + 1], plte[3 * i + 2], 255u8])
}

/// The RGBA palette of an indexed PNG's `PLTE` bytes.
pub fn palette_from_plte(plte: &[u8]) -> (r: Vec<[u8; 4]>)
    requires
        plte@.len() % 3 == 0,
    ensures
        r@ == palette_of_plte(plte@),
{
    let n = plte.len();
    let count = n / 3;
    let mut data: Vec<[u8; 4]> = Vec::new();
    let mut i: usize = 0;
    while i < count
        invariant
            i <= count,
            n == plte@.len(),
            count == plte@.len() / 3,
            plte@.len() % 3 == 0,
            data@ == palette_of_plte(plte@).take(i as int),
        decreases count - i,
    {
        data.push([plte[3 * i], plte[3 * i + 1], plte[3 * i + 2], 255u8]);
        proof {
            assert(data@ =~= palette_of_plte(plte@).take(i + 1));
        }
        i = i + 1;
    }
    proof {
        assert(palette_of_plte(plte@).take(count as int) =~= palette_of_plte(plte@));
    }
    data
}

/// The pixel bytes of a one-row strip image holding the palette colours in order.
pub open spec fn strip_bytes(data: Seq<[u8; 4]>) -> Seq<u8> {
    Seq::new(4 * data.len(), |i: int| data[i / 4][i % 4])
}

/// The RGBA bytes of a 1×N strip image of the given colours.
pub fn strip_pixels(data: &[[u8; 4]]) -> (r: Vec<u8>)
    ensures
        r@ == strip_bytes(data@),
{
    let mut out: Vec<u8> = Vec::new();
    let mut i: usize = 0;
    while i < data.len()
        invariant
            i <= data@.len(),
            out@ == strip_bytes(data@.take(i as int)),
        decreases data@.len() - i,
    {
        let c = data[i];
        out.push(c[0]);
        out.push(c[1]);
        out.push(c[2]);
        out.push(c[3]);
        proof {
            assert(out@ =~= strip_bytes(data@.take(i + 1)));
        }
        i = i + 1;
    }
    proof {
        assert(data@.take(i as int) =~= data@);
    }
    out
}

/// An RGBA image as a grid of colours, row after row.
pub struct RgbaImage {
    pub width: u32,
    pub height: u32,
    pub pixels: Vec<[u8; 4]>,
}

impl RgbaImage {
    /// The image has one colour per pixel.
    pub open spec fn wf(&self) -> bool {
        self.pixels@.len() == (self.width as int) * (self.height as int)
    }

    /// The colour at `(x, y)`.
    pub open spec fn at(&self, x: int, y: int) -> [u8; 4] {
        self.pixels@[y * self.width + x]
    }

    pub(crate) fn color_at(&self, x: u32, y: u32) -> (r: [u8; 4])
        requires
            self.wf(),
            x < self.width,
            y < self.height,
        ensures
            r == self.at(x as int, y as int),
    {
        let n = self.pixels.len();
        proof {
            assert(y * self.width + x < self.width * self.height) by (nonlinear_arith)
                requires
                    x < self.width,
                    y < self.height,
            ;
            assert(0 <= y * self.width) by (nonlinear_arith);
        }
        self.pixels[(y as usize) * (self.width as usize) + (x as usize)]
    }
}

/// The number of colours of a palette image read with `access`.
pub fn len_in(access: &PaletteAccess, image: &RgbaImage) -> (r: usize)
    ensures
        r == spec_palette_len(*access, image.width, image.height),
{
    palette_len(access, image.width, image.height)
}

/// The colour of palette index `index` in a palette image read with `access`;
/// an index beyond the palette has no colour.
pub fn get_color_in(access: &PaletteAccess, image: &RgbaImage, index: usize) -> (r: Result<[u8; 4], PalError>)
    requires
        image.wf(),
        (image.width as int) * (image.height as int) <= usize::MAX,
    ensures
        match spec_palette_index_to_xy(*access, image.width, image.height, index as int) {
            Some((x, y)) => r == Ok::<[u8; 4], PalError>(image.at(x as int, y as int)),
            None => r == Err::<[u8; 4], PalError>(PalError::NoSuchColor(index)),
        },
{
    match palette_index_to_xy(access, image.width, image.height, index) {
        Some((x, y)) => {
            proof {
                lemma_xy_bound(*access, image.width, image.height, index as int);
            }
            Ok(image.color_at(x, y))
        },
        None => Err(PalError::NoSuchColor(index)),
    }
}

/// Writes the colour of palette index `index` (see `get_color_in`) into
/// `pixel_bytes`, its first bytes as many as the buffer holds (at most four);
/// an index beyond the palette leaves the buffer as it was.
pub fn write_color_in(
    access: &PaletteAccess,
    image: &RgbaImage,
    index: usize,
    pixel_bytes: &mut Vec<u8>,
) -> (r: Result<(), PalError>)
    requires
        image.wf(),
        (image.width as int) * (image.height as int) <= usize::MAX,
        old(pixel_bytes)@.len() <= 4,
    ensures
        match spec_palette_index_to_xy(*access, image.width, image.height, index as int) {
            Some((x, y)) => r is Ok && final(pixel_bytes)@ == image.at(x as int, y as int)@.take(
                old(pixel_bytes)@.len() as int,
            ),
            None => r == Err::<(), PalError>(PalError::NoSuchColor(index)) && final(pixel_bytes)@ == old(
                pixel_bytes,
            )@,
        },
{
    let color = get_color_in(access, image, index)?;
    let n = pixel_bytes.len();
    let mut k: usize = 0;
    while k < n
        invariant
            k <= n == pixel_bytes@.len() == old(pixel_bytes)@.len(),
            n <= 4,
            forall|j: int| 0 <= j < k ==> #[trigger] pixel_bytes@[j] == color[j],
        decreases n - k,
    {
        pixel_bytes.set(k, color[k]);
        k = k + 1;
    }
    assert(pixel_bytes@ =~= color@.take(n as int));
    Ok(())
}

/// A palette as draw calls see it: how its image is read, and the image once
/// it has loaded.
pub struct PaletteSource {
    pub access: PaletteAccess,
    pub image: Option<RgbaImage>,
}

/// A loaded palette image holds its pixels, and their count fits a `usize`.
pub open spec fn source_ok(p: PaletteSource) -> bool {
    p.image matches Some(img) ==> img.wf() && (img.width as int) * (img.height as int) <= usize::MAX
}

/// The RGBA colour that `c` stands for under palette `palette_index`: a
/// literal colour as it is; a palette index looked up in the palette's image,
/// or, while that image has not loaded, in `fallback` (the default palette).
pub open spec fn spec_get_color(
    c: PColor,
    palettes: Seq<PaletteSource>,
    palette_index: int,
    fallback: Seq<[u8; 4]>,
) -> Result<[u8; 4], PalError> {
    match c {
        PColor::Color(rgba) => Ok(rgba),
        PColor::Palette(n) => if palette_index >= palettes.len() {
            Err(PalError::NoSuchPalette { index: palette_index as usize, count: palettes.len() as usize })
        } else {
            let pal = palettes[palette_index];
            match pal.image {
                Some(img) => match spec_palette_index_to_xy(pal.access, img.width, img.height, n as int) {
                    Some((x, y)) => Ok(img.at(x as int, y as int)),
                    None => Err(PalError::NoSuchPaletteColor { color: n, palette: palette_index as usize }),
                },
                None => if n < fallback.len() {
                    Ok(fallback[n as int])
                } else {
                    Err(PalError::NoSuchPaletteColor { color: n, palette: palette_index as usize })
                },
            }
        },
    }
}

/// Resolves a colour to RGBA under palette `palette_index` (see
/// `spec_get_color`): a missing palette, or an index beyond the palette, is an
/// error naming it.
pub fn get_color(
    c: PColor,
    palettes: &Vec<PaletteSource>,
    palette_index: usize,
    fallback: &[[u8; 4]],
) -> (r: Result<[u8; 4], PalError>)
    requires
        palette_index < palettes@.len() ==> source_ok(palettes@[palette_index as int]),
    ensures
        r == spec_get_color(c, palettes@, palette_index as int, fallback@),
{
    match c {
        PColor::Palette(n) => {
            let pal = get_pal(palettes, palette_index)?;
            match &pal.image {
                Some(image) => match get_color_in(&pal.access, image, n) {
                    Ok(rgba) => Ok(rgba),
                    Err(_) => Err(PalError::NoSuchPaletteColor { color: n, palette: palette_index }),
                },
                None => if n < fallback.len() {
                    Ok(fallback[n])
                } else {
                    Err(PalError::NoSuchPaletteColor { color: n, palette: palette_index })
                },
            }
        },
        PColor::Color(rgba) => Ok(rgba),
    }
}

/// The palette of index `palette_index` among `palettes`, or the error naming
/// the index and how many palettes there are.
pub fn get_pal<T>(palettes: &Vec<T>, palette_index: usize) -> (r: Result<&T, PalError>)
    ensures
        palette_index < palettes@.len() ==> r == Ok::<&T, PalError>(&palettes@[palette_index as int]),
        palette_index >= palettes@.len() ==> r == Err::<&T, PalError>(
            PalError::NoSuchPalette { index: palette_index, count: palettes@.len() as usize },
        ),
{
    if palette_index < palettes.len() {
        Ok(&palettes[palette_index])
    } else {
        Err(PalError::NoSuchPalette { index: palette_index, count: palettes.len() })
    }
}

/// The access mode names a row or column that the image does not have.
pub open spec fn access_outside(access: PaletteAccess, width: u32, height: u32) -> bool {
    match access {
        PaletteAccess::FromRow(row) => row >= height,
        PaletteAccess::FromColumn(col) => col >= width,
        _ => false,
    }
}

/// The palette colours of an image, in palette index order.
pub open spec fn spec_palette_data(image: RgbaImage, access: PaletteAccess) -> Seq<[u8; 4]> {
    if access_outside(access, image.width, image.height) {
        seq![]
    } else {
        Seq::new(
            spec_palette_len(access, image.width, image.height) as nat,
            |i: int|
                {
                    let (x, y) = spec_palette_index_to_xy(
                        access,
                        image.width,
                        image.height,
                        i,
                    ).unwrap();
                    image.at(x as int, y as int)
                },
        )
    }
}

/// Reads the palette colours from an image in palette index order, according to
/// `access`; a row or column outside the image gives no colours.
pub fn palette_data_from_image(image: &RgbaImage, access: &PaletteAccess) -> (r: Vec<[u8; 4]>)
    requires
        image.wf(),
    ensures
        r@ == spec_palette_data(*image, *access),
{
    let pixel_count = image.pixels.len();
    let n = palette_len(access, image.width, image.height);
    let mut data: Vec<[u8; 4]> = Vec::new();
    let mut index: usize = 0;
    while index < n
        invariant
            index <= n,
            image.wf(),
            pixel_count == image.pixels@.len(),
            n == spec_palette_len(*access, image.width, image.height),
            access_outside(*access, image.width, image.height) ==> data@.len() == 0,
            !access_outside(*access, image.width, image.height) ==> data@ =~= spec_palette_data(
                *image,
                *access,
            ).take(index as int),
        decreases n - index,
    {
        proof {
            assert((image.width as int) * (image.height as int) == image.pixels@.len());
            lemma_palette_index_in_image_any(*access, image.width, image.height, index as int);
        }
        if let Some((x, y)) = palette_index_to_xy(access, image.width, image.height, index) {
            let c = image.color_at(x, y);
            data.push(c);
        }
        index = index + 1;
    }
    data
}

/// The colours of column `column`, top to bottom; a column outside a non-empty
/// image would panic and is left out.
pub fn from_image_column(image: &RgbaImage, column: u32) -> (r: Vec<[u8; 4]>)
    requires
        image.wf(),
        image.height > 0 ==> column < image.width,
    ensures
        r@ == Seq::new(image.height as nat, |j: int| image.at(column as int, j)),
{
    let mut data: Vec<[u8; 4]> = Vec::new();
    let mut j: u32 = 0;
    while j < image.height
        invariant
            j <= image.height,
            image.wf(),
            image.height > 0 ==> column < image.width,
            data@ == Seq::new(j as nat, |k: int| image.at(column as int, k)),
        decreases image.height - j,
    {
        data.push(image.color_at(column, j));
        proof {
            assert(data@ =~= Seq::new((j + 1) as nat, |k: int| image.at(column as int, k)));
        }
        j = j + 1;
    }
    data
}

/// The colours of row `row`, left to right; a row outside a non-empty image
/// would panic and is left out.
pub fn from_image_row(image: &RgbaImage, row: u32) -> (r: Vec<[u8; 4]>)
    requires
        image.wf(),
        image.width > 0 ==> row < image.height,
    ensures
        r@ == Seq::new(image.width as nat, |i: int| image.at(i, row as int)),
{
    let mut data: Vec<[u8; 4]> = Vec::new();
    let mut i: u32 = 0;
    while i < image.width
        invariant
            i <= image.width,
            image.wf(),
            image.width > 0 ==> row < image.height,
            data@ == Seq::new(i as nat, |k: int| image.at(k, row as int)),
        decreases image.width - i,
    {
        data.push(image.color_at(i, row));
        proof {
            assert(data@ =~= Seq::new((i + 1) as nat, |k: int| image.at(k, row as int)));
        }
        i = i + 1;
    }
    data
}

/// All colours of the image, row after row.
pub fn from_image(image: &RgbaImage) -> (r: Vec<[u8; 4]>)
    requires
        image.wf(),
        (image.width as int) * (image.height as int) <= u32::MAX,
    ensures
        r@ == image.pixels@,
{
    let mut data: Vec<[u8; 4]> = Vec::new();
    let mut j: u32 = 0;
    while j < image.height
        invariant
            j <= image.height,
            image.wf(),
            data@ == image.pixels@.take(j * image.width),
        decreases image.height - j,
    {
        let mut i: u32 = 0;
        while i < image.width
            invariant
                i <= image.width,
                j < image.height,
                image.wf(),
                data@ == image.pixels@.take(j * image.width + i),
            decreases image.width - i,
        {
            proof {
                assert(j * image.width + i < image.width * image.height) by (nonlinear_arith)
                    requires
                        i < image.width,
                        j < image.height,
                ;
                assert(0 <= j * image.width) by (nonlinear_arith);
            }
            data.push(image.color_at(i, j));
            proof {
                assert(data@ =~= image.pixels@.take(j * image.width + i + 1));
            }
            i = i + 1;
        }
        proof {
            assert((j + 1) * image.width == j * image.width + image.width) by (nonlinear_arith);
        }
        j = j + 1;
    }
    proof {
        assert(image.pixels@.take(image.height * image.width) =~= image.pixels@) by {
            assert(image.height * image.width == image.width * image.height) by (nonlinear_arith);
        }
    }
    data
}

proof fn lemma_palette_index_in_image_any(access: PaletteAccess, width: u32, height: u32, index: int)
    requires
        0 <= index < spec_palette_len(access, width, height),
        (width as int) * (height as int) <= usize::MAX,
    ensures
        access_outside(access, width, height) ==> spec_palette_index_to_xy(
            access,
            width,
            height,
            index,
        ) is None,
        !access_outside(access, width, height) ==> spec_palette_index_to_xy(
            access,
            width,
            height,
            index,
        ) is Some,
        spec_palette_index_to_xy(access, width, height, index) matches Some((x, y)) ==> x < width
            && y < height,
{
    if !access_outside(access, width, height) {
        lemma_palette_index_in_image(access, width, height, index);
    }
}

proof fn lemma_xy_bound(access: PaletteAccess, width: u32, height: u32, index: int)
    requires
        0 <= index,
        spec_palette_index_to_xy(access, width, height, index) is Some,
    ensures
        spec_palette_index_to_xy(access, width, height, index) matches Some((x, y)) ==> x < width
            && y < height,
{
    let w = width as int;
    let h = height as int;
    if access is LinearByRow {
        assert(index / w < h) by (nonlinear_arith)
            requires
                index < w * h,
                0 <= index,
                w > 0,
        ;
        assert(index % w < w) by (nonlinear_arith)
            requires
                w > 0,
        ;
    }
    if access is LinearByColumn {
        assert(index / h < w) by (nonlinear_arith)
            requires
                index < w * h,
                0 <= index,
                h > 0,
        ;
        assert(index % h < h) by (nonlinear_arith)
            requires
                h > 0,
        ;
    }
}

/// The registrations of palettes: the script functions that pick and remap colours.
pub fn plugin(app: &mut AppPlan)
    ensures
        final(app).same_features(*old(app)),
        final(app).steps@ == old(app).steps@ + script_steps(
            old(app).scripting,
            seq!["pal", "palt", "paln", "palm", "color"],
        ),
{
    let names: [&'static str; 5] = ["pal", "palt", "paln", "palm", "color"];
    assert(names@ =~= seq!["pal", "palt", "paln", "palm", "color"]);
    let enabled = app.scripting;
    add_script_functions(app, enabled, &names);
}

} // verus!
