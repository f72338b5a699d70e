//! Indexed images read from PNG files: the `png` crate decodes, and the pixels
//! are repacked to the image's bit depth here.
use vstd::prelude::*;

use crate::gfx::{bits_any, bits_copy_within, bits_from_vec, bits_get, bits_len, bits_of, bits_of_bytes, bits_truncate, bits_value, max_bits, Bits, Gfx};
use crate::palette::{palette_from_plte, palette_of_plte};

verus! {

/// The decoding error of the `png` crate.
#[verifier::external_type_specification]
#[verifier::external_body]
pub struct ExDecodingError(png::DecodingError);

/// What a PNG header says: whether the image is indexed, its bit depth, and
/// the bytes of its `PLTE` chunk, if it has one.
#[derive(Debug)]
pub struct PngInfo {
    pub indexed: bool,
    pub bit_depth: u8,
    pub palette: Option<Vec<u8>>,
}

/// The plain values of a PNG header.
pub ghost struct PngInfoView {
    pub indexed: bool,
    pub bit_depth: u8,
    pub palette: Option<Seq<u8>>,
}

impl View for PngInfo {
    type V = PngInfoView;

    open spec fn view(&self) -> PngInfoView {
        PngInfoView {
            indexed: self.indexed,
            bit_depth: self.bit_depth,
            palette: match self.palette {
                Some(p) => Some(p@),
                None => None,
            },
        }
    }
}

/// The first frame of a PNG, as decoded: its size, its bit depth, and the
/// decoder's output buffer.
#[derive(Debug)]
pub struct PngFrame {
    pub width: u32,
    pub height: u32,
    pub bit_depth: u8,
    pub buf: Vec<u8>,
}

/// The plain values of a decoded frame.
pub ghost struct PngFrameView {
    pub width: u32,
    pub height: u32,
    pub bit_depth: u8,
    pub buf: Seq<u8>,
}

impl View for PngFrame {
    type V = PngFrameView;

    open spec fn view(&self) -> PngFrameView {
        PngFrameView {
            width: self.width,
            height: self.height,
            bit_depth: self.bit_depth,
            buf: self.buf@,
        }
    }
}

/// The header that the `png` crate reads from these bytes (`None` when it fails).
pub uninterp spec fn png_info_of(bytes: Seq<u8>) -> Option<PngInfoView>;

/// The first frame that the `png` crate decodes from these bytes, with no
/// transformation (`None` when it fails).
pub uninterp spec fn png_frame_of(bytes: Seq<u8>) -> Option<PngFrameView>;

/// Calls `png::Decoder::new(..).read_info()` on the bytes and reads the
/// header's colour type, bit depth and palette. The result is named
/// `png_info_of`; the error is the decoder's.
#[verifier::external_body]
fn png_read_info(bytes: &[u8]) -> (r: Result<PngInfo, png::DecodingError>)
    ensures
        match r {
            Ok(info) => png_info_of(bytes@) == Some(info@),
            Err(_) => png_info_of(bytes@) is None,
        },
{
    let reader = png::Decoder::new(std::io::Cursor::new(bytes)).read_info()?;
    let info = reader.info();
    let indexed = match info.color_type {
        png::ColorType::Indexed => true,
        png::ColorType::Grayscale => false,
        png::ColorType::Rgb => false,
        png::ColorType::GrayscaleAlpha => false,
        png::ColorType::Rgba => false,
    };
    let palette = info.palette.as_ref().map(|p| p.to_vec());
    Ok(PngInfo { indexed, bit_depth: info.bit_depth as u8, palette })
}

/// Calls `png::Decoder::new(..).read_info()`, then `Reader::next_frame` into a
/// buffer of `Reader::output_buffer_size` bytes (an empty one when that size is
/// unknown, which `next_frame` refuses). The result is named `png_frame_of`;
/// the error is the decoder's.
#[verifier::external_body]
fn png_read_frame(bytes: &[u8]) -> (r: Result<PngFrame, png::DecodingError>)
    ensures
        match r {
            Ok(frame) => png_frame_of(bytes@) == Some(frame@),
            Err(_) => png_frame_of(bytes@) is None,
        },
{
    let mut reader = png::Decoder::new(std::io::Cursor::new(bytes)).read_info()?;
    let mut buf = vec![0; reader.output_buffer_size().unwrap_or(0)];
    let info = reader.next_frame(&mut buf)?;
    Ok(PngFrame { width: info.width, height: info.height, bit_depth: info.bit_depth as u8, buf })
}

/// Why a PNG gives no indexed image.
#[derive(Debug)]
pub enum PngError {
    /// The decoder failed.
    Decoding(png::DecodingError),
    /// The image is not indexed.
    NotIndexed,
    /// A pixel's index does not fit in the image's bit depth.
    BitDepthConversion { pixel_index: usize, pixel_value: u8 },
}

/// Whether pixel `i` of the source has a set bit among those checked before it
/// is narrowed: bits `dest..src - dest` of the pixel.
pub open spec fn pixel_overflows(bits: Seq<bool>, i: int, src: int, dest: int) -> bool {
    exists|b: int| i * src + dest <= b < i * src + src - dest && bits[b]
}

/// The bits of `count` pixels of `src` bits each, narrowed to their low `dest` bits.
pub open spec fn repacked(bits: Seq<bool>, src: int, dest: int, count: int) -> Seq<bool> {
    Seq::new((count * dest) as nat, |j: int| bits[(j / dest) * src + j % dest])
}

/// A frame can be repacked to `dest` bits without a panic: it holds all its
/// pixels, its size computations fit, it is not narrower than `dest`, the
/// checked bits form a range, and an error's pixel value fits a byte.
pub open spec fn frame_repackable(f: PngFrameView, dest: int) -> bool {
    let src = f.bit_depth as int;
    let count = f.width * f.height;
    &&& 8 * f.buf.len() <= max_bits()
    &&& count * src <= usize::MAX
    &&& count * src <= 8 * f.buf.len()
    &&& dest <= src
    &&& src > dest ==> 2 * dest <= src
    &&& src > dest ==> (src == 8 || forall|i: int|
        0 <= i < count ==> !pixel_overflows(bits_of_bytes(f.buf), i, src, dest))
}

/// The first pixel that overflows, if any pixel below `count` does.
pub open spec fn first_overflow(bits: Seq<bool>, count: int, src: int, dest: int, i: int) -> bool {
    &&& 0 <= i < count
    &&& pixel_overflows(bits, i, src, dest)
    &&& forall|k: int| 0 <= k < i ==> !pixel_overflows(bits, k, src, dest)
}

/// What repacking frame `f` to `dest` bits per pixel gives: the error for the
/// first pixel that overflows when narrowing, else the image.
pub open spec fn repack_outcome(f: PngFrameView, dest: int, r: Result<Gfx, PngError>) -> bool {
    let src = f.bit_depth as int;
    let count = f.width * f.height;
    let bits = bits_of_bytes(f.buf);
    if src > dest && exists|i: int| 0 <= i < count && pixel_overflows(bits, i, src, dest) {
        r matches Err(PngError::BitDepthConversion { pixel_index, pixel_value })
            && first_overflow(bits, count, src, dest, pixel_index as int)
            && pixel_value == bits_value(bits.subrange(pixel_index * src, pixel_index * src + src))
    } else {
        r matches Ok(g) && g.bitdepth == dest && g.width == f.width && g.height == f.height
            && g.bits() == if src > dest {
                repacked(bits, src, dest, count)
            } else {
                bits
            }
    }
}

proof fn lemma_pixel_bit(i: int, dest: int, t: int)
    requires
        dest > 0,
        0 <= t < dest,
        0 <= i,
    ensures
        (i * dest + t) / dest == i,
        (i * dest + t) % dest == t,
{
    vstd::arithmetic::div_mod::lemma_fundamental_div_mod_converse(i * dest + t, dest, i, t);
}

proof fn lemma_mul_le(a: int, b: int, c: int)
    requires
        0 <= a <= b,
        0 <= c,
    ensures
        a * c <= b * c,
{
    vstd::arithmetic::mul::lemma_mul_inequality(a, b, c);
}

impl Gfx {
    /// An image of `dest` bits per pixel from a decoded frame: when the frame
    /// has more bits per pixel, each pixel keeps its low `dest` bits and the
    /// data is cut to the pixels, unless a pixel has a set bit among its bits
    /// `dest..src - dest`, which is an error naming the first such pixel.
    pub fn from_png_frame(frame: PngFrame, dest: usize) -> (r: Result<Gfx, PngError>)
        requires
            frame_repackable(frame@, dest as int),
        ensures
            repack_outcome(frame@, dest as int, r),
    {
        let width = frame.width as usize;
        let height = frame.height as usize;
        let src = frame.bit_depth as usize;
        let ghost bits0 = bits_of_bytes(frame.buf@);
        let ghost count = frame.width * frame.height;
        let ghost fview = frame@;
        let mut data = bits_from_vec(frame.buf);
        if src > dest {
            proof {
                lemma_mul_le(width as int, width as int, height as int);
                assert(width * height * src <= usize::MAX);
                assert(0 <= width * height) by (nonlinear_arith);
                assert(width * height <= width * height * src) by (nonlinear_arith)
                    requires src >= 1, 0 <= width * height;
            }
            let n = width * height;
            let total = bits_len(&data);
            let mut i: usize = 0;
            while i < n
                invariant
                    n == count,
                    fview.bit_depth == src,
                    fview == frame@,
                    count == fview.width * fview.height,
                    bits0 == bits_of_bytes(fview.buf),
                    0 <= i <= n,
                    1 <= src,
                    dest < src,
                    2 * dest <= src,
                    n * src <= usize::MAX,
                    n * src <= total,
                    total == bits0.len(),
                    bits_of(data).len() == total,
                    src == 8 || forall|k: int| 0 <= k < count ==> !pixel_overflows(bits0, k, src as int, dest as int),
                    forall|k: int| 0 <= k < i ==> !pixel_overflows(bits0, k, src as int, dest as int),
                    forall|j: int| i * src <= j < total ==> #[trigger] bits_of(data)[j] == bits0[j],
                    forall|j: int| 0 <= j < i * dest ==> #[trigger] bits_of(data)[j] == bits0[(j / dest as int) * src + j % dest as int],
                decreases n - i,
            {
                proof {
                    lemma_mul_le(i as int + 1, n as int, src as int);
                    assert(i * src + src == (i + 1) * src) by (nonlinear_arith);
                    lemma_mul_le(dest as int, src as int, i as int);
                    assert(i * dest <= i * src) by (nonlinear_arith) requires dest <= src, i >= 0;
                }
                let a = i * src;
                let b = a + dest;
                let c = i * dest;
                let ghost before = bits_of(data);
                if bits_any(&data, a + dest, a + src - dest) {
                    proof {
                        let w = choose|w: int| a + dest <= w < a + src - dest && bits_of(data)[w];
                        assert(bits0[w]);
                        assert(pixel_overflows(bits0, i as int, src as int, dest as int));
                        assert(first_overflow(bits0, count, src as int, dest as int, i as int));
                        assert(src == 8);
                    }
                    let value = Self::pixel_byte(&data, a);
                    proof {
                        assert(bits_of(data).subrange(a as int, a + 8) =~= bits0.subrange(a as int, a + 8));
                        assert(value == bits_value(bits0.subrange(i * src, i * src + src)));
                        assert(src > dest);
                        assert(exists|k: int| 0 <= k < count && pixel_overflows(bits0, k, src as int, dest as int));
                        assert(first_overflow(bits0, count, src as int, dest as int, i as int));
                    }
                    let r: Result<Gfx, PngError> = Err(PngError::BitDepthConversion { pixel_index: i, pixel_value: value });
                    assert(r matches Err(PngError::BitDepthConversion { pixel_index, pixel_value })
                        && first_overflow(bits0, count, src as int, dest as int, pixel_index as int));
                    assert(r matches Err(PngError::BitDepthConversion { pixel_index, pixel_value })
                        && pixel_value == bits_value(bits0.subrange(pixel_index * src, pixel_index * src + src)));
                    return r;
                }
                proof {
                    assert(!pixel_overflows(bits0, i as int, src as int, dest as int)) by {
                        if pixel_overflows(bits0, i as int, src as int, dest as int) {
                            let w = choose|w: int| i * src + dest <= w < i * src + src - dest && bits0[w];
                            assert(bits_of(data)[w]);
                        }
                    }
                }
                if dest > 0 {
                    bits_copy_within(&mut data, a, b, c);
                }
                proof {
                    assert forall|j: int| 0 <= j < (i + 1) * dest implies #[trigger] bits_of(data)[j] == bits0[(j / dest as int) * src + j % dest as int] by {
                        assert((i + 1) * dest == i * dest + dest) by (nonlinear_arith);
                        if j >= i * dest {
                            let t = j - i * dest;
                            lemma_pixel_bit(i as int, dest as int, t);
                            assert(bits_of(data)[j] == before[a + t]);
                        } else {
                            assert(bits_of(data)[j] == before[j]);
                        }
                    }
                    assert forall|j: int| (i + 1) * src <= j < total implies #[trigger] bits_of(data)[j] == bits0[j] by {
                        assert((i + 1) * dest <= (i + 1) * src) by (nonlinear_arith) requires dest <= src, i >= 0;
                        assert((i + 1) * dest == i * dest + dest) by (nonlinear_arith);
                        assert(bits_of(data)[j] == before[j]);
                    }
                }
                i = i + 1;
            }
            proof {
                assert(n * dest <= n * src) by (nonlinear_arith) requires dest <= src, n >= 0;
            }
            bits_truncate(&mut data, n * dest);
            proof {
                assert(forall|k: int| 0 <= k < count ==> !pixel_overflows(bits0, k, src as int, dest as int));
                assert(bits_of(data) =~= repacked(bits0, src as int, dest as int, count));
            }
        }
        Ok(Gfx { data, bitdepth: dest, width, height })
    }

    /// The byte that the eight bits from `start` write, first bit least significant.
    fn pixel_byte(data: &Bits, start: usize) -> (r: u8)
        requires
            start + 8 <= bits_of(*data).len(),
            start + 8 <= usize::MAX,
        ensures
            r == bits_value(bits_of(*data).subrange(start as int, start + 8)),
    {
        let ghost bits = bits_of(*data);
        let mut v: u32 = 0;
        let mut k: usize = 0;
        while k < 8
            invariant
                k <= 8,
                start + 8 <= bits.len(),
                start + 8 <= usize::MAX,
                bits == bits_of(*data),
                v == bits_value(bits.subrange(start as int, start + k)),
            decreases 8 - k,
        {
            proof {
                crate::gfx::lemma_bits_value_bound(bits.subrange(start as int, start + k));
                crate::gfx::lemma_pow2u_small(k as int);
                assert(bits.subrange(start as int, start + k + 1).drop_last() =~= bits.subrange(start as int, start + k));
            }
            if bits_get(data, start + k) {
                v = v + (1u32 << (k as u32));
            }
            k = k + 1;
        }
        proof {
            crate::gfx::lemma_bits_value_bound(bits.subrange(start as int, start + 8));
            crate::gfx::lemma_pow2u_small(8);
        }
        v as u8
    }
}

/// The palette after reading a PNG header: replaced by the header's `PLTE`
/// colours when a palette was given and the PNG has one.
pub open spec fn palette_after(old_palette: Option<Vec<[u8; 4]>>, info: PngInfoView, new_palette: Option<Vec<[u8; 4]>>) -> bool {
    if old_palette is Some && info.palette is Some {
        new_palette matches Some(p) && p@ == palette_of_plte(info.palette->0)
    } else {
        new_palette == old_palette
    }
}

/// Loading these PNG bytes does not panic: a given palette's `PLTE` holds whole
/// colours, and an indexed image's first frame decodes and can be repacked to
/// the header's bit depth.
pub open spec fn png_loads(bytes: Seq<u8>, with_palette: bool) -> bool {
    match png_info_of(bytes) {
        None => true,
        Some(info) => {
            &&& (with_palette && info.palette is Some ==> info.palette->0.len() % 3 == 0)
            &&& (info.indexed ==> match png_frame_of(bytes) {
                Some(f) => frame_repackable(f, info.bit_depth as int),
                None => false,
            })
        },
    }
}

/// What loading PNG bytes gives: the decoder's error, an error when the image
/// is not indexed, or the first frame repacked to the header's bit depth; and
/// the palette, replaced by the PNG's when one was given.
pub open spec fn png_outcome(
    bytes: Seq<u8>,
    old_palette: Option<Vec<[u8; 4]>>,
    new_palette: Option<Vec<[u8; 4]>>,
    r: Result<Gfx, PngError>,
) -> bool {
    match png_info_of(bytes) {
        None => (r matches Err(PngError::Decoding(_))) && new_palette == old_palette,
        Some(info) => {
            &&& palette_after(old_palette, info, new_palette)
            &&& if !info.indexed {
                r matches Err(PngError::NotIndexed)
            } else {
                repack_outcome(png_frame_of(bytes)->0, info.bit_depth as int, r)
            }
        },
    }
}

impl Gfx {
    /// An indexed image from PNG bytes, at the PNG's own bit depth. When a
    /// palette is given and the PNG has one, the palette takes its colours.
    pub fn from_png(bytes: &[u8], palette: &mut Option<Vec<[u8; 4]>>) -> (r: Result<Gfx, PngError>)
        requires
            png_loads(bytes@, (*old(palette)) is Some),
        ensures
            png_outcome(bytes@, *old(palette), *final(palette), r),
    {
        let info = match png_read_info(bytes) {
            Ok(info) => info,
            Err(e) => {
                return Err(PngError::Decoding(e));
            },
        };
        if palette.is_some() {
            match &info.palette {
                Some(plte) => {
                    *palette = Some(palette_from_plte(plte.as_slice()));
                },
                None => {},
            }
        }
        let dest = info.bit_depth as usize;
        if !info.indexed {
            return Err(PngError::NotIndexed);
        }
        match png_read_frame(bytes) {
            Ok(frame) => Self::from_png_frame(frame, dest),
            Err(e) => Err(PngError::Decoding(e)),
        }
    }

    /// `from_png` where loading would not panic (see `png_loads`); `None`, with
    /// the palette unchanged, where it would.
    pub fn try_from_png(bytes: &[u8], palette: &mut Option<Vec<[u8; 4]>>) -> (r: Option<Result<Gfx, PngError>>)
        ensures
            png_loads(bytes@, (*old(palette)) is Some) ==> (r matches Some(res) && png_outcome(bytes@, *old(palette), *final(palette), res)),
            !png_loads(bytes@, (*old(palette)) is Some) ==> r is None && *final(palette) == *old(palette),
    {
        let loads = match png_read_info(bytes) {
            Err(_) => true,
            Ok(info) => {
                let palette_ok = match &info.palette {
                    Some(plte) => palette.is_none() || plte.len() % 3 == 0,
                    None => true,
                };
                palette_ok && (!info.indexed || match png_read_frame(bytes) {
                    Ok(frame) => frame_repackable_exec(&frame, info.bit_depth as usize),
                    Err(_) => false,
                })
            },
        };
        if loads {
            Some(Self::from_png(bytes, palette))
        } else {
            None
        }
    }
}

/// Whether a frame can be repacked to `dest` bits (see `frame_repackable`).
fn frame_repackable_exec(f: &PngFrame, dest: usize) -> (r: bool)
    ensures
        r == frame_repackable(f@, dest as int),
{
    let src = f.bit_depth as u128;
    let len = f.buf.len() as u128;
    assert(f.width * f.height <= 0xffff_ffff * 0xffff_ffff) by (nonlinear_arith)
        requires f.width <= 0xffff_ffff, f.height <= 0xffff_ffff, 0 <= f.width, 0 <= f.height;
    let count = (f.width as u128) * (f.height as u128);
    assert(count * src <= 0xffff_ffff * 0xffff_ffff * 255) by (nonlinear_arith)
        requires count <= 0xffff_ffff * 0xffff_ffff, src <= 255, 0 <= count, 0 <= src;
    let total = count * src;
    if 8 * len > (usize::MAX / 8) as u128 || total > usize::MAX as u128 || total > 8 * len || (dest as u128) > src {
        return false;
    }
    if (dest as u128) == src {
        return true;
    }
    if 2 * (dest as u128) > src {
        return false;
    }
    if src == 8 {
        return true;
    }
    let bits = bits_from_vec(f.buf.clone());
    let ghost b0 = bits_of_bytes(f.buf@);
    assert(count <= total) by (nonlinear_arith)
        requires total == count * src, src >= 1, count >= 0;
    let n = count as usize;
    let s = src as usize;
    assert(n * s == total);
    let mut i: usize = 0;
    while i < n
        invariant
            i <= n,
            n == f.width * f.height,
            s == f.bit_depth,
            s != 8,
            2 * dest <= s,
            dest < s,
            n * s <= 8 * f.buf@.len(),
            8 * f.buf@.len() <= max_bits(),
            bits_of(bits) == b0,
            b0 == bits_of_bytes(f.buf@),
            forall|k: int| 0 <= k < i ==> !pixel_overflows(b0, k, s as int, dest as int),
        decreases n - i,
    {
        proof {
            lemma_mul_le(i as int + 1, n as int, s as int);
            assert(i * s + s == (i + 1) * s) by (nonlinear_arith);
        }
        let a = i * s;
        if bits_any(&bits, a + dest, a + s - dest) {
            proof {
                let w = choose|w: int| a + dest <= w < a + s - dest && bits_of(bits)[w];
                assert(pixel_overflows(bits_of_bytes(f@.buf), i as int, f@.bit_depth as int, dest as int));
            }
            return false;
        }
        i = i + 1;
    }
    true
}

/// The RGBA colours of a PNG header's `PLTE` chunk, made opaque, if it has one.
pub fn from_png_palette_info(info: &PngInfo) -> (r: Option<Vec<[u8; 4]>>)
    requires
        info.palette matches Some(p) ==> p@.len() % 3 == 0,
    ensures
        match info@.palette {
            Some(p) => r matches Some(c) && c@ == palette_of_plte(p),
            None => r is None,
        },
{
    match &info.palette {
        Some(plte) => Some(palette_from_plte(plte.as_slice())),
        None => None,
    }
}

/// The palette that PNG bytes carry: the decoder's error, or the colours of
/// its `PLTE` chunk (`None` when it has none).
pub fn from_png_palette(bytes: &[u8]) -> (r: Result<Option<Vec<[u8; 4]>>, png::DecodingError>)
    requires
        png_info_of(bytes@) matches Some(info) ==> (info.palette matches Some(p) ==> p.len() % 3 == 0),
    ensures
        match png_info_of(bytes@) {
            None => r is Err,
            Some(info) => match info.palette {
                Some(p) => r matches Ok(Some(c)) && c@ == palette_of_plte(p),
                None => r matches Ok(None),
            },
        },
{
    let info = png_read_info(bytes)?;
    Ok(from_png_palette_info(&info))
}

/// `from_png_palette` where the palette holds whole colours; `None` where a
/// `PLTE` chunk's length is not a multiple of three.
pub fn try_from_png_palette(bytes: &[u8]) -> (r: Option<Result<Option<Vec<[u8; 4]>>, png::DecodingError>>)
    ensures
        (png_info_of(bytes@) matches Some(info) && info.palette is Some && info.palette->0.len() % 3 != 0) <==> r is None,
        r matches Some(res) ==> match png_info_of(bytes@) {
            None => res is Err,
            Some(info) => match info.palette {
                Some(p) => res matches Ok(Some(c)) && c@ == palette_of_plte(p),
                None => res matches Ok(None),
            },
        },
{
    let whole = match png_read_info(bytes) {
        Ok(info) => match &info.palette {
            Some(plte) => plte.len() % 3 == 0,
            None => true,
        },
        Err(_) => true,
    };
    if whole {
        Some(from_png_palette(bytes))
    } else {
        None
    }
}

} // verus!
