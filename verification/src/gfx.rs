//! Indexed images: pixels are colour indices of `bitdepth` bits each, packed
//! least-significant bit first in a `bitvec` bit-vector, row after row.
use vstd::prelude::*;

use bitvec::order::Lsb0;
use bitvec::vec::BitVec;

use crate::plan::{runs_after, AppPlan, Schedule, Setup};

verus! {

/// A `bitvec` bit-vector of bytes, least significant bit first, kept in a
/// private field: `bits_of` names the bits it holds, and the `bits_*`
/// functions below are the only way in.
#[verifier::external_body]
#[derive(Debug)]
pub struct Bits {
    inner: BitVec<u8, Lsb0>,
}

/// The bits that a bit-vector holds, in order.
pub uninterp spec fn bits_of(v: Bits) -> Seq<bool>;

impl View for Bits {
    type V = Seq<bool>;

    open spec fn view(&self) -> Seq<bool> {
        bits_of(*self)
    }
}

/// The largest number of bits that a bit-vector can hold.
pub open spec fn max_bits() -> int {
    (usize::MAX / 8) as int
}

/// Calls `BitVec::repeat(false, len)`: a bit-vector of `len` zero bits. It
/// panics when `len` exceeds the largest bit count, which is left out.
#[verifier::external_body]
pub(crate) fn bits_repeat_false(len: usize) -> (r: Bits)
    requires
        len <= max_bits(),
    ensures
        bits_of(r) == Seq::new(len as nat, |i: int| false),
{
    Bits { inner: BitVec::<u8, Lsb0>::repeat(false, len) }
}

/// The bits of a byte vector, least significant bit of each byte first.
pub open spec fn bits_of_bytes(bytes: Seq<u8>) -> Seq<bool> {
    Seq::new(8 * bytes.len(), |i: int| (bytes[i / 8] >> ((i % 8) as u8)) & 1u8 == 1u8)
}

/// Calls `BitVec::from_vec`: the bit-vector spans every bit of the bytes, least
/// significant bit first. It panics when the bit count is too large, which is left out.
#[verifier::external_body]
pub(crate) fn bits_from_vec(bytes: Vec<u8>) -> (r: Bits)
    requires
        8 * bytes@.len() <= max_bits(),
    ensures
        bits_of(r) == bits_of_bytes(bytes@),
{
    Bits { inner: BitVec::<u8, Lsb0>::from_vec(bytes) }
}

/// Calls `BitVec::len`: the number of bits.
#[verifier::external_body]
pub(crate) fn bits_len(v: &Bits) -> (r: usize)
    ensures
        r == bits_of(*v).len(),
{
    v.inner.len()
}

/// Reads one bit by indexing the bit-slice; out-of-range indices panic and are left out.
#[verifier::external_body]
pub(crate) fn bits_get(v: &Bits, index: usize) -> (r: bool)
    requires
        index < bits_of(*v).len(),
    ensures
        r == bits_of(*v)[index as int],
{
    v.inner[index]
}

/// Calls `BitSlice::set`: writes one bit; out-of-range indices panic and are left out.
#[verifier::external_body]
pub(crate) fn bits_set(v: &mut Bits, index: usize, value: bool)
    requires
        index < bits_of(*old(v)).len(),
    ensures
        bits_of(*final(v)) == bits_of(*old(v)).update(index as int, value),
{
    v.inner.set(index, value);
}

/// Calls `BitSlice::any` on the bits `lo..hi`: whether one of them is set.
#[verifier::external_body]
pub(crate) fn bits_any(v: &Bits, lo: usize, hi: usize) -> (r: bool)
    requires
        lo <= hi <= bits_of(*v).len(),
    ensures
        r == (exists|i: int| lo <= i < hi && bits_of(*v)[i]),
{
    v.inner[lo..hi].any()
}

/// Calls `BitSlice::copy_within`: copies the bits `lo..hi` to start at `dest`.
/// It panics unless `lo` and `dest` are below the length and both ranges fit,
/// which is left out.
#[verifier::external_body]
pub(crate) fn bits_copy_within(v: &mut Bits, lo: usize, hi: usize, dest: usize)
    requires
        lo <= hi,
        lo < bits_of(*old(v)).len(),
        hi <= bits_of(*old(v)).len(),
        dest < bits_of(*old(v)).len(),
        dest + (hi - lo) <= bits_of(*old(v)).len(),
    ensures
        bits_of(*final(v)).len() == bits_of(*old(v)).len(),
        forall|i: int|
            0 <= i < bits_of(*old(v)).len() ==> #[trigger] bits_of(*final(v))[i] == if dest <= i
                < dest + (hi - lo) {
                bits_of(*old(v))[lo + (i - dest)]
            } else {
                bits_of(*old(v))[i]
            },
{
    v.inner.copy_within(lo..hi, dest);
}

/// Calls `BitSlice::reverse` on the bits `lo..hi`: they come in reverse
/// order, the other bits are kept. An out-of-range slice panics and is left out.
#[verifier::external_body]
pub(crate) fn bits_reverse(v: &mut Bits, lo: usize, hi: usize)
    requires
        lo <= hi <= bits_of(*old(v)).len(),
    ensures
        bits_of(*final(v)).len() == bits_of(*old(v)).len(),
        forall|i: int|
            0 <= i < bits_of(*old(v)).len() ==> #[trigger] bits_of(*final(v))[i] == if lo <= i < hi {
                bits_of(*old(v))[lo + hi - 1 - i]
            } else {
                bits_of(*old(v))[i]
            },
{
    v.inner[lo..hi].reverse();
}

/// Calls `BitVec::truncate`: keeps the first `len` bits (no change when longer).
#[verifier::external_body]
pub(crate) fn bits_truncate(v: &mut Bits, len: usize)
    ensures
        bits_of(*final(v)) == if len < bits_of(*old(v)).len() {
            bits_of(*old(v)).take(len as int)
        } else {
            bits_of(*old(v))
        },
{
    v.inner.truncate(len);
}

/// Calls `BitVec::set_elements(0)`: every byte of storage becomes zero, so every bit is clear.
#[verifier::external_body]
pub(crate) fn bits_clear_all(v: &mut Bits)
    ensures
        bits_of(*final(v)) == Seq::new(bits_of(*old(v)).len(), |i: int| false),
{
    v.inner.set_elements(0);
}

/// The number that a run of bits writes, first bit least significant.
pub open spec fn bits_value(s: Seq<bool>) -> nat
    decreases s.len(),
{
    if s.len() == 0 {
        0
    } else {
        bits_value(s.drop_last()) + if s.last() {
            pow2u(s.len() - 1)
        } else {
            0
        }
    }
}

/// Two to the power `k`, for bit positions.
pub open spec fn pow2u(k: int) -> nat
    decreases k,
{
    if k <= 0 {
        1
    } else {
        2 * pow2u(k - 1)
    }
}

/// The `n` bits of a colour index, least significant first.
pub open spec fn color_bits(c: u8, n: int) -> Seq<bool> {
    Seq::new(n as nat, |k: int| (c >> (k as u8)) & 1u8 == 1u8)
}

pub proof fn lemma_bits_value_bound(s: Seq<bool>)
    ensures
        bits_value(s) < pow2u(s.len() as int),
    decreases s.len(),
{
    if s.len() > 0 {
        lemma_bits_value_bound(s.drop_last());
    }
}

pub proof fn lemma_pow2u_small(k: int)
    requires
        0 <= k <= 8,
    ensures
        pow2u(k) == (1u32 << (k as u32)),
        pow2u(k) <= 256,
{
    reveal_with_fuel(pow2u, 9);
    assert((1u32 << 0u32) == 1) by (bit_vector);
    assert((1u32 << 1u32) == 2) by (bit_vector);
    assert((1u32 << 2u32) == 4) by (bit_vector);
    assert((1u32 << 3u32) == 8) by (bit_vector);
    assert((1u32 << 4u32) == 16) by (bit_vector);
    assert((1u32 << 5u32) == 32) by (bit_vector);
    assert((1u32 << 6u32) == 64) by (bit_vector);
    assert((1u32 << 7u32) == 128) by (bit_vector);
    assert((1u32 << 8u32) == 256) by (bit_vector);
}

/// Reading back the bits of a colour index gives the index modulo `2^n`.
pub proof fn lemma_color_bits_value(c: u8, n: int)
    requires
        0 <= n <= 8,
    ensures
        bits_value(color_bits(c, n)) == (c as nat) % pow2u(n),
    decreases n,
{
    lemma_pow2u_small(n);
    if n > 0 {
        lemma_color_bits_value(c, n - 1);
        assert(color_bits(c, n).drop_last() =~= color_bits(c, n - 1));
        lemma_pow2u_small(n - 1);
        let m = (n - 1) as u32;
        assert(m < 8);
        assert((c as u32) % (1u32 << (m + 1)) == (c as u32) % (1u32 << m) + if (c >> (m as u8)) & 1u8
            == 1u8 {
            1u32 << m
        } else {
            0
        }) by (bit_vector)
            requires
                m < 8,
        ;
    } else {
        assert(c % 1 == 0);
    }
}

/// `n` zero bytes.
fn zeroed(n: usize) -> (r: Vec<u8>)
    ensures
        r@ == Seq::new(n as nat, |k: int| 0u8),
{
    let mut out: Vec<u8> = Vec::new();
    let mut i: usize = 0;
    while i < n
        invariant
            i <= n,
            out@ == Seq::new(i as nat, |k: int| 0u8),
        decreases n - i,
    {
        out.push(0u8);
        i = i + 1;
        assert(out@ =~= Seq::new(i as nat, |k: int| 0u8));
    }
    out
}

/// The bits with every run of `w` (the last one possibly shorter) reversed.
pub open spec fn mirrored(bits: Seq<bool>, w: int) -> Seq<bool> {
    Seq::new(
        bits.len(),
        |k: int|
            {
                let s = (k / w) * w;
                let e = if s + w <= bits.len() { s + w } else { bits.len() as int };
                bits[s + e - 1 - k]
            },
    )
}

/// Mirroring twice gives the bits back: each run is reversed, then reversed again.
pub proof fn lemma_mirror_twice(bits: Seq<bool>, w: int)
    requires
        w > 0,
    ensures
        mirrored(mirrored(bits, w), w) == bits,
{
    let m = mirrored(bits, w);
    assert forall|k: int| 0 <= k < bits.len() implies #[trigger] mirrored(m, w)[k] == bits[k] by {
        let t = k / w;
        let s = t * w;
        let e = if s + w <= bits.len() { s + w } else { bits.len() as int };
        vstd::arithmetic::div_mod::lemma_fundamental_div_mod(k, w);
        assert(s <= k < s + w) by (nonlinear_arith)
            requires w > 0, t == k / w, s == t * w, k == w * (k / w) + k % w, 0 <= k % w < w;
        let j = s + e - 1 - k;
        assert(s <= j < e);
        lemma_chunk_of(j, t, w);
        assert(m[j] == bits[k]);
    }
    assert(mirrored(m, w) =~= bits);
}

/// Bit `k` of the run that starts at `t * w` lies in that run.
proof fn lemma_chunk_of(k: int, t: int, w: int)
    requires
        w > 0,
        t * w <= k < t * w + w,
    ensures
        (k / w) * w == t * w,
{
    vstd::arithmetic::div_mod::lemma_fundamental_div_mod_converse(k, w, t, k - t * w);
}

/// Pixel `i`'s four bytes in `bytes` are what `write_color` gave, with
/// success, for colour index `c` and pixel index `i`.
pub open spec fn wrote_ok<E, F: Fn(u8, usize) -> Result<[u8; 4], E>>(write_color: F, c: u8, i: int, bytes: Seq<u8>) -> bool {
    exists|w: [u8; 4]|
        #[trigger] write_color.ensures((c, i as usize), Ok::<[u8; 4], E>(w)) && bytes.subrange(i * 4, i * 4 + 4) == w@
}

/// What writing `g`'s pixel chunks with a fallible `write_color` did to the
/// bytes, by its result `r`: on success every chunk's pixel was written; on a
/// failure there is a first chunk `i` whose call failed with that error, the
/// pixels before it were written and the bytes from it on kept.
pub open spec fn tried<E, F: Fn(u8, usize) -> Result<[u8; 4], E>>(
    write_color: F,
    g: Gfx,
    r: Result<(), E>,
    before: Seq<u8>,
    after: Seq<u8>,
) -> bool {
    let count = g.bits().len() / (g.bitdepth as nat);
    &&& r is Ok ==> {
        &&& forall|i: int| 0 <= i < count ==> #[trigger] wrote_ok(write_color, g.index_at(i), i, after)
        &&& forall|k: int| count * 4 <= k < before.len() ==> #[trigger] after[k] == before[k]
    }
    &&& r is Err ==> exists|i: int|
        0 <= i < count && #[trigger] write_color.ensures((g.index_at(i), i as usize), Err::<[u8; 4], E>(r->Err_0))
            && (forall|j: int| 0 <= j < i ==> #[trigger] wrote_ok(write_color, g.index_at(j), j, after))
            && (forall|k: int| i * 4 <= k < before.len() ==> #[trigger] after[k] == before[k])
}

/// Pixel `i`'s four bytes in `bytes` are what `write_color` gave for colour
/// index `c` and pixel index `i`.
pub open spec fn wrote<F: Fn(u8, usize) -> [u8; 4]>(write_color: F, c: u8, i: int, bytes: Seq<u8>) -> bool {
    exists|w: [u8; 4]| #[trigger] write_color.ensures((c, i as usize), w) && bytes.subrange(i * 4, i * 4 + 4) == w@
}

/// An indexed image of `width` by `height` pixels of `bitdepth` bits each.
#[derive(Debug)]
pub struct Gfx {
    pub data: Bits,
    pub bitdepth: usize,
    pub width: usize,
    pub height: usize,
}

/// The first bit of pixel `(x, y)`.
pub open spec fn pixel_start(x: int, y: int, n: int, width: int) -> int {
    x * n + y * n * width
}

/// The offset of pixel `(x, y)` and the bits after it fit in a `usize`, so that
/// computing `x * n + y * n * width` and adding `n` does not overflow.
pub open spec fn pixel_offset_fits(x: int, y: int, n: int, width: int) -> bool {
    &&& y * n <= usize::MAX
    &&& pixel_start(x, y, n, width) + n <= usize::MAX
}

/// The first bit of pixel `(x, y)`, computed as the image does.
fn pixel_offset(x: usize, y: usize, n: usize, width: usize) -> (r: usize)
    requires
        pixel_offset_fits(x as int, y as int, n as int, width as int),
    ensures
        r == pixel_start(x as int, y as int, n as int, width as int),
        r + n <= usize::MAX,
{
    proof {
        assert(0 <= x * n) by (nonlinear_arith);
        assert(0 <= (y * n) * width) by (nonlinear_arith);
        assert(y * n * width == (y * n) * width) by (nonlinear_arith);
    }
    let a = x * n;
    let b = y * n;
    let c = b * width;
    a + c
}

/// The colour index at bits `start..start + n`.
pub open spec fn pixel_value(bits: Seq<bool>, start: int, n: int) -> nat {
    bits_value(bits.subrange(start, start + n))
}

/// The number of bits a colour count needs: the bit length of `count - 1`.
pub open spec fn bit_length(x: nat) -> nat
    decreases x,
{
    if x == 0 {
        0
    } else {
        1 + bit_length(x / 2)
    }
}

/// Calls `usize::leading_zeros`: the number of zero bits above the highest set bit.
#[verifier::external_body]
fn usize_leading_zeros(x: usize) -> (r: u32)
    ensures
        r == usize::BITS - bit_length(x as nat),
{
    x.leading_zeros()
}

/// The number of bits required to describe the given number of colours, or
/// `None` for no colours.
pub fn bits_required(color_count: usize) -> (r: Option<u32>)
    ensures
        color_count == 0 ==> r is None,
        color_count > 0 ==> r == Some(bit_length((color_count - 1) as nat) as u32),
        color_count > 0 ==> bit_length((color_count - 1) as nat) <= usize::BITS,
{
    if color_count == 0 {
        return None;
    }
    let lz = usize_leading_zeros(color_count - 1);
    Some(usize::BITS - lz)
}

impl Gfx {
    /// The bits of the image.
    pub open spec fn bits(&self) -> Seq<bool> {
        bits_of(self.data)
    }

    /// A blank image: every colour index is 0.
    pub fn new(bitdepth: usize, width: usize, height: usize) -> (r: Gfx)
        requires
            width * height <= usize::MAX,
            width * height * bitdepth <= max_bits(),
        ensures
            r.bitdepth == bitdepth,
            r.width == width,
            r.height == height,
            r.bits() == Seq::new((width * height * bitdepth) as nat, |i: int| false),
    {
        let wh = width * height;
        let len = wh * bitdepth;
        Gfx { data: bits_repeat_false(len), bitdepth, width, height }
    }

    /// An image over the given bytes; they must hold at least `width * height` pixels.
    pub fn from_vec(bitdepth: usize, width: usize, height: usize, vec: Vec<u8>) -> (r: Gfx)
        requires
            8 * vec@.len() <= max_bits(),
            width * height * bitdepth <= 8 * vec@.len(),
        ensures
            r.bitdepth == bitdepth,
            r.width == width,
            r.height == height,
            r.bits() == bits_of_bytes(vec@),
    {
        Gfx { data: bits_from_vec(vec), bitdepth, width, height }
    }

    /// The colour index at `(x, y)`, or `None` when its bits lie beyond the image data.
    pub fn get(&self, x: usize, y: usize) -> (r: Option<u8>)
        requires
            pixel_offset_fits(x as int, y as int, self.bitdepth as int, self.width as int),
            pixel_start(x as int, y as int, self.bitdepth as int, self.width as int)
                + self.bitdepth <= self.bits().len() ==> self.bitdepth <= 8,
        ensures
            ({
                let start = pixel_start(x as int, y as int, self.bitdepth as int, self.width as int);
                if start + self.bitdepth <= self.bits().len() {
                    r == Some(pixel_value(self.bits(), start, self.bitdepth as int) as u8)
                } else {
                    r is None
                }
            }),
    {
        let n = self.bitdepth;
        let start = pixel_offset(x, y, n, self.width);
        let len = bits_len(&self.data);
        if start + n > len {
            return None;
        }
        Some(self.load(start))
    }

    /// The colour index stored at bits `start..start + bitdepth`.
    fn load(&self, start: usize) -> (r: u8)
        requires
            self.bitdepth <= 8,
            start + self.bitdepth <= usize::MAX,
            start + self.bitdepth <= self.bits().len(),
        ensures
            r == pixel_value(self.bits(), start as int, self.bitdepth as int),
    {
        let n = self.bitdepth;
        let ghost bits = self.bits();
        let mut v: u32 = 0;
        let mut k: usize = 0;
        while k < n
            invariant
                k <= n <= 8,
                start + n <= bits.len(),
                start + n <= usize::MAX,
                bits == self.bits(),
                v == bits_value(bits.subrange(start as int, start + k)),
            decreases n - k,
        {
            proof {
                lemma_bits_value_bound(bits.subrange(start as int, start + k));
                lemma_pow2u_small(k as int);
                assert(bits.subrange(start as int, start + k + 1).drop_last() =~= bits.subrange(
                    start as int,
                    start + k,
                ));
            }
            if bits_get(&self.data, start + k) {
                v = v + (1u32 << (k as u32));
            }
            k = k + 1;
        }
        proof {
            lemma_bits_value_bound(bits.subrange(start as int, start + n));
            lemma_pow2u_small(n as int);
        }
        v as u8
    }

    /// Writes the low `bitdepth` bits of `color_index` at `(x, y)`. Returns
    /// whether the pixel lies within the image data (nothing changes otherwise).
    pub fn set(&mut self, x: usize, y: usize, color_index: u8) -> (r: bool)
        requires
            pixel_offset_fits(
                x as int,
                y as int,
                old(self).bitdepth as int,
                old(self).width as int,
            ),
            pixel_start(x as int, y as int, old(self).bitdepth as int, old(self).width as int)
                + old(self).bitdepth <= old(self).bits().len() ==> old(self).bitdepth <= 8,
        ensures
            final(self).bitdepth == old(self).bitdepth,
            final(self).width == old(self).width,
            final(self).height == old(self).height,
            ({
                let start = pixel_start(
                    x as int,
                    y as int,
                    old(self).bitdepth as int,
                    old(self).width as int,
                );
                let n = old(self).bitdepth as int;
                if start + n <= old(self).bits().len() {
                    &&& r
                    &&& final(self).bits().len() == old(self).bits().len()
                    &&& forall|i: int|
                        0 <= i < old(self).bits().len() ==> #[trigger] final(self).bits()[i] == if start
                            <= i < start + n {
                            color_bits(color_index, n)[i - start]
                        } else {
                            old(self).bits()[i]
                        }
                } else {
                    !r && final(self).bits() == old(self).bits()
                }
            }),
    {
        let n = self.bitdepth;
        let start = pixel_offset(x, y, n, self.width);
        let len = bits_len(&self.data);
        if start + n > len {
            return false;
        }
        let ghost old_bits = self.bits();
        let mut k: usize = 0;
        while k < n
            invariant
                k <= n <= 8,
                n == self.bitdepth,
                start + n <= len == old_bits.len(),
                self.bits().len() == old_bits.len(),
                self.bitdepth == old(self).bitdepth,
                self.width == old(self).width,
                self.height == old(self).height,
                old_bits == old(self).bits(),
                forall|i: int|
                    0 <= i < old_bits.len() ==> #[trigger] self.bits()[i] == if start <= i < start
                        + k {
                        color_bits(color_index, n as int)[i - start]
                    } else {
                        old_bits[i]
                    },
            decreases n - k,
        {
            let bit = (color_index >> (k as u8)) & 1u8 == 1u8;
            bits_set(&mut self.data, start + k, bit);
            k = k + 1;
        }
        true
    }

    /// The colour index of every whole pixel chunk of the data, in order. This
    /// is what gets written when the image is turned into RGBA bytes.
    pub fn color_indices(&self) -> (r: Vec<u8>)
        requires
            1 <= self.bitdepth <= 8,
        ensures
            r@.len() == self.bits().len() / (self.bitdepth as nat),
            forall|i: int|
                0 <= i < r@.len() ==> #[trigger] r@[i] == pixel_value(
                    self.bits(),
                    i * self.bitdepth,
                    self.bitdepth as int,
                ),
    {
        let n = self.bitdepth;
        let len = bits_len(&self.data);
        let count = len / n;
        let mut out: Vec<u8> = Vec::new();
        let mut i: usize = 0;
        while i < count
            invariant
                i <= count,
                count == len / n,
                len == self.bits().len(),
                n == self.bitdepth,
                1 <= n <= 8,
                out@.len() == i,
                forall|j: int|
                    0 <= j < i ==> #[trigger] out@[j] == pixel_value(
                        self.bits(),
                        j * n,
                        n as int,
                    ),
            decreases count - i,
        {
            proof {
                assert((i + 1) * n <= count * n) by (nonlinear_arith)
                    requires
                        i < count,
                        n >= 1,
                ;
                assert(count * n <= len) by (nonlinear_arith)
                    requires
                        count == len / n,
                        n >= 1,
                ;
                assert(i * n + n == (i + 1) * n) by (nonlinear_arith);
            }
            let v = self.load(i * n);
            out.push(v);
            i = i + 1;
        }
        out
    }

    /// Writes the RGBA bytes of every whole pixel chunk into `pixel_bytes`:
    /// pixel `i` takes the four bytes at `4 * i` that `write_color` gives for
    /// its colour index and `i`. The chunks must cover the image, and the
    /// buffer hold them all.
    pub fn write_bytes<F: Fn(u8, usize) -> [u8; 4]>(&self, pixel_bytes: &mut Vec<u8>, write_color: F)
        requires
            1 <= self.bitdepth <= 8,
            self.bits().len() / (self.bitdepth as nat) >= self.width * self.height,
            old(pixel_bytes)@.len() >= self.bits().len() / (self.bitdepth as nat) * 4,
            forall|c: u8, i: usize| write_color.requires((c, i)),
        ensures
            final(pixel_bytes)@.len() == old(pixel_bytes)@.len(),
            forall|i: int|
                0 <= i < self.bits().len() / (self.bitdepth as nat) ==> #[trigger] wrote(
                    write_color,
                    self.index_at(i),
                    i,
                    final(pixel_bytes)@,
                ),
            forall|k: int|
                self.bits().len() / (self.bitdepth as nat) * 4 <= k < old(pixel_bytes)@.len()
                    ==> #[trigger] final(pixel_bytes)@[k] == old(pixel_bytes)@[k],
    {
        self.write_pixels(pixel_bytes, write_color)
    }

    /// Writes every whole pixel chunk's RGBA bytes (see `write_bytes`).
    fn write_pixels<F: Fn(u8, usize) -> [u8; 4]>(&self, pixel_bytes: &mut Vec<u8>, write_color: F)
        requires
            1 <= self.bitdepth <= 8,
            old(pixel_bytes)@.len() >= self.bits().len() / (self.bitdepth as nat) * 4,
            forall|c: u8, i: usize| write_color.requires((c, i)),
        ensures
            final(pixel_bytes)@.len() == old(pixel_bytes)@.len(),
            forall|i: int|
                0 <= i < self.bits().len() / (self.bitdepth as nat) ==> #[trigger] wrote(
                    write_color,
                    self.index_at(i),
                    i,
                    final(pixel_bytes)@,
                ),
            forall|k: int|
                self.bits().len() / (self.bitdepth as nat) * 4 <= k < old(pixel_bytes)@.len()
                    ==> #[trigger] final(pixel_bytes)@[k] == old(pixel_bytes)@[k],
    {
        let indices = self.color_indices();
        let n = indices.len();
        let mut i: usize = 0;
        while i < n
            invariant
                n == indices@.len() == self.bits().len() / (self.bitdepth as nat),
                1 <= self.bitdepth <= 8,
                i <= n,
                forall|c: u8, j: usize| write_color.requires((c, j)),
                forall|j: int| 0 <= j < n ==> #[trigger] indices@[j] == self.index_at(j),
                pixel_bytes@.len() == old(pixel_bytes)@.len(),
                pixel_bytes@.len() >= n * 4,
                forall|j: int| 0 <= j < i ==> #[trigger] wrote(write_color, self.index_at(j), j, pixel_bytes@),
                forall|k: int| i * 4 <= k < pixel_bytes@.len() ==> #[trigger] pixel_bytes@[k] == old(pixel_bytes)@[k],
            decreases n - i,
        {
            let c = indices[i];
            let rgba = write_color(c, i);
            let ghost before = pixel_bytes@;
            let len = pixel_bytes.len();
            proof {
                assert(i * 4 + 4 <= n * 4) by (nonlinear_arith) requires i < n;
                assert(i * 4 + 4 <= len);
            }
            pixel_bytes.set(i * 4, rgba[0]);
            pixel_bytes.set(i * 4 + 1, rgba[1]);
            pixel_bytes.set(i * 4 + 2, rgba[2]);
            pixel_bytes.set(i * 4 + 3, rgba[3]);
            proof {
                assert(pixel_bytes@.subrange(i * 4, i * 4 + 4) =~= rgba@);
                assert(wrote(write_color, self.index_at(i as int), i as int, pixel_bytes@));
                assert forall|j: int| 0 <= j < i + 1 implies #[trigger] wrote(write_color, self.index_at(j), j, pixel_bytes@) by {
                    if j < i {
                        assert(wrote(write_color, self.index_at(j), j, before));
                        let w = choose|w: [u8; 4]| write_color.ensures((self.index_at(j), j as usize), w)
                            && before.subrange(j * 4, j * 4 + 4) == w@;
                        assert(j * 4 + 4 <= i * 4) by (nonlinear_arith) requires j < i;
                        assert(pixel_bytes@.subrange(j * 4, j * 4 + 4) =~= before.subrange(j * 4, j * 4 + 4));
                    }
                }
            }
            i = i + 1;
        }
    }

    /// The RGBA bytes of the image (`width * height * 4`, transparent where no
    /// chunk reaches): pixel `i` takes the four bytes that `write_color` gives
    /// for its colour index and `i`. The chunks must fit within the image.
    pub fn to_image<F: Fn(u8, usize) -> [u8; 4]>(&self, write_color: F) -> (r: Vec<u8>)
        requires
            1 <= self.bitdepth <= 8,
            self.bits().len() / (self.bitdepth as nat) <= self.width * self.height,
            self.width * self.height * 4 <= usize::MAX,
            forall|c: u8, i: usize| write_color.requires((c, i)),
        ensures
            r@.len() == self.width * self.height * 4,
            forall|i: int|
                0 <= i < self.bits().len() / (self.bitdepth as nat) ==> #[trigger] wrote(
                    write_color,
                    self.index_at(i),
                    i,
                    r@,
                ),
            forall|k: int|
                self.bits().len() / (self.bitdepth as nat) * 4 <= k < r@.len() ==> #[trigger] r@[k] == 0u8,
    {
        let mut bytes = zeroed(self.width * self.height * 4);
        proof {
            let cnt: int = (self.bits().len() / (self.bitdepth as nat)) as int;
            let wh: int = self.width * self.height;
            assert(cnt * 4 <= wh * 4) by (nonlinear_arith) requires cnt <= wh;
        }
        self.write_pixels(&mut bytes, write_color);
        bytes
    }

    /// Writes the RGBA bytes of every whole pixel chunk into `pixel_bytes` as
    /// `write_bytes` does, where `write_color` may fail: the first failure
    /// stops the writing and is returned, the pixels before it written.
    pub fn try_write_bytes<E, F: Fn(u8, usize) -> Result<[u8; 4], E>>(
        &self,
        pixel_bytes: &mut Vec<u8>,
        write_color: F,
    ) -> (r: Result<(), E>)
        requires
            1 <= self.bitdepth <= 8,
            self.bits().len() / (self.bitdepth as nat) >= self.width * self.height,
            old(pixel_bytes)@.len() >= self.bits().len() / (self.bitdepth as nat) * 4,
            forall|c: u8, i: usize| write_color.requires((c, i)),
        ensures
            final(pixel_bytes)@.len() == old(pixel_bytes)@.len(),
            tried(write_color, *self, r, old(pixel_bytes)@, final(pixel_bytes)@),
    {
        self.try_write_pixels(pixel_bytes, write_color)
    }

    /// The RGBA bytes of the image, as `to_image` makes them, where
    /// `write_color` may fail: the first failure is returned.
    pub fn try_to_image<E, F: Fn(u8, usize) -> Result<[u8; 4], E>>(&self, write_color: F) -> (r: Result<Vec<u8>, E>)
        requires
            1 <= self.bitdepth <= 8,
            self.bits().len() / (self.bitdepth as nat) <= self.width * self.height,
            self.width * self.height * 4 <= usize::MAX,
            forall|c: u8, i: usize| write_color.requires((c, i)),
        ensures
            r is Ok ==> r->Ok_0@.len() == self.width * self.height * 4,
            r is Ok ==> forall|i: int|
                0 <= i < self.bits().len() / (self.bitdepth as nat) ==> #[trigger] wrote_ok(
                    write_color,
                    self.index_at(i),
                    i,
                    r->Ok_0@,
                ),
            r is Ok ==> forall|k: int|
                self.bits().len() / (self.bitdepth as nat) * 4 <= k < r->Ok_0@.len() ==> #[trigger] r->Ok_0@[k] == 0u8,
            r is Err ==> exists|i: int|
                0 <= i < self.bits().len() / (self.bitdepth as nat) && #[trigger] write_color.ensures(
                    (self.index_at(i), i as usize),
                    Err::<[u8; 4], E>(r->Err_0),
                ),
    {
        let mut bytes = zeroed(self.width * self.height * 4);
        let ghost blank = bytes@;
        proof {
            let cnt: int = (self.bits().len() / (self.bitdepth as nat)) as int;
            let wh: int = self.width * self.height;
            assert(cnt * 4 <= wh * 4) by (nonlinear_arith) requires cnt <= wh;
        }
        let res = self.try_write_pixels(&mut bytes, write_color);
        match res {
            Ok(()) => {
                proof {
                    assert(res is Ok);
                    assert(tried(write_color, *self, res, blank, bytes@));
                    assert forall|k: int|
                        self.bits().len() / (self.bitdepth as nat) * 4 <= k < bytes@.len() implies #[trigger] bytes@[k]
                            == 0u8 by {
                        assert(bytes@[k] == blank[k]);
                    }
                }
                Ok(bytes)
            },
            Err(e) => {
                proof {
                    assert(res is Err && res->Err_0 == e);
                    assert(tried(write_color, *self, res, blank, bytes@));
                }
                let out: Result<Vec<u8>, E> = Err(e);
                proof {
                    assert(out is Err && out->Err_0 == e);
                    assert(exists|i: int|
                        0 <= i < self.bits().len() / (self.bitdepth as nat) && #[trigger] write_color.ensures(
                            (self.index_at(i), i as usize),
                            Err::<[u8; 4], E>(out->Err_0),
                        ));
                }
                out
            },
        }
    }

    /// Writes every whole pixel chunk's RGBA bytes until the first failure
    /// (see `try_write_bytes`).
    fn try_write_pixels<E, F: Fn(u8, usize) -> Result<[u8; 4], E>>(
        &self,
        pixel_bytes: &mut Vec<u8>,
        write_color: F,
    ) -> (r: Result<(), E>)
        requires
            1 <= self.bitdepth <= 8,
            old(pixel_bytes)@.len() >= self.bits().len() / (self.bitdepth as nat) * 4,
            forall|c: u8, i: usize| write_color.requires((c, i)),
        ensures
            final(pixel_bytes)@.len() == old(pixel_bytes)@.len(),
            tried(write_color, *self, r, old(pixel_bytes)@, final(pixel_bytes)@),
    {
        let indices = self.color_indices();
        let n = indices.len();
        let mut i: usize = 0;
        while i < n
            invariant
                n == indices@.len() == self.bits().len() / (self.bitdepth as nat),
                1 <= self.bitdepth <= 8,
                i <= n,
                forall|c: u8, j: usize| write_color.requires((c, j)),
                forall|j: int| 0 <= j < n ==> #[trigger] indices@[j] == self.index_at(j),
                pixel_bytes@.len() == old(pixel_bytes)@.len(),
                pixel_bytes@.len() >= n * 4,
                forall|j: int| 0 <= j < i ==> #[trigger] wrote_ok(write_color, self.index_at(j), j, pixel_bytes@),
                forall|k: int| i * 4 <= k < pixel_bytes@.len() ==> #[trigger] pixel_bytes@[k] == old(pixel_bytes)@[k],
            decreases n - i,
        {
            let c = indices[i];
            let rgba = match write_color(c, i) {
                Ok(rgba) => rgba,
                Err(e) => {
                    proof {
                        let ii = i as int;
                        assert(self.index_at(ii) == c);
                        assert(0 <= ii < n && write_color.ensures((self.index_at(ii), ii as usize), Err::<[u8; 4], E>(e))
                            && (forall|j: int| 0 <= j < ii ==> #[trigger] wrote_ok(write_color, self.index_at(j), j, pixel_bytes@))
                            && (forall|k: int| ii * 4 <= k < old(pixel_bytes)@.len() ==> #[trigger] pixel_bytes@[k] == old(pixel_bytes)@[k]));
                        let rr = Err::<(), E>(e);
                        assert(rr is Err);
                        assert(rr->Err_0 == e);
                        assert(tried(write_color, *self, rr, old(pixel_bytes)@, pixel_bytes@));
                    }
                    return Err(e);
                },
            };
            let ghost before = pixel_bytes@;
            let len = pixel_bytes.len();
            proof {
                assert(i * 4 + 4 <= n * 4) by (nonlinear_arith) requires i < n;
                assert(i * 4 + 4 <= len);
            }
            pixel_bytes.set(i * 4, rgba[0]);
            pixel_bytes.set(i * 4 + 1, rgba[1]);
            pixel_bytes.set(i * 4 + 2, rgba[2]);
            pixel_bytes.set(i * 4 + 3, rgba[3]);
            proof {
                assert(pixel_bytes@.subrange(i * 4, i * 4 + 4) =~= rgba@);
                assert(wrote_ok(write_color, self.index_at(i as int), i as int, pixel_bytes@));
                assert forall|j: int| 0 <= j < i + 1 implies #[trigger] wrote_ok(write_color, self.index_at(j), j, pixel_bytes@) by {
                    if j < i {
                        assert(wrote_ok(write_color, self.index_at(j), j, before));
                        let w = choose|w: [u8; 4]| write_color.ensures((self.index_at(j), j as usize), Ok::<[u8; 4], E>(w))
                            && before.subrange(j * 4, j * 4 + 4) == w@;
                        assert(j * 4 + 4 <= i * 4) by (nonlinear_arith) requires j < i;
                        assert(pixel_bytes@.subrange(j * 4, j * 4 + 4) =~= before.subrange(j * 4, j * 4 + 4));
                    }
                }
            }
            i = i + 1;
        }
        Ok(())
    }

    /// Mirrors a one-bit image left to right: every run of `width` bits (the
    /// last one possibly shorter) is reversed.
    pub fn mirror_horizontal(self) -> (r: Gfx)
        requires
            self.bitdepth == 1,
            self.width > 0,
        ensures
            r.bitdepth == self.bitdepth,
            r.width == self.width,
            r.height == self.height,
            r.bits() == mirrored(self.bits(), self.width as int),
    {
        let mut g = self;
        let len = bits_len(&g.data);
        let w = g.width;
        let mut s: usize = 0;
        let ghost mut t: int = 0;
        while s < len
            invariant
                g.bitdepth == self.bitdepth,
                g.width == w == self.width,
                g.height == self.height,
                w > 0,
                len == self.bits().len(),
                g.bits().len() == len,
                s < len ==> s == t * w,
                s <= len,
                0 <= t,
                forall|k: int| 0 <= k < s && k < len ==> #[trigger] g.bits()[k] == mirrored(self.bits(), w as int)[k],
                forall|k: int| s <= k < len ==> #[trigger] g.bits()[k] == self.bits()[k],
            decreases len - s,
        {
            let e = if len - s > w { s + w } else { len };
            let ghost before = g.bits();
            bits_reverse(&mut g.data, s, e);
            proof {
                assert forall|k: int| 0 <= k < e implies #[trigger] g.bits()[k] == mirrored(self.bits(), w as int)[k] by {
                    if k >= s {
                        lemma_chunk_of(k, t, w as int);
                        assert(before[s + e - 1 - k] == self.bits()[s + e - 1 - k]);
                    }
                }
            }
            if len - s > w {
                s = s + w;
            } else {
                s = len;
            }
            proof {
                t = t + 1;
                assert(t * w == (t - 1) * w + w) by (nonlinear_arith);
            }
        }
        g
    }

    /// The colour index of whole pixel chunk `i`.
    pub open spec fn index_at(&self, i: int) -> u8 {
        pixel_value(self.bits(), i * self.bitdepth, self.bitdepth as int) as u8
    }

    /// Clears every colour index to 0.
    pub fn clear(&mut self)
        ensures
            final(self).bitdepth == old(self).bitdepth,
            final(self).width == old(self).width,
            final(self).height == old(self).height,
            final(self).bits() == Seq::new(old(self).bits().len(), |i: int| false),
    {
        bits_clear_all(&mut self.data);
    }
}

/// Reading a pixel back after writing it gives the colour index written,
/// modulo `2^bitdepth`.
pub proof fn lemma_get_after_set(before: Gfx, after: Gfx, x: int, y: int, c: u8)
    requires
        before.bitdepth <= 8,
        pixel_start(x, y, before.bitdepth as int, before.width as int) >= 0,
        pixel_start(x, y, before.bitdepth as int, before.width as int) + before.bitdepth
            <= before.bits().len(),
        after.bits().len() == before.bits().len(),
        forall|i: int|
            0 <= i < before.bits().len() ==> #[trigger] after.bits()[i] == if pixel_start(
                x,
                y,
                before.bitdepth as int,
                before.width as int,
            ) <= i < pixel_start(x, y, before.bitdepth as int, before.width as int)
                + before.bitdepth {
                color_bits(
                    c,
                    before.bitdepth as int,
                )[i - pixel_start(x, y, before.bitdepth as int, before.width as int)]
            } else {
                before.bits()[i]
            },
    ensures
        pixel_value(
            after.bits(),
            pixel_start(x, y, before.bitdepth as int, before.width as int),
            before.bitdepth as int,
        ) == (c as nat) % pow2u(before.bitdepth as int),
{
    let start = pixel_start(x, y, before.bitdepth as int, before.width as int);
    let n = before.bitdepth as int;
    assert(after.bits().subrange(start, start + n) =~= color_bits(c, n));
    lemma_color_bits_value(c, n);
}

/// The registrations of indexed images: the palette-lookup shader and its
/// material plugin, the image and material assets (also made known to
/// reflection), the image map, and the systems that recompute images after
/// each update (the sprite-change one after the asset-event one).
pub fn plugin(app: &mut AppPlan)
    ensures
        final(app).same_features(*old(app)),
        final(app).steps@ == old(app).steps@ + seq![
            Setup::Shader("shaders/gfx_palette_lookup.wgsl"),
            Setup::Plugin("Material2dPlugin<GfxPaletteLookupMaterial>"),
            Setup::ReflectAsset("Gfx"),
            Setup::ReflectAsset("GfxMaterial"),
            Setup::Resource("GfxImageMap"),
            Setup::Asset("Gfx"),
            Setup::Asset("GfxMaterial"),
            Setup::System(Schedule::PostUpdate, "compute_image_on_asset_event"),
            Setup::SystemAfter(
                Schedule::PostUpdate,
                "compute_image_on_gfx_sprite_change",
                "compute_image_on_asset_event",
            ),
            Setup::System(Schedule::PostUpdate, "check_dirty"),
        ],
        runs_after(
            final(app).steps@,
            Schedule::PostUpdate,
            "compute_image_on_gfx_sprite_change",
            "compute_image_on_asset_event",
        ),
{
    app.add(Setup::Shader("shaders/gfx_palette_lookup.wgsl"));
    app.add(Setup::Plugin("Material2dPlugin<GfxPaletteLookupMaterial>"));
    app.add(Setup::ReflectAsset("Gfx"));
    app.add(Setup::ReflectAsset("GfxMaterial"));
    app.add(Setup::Resource("GfxImageMap"));
    app.add(Setup::Asset("Gfx"));
    app.add(Setup::Asset("GfxMaterial"));
    app.add(Setup::System(Schedule::PostUpdate, "compute_image_on_asset_event"));
    app.add(Setup::SystemAfter(Schedule::PostUpdate, "compute_image_on_gfx_sprite_change", "compute_image_on_asset_event"));
    let ghost k = app.steps@.len() - 1;
    app.add(Setup::System(Schedule::PostUpdate, "check_dirty"));
    assert(app.steps@[k] == Setup::SystemAfter(
        Schedule::PostUpdate,
        "compute_image_on_gfx_sprite_change",
        "compute_image_on_asset_event",
    ));
}

} // verus!
