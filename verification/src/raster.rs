//! Pixel plots for the shape primitives: an RGBA byte buffer and a pen colour.
//! Shapes are plotted point by point, or filled span by span.
use vstd::prelude::*;

verus! {

/// An RGBA image of `width` by `height` pixels (four bytes each, row after row)
/// and the colour that plots draw with.
#[derive(Debug, Clone)]
pub struct Raster {
    pub data: Vec<u8>,
    pub width: u32,
    pub height: u32,
    pub pen: [u8; 4],
}

/// The colour of pixel index `p` after painting: the pen where `p` is painted.
pub open spec fn painted(old: Seq<u8>, pen: [u8; 4], paint: spec_fn(int) -> bool) -> Seq<u8> {
    Seq::new(old.len(), |k: int| if paint(k / 4) { pen[k % 4] } else { old[k] })
}

/// The four bytes of pixel `(x, y)`.
pub open spec fn pixel_at(data: Seq<u8>, width: int, x: int, y: int) -> Seq<u8> {
    data.subrange((y * width + x) * 4, (y * width + x) * 4 + 4)
}

impl Raster {
    /// The buffer holds the whole image, whose pixel indices fit a `u32`.
    pub open spec fn wf(&self) -> bool {
        &&& self.width >= 1
        &&& self.height >= 1
        &&& self.width * self.height <= u32::MAX
        &&& self.data@.len() == self.width * self.height * 4
    }

    /// `(x, y)` is a pixel of the image.
    pub open spec fn inside(&self, x: int, y: int) -> bool {
        0 <= x < self.width && 0 <= y < self.height
    }

    /// A transparent image of the given size (at least one pixel each way).
    pub fn new(size: (u32, u32), pen: [u8; 4]) -> (r: Raster)
        requires
            (if size.0 < 1 { 1 } else { size.0 as int }) * (if size.1 < 1 { 1 } else { size.1 as int }) <= u32::MAX,
            (if size.0 < 1 { 1 } else { size.0 as int }) * (if size.1 < 1 { 1 } else { size.1 as int }) * 4 <= usize::MAX,
        ensures
            r.wf(),
            r.width == if size.0 < 1 { 1 } else { size.0 },
            r.height == if size.1 < 1 { 1 } else { size.1 },
            r.pen == pen,
            r.data@ == Seq::new(r.data@.len(), |k: int| 0u8),
    {
        let w: u32 = if size.0 < 1 { 1 } else { size.0 };
        let h: u32 = if size.1 < 1 { 1 } else { size.1 };
        let n = (w as usize) * (h as usize) * 4;
        let mut data: Vec<u8> = Vec::new();
        let mut i: usize = 0;
        while i < n
            invariant
                i <= n,
                data@.len() == i,
                forall|k: int| 0 <= k < i ==> #[trigger] data@[k] == 0u8,
            decreases n - i,
        {
            data.push(0u8);
            i = i + 1;
        }
        Raster { data, width: w, height: h, pen }
    }

    /// Paints pixel index `p` (row after row) with the pen.
    pub fn paint(&mut self, p: u32)
        requires
            old(self).wf(),
            p < old(self).width * old(self).height,
        ensures
            final(self).wf(),
            final(self).width == old(self).width,
            final(self).height == old(self).height,
            final(self).pen == old(self).pen,
            final(self).data@ == painted(old(self).data@, old(self).pen, |q: int| q == p),
    {
        let pen = self.pen;
        self.paint_color(p, pen);
        assert(self.data@ =~= painted(old(self).data@, old(self).pen, |q: int| q == p));
    }

    /// Paints pixel index `p` (row after row) with colour `c`.
    pub fn paint_color(&mut self, p: u32, c: [u8; 4])
        requires
            old(self).wf(),
            p < old(self).width * old(self).height,
        ensures
            final(self).wf(),
            final(self).width == old(self).width,
            final(self).height == old(self).height,
            final(self).pen == old(self).pen,
            final(self).data@ == painted(old(self).data@, c, |q: int| q == p),
    {
        let len = self.data.len();
        proof {
            assert(p * 4 + 4 <= self.width * self.height * 4) by (nonlinear_arith)
                requires p < self.width * self.height;
        }
        let i = (p as usize) * 4;
        let ghost before = self.data@;
        let mut k: usize = 0;
        while k < 4
            invariant
                k <= 4,
                self.wf(),
                self.width == old(self).width,
                self.height == old(self).height,
                self.pen == old(self).pen,
                before == old(self).data@,
                i == p * 4,
                i + 4 <= self.data@.len(),
                self.data@.len() == before.len(),
                forall|j: int| 0 <= j < before.len() ==> #[trigger] self.data@[j] == if i <= j < i + k {
                    c[j % 4]
                } else {
                    before[j]
                },
            decreases 4 - k,
        {
            let b = c[k];
            self.data.set(i + k, b);
            k = k + 1;
        }
        assert(self.data@ =~= painted(before, c, |q: int| q == p));
    }

    /// Plots one pixel, which must lie inside the image.
    pub fn plot(&mut self, x: i32, y: i32)
        requires
            old(self).wf(),
            old(self).inside(x as int, y as int),
        ensures
            final(self).wf(),
            final(self).width == old(self).width,
            final(self).height == old(self).height,
            final(self).pen == old(self).pen,
            final(self).data@ == painted(
                old(self).data@,
                old(self).pen,
                |q: int| q == y * old(self).width + x,
            ),
    {
        proof {
            assert(y * self.width + x < self.width * self.height) by (nonlinear_arith)
                requires 0 <= x < self.width, 0 <= y < self.height;
            assert(0 <= y * self.width) by (nonlinear_arith) requires 0 <= y, self.width >= 1;
        }
        let p = (y as u32) * self.width + (x as u32);
        self.paint(p);
    }

    /// Plots one pixel if it lies inside the image; nothing changes otherwise.
    pub fn plot_clip(&mut self, x: i32, y: i32)
        requires
            old(self).wf(),
        ensures
            final(self).wf(),
            final(self).width == old(self).width,
            final(self).height == old(self).height,
            final(self).pen == old(self).pen,
            final(self).data@ == if old(self).inside(x as int, y as int) {
                painted(old(self).data@, old(self).pen, |q: int| q == y * old(self).width + x)
            } else {
                old(self).data@
            },
    {
        if x < 0 || y < 0 || (x as u32) >= self.width || (y as u32) >= self.height {
            return;
        }
        self.plot(x, y);
    }

    /// Paints the pixels `lo..=hi` of row `y`, in the image.
    fn span(&mut self, lo: u32, hi: u32, y: u32)
        requires
            old(self).wf(),
            lo <= hi < old(self).width,
            y < old(self).height,
        ensures
            final(self).wf(),
            final(self).width == old(self).width,
            final(self).height == old(self).height,
            final(self).pen == old(self).pen,
            final(self).data@ == painted(
                old(self).data@,
                old(self).pen,
                |q: int| y * old(self).width + lo <= q <= y * old(self).width + hi,
            ),
    {
        proof {
            assert(y * self.width + hi < self.width * self.height) by (nonlinear_arith)
                requires hi < self.width, y < self.height;
            assert(0 <= y * self.width) by (nonlinear_arith) requires 0 <= y, self.width >= 1;
        }
        let row = y * self.width;
        let ghost before = self.data@;
        let mut x = lo;
        while x <= hi
            invariant
                self.wf(),
                lo <= x <= hi + 1,
                hi < self.width,
                row == y * self.width,
                row + hi < self.width * self.height,
                self.width == old(self).width,
                self.height == old(self).height,
                self.pen == old(self).pen,
                before == old(self).data@,
                self.data@ == painted(before, self.pen, |q: int| row + lo <= q < row + x),
            decreases hi + 1 - x,
        {
            let ghost mid = self.data@;
            self.paint(row + x);
            assert(self.data@ =~= painted(before, self.pen, |q: int| row + lo <= q < row + x + 1));
            x = x + 1;
        }
        assert(self.data@ =~= painted(before, self.pen, |q: int| row + lo <= q <= row + hi));
    }

    /// Fills row `y` from `x0` to `x1` (either order), which must lie inside the image.
    pub fn hline(&mut self, x0: i32, x1: i32, y: i32)
        requires
            old(self).wf(),
            old(self).inside(x0 as int, y as int),
            old(self).inside(x1 as int, y as int),
        ensures
            final(self).wf(),
            final(self).width == old(self).width,
            final(self).height == old(self).height,
            final(self).pen == old(self).pen,
            final(self).data@ == painted(
                old(self).data@,
                old(self).pen,
                |q: int|
                    y * old(self).width + (if x0 <= x1 { x0 } else { x1 }) <= q <= y * old(
                        self,
                    ).width + (if x0 <= x1 { x1 } else { x0 }),
            ),
    {
        let (lo, hi) = if x0 <= x1 { (x0, x1) } else { (x1, x0) };
        self.span(lo as u32, hi as u32, y as u32);
    }

    /// Fills row `y` from `x0` to `x1` (either order), cut to the image.
    pub fn hline_clip(&mut self, x0: i32, x1: i32, y: i32)
        requires
            old(self).wf(),
        ensures
            final(self).wf(),
            final(self).width == old(self).width,
            final(self).height == old(self).height,
            final(self).pen == old(self).pen,
            ({
                let lo = if x0 <= x1 { x0 as int } else { x1 as int };
                let hi = if x0 <= x1 { x1 as int } else { x0 as int };
                let clo = if lo < 0 { 0 } else { lo };
                let chi = if hi > old(self).width - 1 { old(self).width - 1 } else { hi };
                final(self).data@ == if 0 <= y < old(self).height && clo <= chi {
                    painted(
                        old(self).data@,
                        old(self).pen,
                        |q: int| y * old(self).width + clo <= q <= y * old(self).width + chi,
                    )
                } else {
                    old(self).data@
                }
            }),
    {
        if y < 0 || (y as u32) >= self.height {
            return;
        }
        let (lo, hi) = if x0 <= x1 { (x0, x1) } else { (x1, x0) };
        let lo = if lo < 0 { 0 } else { lo };
        let last = (self.width - 1) as i64;
        let hi = if (hi as i64) > last { last as i32 } else { hi };
        if lo <= hi {
            self.span(lo as u32, hi as u32, y as u32);
        }
    }

    /// Fills column `x` from `y0` to `y1` (either order), which must lie inside the image.
    pub fn vline(&mut self, y0: i32, y1: i32, x: i32)
        requires
            old(self).wf(),
            old(self).inside(x as int, y0 as int),
            old(self).inside(x as int, y1 as int),
        ensures
            final(self).wf(),
            final(self).width == old(self).width,
            final(self).height == old(self).height,
            final(self).pen == old(self).pen,
            final(self).data@ == painted(
                old(self).data@,
                old(self).pen,
                |q: int|
                    column(q, old(self).width as int) == x && (if y0 <= y1 { y0 } else { y1 }) <= row_of(q, old(self).width as int) <= (if y0 <= y1 { y1 } else { y0 }) && 0 <= q,
            ),
    {
        let (lo, hi) = if y0 <= y1 { (y0, y1) } else { (y1, y0) };
        let w = self.width;
        let ghost before = self.data@;
        let ghost shape = |q: int| column(q, w as int) == x && lo <= row_of(q, w as int) <= hi && 0 <= q;
        let mut yy = lo as u32;
        while yy <= hi as u32
            invariant
                self.wf(),
                0 <= lo <= hi < self.height,
                0 <= x < w,
                w == self.width,
                lo <= yy <= hi + 1,
                self.width == old(self).width,
                self.height == old(self).height,
                self.pen == old(self).pen,
                before == old(self).data@,
                self.data@ == painted(
                    before,
                    self.pen,
                    |q: int| column(q, w as int) == x && lo <= row_of(q, w as int) < yy && 0 <= q,
                ),
            decreases hi + 1 - yy,
        {
            proof {
                assert(yy * w + x < w * self.height) by (nonlinear_arith)
                    requires x < w, yy < self.height;
                assert(0 <= yy * w) by (nonlinear_arith) requires w >= 1;
            }
            let p = yy * w + (x as u32);
            let ghost mid = self.data@;
            self.paint(p);
            proof {
                assert forall|k: int| 0 <= k < before.len() implies #[trigger] self.data@[k] == painted(
                    before,
                    self.pen,
                    |q: int| column(q, w as int) == x && lo <= row_of(q, w as int) < yy + 1 && 0 <= q,
                )[k] by {
                    let q = k / 4;
                    lemma_cell(q, w as int, x as int, yy as int);
                }
                assert forall|q: int| 0 <= q implies ((column(q, w as int) == x && lo <= #[trigger] row_of(q, w as int) < yy + 1)
                    <==> ((column(q, w as int) == x && lo <= row_of(q, w as int) < yy) || q == p)) by {
                    lemma_cell(q, w as int, x as int, yy as int);
                }
                assert(self.data@ =~= painted(
                    before,
                    self.pen,
                    |q: int| column(q, w as int) == x && lo <= row_of(q, w as int) < yy + 1 && 0 <= q,
                ));
            }
            yy = yy + 1;
        }
        assert(self.data@ =~= painted(before, self.pen, shape));
    }

    /// Plots the given points (of a line, a circle...), which must lie inside the image.
    pub fn plot_points(&mut self, points: &[(i32, i32)])
        requires
            old(self).wf(),
            forall|i: int| 0 <= i < points@.len() ==> old(self).inside(#[trigger] points@[i].0 as int, points@[i].1 as int),
        ensures
            final(self).wf(),
            final(self).width == old(self).width,
            final(self).height == old(self).height,
            final(self).pen == old(self).pen,
            final(self).data@ == painted(
                old(self).data@,
                old(self).pen,
                |q: int| plotted_by(points@, points@.len() as int, old(self).width as int, q),
            ),
    {
        let ghost before = self.data@;
        let mut i: usize = 0;
        while i < points.len()
            invariant
                self.wf(),
                i <= points@.len(),
                self.width == old(self).width,
                self.height == old(self).height,
                self.pen == old(self).pen,
                before == old(self).data@,
                forall|j: int| 0 <= j < points@.len() ==> old(self).inside(#[trigger] points@[j].0 as int, points@[j].1 as int),
                self.data@ == painted(
                    before,
                    self.pen,
                    |q: int| plotted_by(points@, i as int, self.width as int, q),
                ),
            decreases points@.len() - i,
        {
            let (x, y) = points[i];
            self.plot(x, y);
            proof {
                let w = self.width as int;
                assert forall|q: int| #[trigger] plotted_by(points@, i + 1, w, q)
                    <==> (plotted_by(points@, i as int, w, q) || q == y * w + x) by {
                    if plotted_by(points@, i + 1, w, q) {
                        let j = choose|j: int| 0 <= j < i + 1 && q == #[trigger] point_index(points@[j], w);
                        if j < i {
                            assert(plotted_by(points@, i as int, w, q));
                        }
                    }
                    if plotted_by(points@, i as int, w, q) {
                        let j = choose|j: int| 0 <= j < i && q == #[trigger] point_index(points@[j], w);
                        assert(0 <= j < i + 1 && q == point_index(points@[j], w));
                    }
                    if q == y * w + x {
                        assert(q == point_index(points@[i as int], w));
                    }
                }
                assert(self.data@ =~= painted(
                    before,
                    self.pen,
                    |q: int| plotted_by(points@, i + 1, w, q),
                ));
            }
            i = i + 1;
        }
    }

    /// Fills the given row spans `(x0, x1, y)` (of a filled circle...), which
    /// must lie inside the image.
    pub fn fill_spans(&mut self, spans: &[(i32, i32, i32)])
        requires
            old(self).wf(),
            forall|i: int| 0 <= i < spans@.len() ==> old(self).inside(#[trigger] spans@[i].0 as int, spans@[i].2 as int)
                && old(self).inside(spans@[i].1 as int, spans@[i].2 as int),
        ensures
            final(self).wf(),
            final(self).width == old(self).width,
            final(self).height == old(self).height,
            final(self).pen == old(self).pen,
            final(self).data@ == painted(
                old(self).data@,
                old(self).pen,
                |q: int| spanned_by(spans@, spans@.len() as int, old(self).width as int, q),
            ),
    {
        let ghost before = self.data@;
        let mut i: usize = 0;
        while i < spans.len()
            invariant
                self.wf(),
                i <= spans@.len(),
                self.width == old(self).width,
                self.height == old(self).height,
                self.pen == old(self).pen,
                before == old(self).data@,
                forall|j: int| 0 <= j < spans@.len() ==> old(self).inside(#[trigger] spans@[j].0 as int, spans@[j].2 as int)
                    && old(self).inside(spans@[j].1 as int, spans@[j].2 as int),
                self.data@ == painted(
                    before,
                    self.pen,
                    |q: int| spanned_by(spans@, i as int, self.width as int, q),
                ),
            decreases spans@.len() - i,
        {
            let (x0, x1, y) = spans[i];
            self.hline(x0, x1, y);
            proof {
                let w = self.width as int;
                assert forall|q: int| #[trigger] spanned_by(spans@, i + 1, w, q)
                    <==> (spanned_by(spans@, i as int, w, q) || span_holds(spans@[i as int], w, q)) by {
                    if spanned_by(spans@, i + 1, w, q) {
                        let j = choose|j: int| 0 <= j < i + 1 && span_holds(#[trigger] spans@[j], w, q);
                        if j < i {
                            assert(spanned_by(spans@, i as int, w, q));
                        }
                    }
                    if spanned_by(spans@, i as int, w, q) {
                        let j = choose|j: int| 0 <= j < i && span_holds(#[trigger] spans@[j], w, q);
                        assert(0 <= j < i + 1 && span_holds(spans@[j], w, q));
                    }
                    if span_holds(spans@[i as int], w, q) {
                        assert(0 <= i < i + 1 && span_holds(spans@[i as int], w, q));
                    }
                }
                assert(self.data@ =~= painted(
                    before,
                    self.pen,
                    |q: int| spanned_by(spans@, i + 1, w, q),
                ));
            }
            i = i + 1;
        }
    }
}

/// The pixel index of point `pt` in an image `w` wide.
pub open spec fn point_index(pt: (i32, i32), w: int) -> int {
    pt.1 * w + pt.0
}

/// Pixel index `q` is one of the first `n` points.
pub open spec fn plotted_by(points: Seq<(i32, i32)>, n: int, w: int, q: int) -> bool {
    exists|j: int| 0 <= j < n && q == #[trigger] point_index(points[j], w)
}

/// Pixel index `q` lies on one of the first `n` spans.
pub open spec fn spanned_by(spans: Seq<(i32, i32, i32)>, n: int, w: int, q: int) -> bool {
    exists|j: int| 0 <= j < n && span_holds(#[trigger] spans[j], w, q)
}

/// Pixel index `q` lies on the row span `(x0, x1, y)` (either order) of an image `w` wide.
pub open spec fn span_holds(span: (i32, i32, i32), w: int, q: int) -> bool {
    let (x0, x1, y) = span;
    y * w + (if x0 <= x1 { x0 as int } else { x1 as int }) <= q <= y * w + (if x0 <= x1 { x1 as int } else { x0 as int })
}

/// The column of pixel index `q` in an image `w` wide.
pub open spec fn column(q: int, w: int) -> int {
    q % w
}

/// The row of pixel index `q` in an image `w` wide.
pub open spec fn row_of(q: int, w: int) -> int {
    q / w
}

proof fn lemma_cell(q: int, w: int, x: int, y: int)
    requires
        0 <= q,
        0 <= x < w,
        0 <= y,
    ensures
        (q % w == x && q / w == y) <==> q == y * w + x,
{
    if q == y * w + x {
        vstd::arithmetic::div_mod::lemma_fundamental_div_mod_converse(q, w, y, x);
    }
    if q % w == x && q / w == y {
        vstd::arithmetic::div_mod::lemma_fundamental_div_mod(q, w);
        vstd::arithmetic::mul::lemma_mul_is_commutative(w, y);
    }
}

/// After a plot, the pixel holds the pen colour.
pub proof fn lemma_plotted_pixel(old: Seq<u8>, pen: [u8; 4], width: int, x: int, y: int)
    requires
        0 <= x < width,
        0 <= y,
        (y * width + x) * 4 + 4 <= old.len(),
    ensures
        pixel_at(painted(old, pen, |q: int| q == y * width + x), width, x, y) == seq![pen[0], pen[1], pen[2], pen[3]],
{
    let p = y * width + x;
    let s = painted(old, pen, |q: int| q == y * width + x);
    vstd::arithmetic::div_mod::lemma_fundamental_div_mod_converse(p * 4, 4, p, 0);
    vstd::arithmetic::div_mod::lemma_fundamental_div_mod_converse(p * 4 + 1, 4, p, 1);
    vstd::arithmetic::div_mod::lemma_fundamental_div_mod_converse(p * 4 + 2, 4, p, 2);
    vstd::arithmetic::div_mod::lemma_fundamental_div_mod_converse(p * 4 + 3, 4, p, 3);
    assert(pixel_at(s, width, x, y) =~= seq![pen[0], pen[1], pen[2], pen[3]]);
}

} // verus!
