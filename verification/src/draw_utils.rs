//! Drawing primitives shared by all physical objects.
//!
//! Each primitive appends its commands to a list of [`Shape`]s.
use vstd::prelude::*;
use vstd::arithmetic::div_mod::lemma_fundamental_div_mod_converse;
use vstd::arithmetic::mul::lemma_mul_is_distributive_sub;
use crate::shape::{Shape, fits, abs, pixel_at, line_between, cleared_all, lemma_cleared_concat};

verus! {

/// Appends a line from `(x0, y0)` to `(x1, y1)`.
pub fn segment(out: &mut Vec<Shape>, x0: i32, y0: i32, x1: i32, y1: i32, on: bool)
    ensures
        final(out)@ == old(out)@.push(Shape::Line { x0, y0, x1, y1, on }),
{
    out.push(Shape::Line { x0, y0, x1, y1, on });
}

/// Appends a filled disk (joint, mass, hub).
pub fn filled_disk(out: &mut Vec<Shape>, cx: i32, cy: i32, r: i32, on: bool)
    ensures
        final(out)@ == old(out)@.push(Shape::Disk { cx, cy, r, on }),
{
    out.push(Shape::Disk { cx, cy, r, on });
}

/// Appends a circle outline (dial, rim).
pub fn ring(out: &mut Vec<Shape>, cx: i32, cy: i32, r: i32, on: bool)
    ensures
        final(out)@ == old(out)@.push(Shape::Circle { cx, cy, r, on }),
{
    out.push(Shape::Circle { cx, cy, r, on });
}

/// The pixels `(x + dx, y)` for `dx` in `0..w`, left to right.
pub open spec fn rect_row(x: int, y: int, w: int, on: bool) -> Seq<Shape> {
    Seq::new(if w > 0 { w as nat } else { 0 }, |dx: int| pixel_at(x + dx, y, on))
}

/// The pixels of the `w × h` rectangle whose top-left corner is `(x, y)`,
/// row by row from the top, each row from left to right.
pub open spec fn rect_pixels(x: int, y: int, w: int, h: int, on: bool) -> Seq<Shape>
    decreases h,
{
    if h <= 0 || w <= 0 {
        seq![]
    } else {
        rect_pixels(x, y, w, h - 1, on) + rect_row(x, y + h - 1, w, on)
    }
}

/// The coordinates of every pixel of the rectangle fit in an `i32`.
pub open spec fn rect_fits(x: int, y: int, w: int, h: int) -> bool {
    w <= 0 || h <= 0 || (fits(x + w - 1) && fits(y + h - 1))
}

/// Appends a filled `w × h` rectangle with top-left corner `(x, y)`, pixel by pixel.
pub fn filled_rect(out: &mut Vec<Shape>, x: i32, y: i32, w: i32, h: i32, on: bool)
    requires
        rect_fits(x as int, y as int, w as int, h as int),
    ensures
        final(out)@ == old(out)@ + rect_pixels(x as int, y as int, w as int, h as int, on),
{
    let ghost start = out@;
    let mut dy: i32 = 0;
    while dy < h
        invariant
            0 <= dy,
            dy <= h || dy == 0,
            rect_fits(x as int, y as int, w as int, h as int),
            out@ == start + rect_pixels(x as int, y as int, w as int, dy as int, on),
        decreases h - dy,
    {
        let ghost before_row = out@;
        let mut dx: i32 = 0;
        while dx < w
            invariant
                0 <= dx,
                dx <= w || dx == 0,
                0 <= dy < h,
                rect_fits(x as int, y as int, w as int, h as int),
                out@ == before_row + rect_row(x as int, y + dy, w as int, on).take(dx as int),
            decreases w - dx,
        {
            out.push(Shape::Pixel { x: x + dx, y: y + dy, on });
            dx += 1;
            assert(rect_row(x as int, y + dy, w as int, on).take(dx as int) =~= rect_row(
                x as int,
                y + dy,
                w as int,
                on,
            ).take(dx - 1).push(pixel_at(x + dx - 1, y + dy, on)));
        }
        assert(rect_row(x as int, y + dy, w as int, on).take(dx as int) =~= rect_row(
            x as int,
            y + dy,
            w as int,
            on,
        ));
        dy += 1;
        assert(out@ =~= start + rect_pixels(x as int, y as int, w as int, dy as int, on));
    }
}

/// The hatch marks of diagonal `d` of a `w × h` block at `(x, y)`, for columns `0..n`:
/// the pixels `(x + dx, y + d - dx)` that fall inside the block, cleared.
pub open spec fn hatch_diagonal(x: int, y: int, w: int, h: int, d: int, n: int) -> Seq<Shape>
    decreases n,
{
    if n <= 0 {
        seq![]
    } else {
        let prev = hatch_diagonal(x, y, w, h, d, n - 1);
        let dx = n - 1;
        let dy = d - dx;
        if 0 <= dy < h {
            prev.push(hatch_mark_at(x + dx, y + dy))
        } else {
            prev
        }
    }
}

/// The hatch marks of the first `k` diagonals `0, 4, 8, …, 4(k-1)`.
pub open spec fn hatch_diagonals(x: int, y: int, w: int, h: int, k: nat) -> Seq<
    Shape,
>
    decreases k,
{
    if k == 0 {
        seq![]
    } else {
        hatch_diagonals(x, y, w, h, (k - 1) as nat) + hatch_diagonal(x, y, w, h, 4 * (k - 1), w)
    }
}

/// How many diagonals the texture walks: those `d = 0, 4, 8, …` below `w + h`.
pub open spec fn hatch_count(w: int, h: int) -> nat {
    if w + h <= 0 {
        0
    } else {
        ((w + h + 3) / 4) as nat
    }
}

/// The diagonal hatch texture of a `w × h` block at `(x, y)`: one diagonal every
/// 4 pixels, cleared.
pub open spec fn hatch_marks(x: int, y: int, w: int, h: int) -> Seq<Shape> {
    hatch_diagonals(x, y, w, h, hatch_count(w, h))
}

/// The texture's arithmetic stays within `i32`.
pub open spec fn hatch_fits(x: int, y: int, w: int, h: int) -> bool {
    &&& fits(w + h)
    &&& w + h <= i32::MAX - 3
    &&& rect_fits(x, y, w, h)
}

/// Appends the diagonal hatch texture of a `w × h` block at `(x, y)`
/// (the "concrete" or "metal" look of walls and bases): the pixels on every
/// fourth diagonal `dx + dy = 0, 4, 8, …` are cleared.  Over a lit block this
/// draws the texture; over a cleared block it leaves the block cleared.
pub fn hatch(out: &mut Vec<Shape>, x: i32, y: i32, w: i32, h: i32)
    requires
        hatch_fits(x as int, y as int, w as int, h as int),
    ensures
        final(out)@ == old(out)@ + hatch_marks(x as int, y as int, w as int, h as int),
{
    let ghost start = out@;
    let ghost mut k: nat = 0;
    let mut d: i32 = 0;
    while d < w + h
        invariant
            hatch_fits(x as int, y as int, w as int, h as int),
            0 <= d,
            d == 4 * k,
            k > 0 ==> 4 * (k - 1) < w + h,
            out@ == start + hatch_diagonals(x as int, y as int, w as int, h as int, k),
        decreases i32::MAX - d,
    {
        let ghost before = out@;
        let mut dx: i32 = 0;
        while dx < w
            invariant
                hatch_fits(x as int, y as int, w as int, h as int),
                0 <= d < w + h,
                0 <= dx,
                dx <= w || dx == 0,
                out@ == before + hatch_diagonal(x as int, y as int, w as int, h as int, d as int, dx as int),
            decreases w - dx,
        {
            let dy = d - dx;
            if dy >= 0 && dy < h {
                out.push(Shape::Pixel { x: x + dx, y: y + dy, on: false });
            }
            dx += 1;
        }
        assert(dx <= 0 ==> hatch_diagonal(x as int, y as int, w as int, h as int, d as int, dx as int) == hatch_diagonal(x as int, y as int, w as int, h as int, d as int, w as int));
        d += 4;
        proof {
            k = k + 1;
        }
        assert(out@ =~= start + hatch_diagonals(x as int, y as int, w as int, h as int, k));
    }
    assert(k == hatch_count(w as int, h as int));
}

/// The line that thickens a segment: shifted one pixel down when the segment is
/// rather horizontal (`|dx| >= |dy|`), one pixel right otherwise.
pub open spec fn thickening(x0: int, y0: int, x1: int, y1: int, on: bool) -> Shape {
    if abs(x1 - x0) >= abs(y1 - y0) {
        line_between(x0, y0 + 1, x1, y1 + 1, on)
    } else {
        line_between(x0 + 1, y0, x1 + 1, y1, on)
    }
}

/// The arithmetic of [`thick_segment`] stays within `i32`.
pub open spec fn thick_fits(x0: int, y0: int, x1: int, y1: int) -> bool {
    &&& i32::MIN < x1 - x0 <= i32::MAX
    &&& i32::MIN < y1 - y0 <= i32::MAX
    &&& if abs(x1 - x0) >= abs(y1 - y0) {
        fits(y0 + 1) && fits(y1 + 1)
    } else {
        fits(x0 + 1) && fits(x1 + 1)
    }
}

/// `|v|` for a value whose absolute value fits.
fn abs_i32(v: i32) -> (r: i32)
    requires
        v != i32::MIN,
    ensures
        r == abs(v as int),
{
    if v < 0 {
        -v
    } else {
        v
    }
}

/// Appends a thickened segment: the line itself plus a copy offset by one pixel,
/// perpendicular to its dominant direction.
pub fn thick_segment(out: &mut Vec<Shape>, x0: i32, y0: i32, x1: i32, y1: i32, on: bool)
    requires
        thick_fits(x0 as int, y0 as int, x1 as int, y1 as int),
    ensures
        final(out)@ == old(out)@ + seq![
            line_between(x0 as int, y0 as int, x1 as int, y1 as int, on),
            thickening(x0 as int, y0 as int, x1 as int, y1 as int, on),
        ],
{
    segment(out, x0, y0, x1, y1, on);
    let dx = abs_i32(x1 - x0);
    let dy = abs_i32(y1 - y0);
    if dx >= dy {
        segment(out, x0, y0 + 1, x1, y1 + 1, on);
    } else {
        segment(out, x0 + 1, y0, x1 + 1, y1, on);
    }
}

/// Pixels at `(cx + dx, cy + dy)` for each offset `(dx, dy)` of `offsets`, in order.
pub open spec fn offset_pixels(cx: int, cy: int, offsets: Seq<(i32, i32)>, on: bool) -> Seq<
    Shape,
> {
    offsets.map_values(|p: (i32, i32)| pixel_at(cx + p.0, cy + p.1, on))
}

/// The point `(cx + d.0, cy + d.1)` fits in `i32`.
pub open spec fn offset_fits(cx: int, cy: int, d: (i32, i32)) -> bool {
    fits(cx + d.0) && fits(cy + d.1)
}

/// Every point `(cx + dx, cy + dy)` fits in `i32`.
pub open spec fn offsets_fit(cx: int, cy: int, offsets: Seq<(i32, i32)>) -> bool {
    forall|i: int| 0 <= i < offsets.len() ==> offset_fits(cx, cy, #[trigger] offsets[i])
}

/// Appends one pixel per offset, placed relative to the centre `(cx, cy)`
/// (the discrete points of an arc).
pub fn plot_offsets(out: &mut Vec<Shape>, cx: i32, cy: i32, offsets: &Vec<(i32, i32)>, on: bool)
    requires
        offsets_fit(cx as int, cy as int, offsets@),
    ensures
        final(out)@ == old(out)@ + offset_pixels(cx as int, cy as int, offsets@, on),
{
    let ghost start = out@;
    let mut i: usize = 0;
    while i < offsets.len()
        invariant
            i <= offsets.len(),
            offsets_fit(cx as int, cy as int, offsets@),
            out@ == start + offset_pixels(cx as int, cy as int, offsets@.take(i as int), on),
        decreases offsets.len() - i,
    {
        let (dx, dy) = offsets[i];
        assert(offset_fits(cx as int, cy as int, offsets@[i as int]));
        out.push(Shape::Pixel { x: cx + dx, y: cy + dy, on });
        i += 1;
        assert(offsets@.take(i as int) =~= offsets@.take(i - 1).push(offsets@[i - 1]));
        assert(out@ =~= start + offset_pixels(cx as int, cy as int, offsets@.take(i as int), on));
    }
    assert(offsets@.take(i as int) =~= offsets@);
}

/// A filled rectangle, cleared, is the same rectangle painted off.
pub proof fn lemma_rect_pixels_cleared(x: int, y: int, w: int, h: int, on: bool)
    ensures
        cleared_all(rect_pixels(x, y, w, h, on)) == rect_pixels(x, y, w, h, false),
    decreases h,
{
    if h <= 0 || w <= 0 {
        assert(cleared_all(rect_pixels(x, y, w, h, on)) =~= rect_pixels(x, y, w, h, false));
    } else {
        lemma_rect_pixels_cleared(x, y, w, h - 1, on);
        lemma_cleared_concat(rect_pixels(x, y, w, h - 1, on), rect_row(x, y + h - 1, w, on));
        assert(cleared_all(rect_row(x, y + h - 1, w, on)) =~= rect_row(x, y + h - 1, w, false));
    }
}

/// One hatch diagonal is already cleared.
proof fn lemma_hatch_diagonal_cleared(x: int, y: int, w: int, h: int, d: int, n: int)
    ensures
        cleared_all(hatch_diagonal(x, y, w, h, d, n)) == hatch_diagonal(x, y, w, h, d, n),
    decreases n,
{
    if n <= 0 {
        assert(cleared_all(hatch_diagonal(x, y, w, h, d, n)) =~= hatch_diagonal(x, y, w, h, d, n));
    } else {
        lemma_hatch_diagonal_cleared(x, y, w, h, d, n - 1);
        let prev = hatch_diagonal(x, y, w, h, d, n - 1);
        let dy = d - (n - 1);
        if 0 <= dy < h {
            let m = hatch_mark_at(x + n - 1, y + dy);
            lemma_cleared_concat(prev, seq![m]);
            assert(prev.push(m) =~= prev + seq![m]);
            assert(cleared_all(seq![m]) =~= seq![m]);
        }
    }
}

/// The first `k` hatch diagonals are already cleared.
proof fn lemma_hatch_diagonals_cleared(x: int, y: int, w: int, h: int, k: nat)
    ensures
        cleared_all(hatch_diagonals(x, y, w, h, k)) == hatch_diagonals(x, y, w, h, k),
    decreases k,
{
    if k == 0 {
        assert(cleared_all(hatch_diagonals(x, y, w, h, k)) =~= hatch_diagonals(x, y, w, h, k));
    } else {
        lemma_hatch_diagonals_cleared(x, y, w, h, (k - 1) as nat);
        lemma_hatch_diagonal_cleared(x, y, w, h, 4 * (k - 1), w);
        lemma_cleared_concat(
            hatch_diagonals(x, y, w, h, (k - 1) as nat),
            hatch_diagonal(x, y, w, h, 4 * (k - 1), w),
        );
    }
}

/// The hatch texture only clears pixels: clearing it changes nothing.
pub proof fn lemma_hatch_marks_cleared(x: int, y: int, w: int, h: int)
    ensures
        cleared_all(hatch_marks(x, y, w, h)) == hatch_marks(x, y, w, h),
{
    lemma_hatch_diagonals_cleared(x, y, w, h, hatch_count(w, h));
}

/// Every pixel of a `w × h` rectangle is one of its commands.
pub proof fn lemma_rect_pixels_contains(x: int, y: int, w: int, h: int, on: bool, px: int, py: int)
    requires
        x <= px < x + w,
        y <= py < y + h,
    ensures
        rect_pixels(x, y, w, h, on).contains(pixel_at(px, py, on)),
{
    lemma_rect_pixels_cover(x, y, w, h, on);
    let i = (py - y) * w + (px - x);
    lemma_fundamental_div_mod_converse(i, w, py - y, px - x);
    assert(0 <= i < w * h) by (nonlinear_arith)
        requires
            i == (py - y) * w + (px - x),
            0 <= px - x < w,
            0 <= py - y < h,
    ;
    assert(rect_pixels(x, y, w, h, on)[i] == pixel_at(px, py, on));
}

/// A filled `w × h` rectangle is exactly its `w · h` pixels in reading order:
/// command `i` lights `(x + i % w, y + i / w)`.
pub proof fn lemma_rect_pixels_cover(x: int, y: int, w: int, h: int, on: bool)
    requires
        w > 0,
        h > 0,
    ensures
        rect_pixels(x, y, w, h, on).len() == w * h,
        forall|i: int|
            0 <= i < w * h ==> #[trigger] rect_pixels(x, y, w, h, on)[i] == pixel_at(
                x + i % w,
                y + i / w,
                on,
            ),
    decreases h,
{
    if h == 1 {
        assert(rect_pixels(x, y, w, 0, on) =~= seq![]);
        assert forall|i: int| 0 <= i < w * h implies #[trigger] rect_pixels(x, y, w, h, on)[i]
            == pixel_at(x + i % w, y + i / w, on) by {
            lemma_fundamental_div_mod_converse(i, w, 0, i);
        }
    } else {
        lemma_rect_pixels_cover(x, y, w, h - 1, on);
        assert(w * h == w * (h - 1) + w) by {
            lemma_mul_is_distributive_sub(w, h, 1);
        }
        assert forall|i: int| 0 <= i < w * h implies #[trigger] rect_pixels(x, y, w, h, on)[i]
            == pixel_at(x + i % w, y + i / w, on) by {
            if i >= w * (h - 1) {
                let dx = i - w * (h - 1);
                assert(i == (h - 1) * w + dx) by {
                    vstd::arithmetic::mul::lemma_mul_is_commutative(w, h - 1);
                }
                lemma_fundamental_div_mod_converse(i, w, h - 1, dx);
            }
        }
    }
}

/// `s` is one of the hatch marks of a `w × h` block at `(x, y)`: a cleared pixel
/// inside the block, on a diagonal `dx + dy` that is a multiple of 4.
pub open spec fn is_hatch_mark(x: int, y: int, w: int, h: int, s: Shape) -> bool {
    match s {
        Shape::Pixel { x: px, y: py, on: c } => {
            &&& !c
            &&& x <= px < x + w
            &&& y <= py < y + h
            &&& (px - x + py - y) % 4 == 0
        },
        _ => false,
    }
}

/// A hatch mark: the pixel `(px, py)`, cleared.
pub open spec fn hatch_mark_at(px: int, py: int) -> Shape {
    pixel_at(px, py, false)
}

proof fn lemma_hatch_diagonal_marks(x: int, y: int, w: int, h: int, d: int, n: int)
    requires
        rect_fits(x, y, w, h),
        fits(x),
        fits(y),
        0 <= d,
        d % 4 == 0,
        n <= w,
    ensures
        forall|k: int|
            0 <= k < hatch_diagonal(x, y, w, h, d, n).len() ==> is_hatch_mark(x, y, w, h, #[trigger] hatch_diagonal(x, y, w, h, d, n)[k]),
        forall|px: int, py: int|
            x <= px < x + n && y <= py < y + h && px - x + py - y == d ==> #[trigger] hatch_diagonal(x, y, w, h, d, n).contains(hatch_mark_at(px, py)),
    decreases n,
{
    if n > 0 {
        lemma_hatch_diagonal_marks(x, y, w, h, d, n - 1);
        let prev = hatch_diagonal(x, y, w, h, d, n - 1);
        let cur = hatch_diagonal(x, y, w, h, d, n);
        assert forall|k: int| 0 <= k < cur.len() implies is_hatch_mark(x, y, w, h, #[trigger] cur[k]) by {
            if k < prev.len() {
                assert(cur[k] == prev[k]);
            } else {
                let dx = n - 1;
                let dy = d - dx;
                assert(0 <= dy < h);
                assert(fits(x + dx) && fits(y + dy));
                assert(cur[k] == hatch_mark_at(x + dx, y + dy));
                assert((x + dx - x + y + dy - y) == d);
            }
        }
        assert forall|px: int, py: int|
            x <= px < x + n && y <= py < y + h && px - x + py - y == d implies #[trigger] cur.contains(
            hatch_mark_at(px, py),
        ) by {
            if px < x + n - 1 {
                assert(prev.contains(hatch_mark_at(px, py)));
                let j = choose|j: int| 0 <= j < prev.len() && prev[j] == hatch_mark_at(px, py);
                assert(cur[j] == prev[j]);
            } else {
                assert(cur[cur.len() - 1] == hatch_mark_at(px, py));
            }
        }
    }
}

proof fn lemma_hatch_diagonals_marks(x: int, y: int, w: int, h: int, k: nat)
    requires
        rect_fits(x, y, w, h),
        fits(x),
        fits(y),
    ensures
        forall|i: int|
            0 <= i < hatch_diagonals(x, y, w, h, k).len() ==> is_hatch_mark(x, y, w, h, #[trigger] hatch_diagonals(x, y, w, h, k)[i]),
        forall|px: int, py: int|
            x <= px < x + w && y <= py < y + h && (px - x + py - y) % 4 == 0 && px - x + py - y < 4
                * k ==> #[trigger] hatch_diagonals(x, y, w, h, k).contains(
                hatch_mark_at(px, py),
            ),
    decreases k,
{
    if k > 0 {
        lemma_hatch_diagonals_marks(x, y, w, h, (k - 1) as nat);
        lemma_hatch_diagonal_marks(x, y, w, h, 4 * (k - 1), w);
        let a = hatch_diagonals(x, y, w, h, (k - 1) as nat);
        let b = hatch_diagonal(x, y, w, h, 4 * (k - 1), w);
        let cur = hatch_diagonals(x, y, w, h, k);
        assert(cur == a + b);
        assert forall|i: int| 0 <= i < cur.len() implies is_hatch_mark(x, y, w, h, #[trigger] cur[i]) by {
            if i >= a.len() {
                assert(cur[i] == b[i - a.len()]);
            } else {
                assert(cur[i] == a[i]);
            }
        }
        assert forall|px: int, py: int|
            x <= px < x + w && y <= py < y + h && (px - x + py - y) % 4 == 0 && px - x + py - y < 4
                * k implies #[trigger] cur.contains(hatch_mark_at(px, py)) by {
            let m = hatch_mark_at(px, py);
            if px - x + py - y < 4 * (k - 1) {
                assert(a.contains(m));
                let t = choose|t: int| 0 <= t < a.len() && a[t] == m;
                assert(cur[t] == a[t]);
            } else {
                assert(px - x + py - y == 4 * (k - 1));
                assert(b.contains(m));
                let t = choose|t: int| 0 <= t < b.len() && b[t] == m;
                assert(cur[a.len() + t] == b[t]);
            }
        }
    }
}

/// The hatch texture of a `w × h` block at `(x, y)` consists exactly of the pixels
/// of the block whose diagonal index `dx + dy` is a multiple of 4, cleared: every
/// command is such a pixel, and every such pixel is cleared.
pub proof fn lemma_hatch_marks_cover(x: int, y: int, w: int, h: int)
    requires
        hatch_fits(x, y, w, h),
        fits(x),
        fits(y),
    ensures
        forall|k: int|
            0 <= k < hatch_marks(x, y, w, h).len() ==> is_hatch_mark(x, y, w, h, #[trigger] hatch_marks(x, y, w, h)[k]),
        forall|px: int, py: int|
            x <= px < x + w && y <= py < y + h && (px - x + py - y) % 4 == 0 ==> #[trigger] hatch_marks(x, y, w, h).contains(hatch_mark_at(px, py)),
{
    let k = hatch_count(w, h);
    lemma_hatch_diagonals_marks(x, y, w, h, k);
}

} // verus!
