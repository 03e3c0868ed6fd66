//! Simple pendulum: fixed wall mount + pivot + rod + round mass.
//!
//! The angle is measured from the downward vertical (0 = at rest, positive =
//! swings to the right).  The rod's end, `length` pixels from the pivot in the
//! direction of the angle, is handed in as an offset from the pivot, already
//! rounded to whole pixels.
//!
//! | Element      | Drawing                                        |
//! |--------------|------------------------------------------------|
//! | Wall mount   | filled `wall_w × wall_h` rectangle + hatching  |
//! | Base line    | horizontal line under the mount                |
//! | Rod          | line from the pivot to the mass                |
//! | Pivot        | small filled disk, r = 1                       |
//! | Mass         | filled disk, r = 3                             |
use vstd::prelude::*;
use crate::shape::{
    Shape, fits, half, line_between, pixel_at, disk_at, cleared_all, lemma_cleared_concat,
    lemma_cleared_all_off,
};
use crate::draw_utils::{
    filled_rect, hatch, segment, filled_disk, rect_pixels, hatch_marks, hatch_fits,
    lemma_rect_pixels_cleared, lemma_hatch_marks_cleared, lemma_rect_pixels_contains,
    lemma_rect_pixels_cover,
};

verus! {

/// Simple pendulum: wall mount + pivot + rod + mass.
#[derive(Clone, Copy, Debug)]
pub struct Pendulum {
    /// X of the pivot (centre of rotation, horizontal middle of the mount).
    pub pivot_x: i32,
    /// Y of the pivot (bottom edge of the mount, where the rod hangs).
    pub pivot_y: i32,
    /// Rod length in pixels.
    pub length: i32,
    /// Width of the wall mount in pixels (centred on `pivot_x`).
    pub wall_w: i32,
    /// Height of the wall mount in pixels.
    pub wall_h: i32,
}

impl Pendulum {
    /// Builds a pendulum with the default wall mount (16 × 5).
    pub fn new(pivot_x: i32, pivot_y: i32, length: i32) -> (p: Self)
        ensures
            p == (Pendulum { pivot_x, pivot_y, length, wall_w: 16, wall_h: 5 }),
    {
        Pendulum { pivot_x, pivot_y, length, wall_w: 16, wall_h: 5 }
    }

    /// Builds a pendulum with a custom wall mount.
    pub fn with_wall(pivot_x: i32, pivot_y: i32, length: i32, wall_w: i32, wall_h: i32) -> (p:
        Self)
        ensures
            p == (Pendulum { pivot_x, pivot_y, length, wall_w, wall_h }),
    {
        Pendulum { pivot_x, pivot_y, length, wall_w, wall_h }
    }

    /// Left edge of the wall mount.
    pub open spec fn wall_x(self) -> int {
        self.pivot_x - half(self.wall_w as int)
    }

    /// Top edge of the wall mount.
    pub open spec fn wall_y(self) -> int {
        self.pivot_y - self.wall_h
    }

    /// What [`Pendulum::draw`] paints, in order, for the rod offset `(rod_dx, rod_dy)`:
    /// the mount, its hatching, the base line (one pixel wider than the mount on each
    /// side), the rod, the pivot and the mass.
    pub open spec fn shapes(self, rod_dx: i32, rod_dy: i32, on: bool) -> Seq<Shape> {
        let hw = half(self.wall_w as int);
        let mx = self.pivot_x + rod_dx;
        let my = self.pivot_y + rod_dy;
        rect_pixels(self.wall_x(), self.wall_y(), self.wall_w as int, self.wall_h as int, on)
            + hatch_marks(self.wall_x(), self.wall_y(), self.wall_w as int, self.wall_h as int)
            + seq![
            line_between(self.pivot_x - hw - 1, self.pivot_y as int, self.pivot_x + hw + 1, self.pivot_y as int, on),
            line_between(self.pivot_x as int, self.pivot_y as int, mx, my, on),
            disk_at(self.pivot_x as int, self.pivot_y as int, 1, on),
            disk_at(mx, my, 3, on),
        ]
    }

    /// Every coordinate [`Pendulum::draw`] computes fits in an `i32`.
    pub open spec fn drawable(self, rod_dx: i32, rod_dy: i32) -> bool {
        let hw = half(self.wall_w as int);
        &&& fits(self.wall_x())
        &&& fits(self.wall_y())
        &&& hatch_fits(self.wall_x(), self.wall_y(), self.wall_w as int, self.wall_h as int)
        &&& fits(self.pivot_x - hw - 1)
        &&& fits(self.pivot_x + hw)
        &&& fits(self.pivot_x + hw + 1)
        &&& fits(self.pivot_x + rod_dx)
        &&& fits(self.pivot_y + rod_dy)
    }

    /// Whether [`Pendulum::draw`] can run for this rod offset without overflowing.
    pub fn can_draw(&self, rod_dx: i32, rod_dy: i32) -> (r: bool)
        ensures
            r == self.drawable(rod_dx, rod_dy),
    {
        let px = self.pivot_x as i64;
        let py = self.pivot_y as i64;
        let w = self.wall_w as i64;
        let h = self.wall_h as i64;
        let hw = w / 2;
        assert(hw == half(w as int));
        let wx = px - hw;
        let wy = py - h;
        let lo = i32::MIN as i64;
        let hi = i32::MAX as i64;
        let rect_ok = w <= 0 || h <= 0 || (wx + w - 1 <= hi && wy + h - 1 <= hi);
        lo <= wx && wx <= hi && lo <= wy && wy <= hi && lo <= w + h && w + h <= hi - 3 && rect_ok
            && lo <= px - hw - 1 && lo <= px + hw && px + hw + 1 <= hi && lo <= px + rod_dx as i64 && px
            + rod_dx as i64 <= hi && lo <= py + rod_dy as i64 && py + rod_dy as i64 <= hi
    }

    /// Draws the pendulum with its rod at offset `(rod_dx, rod_dy)` from the pivot
    /// (the rounded `length · (sin a, cos a)` for the angle `a`).
    pub fn draw(&self, out: &mut Vec<Shape>, rod_dx: i32, rod_dy: i32, on: bool)
        requires
            self.drawable(rod_dx, rod_dy),
        ensures
            final(out)@ == old(out)@ + self.shapes(rod_dx, rod_dy, on),
    {
        let ghost start = out@;
        let hw = self.wall_w / 2;
        let wall_x = self.pivot_x - hw;
        let wall_y = self.pivot_y - self.wall_h;

        filled_rect(out, wall_x, wall_y, self.wall_w, self.wall_h, on);
        hatch(out, wall_x, wall_y, self.wall_w, self.wall_h);

        segment(out, self.pivot_x - hw - 1, self.pivot_y, self.pivot_x + hw + 1, self.pivot_y, on);

        let mx = self.pivot_x + rod_dx;
        let my = self.pivot_y + rod_dy;
        segment(out, self.pivot_x, self.pivot_y, mx, my, on);

        filled_disk(out, self.pivot_x, self.pivot_y, 1, on);
        filled_disk(out, mx, my, 3, on);
        assert(out@ =~= start + self.shapes(rod_dx, rod_dy, on));
    }

    /// Erases the pendulum: the same drawing with `on == false`.
    pub fn erase(&self, out: &mut Vec<Shape>, rod_dx: i32, rod_dy: i32)
        requires
            self.drawable(rod_dx, rod_dy),
        ensures
            final(out)@ == old(out)@ + self.shapes(rod_dx, rod_dy, false),
    {
        self.draw(out, rod_dx, rod_dy, false);
    }
}

/// Erasing paints exactly the drawing's commands, each cleared: every command of
/// the erase is painted off, and every pixel of the wall mount is cleared.
pub proof fn lemma_pendulum_erase_clears(p: Pendulum, rod_dx: i32, rod_dy: i32)
    ensures
        p.shapes(rod_dx, rod_dy, false) == cleared_all(p.shapes(rod_dx, rod_dy, true)),
        forall|k: int|
            0 <= k < p.shapes(rod_dx, rod_dy, false).len() ==> !(#[trigger] p.shapes(
                rod_dx,
                rod_dy,
                false,
            )[k]).colour(),
        forall|px: int, py: int|
            p.wall_x() <= px < p.wall_x() + p.wall_w && p.wall_y() <= py < p.wall_y() + p.wall_h
                ==> #[trigger] p.shapes(rod_dx, rod_dy, false).contains(pixel_at(px, py, false)),
{
    let (x, y, w, h) = (p.wall_x(), p.wall_y(), p.wall_w as int, p.wall_h as int);
    let a = rect_pixels(x, y, w, h, true);
    let b = hatch_marks(x, y, w, h);
    let c = p.shapes(rod_dx, rod_dy, true).subrange((a.len() + b.len()) as int, (a.len() + b.len() + 4) as int);
    assert(p.shapes(rod_dx, rod_dy, true) =~= a + b + c);
    lemma_cleared_concat(a + b, c);
    lemma_cleared_concat(a, b);
    lemma_rect_pixels_cleared(x, y, w, h, true);
    lemma_hatch_marks_cleared(x, y, w, h);
    let e = p.shapes(rod_dx, rod_dy, false);
    assert(cleared_all(c) =~= e.subrange((a.len() + b.len()) as int, (a.len() + b.len() + 4) as int));
    assert(e =~= cleared_all(a) + cleared_all(b) + cleared_all(c));
    lemma_cleared_all_off(p.shapes(rod_dx, rod_dy, true));
    let r = rect_pixels(x, y, w, h, false);
    assert(e == r + (b + cleared_all(c)));
    assert forall|px: int, py: int|
        x <= px < x + w && y <= py < y + h implies #[trigger] e.contains(pixel_at(px, py, false)) by {
        lemma_rect_pixels_contains(x, y, w, h, false, px, py);
        let j = choose|j: int| 0 <= j < r.len() && r[j] == pixel_at(px, py, false);
        assert(e[j] == r[j]);
    }
}

/// Where the rod and the mass are drawn, in terms of the pendulum and the rod
/// offset alone, whatever their signs: the last four commands are the base line
/// one pixel wider than the mount on each side, the rod from the pivot to
/// `(pivot_x + rod_dx, pivot_y + rod_dy)`, the pivot disk and the mass disk
/// centred at the rod's end.  A negative `rod_dx` puts the mass left of the pivot.
pub proof fn lemma_pendulum_rod_and_mass(p: Pendulum, rod_dx: i32, rod_dy: i32, on: bool)
    requires
        p.drawable(rod_dx, rod_dy),
    ensures
        ({
            let s = p.shapes(rod_dx, rod_dy, on);
            let n = s.len() as int;
            let (mx, my) = (p.pivot_x + rod_dx, p.pivot_y + rod_dy);
            let hw = half(p.wall_w as int);
            &&& n >= 4
            &&& s[n - 4] == Shape::Line {
                x0: (p.pivot_x - hw - 1) as i32,
                y0: p.pivot_y,
                x1: (p.pivot_x + hw + 1) as i32,
                y1: p.pivot_y,
                on,
            }
            &&& s[n - 3] == Shape::Line { x0: p.pivot_x, y0: p.pivot_y, x1: mx as i32, y1: my as i32, on }
            &&& s[n - 2] == Shape::Disk { cx: p.pivot_x, cy: p.pivot_y, r: 1, on }
            &&& s[n - 1] == Shape::Disk { cx: mx as i32, cy: my as i32, r: 3, on }
            &&& (rod_dx < 0 <==> s[n - 1]->Disk_cx < p.pivot_x)
            &&& (rod_dy > 0 <==> s[n - 1]->Disk_cy > p.pivot_y)
        }),
{
    let (x, y, w, h) = (p.wall_x(), p.wall_y(), p.wall_w as int, p.wall_h as int);
    let a = rect_pixels(x, y, w, h, on) + hatch_marks(x, y, w, h);
    let s = p.shapes(rod_dx, rod_dy, on);
    assert(s.len() == a.len() + 4);
    assert(s[s.len() - 1] == disk_at(p.pivot_x + rod_dx, p.pivot_y + rod_dy, 3, on));
}

/// The wall mount comes first: `wall_w × wall_h` pixels in reading order from its
/// top-left corner `(pivot_x - wall_w/2, pivot_y - wall_h)`, so that the pivot sits
/// in the middle of its bottom edge.
pub proof fn lemma_pendulum_mount(p: Pendulum, rod_dx: i32, rod_dy: i32, on: bool)
    requires
        p.wall_w > 0,
        p.wall_h > 0,
    ensures
        forall|k: int|
            0 <= k < p.wall_w * p.wall_h ==> #[trigger] p.shapes(rod_dx, rod_dy, on)[k] == (Shape::Pixel {
                x: (p.pivot_x - half(p.wall_w as int) + k % (p.wall_w as int)) as i32,
                y: (p.pivot_y - p.wall_h + k / (p.wall_w as int)) as i32,
                on,
            }),
{
    let (x, y, w, h) = (p.wall_x(), p.wall_y(), p.wall_w as int, p.wall_h as int);
    lemma_rect_pixels_cover(x, y, w, h, on);
    let r = rect_pixels(x, y, w, h, on);
    let s = p.shapes(rod_dx, rod_dy, on);
    assert forall|k: int| 0 <= k < w * h implies #[trigger] s[k] == r[k] by {}
}
} // verus!
