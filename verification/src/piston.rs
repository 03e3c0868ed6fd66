//! 2D mechanical piston (no gas): a closed cylinder, a piston constrained inside
//! it and a guided rod.
//!
//! The piston moves vertically; its position `pos` is kept in `[0, h − piston_h]`
//! (0 = top of the chamber, `h − piston_h` = fully down).
use vstd::prelude::*;
use crate::shape::{Shape, fits, half, line_between, cleared_all, lemma_cleared_concat, lemma_cleared_all_off};
use crate::draw_utils::{
    filled_rect, segment, rect_pixels, rect_fits, lemma_rect_pixels_cleared, lemma_rect_pixels_cover,
};

verus! {

/// Vertical 2D piston constrained in a chamber.
#[derive(Clone, Copy, Debug)]
pub struct Piston {
    /// X of the cylinder's centre.
    pub cx: i32,
    /// Y of the top of the cylinder.
    pub cy: i32,
    /// Width of the cylinder.
    pub w: i32,
    /// Total height of the cylinder.
    pub h: i32,
    /// Thickness of the piston.
    pub piston_h: i32,
    /// Position of the piston in `[0, h - piston_h]`.
    pub pos: i32,
}

/// `v` restricted to `[lo, hi]`.
pub open spec fn clamped(v: int, lo: int, hi: int) -> int {
    if v < lo {
        lo
    } else if v > hi {
        hi
    } else {
        v
    }
}

/// `v` restricted to `[lo, hi]` (`lo <= hi`).
fn clamp_i32(v: i32, lo: i32, hi: i32) -> (r: i32)
    requires
        lo <= hi,
    ensures
        r == clamped(v as int, lo as int, hi as int),
{
    if v < lo {
        lo
    } else if v > hi {
        hi
    } else {
        v
    }
}

impl Piston {
    /// Creates a piston with the top centre of its chamber at `(cx, cy)`, a
    /// cylinder `w` wide and `h` high, a 6-pixel piston, at the top.
    pub fn new(cx: i32, cy: i32, w: i32, h: i32) -> (p: Self)
        ensures
            p == (Piston { cx, cy, w, h, piston_h: 6, pos: 0 }),
    {
        Piston { cx, cy, w, h, piston_h: 6, pos: 0 }
    }

    /// The lowest position of the piston: `h - piston_h`.
    pub open spec fn max_pos(self) -> int {
        self.h - self.piston_h
    }

    /// The piston's travel is a valid interval: `h - piston_h` fits and is not negative.
    pub open spec fn travel_ok(self) -> bool {
        fits(self.max_pos()) && self.max_pos() >= 0
    }

    /// Moves the piston to `pos`, forced into `[0, h - piston_h]`.
    pub fn set_pos(&mut self, pos: i32)
        requires
            old(self).travel_ok(),
        ensures
            *final(self) == (Piston { pos: clamped(pos as int, 0, old(self).max_pos()) as i32, ..*old(self) }),
    {
        let max = self.h - self.piston_h;
        self.pos = clamp_i32(pos, 0, max);
    }

    /// Left wall of the chamber.
    pub open spec fn left(self) -> int {
        self.cx - half(self.w as int)
    }

    /// Right wall of the chamber.
    pub open spec fn right(self) -> int {
        self.cx + half(self.w as int)
    }

    /// Bottom of the chamber.
    pub open spec fn bottom(self) -> int {
        self.cy + self.h
    }

    /// Top of the piston: the chamber's top plus the position forced into the travel.
    pub open spec fn piston_y(self) -> int {
        self.cy + clamped(self.pos as int, 0, self.max_pos())
    }

    /// What [`Piston::draw`] paints, in order: the chamber (top, bottom, left and right
    /// walls), the piston (a filled rectangle two pixels inside the walls), the rod from
    /// the middle of the piston down to the bottom, and the bottom cap again.
    pub open spec fn shapes(self, on: bool) -> Seq<Shape> {
        let (l, r, t, b) = (self.left(), self.right(), self.cy as int, self.bottom());
        let y = self.piston_y();
        seq![
            line_between(l, t, r, t, on),
            line_between(l, b, r, b, on),
            line_between(l, t, l, b, on),
            line_between(r, t, r, b, on),
        ] + rect_pixels(l + 2, y, self.w - 4, self.piston_h as int, on) + seq![
            line_between(self.cx as int, y + half(self.piston_h as int), self.cx as int, b, on),
            line_between(l, b, r, b, on),
        ]
    }

    /// Every value [`Piston::draw`] computes fits in an `i32`, and the travel is valid.
    pub open spec fn drawable(self) -> bool {
        &&& self.travel_ok()
        &&& fits(self.left())
        &&& fits(self.right())
        &&& fits(self.bottom())
        &&& fits(self.piston_y())
        &&& fits(self.left() + 2)
        &&& fits(self.w - 4)
        &&& rect_fits(self.left() + 2, self.piston_y(), self.w - 4, self.piston_h as int)
        &&& fits(self.piston_y() + half(self.piston_h as int))
    }

    /// Whether [`Piston::draw`] can run without overflowing or an empty travel.
    pub fn can_draw(&self) -> (r: bool)
        ensures
            r == self.drawable(),
    {
        let lo = i32::MIN as i64;
        let hi = i32::MAX as i64;
        let max = self.h as i64 - self.piston_h as i64;
        if !(lo <= max && max <= hi && max >= 0) {
            return false;
        }
        let hw = self.w as i64 / 2;
        assert(hw == half(self.w as int));
        let left = self.cx as i64 - hw;
        let right = self.cx as i64 + hw;
        let bottom = self.cy as i64 + self.h as i64;
        let p = self.pos as i64;
        let c = if p < 0 {
            0
        } else if p > max {
            max
        } else {
            p
        };
        let y = self.cy as i64 + c;
        let ph = self.piston_h as i64;
        let rw = self.w as i64 - 4;
        let rect_ok = rw <= 0 || ph <= 0 || (left + 2 + rw - 1 <= hi && y + ph - 1 <= hi);
        let ph2 = ph / 2;
        assert(ph2 == half(ph as int));
        lo <= left && left <= hi && lo <= right && right <= hi && lo <= bottom && bottom <= hi
            && lo <= y && y <= hi && left + 2 <= hi && lo <= rw && rect_ok && lo <= y + ph2 && y
            + ph2 <= hi
    }

    /// Draws the chamber, the piston and its rod.
    pub fn draw(&self, out: &mut Vec<Shape>, on: bool)
        requires
            self.drawable(),
        ensures
            final(out)@ == old(out)@ + self.shapes(on),
    {
        let ghost start = out@;
        let left = self.cx - self.w / 2;
        let right = self.cx + self.w / 2;

        let top = self.cy;
        let bottom = self.cy + self.h;

        // chamber
        segment(out, left, top, right, top, on);
        segment(out, left, bottom, right, bottom, on);
        segment(out, left, top, left, bottom, on);
        segment(out, right, top, right, bottom, on);

        // piston, constrained to its travel
        let max = self.h - self.piston_h;
        let y = self.cy + clamp_i32(self.pos, 0, max);
        filled_rect(out, left + 2, y, self.w - 4, self.piston_h, on);

        // guided rod
        let rod_x = self.cx;
        let rod_top = y + self.piston_h / 2;
        let rod_bottom = bottom;
        segment(out, rod_x, rod_top, rod_x, rod_bottom, on);

        // bottom cap
        segment(out, left, bottom, right, bottom, on);
        assert(out@ =~= start + self.shapes(on));
    }

    /// Erases the piston: the same drawing with `on == false`.
    pub fn erase(&self, out: &mut Vec<Shape>)
        requires
            self.drawable(),
        ensures
            final(out)@ == old(out)@ + self.shapes(false),
    {
        self.draw(out, false);
    }
}

/// After `set_pos`, the piston lies within its travel `[0, h - piston_h]`.
pub proof fn lemma_set_pos_within_travel(p: Piston, pos: i32)
    requires
        p.travel_ok(),
    ensures
        0 <= clamped(pos as int, 0, p.max_pos()) <= p.max_pos(),
        0 <= pos <= p.max_pos() ==> clamped(pos as int, 0, p.max_pos()) == pos,
{
}

/// Setting a position twice is the same as setting it once.
pub proof fn lemma_set_pos_idempotent(p: Piston, pos: i32)
    requires
        p.travel_ok(),
    ensures
        ({
            let q = Piston { pos: clamped(pos as int, 0, p.max_pos()) as i32, ..p };
            q.travel_ok() && (Piston { pos: clamped(pos as int, 0, q.max_pos()) as i32, ..q }) == q
        }),
{
}

/// The drawn piston never leaves the chamber: vertically it starts at or below the
/// top and ends at or above the bottom; horizontally its block (two pixels inside
/// the left wall, `w - 4` wide) stays strictly between the two walls.
pub proof fn lemma_piston_inside_chamber(p: Piston)
    requires
        p.travel_ok(),
        p.piston_h >= 0,
    ensures
        p.cy <= p.piston_y(),
        p.piston_y() + p.piston_h <= p.bottom(),
        p.w > 4 ==> p.left() < p.left() + 2 && p.left() + 2 + (p.w - 4) - 1 < p.right(),
{
}

/// Erasing paints exactly the drawing's commands, each cleared, so every command
/// of the erase is painted off.
pub proof fn lemma_piston_erase_clears(p: Piston)
    ensures
        p.shapes(false) == cleared_all(p.shapes(true)),
        forall|k: int| 0 <= k < p.shapes(false).len() ==> !(#[trigger] p.shapes(false)[k]).colour(),
{
    let (l, r, t, b) = (p.left(), p.right(), p.cy as int, p.bottom());
    let y = p.piston_y();
    let a = seq![
        line_between(l, t, r, t, true),
        line_between(l, b, r, b, true),
        line_between(l, t, l, b, true),
        line_between(r, t, r, b, true),
    ];
    let m = rect_pixels(l + 2, y, p.w - 4, p.piston_h as int, true);
    let c = seq![
        line_between(p.cx as int, y + half(p.piston_h as int), p.cx as int, b, true),
        line_between(l, b, r, b, true),
    ];
    lemma_cleared_concat(a + m, c);
    lemma_cleared_concat(a, m);
    lemma_rect_pixels_cleared(l + 2, y, p.w - 4, p.piston_h as int, true);
    assert(cleared_all(a) =~= seq![
        line_between(l, t, r, t, false),
        line_between(l, b, r, b, false),
        line_between(l, t, l, b, false),
        line_between(r, t, r, b, false),
    ]);
    assert(cleared_all(c) =~= seq![
        line_between(p.cx as int, y + half(p.piston_h as int), p.cx as int, b, false),
        line_between(l, b, r, b, false),
    ]);
    lemma_cleared_all_off(p.shapes(true));
}

/// Where every part of the piston is drawn, in terms of the piston alone: with
/// `left = cx - w/2`, `right = cx + w/2`, `bottom = cy + h` and the piston's top
/// `y = cy + pos` forced into `[cy, cy + h - piston_h]`, the chamber is the top,
/// bottom, left and right walls in that order; then come the piston's pixels in
/// reading order, `w - 4` per row from `left + 2`, `piston_h` rows from `y`; then
/// the rod down the axis from `y + piston_h/2` to `bottom`, and the bottom cap.
pub proof fn lemma_piston_drawn_parts(p: Piston, on: bool)
    requires
        p.travel_ok(),
    ensures
        ({
            let s = p.shapes(on);
            let n = s.len() as int;
            let (l, r, t, b) = (p.cx - half(p.w as int), p.cx + half(p.w as int), p.cy as int, p.cy + p.h);
            let max = p.h - p.piston_h;
            let y = p.cy + (if p.pos < 0 { 0 } else if p.pos > max { max } else { p.pos as int });
            let (bw, bh) = (p.w - 4, p.piston_h as int);
            let block = if bw > 0 && bh > 0 { bw * bh } else { 0 };
            &&& n == 6 + block
            &&& s[0] == Shape::Line { x0: l as i32, y0: t as i32, x1: r as i32, y1: t as i32, on }
            &&& s[1] == Shape::Line { x0: l as i32, y0: b as i32, x1: r as i32, y1: b as i32, on }
            &&& s[2] == Shape::Line { x0: l as i32, y0: t as i32, x1: l as i32, y1: b as i32, on }
            &&& s[3] == Shape::Line { x0: r as i32, y0: t as i32, x1: r as i32, y1: b as i32, on }
            &&& forall|k: int|
                0 <= k < block ==> #[trigger] s[4 + k] == Shape::Pixel {
                    x: (l + 2 + k % bw) as i32,
                    y: (y + k / bw) as i32,
                    on,
                }
            &&& s[n - 2] == Shape::Line {
                x0: p.cx,
                y0: (y + half(p.piston_h as int)) as i32,
                x1: p.cx,
                y1: b as i32,
                on,
            }
            &&& s[n - 1] == Shape::Line { x0: l as i32, y0: b as i32, x1: r as i32, y1: b as i32, on }
        }),
{
    let (l, y) = (p.left(), p.piston_y());
    let (bw, bh) = (p.w - 4, p.piston_h as int);
    let m = rect_pixels(l + 2, y, bw, bh, on);
    if bw > 0 && bh > 0 {
        lemma_rect_pixels_cover(l + 2, y, bw, bh, on);
    } else {
        assert(m =~= seq![]);
    }
    let s = p.shapes(on);
    assert forall|k: int| 0 <= k < m.len() implies #[trigger] s[4 + k] == m[k] by {}
}
} // verus!
