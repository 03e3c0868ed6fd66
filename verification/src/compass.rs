//! Compass: dial, cardinal points and a two-tone needle.
//!
//! The heading is measured from North (top of the screen, decreasing Y) and
//! grows clockwise.  The needle's tip and the tail's end are handed in as
//! offsets already rounded to whole pixels: for a heading `a`,
//! `(round(needle · sin a), round(needle · cos a))` with
//! `needle = radius − 3`, and the same with `tail = radius / 2 − 1`.
//!
//! | Element         | Drawing                                        |
//! |-----------------|------------------------------------------------|
//! | Dial            | circle outline of radius `radius`              |
//! | Cardinal points | one pixel at `radius − 2` on each axis         |
//! | North needle    | thickened line to the tip                      |
//! | South tail      | simple line                                    |
//! | Centre          | filled disk, r = 1                             |
use vstd::prelude::*;
use crate::shape::{
    Shape, fits, half, abs, line_between, pixel_at, circle_at, disk_at, cleared_all, lemma_cleared_all_off,
};
use crate::draw_utils::{ring, segment, filled_disk, thick_segment, thickening, thick_fits};

verus! {

/// Compass: dial + cardinal points + needle.
#[derive(Clone, Copy, Debug)]
pub struct Compass {
    /// X of the centre.
    pub cx: i32,
    /// Y of the centre.
    pub cy: i32,
    /// Radius of the dial in pixels.
    pub radius: i32,
}

impl Compass {
    /// Builds a compass.
    pub fn new(cx: i32, cy: i32, radius: i32) -> (c: Self)
        ensures
            c == (Compass { cx, cy, radius }),
    {
        Compass { cx, cy, radius }
    }

    /// Length of the North needle: `radius - 3`.
    pub fn needle_len(&self) -> (n: i32)
        requires
            fits(self.radius - 3),
        ensures
            n == self.radius - 3,
    {
        self.radius - 3
    }

    /// Length of the South tail: `radius / 2 - 1`.
    pub fn tail_len(&self) -> (t: i32)
        ensures
            t == half(self.radius as int) - 1,
    {
        self.radius / 2 - 1
    }

    /// Tip of the needle: `(cx + dx, cy - dy)` (North is up).
    pub open spec fn needle_tip(self, dx: i32, dy: i32) -> (int, int) {
        (self.cx + dx, self.cy - dy)
    }

    /// End of the tail, opposite the needle: `(cx - dx, cy + dy)`.
    pub open spec fn tail_end(self, dx: i32, dy: i32) -> (int, int) {
        (self.cx - dx, self.cy + dy)
    }

    /// What [`Compass::draw`] paints, in order: the dial, the N, E, S and W
    /// points at `radius - 2`, the needle and its thickening, the tail and the
    /// centre.
    pub open spec fn shapes(
        self,
        needle_dx: i32,
        needle_dy: i32,
        tail_dx: i32,
        tail_dy: i32,
        on: bool,
    ) -> Seq<Shape> {
        let (cx, cy, r) = (self.cx as int, self.cy as int, self.radius as int);
        let inner = r - 2;
        let n = self.needle_tip(needle_dx, needle_dy);
        let t = self.tail_end(tail_dx, tail_dy);
        seq![
            circle_at(cx, cy, r, on),
            pixel_at(cx, cy - inner, on),
            pixel_at(cx + inner, cy, on),
            pixel_at(cx, cy + inner, on),
            pixel_at(cx - inner, cy, on),
            line_between(cx, cy, n.0, n.1, on),
            thickening(cx, cy, n.0, n.1, on),
            line_between(cx, cy, t.0, t.1, on),
            disk_at(cx, cy, 1, on),
        ]
    }

    /// Every value [`Compass::draw`] computes fits in an `i32`.
    pub open spec fn drawable(self, needle_dx: i32, needle_dy: i32, tail_dx: i32, tail_dy: i32) -> bool {
        let (cx, cy, r) = (self.cx as int, self.cy as int, self.radius as int);
        let inner = r - 2;
        let n = self.needle_tip(needle_dx, needle_dy);
        let t = self.tail_end(tail_dx, tail_dy);
        &&& fits(inner)
        &&& fits(cy - inner)
        &&& fits(cx + inner)
        &&& fits(cy + inner)
        &&& fits(cx - inner)
        &&& fits(r - 3)
        &&& fits(n.0)
        &&& fits(n.1)
        &&& thick_fits(cx, cy, n.0, n.1)
        &&& fits(t.0)
        &&& fits(t.1)
    }

    /// Whether [`Compass::draw`] can run for these offsets without overflowing.
    pub fn can_draw(&self, needle_dx: i32, needle_dy: i32, tail_dx: i32, tail_dy: i32) -> (ok:
        bool)
        ensures
            ok == self.drawable(needle_dx, needle_dy, tail_dx, tail_dy),
    {
        let lo = i32::MIN as i64;
        let hi = i32::MAX as i64;
        let cx = self.cx as i64;
        let cy = self.cy as i64;
        let inner = self.radius as i64 - 2;
        let nx = cx + needle_dx as i64;
        let ny = cy - needle_dy as i64;
        let tx = cx - tail_dx as i64;
        let ty = cy + tail_dy as i64;
        let ddx = nx - cx;
        let ddy = ny - cy;
        let adx = if ddx < 0 {
            -ddx
        } else {
            ddx
        };
        let ady = if ddy < 0 {
            -ddy
        } else {
            ddy
        };
        let thick_ok = lo < ddx && ddx <= hi && lo < ddy && ddy <= hi && if adx >= ady {
            cy + 1 <= hi && ny + 1 <= hi
        } else {
            cx + 1 <= hi && nx + 1 <= hi
        };
        lo <= inner && lo <= cy - inner && cy - inner <= hi && lo <= cx + inner && cx + inner
            <= hi && lo <= cy + inner && cy + inner <= hi && lo <= cx - inner && cx - inner <= hi
            && lo <= inner - 1 && lo <= nx && nx <= hi && lo <= ny && ny <= hi && thick_ok && lo
            <= tx && tx <= hi && lo <= ty && ty <= hi
    }

    /// Draws the compass with the needle's tip at offset `(needle_dx, needle_dy)`
    /// and the tail at offset `(tail_dx, tail_dy)` (see the module documentation).
    pub fn draw(
        &self,
        out: &mut Vec<Shape>,
        needle_dx: i32,
        needle_dy: i32,
        tail_dx: i32,
        tail_dy: i32,
        on: bool,
    )
        requires
            self.drawable(needle_dx, needle_dy, tail_dx, tail_dy),
        ensures
            final(out)@ == old(out)@ + self.shapes(needle_dx, needle_dy, tail_dx, tail_dy, on),
    {
        let ghost start = out@;
        let r = self.radius;

        // dial
        ring(out, self.cx, self.cy, r, on);

        // cardinal points
        let inner = r - 2;
        out.push(Shape::Pixel { x: self.cx, y: self.cy - inner, on });
        out.push(Shape::Pixel { x: self.cx + inner, y: self.cy, on });
        out.push(Shape::Pixel { x: self.cx, y: self.cy + inner, on });
        out.push(Shape::Pixel { x: self.cx - inner, y: self.cy, on });

        // North needle, thickened
        let nx = self.cx + needle_dx;
        let ny = self.cy - needle_dy;
        thick_segment(out, self.cx, self.cy, nx, ny, on);

        // South tail
        let tx = self.cx - tail_dx;
        let ty = self.cy + tail_dy;
        segment(out, self.cx, self.cy, tx, ty, on);

        // centre
        filled_disk(out, self.cx, self.cy, 1, on);
        assert(out@ =~= start + self.shapes(needle_dx, needle_dy, tail_dx, tail_dy, on));
    }

    /// Erases the compass: the same drawing with `on == false`.
    pub fn erase(&self, out: &mut Vec<Shape>, needle_dx: i32, needle_dy: i32, tail_dx: i32, tail_dy: i32)
        requires
            self.drawable(needle_dx, needle_dy, tail_dx, tail_dy),
        ensures
            final(out)@ == old(out)@ + self.shapes(needle_dx, needle_dy, tail_dx, tail_dy, false),
    {
        self.draw(out, needle_dx, needle_dy, tail_dx, tail_dy, false);
    }
}

/// Erasing paints exactly the drawing's commands, each cleared, so every command
/// of the erase is painted off.
pub proof fn lemma_compass_erase_clears(
    c: Compass,
    needle_dx: i32,
    needle_dy: i32,
    tail_dx: i32,
    tail_dy: i32,
)
    ensures
        c.shapes(needle_dx, needle_dy, tail_dx, tail_dy, false) == cleared_all(
            c.shapes(needle_dx, needle_dy, tail_dx, tail_dy, true),
        ),
        forall|k: int| 0 <= k < c.shapes(needle_dx, needle_dy, tail_dx, tail_dy, false).len() ==> !(#[trigger] c.shapes(needle_dx, needle_dy, tail_dx, tail_dy, false)[k]).colour(),
{
    assert(c.shapes(needle_dx, needle_dy, tail_dx, tail_dy, false) =~= cleared_all(
        c.shapes(needle_dx, needle_dy, tail_dx, tail_dy, true),
    ));
    lemma_cleared_all_off(c.shapes(needle_dx, needle_dy, tail_dx, tail_dy, true));
}

/// The four cardinal points lie on the axes through the centre, `radius - 2`
/// pixels away: North above, East to the right, South below, West to the left.
pub proof fn lemma_compass_cardinal_points(
    c: Compass,
    needle_dx: i32,
    needle_dy: i32,
    tail_dx: i32,
    tail_dy: i32,
    on: bool,
)
    requires
        c.drawable(needle_dx, needle_dy, tail_dx, tail_dy),
    ensures
        ({
            let s = c.shapes(needle_dx, needle_dy, tail_dx, tail_dy, on);
            let d = c.radius - 2;
            &&& s[1] == Shape::Pixel { x: c.cx, y: (c.cy - d) as i32, on }
            &&& s[2] == Shape::Pixel { x: (c.cx + d) as i32, y: c.cy, on }
            &&& s[3] == Shape::Pixel { x: c.cx, y: (c.cy + d) as i32, on }
            &&& s[4] == Shape::Pixel { x: (c.cx - d) as i32, y: c.cy, on }
        }),
{
}

/// Where the needle and the tail are drawn, in terms of the compass and the
/// offsets alone, whatever their signs: the needle from the centre to
/// `(cx + needle_dx, cy - needle_dy)` (North is up), thickened one pixel down
/// when `|needle_dx| >= |needle_dy|` and one pixel right otherwise, and the tail
/// from the centre to `(cx - tail_dx, cy + tail_dy)`.  The needle's tip is below
/// the centre exactly when `needle_dy < 0`, and when both offsets point the same
/// way the tip and the tail's end lie on opposite sides of the centre.
pub proof fn lemma_compass_needle_and_tail(
    c: Compass,
    needle_dx: i32,
    needle_dy: i32,
    tail_dx: i32,
    tail_dy: i32,
    on: bool,
)
    requires
        c.drawable(needle_dx, needle_dy, tail_dx, tail_dy),
    ensures
        ({
            let s = c.shapes(needle_dx, needle_dy, tail_dx, tail_dy, on);
            let (nx, ny) = (c.cx + needle_dx, c.cy - needle_dy);
            let (tx, ty) = (c.cx - tail_dx, c.cy + tail_dy);
            &&& s.len() == 9
            &&& s[0] == Shape::Circle { cx: c.cx, cy: c.cy, r: c.radius, on }
            &&& s[8] == Shape::Disk { cx: c.cx, cy: c.cy, r: 1, on }
            &&& s[5] == Shape::Line { x0: c.cx, y0: c.cy, x1: nx as i32, y1: ny as i32, on }
            &&& s[6] == (if abs(needle_dx as int) >= abs(needle_dy as int) {
                Shape::Line { x0: c.cx, y0: (c.cy + 1) as i32, x1: nx as i32, y1: (ny + 1) as i32, on }
            } else {
                Shape::Line { x0: (c.cx + 1) as i32, y0: c.cy, x1: (nx + 1) as i32, y1: ny as i32, on }
            })
            &&& s[7] == Shape::Line { x0: c.cx, y0: c.cy, x1: tx as i32, y1: ty as i32, on }
            &&& (needle_dy < 0 <==> s[5]->Line_y1 > c.cy)
            &&& (needle_dx > 0 <==> s[5]->Line_x1 > c.cx)
            &&& (needle_dy > 0 && tail_dy > 0 ==> s[5]->Line_y1 < c.cy < s[7]->Line_y1)
            &&& (needle_dy < 0 && tail_dy < 0 ==> s[7]->Line_y1 < c.cy < s[5]->Line_y1)
            &&& (needle_dx > 0 && tail_dx > 0 ==> s[7]->Line_x1 < c.cx < s[5]->Line_x1)
            &&& (needle_dx < 0 && tail_dx < 0 ==> s[5]->Line_x1 < c.cx < s[7]->Line_x1)
        }),
{
}

} // verus!
