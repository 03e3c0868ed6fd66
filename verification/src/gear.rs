//! Gear: teeth + circular body + hub.
//!
//! | Field         | Meaning                                                 |
//! |---------------|---------------------------------------------------------|
//! | `cx`, `cy`    | centre of the gear                                      |
//! | `pitch_r`     | pitch radius (root of the teeth), pixels                |
//! | `teeth`       | number of teeth                                         |
//! | `tooth_h`     | height of a tooth (addendum), pixels                    |
//! | `tooth_w_pct` | tooth width as a percentage of the angular pitch (1–99) |
//! | `hub_r`       | radius of the inner hub (0 = solid)                     |
//!
//! A gear with fewer than 3 teeth draws nothing.  Otherwise it draws the body
//! (circle of radius `pitch_r`), then each tooth — its two sides and its top,
//! from the four corners at radii `pitch_r` and `pitch_r + tooth_h`, then the
//! arc of the body up to the next tooth — then the hub.  The corners and the
//! arc points are computed from the angles of the tooth and handed in as
//! offsets from the centre already rounded to whole pixels.
//!
//! Two meshing gears have their centres `pitch_r1 + pitch_r2` apart.
use vstd::prelude::*;
use crate::shape::{Shape, fits, line_between, circle_at, pixel_at, disk_at, cleared_all, lemma_cleared_concat, lemma_cleared_all_off};
use crate::draw_utils::{ring, segment, filled_disk, plot_offsets, offset_pixels, offsets_fit, offset_fits};

verus! {

/// Complete gear: circular body + rectangular teeth + hub.
#[derive(Clone, Copy, Debug)]
pub struct Gear {
    /// X of the centre.
    pub cx: i32,
    /// Y of the centre.
    pub cy: i32,
    /// Pitch radius (root of the teeth) in pixels.
    pub pitch_r: i32,
    /// Number of teeth.
    pub teeth: i32,
    /// Height of a tooth (addendum) in pixels.
    pub tooth_h: i32,
    /// Width of a tooth as a percentage of the angular pitch (1–99).
    pub tooth_w_pct: i32,
    /// Radius of the inner hub; 0 = solid, > 0 = hollow hub.
    pub hub_r: i32,
}

/// The outline of one tooth, as offsets from the gear's centre: the two corners on
/// the pitch circle, the two corners on the outer circle, and the points of the body's
/// arc from this tooth to the next.
#[derive(Debug)]
pub struct ToothOutline {
    /// Left corner on the pitch circle.
    pub base_left: (i32, i32),
    /// Right corner on the pitch circle.
    pub base_right: (i32, i32),
    /// Left corner on the outer circle.
    pub tip_left: (i32, i32),
    /// Right corner on the outer circle.
    pub tip_right: (i32, i32),
    /// Points of the arc between this tooth and the next.
    pub arc: Vec<(i32, i32)>,
}

/// `pct` forced into `[1, 99]`.
pub open spec fn tooth_width(pct: int) -> int {
    if pct < 1 {
        1
    } else if pct > 99 {
        99
    } else {
        pct
    }
}

/// The sides and the top of one tooth, then its arc.
pub open spec fn tooth_shapes(cx: int, cy: int, t: ToothOutline, on: bool) -> Seq<Shape> {
    let (bl, br, tl, tr) = (t.base_left, t.base_right, t.tip_left, t.tip_right);
    seq![
        line_between(cx + bl.0, cy + bl.1, cx + tl.0, cy + tl.1, on),
        line_between(cx + br.0, cy + br.1, cx + tr.0, cy + tr.1, on),
        line_between(cx + tl.0, cy + tl.1, cx + tr.0, cy + tr.1, on),
    ] + offset_pixels(cx, cy, t.arc@, on)
}

/// The teeth of `ts`, one after the other.
pub open spec fn teeth_shapes(cx: int, cy: int, ts: Seq<ToothOutline>, on: bool) -> Seq<Shape>
    decreases ts.len(),
{
    if ts.len() == 0 {
        seq![]
    } else {
        teeth_shapes(cx, cy, ts.drop_last(), on) + tooth_shapes(cx, cy, ts.last(), on)
    }
}

/// All the points of one tooth fit in `i32`.
pub open spec fn tooth_fits(cx: int, cy: int, t: ToothOutline) -> bool {
    &&& offset_fits(cx, cy, t.base_left)
    &&& offset_fits(cx, cy, t.base_right)
    &&& offset_fits(cx, cy, t.tip_left)
    &&& offset_fits(cx, cy, t.tip_right)
    &&& offsets_fit(cx, cy, t.arc@)
}

/// Whether `(cx + d.0, cy + d.1)` fits in `i32`.
fn offset_fits_check(cx: i32, cy: i32, d: (i32, i32)) -> (ok: bool)
    ensures
        ok == offset_fits(cx as int, cy as int, d),
{
    let x = cx as i64 + d.0 as i64;
    let y = cy as i64 + d.1 as i64;
    let lo = i32::MIN as i64;
    let hi = i32::MAX as i64;
    lo <= x && x <= hi && lo <= y && y <= hi
}

/// Whether every point of the tooth fits in `i32`.
fn tooth_fits_check(cx: i32, cy: i32, t: &ToothOutline) -> (ok: bool)
    ensures
        ok == tooth_fits(cx as int, cy as int, *t),
{
    if !(offset_fits_check(cx, cy, t.base_left) && offset_fits_check(cx, cy, t.base_right)
        && offset_fits_check(cx, cy, t.tip_left) && offset_fits_check(cx, cy, t.tip_right)) {
        return false;
    }
    let mut i: usize = 0;
    while i < t.arc.len()
        invariant
            i <= t.arc.len(),
            forall|j: int| 0 <= j < i ==> offset_fits(cx as int, cy as int, #[trigger] t.arc@[j]),
        decreases t.arc.len() - i,
    {
        if !offset_fits_check(cx, cy, t.arc[i]) {
            return false;
        }
        i += 1;
    }
    true
}

impl Gear {
    /// Builds a gear; the tooth width is forced into `[1, 99]` percent.
    pub fn new(
        cx: i32,
        cy: i32,
        pitch_r: i32,
        teeth: i32,
        tooth_h: i32,
        tooth_w_pct: i32,
        hub_r: i32,
    ) -> (g: Self)
        ensures
            g == (Gear {
                cx,
                cy,
                pitch_r,
                teeth,
                tooth_h,
                tooth_w_pct: tooth_width(tooth_w_pct as int) as i32,
                hub_r,
            }),
    {
        let pct = if tooth_w_pct < 1 {
            1
        } else if tooth_w_pct > 99 {
            99
        } else {
            tooth_w_pct
        };
        Gear { cx, cy, pitch_r, teeth, tooth_h, tooth_w_pct: pct, hub_r }
    }

    /// Outer radius (top of the teeth): `pitch_r + tooth_h`.
    pub fn outer_r(&self) -> (r: i32)
        requires
            fits(self.pitch_r + self.tooth_h),
        ensures
            r == self.pitch_r + self.tooth_h,
    {
        self.pitch_r + self.tooth_h
    }

    /// The hub: a ring and the central pixel when `hub_r > 0`, a small disk otherwise.
    pub open spec fn hub_shapes(self, on: bool) -> Seq<Shape> {
        if self.hub_r > 0 {
            seq![
                circle_at(self.cx as int, self.cy as int, self.hub_r as int, on),
                pixel_at(self.cx as int, self.cy as int, on),
            ]
        } else {
            seq![disk_at(self.cx as int, self.cy as int, 2, on)]
        }
    }

    /// What [`Gear::draw`] paints, in order: nothing for fewer than 3 teeth;
    /// otherwise the body, every tooth and the hub.
    pub open spec fn shapes(self, outlines: Seq<ToothOutline>, on: bool) -> Seq<Shape> {
        if self.teeth < 3 {
            seq![]
        } else {
            seq![circle_at(self.cx as int, self.cy as int, self.pitch_r as int, on)]
                + teeth_shapes(self.cx as int, self.cy as int, outlines, on) + self.hub_shapes(on)
        }
    }

    /// Every value [`Gear::draw`] computes fits in an `i32`.
    pub open spec fn drawable(self, outlines: Seq<ToothOutline>) -> bool {
        self.teeth >= 3 ==> {
            &&& outlines.len() == self.teeth
            &&& fits(self.pitch_r + self.tooth_h)
            &&& forall|i: int|
                0 <= i < outlines.len() ==> tooth_fits(
                    self.cx as int,
                    self.cy as int,
                    #[trigger] outlines[i],
                )
        }
    }

    /// Whether [`Gear::draw`] can run with these outlines: one outline per tooth,
    /// and no computed value overflowing.
    pub fn can_draw(&self, outlines: &Vec<ToothOutline>) -> (ok: bool)
        ensures
            ok == self.drawable(outlines@),
    {
        if self.teeth < 3 {
            return true;
        }
        let outer = self.pitch_r as i64 + self.tooth_h as i64;
        if outlines.len() != self.teeth as usize || outer < i32::MIN as i64 || outer
            > i32::MAX as i64 {
            return false;
        }
        let mut i: usize = 0;
        while i < outlines.len()
            invariant
                i <= outlines.len(),
                self.teeth >= 3,
                outlines.len() == self.teeth,
                fits(self.pitch_r + self.tooth_h),
                forall|j: int| 0 <= j < i ==> tooth_fits(self.cx as int, self.cy as int, #[trigger] outlines@[j]),
            decreases outlines.len() - i,
        {
            if !tooth_fits_check(self.cx, self.cy, &outlines[i]) {
                assert(!tooth_fits(self.cx as int, self.cy as int, outlines@[i as int]));
                return false;
            }
            i += 1;
        }
        true
    }

    /// Appends one tooth.
    fn draw_tooth(&self, out: &mut Vec<Shape>, t: &ToothOutline, on: bool)
        requires
            tooth_fits(self.cx as int, self.cy as int, *t),
        ensures
            final(out)@ == old(out)@ + tooth_shapes(self.cx as int, self.cy as int, *t, on),
    {
        let ghost start = out@;
        let (blx, bly) = (self.cx + t.base_left.0, self.cy + t.base_left.1);
        let (brx, bry) = (self.cx + t.base_right.0, self.cy + t.base_right.1);
        let (tlx, tly) = (self.cx + t.tip_left.0, self.cy + t.tip_left.1);
        let (trx, try_) = (self.cx + t.tip_right.0, self.cy + t.tip_right.1);

        // sides and top of the tooth
        segment(out, blx, bly, tlx, tly, on);
        segment(out, brx, bry, trx, try_, on);
        segment(out, tlx, tly, trx, try_, on);

        // arc of the body up to the next tooth
        plot_offsets(out, self.cx, self.cy, &t.arc, on);
        assert(out@ =~= start + tooth_shapes(self.cx as int, self.cy as int, *t, on));
    }

    /// Draws the gear from the outlines of its teeth (see the module documentation).
    pub fn draw(&self, out: &mut Vec<Shape>, outlines: &Vec<ToothOutline>, on: bool)
        requires
            self.drawable(outlines@),
        ensures
            final(out)@ == old(out)@ + self.shapes(outlines@, on),
    {
        let ghost start = out@;
        if self.teeth < 3 {
            assert(out@ =~= start + self.shapes(outlines@, on));
            return;
        }
        let _outer_r = self.outer_r();

        // body
        ring(out, self.cx, self.cy, self.pitch_r, on);
        let ghost after_body = out@;

        // teeth
        let mut i: usize = 0;
        while i < outlines.len()
            invariant
                i <= outlines.len(),
                self.drawable(outlines@),
                self.teeth >= 3,
                out@ == after_body + teeth_shapes(
                    self.cx as int,
                    self.cy as int,
                    outlines@.take(i as int),
                    on,
                ),
            decreases outlines.len() - i,
        {
            assert(tooth_fits(self.cx as int, self.cy as int, outlines@[i as int]));
            self.draw_tooth(out, &outlines[i], on);
            i += 1;
            assert(outlines@.take(i as int).drop_last() =~= outlines@.take(i - 1));
        }
        assert(outlines@.take(i as int) =~= outlines@);

        // hub
        if self.hub_r > 0 {
            ring(out, self.cx, self.cy, self.hub_r, on);
            out.push(Shape::Pixel { x: self.cx, y: self.cy, on });
        } else {
            filled_disk(out, self.cx, self.cy, 2, on);
        }
        assert(out@ =~= start + self.shapes(outlines@, on));
    }

    /// Erases the gear: the same drawing with `on == false`.
    pub fn erase(&self, out: &mut Vec<Shape>, outlines: &Vec<ToothOutline>)
        requires
            self.drawable(outlines@),
        ensures
            final(out)@ == old(out)@ + self.shapes(outlines@, false),
    {
        self.draw(out, outlines, false);
    }

    /// Distance between the centres of two meshing gears: `pitch_r1 + pitch_r2`.
    pub fn mesh_distance(&self, other: &Gear) -> (d: i32)
        requires
            fits(self.pitch_r + other.pitch_r),
        ensures
            d == self.pitch_r + other.pitch_r,
    {
        self.pitch_r + other.pitch_r
    }

    /// `other`, moved so that its centre is this gear's centre plus `(dx, dy)`
    /// (the rounded [`Gear::mesh_distance`] along the axis between the two gears);
    /// everything else of `other` is kept.
    pub fn mesh(&self, other: Gear, dx: i32, dy: i32) -> (g: Gear)
        requires
            fits(self.cx + dx),
            fits(self.cy + dy),
        ensures
            g == (Gear { cx: (self.cx + dx) as i32, cy: (self.cy + dy) as i32, ..other }),
    {
        let mut g = other;
        g.cx = self.cx + dx;
        g.cy = self.cy + dy;
        g
    }
}

/// The teeth, cleared, are the teeth painted off.
pub proof fn lemma_teeth_shapes_cleared(cx: int, cy: int, ts: Seq<ToothOutline>, on: bool)
    ensures
        cleared_all(teeth_shapes(cx, cy, ts, on)) == teeth_shapes(cx, cy, ts, false),
    decreases ts.len(),
{
    if ts.len() == 0 {
        assert(cleared_all(teeth_shapes(cx, cy, ts, on)) =~= teeth_shapes(cx, cy, ts, false));
    } else {
        lemma_teeth_shapes_cleared(cx, cy, ts.drop_last(), on);
        lemma_cleared_concat(teeth_shapes(cx, cy, ts.drop_last(), on), tooth_shapes(cx, cy, ts.last(), on));
        assert(cleared_all(tooth_shapes(cx, cy, ts.last(), on)) =~= tooth_shapes(cx, cy, ts.last(), false));
    }
}

/// Erasing paints exactly the drawing's commands, each cleared, so every command
/// of the erase is painted off.
pub proof fn lemma_gear_erase_clears(g: Gear, outlines: Seq<ToothOutline>)
    ensures
        g.shapes(outlines, false) == cleared_all(g.shapes(outlines, true)),
        forall|k: int| 0 <= k < g.shapes(outlines, false).len() ==> !(#[trigger] g.shapes(outlines, false)[k]).colour(),
{
    if g.teeth < 3 {
        assert(g.shapes(outlines, false) =~= cleared_all(g.shapes(outlines, true)));
    } else {
        let a = seq![circle_at(g.cx as int, g.cy as int, g.pitch_r as int, true)];
        let b = teeth_shapes(g.cx as int, g.cy as int, outlines, true);
        let c = g.hub_shapes(true);
        lemma_cleared_concat(a + b, c);
        lemma_cleared_concat(a, b);
        lemma_teeth_shapes_cleared(g.cx as int, g.cy as int, outlines, true);
        assert(cleared_all(a) =~= seq![circle_at(g.cx as int, g.cy as int, g.pitch_r as int, false)]);
        assert(cleared_all(c) =~= g.hub_shapes(false));
    }
    lemma_cleared_all_off(g.shapes(outlines, true));
}

/// A gear built by [`Gear::new`] always has a tooth width within `[1, 99]` percent.
pub proof fn lemma_tooth_width_in_range(pct: int)
    ensures
        1 <= tooth_width(pct) <= 99,
        1 <= pct <= 99 ==> tooth_width(pct) == pct,
{
}

/// Drawing the teeth of `a + b` draws the teeth of `a`, then those of `b`.
proof fn lemma_teeth_shapes_append(cx: int, cy: int, a: Seq<ToothOutline>, b: Seq<ToothOutline>, on: bool)
    ensures
        teeth_shapes(cx, cy, a + b, on) == teeth_shapes(cx, cy, a, on) + teeth_shapes(cx, cy, b, on),
    decreases b.len(),
{
    if b.len() == 0 {
        assert(a + b =~= a);
        assert(teeth_shapes(cx, cy, b, on) =~= seq![]);
        assert(teeth_shapes(cx, cy, a, on) + teeth_shapes(cx, cy, b, on) =~= teeth_shapes(cx, cy, a, on));
    } else {
        lemma_teeth_shapes_append(cx, cy, a, b.drop_last(), on);
        assert((a + b).drop_last() =~= a + b.drop_last());
        assert((a + b).last() == b.last());
    }
}

/// Tooth `t` is drawn from position `j` of `s`, around the centre `(cx, cy)`:
/// its left side from the left base corner to the left tip corner, its right side
/// from the right base corner to the right tip corner, its top from the left tip
/// corner to the right one, then one pixel per point of its arc, each placed
/// relative to the centre.
pub open spec fn tooth_drawn_at(s: Seq<Shape>, j: int, cx: i32, cy: i32, t: ToothOutline, on: bool) -> bool {
    let (bl, br, tl, tr) = (t.base_left, t.base_right, t.tip_left, t.tip_right);
    &&& 0 <= j
    &&& j + 3 + t.arc@.len() <= s.len()
    &&& s[j] == Shape::Line {
        x0: (cx + bl.0) as i32,
        y0: (cy + bl.1) as i32,
        x1: (cx + tl.0) as i32,
        y1: (cy + tl.1) as i32,
        on,
    }
    &&& s[j + 1] == Shape::Line {
        x0: (cx + br.0) as i32,
        y0: (cy + br.1) as i32,
        x1: (cx + tr.0) as i32,
        y1: (cy + tr.1) as i32,
        on,
    }
    &&& s[j + 2] == Shape::Line {
        x0: (cx + tl.0) as i32,
        y0: (cy + tl.1) as i32,
        x1: (cx + tr.0) as i32,
        y1: (cy + tr.1) as i32,
        on,
    }
    &&& forall|m: int|
        0 <= m < t.arc@.len() ==> s[j + 3 + m] == Shape::Pixel {
            x: (cx + (#[trigger] t.arc@[m]).0) as i32,
            y: (cy + t.arc@[m].1) as i32,
            on,
        }
}

/// Number of commands of the teeth `ts`: three lines and one pixel per arc point each.
pub open spec fn teeth_len(ts: Seq<ToothOutline>) -> int
    decreases ts.len(),
{
    if ts.len() == 0 {
        0
    } else {
        teeth_len(ts.drop_last()) + 3 + ts.last().arc@.len()
    }
}

proof fn lemma_teeth_shapes_len(cx: int, cy: int, ts: Seq<ToothOutline>, on: bool)
    ensures
        teeth_shapes(cx, cy, ts, on).len() == teeth_len(ts),
    decreases ts.len(),
{
    if ts.len() > 0 {
        lemma_teeth_shapes_len(cx, cy, ts.drop_last(), on);
    }
}

/// Tooth `i` is drawn right after the body and the teeth before it.
#[verifier::rlimit(60)]
proof fn lemma_tooth_drawn(g: Gear, outlines: Seq<ToothOutline>, on: bool, i: int)
    requires
        g.teeth >= 3,
        0 <= i < outlines.len(),
    ensures
        tooth_drawn_at(
            g.shapes(outlines, on),
            1 + teeth_len(outlines.take(i)),
            g.cx,
            g.cy,
            outlines[i],
            on,
        ),
{
    let (cx, cy) = (g.cx as int, g.cy as int);
    let sh = g.shapes(outlines, on);
    let a = outlines.take(i);
    let t = outlines[i];
    let b = outlines.skip(i + 1);
    let ts = tooth_shapes(cx, cy, t, on);
    assert(teeth_shapes(cx, cy, outlines, on) == teeth_shapes(cx, cy, a, on) + ts + teeth_shapes(cx, cy, b, on)) by {
        assert(outlines =~= a + seq![t] + b);
        lemma_teeth_shapes_append(cx, cy, a + seq![t], b, on);
        lemma_teeth_shapes_append(cx, cy, a, seq![t], on);
        assert(seq![t].drop_last() =~= Seq::<ToothOutline>::empty());
        assert(teeth_shapes(cx, cy, Seq::<ToothOutline>::empty(), on) =~= seq![]);
        assert(teeth_shapes(cx, cy, seq![t], on) =~= ts);
    }
    lemma_teeth_shapes_len(cx, cy, a, on);
    let pre = seq![circle_at(cx, cy, g.pitch_r as int, on)] + teeth_shapes(cx, cy, a, on);
    let rest = teeth_shapes(cx, cy, b, on) + g.hub_shapes(on);
    assert(sh =~= pre + ts + rest);
    let j = pre.len() as int;
    assert forall|m: int| 0 <= m < t.arc@.len() implies sh[j + 3 + m] == Shape::Pixel {
        x: (cx + (#[trigger] t.arc@[m]).0) as i32,
        y: (cy + t.arc@[m].1) as i32,
        on,
    } by {
        assert(sh[j + 3 + m] == ts[3 + m]);
    }
    assert(sh[j] == ts[0]);
    assert(sh[j + 1] == ts[1]);
    assert(sh[j + 2] == ts[2]);
}

/// A gear with at least 3 teeth starts with its body (the circle of radius
/// `pitch_r`), then draws every tooth of `outlines` in order — tooth `i` right
/// after the `3 + arc length` commands of each tooth before it, its sides joining
/// the base and tip corners of the same side, its top joining the two tips, then
/// its arc — and ends with its hub.
pub proof fn lemma_gear_teeth_drawn(g: Gear, outlines: Seq<ToothOutline>, on: bool)
    requires
        g.teeth >= 3,
    ensures
        g.shapes(outlines, on)[0] == (Shape::Circle { cx: g.cx, cy: g.cy, r: g.pitch_r, on }),
        forall|i: int|
            0 <= i < outlines.len() ==> tooth_drawn_at(
                g.shapes(outlines, on),
                1 + teeth_len(outlines.take(i)),
                g.cx,
                g.cy,
                #[trigger] outlines[i],
                on,
            ),
        g.hub_r > 0 ==> g.shapes(outlines, on).last() == (Shape::Pixel { x: g.cx, y: g.cy, on }),
        g.hub_r <= 0 ==> g.shapes(outlines, on).last() == (Shape::Disk { cx: g.cx, cy: g.cy, r: 2, on }),
{
    let (cx, cy) = (g.cx as int, g.cy as int);
    let sh = g.shapes(outlines, on);
    let body = seq![circle_at(cx, cy, g.pitch_r as int, on)];
    let teeth = teeth_shapes(cx, cy, outlines, on);
    let hub = g.hub_shapes(on);
    assert(sh == body + teeth + hub);
    assert(sh[0] == body[0]);
    assert(sh.last() == hub.last());
    assert forall|i: int| 0 <= i < outlines.len() implies tooth_drawn_at(
        g.shapes(outlines, on),
        1 + teeth_len(outlines.take(i)),
        g.cx,
        g.cy,
        #[trigger] outlines[i],
        on,
    ) by {
        lemma_tooth_drawn(g, outlines, on, i);
    }
}

} // verus!
