//! 2D industrial robotic arm: a hatched base on the ground, a shoulder joint, two
//! segments and a parallel-jaw pneumatic gripper.
//!
//! The arm is anchored at the bottom (`base_y` = ground level) and extends
//! upwards.  Its angles and orientation ([`Facing`]) determine the directions of
//! its parts; those directions are handed in as an [`ArmPose`]: offsets already
//! rounded to whole pixels.  Everything else — where the joints are, the base,
//! the symmetric placement of the jaws around the gripper's axis — is computed
//! here.
//!
//! ```text
//!      ════╗  ← upper jaw
//!        ●   ← end effector
//!       /
//!      ●     ← elbow
//!       \
//!        ●   ← shoulder
//!        │
//!    ██████  ← industrial base
//! ──────────  ground
//! ```
use vstd::prelude::*;
use crate::shape::{
    Shape, fits, half, line_between, pixel_at, disk_at, cleared_all, lemma_cleared_concat,
    lemma_cleared_all_off,
};
use crate::draw_utils::{
    filled_rect, hatch, segment, filled_disk, thick_segment, thickening, thick_fits, rect_pixels,
    hatch_marks, hatch_fits, lemma_rect_pixels_cleared, lemma_hatch_marks_cleared,
    lemma_rect_pixels_contains, lemma_rect_pixels_cover,
};

verus! {

/// Orientation of the arm: the global mirror applied to every direction.
#[derive(Clone, Copy, Debug, PartialEq, Eq, Structural)]
pub enum Facing {
    /// Arm facing right: identity.
    Right,
    /// Arm facing left: mirrored along the X axis.
    Left,
}

/// Two-segment industrial robotic arm with a pneumatic gripper.
///
/// All dimensions are screen pixels.  `(base_x, base_y)` is the middle of the
/// base at ground level (bottom of the base).
#[derive(Clone, Copy, Debug)]
pub struct RoboticArm {
    /// Horizontal centre of the base and of the shoulder.
    pub base_x: i32,
    /// Ground level: bottom of the base (Y grows downwards).
    pub base_y: i32,
    /// Length of segment 1: shoulder → elbow.
    pub seg1_len: i32,
    /// Length of segment 2: elbow → end effector.
    pub seg2_len: i32,
    /// Width of the base.
    pub wall_w: i32,
    /// Height of the base.
    pub wall_h: i32,
    /// Length of the jaw rods, along segment 2.
    pub gripper_len: i32,
    /// Minimal half-gap of the jaws when closed; also the size of the jaw tips.
    pub gripper_thickness: i32,
}

/// The rounded direction offsets of one pose of the arm, in screen space (after
/// the [`Facing`] mirror):
/// - `elbow`: shoulder → elbow, `seg1_len` along segment 1;
/// - `end`: elbow → end effector, `seg2_len` along segment 2;
/// - `body`: end effector → gripper guide, 3 pixels along segment 2;
/// - `gap`: guide → first jaw, the current half-gap along the perpendicular
///   of segment 2 (the second jaw is on the other side);
/// - `rod`: jaw origin → jaw end, `gripper_len` along segment 2;
/// - `tip`: half of a jaw tip, [`RoboticArm::tip_size`] along the perpendicular.
#[derive(Clone, Copy, Debug)]
pub struct ArmPose {
    /// Shoulder → elbow.
    pub elbow: (i32, i32),
    /// Elbow → end effector.
    pub end: (i32, i32),
    /// End effector → gripper guide.
    pub body: (i32, i32),
    /// Guide → first jaw origin (the second jaw origin is at minus this offset).
    pub gap: (i32, i32),
    /// Jaw origin → jaw end.
    pub rod: (i32, i32),
    /// Jaw end → one end of its tip (the other end is at minus this offset).
    pub tip: (i32, i32),
}

/// A point plus an offset.
pub open spec fn moved(p: (int, int), d: (i32, i32)) -> (int, int) {
    (p.0 + d.0, p.1 + d.1)
}

/// A point minus an offset.
pub open spec fn moved_back(p: (int, int), d: (i32, i32)) -> (int, int) {
    (p.0 - d.0, p.1 - d.1)
}

/// Both coordinates of `p` fit in `i32`.
pub open spec fn point_fits(p: (int, int)) -> bool {
    fits(p.0) && fits(p.1)
}

/// The line from `a` to `b`.
pub open spec fn line_from_to(a: (int, int), b: (int, int), on: bool) -> Shape {
    line_between(a.0, a.1, b.0, b.1, on)
}

/// `v` fits in `i32`.
fn fits_i64(v: i64) -> (ok: bool)
    ensures
        ok == fits(v as int),
{
    i32::MIN as i64 <= v && v <= i32::MAX as i64
}

/// Both coordinates fit in `i32`.
fn point_fits_i64(p: (i64, i64)) -> (ok: bool)
    ensures
        ok == point_fits((p.0 as int, p.1 as int)),
{
    fits_i64(p.0) && fits_i64(p.1)
}

/// `p + d`, for points far from the `i64` limits.
fn shift(p: (i64, i64), d: (i32, i32)) -> (q: (i64, i64))
    requires
        -0x1_0000_0000_0000 <= p.0 <= 0x1_0000_0000_0000,
        -0x1_0000_0000_0000 <= p.1 <= 0x1_0000_0000_0000,
    ensures
        (q.0 as int, q.1 as int) == moved((p.0 as int, p.1 as int), d),
{
    (p.0 + d.0 as i64, p.1 + d.1 as i64)
}

/// `p - d`, for points far from the `i64` limits.
fn shift_back(p: (i64, i64), d: (i32, i32)) -> (q: (i64, i64))
    requires
        -0x1_0000_0000_0000 <= p.0 <= 0x1_0000_0000_0000,
        -0x1_0000_0000_0000 <= p.1 <= 0x1_0000_0000_0000,
    ensures
        (q.0 as int, q.1 as int) == moved_back((p.0 as int, p.1 as int), d),
{
    (p.0 - d.0 as i64, p.1 - d.1 as i64)
}

/// Whether a thick segment from `a` to `b` can be computed in `i32`.
fn thick_fits_i64(a: (i64, i64), b: (i64, i64)) -> (ok: bool)
    requires
        -0x1_0000_0000_0000 <= a.0 <= 0x1_0000_0000_0000,
        -0x1_0000_0000_0000 <= a.1 <= 0x1_0000_0000_0000,
        -0x1_0000_0000_0000 <= b.0 <= 0x1_0000_0000_0000,
        -0x1_0000_0000_0000 <= b.1 <= 0x1_0000_0000_0000,
    ensures
        ok == thick_fits(a.0 as int, a.1 as int, b.0 as int, b.1 as int),
{
    let dx = b.0 - a.0;
    let dy = b.1 - a.1;
    let lo = i32::MIN as i64;
    let hi = i32::MAX as i64;
    if !(lo < dx && dx <= hi && lo < dy && dy <= hi) {
        return false;
    }
    let adx = if dx < 0 {
        -dx
    } else {
        dx
    };
    let ady = if dy < 0 {
        -dy
    } else {
        dy
    };
    if adx >= ady {
        fits_i64(a.1 + 1) && fits_i64(b.1 + 1)
    } else {
        fits_i64(a.0 + 1) && fits_i64(b.0 + 1)
    }
}

impl RoboticArm {
    /// Creates an arm with the default base (20 × 6) and gripper (rods 10 px long,
    /// 2 px thick).
    pub fn new(base_x: i32, base_y: i32, seg1_len: i32, seg2_len: i32) -> (a: Self)
        ensures
            a == (RoboticArm {
                base_x,
                base_y,
                seg1_len,
                seg2_len,
                wall_w: 20,
                wall_h: 6,
                gripper_len: 10,
                gripper_thickness: 2,
            }),
    {
        RoboticArm {
            base_x,
            base_y,
            seg1_len,
            seg2_len,
            wall_w: 20,
            wall_h: 6,
            gripper_len: 10,
            gripper_thickness: 2,
        }
    }

    /// The same arm with a custom base: `wall_w` wide, `wall_h` high (upwards from
    /// `base_y`).
    pub fn with_wall(self, wall_w: i32, wall_h: i32) -> (a: Self)
        ensures
            a == (RoboticArm { wall_w, wall_h, ..self }),
    {
        let mut a = self;
        a.wall_w = wall_w;
        a.wall_h = wall_h;
        a
    }

    /// The same arm with custom jaws: rods `gripper_len` long, closed half-gap and
    /// tip size `gripper_thickness`.
    pub fn with_gripper(self, gripper_len: i32, gripper_thickness: i32) -> (a: Self)
        ensures
            a == (RoboticArm { gripper_len, gripper_thickness, ..self }),
    {
        let mut a = self;
        a.gripper_len = gripper_len;
        a.gripper_thickness = gripper_thickness;
        a
    }

    /// Size of the jaw tips: the jaw thickness, at least 2 pixels.
    pub fn tip_size(&self) -> (t: i32)
        ensures
            t == (if self.gripper_thickness >= 2 { self.gripper_thickness } else { 2 }),
    {
        if self.gripper_thickness >= 2 {
            self.gripper_thickness
        } else {
            2
        }
    }

    /// Left edge of the base.
    pub open spec fn base_left(self) -> int {
        self.base_x - half(self.wall_w as int)
    }

    /// Top of the base, where the shoulder sits.
    pub open spec fn base_top(self) -> int {
        self.base_y - self.wall_h
    }

    /// The shoulder joint: centred on the top of the base.
    pub open spec fn shoulder(self) -> (int, int) {
        (self.base_x as int, self.base_top())
    }

    /// The elbow joint.
    pub open spec fn elbow(self, p: ArmPose) -> (int, int) {
        moved(self.shoulder(), p.elbow)
    }

    /// The end effector.
    pub open spec fn end_effector(self, p: ArmPose) -> (int, int) {
        moved(self.elbow(p), p.end)
    }

    /// The gripper's guide, where the jaws slide.
    pub open spec fn guide(self, p: ArmPose) -> (int, int) {
        moved(self.end_effector(p), p.body)
    }

    /// Origin of jaw 1 (`first`) or jaw 2, symmetric around the guide.
    pub open spec fn jaw_origin(self, p: ArmPose, first: bool) -> (int, int) {
        if first {
            moved(self.guide(p), p.gap)
        } else {
            moved_back(self.guide(p), p.gap)
        }
    }

    /// End of the rod of jaw 1 (`first`) or jaw 2.
    pub open spec fn jaw_end(self, p: ArmPose, first: bool) -> (int, int) {
        moved(self.jaw_origin(p, first), p.rod)
    }

    /// The base: filled block, hatching, and the ground line 4 pixels wider on each side.
    pub open spec fn base_shapes(self, on: bool) -> Seq<Shape> {
        let (sx, sy, w, h) = (self.base_left(), self.base_top(), self.wall_w as int, self.wall_h as int);
        rect_pixels(sx, sy, w, h, on) + hatch_marks(sx, sy, w, h) + seq![
            line_between(sx - 4, self.base_y as int, sx + w + 4, self.base_y as int, on),
        ]
    }

    /// The two thick segments and the three joints.
    pub open spec fn limb_shapes(self, p: ArmPose, on: bool) -> Seq<Shape> {
        let (s, e, f) = (self.shoulder(), self.elbow(p), self.end_effector(p));
        seq![
            line_from_to(s, e, on),
            thickening(s.0, s.1, e.0, e.1, on),
            line_from_to(e, f, on),
            thickening(e.0, e.1, f.0, f.1, on),
            disk_at(s.0, s.1, 3, on),
            disk_at(e.0, e.1, 3, on),
            disk_at(f.0, f.1, 2, on),
        ]
    }

    /// The gripper: body, sliding rail between the jaw origins, the two rods and
    /// the two tips.
    pub open spec fn gripper_shapes(self, p: ArmPose, on: bool) -> Seq<Shape> {
        let (f, g) = (self.end_effector(p), self.guide(p));
        let (o1, o2) = (self.jaw_origin(p, true), self.jaw_origin(p, false));
        let (e1, e2) = (self.jaw_end(p, true), self.jaw_end(p, false));
        seq![
            line_from_to(f, g, on),
            line_from_to(o1, o2, on),
            line_from_to(o1, e1, on),
            line_from_to(o2, e2, on),
            line_from_to(moved(e1, p.tip), moved_back(e1, p.tip), on),
            line_from_to(moved(e2, p.tip), moved_back(e2, p.tip), on),
        ]
    }

    /// What [`RoboticArm::draw`] paints, in order: base, limbs and joints, gripper.
    pub open spec fn shapes(self, p: ArmPose, on: bool) -> Seq<Shape> {
        self.base_shapes(on) + self.limb_shapes(p, on) + self.gripper_shapes(p, on)
    }

    /// Every value [`RoboticArm::draw`] computes fits in an `i32`.
    pub open spec fn drawable(self, p: ArmPose) -> bool {
        let (sx, sy, w, h) = (self.base_left(), self.base_top(), self.wall_w as int, self.wall_h as int);
        let (s, e, f) = (self.shoulder(), self.elbow(p), self.end_effector(p));
        let (e1, e2) = (self.jaw_end(p, true), self.jaw_end(p, false));
        &&& fits(sx)
        &&& fits(sy)
        &&& hatch_fits(sx, sy, w, h)
        &&& fits(sx - 4)
        &&& fits(sx + w)
        &&& fits(sx + w + 4)
        &&& point_fits(e)
        &&& point_fits(f)
        &&& thick_fits(s.0, s.1, e.0, e.1)
        &&& thick_fits(e.0, e.1, f.0, f.1)
        &&& point_fits(self.guide(p))
        &&& point_fits(self.jaw_origin(p, true))
        &&& point_fits(self.jaw_origin(p, false))
        &&& point_fits(e1)
        &&& point_fits(e2)
        &&& point_fits(moved(e1, p.tip))
        &&& point_fits(moved_back(e1, p.tip))
        &&& point_fits(moved(e2, p.tip))
        &&& point_fits(moved_back(e2, p.tip))
    }

    /// Whether [`RoboticArm::draw`] can run in the pose `p` without overflowing.
    pub fn can_draw(&self, p: ArmPose) -> (ok: bool)
        ensures
            ok == self.drawable(p),
    {
        let hw = self.wall_w as i64 / 2;
        assert(hw == half(self.wall_w as int));
        let w = self.wall_w as i64;
        let h = self.wall_h as i64;
        let sx = self.base_x as i64 - hw;
        let sy = self.base_y as i64 - h;
        let rect_ok = w <= 0 || h <= 0 || (fits_i64(sx + w - 1) && fits_i64(sy + h - 1));
        let base_ok = fits_i64(sx) && fits_i64(sy) && fits_i64(w + h) && w + h <= i32::MAX as i64
            - 3 && rect_ok && fits_i64(sx - 4) && fits_i64(sx + w) && fits_i64(sx + w + 4);
        let s = (self.base_x as i64, sy);
        let e = shift(s, p.elbow);
        let f = shift(e, p.end);
        let g = shift(f, p.body);
        let o1 = shift(g, p.gap);
        let o2 = shift_back(g, p.gap);
        let e1 = shift(o1, p.rod);
        let e2 = shift(o2, p.rod);
        base_ok && point_fits_i64(e) && point_fits_i64(f) && thick_fits_i64(s, e) && thick_fits_i64(
            e,
            f,
        ) && point_fits_i64(g) && point_fits_i64(o1) && point_fits_i64(o2) && point_fits_i64(e1)
            && point_fits_i64(e2) && point_fits_i64(shift(e1, p.tip)) && point_fits_i64(
            shift_back(e1, p.tip),
        ) && point_fits_i64(shift(e2, p.tip)) && point_fits_i64(shift_back(e2, p.tip))
    }

    /// Appends the base.
    fn draw_base(&self, out: &mut Vec<Shape>, on: bool)
        requires
            fits(self.base_left()),
            fits(self.base_top()),
            hatch_fits(self.base_left(), self.base_top(), self.wall_w as int, self.wall_h as int),
            fits(self.base_left() - 4),
            fits(self.base_left() + self.wall_w),
            fits(self.base_left() + self.wall_w + 4),
        ensures
            final(out)@ == old(out)@ + self.base_shapes(on),
    {
        let ghost start = out@;
        let half = self.wall_w / 2;
        let sx = self.base_x - half;
        let sy = self.base_y - self.wall_h;
        filled_rect(out, sx, sy, self.wall_w, self.wall_h, on);
        hatch(out, sx, sy, self.wall_w, self.wall_h);
        segment(out, sx - 4, self.base_y, sx + self.wall_w + 4, self.base_y, on);
        assert(out@ =~= start + self.base_shapes(on));
    }

    /// Appends the gripper.
    fn draw_gripper(&self, out: &mut Vec<Shape>, end_x: i32, end_y: i32, p: ArmPose, on: bool)
        requires
            (end_x as int, end_y as int) == self.end_effector(p),
            self.drawable(p),
        ensures
            final(out)@ == old(out)@ + self.gripper_shapes(p, on),
    {
        let ghost start = out@;
        let guide_x = end_x + p.body.0;
        let guide_y = end_y + p.body.1;
        segment(out, end_x, end_y, guide_x, guide_y, on);

        // jaw origins, symmetric around the guide
        let jaw1_ox = guide_x + p.gap.0;
        let jaw1_oy = guide_y + p.gap.1;
        let jaw2_ox = guide_x - p.gap.0;
        let jaw2_oy = guide_y - p.gap.1;

        // rod ends, advancing along segment 2
        let jaw1_ex = jaw1_ox + p.rod.0;
        let jaw1_ey = jaw1_oy + p.rod.1;
        let jaw2_ex = jaw2_ox + p.rod.0;
        let jaw2_ey = jaw2_oy + p.rod.1;

        // sliding rail, then the rods
        segment(out, jaw1_ox, jaw1_oy, jaw2_ox, jaw2_oy, on);
        segment(out, jaw1_ox, jaw1_oy, jaw1_ex, jaw1_ey, on);
        segment(out, jaw2_ox, jaw2_oy, jaw2_ex, jaw2_ey, on);

        // clamping tips, perpendicular to the rods
        segment(
            out,
            jaw1_ex + p.tip.0,
            jaw1_ey + p.tip.1,
            jaw1_ex - p.tip.0,
            jaw1_ey - p.tip.1,
            on,
        );
        segment(
            out,
            jaw2_ex + p.tip.0,
            jaw2_ey + p.tip.1,
            jaw2_ex - p.tip.0,
            jaw2_ey - p.tip.1,
            on,
        );
        assert(out@ =~= start + self.gripper_shapes(p, on));
    }

    /// Draws the arm in the pose `p` (see [`ArmPose`]).
    pub fn draw(&self, out: &mut Vec<Shape>, p: ArmPose, on: bool)
        requires
            self.drawable(p),
        ensures
            final(out)@ == old(out)@ + self.shapes(p, on),
    {
        let ghost start = out@;

        // 1. base
        self.draw_base(out, on);
        let ghost after_base = out@;

        // 2. joints' positions
        let shoulder_x = self.base_x;
        let shoulder_y = self.base_y - self.wall_h;
        let elbow_x = shoulder_x + p.elbow.0;
        let elbow_y = shoulder_y + p.elbow.1;
        let end_x = elbow_x + p.end.0;
        let end_y = elbow_y + p.end.1;

        // 3. thick segments
        thick_segment(out, shoulder_x, shoulder_y, elbow_x, elbow_y, on);
        thick_segment(out, elbow_x, elbow_y, end_x, end_y, on);

        // 4. joints
        filled_disk(out, shoulder_x, shoulder_y, 3, on);
        filled_disk(out, elbow_x, elbow_y, 3, on);
        filled_disk(out, end_x, end_y, 2, on);
        assert(out@ =~= after_base + self.limb_shapes(p, on));

        // 5. gripper
        self.draw_gripper(out, end_x, end_y, p, on);
        assert(out@ =~= start + self.shapes(p, on));
    }

    /// Erases the arm in the pose `p`: the same drawing with `on == false`.
    pub fn erase(&self, out: &mut Vec<Shape>, p: ArmPose)
        requires
            self.drawable(p),
        ensures
            final(out)@ == old(out)@ + self.shapes(p, false),
    {
        self.draw(out, p, false);
    }
}

/// Erasing paints exactly the drawing's commands, each cleared: every command of
/// the erase is painted off, and every pixel of the base is cleared.
pub proof fn lemma_arm_erase_clears(a: RoboticArm, p: ArmPose)
    ensures
        a.shapes(p, false) == cleared_all(a.shapes(p, true)),
        forall|k: int|
            0 <= k < a.shapes(p, false).len() ==> !(#[trigger] a.shapes(p, false)[k]).colour(),
        forall|px: int, py: int|
            a.base_left() <= px < a.base_left() + a.wall_w && a.base_top() <= py < a.base_top()
                + a.wall_h ==> #[trigger] a.shapes(p, false).contains(pixel_at(px, py, false)),
{
    let (sx, sy, w, h) = (a.base_left(), a.base_top(), a.wall_w as int, a.wall_h as int);
    let r = rect_pixels(sx, sy, w, h, true);
    let m = hatch_marks(sx, sy, w, h);
    let g = seq![line_between(sx - 4, a.base_y as int, sx + w + 4, a.base_y as int, true)];
    lemma_rect_pixels_cleared(sx, sy, w, h, true);
    lemma_hatch_marks_cleared(sx, sy, w, h);
    lemma_cleared_concat(r + m, g);
    lemma_cleared_concat(r, m);
    assert(cleared_all(g) =~= seq![
        line_between(sx - 4, a.base_y as int, sx + w + 4, a.base_y as int, false),
    ]);
    assert(cleared_all(a.base_shapes(true)) == a.base_shapes(false));
    lemma_cleared_concat(a.base_shapes(true) + a.limb_shapes(p, true), a.gripper_shapes(p, true));
    lemma_cleared_concat(a.base_shapes(true), a.limb_shapes(p, true));
    assert(cleared_all(a.limb_shapes(p, true)) =~= a.limb_shapes(p, false));
    assert(cleared_all(a.gripper_shapes(p, true)) =~= a.gripper_shapes(p, false));
    lemma_cleared_all_off(a.shapes(p, true));
    let e = a.shapes(p, false);
    let rf = rect_pixels(sx, sy, w, h, false);
    assert(e =~= rf + (m + cleared_all(g) + a.limb_shapes(p, false) + a.gripper_shapes(p, false)));
    assert forall|px: int, py: int|
        sx <= px < sx + w && sy <= py < sy + h implies #[trigger] e.contains(pixel_at(px, py, false)) by {
        lemma_rect_pixels_contains(sx, sy, w, h, false, px, py);
        let j = choose|j: int| 0 <= j < rf.len() && rf[j] == pixel_at(px, py, false);
        assert(e[j] == rf[j]);
    }
}

/// The jaws are symmetric around the gripper's guide, and their rods are parallel
/// and of the same length: both origins are mirror images through the guide, and
/// both rods are the same translation.
pub proof fn lemma_jaws_symmetric(a: RoboticArm, p: ArmPose)
    ensures
        a.jaw_origin(p, true).0 + a.jaw_origin(p, false).0 == 2 * a.guide(p).0,
        a.jaw_origin(p, true).1 + a.jaw_origin(p, false).1 == 2 * a.guide(p).1,
        a.jaw_end(p, true).0 - a.jaw_origin(p, true).0 == a.jaw_end(p, false).0 - a.jaw_origin(
            p,
            false,
        ).0,
        a.jaw_end(p, true).1 - a.jaw_origin(p, true).1 == a.jaw_end(p, false).1 - a.jaw_origin(
            p,
            false,
        ).1,
{
}

/// Where every part of the arm is drawn, in terms of the arm and the pose alone:
/// with the shoulder at `(base_x, base_y - wall_h)`, the elbow is the shoulder plus
/// `elbow`, the end effector the elbow plus `end`, the guide the end effector plus
/// `body`; jaw 1 starts at the guide plus `gap` and jaw 2 at the guide minus `gap`
/// (both coordinates), each rod runs `rod` further, and each tip spans `±tip`
/// around the rod's end.  These are the last 13 commands of the drawing, in order.
pub proof fn lemma_arm_part_positions(a: RoboticArm, p: ArmPose, on: bool)
    ensures
        ({
            let s = a.shapes(p, on);
            let n = s.len() as int;
            let (sx, sy) = (a.base_x as int, a.base_y - a.wall_h);
            let (ex, ey) = (sx + p.elbow.0, sy + p.elbow.1);
            let (fx, fy) = (ex + p.end.0, ey + p.end.1);
            let (gx, gy) = (fx + p.body.0, fy + p.body.1);
            let (o1x, o1y) = (gx + p.gap.0, gy + p.gap.1);
            let (o2x, o2y) = (gx - p.gap.0, gy - p.gap.1);
            let (e1x, e1y) = (o1x + p.rod.0, o1y + p.rod.1);
            let (e2x, e2y) = (o2x + p.rod.0, o2y + p.rod.1);
            &&& n >= 13
            &&& s[n - 13] == Shape::Line { x0: sx as i32, y0: sy as i32, x1: ex as i32, y1: ey as i32, on }
            &&& s[n - 11] == Shape::Line { x0: ex as i32, y0: ey as i32, x1: fx as i32, y1: fy as i32, on }
            &&& s[n - 9] == Shape::Disk { cx: sx as i32, cy: sy as i32, r: 3, on }
            &&& s[n - 8] == Shape::Disk { cx: ex as i32, cy: ey as i32, r: 3, on }
            &&& s[n - 7] == Shape::Disk { cx: fx as i32, cy: fy as i32, r: 2, on }
            &&& s[n - 6] == Shape::Line { x0: fx as i32, y0: fy as i32, x1: gx as i32, y1: gy as i32, on }
            &&& s[n - 5] == Shape::Line { x0: o1x as i32, y0: o1y as i32, x1: o2x as i32, y1: o2y as i32, on }
            &&& s[n - 4] == Shape::Line { x0: o1x as i32, y0: o1y as i32, x1: e1x as i32, y1: e1y as i32, on }
            &&& s[n - 3] == Shape::Line { x0: o2x as i32, y0: o2y as i32, x1: e2x as i32, y1: e2y as i32, on }
            &&& s[n - 2] == Shape::Line {
                x0: (e1x + p.tip.0) as i32,
                y0: (e1y + p.tip.1) as i32,
                x1: (e1x - p.tip.0) as i32,
                y1: (e1y - p.tip.1) as i32,
                on,
            }
            &&& s[n - 1] == Shape::Line {
                x0: (e2x + p.tip.0) as i32,
                y0: (e2y + p.tip.1) as i32,
                x1: (e2x - p.tip.0) as i32,
                y1: (e2y - p.tip.1) as i32,
                on,
            }
        }),
{
    let b = a.base_shapes(on);
    let l = a.limb_shapes(p, on);
    let g = a.gripper_shapes(p, on);
    assert(a.shapes(p, on) == b + l + g);
    assert(l.len() == 7 && g.len() == 6);
}

/// The base comes first: `wall_w × wall_h` pixels in reading order from its top-left
/// corner `(base_x - wall_w/2, base_y - wall_h)`; the ground line, from 4 pixels
/// left of the base to 4 pixels right of it at `base_y`, comes just before the
/// limbs.
pub proof fn lemma_arm_base(a: RoboticArm, p: ArmPose, on: bool)
    ensures
        ({
            let s = a.shapes(p, on);
            let n = s.len() as int;
            let sx = a.base_x - half(a.wall_w as int);
            &&& n >= 14
            &&& s[n - 14] == Shape::Line {
                x0: (sx - 4) as i32,
                y0: a.base_y,
                x1: (sx + a.wall_w + 4) as i32,
                y1: a.base_y,
                on,
            }
            &&& a.wall_w > 0 && a.wall_h > 0 ==> forall|k: int|
                0 <= k < a.wall_w * a.wall_h ==> #[trigger] s[k] == Shape::Pixel {
                    x: (sx + k % (a.wall_w as int)) as i32,
                    y: (a.base_y - a.wall_h + k / (a.wall_w as int)) as i32,
                    on,
                }
        }),
{
    let (x, y, w, h) = (a.base_left(), a.base_top(), a.wall_w as int, a.wall_h as int);
    let r = rect_pixels(x, y, w, h, on);
    let s = a.shapes(p, on);
    assert(s == a.base_shapes(on) + a.limb_shapes(p, on) + a.gripper_shapes(p, on));
    if w > 0 && h > 0 {
        lemma_rect_pixels_cover(x, y, w, h, on);
        assert forall|k: int| 0 <= k < w * h implies #[trigger] s[k] == r[k] by {}
    }
}
} // verus!
