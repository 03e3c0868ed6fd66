use ssd1306_physics::compass::Compass;
use ssd1306_physics::gear::{Gear, ToothOutline};
use ssd1306_physics::pendulum::Pendulum;
use ssd1306_physics::piston::Piston;
use ssd1306_physics::robotic_arm::{ArmPose, Facing, RoboticArm};
use ssd1306_physics::shape::Shape;
use ssd1306_physics::spring_mass::SpringMass;

fn px(x: i32, y: i32, on: bool) -> Shape {
    Shape::Pixel { x, y, on }
}

fn ln(x0: i32, y0: i32, x1: i32, y1: i32, on: bool) -> Shape {
    Shape::Line { x0, y0, x1, y1, on }
}

fn cleared(shapes: &[Shape]) -> Vec<Shape> {
    shapes
        .iter()
        .map(|s| match *s {
            Shape::Pixel { x, y, .. } => Shape::Pixel { x, y, on: false },
            Shape::Line { x0, y0, x1, y1, .. } => Shape::Line { x0, y0, x1, y1, on: false },
            Shape::Circle { cx, cy, r, .. } => Shape::Circle { cx, cy, r, on: false },
            Shape::Disk { cx, cy, r, .. } => Shape::Disk { cx, cy, r, on: false },
        })
        .collect()
}

fn colour(s: &Shape) -> bool {
    match *s {
        Shape::Pixel { on, .. } | Shape::Line { on, .. } | Shape::Circle { on, .. } | Shape::Disk { on, .. } => on,
    }
}

fn all_off(shapes: &[Shape]) -> bool {
    shapes.iter().all(|s| !colour(s))
}

// ───────────────────────────── pendulum ─────────────────────────────

#[test]
fn pendulum_new_has_default_wall() {
    let p = Pendulum::new(64, 6, 28);
    assert_eq!((p.pivot_x, p.pivot_y, p.length, p.wall_w, p.wall_h), (64, 6, 28, 16, 5));
}

#[test]
fn pendulum_with_wall_keeps_custom_mount() {
    let p = Pendulum::with_wall(32, 10, 30, 20, 8);
    assert_eq!((p.pivot_x, p.pivot_y, p.length, p.wall_w, p.wall_h), (32, 10, 30, 20, 8));
}

#[test]
fn pendulum_draw_paints_mount_rod_pivot_and_mass() {
    let p = Pendulum::new(64, 6, 28);
    assert!(p.can_draw(11, 26));
    let mut out = Vec::new();
    p.draw(&mut out, 11, 26, true);
    // 16 × 5 mount, 20 hatch marks, then 4 shapes
    assert_eq!(out.len(), 80 + 20 + 4);
    assert_eq!(out[0], px(56, 1, true));
    assert_eq!(out[15], px(71, 1, true));
    assert_eq!(out[16], px(56, 2, true));
    assert_eq!(out[79], px(71, 5, true));
    let hatch: Vec<(i32, i32)> = vec![
        (56, 1), (56, 5), (57, 4), (58, 3), (59, 2), (60, 1), (60, 5), (61, 4), (62, 3),
        (63, 2), (64, 1), (64, 5), (65, 4), (66, 3), (67, 2), (68, 1), (68, 5), (69, 4),
        (70, 3), (71, 2),
    ];
    for (k, (x, y)) in hatch.iter().enumerate() {
        assert_eq!(out[80 + k], px(*x, *y, false));
    }
    assert_eq!(out[100], ln(55, 6, 73, 6, true));
    assert_eq!(out[101], ln(64, 6, 75, 32, true));
    assert_eq!(out[102], Shape::Disk { cx: 64, cy: 6, r: 1, on: true });
    assert_eq!(out[103], Shape::Disk { cx: 75, cy: 32, r: 3, on: true });
}

#[test]
fn pendulum_erase_clears_drawing() {
    let p = Pendulum::with_wall(32, 10, 30, 20, 8);
    let mut drawn = Vec::new();
    p.draw(&mut drawn, -12, 27, true);
    let mut erased = Vec::new();
    p.erase(&mut erased, -12, 27);
    assert_eq!(erased, cleared(&drawn));
    assert!(all_off(&erased));
}

#[test]
fn pendulum_erase_leaves_no_hatch_lit() {
    let p = Pendulum::new(64, 6, 28);
    let mut erased = Vec::new();
    p.erase(&mut erased, 11, 26);
    assert!(all_off(&erased));
    // the first hatch mark of the wall, (56, 1), is cleared
    assert!(erased.contains(&px(56, 1, false)));
    assert!(!erased.contains(&px(56, 1, true)));
    for x in 56..72 {
        for y in 1..6 {
            assert!(erased.contains(&px(x, y, false)));
        }
    }
}

#[test]
fn pendulum_overflow_is_refused() {
    let p = Pendulum::new(i32::MAX, 6, 28);
    assert!(!p.can_draw(1, 0));
    let q = Pendulum::with_wall(0, 0, 5, i32::MAX, 4);
    assert!(!q.can_draw(0, 5));
}

// ───────────────────────────── piston ─────────────────────────────

#[test]
fn piston_new_defaults() {
    let p = Piston::new(64, 10, 20, 40);
    assert_eq!((p.cx, p.cy, p.w, p.h, p.piston_h, p.pos), (64, 10, 20, 40, 6, 0));
}

#[test]
fn piston_set_pos_clamps_to_travel() {
    let mut p = Piston::new(64, 10, 20, 40);
    p.set_pos(20);
    assert_eq!(p.pos, 20);
    p.set_pos(100);
    assert_eq!(p.pos, 34);
    p.set_pos(-3);
    assert_eq!(p.pos, 0);
    p.set_pos(34);
    assert_eq!(p.pos, 34);
    // set twice, same as once
    p.set_pos(77);
    let once = p.pos;
    p.set_pos(77);
    assert_eq!(p.pos, once);
}

#[test]
fn piston_draw_paints_chamber_piston_rod() {
    let mut p = Piston::new(64, 10, 20, 40);
    p.set_pos(20);
    assert!(p.can_draw());
    let mut out = Vec::new();
    p.draw(&mut out, true);
    assert_eq!(out.len(), 4 + 16 * 6 + 2);
    assert_eq!(out[0], ln(54, 10, 74, 10, true));
    assert_eq!(out[1], ln(54, 50, 74, 50, true));
    assert_eq!(out[2], ln(54, 10, 54, 50, true));
    assert_eq!(out[3], ln(74, 10, 74, 50, true));
    assert_eq!(out[4], px(56, 30, true));
    assert_eq!(out[4 + 95], px(71, 35, true));
    assert_eq!(out[100], ln(64, 33, 64, 50, true));
    assert_eq!(out[101], ln(54, 50, 74, 50, true));
}

#[test]
fn piston_draw_clamps_stored_position() {
    // a position outside the travel, set directly, is drawn clamped
    let mut p = Piston::new(0, 0, 10, 20);
    p.pos = 99;
    let mut out = Vec::new();
    p.draw(&mut out, true);
    // left wall at -5, y = 0 + (20 - 6)
    assert_eq!(out[4], px(-3, 14, true));
}

#[test]
fn piston_erase_clears_drawing() {
    let p = Piston::new(64, 10, 20, 40);
    let mut drawn = Vec::new();
    p.draw(&mut drawn, true);
    let mut erased = Vec::new();
    p.erase(&mut erased);
    assert_eq!(erased, cleared(&drawn));
    assert!(all_off(&erased));
}

#[test]
fn piston_empty_travel_cannot_be_drawn() {
    let p = Piston::new(64, 10, 20, 4);
    assert!(!p.can_draw());
}

// ───────────────────────────── spring–mass ─────────────────────────────

#[test]
fn spring_new_and_with_coils() {
    let s = SpringMass::new(64, 4, 22, 12);
    assert_eq!((s.anchor_x, s.anchor_y, s.rest_len, s.block_w, s.coils, s.amplitude), (64, 4, 22, 12, 6, 4));
    let t = s.with_coils(8, 6);
    assert_eq!((t.anchor_x, t.anchor_y, t.rest_len, t.block_w, t.coils, t.amplitude), (64, 4, 22, 12, 8, 6));
}

#[test]
fn spring_stretched_by_six() {
    let s = SpringMass::new(64, 4, 22, 12);
    assert!(s.can_draw(6));
    let mut out = Vec::new();
    s.draw(&mut out, 6, true);
    assert_eq!(out.len(), 5 + 1 + 7 + 1 + 12 * 6);
    // anchor line: 5 pixels centred on x = 64
    for k in 0..5 {
        assert_eq!(out[k], px(62 + k as i32, 4, true));
    }
    assert_eq!(out[5], ln(64, 4, 64, 6, true));
    let zig = [
        ln(64, 6, 68, 10, true),
        ln(68, 10, 60, 14, true),
        ln(60, 14, 68, 18, true),
        ln(68, 18, 60, 22, true),
        ln(60, 22, 68, 26, true),
        ln(68, 26, 60, 30, true),
        ln(60, 30, 64, 30, true),
    ];
    assert_eq!(&out[6..13], &zig[..]);
    assert_eq!(out[13], ln(64, 30, 64, 32, true));
    // mass block: 12 columns (x 58..=69), 6 rows (y 32..=37)
    assert_eq!(out[14], px(58, 32, true));
    assert_eq!(out[14 + 11], px(69, 32, true));
    assert_eq!(out[14 + 12], px(58, 33, true));
    assert_eq!(out[14 + 71], px(69, 37, true));
}

#[test]
fn spring_at_rest_block_is_block_w_wide() {
    let s = SpringMass::new(64, 4, 22, 12);
    let mut out = Vec::new();
    s.draw(&mut out, 0, true);
    let block: Vec<Shape> = out[14..].to_vec();
    assert_eq!(block.len(), 12 * 6);
    for (k, shape) in block.iter().enumerate() {
        assert_eq!(*shape, px(58 + (k % 12) as i32, 26 + (k / 12) as i32, true));
    }
    let row4: Vec<&Shape> = out.iter().filter(|s| matches!(s, Shape::Pixel { y: 4, .. })).collect();
    assert_eq!(row4.len(), 5);
    // an odd width is centred exactly
    let odd = SpringMass::new(64, 4, 22, 13);
    let mut out = Vec::new();
    odd.draw(&mut out, 0, true);
    assert_eq!(out[14], px(58, 26, true));
    assert_eq!(out[14 + 12], px(70, 26, true));
}

#[test]
fn spring_compressed_by_four() {
    let s = SpringMass::new(64, 4, 22, 12);
    let mut out = Vec::new();
    s.draw(&mut out, -4, true);
    let ys: Vec<i32> = out[6..12]
        .iter()
        .map(|l| match *l {
            Shape::Line { y1, .. } => y1,
            _ => panic!("expected a line"),
        })
        .collect();
    assert_eq!(ys, vec![8, 10, 13, 15, 17, 20]);
    assert_eq!(out[12], ln(60, 20, 64, 20, true));
    assert_eq!(out[13], ln(64, 20, 64, 22, true));
}

#[test]
fn spring_never_shorter_than_coils_plus_four() {
    let s = SpringMass::new(64, 4, 22, 12);
    let mut out = Vec::new();
    s.draw(&mut out, -100, true);
    // total length 10: zigzag from 6 to 12, mass at 14
    assert_eq!(out[12], ln(60, 12, 64, 12, true));
    assert_eq!(out[13], ln(64, 12, 64, 14, true));
    assert_eq!(out[14], px(58, 14, true));
}

#[test]
fn spring_without_room_has_no_zigzag() {
    let s = SpringMass::new(10, 0, 0, 2).with_coils(0, 4);
    let mut out = Vec::new();
    s.draw(&mut out, 0, true);
    // total length 4: top = bottom = 2
    assert_eq!(out, vec![
        px(8, 0, true), px(9, 0, true), px(10, 0, true), px(11, 0, true), px(12, 0, true),
        ln(10, 0, 10, 2, true),
        ln(10, 2, 10, 4, true),
        px(9, 4, true), px(10, 4, true),
        px(9, 5, true), px(10, 5, true),
        px(9, 6, true), px(10, 6, true),
        px(9, 7, true), px(10, 7, true),
        px(9, 8, true), px(10, 8, true),
        px(9, 9, true), px(10, 9, true),
    ]);
}

#[test]
fn spring_zigzag_strictly_descends() {
    let s = SpringMass::new(64, 4, 4, 12).with_coils(8, 3);
    let mut out = Vec::new();
    s.draw(&mut out, 0, true);
    // total length 12 = coils + 4: 8 rows for 8 half-turns
    let ys: Vec<i32> = out[6..14]
        .iter()
        .map(|l| match *l {
            Shape::Line { y1, .. } => y1,
            _ => panic!("expected a line"),
        })
        .collect();
    assert!(ys.windows(2).all(|w| w[0] < w[1]));
    assert_eq!(*ys.last().unwrap(), 14);
}

#[test]
fn spring_erase_clears_drawing() {
    let s = SpringMass::new(64, 4, 22, 12).with_coils(8, 6);
    let mut drawn = Vec::new();
    s.draw(&mut drawn, 3, true);
    let mut erased = Vec::new();
    s.erase(&mut erased, 3);
    assert_eq!(erased, cleared(&drawn));
    assert!(all_off(&erased));
}

#[test]
fn spring_overflow_is_refused() {
    let s = SpringMass::new(0, i32::MAX - 10, 22, 12);
    assert!(!s.can_draw(0));
    let t = SpringMass::new(0, 0, i32::MAX, 2).with_coils(1000, 4);
    assert!(!t.can_draw(0));
}

// ───────────────────────────── compass ─────────────────────────────

#[test]
fn compass_lengths() {
    let c = Compass::new(112, 32, 14);
    assert_eq!((c.cx, c.cy, c.radius), (112, 32, 14));
    assert_eq!(c.needle_len(), 11);
    assert_eq!(c.tail_len(), 6);
    assert_eq!(Compass::new(0, 0, -7).tail_len(), -4);
}

#[test]
fn compass_north_east() {
    let c = Compass::new(112, 32, 14);
    assert!(c.can_draw(8, 8, 4, 4));
    let mut out = Vec::new();
    c.draw(&mut out, 8, 8, 4, 4, true);
    assert_eq!(out, vec![
        Shape::Circle { cx: 112, cy: 32, r: 14, on: true },
        px(112, 20, true),
        px(124, 32, true),
        px(112, 44, true),
        px(100, 32, true),
        ln(112, 32, 120, 24, true),
        ln(112, 33, 120, 25, true),
        ln(112, 32, 108, 36, true),
        Shape::Disk { cx: 112, cy: 32, r: 1, on: true },
    ]);
}

#[test]
fn compass_north_thickens_sideways() {
    let c = Compass::new(112, 32, 14);
    let mut out = Vec::new();
    c.draw(&mut out, 0, 11, 0, 6, true);
    assert_eq!(out[5], ln(112, 32, 112, 21, true));
    assert_eq!(out[6], ln(113, 32, 113, 21, true));
    assert_eq!(out[7], ln(112, 32, 112, 38, true));
}

#[test]
fn compass_erase_clears_drawing() {
    let c = Compass::new(20, 20, 10);
    let mut drawn = Vec::new();
    c.draw(&mut drawn, -5, 3, 2, -1, true);
    let mut erased = Vec::new();
    c.erase(&mut erased, -5, 3, 2, -1);
    assert_eq!(erased, cleared(&drawn));
    assert!(all_off(&erased));
}

// ───────────────────────────── gear ─────────────────────────────

fn outline(k: i32) -> ToothOutline {
    ToothOutline {
        base_left: (10, k),
        base_right: (10, k + 1),
        tip_left: (14, k),
        tip_right: (14, k + 1),
        arc: vec![(10, k + 2), (9, k + 3)],
    }
}

#[test]
fn gear_new_and_outer_radius() {
    let g = Gear::new(40, 32, 14, 10, 4, 70, 4);
    assert_eq!((g.cx, g.cy, g.pitch_r, g.teeth, g.tooth_h, g.tooth_w_pct, g.hub_r), (40, 32, 14, 10, 4, 70, 4));
    assert_eq!(g.outer_r(), 18);
}

#[test]
fn gear_tooth_width_is_clamped() {
    assert_eq!(Gear::new(0, 0, 10, 8, 3, 150, 2).tooth_w_pct, 99);
    assert_eq!(Gear::new(0, 0, 10, 8, 3, -5, 2).tooth_w_pct, 1);
    assert_eq!(Gear::new(0, 0, 10, 8, 3, 1, 2).tooth_w_pct, 1);
    assert_eq!(Gear::new(0, 0, 10, 8, 3, 99, 2).tooth_w_pct, 99);
}

#[test]
fn gear_with_two_teeth_draws_nothing() {
    let g = Gear::new(40, 32, 14, 2, 4, 70, 4);
    let mut out = Vec::new();
    g.draw(&mut out, &Vec::new(), true);
    assert!(out.is_empty());
}

#[test]
fn gear_draws_body_teeth_and_hub() {
    let g = Gear::new(40, 32, 14, 3, 4, 70, 4);
    let outlines = vec![outline(0), outline(5), outline(-7)];
    assert!(g.can_draw(&outlines));
    let mut out = Vec::new();
    g.draw(&mut out, &outlines, true);
    assert_eq!(out.len(), 1 + 3 * 5 + 2);
    assert_eq!(out[0], Shape::Circle { cx: 40, cy: 32, r: 14, on: true });
    assert_eq!(out[1], ln(50, 32, 54, 32, true));
    assert_eq!(out[2], ln(50, 33, 54, 33, true));
    assert_eq!(out[3], ln(54, 32, 54, 33, true));
    assert_eq!(out[4], px(50, 34, true));
    assert_eq!(out[5], px(49, 35, true));
    assert_eq!(out[6], ln(50, 37, 54, 37, true));
    assert_eq!(out[11], ln(50, 25, 54, 25, true));
    assert_eq!(out[16], Shape::Circle { cx: 40, cy: 32, r: 4, on: true });
    assert_eq!(out[17], px(40, 32, true));
}

#[test]
fn gear_solid_hub_is_a_disk() {
    let g = Gear::new(40, 32, 14, 3, 4, 70, 0);
    let outlines = vec![outline(0), outline(1), outline(2)];
    let mut out = Vec::new();
    g.draw(&mut out, &outlines, true);
    assert_eq!(*out.last().unwrap(), Shape::Disk { cx: 40, cy: 32, r: 2, on: true });
}

#[test]
fn gear_erase_clears_drawing() {
    let g = Gear::new(40, 32, 14, 3, 4, 70, 4);
    let outlines = vec![outline(0), outline(5), outline(-7)];
    let mut drawn = Vec::new();
    g.draw(&mut drawn, &outlines, true);
    let mut erased = Vec::new();
    g.erase(&mut erased, &outlines);
    assert_eq!(erased, cleared(&drawn));
    assert!(all_off(&erased));
}

#[test]
fn gear_outline_count_must_match() {
    let g = Gear::new(40, 32, 14, 4, 4, 70, 4);
    assert!(!g.can_draw(&vec![outline(0), outline(1), outline(2)]));
    let h = Gear::new(i32::MAX, 32, 14, 3, 4, 70, 4);
    assert!(!h.can_draw(&vec![outline(0), outline(1), outline(2)]));
}

#[test]
fn gears_mesh_at_sum_of_pitch_radii() {
    let g1 = Gear::new(30, 32, 12, 8, 4, 70, 3);
    let g2 = Gear::new(0, 0, 18, 12, 4, 70, 5);
    assert_eq!(g1.mesh_distance(&g2), 30);
    let m = g1.mesh(g2, 30, 0);
    assert_eq!((m.cx, m.cy), (60, 32));
    assert_eq!((m.pitch_r, m.teeth, m.tooth_h, m.tooth_w_pct, m.hub_r), (18, 12, 4, 70, 5));
}

// ───────────────────────────── robotic arm ─────────────────────────────

#[test]
fn arm_new_and_builders() {
    let a = RoboticArm::new(64, 63, 20, 18);
    assert_eq!(
        (a.base_x, a.base_y, a.seg1_len, a.seg2_len, a.wall_w, a.wall_h, a.gripper_len, a.gripper_thickness),
        (64, 63, 20, 18, 20, 6, 10, 2)
    );
    let b = RoboticArm::new(32, 60, 18, 16).with_wall(24, 8).with_gripper(12, 3);
    assert_eq!(
        (b.base_x, b.base_y, b.seg1_len, b.seg2_len, b.wall_w, b.wall_h, b.gripper_len, b.gripper_thickness),
        (32, 60, 18, 16, 24, 8, 12, 3)
    );
}

#[test]
fn arm_tip_size_is_at_least_two() {
    assert_eq!(RoboticArm::new(0, 0, 1, 1).with_gripper(10, 1).tip_size(), 2);
    assert_eq!(RoboticArm::new(0, 0, 1, 1).with_gripper(10, 5).tip_size(), 5);
}

#[test]
fn facing_compares() {
    assert_eq!(Facing::Left, Facing::Left);
    assert_ne!(Facing::Left, Facing::Right);
}

fn sample_pose() -> ArmPose {
    ArmPose { elbow: (0, -19), end: (5, -16), body: (1, -2), gap: (2, 0), rod: (3, -9), tip: (2, 1) }
}

#[test]
fn arm_draw_paints_base_limbs_and_gripper() {
    let a = RoboticArm::new(64, 63, 20, 18);
    let p = sample_pose();
    assert!(a.can_draw(p));
    let mut out = Vec::new();
    a.draw(&mut out, p, true);
    assert_eq!(out.len(), 120 + 30 + 1 + 7 + 6);
    assert_eq!(out[0], px(54, 57, true));
    assert_eq!(out[119], px(73, 62, true));
    assert_eq!(out[120], px(54, 57, false));
    assert_eq!(out[121], px(54, 61, false));
    assert_eq!(out[150], ln(50, 63, 78, 63, true));
    assert_eq!(&out[151..], &[
        ln(64, 57, 64, 38, true),
        ln(65, 57, 65, 38, true),
        ln(64, 38, 69, 22, true),
        ln(65, 38, 70, 22, true),
        Shape::Disk { cx: 64, cy: 57, r: 3, on: true },
        Shape::Disk { cx: 64, cy: 38, r: 3, on: true },
        Shape::Disk { cx: 69, cy: 22, r: 2, on: true },
        ln(69, 22, 70, 20, true),
        ln(72, 20, 68, 20, true),
        ln(72, 20, 75, 11, true),
        ln(68, 20, 71, 11, true),
        ln(77, 12, 73, 10, true),
        ln(73, 12, 69, 10, true),
    ][..]);
}

#[test]
fn arm_erase_clears_drawing() {
    let a = RoboticArm::new(32, 60, 18, 16).with_wall(24, 8).with_gripper(12, 2);
    let p = sample_pose();
    let mut drawn = Vec::new();
    a.draw(&mut drawn, p, true);
    let mut erased = Vec::new();
    a.erase(&mut erased, p);
    assert_eq!(erased, cleared(&drawn));
    assert!(all_off(&erased));
}

#[test]
fn arm_erase_leaves_no_hatch_lit() {
    let a = RoboticArm::new(64, 63, 20, 18);
    let mut erased = Vec::new();
    a.erase(&mut erased, sample_pose());
    assert!(all_off(&erased));
    assert!(!erased.contains(&px(54, 57, true)));
    for x in 54..74 {
        for y in 57..63 {
            assert!(erased.contains(&px(x, y, false)));
        }
    }
}

#[test]
fn arm_overflow_is_refused() {
    let a = RoboticArm::new(i32::MAX - 5, 63, 20, 18);
    assert!(!a.can_draw(sample_pose()));
}
