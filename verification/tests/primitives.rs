use ssd1306_physics::draw_utils::{filled_disk, filled_rect, hatch, plot_offsets, ring, segment, thick_segment};
use ssd1306_physics::shape::Shape;

fn px(x: i32, y: i32, on: bool) -> Shape {
    Shape::Pixel { x, y, on }
}

#[test]
fn segment_disk_ring_append_one_command() {
    let mut out = vec![px(0, 0, true)];
    segment(&mut out, 1, 2, 3, 4, true);
    filled_disk(&mut out, 5, 6, 7, false);
    ring(&mut out, 8, 9, 10, true);
    assert_eq!(out, vec![
        px(0, 0, true),
        Shape::Line { x0: 1, y0: 2, x1: 3, y1: 4, on: true },
        Shape::Disk { cx: 5, cy: 6, r: 7, on: false },
        Shape::Circle { cx: 8, cy: 9, r: 10, on: true },
    ]);
}

#[test]
fn filled_rect_row_by_row() {
    let mut out = Vec::new();
    filled_rect(&mut out, 10, 20, 3, 2, true);
    assert_eq!(out, vec![
        px(10, 20, true), px(11, 20, true), px(12, 20, true),
        px(10, 21, true), px(11, 21, true), px(12, 21, true),
    ]);
}

#[test]
fn filled_rect_empty_sizes() {
    let mut out = Vec::new();
    filled_rect(&mut out, 10, 20, 0, 5, true);
    filled_rect(&mut out, 10, 20, 5, -1, true);
    filled_rect(&mut out, 10, 20, -3, 4, true);
    assert!(out.is_empty());
}

#[test]
fn hatch_clears_every_fourth_diagonal() {
    let mut out = Vec::new();
    hatch(&mut out, 0, 0, 5, 3);
    assert_eq!(out, vec![
        px(0, 0, false),
        px(2, 2, false), px(3, 1, false), px(4, 0, false),
    ]);
    // every mark is inside the block, on a diagonal multiple of 4
    let mut big = Vec::new();
    hatch(&mut big, 7, 3, 13, 9);
    for s in &big {
        match *s {
            Shape::Pixel { x, y, on } => {
                assert!(!on);
                assert!((7..20).contains(&x) && (3..12).contains(&y));
                assert_eq!((x - 7 + y - 3) % 4, 0);
            }
            _ => panic!("hatch paints pixels only"),
        }
    }
    let expected = (0..13)
        .flat_map(|dx| (0..9).map(move |dy| (dx, dy)))
        .filter(|(dx, dy)| (dx + dy) % 4 == 0)
        .count();
    assert_eq!(big.len(), expected);
}

#[test]
fn hatch_of_empty_block_is_empty() {
    let mut out = Vec::new();
    hatch(&mut out, 0, 0, 0, 0);
    hatch(&mut out, 0, 0, -4, 2);
    assert!(out.is_empty());
}

#[test]
fn thick_segment_offsets_across_dominant_direction() {
    let mut out = Vec::new();
    thick_segment(&mut out, 0, 0, 10, 3, true);
    thick_segment(&mut out, 0, 0, 3, -10, true);
    thick_segment(&mut out, 5, 5, 1, 1, false);
    assert_eq!(out, vec![
        Shape::Line { x0: 0, y0: 0, x1: 10, y1: 3, on: true },
        Shape::Line { x0: 0, y0: 1, x1: 10, y1: 4, on: true },
        Shape::Line { x0: 0, y0: 0, x1: 3, y1: -10, on: true },
        Shape::Line { x0: 1, y0: 0, x1: 4, y1: -10, on: true },
        Shape::Line { x0: 5, y0: 5, x1: 1, y1: 1, on: false },
        Shape::Line { x0: 5, y0: 6, x1: 1, y1: 2, on: false },
    ]);
}

#[test]
fn plot_offsets_relative_to_centre() {
    let mut out = Vec::new();
    plot_offsets(&mut out, 40, 30, &vec![(1, 2), (-3, 4)], true);
    assert_eq!(out, vec![px(41, 32, true), px(37, 34, true)]);
}
