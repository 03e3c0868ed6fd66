//! Drawing commands.
//!
//! Every physical object of this crate describes its picture as a sequence of
//! [`Shape`]s: pixels, lines, circle outlines and filled disks, in the order
//! in which they are painted.  A graphics back end (the SSD1306 graphics layer)
//! executes them one by one; painting a shape with `on == false` clears it.
use vstd::prelude::*;

verus! {

/// One primitive drawing command, with screen coordinates in pixels
/// (X grows to the right, Y grows downwards).
#[derive(Clone, Copy, Debug, PartialEq, Eq, Structural)]
pub enum Shape {
    /// A single pixel, lit (`on`) or cleared.
    Pixel { x: i32, y: i32, on: bool },
    /// A straight line from `(x0, y0)` to `(x1, y1)`, both ends included.
    Line { x0: i32, y0: i32, x1: i32, y1: i32, on: bool },
    /// The outline of a circle of radius `r` centred on `(cx, cy)`.
    Circle { cx: i32, cy: i32, r: i32, on: bool },
    /// A filled disk of radius `r` centred on `(cx, cy)`.
    Disk { cx: i32, cy: i32, r: i32, on: bool },
}

impl Shape {
    /// The colour the shape is painted with (`true` lights pixels).
    pub open spec fn colour(self) -> bool {
        match self {
            Shape::Pixel { on, .. } => on,
            Shape::Line { on, .. } => on,
            Shape::Circle { on, .. } => on,
            Shape::Disk { on, .. } => on,
        }
    }

    /// The same shape painted with colour `on`.
    pub open spec fn with_colour(self, on: bool) -> Shape {
        match self {
            Shape::Pixel { x, y, .. } => Shape::Pixel { x, y, on },
            Shape::Line { x0, y0, x1, y1, .. } => Shape::Line { x0, y0, x1, y1, on },
            Shape::Circle { cx, cy, r, .. } => Shape::Circle { cx, cy, r, on },
            Shape::Disk { cx, cy, r, .. } => Shape::Disk { cx, cy, r, on },
        }
    }
}

/// Every shape of `s`, in the same order, painted off (cleared).
pub open spec fn cleared_all(s: Seq<Shape>) -> Seq<Shape> {
    s.map_values(|sh: Shape| sh.with_colour(false))
}

/// `v` is representable as an `i32`.
pub open spec fn fits(v: int) -> bool {
    i32::MIN <= v <= i32::MAX
}

/// Rust's `v / 2` on signed integers: the quotient rounded toward zero.
pub open spec fn half(v: int) -> int {
    if v >= 0 {
        v / 2
    } else {
        -((-v) / 2)
    }
}

/// Absolute value.
pub open spec fn abs(v: int) -> int {
    if v < 0 {
        -v
    } else {
        v
    }
}

/// A pixel at `(x, y)`.
pub open spec fn pixel_at(x: int, y: int, on: bool) -> Shape {
    Shape::Pixel { x: x as i32, y: y as i32, on }
}

/// A line from `(x0, y0)` to `(x1, y1)`.
pub open spec fn line_between(x0: int, y0: int, x1: int, y1: int, on: bool) -> Shape {
    Shape::Line { x0: x0 as i32, y0: y0 as i32, x1: x1 as i32, y1: y1 as i32, on }
}

/// A circle outline of radius `r` around `(cx, cy)`.
pub open spec fn circle_at(cx: int, cy: int, r: int, on: bool) -> Shape {
    Shape::Circle { cx: cx as i32, cy: cy as i32, r: r as i32, on }
}

/// A filled disk of radius `r` around `(cx, cy)`.
pub open spec fn disk_at(cx: int, cy: int, r: int, on: bool) -> Shape {
    Shape::Disk { cx: cx as i32, cy: cy as i32, r: r as i32, on }
}

/// Clearing a concatenation clears each part.
pub proof fn lemma_cleared_concat(a: Seq<Shape>, b: Seq<Shape>)
    ensures
        cleared_all(a + b) == cleared_all(a) + cleared_all(b),
{
    assert(cleared_all(a + b) =~= cleared_all(a) + cleared_all(b));
}

/// Every command of a cleared sequence is painted off.
pub proof fn lemma_cleared_all_off(a: Seq<Shape>)
    ensures
        cleared_all(a).len() == a.len(),
        forall|k: int| 0 <= k < a.len() ==> !(#[trigger] cleared_all(a)[k]).colour(),
{
    assert forall|k: int| 0 <= k < a.len() implies !(#[trigger] cleared_all(a)[k]).colour() by {
        match a[k] {
            Shape::Pixel { .. } => {},
            Shape::Line { .. } => {},
            Shape::Circle { .. } => {},
            Shape::Disk { .. } => {},
        }
    }
}

} // verus!
