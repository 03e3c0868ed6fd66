//! Vertical spring–mass system.
//!
//! The spring hangs from its anchor (`anchor_x`, `anchor_y`) and extends
//! downwards; the mass is a filled block drawn under the spring.  The spring is
//! an integer zigzag alternating ±`amplitude` around the anchor's vertical.
//!
//! ```text
//!  ─── anchor (horizontal line, 5 px)
//!   |   ← straight top part, 2 px
//!  /\/\/\/  ← zigzag (`coils` half-turns, amplitude ±`amplitude` px)
//!   |   ← straight bottom part, 2 px
//!  ┌───────┐ ← mass block (`block_w` px wide, 6 px high)
//!  └───────┘
//! ```
use vstd::prelude::*;
use vstd::arithmetic::div_mod::{lemma_div_is_ordered, lemma_div_by_multiple, lemma_div_plus_one};
use vstd::arithmetic::mul::lemma_mul_inequality;
use crate::shape::{Shape, fits, half, line_between, cleared_all, lemma_cleared_concat, lemma_cleared_all_off};
use crate::draw_utils::{filled_rect, segment, rect_pixels, lemma_rect_pixels_cleared, lemma_rect_pixels_cover};

verus! {

/// Vertical spring–mass system.
#[derive(Clone, Copy, Debug)]
pub struct SpringMass {
    /// X of the anchor point (middle).
    pub anchor_x: i32,
    /// Y of the anchor point (top of the spring).
    pub anchor_y: i32,
    /// Length of the spring at rest, in pixels.
    pub rest_len: i32,
    /// Width of the mass block, in pixels.
    pub block_w: i32,
    /// Number of half-turns of the zigzag.
    pub coils: i32,
    /// Half-width (±pixels) of the zigzag's teeth.
    pub amplitude: i32,
}

impl SpringMass {
    /// Builds a spring–mass system with 6 half-turns of amplitude 4.
    pub fn new(anchor_x: i32, anchor_y: i32, rest_len: i32, block_w: i32) -> (s: Self)
        ensures
            s == (SpringMass { anchor_x, anchor_y, rest_len, block_w, coils: 6, amplitude: 4 }),
    {
        SpringMass { anchor_x, anchor_y, rest_len, block_w, coils: 6, amplitude: 4 }
    }

    /// The same system with a custom number of half-turns and amplitude.
    pub fn with_coils(self, coils: i32, amplitude: i32) -> (s: Self)
        ensures
            s == (SpringMass { coils, amplitude, ..self }),
    {
        let mut s = self;
        s.coils = coils;
        s.amplitude = amplitude;
        s
    }

    /// Length of the spring for a signed `extension` (positive stretches, negative
    /// compresses), never shorter than `coils + 4`.
    pub open spec fn total_len(self, extension: i32) -> int {
        let stretched = self.rest_len + extension;
        if stretched >= self.coils + 4 {
            stretched
        } else {
            self.coils + 4
        }
    }

    /// Top of the zigzag, 2 pixels under the anchor.
    pub open spec fn spring_top(self) -> int {
        self.anchor_y + 2
    }

    /// Bottom of the zigzag, 2 pixels above the mass.
    pub open spec fn spring_bot(self, extension: i32) -> int {
        self.anchor_y + self.total_len(extension) - 2
    }

    /// Top of the mass block.
    pub open spec fn mass_top(self, extension: i32) -> int {
        self.anchor_y + self.total_len(extension)
    }

    /// Corner `i` of the zigzag between `top` and `top + h`: corner 0 is the
    /// top of the spring on the axis; corner `i > 0` is `amplitude` to the right
    /// for odd `i`, to the left for even `i`, at height `top + h·i / coils`.
    pub open spec fn coil_point(self, top: int, h: int, i: int) -> (int, int) {
        if i == 0 {
            (self.anchor_x as int, top)
        } else {
            (
                if i % 2 == 1 {
                    self.anchor_x + self.amplitude
                } else {
                    self.anchor_x - self.amplitude
                },
                top + h * i / (self.coils as int),
            )
        }
    }

    /// Number of zigzag teeth actually drawn.
    pub open spec fn teeth(self) -> int {
        if self.coils > 0 {
            self.coils as int
        } else {
            0
        }
    }

    /// The zigzag's first `n` lines, from corner to corner.
    pub open spec fn coil_lines(self, top: int, h: int, n: int, on: bool) -> Seq<Shape> {
        Seq::new(
            if n > 0 { n as nat } else { 0 },
            |k: int|
                {
                    let a = self.coil_point(top, h, k);
                    let b = self.coil_point(top, h, k + 1);
                    line_between(a.0, a.1, b.0, b.1, on)
                },
        )
    }

    /// The zigzag from `top` to `bot`: the lines between consecutive corners,
    /// then a line from the last corner back to the axis at `bot`.
    pub open spec fn zigzag(self, top: int, bot: int, on: bool) -> Seq<Shape> {
        let h = bot - top;
        let last = self.coil_point(top, h, self.teeth());
        self.coil_lines(top, h, self.teeth(), on).push(
            line_between(last.0, last.1, self.anchor_x as int, bot, on),
        )
    }

    /// Left edge of the mass block: `block_w` pixels wide, centred on the axis.
    pub open spec fn block_left(self) -> int {
        self.anchor_x - half(self.block_w as int)
    }

    /// What [`SpringMass::draw`] paints, in order: the 5-pixel anchor line centred on
    /// the axis, the straight top part, the zigzag (only when there is room for it),
    /// the straight bottom part and the mass block, `block_w` pixels wide and 6
    /// pixels high.
    pub open spec fn shapes(self, extension: i32, on: bool) -> Seq<Shape> {
        let top = self.spring_top();
        let bot = self.spring_bot(extension);
        let mass_top = self.mass_top(extension);
        rect_pixels(self.anchor_x - 2, self.anchor_y as int, 5, 1, on) + seq![
            line_between(self.anchor_x as int, self.anchor_y as int, self.anchor_x as int, top, on),
        ] + (if bot > top {
            self.zigzag(top, bot, on)
        } else {
            seq![]
        }) + seq![line_between(self.anchor_x as int, bot, self.anchor_x as int, mass_top, on)]
            + rect_pixels(self.block_left(), mass_top, self.block_w as int, 6, on)
    }

    /// Every value [`SpringMass::draw`] computes fits in an `i32`.
    pub open spec fn drawable(self, extension: i32) -> bool {
        let hw = half(self.block_w as int);
        let top = self.spring_top();
        let bot = self.spring_bot(extension);
        &&& fits(self.rest_len + extension)
        &&& fits(self.coils + 4)
        &&& fits(self.anchor_x - 2)
        &&& fits(self.anchor_x + 2)
        &&& fits(top)
        &&& fits(self.mass_top(extension))
        &&& fits(bot)
        &&& (bot > top && self.coils >= 1) ==> fits((bot - top) * self.coils) && fits(
            self.anchor_x + self.amplitude,
        )
        &&& (bot > top && self.coils >= 2) ==> fits(self.anchor_x - self.amplitude)
        &&& self.block_w > 0 ==> fits(self.block_left()) && fits(self.block_left() + self.block_w - 1)
            && fits(self.mass_top(extension) + 5)
    }

    /// Whether [`SpringMass::draw`] can run for `extension` without overflowing.
    pub fn can_draw(&self, extension: i32) -> (r: bool)
        ensures
            r == self.drawable(extension),
    {
        let lo = i32::MIN as i64;
        let hi = i32::MAX as i64;
        let stretched = self.rest_len as i64 + extension as i64;
        let min_len = self.coils as i64 + 4;
        if !(lo <= stretched && stretched <= hi && min_len <= hi) {
            return false;
        }
        let total = if stretched >= min_len {
            stretched
        } else {
            min_len
        };
        let hw = self.block_w as i64 / 2;
        assert(hw == half(self.block_w as int));
        let ax = self.anchor_x as i64;
        let ay = self.anchor_y as i64;
        let top = ay + 2;
        let mass_top = ay + total;
        let bot = mass_top - 2;
        if !(lo <= mass_top && mass_top <= hi && lo <= bot && bot <= hi && top <= hi) {
            return false;
        }
        let anchor_ok = lo <= ax - 2 && ax + 2 <= hi;
        let bw = self.block_w as i64;
        let block_ok = bw <= 0 || (lo <= ax - hw && ax - hw <= hi && ax - hw + bw - 1 <= hi
            && mass_top + 5 <= hi);
        let c = self.coils as i64;
        let amp = self.amplitude as i64;
        let mut zig_ok = true;
        if bot > top && c >= 1 {
            let h = bot - top;
            assert(0 < h <= hi - lo);
            assert(1 <= c <= hi);
            assert(h * c <= (hi - lo) * hi) by (nonlinear_arith)
                requires
                    0 < h <= hi - lo,
                    1 <= c <= hi,
            ;
            let prod = h * c;
            zig_ok = prod <= hi && ax + amp <= hi && lo <= ax + amp;
            if c >= 2 {
                zig_ok = zig_ok && lo <= ax - amp && ax - amp <= hi;
            }
        }
        anchor_ok && block_ok && zig_ok
    }

    /// Appends the zigzag between `top` and `bot` (`bot > top`).
    fn draw_zigzag(&self, out: &mut Vec<Shape>, spring_top: i32, spring_bot: i32, on: bool)
        requires
            spring_bot > spring_top,
            fits(spring_bot - spring_top),
            self.coils >= 1 ==> fits((spring_bot - spring_top) * self.coils) && fits(
                self.anchor_x + self.amplitude,
            ),
            self.coils >= 2 ==> fits(self.anchor_x - self.amplitude),
        ensures
            final(out)@ == old(out)@ + self.zigzag(spring_top as int, spring_bot as int, on),
    {
        let ghost start = out@;
        let h = spring_bot - spring_top;
        let mut prev_x = self.anchor_x;
        let mut prev_y = spring_top;
        let mut k: i32 = 0;
        while k < self.coils
            invariant
                spring_bot > spring_top,
                self.coils >= 1 ==> fits((spring_bot - spring_top) * self.coils) && fits(
                    self.anchor_x + self.amplitude,
                ),
                self.coils >= 2 ==> fits(self.anchor_x - self.amplitude),
                h == spring_bot - spring_top,
                0 <= k,
                k <= self.coils || k == 0,
                (prev_x as int, prev_y as int) == self.coil_point(spring_top as int, h as int, k as int),
                out@ == start + self.coil_lines(spring_top as int, h as int, k as int, on),
            decreases self.coils - k,
        {
            let i = k + 1;
            assert(h * i <= h * self.coils) by (nonlinear_arith)
                requires
                    h > 0,
                    0 < i <= self.coils,
            ;
            assert(h * i >= 0) by (nonlinear_arith)
                requires
                    h > 0,
                    0 < i,
            ;
            assert(h * i / (self.coils as int) <= h) by (nonlinear_arith)
                requires
                    h > 0,
                    0 < i <= self.coils,
            ;
            let ny = spring_top + h * i / self.coils;
            let nx = if i % 2 == 1 {
                self.anchor_x + self.amplitude
            } else {
                self.anchor_x - self.amplitude
            };
            segment(out, prev_x, prev_y, nx, ny, on);
            prev_x = nx;
            prev_y = ny;
            k = i;
            assert(out@ =~= start + self.coil_lines(spring_top as int, h as int, k as int, on));
        }
        assert(k == self.teeth());
        segment(out, prev_x, prev_y, self.anchor_x, spring_bot, on);
        assert(out@ =~= start + self.zigzag(spring_top as int, spring_bot as int, on));
    }

    /// Draws the spring–mass system for a signed `extension` in pixels
    /// (positive stretches, negative compresses).
    pub fn draw(&self, out: &mut Vec<Shape>, extension: i32, on: bool)
        requires
            self.drawable(extension),
        ensures
            final(out)@ == old(out)@ + self.shapes(extension, on),
    {
        let ghost start = out@;
        let stretched = self.rest_len + extension;
        let min_len = self.coils + 4;
        let total_len = if stretched >= min_len {
            stretched
        } else {
            min_len
        };
        let hw = self.block_w / 2;

        // anchor line, 5 pixels centred on the axis
        filled_rect(out, self.anchor_x - 2, self.anchor_y, 5, 1, on);

        // straight top part
        let spring_top = self.anchor_y + 2;
        segment(out, self.anchor_x, self.anchor_y, self.anchor_x, spring_top, on);

        // zigzag
        let mass_top = self.anchor_y + total_len;
        let spring_bot = mass_top - 2;
        if spring_bot > spring_top {
            self.draw_zigzag(out, spring_top, spring_bot, on);
        }

        // straight bottom part
        segment(out, self.anchor_x, spring_bot, self.anchor_x, mass_top, on);

        // mass block
        let block_h: i32 = 6;
        if self.block_w > 0 {
            filled_rect(out, self.anchor_x - hw, mass_top, self.block_w, block_h, on);
        }
        assert(out@ =~= start + self.shapes(extension, on));
    }

    /// Erases the system: the same drawing with `on == false`.
    pub fn erase(&self, out: &mut Vec<Shape>, extension: i32)
        requires
            self.drawable(extension),
        ensures
            final(out)@ == old(out)@ + self.shapes(extension, false),
    {
        self.draw(out, extension, false);
    }
}

/// Erasing paints exactly the drawing's commands, each cleared, so every command
/// of the erase is painted off.
pub proof fn lemma_spring_erase_clears(s: SpringMass, extension: i32)
    ensures
        s.shapes(extension, false) == cleared_all(s.shapes(extension, true)),
        forall|k: int| 0 <= k < s.shapes(extension, false).len() ==> !(#[trigger] s.shapes(extension, false)[k]).colour(),
{
    let top = s.spring_top();
    let bot = s.spring_bot(extension);
    let mass_top = s.mass_top(extension);
    let a = rect_pixels(s.anchor_x - 2, s.anchor_y as int, 5, 1, true);
    let b = seq![line_between(s.anchor_x as int, s.anchor_y as int, s.anchor_x as int, top, true)];
    let z = if bot > top {
        s.zigzag(top, bot, true)
    } else {
        seq![]
    };
    let c = seq![line_between(s.anchor_x as int, bot, s.anchor_x as int, mass_top, true)];
    let m = rect_pixels(s.block_left(), mass_top, s.block_w as int, 6, true);
    lemma_cleared_concat(a + b + z + c, m);
    lemma_cleared_concat(a + b + z, c);
    lemma_cleared_concat(a + b, z);
    lemma_cleared_concat(a, b);
    lemma_rect_pixels_cleared(s.anchor_x - 2, s.anchor_y as int, 5, 1, true);
    lemma_rect_pixels_cleared(s.block_left(), mass_top, s.block_w as int, 6, true);
    assert(cleared_all(b) =~= seq![
        line_between(s.anchor_x as int, s.anchor_y as int, s.anchor_x as int, top, false),
    ]);
    assert(cleared_all(c) =~= seq![
        line_between(s.anchor_x as int, bot, s.anchor_x as int, mass_top, false),
    ]);
    if bot > top {
        assert(cleared_all(z) =~= s.zigzag(top, bot, false));
    } else {
        assert(cleared_all(z) =~= z);
    }
    lemma_cleared_all_off(s.shapes(extension, true));
}

/// The spring is never shorter than `coils + 4` pixels, and is exactly
/// `rest_len + extension` long whenever that leaves room for the coils.
pub proof fn lemma_spring_length(s: SpringMass, extension: i32)
    ensures
        s.total_len(extension) >= s.coils + 4,
        s.rest_len + extension >= s.coils + 4 ==> s.total_len(extension) == s.rest_len + extension,
        s.mass_top(extension) - s.anchor_y == s.total_len(extension),
{
}

/// The zigzag's corners alternate right and left of the axis, `amplitude`
/// pixels away, and go down from the top of the spring to its bottom: each
/// corner is at or below the previous one, the last one is level with the
/// bottom.
pub proof fn lemma_zigzag_corners(s: SpringMass, top: int, bot: int, i: int, j: int)
    requires
        bot > top,
        s.coils >= 1,
        0 <= i <= j <= s.coils,
    ensures
        1 <= i ==> s.coil_point(top, bot - top, i).0 == (if i % 2 == 1 {
            s.anchor_x + s.amplitude
        } else {
            s.anchor_x - s.amplitude
        }),
        top <= s.coil_point(top, bot - top, i).1 <= s.coil_point(top, bot - top, j).1 <= bot,
        s.coil_point(top, bot - top, s.coils as int).1 == bot,
{
    let h = bot - top;
    let c = s.coils as int;
    if i >= 1 {
        lemma_mul_inequality(i, j, h);
        lemma_div_is_ordered(h * i, h * j, c);
        assert(h * i >= 0) by (nonlinear_arith)
            requires
                h > 0,
                i >= 1,
        ;
        lemma_mul_inequality(j, c, h);
        lemma_div_is_ordered(h * j, h * c, c);
        lemma_div_by_multiple(h, c);
        assert(h * c == c * h) by (nonlinear_arith);
        assert(i * h == h * i && j * h == h * j && c * h == h * c) by (nonlinear_arith);
        assert((h * i) / c >= 0) by (nonlinear_arith)
            requires
                h * i >= 0,
                c >= 1,
        ;
    } else if j >= 1 {
        lemma_mul_inequality(j, c, h);
        lemma_div_is_ordered(h * j, h * c, c);
        lemma_div_by_multiple(h, c);
        assert(j * h == h * j && c * h == h * c) by (nonlinear_arith);
        assert((h * j) / c >= 0) by (nonlinear_arith)
            requires
                h > 0,
                j >= 1,
                c >= 1,
        ;
    }
    lemma_div_by_multiple(h, c);
    assert(c * h == h * c) by (nonlinear_arith);
}

/// In a drawn spring, the zigzag's corners go strictly down: there are at least
/// as many pixel rows between its top and its bottom as there are half-turns,
/// so every corner is strictly below the previous one.
pub proof fn lemma_zigzag_strictly_descends(s: SpringMass, extension: i32, i: int, j: int)
    requires
        s.spring_bot(extension) > s.spring_top(),
        s.coils >= 1,
        0 <= i < j <= s.coils,
    ensures
        s.spring_bot(extension) - s.spring_top() >= s.coils,
        s.coil_point(s.spring_top(), s.spring_bot(extension) - s.spring_top(), i).1 < s.coil_point(
            s.spring_top(),
            s.spring_bot(extension) - s.spring_top(),
            j,
        ).1,
{
    let top = s.spring_top();
    let h = s.spring_bot(extension) - top;
    let c = s.coils as int;
    assert(h == s.total_len(extension) - 4);
    assert(h * j >= h * i + c) by (nonlinear_arith)
        requires
            h >= c,
            c >= 1,
            0 <= i < j,
    ;
    assert(h * i >= 0) by (nonlinear_arith)
        requires
            h >= c,
            c >= 1,
            0 <= i,
    ;
    lemma_div_is_ordered(h * i + c, h * j, c);
    lemma_div_plus_one(h * i, c);
    if i == 0 {
        assert((h * i) / c == 0) by (nonlinear_arith)
            requires
                i == 0,
                c >= 1,
        ;
    }
}

/// Where the spring is drawn, in terms of the system and the extension alone.
/// With `len = max(rest_len + extension, coils + 4)`, `top = anchor_y + 2`,
/// `bot = anchor_y + len - 2` and `h = bot - top`: after the 5-pixel anchor, the
/// straight top part runs down the axis from `anchor_y` to `top`; when there is
/// room (`bot > top`) and `coils >= 1`, zigzag line `k` (for `0 <= k < coils`)
/// ends at corner `k + 1`, `amplitude` pixels right of the axis when `k + 1` is
/// odd and left of it when even, at height `top + h·(k+1) / coils`, and starts
/// where line `k - 1` ended (on the axis at `top` for the first one); the line
/// after the last corner goes back to the axis at `bot`, and the straight
/// bottom part runs down the axis from `bot` to `anchor_y + len`.
pub proof fn lemma_spring_drawn_lines(s: SpringMass, extension: i32, on: bool, k: int)
    requires
        s.coils >= 1,
        0 <= k < s.coils,
        ({
            let stretched = s.rest_len + extension;
            let len = if stretched >= s.coils + 4 { stretched } else { s.coils + 4 };
            len > 4
        }),
    ensures
        ({
            let stretched = s.rest_len + extension;
            let len = if stretched >= s.coils + 4 { stretched } else { s.coils + 4 };
            let top = s.anchor_y + 2;
            let bot = s.anchor_y + len - 2;
            let h = bot - top;
            let c = s.coils as int;
            let sh = s.shapes(extension, on);
            let right = s.anchor_x + s.amplitude;
            let left = s.anchor_x - s.amplitude;
            &&& sh[5] == Shape::Line { x0: s.anchor_x, y0: s.anchor_y, x1: s.anchor_x, y1: top as i32, on }
            &&& sh[6 + k] == Shape::Line {
                x0: (if k == 0 { s.anchor_x as int } else if k % 2 == 1 { right } else { left }) as i32,
                y0: (top + h * k / c) as i32,
                x1: (if (k + 1) % 2 == 1 { right } else { left }) as i32,
                y1: (top + h * (k + 1) / c) as i32,
                on,
            }
            &&& sh[6 + c] == Shape::Line {
                x0: (if c % 2 == 1 { right } else { left }) as i32,
                y0: bot as i32,
                x1: s.anchor_x,
                y1: bot as i32,
                on,
            }
            &&& sh[7 + c] == Shape::Line {
                x0: s.anchor_x,
                y0: bot as i32,
                x1: s.anchor_x,
                y1: (s.anchor_y + len) as i32,
                on,
            }
        }),
{
    let top = s.spring_top();
    let bot = s.spring_bot(extension);
    let h = bot - top;
    let c = s.coils as int;
    let anchor = rect_pixels(s.anchor_x - 2, s.anchor_y as int, 5, 1, on);
    assert(rect_pixels(s.anchor_x - 2, s.anchor_y as int, 5, 0, on) =~= seq![]);
    assert(anchor.len() == 5);
    let z = s.zigzag(top, bot, on);
    assert(z.len() == c + 1);
    let sh = s.shapes(extension, on);
    assert(sh == anchor + seq![line_between(s.anchor_x as int, s.anchor_y as int, s.anchor_x as int, top, on)] + z
        + seq![line_between(s.anchor_x as int, bot, s.anchor_x as int, s.mass_top(extension), on)]
        + rect_pixels(s.block_left(), s.mass_top(extension), s.block_w as int, 6, on));
    assert(sh[6 + k] == z[k]);
    assert(sh[6 + c] == z[c]);
    if k == 0 {
        assert(h * k / c == 0) by (nonlinear_arith)
            requires
                k == 0,
                c >= 1,
        ;
    }
    assert(h * c / c == h) by (nonlinear_arith)
        requires
            c >= 1,
    ;
}

/// The anchor line and the mass block: the first 5 commands are the pixels
/// `anchor_x - 2 ..= anchor_x + 2` on the anchor's row; the last `block_w · 6`
/// commands (when `block_w > 0`) are the block's pixels in reading order,
/// `block_w` per row from `anchor_x - block_w/2`, 6 rows from
/// `anchor_y + max(rest_len + extension, coils + 4)`.
pub proof fn lemma_spring_anchor_and_block(s: SpringMass, extension: i32, on: bool)
    ensures
        ({
            let sh = s.shapes(extension, on);
            let n = sh.len() as int;
            let stretched = s.rest_len + extension;
            let len = if stretched >= s.coils + 4 { stretched } else { s.coils + 4 };
            let bw = s.block_w as int;
            let left = s.anchor_x - half(bw);
            &&& forall|k: int|
                0 <= k < 5 ==> #[trigger] sh[k] == Shape::Pixel {
                    x: (s.anchor_x - 2 + k) as i32,
                    y: s.anchor_y,
                    on,
                }
            &&& bw > 0 ==> n >= bw * 6 && forall|m: int|
                0 <= m < bw * 6 ==> #[trigger] sh[n - bw * 6 + m] == Shape::Pixel {
                    x: (left + m % bw) as i32,
                    y: (s.anchor_y + len + m / bw) as i32,
                    on,
                }
        }),
{
    let top = s.spring_top();
    let bot = s.spring_bot(extension);
    let anchor = rect_pixels(s.anchor_x - 2, s.anchor_y as int, 5, 1, on);
    lemma_rect_pixels_cover(s.anchor_x - 2, s.anchor_y as int, 5, 1, on);
    let mid = seq![line_between(s.anchor_x as int, s.anchor_y as int, s.anchor_x as int, top, on)] + (if bot > top {
        s.zigzag(top, bot, on)
    } else {
        seq![]
    }) + seq![line_between(s.anchor_x as int, bot, s.anchor_x as int, s.mass_top(extension), on)];
    let block = rect_pixels(s.block_left(), s.mass_top(extension), s.block_w as int, 6, on);
    let sh = s.shapes(extension, on);
    assert(sh =~= anchor + mid + block);
    assert forall|k: int| 0 <= k < 5 implies #[trigger] sh[k] == anchor[k] by {
        assert(k % 5 == k && k / 5 == 0);
    }
    if s.block_w > 0 {
        lemma_rect_pixels_cover(s.block_left(), s.mass_top(extension), s.block_w as int, 6, on);
        let n = sh.len() as int;
        assert forall|m: int| 0 <= m < s.block_w * 6 implies #[trigger] sh[n - s.block_w * 6 + m] == block[m] by {}
    }
}
} // verus!
