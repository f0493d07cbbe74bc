//! Boxes: the result of laying out math expressions.
use vstd::prelude::*;

use crate::arith::{
    clamp_i32, div_trunc, max_i32, max_int, min_i32, min_int, sat_add, sat_div, sat_mul, sat_neg,
    sat_sub,
};
use crate::shaper::MathGlyph;
use crate::types::{scale_spec, PercentValue};

verus! {

/// A point in 2D space.
///
/// Note: The y coordinate increases downwards.
#[derive(Debug, Default, PartialEq, Eq, Clone, Copy, Hash)]
pub struct Vector<T> {
    /// the x coordinate
    pub x: T,
    /// the y coordinate
    pub y: T,
}

impl Vector<i32> {
    /// The origin `(0, 0)`.
    pub open spec fn zero_spec() -> Vector<i32> {
        Vector { x: 0, y: 0 }
    }

    /// The origin `(0, 0)`.
    pub fn zero() -> (r: Vector<i32>)
        ensures
            r == Self::zero_spec(),
    {
        Vector { x: 0, y: 0 }
    }

    /// Componentwise sum (saturating).
    pub fn plus(self, rhs: Vector<i32>) -> (r: Vector<i32>)
        ensures
            r.x == clamp_i32(self.x + rhs.x),
            r.y == clamp_i32(self.y + rhs.y),
    {
        Vector { x: sat_add(self.x, rhs.x), y: sat_add(self.y, rhs.y) }
    }

    /// Componentwise difference (saturating).
    pub fn minus(self, rhs: Vector<i32>) -> (r: Vector<i32>)
        ensures
            r.x == clamp_i32(self.x - rhs.x),
            r.y == clamp_i32(self.y - rhs.y),
    {
        Vector { x: sat_sub(self.x, rhs.x), y: sat_sub(self.y, rhs.y) }
    }

    /// Both coordinates multiplied by `rhs` (saturating).
    pub fn times(self, rhs: i32) -> (r: Vector<i32>)
        ensures
            r.x == clamp_i32(self.x * rhs),
            r.y == clamp_i32(self.y * rhs),
    {
        Vector { x: sat_mul(self.x, rhs), y: sat_mul(self.y, rhs) }
    }

    /// Both coordinates divided by `rhs`, rounding toward zero.
    pub fn divided_by(self, rhs: i32) -> (r: Vector<i32>)
        requires
            rhs != 0,
        ensures
            r.x == clamp_i32(div_trunc(self.x as int, rhs as int)),
            r.y == clamp_i32(div_trunc(self.y as int, rhs as int)),
    {
        Vector { x: sat_div(self.x, rhs), y: sat_div(self.y, rhs) }
    }

    /// Both coordinates scaled by a percentage.
    pub fn scaled(self, rhs: PercentValue) -> (r: Vector<i32>)
        ensures
            r.x == scale_spec(self.x as int, rhs@),
            r.y == scale_spec(self.y as int, rhs@),
    {
        Vector { x: rhs.mul_i32(self.x), y: rhs.mul_i32(self.y) }
    }
}

/// Basic Extents of ink inside boxes
#[derive(Debug, Default, PartialEq, Eq, Clone, Copy, Hash)]
pub struct Extents<T> {
    /// Horizontal offset from the left edge.
    pub left_side_bearing: T,
    /// Width
    pub width: T,
    /// Maximum extent above the baseline.
    pub ascent: T,
    /// Maximum extent below the baseline.
    pub descent: T,
}

impl Extents<i32> {
    /// All four values zero.
    pub open spec fn zero_spec() -> Extents<i32> {
        Extents { left_side_bearing: 0, width: 0, ascent: 0, descent: 0 }
    }

    /// All four values zero.
    pub fn zero() -> (r: Extents<i32>)
        ensures
            r == Self::zero_spec(),
    {
        Extents { left_side_bearing: 0, width: 0, ascent: 0, descent: 0 }
    }

    /// Extents from their four values.
    pub fn new(left_side_bearing: i32, width: i32, ascent: i32, descent: i32) -> (r: Self)
        ensures
            r == (Extents { left_side_bearing, width, ascent, descent }),
    {
        Extents { left_side_bearing, width, ascent, descent }
    }

    /// ascent + descent.
    pub open spec fn height_spec(self) -> int {
        clamp_i32(self.ascent + self.descent)
    }

    /// left side bearing + width / 2.
    pub open spec fn center_spec(self) -> int {
        clamp_i32(self.left_side_bearing + div_trunc(self.width as int, 2))
    }

    /// left side bearing + width.
    pub open spec fn right_edge_spec(self) -> int {
        clamp_i32(self.left_side_bearing + self.width)
    }

    /// Returns the height = ascent + descent of the box
    pub fn height(&self) -> (r: i32)
        ensures
            r == self.height_spec(),
    {
        sat_add(self.ascent, self.descent)
    }

    /// The horizontal center of the ink.
    pub fn center(&self) -> (r: i32)
        ensures
            r == self.center_spec(),
    {
        let half = sat_div(self.width, 2);
        sat_add(self.left_side_bearing, half)
    }

    /// The right edge of the ink.
    pub fn right_edge(&self) -> (r: i32)
        ensures
            r == self.right_edge_spec(),
    {
        sat_add(self.left_side_bearing, self.width)
    }

    /// All four values multiplied by `rhs`.
    pub fn times(self, rhs: i32) -> (r: Extents<i32>)
        ensures
            r.left_side_bearing == clamp_i32(self.left_side_bearing * rhs),
            r.width == clamp_i32(self.width * rhs),
            r.ascent == clamp_i32(self.ascent * rhs),
            r.descent == clamp_i32(self.descent * rhs),
    {
        Extents {
            left_side_bearing: sat_mul(self.left_side_bearing, rhs),
            width: sat_mul(self.width, rhs),
            ascent: sat_mul(self.ascent, rhs),
            descent: sat_mul(self.descent, rhs),
        }
    }

    /// All four values divided by `rhs`, rounding toward zero.
    pub fn divided_by(self, rhs: i32) -> (r: Extents<i32>)
        requires
            rhs != 0,
        ensures
            r.left_side_bearing == clamp_i32(div_trunc(self.left_side_bearing as int, rhs as int)),
            r.width == clamp_i32(div_trunc(self.width as int, rhs as int)),
            r.ascent == clamp_i32(div_trunc(self.ascent as int, rhs as int)),
            r.descent == clamp_i32(div_trunc(self.descent as int, rhs as int)),
    {
        Extents {
            left_side_bearing: sat_div(self.left_side_bearing, rhs),
            width: sat_div(self.width, rhs),
            ascent: sat_div(self.ascent, rhs),
            descent: sat_div(self.descent, rhs),
        }
    }

    /// All four values scaled by a percentage.
    pub fn scaled(self, rhs: PercentValue) -> (r: Extents<i32>)
        ensures
            r.left_side_bearing == scale_spec(self.left_side_bearing as int, rhs@),
            r.width == scale_spec(self.width as int, rhs@),
            r.ascent == scale_spec(self.ascent as int, rhs@),
            r.descent == scale_spec(self.descent as int, rhs@),
    {
        Extents {
            left_side_bearing: rhs.mul_i32(self.left_side_bearing),
            width: rhs.mul_i32(self.width),
            ascent: rhs.mul_i32(self.ascent),
            descent: rhs.mul_i32(self.descent),
        }
    }
}

/// An item together with the offset at which it is placed.
#[derive(Copy, Clone, PartialEq, Eq)]
pub struct Moved<T> {
    pub offset: Vector<i32>,
    pub item: T,
}

/// Describes the box metrics for mathematical objects.
#[derive(Debug, Default, PartialEq, Eq, Clone, Copy)]
pub struct Bounds {
    /// Position on the left on the baseline.
    pub origin: Vector<i32>,
    /// Extents of the bounds.
    pub extents: Extents<i32>,
}

impl Bounds {
    /// The extents of the smallest box that holds both `self` and `other`, each placed at its
    /// origin; the left side bearing is that of `self`.
    pub fn union_extents(self, other: Bounds) -> (r: Extents<i32>)
        ensures
            r.left_side_bearing == self.extents.left_side_bearing,
            r.width == clamp_i32(
                max_int(
                    clamp_i32(self.origin.x + self.extents.width),
                    clamp_i32(other.origin.x + other.extents.width),
                ) - min_int(self.origin.x as int, other.origin.x as int),
            ),
            r.ascent == max_int(
                clamp_i32(self.extents.ascent - self.origin.y),
                clamp_i32(other.extents.ascent - other.origin.y),
            ),
            r.descent == max_int(
                clamp_i32(self.extents.descent + self.origin.y),
                clamp_i32(other.extents.descent + other.origin.y),
            ),
    {
        let max_x = max_i32(
            sat_add(self.origin.x, self.extents.width),
            sat_add(other.origin.x, other.extents.width),
        );
        let min_x = min_i32(self.origin.x, other.origin.x);
        let max_ascent = max_i32(
            sat_sub(self.extents.ascent, self.origin.y),
            sat_sub(other.extents.ascent, other.origin.y),
        );
        let max_descent = max_i32(
            sat_add(self.extents.descent, self.origin.y),
            sat_add(other.extents.descent, other.origin.y),
        );
        Extents {
            left_side_bearing: self.extents.left_side_bearing,
            width: sat_sub(max_x, min_x),
            ascent: max_ascent,
            descent: max_descent,
        }
    }

    /// The bounds with a negative descent, then a negative ascent, moved into the origin (see
    /// `normalize`).
    pub open spec fn normalized(self) -> Bounds {
        let o = self.origin;
        let e = self.extents;
        let b1 = if e.descent < 0 {
            Bounds {
                origin: Vector { y: clamp_i32(o.y + e.descent) as i32, ..o },
                extents: Extents { ascent: clamp_i32(e.ascent + e.descent) as i32, descent: 0, ..e },
            }
        } else {
            self
        };
        let o1 = b1.origin;
        let e1 = b1.extents;
        if e1.ascent < 0 {
            Bounds {
                origin: Vector { y: clamp_i32(o1.y - e1.ascent) as i32, ..o1 },
                extents: Extents { descent: clamp_i32(e1.descent + e1.ascent) as i32, ascent: 0, ..e1 },
            }
        } else {
            b1
        }
    }

    /// Returns bounds that have non-negative ascent and descent by moving the origin: a
    /// negative descent moves the origin up (and lowers the ascent), then a negative ascent
    /// moves it down (and lowers the descent).
    ///
    /// Away from the ends of the `i32` range, the top edge (`origin.y - ascent`), the bottom
    /// edge (`origin.y + descent`) and the horizontal values stay as they were, and the ascent
    /// and descent become non-negative. The height must not be negative.
    pub fn normalize(self) -> (r: Bounds)
        requires
            self.extents.ascent + self.extents.descent >= 0,
        ensures
            r == self.normalized(),
            r.origin.x == self.origin.x,
            r.extents.left_side_bearing == self.extents.left_side_bearing,
            r.extents.width == self.extents.width,
            i32::MIN <= self.origin.y + self.extents.descent <= i32::MAX
                && i32::MIN <= self.origin.y - self.extents.ascent <= i32::MAX
                && i32::MIN <= self.extents.ascent + self.extents.descent <= i32::MAX ==> {
                &&& r.origin.y - r.extents.ascent == self.origin.y - self.extents.ascent
                &&& r.origin.y + r.extents.descent == self.origin.y + self.extents.descent
                &&& r.extents.ascent >= 0
                &&& r.extents.descent >= 0
            },
    {
        let mut result = self;
        if result.extents.descent < 0 {
            result.origin.y = sat_add(result.origin.y, result.extents.descent);
            result.extents.ascent = sat_add(result.extents.ascent, result.extents.descent);
            result.extents.descent = 0;
        }
        if result.extents.ascent < 0 {
            result.origin.y = sat_sub(result.origin.y, result.extents.ascent);
            result.extents.descent = sat_add(result.extents.descent, result.extents.ascent);
            result.extents.ascent = 0;
        }
        result
    }

    /// Origin and extents multiplied by `rhs`.
    pub fn times(self, rhs: i32) -> (r: Bounds)
        ensures
            r.origin.x == clamp_i32(self.origin.x * rhs),
            r.origin.y == clamp_i32(self.origin.y * rhs),
            r.extents.width == clamp_i32(self.extents.width * rhs),
            r.extents.ascent == clamp_i32(self.extents.ascent * rhs),
            r.extents.descent == clamp_i32(self.extents.descent * rhs),
            r.extents.left_side_bearing == clamp_i32(self.extents.left_side_bearing * rhs),
    {
        Bounds { origin: self.origin.times(rhs), extents: self.extents.times(rhs) }
    }

    /// Origin and extents divided by `rhs`, rounding toward zero.
    pub fn divided_by(self, rhs: i32) -> (r: Bounds)
        requires
            rhs != 0,
        ensures
            r.origin.x == clamp_i32(div_trunc(self.origin.x as int, rhs as int)),
            r.origin.y == clamp_i32(div_trunc(self.origin.y as int, rhs as int)),
            r.extents.width == clamp_i32(div_trunc(self.extents.width as int, rhs as int)),
            r.extents.ascent == clamp_i32(div_trunc(self.extents.ascent as int, rhs as int)),
            r.extents.descent == clamp_i32(div_trunc(self.extents.descent as int, rhs as int)),
            r.extents.left_side_bearing == clamp_i32(
                div_trunc(self.extents.left_side_bearing as int, rhs as int),
            ),
    {
        Bounds { origin: self.origin.divided_by(rhs), extents: self.extents.divided_by(rhs) }
    }

    /// Origin and extents scaled by a percentage.
    pub fn scaled(self, rhs: PercentValue) -> (r: Bounds)
        ensures
            r.origin.x == scale_spec(self.origin.x as int, rhs@),
            r.origin.y == scale_spec(self.origin.y as int, rhs@),
            r.extents.width == scale_spec(self.extents.width as int, rhs@),
            r.extents.ascent == scale_spec(self.extents.ascent as int, rhs@),
            r.extents.descent == scale_spec(self.extents.descent as int, rhs@),
            r.extents.left_side_bearing == scale_spec(self.extents.left_side_bearing as int, rhs@),
    {
        Bounds { origin: self.origin.scaled(rhs), extents: self.extents.scaled(rhs) }
    }
}


/// The largest element of a sequence; 0 for the empty sequence.
pub open spec fn max_or_zero(s: Seq<int>) -> int
    decreases s.len(),
{
    if s.len() == 0 {
        0
    } else if s.len() == 1 {
        s[0]
    } else {
        max_int(max_or_zero(s.drop_last()), s.last())
    }
}

/// The sum of a sequence, added from the front and saturated at the `i32` range after each step.
pub open spec fn sat_sum(s: Seq<int>) -> int
    decreases s.len(),
{
    if s.len() == 0 {
        0
    } else {
        clamp_i32(sat_sum(s.drop_last()) + s.last())
    }
}

/// One step of `max_or_zero` over a growing prefix.
pub proof fn lemma_max_or_zero_step(s: Seq<int>, i: int)
    requires
        0 <= i < s.len(),
    ensures
        max_or_zero(s.take(i + 1)) == if i == 0 {
            s[0]
        } else {
            max_int(max_or_zero(s.take(i)), s[i])
        },
{
    assert(s.take(i + 1).drop_last() =~= s.take(i));
}

/// One step of `sat_sum` over a growing prefix.
pub proof fn lemma_sat_sum_step(s: Seq<int>, i: int)
    requires
        0 <= i < s.len(),
    ensures
        sat_sum(s.take(i + 1)) == clamp_i32(sat_sum(s.take(i)) + s[i]),
{
    assert(s.take(i + 1).drop_last() =~= s.take(i));
}

/// The advance widths of glyphs.
pub open spec fn glyph_advances(gs: Seq<MathGlyph>) -> Seq<int> {
    gs.map_values(|g: MathGlyph| g.advance_width as int)
}

/// How far each glyph reaches above the baseline.
pub open spec fn glyph_ascents(gs: Seq<MathGlyph>) -> Seq<int> {
    gs.map_values(|g: MathGlyph| clamp_i32(g.extents.ascent - g.offset.y))
}

/// How far each glyph reaches below the baseline.
pub open spec fn glyph_descents(gs: Seq<MathGlyph>) -> Seq<int> {
    gs.map_values(|g: MathGlyph| clamp_i32(g.extents.descent + g.offset.y))
}

/// The right edge of each box's advance.
pub open spec fn box_advances(bs: Seq<MathBox>) -> Seq<int> {
    bs.map_values(|b: MathBox| clamp_i32(b.origin.x + b.metrics.advance_width))
}

/// How far each box reaches above the baseline.
pub open spec fn box_ascents(bs: Seq<MathBox>) -> Seq<int> {
    bs.map_values(|b: MathBox| clamp_i32(b.metrics.extents.ascent - b.origin.y))
}

/// How far each box reaches below the baseline.
pub open spec fn box_descents(bs: Seq<MathBox>) -> Seq<int> {
    bs.map_values(|b: MathBox| clamp_i32(b.metrics.extents.descent + b.origin.y))
}

/// The right edge of each box's ink.
pub open spec fn box_right_edges(bs: Seq<MathBox>) -> Seq<int> {
    bs.map_values(
        |b: MathBox|
            clamp_i32(b.origin.x + b.metrics.extents.left_side_bearing + b.metrics.extents.width),
    )
}

/// A box used in mathematical typesetting must have these metric values.
pub trait MathBoxMetrics {
    /// The advance width, as a number.
    spec fn advance_width_spec(&self) -> int;

    /// The ink extents, as a value.
    spec fn extents_spec(&self) -> Extents<i32>;

    /// The italic correction, as a number.
    spec fn italic_correction_spec(&self) -> int;

    /// The top accent attachment, as a number.
    spec fn top_accent_attachment_spec(&self) -> int;

    /// distance from the left edge of a box to the left edge of the following box
    fn advance_width(&self) -> (r: i32)
        ensures
            r == self.advance_width_spec(),
    ;

    /// the size of a box
    fn extents(&self) -> (r: Extents<i32>)
        ensures
            r == self.extents_spec(),
    ;

    /// extra advance width to apply if the following glyph is not italic
    fn italic_correction(&self) -> (r: i32)
        ensures
            r == self.italic_correction_spec(),
    ;

    /// the optical center above which to place an accent
    fn top_accent_attachment(&self) -> (r: i32)
        ensures
            r == self.top_accent_attachment_spec(),
    ;
}

/// The four metric values of a box.
#[derive(Debug, Copy, Clone, PartialEq, Eq)]
pub struct Metrics {
    pub advance_width: i32,
    pub extents: Extents<i32>,
    pub italic_correction: i32,
    pub top_accent_attachment: i32,
}

impl Metrics {
    /// The metrics of an object, read out one by one.
    pub fn from_metrics<T: MathBoxMetrics>(obj: &T) -> (r: Self)
        ensures
            r.advance_width == obj.advance_width_spec(),
            r.extents == obj.extents_spec(),
            r.italic_correction == obj.italic_correction_spec(),
            r.top_accent_attachment == obj.top_accent_attachment_spec(),
    {
        Metrics {
            advance_width: obj.advance_width(),
            extents: obj.extents(),
            italic_correction: obj.italic_correction(),
            top_accent_attachment: obj.top_accent_attachment(),
        }
    }
}

impl MathBoxMetrics for Metrics {
    open spec fn advance_width_spec(&self) -> int {
        self.advance_width as int
    }

    open spec fn extents_spec(&self) -> Extents<i32> {
        self.extents
    }

    open spec fn italic_correction_spec(&self) -> int {
        self.italic_correction as int
    }

    open spec fn top_accent_attachment_spec(&self) -> int {
        self.top_accent_attachment as int
    }

    fn advance_width(&self) -> (r: i32) {
        self.advance_width
    }

    fn extents(&self) -> (r: Extents<i32>) {
        self.extents
    }

    fn italic_correction(&self) -> (r: i32) {
        self.italic_correction
    }

    fn top_accent_attachment(&self) -> (r: i32) {
        self.top_accent_attachment
    }
}

impl MathBoxMetrics for MathGlyph {
    open spec fn advance_width_spec(&self) -> int {
        self.advance_width as int
    }

    open spec fn extents_spec(&self) -> Extents<i32> {
        self.extents
    }

    open spec fn italic_correction_spec(&self) -> int {
        self.italic_correction as int
    }

    open spec fn top_accent_attachment_spec(&self) -> int {
        self.top_accent_attachment as int
    }

    fn advance_width(&self) -> (r: i32) {
        self.advance_width
    }

    fn extents(&self) -> (r: Extents<i32>) {
        self.extents
    }

    fn italic_correction(&self) -> (r: i32) {
        self.italic_correction
    }

    fn top_accent_attachment(&self) -> (r: i32) {
        self.top_accent_attachment
    }
}

/// Something that can be drawn: a run of glyphs or a line.
#[derive(Debug)]
pub enum Drawable {
    Glyphs {
        glyphs: Vec<MathGlyph>,
        /// The size at which these glyphs should be rendered relative to their normal size.
        ///
        /// This is used to render subscripts and superscripts in a smaller size.
        scale: PercentValue,
    },
    Line { vector: Vector<i32>, thickness: u32 },
}

/// The top accent attachment given the value found: half the advance width when that value is
/// zero.
pub open spec fn accent_or_half(value: int, advance_width: int) -> int {
    if value == 0 {
        div_trunc(advance_width, 2)
    } else {
        value
    }
}

impl MathBoxMetrics for Drawable {
    open spec fn advance_width_spec(&self) -> int {
        match self {
            Drawable::Glyphs { glyphs, scale } => scale_spec(sat_sum(glyph_advances(glyphs@)), scale@),
            Drawable::Line { vector, .. } => vector.x as int,
        }
    }

    open spec fn extents_spec(&self) -> Extents<i32> {
        match self {
            Drawable::Glyphs { glyphs, scale } => {
                let gs = glyphs@;
                let lsb = if gs.len() > 0 {
                    scale_spec(gs[0].extents.left_side_bearing as int, scale@)
                } else {
                    0
                };
                let rsb = if gs.len() > 0 {
                    let g = gs.last();
                    scale_spec(
                        clamp_i32(g.advance_width - g.extents.width - g.extents.left_side_bearing),
                        scale@,
                    )
                } else {
                    0
                };
                Extents {
                    left_side_bearing: lsb as i32,
                    width: clamp_i32(self.advance_width_spec() - rsb - lsb) as i32,
                    ascent: scale_spec(max_or_zero(glyph_ascents(gs)), scale@) as i32,
                    descent: scale_spec(max_or_zero(glyph_descents(gs)), scale@) as i32,
                }
            },
            Drawable::Line { vector, .. } => Extents {
                left_side_bearing: 0,
                width: vector.x,
                ascent: max_int(0, clamp_i32(-vector.y)) as i32,
                descent: max_int(0, vector.y as int) as i32,
            },
        }
    }

    open spec fn italic_correction_spec(&self) -> int {
        match self {
            Drawable::Glyphs { glyphs, scale } => if glyphs@.len() > 0 {
                scale_spec(glyphs@.last().italic_correction as int, scale@)
            } else {
                0
            },
            Drawable::Line { .. } => 0,
        }
    }

    open spec fn top_accent_attachment_spec(&self) -> int {
        let value = match self {
            Drawable::Glyphs { glyphs, scale } => if glyphs@.len() == 1 {
                scale_spec(glyphs@[0].top_accent_attachment as int, scale@)
            } else {
                0
            },
            _ => 0,
        };
        accent_or_half(value, self.advance_width_spec())
    }

    fn advance_width(&self) -> (r: i32) {
        match self {
            Drawable::Glyphs { glyphs, scale } => {
                let sum = glyph_advance_sum(glyphs);
                scale.mul_i32(sum)
            },
            Drawable::Line { vector, .. } => vector.x,
        }
    }

    fn extents(&self) -> (r: Extents<i32>) {
        match self {
            Drawable::Glyphs { glyphs, scale } => {
                let max_ascent = scale.mul_i32(glyph_max_ascent(glyphs));
                let max_descent = scale.mul_i32(glyph_max_descent(glyphs));
                let n = glyphs.len();
                let left_side_bearing = if n > 0 {
                    scale.mul_i32(glyphs[0].extents.left_side_bearing)
                } else {
                    0
                };
                let right_side_bearing = if n > 0 {
                    let g = &glyphs[n - 1];
                    let rsb = crate::arith::saturate(
                        g.advance_width as i64 - g.extents.width as i64
                            - g.extents.left_side_bearing as i64,
                    );
                    scale.mul_i32(rsb)
                } else {
                    0
                };
                let aw = self.advance_width();
                let width = crate::arith::saturate(
                    aw as i64 - right_side_bearing as i64 - left_side_bearing as i64,
                );
                Extents { left_side_bearing, width, ascent: max_ascent, descent: max_descent }
            },
            Drawable::Line { vector, .. } => Extents {
                left_side_bearing: 0,
                width: vector.x,
                ascent: max_i32(0, sat_neg(vector.y)),
                descent: max_i32(0, vector.y),
            },
        }
    }

    fn italic_correction(&self) -> (r: i32) {
        match self {
            Drawable::Glyphs { glyphs, scale } => {
                let n = glyphs.len();
                if n > 0 {
                    scale.mul_i32(glyphs[n - 1].italic_correction)
                } else {
                    0
                }
            },
            Drawable::Line { .. } => 0,
        }
    }

    fn top_accent_attachment(&self) -> (r: i32) {
        let value = match self {
            Drawable::Glyphs { glyphs, scale } => {
                if glyphs.len() == 1 {
                    scale.mul_i32(glyphs[0].top_accent_attachment)
                } else {
                    0
                }
            },
            _ => 0,
        };
        if value == 0 {
            sat_div(self.advance_width(), 2)
        } else {
            value
        }
    }
}

/// The saturating sum of the advance widths of `glyphs`.
fn glyph_advance_sum(glyphs: &Vec<MathGlyph>) -> (r: i32)
    ensures
        r == sat_sum(glyph_advances(glyphs@)),
{
    let ghost s = glyph_advances(glyphs@);
    let mut sum: i32 = 0;
    let mut i: usize = 0;
    assert(s.take(0) =~= Seq::<int>::empty());
    while i < glyphs.len()
        invariant
            i <= glyphs.len(),
            s == glyph_advances(glyphs@),
            sum == sat_sum(s.take(i as int)),
        decreases glyphs.len() - i,
    {
        proof {
            lemma_sat_sum_step(s, i as int);
        }
        sum = sat_add(sum, glyphs[i].advance_width);
        i = i + 1;
    }
    assert(s.take(glyphs.len() as int) =~= s);
    sum
}

/// The largest distance any of `glyphs` reaches above the baseline (0 without glyphs).
fn glyph_max_ascent(glyphs: &Vec<MathGlyph>) -> (r: i32)
    ensures
        r == max_or_zero(glyph_ascents(glyphs@)),
{
    let ghost s = glyph_ascents(glyphs@);
    let mut cur: i32 = 0;
    let mut i: usize = 0;
    while i < glyphs.len()
        invariant
            i <= glyphs.len(),
            s == glyph_ascents(glyphs@),
            cur == max_or_zero(s.take(i as int)),
        decreases glyphs.len() - i,
    {
        proof {
            lemma_max_or_zero_step(s, i as int);
        }
        let v = sat_sub(glyphs[i].extents.ascent, glyphs[i].offset.y);
        cur = if i == 0 {
            v
        } else {
            max_i32(cur, v)
        };
        i = i + 1;
    }
    assert(s.take(glyphs.len() as int) =~= s);
    cur
}

/// The largest distance any of `glyphs` reaches below the baseline (0 without glyphs).
fn glyph_max_descent(glyphs: &Vec<MathGlyph>) -> (r: i32)
    ensures
        r == max_or_zero(glyph_descents(glyphs@)),
{
    let ghost s = glyph_descents(glyphs@);
    let mut cur: i32 = 0;
    let mut i: usize = 0;
    while i < glyphs.len()
        invariant
            i <= glyphs.len(),
            s == glyph_descents(glyphs@),
            cur == max_or_zero(s.take(i as int)),
        decreases glyphs.len() - i,
    {
        proof {
            lemma_max_or_zero_step(s, i as int);
        }
        let v = sat_add(glyphs[i].extents.descent, glyphs[i].offset.y);
        cur = if i == 0 {
            v
        } else {
            max_i32(cur, v)
        };
        i = i + 1;
    }
    assert(s.take(glyphs.len() as int) =~= s);
    cur
}


/// What a box holds.
#[derive(Debug)]
pub enum MathBoxContent {
    /// Represents a box without any content
    Empty(Extents<i32>),
    Drawable(Drawable),
    /// A vector of boxes that are logically inside the parent box.
    ///
    /// If this `Vec` is empty then this box is considered empty.
    Boxes(Vec<MathBox>),
}

/// A laid-out piece of a formula: its content, its position relative to its parent, and its
/// metrics.
#[derive(Debug)]
pub struct MathBox {
    pub origin: Vector<i32>,
    pub metrics: Metrics,
    pub content: MathBoxContent,
    pub user_data: u64,
}

impl MathBoxMetrics for MathBoxContent {
    open spec fn advance_width_spec(&self) -> int {
        match self {
            MathBoxContent::Empty(extents) => extents.width as int,
            MathBoxContent::Drawable(drawable) => drawable.advance_width_spec(),
            MathBoxContent::Boxes(boxes) => max_or_zero(box_advances(boxes@)),
        }
    }

    open spec fn extents_spec(&self) -> Extents<i32> {
        match self {
            MathBoxContent::Empty(extents) => *extents,
            MathBoxContent::Drawable(drawable) => drawable.extents_spec(),
            MathBoxContent::Boxes(boxes) => {
                let bs = boxes@;
                let lsb = if bs.len() > 0 {
                    bs[0].metrics.extents.left_side_bearing as int
                } else {
                    0
                };
                Extents {
                    left_side_bearing: lsb as i32,
                    width: clamp_i32(max_or_zero(box_right_edges(bs)) - lsb) as i32,
                    ascent: max_or_zero(box_ascents(bs)) as i32,
                    descent: max_or_zero(box_descents(bs)) as i32,
                }
            },
        }
    }

    open spec fn italic_correction_spec(&self) -> int {
        match self {
            MathBoxContent::Empty(_) => 0,
            MathBoxContent::Drawable(drawable) => drawable.italic_correction_spec(),
            MathBoxContent::Boxes(boxes) => if boxes@.len() > 0 {
                boxes@.last().metrics.italic_correction as int
            } else {
                0
            },
        }
    }

    open spec fn top_accent_attachment_spec(&self) -> int {
        let value = match self {
            MathBoxContent::Drawable(drawable) => drawable.top_accent_attachment_spec(),
            MathBoxContent::Boxes(boxes) => if boxes@.len() == 1 {
                boxes@[0].metrics.top_accent_attachment as int
            } else {
                0
            },
            _ => 0,
        };
        accent_or_half(value, self.advance_width_spec())
    }

    fn advance_width(&self) -> (r: i32) {
        match self {
            MathBoxContent::Empty(extents) => extents.width,
            MathBoxContent::Drawable(drawable) => drawable.advance_width(),
            MathBoxContent::Boxes(boxes) => boxes_max_advance(boxes),
        }
    }

    fn extents(&self) -> (r: Extents<i32>) {
        match self {
            MathBoxContent::Empty(extents) => *extents,
            MathBoxContent::Drawable(drawable) => drawable.extents(),
            MathBoxContent::Boxes(boxes) => {
                let max_ascent = boxes_max_ascent(boxes);
                let max_descent = boxes_max_descent(boxes);
                let left_side_bearing = if boxes.len() > 0 {
                    boxes[0].metrics.extents.left_side_bearing
                } else {
                    0
                };
                let width = sat_sub(boxes_max_right_edge(boxes), left_side_bearing);
                Extents { left_side_bearing, width, ascent: max_ascent, descent: max_descent }
            },
        }
    }

    fn italic_correction(&self) -> (r: i32) {
        match self {
            MathBoxContent::Empty(_) => 0,
            MathBoxContent::Drawable(drawable) => drawable.italic_correction(),
            MathBoxContent::Boxes(boxes) => {
                let n = boxes.len();
                if n > 0 {
                    boxes[n - 1].metrics.italic_correction
                } else {
                    0
                }
            },
        }
    }

    fn top_accent_attachment(&self) -> (r: i32) {
        let value = match self {
            MathBoxContent::Drawable(drawable) => drawable.top_accent_attachment(),
            MathBoxContent::Boxes(boxes) => {
                if boxes.len() == 1 {
                    boxes[0].metrics.top_accent_attachment
                } else {
                    0
                }
            },
            _ => 0,
        };
        if value == 0 {
            sat_div(self.advance_width(), 2)
        } else {
            value
        }
    }
}

/// The rightmost advance of `boxes` (0 without boxes).
pub fn boxes_max_advance(boxes: &Vec<MathBox>) -> (r: i32)
    ensures
        r == max_or_zero(box_advances(boxes@)),
{
    let ghost s = box_advances(boxes@);
    let mut cur: i32 = 0;
    let mut i: usize = 0;
    while i < boxes.len()
        invariant
            i <= boxes.len(),
            s == box_advances(boxes@),
            cur == max_or_zero(s.take(i as int)),
        decreases boxes.len() - i,
    {
        proof {
            lemma_max_or_zero_step(s, i as int);
        }
        let v = sat_add(boxes[i].origin.x, boxes[i].metrics.advance_width);
        cur = if i == 0 {
            v
        } else {
            max_i32(cur, v)
        };
        i = i + 1;
    }
    assert(s.take(boxes.len() as int) =~= s);
    cur
}

/// The largest distance any of `boxes` reaches above the baseline (0 without boxes).
fn boxes_max_ascent(boxes: &Vec<MathBox>) -> (r: i32)
    ensures
        r == max_or_zero(box_ascents(boxes@)),
{
    let ghost s = box_ascents(boxes@);
    let mut cur: i32 = 0;
    let mut i: usize = 0;
    while i < boxes.len()
        invariant
            i <= boxes.len(),
            s == box_ascents(boxes@),
            cur == max_or_zero(s.take(i as int)),
        decreases boxes.len() - i,
    {
        proof {
            lemma_max_or_zero_step(s, i as int);
        }
        let v = sat_sub(boxes[i].metrics.extents.ascent, boxes[i].origin.y);
        cur = if i == 0 {
            v
        } else {
            max_i32(cur, v)
        };
        i = i + 1;
    }
    assert(s.take(boxes.len() as int) =~= s);
    cur
}

/// The largest distance any of `boxes` reaches below the baseline (0 without boxes).
fn boxes_max_descent(boxes: &Vec<MathBox>) -> (r: i32)
    ensures
        r == max_or_zero(box_descents(boxes@)),
{
    let ghost s = box_descents(boxes@);
    let mut cur: i32 = 0;
    let mut i: usize = 0;
    while i < boxes.len()
        invariant
            i <= boxes.len(),
            s == box_descents(boxes@),
            cur == max_or_zero(s.take(i as int)),
        decreases boxes.len() - i,
    {
        proof {
            lemma_max_or_zero_step(s, i as int);
        }
        let v = sat_add(boxes[i].metrics.extents.descent, boxes[i].origin.y);
        cur = if i == 0 {
            v
        } else {
            max_i32(cur, v)
        };
        i = i + 1;
    }
    assert(s.take(boxes.len() as int) =~= s);
    cur
}

/// The rightmost ink edge of `boxes` (0 without boxes).
fn boxes_max_right_edge(boxes: &Vec<MathBox>) -> (r: i32)
    ensures
        r == max_or_zero(box_right_edges(boxes@)),
{
    let ghost s = box_right_edges(boxes@);
    let mut cur: i32 = 0;
    let mut i: usize = 0;
    while i < boxes.len()
        invariant
            i <= boxes.len(),
            s == box_right_edges(boxes@),
            cur == max_or_zero(s.take(i as int)),
        decreases boxes.len() - i,
    {
        proof {
            lemma_max_or_zero_step(s, i as int);
        }
        let b = &boxes[i];
        let v = crate::arith::saturate(
            b.origin.x as i64 + b.metrics.extents.left_side_bearing as i64
                + b.metrics.extents.width as i64,
        );
        cur = if i == 0 {
            v
        } else {
            max_i32(cur, v)
        };
        i = i + 1;
    }
    assert(s.take(boxes.len() as int) =~= s);
    cur
}

/// The metrics that `content` has by itself.
pub open spec fn metrics_of(content: MathBoxContent) -> Metrics {
    Metrics {
        advance_width: content.advance_width_spec() as i32,
        extents: content.extents_spec(),
        italic_correction: content.italic_correction_spec() as i32,
        top_accent_attachment: content.top_accent_attachment_spec() as i32,
    }
}

impl MathBox {
    /// The box holds the metrics of its content, placed at `origin`.
    pub open spec fn holds(self, content: MathBoxContent, origin: Vector<i32>, user_data: u64) -> bool {
        &&& self.content == content
        &&& self.metrics == metrics_of(content)
        &&& self.origin == origin
        &&& self.user_data == user_data
    }

    /// The user data of the expression this box was laid out from.
    pub fn user_data(&self) -> (r: u64)
        ensures
            r == self.user_data,
    {
        self.user_data
    }

    /// A box at the origin holding `content`, with the metrics of `content`.
    pub fn with_content(content: MathBoxContent, user_data: u64) -> (r: Self)
        ensures
            r.holds(content, Vector::zero_spec(), user_data),
            r == (MathBox { content, metrics: metrics_of(content), origin: Vector::<i32>::zero_spec(), user_data }),
    {
        let metrics = Metrics::from_metrics(&content);
        MathBox { content, metrics, origin: Vector::zero(), user_data }
    }

    /// A box that draws nothing and has the given extents.
    pub fn empty(extents: Extents<i32>, user_data: u64) -> (r: Self)
        ensures
            r.holds(MathBoxContent::Empty(extents), Vector::zero_spec(), user_data),
            r == (MathBox {
                content: MathBoxContent::Empty(extents),
                metrics: metrics_of(MathBoxContent::Empty(extents)),
                origin: Vector::<i32>::zero_spec(),
                user_data,
            }),
    {
        MathBox::with_content(MathBoxContent::Empty(extents), user_data)
    }

    /// A box that draws a line from `from` to `to`; its origin is `from`.
    pub fn with_line(from: Vector<i32>, to: Vector<i32>, thickness: u32, user_data: u64) -> (r: Self)
        ensures
            r.holds(
                MathBoxContent::Drawable(
                    Drawable::Line {
                        vector: Vector {
                            x: clamp_i32(to.x - from.x) as i32,
                            y: clamp_i32(to.y - from.y) as i32,
                        },
                        thickness,
                    },
                ),
                from,
                user_data,
            ),
    {
        let mut math_box = MathBox::with_content(
            MathBoxContent::Drawable(Drawable::Line { vector: to.minus(from), thickness }),
            user_data,
        );
        math_box.origin = from;
        math_box
    }

    /// A box that draws `glyphs` at the given scale.
    pub fn with_glyphs(glyphs: Vec<MathGlyph>, scale: PercentValue, user_data: u64) -> (r: Self)
        ensures
            r.holds(
                MathBoxContent::Drawable(Drawable::Glyphs { glyphs, scale }),
                Vector::zero_spec(),
                user_data,
            ),
    {
        MathBox::with_content(MathBoxContent::Drawable(Drawable::Glyphs { glyphs, scale }), user_data)
    }

    /// A box that holds `vec`.
    pub fn with_vec(vec: Vec<MathBox>, user_data: u64) -> (r: Self)
        ensures
            r.holds(MathBoxContent::Boxes(vec), Vector::zero_spec(), user_data),
    {
        MathBox::with_content(MathBoxContent::Boxes(vec), user_data)
    }

    /// The origin together with the extents of the content.
    pub fn bounds(&self) -> (r: Bounds)
        ensures
            r.origin == self.origin,
            r.extents == self.content.extents_spec(),
    {
        Bounds { origin: self.origin, extents: self.content.extents() }
    }

    /// The content of the box.
    pub fn content(&self) -> (r: &MathBoxContent)
        ensures
            *r == self.content,
    {
        &self.content
    }

    /// The leftmost glyph of a box: the first glyph of a glyph run, or the leftmost glyph of the
    /// first inner box; together with its scale.
    pub open spec fn first_glyph_spec(self) -> Option<(MathGlyph, PercentValue)>
        decreases self,
    {
        match self.content {
            MathBoxContent::Drawable(Drawable::Glyphs { glyphs, scale }) => if glyphs@.len() > 0 {
                Some((glyphs@[0], scale))
            } else {
                None
            },
            MathBoxContent::Boxes(boxes) => if boxes@.len() > 0 {
                boxes@[0].first_glyph_spec()
            } else {
                None
            },
            _ => None,
        }
    }

    /// The rightmost glyph of a box: the last glyph of a glyph run, or the rightmost glyph of the
    /// last inner box; together with its scale.
    pub open spec fn last_glyph_spec(self) -> Option<(MathGlyph, PercentValue)>
        decreases self,
    {
        match self.content {
            MathBoxContent::Drawable(Drawable::Glyphs { glyphs, scale }) => if glyphs@.len() > 0 {
                Some((glyphs@.last(), scale))
            } else {
                None
            },
            MathBoxContent::Boxes(boxes) => if boxes@.len() > 0 {
                boxes@.last().last_glyph_spec()
            } else {
                None
            },
            _ => None,
        }
    }

    /// recursive search for a glyph at the leftmost position
    pub fn first_glyph(&self) -> (r: Option<(MathGlyph, PercentValue)>)
        ensures
            r == self.first_glyph_spec(),
        decreases self,
    {
        match &self.content {
            MathBoxContent::Drawable(Drawable::Glyphs { glyphs, scale }) => {
                if glyphs.len() > 0 {
                    Some((glyphs[0], *scale))
                } else {
                    None
                }
            },
            MathBoxContent::Boxes(boxes) => {
                if boxes.len() > 0 {
                    boxes[0].first_glyph()
                } else {
                    None
                }
            },
            _ => None,
        }
    }

    /// recursive search for a glyph at the rightmost position
    pub fn last_glyph(&self) -> (r: Option<(MathGlyph, PercentValue)>)
        ensures
            r == self.last_glyph_spec(),
        decreases self,
    {
        match &self.content {
            MathBoxContent::Drawable(Drawable::Glyphs { glyphs, scale }) => {
                let n = glyphs.len();
                if n > 0 {
                    Some((glyphs[n - 1], *scale))
                } else {
                    None
                }
            },
            MathBoxContent::Boxes(boxes) => {
                let n = boxes.len();
                if n > 0 {
                    boxes[n - 1].last_glyph()
                } else {
                    None
                }
            },
            _ => None,
        }
    }
}

impl Default for MathBox {
    fn default() -> (r: MathBox)
        ensures
            r.holds(MathBoxContent::Empty(Extents::zero_spec()), Vector::zero_spec(), 0),
            r == (MathBox {
                content: MathBoxContent::Empty(Extents::zero_spec()),
                metrics: metrics_of(MathBoxContent::Empty(Extents::zero_spec())),
                origin: Vector::<i32>::zero_spec(),
                user_data: 0,
            }),
    {
        MathBox::empty(Extents::zero(), 0)
    }
}

impl MathBoxMetrics for MathBox {
    open spec fn advance_width_spec(&self) -> int {
        self.metrics.advance_width as int
    }

    open spec fn extents_spec(&self) -> Extents<i32> {
        self.metrics.extents
    }

    open spec fn italic_correction_spec(&self) -> int {
        self.metrics.italic_correction as int
    }

    open spec fn top_accent_attachment_spec(&self) -> int {
        self.metrics.top_accent_attachment as int
    }

    fn advance_width(&self) -> (r: i32) {
        self.metrics.advance_width
    }

    fn extents(&self) -> (r: Extents<i32>) {
        self.metrics.extents
    }

    fn italic_correction(&self) -> (r: i32) {
        self.metrics.italic_correction
    }

    fn top_accent_attachment(&self) -> (r: i32) {
        self.metrics.top_accent_attachment
    }
}

} // verus!
