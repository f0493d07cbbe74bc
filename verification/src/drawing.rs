//! What a renderer draws for a laid-out box: the view box of the whole formula, the rule of a
//! line box, the ink rectangle and the logical bounds of a glyph run, and the marker of the
//! top accent attachment. Coordinates are those of the box's parent, y growing downward.
use vstd::prelude::*;

use crate::arith::clamp_i32;
use crate::math_box::{Drawable, MathBox, MathBoxContent, MathBoxMetrics, Vector};

verus! {

/// An axis-parallel rectangle: its top left corner and its size.
#[derive(Debug, Copy, Clone, PartialEq, Eq, Structural)]
pub struct Rect {
    pub x: i32,
    pub y: i32,
    pub width: i32,
    pub height: i32,
}

/// A straight line from one point to another.
#[derive(Debug, Copy, Clone, PartialEq, Eq)]
pub struct Segment {
    pub from: Vector<i32>,
    pub to: Vector<i32>,
}

/// The region to show for a whole formula: its logical box with a margin of 10 units on
/// every side.
pub fn view_box(math_box: &MathBox) -> (r: Rect)
    ensures
        r == (Rect {
            x: clamp_i32(math_box.origin.x - 10) as i32,
            y: clamp_i32(clamp_i32(math_box.origin.y - math_box.metrics.extents.ascent) - 10) as i32,
            width: clamp_i32(math_box.metrics.advance_width + 20) as i32,
            height: clamp_i32(
                clamp_i32(math_box.metrics.extents.descent + math_box.metrics.extents.ascent) + 20,
            ) as i32,
        }),
{
    let extents = math_box.extents();
    Rect {
        x: crate::arith::sat_sub(math_box.origin.x, 10),
        y: crate::arith::sat_sub(crate::arith::sat_sub(math_box.origin.y, extents.ascent), 10),
        width: crate::arith::sat_add(math_box.advance_width(), 20),
        height: crate::arith::sat_add(crate::arith::sat_add(extents.descent, extents.ascent), 20),
    }
}

/// The rule a line box draws, with its thickness: from the top of the box at its origin along
/// its vector. Other boxes draw no rule.
pub fn rule_of(math_box: &MathBox) -> (r: Option<(Segment, u32)>)
    ensures
        match math_box.content {
            MathBoxContent::Drawable(Drawable::Line { vector, thickness }) => {
                let top = clamp_i32(math_box.origin.y - math_box.metrics.extents.ascent);
                r == Some(
                    (
                        Segment {
                            from: Vector { x: math_box.origin.x, y: top as i32 },
                            to: Vector {
                                x: clamp_i32(vector.x + math_box.origin.x) as i32,
                                y: clamp_i32(top + vector.y) as i32,
                            },
                        },
                        thickness,
                    ),
                )
            },
            _ => r is None,
        },
{
    match math_box.content() {
        MathBoxContent::Drawable(Drawable::Line { vector, thickness }) => {
            let top = crate::arith::sat_sub(math_box.origin.y, math_box.extents().ascent);
            let from = Vector { x: math_box.origin.x, y: top };
            let to = Vector {
                x: crate::arith::sat_add(vector.x, math_box.origin.x),
                y: crate::arith::sat_add(top, vector.y),
            };
            Some((Segment { from, to }, *thickness))
        },
        _ => None,
    }
}

/// The ink rectangle of a glyph run: from its left side bearing and ascent, as wide and as
/// high as its ink. Other boxes have none.
pub fn ink_rect(math_box: &MathBox) -> (r: Option<Rect>)
    ensures
        math_box.content matches MathBoxContent::Drawable(Drawable::Glyphs { .. }) ==> r == Some(
            Rect {
                x: clamp_i32(math_box.origin.x + math_box.metrics.extents.left_side_bearing) as i32,
                y: clamp_i32(math_box.origin.y - math_box.metrics.extents.ascent) as i32,
                width: math_box.metrics.extents.width,
                height: math_box.metrics.extents.height_spec() as i32,
            },
        ),
        !(math_box.content matches MathBoxContent::Drawable(Drawable::Glyphs { .. })) ==> r is None,
{
    match math_box.content() {
        MathBoxContent::Drawable(Drawable::Glyphs { .. }) => {
            let extents = math_box.extents();
            Some(
                Rect {
                    x: crate::arith::sat_add(math_box.origin.x, extents.left_side_bearing),
                    y: crate::arith::sat_sub(math_box.origin.y, extents.ascent),
                    width: extents.width,
                    height: extents.height(),
                },
            )
        },
        _ => None,
    }
}

/// The logical bounds of a glyph run, as two rectangles as wide as its advance: the one
/// above the baseline when its (normalized) ascent is not zero, the one below when its
/// descent is not zero. Other boxes have none. The height of a glyph run must not be
/// negative.
pub fn logical_rects(math_box: &MathBox) -> (r: (Option<Rect>, Option<Rect>))
    requires
        math_box.content matches MathBoxContent::Drawable(Drawable::Glyphs { .. }) ==> math_box.content.extents_spec().ascent
            + math_box.content.extents_spec().descent >= 0,
    ensures
        math_box.content matches MathBoxContent::Drawable(Drawable::Glyphs { .. }) ==> {
            let b = crate::math_box::Bounds {
                origin: math_box.origin,
                extents: math_box.content.extents_spec(),
            }.normalized();
            &&& r.0 == if b.extents.ascent != 0 {
                Some(
                    Rect {
                        x: b.origin.x,
                        y: clamp_i32(b.origin.y - b.extents.ascent) as i32,
                        width: math_box.metrics.advance_width,
                        height: b.extents.ascent,
                    },
                )
            } else {
                None
            }
            &&& r.1 == if b.extents.descent != 0 {
                Some(
                    Rect {
                        x: b.origin.x,
                        y: b.origin.y,
                        width: math_box.metrics.advance_width,
                        height: b.extents.descent,
                    },
                )
            } else {
                None
            }
        },
        !(math_box.content matches MathBoxContent::Drawable(Drawable::Glyphs { .. })) ==> r == (
            None::<Rect>,
            None::<Rect>,
        ),
{
    match math_box.content() {
        MathBoxContent::Drawable(Drawable::Glyphs { .. }) => {
            let bounds = math_box.bounds().normalize();
            let advance = math_box.advance_width();
            let above = if bounds.extents.ascent != 0 {
                Some(
                    Rect {
                        x: bounds.origin.x,
                        y: crate::arith::sat_sub(bounds.origin.y, bounds.extents.ascent),
                        width: advance,
                        height: bounds.extents.ascent,
                    },
                )
            } else {
                None
            };
            let below = if bounds.extents.descent != 0 {
                Some(Rect { x: bounds.origin.x, y: bounds.origin.y, width: advance, height: bounds.extents.descent })
            } else {
                None
            };
            (above, below)
        },
        _ => (None, None),
    }
}

/// The marker of the top accent attachment of a box: a vertical line through the attachment
/// point reaching 200 units beyond the box above and below.
pub fn accent_attachment_marker(math_box: &MathBox) -> (r: Segment)
    ensures
        ({
            let x = clamp_i32(math_box.metrics.top_accent_attachment + math_box.origin.x) as i32;
            r == (Segment {
                from: Vector {
                    x,
                    y: clamp_i32(clamp_i32(math_box.origin.y + math_box.metrics.extents.descent) + 200) as i32,
                },
                to: Vector {
                    x,
                    y: clamp_i32(clamp_i32(math_box.origin.y - math_box.metrics.extents.ascent) - 200) as i32,
                },
            })
        }),
{
    let extents = math_box.extents();
    let x = crate::arith::sat_add(math_box.top_accent_attachment(), math_box.origin.x);
    Segment {
        from: Vector {
            x,
            y: crate::arith::sat_add(crate::arith::sat_add(math_box.origin.y, extents.descent), 200),
        },
        to: Vector { x, y: crate::arith::sat_sub(crate::arith::sat_sub(math_box.origin.y, extents.ascent), 200) },
    }
}

} // verus!
