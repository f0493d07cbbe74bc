//! Laying out math expressions into boxes.
use vstd::prelude::*;

use crate::arith::{clamp_i32, div_trunc, div_trunc_i64, max_int, min_int, saturate, wide_mul, wide_mul_unsigned};
use crate::arith::{max_i32, min_i32, sat_add, sat_div, sat_neg, sat_sub};
use crate::math_box::{metrics_of, Extents, MathBox, MathBoxContent, MathBoxMetrics, Vector};
use crate::math_box::{box_advances, boxes_max_advance, max_or_zero};
use crate::multiscripts::{
    attached, constant, get_subscript_shift_dn, get_subsup_shifts, get_superscript_shift_up,
    position_attachment, subscript_shift, subsup_shifts, superscript_shift,
};
use crate::types::CornerPosition;
use crate::shaper::{MathConstant, MathShaper};
use crate::types::{
    Atom, Field, GeneralizedFraction, LayoutStyle, Length, LengthUnit, MathExpression, MathItem,
    MathSpace, MathStyle, Operator, OverUnder, Root, StretchConstraints,
};
use crate::stretchy::layout_strechy_list;
use crate::layout_model::{
    atom_lays_out, field_box, fraction_boxes, rule_thickness, fraction_lays_out, holds_exactly, item_lays_out,
    lays_out, list_lays_out, opt_lays_out, operator_box, over_under_lays_out, over_under_result,
    root_lays_out, scripts_result, stack_placed, stretchy_box, StackParts, counted_width,
    width_box_lays_out,
};

verus! {

/// Everything the layout of a subexpression depends on besides the expression itself.
pub struct LayoutOptions<'a, S: MathShaper> {
    pub shaper: &'a S,
    pub style: LayoutStyle,
    pub stretch_size: Option<Extents<i32>>,
    pub user_data: u64,
}

impl<'a, S: MathShaper> Clone for LayoutOptions<'a, S> {
    fn clone(&self) -> (r: Self)
        ensures
            r == *self,
    {
        LayoutOptions {
            shaper: self.shaper,
            style: self.style,
            stretch_size: self.stretch_size,
            user_data: self.user_data,
        }
    }
}

impl<'a, S: MathShaper> Copy for LayoutOptions<'a, S> {}

impl<'a, S: MathShaper> LayoutOptions<'a, S> {
    /// The same options with other user data.
    pub fn user_data(self, user_data: u64) -> (r: Self)
        ensures
            r == (LayoutOptions { user_data, ..self }),
    {
        LayoutOptions { user_data, ..self }
    }
}

/// How an operator stretches.
#[derive(Copy, Clone, Debug, Eq, PartialEq, Default)]
pub struct StretchProperties {
    pub intrinsic_size: u32,
    pub horizontal: bool,
}

/// What the surrounding layout needs to know of an (embellished) operator.
#[derive(Copy, Clone, Debug, Eq, PartialEq, Default)]
pub struct OperatorProperties {
    pub stretch_properties: Option<StretchProperties>,
    pub leading_space: i32,
    pub trailing_space: i32,
    pub is_large_op: bool,
}

/// The length in font units of `shaper`.
pub open spec fn font_units<S: MathShaper>(length: Length, shaper: &S) -> int {
    length.font_units_spec(
        shaper.em_size_spec() as int,
        shaper.ppem_spec().0 as int,
        shaper.constant_spec(MathConstant::DisplayOperatorMinHeight) as int,
    )
}

impl Length {
    /// The length as a whole number of font units of `shaper` (see `font_units_spec`).
    pub fn to_font_units<S: MathShaper>(self, shaper: &S) -> (r: i32)
        ensures
            r == font_units(self, shaper),
    {
        if self.is_null() {
            return 0;
        }
        let numerator = self.numerator();
        let denominator = self.denominator();
        match self.unit() {
            LengthUnit::Em => {
                let prod = wide_mul(shaper.em_size(), numerator);
                saturate_i64(div_trunc_i64(prod, denominator as i64))
            },
            LengthUnit::Point => {
                let ppem = shaper.ppem().0;
                let prod = wide_mul(shaper.em_size(), numerator);
                if ppem == 0 {
                    if prod > 0 {
                        i32::MAX
                    } else if prod < 0 {
                        i32::MIN
                    } else {
                        0
                    }
                } else {
                    saturate_i64(div_trunc_i64(prod, wide_mul_unsigned(denominator, ppem)))
                }
            },
            LengthUnit::DisplayOperatorMinHeight => {
                let c = shaper.math_constant(MathConstant::DisplayOperatorMinHeight);
                saturate_i64(div_trunc_i64(wide_mul(c, numerator), denominator as i64))
            },
        }
    }
}

/// Saturate an `i64` to the `i32` range.
fn saturate_i64(x: i64) -> (r: i32)
    ensures
        r == clamp_i32(x as int),
{
    saturate(x)
}

/// `value` raised to `min` and lowered to `max` where they are given (the minimum is applied
/// first).
pub fn clamp(value: i32, min: Option<i32>, max: Option<i32>) -> (r: i32)
    ensures
        r == match (min, max) {
            (Some(lo), _) if value < lo => lo,
            (_, Some(hi)) if value > hi => hi,
            _ => value,
        },
{
    if let Some(min) = min {
        if value < min {
            return min;
        }
    }
    if let Some(max) = max {
        if value > max {
            return max;
        }
    }
    value
}


/// `b` moved to `(x, y)`.
pub open spec fn moved(b: MathBox, x: int, y: int) -> MathBox {
    MathBox { origin: Vector { x: x as i32, y: y as i32 }, ..b }
}

/// The boxes inside a `Boxes` content (empty for other content).
pub open spec fn inner_boxes(c: MathBoxContent) -> Seq<MathBox> {
    match c {
        MathBoxContent::Boxes(v) => v@,
        _ => Seq::empty(),
    }
}

/// `r` is a box at the origin that holds exactly `boxes`, with the extents of `boxes` and the
/// user data of `options`.
pub open spec fn holds_boxes<S: MathShaper>(r: MathBox, boxes: Seq<MathBox>, options: LayoutOptions<S>) -> bool {
    &&& r.content is Boxes
    &&& inner_boxes(r.content) == boxes
    &&& r.origin == Vector::<i32>::zero_spec()
    &&& r.user_data == options.user_data
    &&& r.metrics.extents == metrics_of(r.content).extents
}

/// The vertical gap and shift for a limit, an over/under stretch stack or an over/under bar.
pub open spec fn over_under_gap_shift<S: MathShaper>(
    nucleus: MathBox,
    options: LayoutOptions<S>,
    as_over: bool,
    as_accent: bool,
    nucleus_is_large_op: bool,
    nucleus_is_horizontally_stretchy: bool,
) -> (int, int) {
    if nucleus_is_large_op {
        if as_over {
            (
                constant(options, MathConstant::UpperLimitGapMin),
                clamp_i32(constant(options, MathConstant::UpperLimitBaselineRiseMin) + nucleus.metrics.extents.ascent),
            )
        } else {
            (
                constant(options, MathConstant::LowerLimitGapMin),
                clamp_i32(constant(options, MathConstant::LowerLimitBaselineDropMin) + nucleus.metrics.extents.descent),
            )
        }
    } else if nucleus_is_horizontally_stretchy {
        if as_over {
            (
                constant(options, MathConstant::StretchStackGapBelowMin),
                constant(options, MathConstant::StretchStackTopShiftUp),
            )
        } else {
            (
                constant(options, MathConstant::StretchStackGapAboveMin),
                constant(options, MathConstant::StretchStackBottomShiftDown),
            )
        }
    } else if !as_accent {
        let gap = if as_over {
            constant(options, MathConstant::OverbarVerticalGap)
        } else {
            constant(options, MathConstant::UnderbarVerticalGap)
        };
        (gap, gap)
    } else {
        (0, 0)
    }
}

/// The vertical offset of the attachment from the nucleus' baseline.
pub open spec fn over_under_baseline_offset<S: MathShaper>(
    attachment: MathBox,
    nucleus: MathBox,
    options: LayoutOptions<S>,
    as_over: bool,
    as_accent: bool,
    nucleus_is_large_op: bool,
    nucleus_is_horizontally_stretchy: bool,
) -> int {
    let (gap, shift) = over_under_gap_shift(
        nucleus,
        options,
        as_over,
        as_accent,
        nucleus_is_large_op,
        nucleus_is_horizontally_stretchy,
    );
    if as_accent {
        if as_over {
            clamp_i32(
                -max_int(
                    clamp_i32(nucleus.metrics.extents.ascent - constant(options, MathConstant::AccentBaseHeight)),
                    0,
                ),
            )
        } else {
            nucleus.metrics.extents.descent as int
        }
    } else if as_over {
        clamp_i32(
            -max_int(
                shift,
                clamp_i32(nucleus.metrics.extents.ascent + gap + attachment.metrics.extents.descent),
            ),
        )
    } else {
        max_int(
            shift,
            clamp_i32(nucleus.metrics.extents.descent + gap + attachment.metrics.extents.ascent),
        )
    }
}

/// How far the attachment's center (its accent attachment point for an over accent) lies left
/// of the nucleus' center.
pub open spec fn over_under_center_difference(
    attachment: MathBox,
    nucleus: MathBox,
    as_over: bool,
    as_accent: bool,
) -> int {
    if as_accent && as_over {
        clamp_i32(
            clamp_i32(nucleus.origin.x + nucleus.metrics.top_accent_attachment) - clamp_i32(
                attachment.origin.x + attachment.metrics.top_accent_attachment,
            ),
        )
    } else {
        clamp_i32(
            clamp_i32(nucleus.origin.x + nucleus.metrics.extents.center_spec()) - clamp_i32(
                attachment.origin.x + attachment.metrics.extents.center_spec(),
            ),
        )
    }
}

/// The nucleus and the attachment as `layout_over_or_under` places them.
pub open spec fn over_under_placed<S: MathShaper>(
    attachment: MathBox,
    nucleus: MathBox,
    options: LayoutOptions<S>,
    as_over: bool,
    as_accent: bool,
    nucleus_is_large_op: bool,
    nucleus_is_horizontally_stretchy: bool,
) -> (MathBox, MathBox) {
    let offset = over_under_baseline_offset(
        attachment,
        nucleus,
        options,
        as_over,
        as_accent,
        nucleus_is_large_op,
        nucleus_is_horizontally_stretchy,
    );
    let att_y = clamp_i32(clamp_i32(attachment.origin.y + nucleus.origin.y) + offset);
    let cd = over_under_center_difference(attachment, nucleus, as_over, as_accent);
    let nuc_x = if cd < 0 && !as_accent {
        clamp_i32(nucleus.origin.x - cd)
    } else {
        nucleus.origin.x as int
    };
    let att_x0 = if cd < 0 && !as_accent {
        attachment.origin.x as int
    } else {
        clamp_i32(attachment.origin.x + cd)
    };
    let half_ic = div_trunc(nucleus.metrics.italic_correction as int, 2);
    let att_x = if nucleus_is_large_op {
        if as_over {
            clamp_i32(att_x0 + half_ic)
        } else {
            clamp_i32(att_x0 - half_ic)
        }
    } else {
        att_x0
    };
    (moved(nucleus, nuc_x, nucleus.origin.y as int), moved(attachment, att_x, att_y))
}

/// Places `attachment` above (`as_over`) or below `nucleus`: as an accent, a limit of a large
/// operator, a stretch stack or an over/under bar; the two are centered on each other (on the
/// accent attachment points for an accent above). The advance width is the nucleus' for an
/// accent and reaches the right of both boxes otherwise; the italic correction is the
/// nucleus' for an accent and 0 otherwise; the accent attachment point is the attachment's
/// above and the nucleus' below.
#[verifier::spinoff_prover]
#[verifier::rlimit(30)]
pub fn layout_over_or_under<S: MathShaper>(
    attachment: MathBox,
    nucleus: MathBox,
    options: LayoutOptions<S>,
    as_over: bool,
    as_accent: bool,
    nucleus_is_large_op: bool,
    nucleus_is_horizontally_stretchy: bool,
) -> (r: MathBox)
    ensures
        over_under_result(
            attachment,
            nucleus,
            options,
            as_over,
            as_accent,
            nucleus_is_large_op,
            nucleus_is_horizontally_stretchy,
            r,
        ),
{
    let ghost att0 = attachment;
    let ghost nuc0 = nucleus;
    let mut attachment = attachment;
    let mut nucleus = nucleus;
    let shaper = options.shaper;
    let mut gap: i32 = 0;
    let mut shift: i32 = 0;
    if nucleus_is_large_op {
        if as_over {
            gap = shaper.math_constant(MathConstant::UpperLimitGapMin);
            shift = sat_add(
                shaper.math_constant(MathConstant::UpperLimitBaselineRiseMin),
                nucleus.extents().ascent,
            );
        } else {
            gap = shaper.math_constant(MathConstant::LowerLimitGapMin);
            shift = sat_add(
                shaper.math_constant(MathConstant::LowerLimitBaselineDropMin),
                nucleus.extents().descent,
            );
        }
    } else if nucleus_is_horizontally_stretchy {
        if as_over {
            gap = shaper.math_constant(MathConstant::StretchStackGapBelowMin);
            shift = shaper.math_constant(MathConstant::StretchStackTopShiftUp);
        } else {
            gap = shaper.math_constant(MathConstant::StretchStackGapAboveMin);
            shift = shaper.math_constant(MathConstant::StretchStackBottomShiftDown);
        }
    } else if !as_accent {
        gap = if as_over {
            shaper.math_constant(MathConstant::OverbarVerticalGap)
        } else {
            shaper.math_constant(MathConstant::UnderbarVerticalGap)
        };
        shift = gap;
    }
    let baseline_offset = if as_accent {
        if as_over {
            let accent_base_height = shaper.math_constant(MathConstant::AccentBaseHeight);
            sat_neg(max_i32(sat_sub(nucleus.extents().ascent, accent_base_height), 0))
        } else {
            nucleus.extents().descent
        }
    } else {
        if as_over {
            let reach = saturate(
                nucleus.extents().ascent as i64 + gap as i64 + attachment.extents().descent as i64,
            );
            sat_neg(max_i32(shift, reach))
        } else {
            let reach = saturate(
                nucleus.extents().descent as i64 + gap as i64 + attachment.extents().ascent as i64,
            );
            max_i32(shift, reach)
        }
    };

    attachment.origin.y = sat_add(attachment.origin.y, nucleus.origin.y);
    attachment.origin.y = sat_add(attachment.origin.y, baseline_offset);

    // centering
    let center_difference = if as_accent && as_over {
        sat_sub(
            sat_add(nucleus.origin.x, nucleus.top_accent_attachment()),
            sat_add(attachment.origin.x, attachment.top_accent_attachment()),
        )
    } else {
        sat_sub(
            sat_add(nucleus.origin.x, nucleus.extents().center()),
            sat_add(attachment.origin.x, attachment.extents().center()),
        )
    };
    if center_difference < 0 && !as_accent {
        nucleus.origin.x = sat_sub(nucleus.origin.x, center_difference);
    } else {
        attachment.origin.x = sat_add(attachment.origin.x, center_difference);
    }

    // LargeOp italic correction
    if nucleus_is_large_op {
        let half = sat_div(nucleus.italic_correction(), 2);
        if as_over {
            attachment.origin.x = sat_add(attachment.origin.x, half);
        } else {
            attachment.origin.x = sat_sub(attachment.origin.x, half);
        }
    }

    let advance_width = if as_accent {
        nucleus.advance_width()
    } else {
        max_i32(
            sat_add(nucleus.origin.x, nucleus.advance_width()),
            sat_add(attachment.origin.x, attachment.advance_width()),
        )
    };
    let italic_correction = if as_accent {
        nucleus.italic_correction()
    } else {
        0
    };
    let top_accent_attachment = if as_over {
        sat_add(attachment.origin.x, attachment.top_accent_attachment())
    } else {
        sat_add(nucleus.origin.x, nucleus.top_accent_attachment())
    };
    proof {
        let (n, a) = over_under_placed(
            att0,
            nuc0,
            options,
            as_over,
            as_accent,
            nucleus_is_large_op,
            nucleus_is_horizontally_stretchy,
        );
        assert(nucleus == n);
        assert(attachment == a);
    }
    let mut v: Vec<MathBox> = Vec::new();
    v.push(nucleus);
    v.push(attachment);
    let mut math_box = MathBox::with_vec(v, options.user_data);
    // preserve the italic collection of the nucleus
    math_box.metrics.advance_width = advance_width;
    math_box.metrics.italic_correction = italic_correction;
    math_box.metrics.top_accent_attachment = top_accent_attachment;
    proof {
        let (n, a) = over_under_placed(
            att0,
            nuc0,
            options,
            as_over,
            as_accent,
            nucleus_is_large_op,
            nucleus_is_horizontally_stretchy,
        );
        assert(inner_boxes(math_box.content) =~= seq![n, a]);
    }
    math_box
}


/// The box `MathBox::with_line(from, to, thickness, user_data)` gives.
pub open spec fn line_box(from: Vector<i32>, to: Vector<i32>, thickness: u32, user_data: u64) -> MathBox {
    let content = MathBoxContent::Drawable(
        crate::math_box::Drawable::Line {
            vector: Vector { x: clamp_i32(to.x - from.x) as i32, y: clamp_i32(to.y - from.y) as i32 },
            thickness,
        },
    );
    MathBox { origin: from, metrics: metrics_of(content), content, user_data }
}

/// Numerator, fraction rule and denominator as `position_fraction` places them with a rule of
/// the given thickness.
pub open spec fn fraction_placed<S: MathShaper>(
    numerator: MathBox,
    denominator: MathBox,
    thickness: i32,
    options: LayoutOptions<S>,
) -> (MathBox, MathBox, MathBox) {
    let inline = options.style.math_style == crate::types::MathStyle::Inline;
    let axis_height = constant(options, MathConstant::AxisHeight);
    let shift_up = if inline {
        constant(options, MathConstant::FractionNumeratorShiftUp)
    } else {
        constant(options, MathConstant::FractionNumeratorDisplayStyleShiftUp)
    };
    let shift_dn = if inline {
        constant(options, MathConstant::FractionDenominatorShiftDown)
    } else {
        constant(options, MathConstant::FractionDenominatorDisplayStyleShiftDown)
    };
    let num_gap_min = if inline {
        constant(options, MathConstant::FractionNumeratorGapMin)
    } else {
        constant(options, MathConstant::FractionNumDisplayStyleGapMin)
    };
    let den_gap_min = if inline {
        constant(options, MathConstant::FractionDenominatorGapMin)
    } else {
        constant(options, MathConstant::FractionDenomDisplayStyleGapMin)
    };
    let half = div_trunc(thickness as int, 2);
    let numerator_shift_up = max_int(
        clamp_i32(shift_up - axis_height),
        clamp_i32(num_gap_min + half + numerator.metrics.extents.descent),
    );
    let denominator_shift_dn = max_int(
        clamp_i32(shift_dn + axis_height),
        clamp_i32(den_gap_min + half + denominator.metrics.extents.ascent),
    );
    let num_y = clamp_i32(clamp_i32(numerator.origin.y - axis_height) - numerator_shift_up);
    let den_y = clamp_i32(clamp_i32(denominator.origin.y - axis_height) + denominator_shift_dn);
    let cd = clamp_i32(
        clamp_i32(numerator.origin.x + numerator.metrics.extents.center_spec()) - clamp_i32(
            denominator.origin.x + denominator.metrics.extents.center_spec(),
        ),
    );
    let num_x = if cd < 0 {
        clamp_i32(numerator.origin.x - cd)
    } else {
        numerator.origin.x as int
    };
    let den_x = if cd < 0 {
        denominator.origin.x as int
    } else {
        clamp_i32(denominator.origin.x + cd)
    };
    let rule_y = clamp_i32(-axis_height);
    let from = Vector {
        x: min_int(
            clamp_i32(num_x + numerator.metrics.extents.left_side_bearing),
            clamp_i32(den_x + denominator.metrics.extents.left_side_bearing),
        ) as i32,
        y: rule_y as i32,
    };
    let to = Vector {
        x: max_int(
            clamp_i32(num_x + numerator.metrics.extents.right_edge_spec()),
            clamp_i32(den_x + denominator.metrics.extents.right_edge_spec()),
        ) as i32,
        y: rule_y as i32,
    };
    (
        moved(numerator, num_x, num_y),
        line_box(from, to, thickness as u32, options.user_data),
        moved(denominator, den_x, den_y),
    )
}

/// Stacks `numerator` over `denominator` with a fraction rule of the given thickness on the
/// math axis between them: each is shifted at least the font's standard amount away from the
/// axis and at least the minimal gap away from the rule, the narrower one is moved right so
/// that their centers line up, and the rule spans the ink of both.
pub fn position_fraction<S: MathShaper>(
    numerator: MathBox,
    denominator: MathBox,
    thickness: i32,
    options: LayoutOptions<S>,
) -> (r: MathBox)
    ensures
        ({
            let (n, rule, d) = fraction_placed(numerator, denominator, thickness, options);
            holds_exactly(r, seq![n, rule, d], options)
        }),
{
    let ghost num0 = numerator;
    let ghost den0 = denominator;
    let mut numerator = numerator;
    let mut denominator = denominator;
    let shaper = options.shaper;
    let inline = options.style.math_style == crate::types::MathStyle::Inline;
    let axis_height = shaper.math_constant(MathConstant::AxisHeight);
    let (numerator_shift_up, denominator_shift_dn) = if inline {
        (
            shaper.math_constant(MathConstant::FractionNumeratorShiftUp),
            shaper.math_constant(MathConstant::FractionDenominatorShiftDown),
        )
    } else {
        (
            shaper.math_constant(MathConstant::FractionNumeratorDisplayStyleShiftUp),
            shaper.math_constant(MathConstant::FractionDenominatorDisplayStyleShiftDown),
        )
    };
    let (numerator_gap_min, denominator_gap_min) = if inline {
        (
            shaper.math_constant(MathConstant::FractionNumeratorGapMin),
            shaper.math_constant(MathConstant::FractionDenominatorGapMin),
        )
    } else {
        (
            shaper.math_constant(MathConstant::FractionNumDisplayStyleGapMin),
            shaper.math_constant(MathConstant::FractionDenomDisplayStyleGapMin),
        )
    };
    let half = sat_div(thickness, 2);
    let numerator_shift_up = max_i32(
        sat_sub(numerator_shift_up, axis_height),
        saturate(numerator_gap_min as i64 + half as i64 + numerator.extents().descent as i64),
    );
    let denominator_shift_dn = max_i32(
        sat_add(denominator_shift_dn, axis_height),
        saturate(denominator_gap_min as i64 + half as i64 + denominator.extents().ascent as i64),
    );

    numerator.origin.y = sat_sub(numerator.origin.y, axis_height);
    denominator.origin.y = sat_sub(denominator.origin.y, axis_height);
    numerator.origin.y = sat_sub(numerator.origin.y, numerator_shift_up);
    denominator.origin.y = sat_add(denominator.origin.y, denominator_shift_dn);

    // centering
    let center_difference = sat_sub(
        sat_add(numerator.origin.x, numerator.extents().center()),
        sat_add(denominator.origin.x, denominator.extents().center()),
    );
    if center_difference < 0 {
        numerator.origin.x = sat_sub(numerator.origin.x, center_difference);
    } else {
        denominator.origin.x = sat_add(denominator.origin.x, center_difference);
    }

    // the fraction rule
    let rule_y = sat_neg(axis_height);
    let origin = Vector {
        x: min_i32(
            sat_add(numerator.origin.x, numerator.extents().left_side_bearing),
            sat_add(denominator.origin.x, denominator.extents().left_side_bearing),
        ),
        y: rule_y,
    };
    let target = Vector {
        x: max_i32(
            sat_add(numerator.origin.x, numerator.extents().right_edge()),
            sat_add(denominator.origin.x, denominator.extents().right_edge()),
        ),
        y: rule_y,
    };
    let fraction_rule = MathBox::with_line(origin, target, thickness as u32, options.user_data);
    proof {
        let (n, rule, d) = fraction_placed(num0, den0, thickness, options);
        assert(numerator == n);
        assert(denominator == d);
        assert(fraction_rule == rule);
    }
    let mut v: Vec<MathBox> = Vec::new();
    v.push(numerator);
    v.push(fraction_rule);
    v.push(denominator);
    let r = MathBox::with_vec(v, options.user_data);
    proof {
        let (n, rule, d) = fraction_placed(num0, den0, thickness, options);
        assert(inner_boxes(r.content) =~= seq![n, rule, d]);
    }
    r
}

/// In a placed fraction the centers of numerator and denominator line up, the rule lies on
/// the math axis, and the rule spans from the leftmost to the rightmost ink of the two
/// (for values far from the ends of the `i32` range).
pub proof fn lemma_fraction_centered<S: MathShaper>(
    numerator: MathBox,
    denominator: MathBox,
    thickness: i32,
    options: LayoutOptions<S>,
)
    requires
        crate::multiscripts::moderate(numerator.origin.x as int),
        crate::multiscripts::moderate(denominator.origin.x as int),
        crate::multiscripts::moderate(numerator.metrics.extents.width as int),
        crate::multiscripts::moderate(denominator.metrics.extents.width as int),
        crate::multiscripts::moderate(numerator.metrics.extents.left_side_bearing as int),
        crate::multiscripts::moderate(denominator.metrics.extents.left_side_bearing as int),
        crate::multiscripts::moderate(constant(options, MathConstant::AxisHeight)),
    ensures
        ({
            let (n, rule, d) = fraction_placed(numerator, denominator, thickness, options);
            &&& n.origin.x + numerator.metrics.extents.center_spec() == d.origin.x
                + denominator.metrics.extents.center_spec()
            &&& rule.origin.y == -constant(options, MathConstant::AxisHeight)
            &&& rule.origin.x == min_int(
                n.origin.x + numerator.metrics.extents.left_side_bearing,
                d.origin.x + denominator.metrics.extents.left_side_bearing,
            )
            &&& rule.origin.x + inner_line_length(rule) == max_int(
                n.origin.x + numerator.metrics.extents.right_edge_spec(),
                d.origin.x + denominator.metrics.extents.right_edge_spec(),
            )
        }),
{
}

/// The horizontal length of a line box.
pub open spec fn inner_line_length(b: MathBox) -> int {
    match b.content {
        MathBoxContent::Drawable(crate::math_box::Drawable::Line { vector, .. }) => vector.x as int,
        _ => 0,
    }
}


/// The percentage a font constant stands for: its low byte, at most 100.
pub open spec fn percent_of_constant(c: int) -> int {
    let b = (c as i32) as u8;
    if b > 100 {
        100
    } else {
        b as int
    }
}

/// The percentage a font constant stands for: its low byte, at most 100.
fn percent_from_constant(c: i32) -> (r: crate::types::PercentValue)
    ensures
        r@ == percent_of_constant(c as int),
{
    let b = c as u8;
    crate::types::PercentValue::new_clamped(b as i32)
}

/// The radical gap above the radicand for the style of `options`.
pub open spec fn radical_gap<S: MathShaper>(options: LayoutOptions<S>) -> int {
    if options.style.math_style == crate::types::MathStyle::Inline {
        constant(options, MathConstant::RadicalVerticalGap)
    } else {
        constant(options, MathConstant::RadicalDisplayStyleVerticalGap)
    }
}

/// The height a surd needs to cover `radicand`: its height, the radical gap and the rule.
pub open spec fn needed_surd_height<S: MathShaper>(radicand: MathBox, options: LayoutOptions<S>) -> int {
    clamp_i32(
        clamp_i32(radicand.metrics.extents.height_spec() + radical_gap(options)) + constant(
            options,
            MathConstant::RadicalRuleThickness,
        ),
    )
}

/// Surd, radical rule and radicand (after the degree, when there is one) as `position_root`
/// places them.
pub open spec fn root_placed<S: MathShaper>(
    surd: MathBox,
    radicand: MathBox,
    degree: Option<MathBox>,
    options: LayoutOptions<S>,
) -> Seq<MathBox> {
    let line_thickness = constant(options, MathConstant::RadicalRuleThickness);
    let surd_excess_height = clamp_i32(
        surd.metrics.extents.height_spec() - needed_surd_height(radicand, options),
    );
    let surd_y = clamp_i32(
        clamp_i32(radicand.metrics.extents.descent - surd.metrics.extents.descent) + div_trunc(
            surd_excess_height,
            2,
        ),
    );
    let surd_end = clamp_i32(surd.origin.x + surd.metrics.advance_width);
    let radicand_x = clamp_i32(radicand.origin.x + surd_end);
    let from = Vector {
        x: surd_end as i32,
        y: clamp_i32(
            clamp_i32(surd_y - surd.metrics.extents.ascent) + div_trunc(line_thickness, 2),
        ) as i32,
    };
    let to = Vector {
        x: clamp_i32(from.x + radicand.metrics.extents.right_edge_spec()) as i32,
        y: from.y,
    };
    let rule = line_box(from, to, line_thickness as u32, options.user_data);
    match degree {
        Some(degree) => {
            let percent = percent_of_constant(
                constant(options, MathConstant::RadicalDegreeBottomRaisePercent),
            );
            let kern_before = constant(options, MathConstant::RadicalKernBeforeDegree);
            let kern_after = constant(options, MathConstant::RadicalKernAfterDegree);
            let surd_height = clamp_i32(surd.metrics.extents.ascent + surd.metrics.extents.descent);
            let degree_bottom = clamp_i32(
                clamp_i32(surd_y + surd.metrics.extents.descent) - crate::types::scale_spec(
                    surd_height,
                    percent,
                ),
            );
            let surd_kern = clamp_i32(
                clamp_i32(kern_before + degree.metrics.advance_width) + kern_after,
            );
            seq![
                moved(
                    degree,
                    clamp_i32(degree.origin.x + kern_before),
                    clamp_i32(degree.origin.y + degree_bottom),
                ),
                moved(surd, clamp_i32(surd.origin.x + surd_kern), surd_y),
                moved(rule, clamp_i32(rule.origin.x + surd_kern), rule.origin.y as int),
                moved(radicand, clamp_i32(radicand_x + surd_kern), radicand.origin.y as int),
            ]
        },
        None => seq![
            moved(surd, surd.origin.x as int, surd_y),
            rule,
            moved(radicand, radicand_x, radicand.origin.y as int),
        ],
    }
}

/// Places a surd before `radicand` so that it covers the radicand with the radical gap and the
/// rule above it, draws the radical rule from the end of the surd over the radicand, and puts
/// the degree (when there is one) above the beginning of the surd, raised by the font's
/// percentage of the surd's height, with the font's kerning before and after it.
pub fn position_root<S: MathShaper>(
    surd: MathBox,
    radicand: MathBox,
    degree: Option<MathBox>,
    options: LayoutOptions<S>,
) -> (r: MathBox)
    ensures
        holds_exactly(r, root_placed(surd, radicand, degree, options), options),
{
    let ghost surd0 = surd;
    let ghost radicand0 = radicand;
    let ghost degree0 = degree;
    let mut surd = surd;
    let mut radicand = radicand;
    let shaper = options.shaper;
    let line_thickness = shaper.math_constant(MathConstant::RadicalRuleThickness);
    let vertical_gap = if options.style.math_style == crate::types::MathStyle::Inline {
        shaper.math_constant(MathConstant::RadicalVerticalGap)
    } else {
        shaper.math_constant(MathConstant::RadicalDisplayStyleVerticalGap)
    };
    let needed = sat_add(sat_add(radicand.extents().height(), vertical_gap), line_thickness);
    let surd_excess_height = sat_sub(surd.extents().height(), needed);
    surd.origin.y = sat_add(
        sat_sub(radicand.extents().descent, surd.extents().descent),
        sat_div(surd_excess_height, 2),
    );
    let surd_end = sat_add(surd.origin.x, surd.advance_width());
    radicand.origin.x = sat_add(radicand.origin.x, surd_end);
    let origin = Vector {
        x: surd_end,
        y: sat_add(sat_sub(surd.origin.y, surd.extents().ascent), sat_div(line_thickness, 2)),
    };
    let target = Vector { x: sat_add(origin.x, radicand.extents().right_edge()), y: origin.y };
    let mut radical_rule = MathBox::with_line(origin, target, line_thickness as u32, options.user_data);
    let mut boxes: Vec<MathBox> = Vec::new();
    match degree {
        Some(degree) => {
            let mut degree = degree;
            let percent = percent_from_constant(
                shaper.math_constant(MathConstant::RadicalDegreeBottomRaisePercent),
            );
            let kern_before = shaper.math_constant(MathConstant::RadicalKernBeforeDegree);
            let kern_after = shaper.math_constant(MathConstant::RadicalKernAfterDegree);
            let surd_height = sat_add(surd.extents().ascent, surd.extents().descent);
            let degree_bottom = sat_sub(
                sat_add(surd.origin.y, surd.extents().descent),
                percent.mul_i32(surd_height),
            );
            degree.origin.y = sat_add(degree.origin.y, degree_bottom);
            degree.origin.x = sat_add(degree.origin.x, kern_before);
            let surd_kern = sat_add(sat_add(kern_before, degree.advance_width()), kern_after);
            surd.origin.x = sat_add(surd.origin.x, surd_kern);
            radicand.origin.x = sat_add(radicand.origin.x, surd_kern);
            radical_rule.origin.x = sat_add(radical_rule.origin.x, surd_kern);
            boxes.push(degree);
        },
        None => {},
    }
    boxes.push(surd);
    boxes.push(radical_rule);
    boxes.push(radicand);
    let r = MathBox::with_vec(boxes, options.user_data);
    proof {
        assert(inner_boxes(r.content) =~= root_placed(surd0, radicand0, degree0, options));
    }
    r
}


/// The box `MathBox::empty(extents, user_data)` gives.
pub open spec fn empty_box(extents: Extents<i32>, user_data: u64) -> MathBox {
    let content = MathBoxContent::Empty(extents);
    MathBox { origin: Vector::<i32>::zero_spec(), metrics: metrics_of(content), content, user_data }
}

/// Nucleus and scripts as `attach_scripts` places them, without the space after the scripts.
pub open spec fn scripts_core<S: MathShaper>(
    nucleus: MathBox,
    subscript: Option<MathBox>,
    superscript: Option<MathBox>,
    nucleus_is_largeop: bool,
    options: LayoutOptions<S>,
) -> Seq<MathBox> {
    match (subscript, superscript) {
        (Some(sub), Some(sup)) => {
            let (sub_shift, sup_shift) = subsup_shifts(sub, sup, nucleus, options);
            seq![
                nucleus,
                attached(sub, nucleus, nucleus_is_largeop, CornerPosition::BottomRight, sub_shift, options),
                attached(sup, nucleus, nucleus_is_largeop, CornerPosition::TopRight, sup_shift, options),
            ]
        },
        (Some(sub), None) => seq![
            nucleus,
            attached(
                sub,
                nucleus,
                nucleus_is_largeop,
                CornerPosition::BottomRight,
                subscript_shift(sub, nucleus, options),
                options,
            ),
        ],
        (None, Some(sup)) => seq![
            nucleus,
            attached(
                sup,
                nucleus,
                nucleus_is_largeop,
                CornerPosition::TopRight,
                superscript_shift(sup, nucleus, options),
                options,
            ),
        ],
        (None, None) => seq![nucleus],
    }
}

/// Nucleus, scripts, and the font's space after the scripts placed at the right of them all.
pub open spec fn scripts_placed<S: MathShaper>(
    nucleus: MathBox,
    subscript: Option<MathBox>,
    superscript: Option<MathBox>,
    nucleus_is_largeop: bool,
    options: LayoutOptions<S>,
) -> Seq<MathBox> {
    let core = scripts_core(nucleus, subscript, superscript, nucleus_is_largeop, options);
    let space = empty_box(
        Extents {
            left_side_bearing: 0,
            width: constant(options, MathConstant::SpaceAfterScript) as i32,
            ascent: 0,
            descent: 0,
        },
        options.user_data,
    );
    core.push(moved(space, max_or_zero(box_advances(core)), 0))
}

/// Attaches a subscript and/or a superscript to the right of `nucleus`: each is shifted by
/// the font's script shifts (both scripts together keep the font's minimal gap between them),
/// moved past the nucleus' advance and italic correction and kerned with the font's math
/// kerning; the font's space after scripts follows. Without scripts the nucleus is returned.
pub fn attach_scripts<S: MathShaper>(
    nucleus: MathBox,
    subscript: Option<MathBox>,
    superscript: Option<MathBox>,
    nucleus_is_largeop: bool,
    options: LayoutOptions<S>,
) -> (r: MathBox)
    ensures
        scripts_result(nucleus, subscript, superscript, nucleus_is_largeop, options, r),
{
    if subscript.is_none() && superscript.is_none() {
        return nucleus;
    }
    let ghost sub0 = subscript;
    let ghost sup0 = superscript;
    let space_after_script = options.shaper.math_constant(MathConstant::SpaceAfterScript);
    let mut result: Vec<MathBox> = Vec::new();
    match (subscript, superscript) {
        (Some(subscript), Some(superscript)) => {
            let mut subscript = subscript;
            let mut superscript = superscript;
            let (sub_shift, super_shift) = get_subsup_shifts(&subscript, &superscript, &nucleus, options);
            position_attachment(&mut subscript, &nucleus, nucleus_is_largeop, CornerPosition::BottomRight, sub_shift, options);
            position_attachment(&mut superscript, &nucleus, nucleus_is_largeop, CornerPosition::TopRight, super_shift, options);
            result.push(nucleus);
            result.push(subscript);
            result.push(superscript);
        },
        (Some(subscript), None) => {
            let mut subscript = subscript;
            let sub_shift = get_subscript_shift_dn(&subscript, &nucleus, options);
            position_attachment(&mut subscript, &nucleus, nucleus_is_largeop, CornerPosition::BottomRight, sub_shift, options);
            result.push(nucleus);
            result.push(subscript);
        },
        (None, Some(superscript)) => {
            let mut superscript = superscript;
            let super_shift = get_superscript_shift_up(&superscript, &nucleus, options);
            position_attachment(&mut superscript, &nucleus, nucleus_is_largeop, CornerPosition::TopRight, super_shift, options);
            result.push(nucleus);
            result.push(superscript);
        },
        (None, None) => {},
    }
    proof {
        assert(result@ =~= scripts_core(nucleus, sub0, sup0, nucleus_is_largeop, options));
    }
    let mut space = MathBox::empty(Extents::new(0, space_after_script, 0, 0), options.user_data);
    space.origin.x = boxes_max_advance(&result);
    result.push(space);
    let r = MathBox::with_vec(result, options.user_data);
    proof {
        assert(inner_boxes(r.content) =~= scripts_placed(nucleus, sub0, sup0, nucleus_is_largeop, options));
    }
    r
}

/// The cursor and the italic correction of the previous box after the first `k` boxes of a
/// line: each box advances the cursor by its advance width, and the italic correction of the
/// previous box is added before an upright box (one without italic correction).
pub open spec fn line_state(bs: Seq<MathBox>, k: int) -> (int, int)
    decreases k,
{
    if k <= 0 {
        (0, 0)
    } else {
        let (cursor, prev_ic) = line_state(bs, k - 1);
        let b = bs[k - 1];
        let start = if b.metrics.italic_correction == 0 {
            clamp_i32(cursor + prev_ic)
        } else {
            cursor
        };
        (clamp_i32(start + b.metrics.advance_width), b.metrics.italic_correction as int)
    }
}

/// Where the `k`-th box of a line starts.
pub open spec fn line_start(bs: Seq<MathBox>, k: int) -> int {
    let (cursor, prev_ic) = line_state(bs, k);
    if bs[k].metrics.italic_correction == 0 {
        clamp_i32(cursor + prev_ic)
    } else {
        cursor
    }
}

/// The boxes of a line moved right by their start positions.
pub open spec fn line_placed(bs: Seq<MathBox>) -> Seq<MathBox> {
    Seq::new(
        bs.len(),
        |i: int| moved(bs[i], clamp_i32(bs[i].origin.x + line_start(bs, i)), bs[i].origin.y as int),
    )
}

/// Sets the boxes of a list one after the other on the baseline (see `line_state`).
pub fn place_in_line(boxes: Vec<MathBox>) -> (r: Vec<MathBox>)
    ensures
        r@ == line_placed(boxes@),
{
    let ghost bs = boxes@;
    let mut boxes = boxes;
    let mut cursor: i32 = 0;
    let mut previous_italic_correction: i32 = 0;
    let mut i: usize = 0;
    while i < boxes.len()
        invariant
            bs.len() == boxes.len(),
            i <= boxes.len(),
            (cursor as int, previous_italic_correction as int) == line_state(bs, i as int),
            forall|j: int| 0 <= j < i ==> boxes@[j] == #[trigger] line_placed(bs)[j],
            forall|j: int| i <= j < boxes.len() ==> boxes@[j] == bs[j],
        decreases boxes.len() - i,
    {
        let mut b = boxes.remove(i);
        // apply italic correction if current glyph is upright
        if b.italic_correction() == 0 {
            cursor = sat_add(cursor, previous_italic_correction);
        }
        b.origin.x = sat_add(b.origin.x, cursor);
        cursor = sat_add(cursor, b.advance_width());
        previous_italic_correction = b.italic_correction();
        boxes.insert(i, b);
        i = i + 1;
    }
    proof {
        assert(boxes@ =~= line_placed(bs));
    }
    boxes
}


/// Expressions that layout can handle: no field that is laid out names a glyph directly.
/// Parts that are not laid out (the scripts of an atom without nucleus, the parts of an
/// over/under without nucleus, the degree of a root without radicand, one part of a fraction
/// that lacks the other) may hold anything.
pub open spec fn supported(expr: MathExpression) -> bool
    decreases expr,
{
    item_supported(*expr.item)
}

/// An optional expression that layout can handle.
pub open spec fn opt_supported(expr: Option<MathExpression>) -> bool
    decreases expr,
{
    match expr {
        Some(e) => supported(e),
        None => true,
    }
}

/// A math item that layout can handle (see `supported`).
pub open spec fn item_supported(item: MathItem) -> bool
    decreases item,
{
    match item {
        MathItem::Field(f) => !(f is Glyph),
        MathItem::Space(_) => true,
        MathItem::Atom(a) => match a.nucleus {
            Some(n) => supported(n) && opt_supported(a.top_right) && opt_supported(a.bottom_right),
            None => true,
        },
        MathItem::OverUnder(o) => match o.nucleus {
            Some(n) => supported(n) && opt_supported(o.over) && opt_supported(o.under),
            None => true,
        },
        MathItem::GeneralizedFraction(f) => match (f.numerator, f.denominator) {
            (Some(n), Some(d)) => supported(n) && supported(d),
            _ => true,
        },
        MathItem::Root(r) => match r.radicand {
            Some(x) => supported(x) && opt_supported(r.degree),
            None => true,
        },
        MathItem::Operator(op) => !(op.field is Glyph),
        MathItem::List(l) => forall|i: int| 0 <= i < l@.len() ==> supported(#[trigger] l@[i]),
    }
}

/// The operator properties of an (embellished) operator: those of the operator itself, or of
/// the nucleus of an atom or over/under, or of the numerator of a fraction; `None` for
/// anything else.
pub open spec fn operator_properties_spec<S: MathShaper>(expr: MathExpression, shaper: &S) -> Option<OperatorProperties>
    decreases expr,
{
    match *expr.item {
        MathItem::Atom(a) => match a.nucleus {
            Some(n) => operator_properties_spec(n, shaper),
            None => None,
        },
        MathItem::OverUnder(o) => match o.nucleus {
            Some(n) => operator_properties_spec(n, shaper),
            None => None,
        },
        MathItem::GeneralizedFraction(f) => match f.numerator {
            Some(n) => operator_properties_spec(n, shaper),
            None => None,
        },
        MathItem::Operator(op) => Some(
            OperatorProperties {
                stretch_properties: if op.stretch_constraints is Some {
                    Some(StretchProperties { intrinsic_size: 0, horizontal: false })
                } else {
                    None
                },
                leading_space: font_units(op.leading_space, shaper) as i32,
                trailing_space: font_units(op.trailing_space, shaper) as i32,
                is_large_op: op.is_large_op,
            },
        ),
        _ => None,
    }
}

/// The expression is an (embellished) stretchy operator.
pub open spec fn can_stretch_spec<S: MathShaper>(expr: MathExpression, shaper: &S) -> bool {
    match operator_properties_spec(expr, shaper) {
        Some(p) => p.stretch_properties is Some,
        None => false,
    }
}

/// The expression is an (embellished) large operator.
pub open spec fn is_large_op_spec<S: MathShaper>(expr: MathExpression, shaper: &S) -> bool {
    match operator_properties_spec(expr, shaper) {
        Some(p) => p.is_large_op,
        None => false,
    }
}

/// The operator properties of an (embellished) operator (see `operator_properties_spec`).
pub fn operator_properties<S: MathShaper>(expr: &MathExpression, options: LayoutOptions<S>) -> (r: Option<OperatorProperties>)
    ensures
        r == operator_properties_spec(*expr, options.shaper),
    decreases expr,
{
    match &*expr.item {
        MathItem::Atom(a) => match &a.nucleus {
            Some(n) => operator_properties(n, options),
            None => None,
        },
        MathItem::OverUnder(o) => match &o.nucleus {
            Some(n) => operator_properties(n, options),
            None => None,
        },
        MathItem::GeneralizedFraction(f) => match &f.numerator {
            Some(n) => operator_properties(n, options),
            None => None,
        },
        MathItem::Operator(op) => {
            let stretch_properties = if op.stretch_constraints.is_some() {
                Some(StretchProperties { intrinsic_size: 0, horizontal: false })
            } else {
                None
            };
            Some(
                OperatorProperties {
                    stretch_properties,
                    leading_space: op.leading_space.to_font_units(options.shaper),
                    trailing_space: op.trailing_space.to_font_units(options.shaper),
                    is_large_op: op.is_large_op,
                },
            )
        },
        _ => None,
    }
}

/// Whether the expression is an (embellished) stretchy operator.
pub fn can_stretch<S: MathShaper>(expr: &MathExpression, options: LayoutOptions<S>) -> (r: bool)
    ensures
        r == can_stretch_spec(*expr, options.shaper),
{
    match operator_properties(expr, options) {
        Some(p) => p.stretch_properties.is_some(),
        None => false,
    }
}

/// Whether the expression is an (embellished) large operator.
pub fn is_large_op<S: MathShaper>(expr: &MathExpression, options: LayoutOptions<S>) -> (r: bool)
    ensures
        r == is_large_op_spec(*expr, options.shaper),
{
    match operator_properties(expr, options) {
        Some(p) => p.is_large_op,
        None => false,
    }
}

/// The style of a superscript (the script level stays at 255).
pub open spec fn script_style_spec(style: LayoutStyle) -> LayoutStyle {
    LayoutStyle {
        math_style: MathStyle::Inline,
        script_level: if style.script_level == 255 {
            255
        } else {
            (style.script_level + 1) as u8
        },
        ..style
    }
}

/// The style of a superscript (the script level stays at 255).
fn superscript_style_of(style: LayoutStyle) -> (r: LayoutStyle)
    ensures
        r == script_style_spec(style),
{
    style.with_increased_script_level().inline_style()
}

/// The style of a subscript: cramped superscript style.
fn subscript_style_of(style: LayoutStyle) -> (r: LayoutStyle)
    ensures
        r == (LayoutStyle { is_cramped: true, ..script_style_spec(style) }),
{
    superscript_style_of(style).cramped_style()
}

/// Lays out a field: nothing for the empty field, the shaped text for a text field.
pub fn layout_field<S: MathShaper>(field: &Field, options: LayoutOptions<S>) -> (r: MathBox)
    requires
        !(*field is Glyph),
    ensures
        r == field_box(*field, options),
{
    match field {
        Field::Unicode(content) => options.shaper.shape(content.as_str(), options.style, options.user_data),
        _ => MathBox::default(),
    }
}

/// Lays out a space: an empty box of its size in font units.
pub fn layout_space<S: MathShaper>(space: &MathSpace, options: LayoutOptions<S>) -> (r: MathBox)
    ensures
        r == empty_box(
            Extents {
                left_side_bearing: 0,
                width: font_units(space.width, options.shaper) as i32,
                ascent: font_units(space.ascent, options.shaper) as i32,
                descent: font_units(space.descent, options.shaper) as i32,
            },
            options.user_data,
        ),
{
    let extents = Extents {
        left_side_bearing: 0,
        width: space.width.to_font_units(options.shaper),
        ascent: space.ascent.to_font_units(options.shaper),
        descent: space.descent.to_font_units(options.shaper),
    };
    MathBox::empty(extents, options.user_data)
}

/// Lays out an expression with the options given; the expression's user data goes to its
/// boxes.
pub fn layout_expression<S: MathShaper>(expr: &MathExpression, options: LayoutOptions<S>) -> (r: MathBox)
    requires
        supported(*expr),
    ensures
        lays_out(*expr, options, r),
    decreases expr, 0nat,
{
    layout_item(&expr.item, options.user_data(expr.user_data))
}

/// Lays out an optional expression.
pub fn layout_opt<S: MathShaper>(expr: &Option<MathExpression>, options: LayoutOptions<S>) -> (r: Option<MathBox>)
    requires
        opt_supported(*expr),
    ensures
        r is Some == expr is Some,
        opt_lays_out(*expr, options, r),
    decreases expr, 0nat,
{
    match expr {
        Some(e) => Some(layout_expression(e, options)),
        None => None,
    }
}

/// Lays out a math item.
pub fn layout_item<S: MathShaper>(item: &MathItem, options: LayoutOptions<S>) -> (r: MathBox)
    requires
        item_supported(*item),
    ensures
        item_lays_out(*item, options, r),
    decreases item, 0nat,
{
    match item {
        MathItem::Field(field) => layout_field(field, options),
        MathItem::Space(space) => layout_space(space, options),
        MathItem::Atom(atom) => layout_atom(atom, options),
        MathItem::GeneralizedFraction(frac) => layout_fraction(frac, options),
        MathItem::OverUnder(over_under) => layout_over_under(over_under, options),
        MathItem::Root(root) => layout_root(root, options),
        MathItem::Operator(operator) => layout_operator(operator, options),
        MathItem::List(list) => layout_list(list, options),
    }
}

/// Lays out a list of expressions one after the other (stretchy operators stretch to the
/// height of the rest; see `place_in_line`).
pub fn layout_list<S: MathShaper>(list: &Vec<MathExpression>, options: LayoutOptions<S>) -> (r: MathBox)
    requires
        forall|i: int| 0 <= i < list@.len() ==> supported(#[trigger] list@[i]),
    ensures
        list_lays_out(*list, options, r),
    decreases list, 2nat,
{
    let boxes = layout_strechy_list(list, options);
    let ghost laid_out = boxes@;
    let placed = place_in_line(boxes);
    let r = MathBox::with_vec(placed, options.user_data);
    assert(holds_exactly(r, line_placed(laid_out), options));
    r
}

/// Lays out an atom: the nucleus with its subscript (bottom right) and superscript (top
/// right).
pub fn layout_atom<S: MathShaper>(atom: &Atom, options: LayoutOptions<S>) -> (r: MathBox)
    requires
        item_supported(MathItem::Atom(*atom)),
    ensures
        atom_lays_out(*atom, options, r),
    decreases atom, 0nat,
{
    match &atom.nucleus {
        None => MathBox::empty(Extents::zero(), options.user_data),
        Some(nucleus) => {
            let subscript_options = LayoutOptions { style: subscript_style_of(options.style), ..options };
            let superscript_options = LayoutOptions { style: superscript_style_of(options.style), ..options };
            let subscript = layout_opt(&atom.bottom_right, subscript_options);
            let superscript = layout_opt(&atom.top_right, superscript_options);
            let nucleus_is_largeop = is_large_op(nucleus, options);
            let nucleus_box = layout_expression(nucleus, options);
            let r = attach_scripts(nucleus_box, subscript, superscript, nucleus_is_largeop, options);
            r
        },
    }
}

/// The width of the box of an expression that does not stretch (0 for a stretchy or missing
/// one), with the box it was read from.
fn non_stretchy_width<S: MathShaper>(expr: &Option<MathExpression>, options: LayoutOptions<S>) -> (r: (
    i32,
    Ghost<Option<MathBox>>,
))
    requires
        opt_supported(*expr),
    ensures
        width_box_lays_out(*expr, options, r.1@),
        r.0 == counted_width(*expr, options.shaper, r.1@),
    decreases expr, 1nat,
{
    match expr {
        Some(e) => {
            if can_stretch(e, options) {
                (0, Ghost(None))
            } else {
                let b = layout_expression(e, options);
                (b.extents().width, Ghost(Some(b)))
            }
        },
        None => (0, Ghost(None)),
    }
}

/// Lays out an over/under: limits as scripts in inline style when `is_limits` is set,
/// otherwise the attachments stretched to the widest of the non-stretchy parts and placed
/// above and below the nucleus (see `layout_over_or_under`).
#[verifier::spinoff_prover]
#[verifier::rlimit(40)]
pub fn layout_over_under<S: MathShaper>(over_under: &OverUnder, options: LayoutOptions<S>) -> (r: MathBox)
    requires
        item_supported(MathItem::OverUnder(*over_under)),
    ensures
        over_under_lays_out(*over_under, options, r),
    decreases over_under, 2nat,
{
    let nucleus = match &over_under.nucleus {
        Some(nucleus) => nucleus,
        None => return MathBox::empty(Extents::zero(), options.user_data),
    };
    // Display `OverUnder` like an `Atom` if we want to render limits and the current style is
    // inline style.
    if over_under.is_limits && options.style.math_style == MathStyle::Inline {
        let subscript_options = LayoutOptions { style: subscript_style_of(options.style), ..options };
        let superscript_options = LayoutOptions { style: superscript_style_of(options.style), ..options };
        let subscript = layout_opt(&over_under.under, subscript_options);
        let superscript = layout_opt(&over_under.over, superscript_options);
        let nucleus_is_largeop = is_large_op(nucleus, options);
        let nucleus_box = layout_expression(nucleus, options);
        return attach_scripts(nucleus_box, subscript, superscript, nucleus_is_largeop, options);
    }
    let nucleus_is_largeop = is_large_op(nucleus, options);
    let nucleus_is_horizontally_stretchy = can_stretch(nucleus, options);

    let base_style = options.style.inline_style().no_flat_accent_style();
    let over_style = if over_under.over_is_accent {
        base_style
    } else {
        superscript_style_of(base_style)
    };
    let under_style = if over_under.under_is_accent {
        base_style
    } else {
        subscript_style_of(base_style)
    };
    let over_options = LayoutOptions { style: over_style, stretch_size: None, ..options };
    let under_options = LayoutOptions { style: under_style, stretch_size: None, ..options };
    assert(over_options == crate::layout_model::over_options(*over_under, options));
    assert(under_options == crate::layout_model::under_options(*over_under, options));

    // the maximal width of the non-stretchy items
    let (nucleus_width, Ghost(nucleus_width_box)) = non_stretchy_width(&over_under.nucleus, options);
    let (over_width, Ghost(over_width_box)) = non_stretchy_width(&over_under.over, over_options);
    let (under_width, Ghost(under_width_box)) = non_stretchy_width(&over_under.under, under_options);
    let mut max_width = max_i32(nucleus_width, max_i32(over_width, under_width));
    // the OverUnder has to stretch to at least the current stretch size
    if let Some(stretch_size) = options.stretch_size {
        max_width = max_i32(max_width, stretch_size.width);
    }

    // layout the rest
    let nucleus_stretch = match options.stretch_size {
        Some(e) => e,
        None => Extents::zero(),
    };
    let mut nucleus_options = options;
    nucleus_options.stretch_size = Some(Extents { width: max_width, ..nucleus_stretch });
    nucleus_options.style.as_accent = false;
    let mut over_options = over_options;
    over_options.stretch_size = Some(Extents { width: max_width, ..Extents::zero() });
    over_options.style.as_accent = over_under.over_is_accent;
    let mut under_options = under_options;
    under_options.stretch_size = Some(Extents { width: max_width, ..Extents::zero() });
    under_options.style.as_accent = over_under.under_is_accent;

    let nucleus_box = layout_expression(nucleus, nucleus_options);
    let over_box = layout_opt(&over_under.over, over_options);
    let under_box = layout_opt(&over_under.under, under_options);
    let ghost stretched_nucleus = nucleus_box;
    let ghost stretched_over = over_box;
    let ghost mut placed_over: Option<MathBox> = None;

    let nucleus_box = match over_box {
        Some(over) => {
            // enable flat accents if needed
            let height = options.shaper.math_constant(MathConstant::FlattenedAccentBaseHeight);
            let over = if over_under.over_is_accent && nucleus_box.extents().ascent >= height {
                let mut flat_options = over_options;
                flat_options.style.flat_accent = true;
                match &over_under.over {
                    Some(o) => layout_expression(o, flat_options),
                    None => over,
                }
            } else {
                over
            };
            proof {
                placed_over = Some(over);
            }
            layout_over_or_under(
                over,
                nucleus_box,
                options,
                true,
                over_under.over_is_accent,
                nucleus_is_largeop,
                nucleus_is_horizontally_stretchy,
            )
        },
        None => nucleus_box,
    };
    let r = match under_box {
        Some(under) => layout_over_or_under(
            under,
            nucleus_box,
            options,
            false,
            over_under.under_is_accent,
            nucleus_is_largeop,
            nucleus_is_horizontally_stretchy,
        ),
        None => nucleus_box,
    };
    let ghost parts = StackParts {
        nucleus_width_box,
        over_width_box,
        under_width_box,
        nucleus: stretched_nucleus,
        over: stretched_over,
        under: under_box,
        placed_over,
        middle: nucleus_box,
    };
    proof {
        let width = crate::layout_model::stack_width(*over_under, options, parts);
        assert(width == max_width);
        assert(nucleus_options == crate::layout_model::over_under_nucleus_options(options, width));
        assert(over_options == crate::layout_model::stretched_over_options(*over_under, options, width));
        assert(under_options == crate::layout_model::stretched_under_options(*over_under, options, width));
        assert(crate::layout_model::stack_parts_lay_out(*over_under, options, parts));
        assert(stack_placed(*over_under, options, r, parts));
        crate::layout_model::lemma_stack_lays_out(*over_under, options, r, parts);
    }
    r
}

/// Lays out a fraction: the numerator in inline style (one script level up when already
/// inline), the denominator cramped in the same style, placed by `position_fraction` with a
/// rule of the fraction's thickness (see `rule_thickness`).
pub fn layout_fraction<S: MathShaper>(frac: &GeneralizedFraction, options: LayoutOptions<S>) -> (r: MathBox)
    requires
        item_supported(MathItem::GeneralizedFraction(*frac)),
    ensures
        fraction_lays_out(*frac, options, r),
    decreases frac, 0nat,
{
    match (&frac.numerator, &frac.denominator) {
        (Some(numerator), Some(denominator)) => {
            let mut numerator_options = options;
            if options.style.math_style == MathStyle::Display {
                numerator_options.style.math_style = MathStyle::Inline;
            } else {
                numerator_options.style = numerator_options.style.with_increased_script_level();
            }
            let denominator_options = LayoutOptions {
                style: numerator_options.style.cramped_style(),
                ..options
            };
            let numerator_box = layout_expression(numerator, numerator_options);
            let denominator_box = layout_expression(denominator, denominator_options);
            let thickness = match &frac.thickness {
                Some(t) => match &*t.item {
                    MathItem::Space(space) => max_i32(0, space.width.to_font_units(options.shaper)),
                    _ => options.shaper.math_constant(MathConstant::FractionRuleThickness),
                },
                None => options.shaper.math_constant(MathConstant::FractionRuleThickness),
            };
            let r = position_fraction(numerator_box, denominator_box, thickness, options);
            assert(holds_exactly(
                r,
                fraction_boxes(numerator_box, denominator_box, rule_thickness(*frac, options) as i32, options),
                options,
            ));
            r
        },
        _ => MathBox::default(),
    }
}

/// `|x|` as an unsigned number.
fn unsigned_abs(x: i32) -> (r: u32)
    ensures
        r == if x < 0 {
            -x
        } else {
            x as int
        },
{
    if x < 0 {
        (-(x as i64)) as u32
    } else {
        x as u32
    }
}

/// Lays out a root: the radicand, a radical sign stretched to cover it (when the font can
/// stretch it), and the degree two script levels up in inline style, placed by
/// `position_root`.
pub fn layout_root<S: MathShaper>(root: &Root, options: LayoutOptions<S>) -> (r: MathBox)
    requires
        item_supported(MathItem::Root(*root)),
    ensures
        root_lays_out(*root, options, r),
    decreases root, 0nat,
{
    let radicand = match &root.radicand {
        Some(x) => x,
        None => return MathBox::default(),
    };
    let shaper = options.shaper;
    let radicand_box = layout_expression(radicand, options);
    let line_thickness = shaper.math_constant(MathConstant::RadicalRuleThickness);
    let vertical_gap = if options.style.math_style == MathStyle::Inline {
        shaper.math_constant(MathConstant::RadicalVerticalGap)
    } else {
        shaper.math_constant(MathConstant::RadicalDisplayStyleVerticalGap)
    };
    let needed_surd_height = sat_add(
        sat_add(radicand_box.extents().height(), vertical_gap),
        line_thickness,
    );
    proof {
        reveal_strlit("\u{221a}");
        assert("\u{221a}"@ =~= seq!['\u{221a}']);
    }
    let surd_shape = shaper.shape("\u{221a}", options.style, options.user_data);
    let surd = match surd_shape.first_glyph() {
        Some((glyph, _scale)) => {
            if shaper.is_stretchable(glyph.glyph_code, false) {
                shaper.stretch_glyph(
                    glyph.glyph_code,
                    false,
                    unsigned_abs(needed_surd_height),
                    options.style,
                    options.user_data,
                )
            } else {
                MathBox::default()
            }
        },
        None => MathBox::default(),
    };
    let mut degree_options = options;
    degree_options.style = degree_options.style.with_increased_script_level().with_increased_script_level();
    degree_options.style.math_style = MathStyle::Inline;
    let degree = layout_opt(&root.degree, degree_options);
    assert(surd == crate::layout_model::surd_box(radicand_box, options));
    position_root(surd, radicand_box, degree, options)
}

/// The height a large operator in display style is stretched to: the font's display operator
/// minimum height times 1.42.
pub open spec fn large_op_height(c: int) -> int {
    div_trunc(c * 142, 100)
}

/// Lays out an operator: stretched to the stretch size when it is stretchy and there is one
/// (vertically to cover the size around the math axis when symmetric, within its size
/// limits; horizontally to the width), enlarged in display style when it is a large
/// operator, and as its field otherwise.
pub fn layout_operator<S: MathShaper>(operator: &Operator, options: LayoutOptions<S>) -> (r: MathBox)
    requires
        !(operator.field is Glyph),
    ensures
        r == operator_box(*operator, options),
{
    match (options.stretch_size, operator.stretch_constraints) {
        (Some(stretch_size), Some(stretch_constraints)) => {
            let min_size = match stretch_constraints.min_size {
                Some(size) => Some(size.to_font_units(options.shaper)),
                None => None,
            };
            let max_size = match stretch_constraints.max_size {
                Some(size) => Some(size.to_font_units(options.shaper)),
                None => None,
            };
            let needed_height = if stretch_constraints.symmetric {
                let axis_height = options.shaper.math_constant(MathConstant::AxisHeight);
                crate::arith::sat_mul(
                    max_i32(
                        sat_sub(stretch_size.ascent, axis_height),
                        sat_add(axis_height, stretch_size.descent),
                    ),
                    2,
                )
            } else {
                sat_add(stretch_size.ascent, stretch_size.descent)
            };
            let needed_height = clamp(needed_height, min_size, max_size);
            let needed_height = max_i32(0, needed_height) as u32;
            layout_stretchy(operator, needed_height, stretch_size.width as u32, options)
        },
        _ => {
            if operator.is_large_op && options.style.math_style == MathStyle::Display {
                let c = options.shaper.math_constant(MathConstant::DisplayOperatorMinHeight);
                let display_min_height = div_trunc_i64(wide_mul(c, 142), 100);
                layout_stretchy(operator, display_min_height as u32, 0, options)
            } else {
                layout_field(&operator.field, options)
            }
        },
    }
}

/// Lays out the text of an operator stretched horizontally to `needed_width` (when nonzero
/// and the font can stretch its first glyph that way), else vertically to `needed_height`
/// (centered on the math axis when symmetric, otherwise spreading the excess evenly above
/// and below the stretch size), else as plain text. An operator without text is shaped as the
/// empty text.
pub fn layout_stretchy<S: MathShaper>(
    operator: &Operator,
    needed_height: u32,
    needed_width: u32,
    options: LayoutOptions<S>,
) -> (r: MathBox)
    requires
        !(operator.field is Glyph),
    ensures
        r == stretchy_box(*operator, needed_height, needed_width, options),
{
    // an operator without text shapes as the empty text
    let string: &str = match &operator.field {
        Field::Unicode(string) => string.as_str(),
        _ => {
            proof {
                reveal_strlit("");
                assert(""@ =~= Seq::<char>::empty());
            }
            ""
        },
    };
    let shaper = options.shaper;
    let shape_result = shaper.shape(string, options.style.no_flat_accent_style(), options.user_data);
    let first_glyph = match shape_result.first_glyph() {
        Some((glyph, _scale)) => glyph,
        None => return MathBox::empty(Extents::zero(), options.user_data),
    };
    if needed_width > 0 && shaper.is_stretchable(first_glyph.glyph_code, true) {
        return shaper.stretch_glyph(
            first_glyph.glyph_code,
            true,
            needed_width,
            options.style,
            options.user_data,
        );
    }
    if needed_height > 0 && shaper.is_stretchable(first_glyph.glyph_code, false) {
        let mut math_box = shaper.stretch_glyph(
            first_glyph.glyph_code,
            false,
            needed_height,
            options.style,
            options.user_data,
        );
        let stretch_constraints = match operator.stretch_constraints {
            Some(c) => c,
            None => StretchConstraints::unbounded(true),
        };
        if stretch_constraints.symmetric {
            let axis_height = shaper.math_constant(MathConstant::AxisHeight);
            let shift_up = sat_add(
                sat_div(sat_sub(math_box.extents().descent, math_box.extents().ascent), 2),
                axis_height,
            );
            math_box.origin.y = sat_sub(math_box.origin.y, shift_up);
        } else {
            let stretch_size = match options.stretch_size {
                Some(e) => e,
                None => Extents::zero(),
            };
            let excess_ascent = sat_sub(math_box.extents().ascent, stretch_size.ascent);
            let excess_descent = sat_sub(math_box.extents().descent, stretch_size.descent);
            math_box.origin.y = sat_add(math_box.origin.y, sat_div(sat_sub(excess_ascent, excess_descent), 2));
        }
        return math_box;
    }
    // fallback
    shaper.shape(string, options.style, options.user_data)
}

/// The radicand of a root begins where the surd ends: placed after the surd (and after the
/// degree and its kerns, which move both), its origin is its own origin plus the placed
/// surd's origin and advance width, so the two do not overlap; the surd and the radicand keep
/// their content and metrics. Stated where no sum leaves the `i32` range.
pub proof fn lemma_radicand_after_surd<S: MathShaper>(
    surd: MathBox,
    radicand: MathBox,
    degree: Option<MathBox>,
    options: LayoutOptions<S>,
)
    requires
        crate::multiscripts::moderate(surd.origin.x as int),
        crate::multiscripts::moderate(surd.metrics.advance_width as int),
        crate::multiscripts::moderate(radicand.origin.x as int),
        degree matches Some(d) ==> {
            &&& crate::multiscripts::moderate(d.metrics.advance_width as int)
            &&& crate::multiscripts::moderate(constant(options, MathConstant::RadicalKernBeforeDegree))
            &&& crate::multiscripts::moderate(constant(options, MathConstant::RadicalKernAfterDegree))
        },
    ensures
        ({
            let p = root_placed(surd, radicand, degree, options);
            let (s, r) = if degree is Some {
                (1int, 3int)
            } else {
                (0int, 2int)
            };
            &&& p.len() == r + 1
            &&& p[r].origin.x == p[s].origin.x + surd.metrics.advance_width + radicand.origin.x
            &&& p[r].content == radicand.content && p[r].metrics == radicand.metrics
            &&& p[s].content == surd.content && p[s].metrics == surd.metrics
            &&& degree is None ==> p[s].origin.x == surd.origin.x
        }),
{
}

/// Attachments placed under a nucleus (not as accents) go down and those placed over it go up:
/// below, the baseline offset is at least the shift and the nucleus' descent plus the gap plus
/// the attachment's ascent; above, it is at most minus the shift and minus the nucleus' ascent
/// plus the gap plus the attachment's descent (where these are not `i32::MIN`).
pub proof fn lemma_under_goes_down_over_goes_up<S: MathShaper>(
    attachment: MathBox,
    nucleus: MathBox,
    options: LayoutOptions<S>,
    nucleus_is_large_op: bool,
    nucleus_is_horizontally_stretchy: bool,
)
    ensures
        ({
            let (gap, shift) = over_under_gap_shift(nucleus, options, false, false, nucleus_is_large_op, nucleus_is_horizontally_stretchy);
            let below = over_under_baseline_offset(attachment, nucleus, options, false, false, nucleus_is_large_op, nucleus_is_horizontally_stretchy);
            &&& below >= shift
            &&& below >= clamp_i32(nucleus.metrics.extents.descent + gap + attachment.metrics.extents.ascent)
        }),
        ({
            let (gap, shift) = over_under_gap_shift(nucleus, options, true, false, nucleus_is_large_op, nucleus_is_horizontally_stretchy);
            let reach = clamp_i32(nucleus.metrics.extents.ascent + gap + attachment.metrics.extents.descent);
            let above = over_under_baseline_offset(attachment, nucleus, options, true, false, nucleus_is_large_op, nucleus_is_horizontally_stretchy);
            shift > i32::MIN && reach > i32::MIN ==> above <= -shift && above <= -reach
        }),
{
    let (gap, shift) = over_under_gap_shift(nucleus, options, true, false, nucleus_is_large_op, nucleus_is_horizontally_stretchy);
    assert(i32::MIN <= shift <= i32::MAX) by {
        assert(i32::MIN <= constant(options, MathConstant::UpperLimitBaselineRiseMin) <= i32::MAX);
        assert(i32::MIN <= constant(options, MathConstant::StretchStackTopShiftUp) <= i32::MAX);
        assert(i32::MIN <= constant(options, MathConstant::OverbarVerticalGap) <= i32::MAX);
    }
}

/// Scripts go to their corners: a subscript is moved down from the nucleus' baseline by the
/// subscript shift (at least the font's `SubscriptShiftDown`), a superscript up by the
/// superscript shift (at least the font's superscript shift up for the style), both keeping
/// their content and metrics; with both, the subscript goes down and the superscript up by
/// the shifts of `subsup_shifts`. The nucleus comes first, unmoved.
pub proof fn lemma_scripts_at_their_corners<S: MathShaper>(
    nucleus: MathBox,
    subscript: Option<MathBox>,
    superscript: Option<MathBox>,
    nucleus_is_largeop: bool,
    options: LayoutOptions<S>,
)
    ensures
        ({
            let c = scripts_core(nucleus, subscript, superscript, nucleus_is_largeop, options);
            &&& c.len() >= 1 && c[0] == nucleus
            &&& match (subscript, superscript) {
                (Some(b), None) => {
                    let shift = subscript_shift(b, nucleus, options);
                    &&& c.len() == 2
                    &&& c[1].origin.y == clamp_i32(clamp_i32(b.origin.y + nucleus.origin.y) + shift)
                    &&& c[1].content == b.content && c[1].metrics == b.metrics
                    &&& shift >= constant(options, MathConstant::SubscriptShiftDown)
                },
                (None, Some(p)) => {
                    let shift = superscript_shift(p, nucleus, options);
                    &&& c.len() == 2
                    &&& c[1].origin.y == clamp_i32(clamp_i32(p.origin.y + nucleus.origin.y) - shift)
                    &&& c[1].content == p.content && c[1].metrics == p.metrics
                    &&& shift >= if options.style.is_cramped {
                        constant(options, MathConstant::SuperscriptShiftUpCramped)
                    } else {
                        constant(options, MathConstant::SuperscriptShiftUp)
                    }
                },
                (Some(b), Some(p)) => {
                    let (down, up) = subsup_shifts(b, p, nucleus, options);
                    &&& c.len() == 3
                    &&& c[1].origin.y == clamp_i32(clamp_i32(b.origin.y + nucleus.origin.y) + down)
                    &&& c[1].content == b.content && c[1].metrics == b.metrics
                    &&& c[2].origin.y == clamp_i32(clamp_i32(p.origin.y + nucleus.origin.y) - up)
                    &&& c[2].content == p.content && c[2].metrics == p.metrics
                },
                (None, None) => c.len() == 1,
            }
        }),
{
}

/// In a placed fraction the numerator stands above the rule and the denominator below it:
/// the numerator's bottom is at least the font's numerator gap above the top of the rule, the
/// denominator's top at least the denominator gap below its bottom (both relative to where
/// they started), and each keeps its content and metrics (for values far from the ends of
/// the `i32` range).
pub proof fn lemma_fraction_stacked<S: MathShaper>(
    numerator: MathBox,
    denominator: MathBox,
    thickness: i32,
    options: LayoutOptions<S>,
)
    requires
        crate::multiscripts::moderate(numerator.origin.y as int),
        crate::multiscripts::moderate(denominator.origin.y as int),
        crate::multiscripts::moderate(numerator.metrics.extents.descent as int),
        crate::multiscripts::moderate(denominator.metrics.extents.ascent as int),
        crate::multiscripts::moderate(thickness as int),
        crate::multiscripts::moderate(constant(options, MathConstant::AxisHeight)),
        crate::multiscripts::moderate(constant(options, MathConstant::FractionNumeratorShiftUp)),
        crate::multiscripts::moderate(constant(options, MathConstant::FractionNumeratorDisplayStyleShiftUp)),
        crate::multiscripts::moderate(constant(options, MathConstant::FractionDenominatorShiftDown)),
        crate::multiscripts::moderate(constant(options, MathConstant::FractionDenominatorDisplayStyleShiftDown)),
        crate::multiscripts::moderate(constant(options, MathConstant::FractionNumeratorGapMin)),
        crate::multiscripts::moderate(constant(options, MathConstant::FractionNumDisplayStyleGapMin)),
        crate::multiscripts::moderate(constant(options, MathConstant::FractionDenominatorGapMin)),
        crate::multiscripts::moderate(constant(options, MathConstant::FractionDenomDisplayStyleGapMin)),
    ensures
        ({
            let (n, rule, d) = fraction_placed(numerator, denominator, thickness, options);
            let inline = options.style.math_style == crate::types::MathStyle::Inline;
            let num_gap = if inline {
                constant(options, MathConstant::FractionNumeratorGapMin)
            } else {
                constant(options, MathConstant::FractionNumDisplayStyleGapMin)
            };
            let den_gap = if inline {
                constant(options, MathConstant::FractionDenominatorGapMin)
            } else {
                constant(options, MathConstant::FractionDenomDisplayStyleGapMin)
            };
            let half = div_trunc(thickness as int, 2);
            &&& n.origin.y + numerator.metrics.extents.descent <= numerator.origin.y + rule.origin.y - half - num_gap
            &&& d.origin.y - denominator.metrics.extents.ascent >= denominator.origin.y + rule.origin.y + half + den_gap
            &&& n.content == numerator.content && n.metrics == numerator.metrics
            &&& d.content == denominator.content && d.metrics == denominator.metrics
        }),
{
    let t = thickness as int;
    assert(-0x1000_0000 <= div_trunc(t, 2) <= 0x1000_0000) by {
        if t >= 0 {
            assert(0 <= t / 2 <= t) by (nonlinear_arith)
                requires
                    t >= 0,
            ;
        } else {
            assert(0 <= (-t) / 2 <= -t) by (nonlinear_arith)
                requires
                    -t > 0,
            ;
        }
    }
}

/// Boxes set in a line follow each other: after a box without italic correction the next one
/// starts where that box's advance ends.
pub proof fn lemma_line_follows(bs: Seq<MathBox>, i: int)
    requires
        0 <= i,
        i + 1 < bs.len(),
        bs[i].metrics.italic_correction == 0,
    ensures
        line_start(bs, i + 1) == clamp_i32(line_start(bs, i) + bs[i].metrics.advance_width),
        line_placed(bs)[i].origin.x == clamp_i32(bs[i].origin.x + line_start(bs, i)),
        line_placed(bs)[i].content == bs[i].content,
{
}

/// An attachment placed over or under a nucleus is centered on it (on the accent attachment
/// points for an accent above), the limits of a large operator shifted by half its italic
/// correction (right above, left below); the attachment goes to the nucleus' baseline moved by
/// the baseline offset, and the nucleus stays on its own; both keep their content and metrics
/// (for values far from the ends of the `i32` range).
pub proof fn lemma_over_under_centered<S: MathShaper>(
    attachment: MathBox,
    nucleus: MathBox,
    options: LayoutOptions<S>,
    as_over: bool,
    as_accent: bool,
    nucleus_is_large_op: bool,
    nucleus_is_horizontally_stretchy: bool,
)
    requires
        crate::multiscripts::moderate(nucleus.origin.x as int),
        crate::multiscripts::moderate(attachment.origin.x as int),
        crate::multiscripts::moderate(nucleus.origin.y as int),
        crate::multiscripts::moderate(attachment.origin.y as int),
        crate::multiscripts::moderate(nucleus.metrics.extents.center_spec()),
        crate::multiscripts::moderate(attachment.metrics.extents.center_spec()),
        crate::multiscripts::moderate(nucleus.metrics.top_accent_attachment as int),
        crate::multiscripts::moderate(attachment.metrics.top_accent_attachment as int),
        crate::multiscripts::moderate(nucleus.metrics.italic_correction as int),
        crate::multiscripts::moderate(
            over_under_baseline_offset(
                attachment,
                nucleus,
                options,
                as_over,
                as_accent,
                nucleus_is_large_op,
                nucleus_is_horizontally_stretchy,
            ),
        ),
    ensures
        ({
            let (n, a) = over_under_placed(
                attachment,
                nucleus,
                options,
                as_over,
                as_accent,
                nucleus_is_large_op,
                nucleus_is_horizontally_stretchy,
            );
            let offset = over_under_baseline_offset(
                attachment,
                nucleus,
                options,
                as_over,
                as_accent,
                nucleus_is_large_op,
                nucleus_is_horizontally_stretchy,
            );
            let (cn, ca) = if as_accent && as_over {
                (nucleus.metrics.top_accent_attachment as int, attachment.metrics.top_accent_attachment as int)
            } else {
                (nucleus.metrics.extents.center_spec(), attachment.metrics.extents.center_spec())
            };
            let half_ic = div_trunc(nucleus.metrics.italic_correction as int, 2);
            let limit_shift = if !nucleus_is_large_op {
                0
            } else if as_over {
                half_ic
            } else {
                -half_ic
            };
            &&& a.origin.x + ca == n.origin.x + cn + limit_shift
            &&& a.origin.y == attachment.origin.y + nucleus.origin.y + offset
            &&& n.origin.y == nucleus.origin.y
            &&& a.content == attachment.content && a.metrics == attachment.metrics
            &&& n.content == nucleus.content && n.metrics == nucleus.metrics
        }),
{
    let ic = nucleus.metrics.italic_correction as int;
    assert(-0x1000_0000 <= div_trunc(ic, 2) <= 0x1000_0000) by {
        if ic >= 0 {
            assert(0 <= ic / 2 <= ic) by (nonlinear_arith)
                requires
                    ic >= 0,
            ;
        } else {
            assert(0 <= (-ic) / 2 <= -ic) by (nonlinear_arith)
                requires
                    -ic > 0,
            ;
        }
    }
}

/// A script attached to the right of a nucleus starts after the nucleus' advance width, with
/// the nucleus' italic correction added for a superscript of an ordinary nucleus and taken
/// away for a subscript of a large operator, and the math kerning of the two; it keeps its
/// content and metrics (for values far from the ends of the `i32` range).
pub proof fn lemma_script_after_nucleus<S: MathShaper>(
    attachment: MathBox,
    nucleus: MathBox,
    nucleus_is_largeop: bool,
    position: CornerPosition,
    shift: int,
    options: LayoutOptions<S>,
)
    requires
        !position.is_left_spec(),
        crate::multiscripts::moderate(nucleus.origin.x as int),
        crate::multiscripts::moderate(nucleus.metrics.advance_width as int),
        crate::multiscripts::moderate(nucleus.metrics.italic_correction as int),
        crate::multiscripts::moderate(
            crate::multiscripts::attachment_kern_spec(options.shaper, nucleus, attachment, position, shift),
        ),
    ensures
        ({
            let a = attached(attachment, nucleus, nucleus_is_largeop, position, shift, options);
            let ic = nucleus.metrics.italic_correction as int;
            let correction = if position.is_above_spec() && !nucleus_is_largeop {
                ic
            } else if !position.is_above_spec() && nucleus_is_largeop {
                -ic
            } else {
                0
            };
            &&& a.origin.x == nucleus.origin.x + nucleus.metrics.advance_width + correction
                + crate::multiscripts::attachment_kern_spec(options.shaper, nucleus, attachment, position, shift)
            &&& a.content == attachment.content && a.metrics == attachment.metrics
        }),
{
}

} // verus!
