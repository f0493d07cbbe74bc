//! Placement of subscripts and superscripts.
use vstd::prelude::*;

use crate::arith::{clamp_i32, max_i32, max_int, sat_add, sat_neg, sat_sub, saturate};
use crate::layout::LayoutOptions;
use crate::math_box::{MathBox, MathBoxMetrics, Vector};
use crate::shaper::{MathConstant, MathGlyph, MathShaper, Position};
use crate::types::{scale_spec, CornerPosition, PercentValue};

verus! {

/// The value of a math constant of the shaper in `options`.
pub open spec fn constant<S: MathShaper>(options: LayoutOptions<S>, c: MathConstant) -> int {
    options.shaper.constant_spec(c) as int
}

/// The shift of a superscript: at least the standard shift, enough to keep the superscript's
/// bottom above the minimum, and no more than the maximal baseline drop below the nucleus' top.
pub open spec fn superscript_shift_spec(
    superscript_descent: int,
    nucleus_ascent: int,
    std_shift_up: int,
    bottom_min: int,
    baseline_drop_max: int,
) -> int {
    max_int(
        clamp_i32(nucleus_ascent - baseline_drop_max),
        max_int(std_shift_up, clamp_i32(superscript_descent + bottom_min)),
    )
}

/// The shift of a subscript: at least the standard shift, enough to keep the subscript's top
/// below the maximum, and at least the minimal baseline drop below the nucleus' bottom.
pub open spec fn subscript_shift_spec(
    subscript_ascent: int,
    nucleus_descent: int,
    std_shift_dn: int,
    top_max: int,
    baseline_drop_min: int,
) -> int {
    max_int(
        clamp_i32(nucleus_descent + baseline_drop_min),
        max_int(std_shift_dn, clamp_i32(subscript_ascent - top_max)),
    )
}

/// The shift of `superscript` beside `nucleus` with the constants and style of `options`.
pub open spec fn superscript_shift<S: MathShaper>(superscript: MathBox, nucleus: MathBox, options: LayoutOptions<S>) -> int {
    superscript_shift_spec(
        superscript.metrics.extents.descent as int,
        nucleus.metrics.extents.ascent as int,
        if options.style.is_cramped {
            constant(options, MathConstant::SuperscriptShiftUpCramped)
        } else {
            constant(options, MathConstant::SuperscriptShiftUp)
        },
        constant(options, MathConstant::SuperscriptBottomMin),
        constant(options, MathConstant::SuperscriptBaselineDropMax),
    )
}

/// The shift of `subscript` beside `nucleus` with the constants of `options`.
pub open spec fn subscript_shift<S: MathShaper>(subscript: MathBox, nucleus: MathBox, options: LayoutOptions<S>) -> int {
    subscript_shift_spec(
        subscript.metrics.extents.ascent as int,
        nucleus.metrics.extents.descent as int,
        constant(options, MathConstant::SubscriptShiftDown),
        constant(options, MathConstant::SubscriptTopMax),
        constant(options, MathConstant::SubscriptBaselineDropMin),
    )
}

/// The shifts `(subscript, superscript)` of two scripts beside `nucleus`.
pub open spec fn subsup_shifts<S: MathShaper>(
    subscript: MathBox,
    superscript: MathBox,
    nucleus: MathBox,
    options: LayoutOptions<S>,
) -> (int, int) {
    subsup_shifts_spec(
        subscript_shift(subscript, nucleus, options),
        superscript_shift(superscript, nucleus, options),
        subscript.metrics.extents.ascent as int,
        superscript.metrics.extents.descent as int,
        constant(options, MathConstant::SubSuperscriptGapMin),
        constant(options, MathConstant::SuperscriptBottomMaxWithSubscript),
    )
}

/// How far a superscript is shifted up from the baseline of `nucleus`.
pub fn get_superscript_shift_up<S: MathShaper>(
    superscript: &MathBox,
    nucleus: &MathBox,
    options: LayoutOptions<S>,
) -> (r: Position)
    ensures
        r == superscript_shift_spec(
            superscript.metrics.extents.descent as int,
            nucleus.metrics.extents.ascent as int,
            if options.style.is_cramped {
                constant(options, MathConstant::SuperscriptShiftUpCramped)
            } else {
                constant(options, MathConstant::SuperscriptShiftUp)
            },
            constant(options, MathConstant::SuperscriptBottomMin),
            constant(options, MathConstant::SuperscriptBaselineDropMax),
        ),
{
    let shaper = options.shaper;
    let std_shift_up = shaper.math_constant(
        if options.style.is_cramped {
            MathConstant::SuperscriptShiftUpCramped
        } else {
            MathConstant::SuperscriptShiftUp
        },
    );
    let min_shift_up = sat_add(
        superscript.extents().descent,
        shaper.math_constant(MathConstant::SuperscriptBottomMin),
    );
    let min_shift_from_baseline_drop = sat_sub(
        nucleus.extents().ascent,
        shaper.math_constant(MathConstant::SuperscriptBaselineDropMax),
    );
    max_i32(min_shift_from_baseline_drop, max_i32(std_shift_up, min_shift_up))
}

/// How far a subscript is shifted down from the baseline of `nucleus`.
pub fn get_subscript_shift_dn<S: MathShaper>(
    subscript: &MathBox,
    nucleus: &MathBox,
    options: LayoutOptions<S>,
) -> (r: Position)
    ensures
        r == subscript_shift_spec(
            subscript.metrics.extents.ascent as int,
            nucleus.metrics.extents.descent as int,
            constant(options, MathConstant::SubscriptShiftDown),
            constant(options, MathConstant::SubscriptTopMax),
            constant(options, MathConstant::SubscriptBaselineDropMin),
        ),
{
    let shaper = options.shaper;
    let min_shift_dn_from_baseline_drop = sat_add(
        nucleus.extents().descent,
        shaper.math_constant(MathConstant::SubscriptBaselineDropMin),
    );
    let std_shift_dn = shaper.math_constant(MathConstant::SubscriptShiftDown);
    let min_shift_dn = sat_sub(
        subscript.extents().ascent,
        shaper.math_constant(MathConstant::SubscriptTopMax),
    );
    max_i32(min_shift_dn_from_baseline_drop, max_i32(std_shift_dn, min_shift_dn))
}

/// The shifts `(subscript, superscript)` after opening the gap between the scripts to at least
/// `gap_min`: the superscript moves up as far as `bottom_max` allows, the subscript moves down
/// by the rest.
pub open spec fn subsup_shifts_spec(
    sub_shift: int,
    super_shift: int,
    subscript_ascent: int,
    superscript_descent: int,
    gap_min: int,
    bottom_max: int,
) -> (int, int) {
    let super_bottom = clamp_i32(super_shift - superscript_descent);
    let sub_top = clamp_i32(subscript_ascent - sub_shift);
    let gap = clamp_i32(super_bottom - sub_top);
    if gap < gap_min {
        let needed_space = clamp_i32(gap_min - gap);
        let super_max_additional_shift = clamp_i32(bottom_max - super_bottom);
        if needed_space <= super_max_additional_shift {
            (sub_shift, clamp_i32(super_shift + needed_space))
        } else {
            (
                clamp_i32(sub_shift + clamp_i32(needed_space - super_max_additional_shift)),
                clamp_i32(super_shift + super_max_additional_shift),
            )
        }
    } else {
        (sub_shift, super_shift)
    }
}

/// A value in the `i32` range.
pub open spec fn fits_i32(x: int) -> bool {
    i32::MIN <= x <= i32::MAX
}

/// None of the values `subsup_shifts_spec` computes leaves the `i32` range.
pub open spec fn no_gap_overflow(
    sub_shift: int,
    super_shift: int,
    subscript_ascent: int,
    superscript_descent: int,
    gap_min: int,
    bottom_max: int,
) -> bool {
    let super_bottom = super_shift - superscript_descent;
    let sub_top = subscript_ascent - sub_shift;
    let gap = super_bottom - sub_top;
    let needed = gap_min - gap;
    let room = bottom_max - super_bottom;
    &&& fits_i32(super_bottom)
    &&& fits_i32(sub_top)
    &&& fits_i32(gap)
    &&& fits_i32(needed)
    &&& fits_i32(room)
    &&& fits_i32(super_shift + needed)
    &&& fits_i32(super_shift + room)
    &&& fits_i32(needed - room)
    &&& fits_i32(sub_shift + (needed - room))
}

/// A value far from the ends of the `i32` range.
pub open spec fn moderate(x: int) -> bool {
    -0x1000_0000 <= x <= 0x1000_0000
}

/// After `subsup_shifts_spec` the gap between the bottom of the superscript and the top of the
/// subscript is exactly `gap_min` when it was smaller, and the shifts are unchanged otherwise;
/// the subscript never moves up, and the bottom of the superscript ends no higher than
/// `bottom_max` unless it started higher and stayed put; wherever no value leaves the `i32`
/// range.
pub proof fn lemma_subsup_gap(
    sub_shift: int,
    super_shift: int,
    subscript_ascent: int,
    superscript_descent: int,
    gap_min: int,
    bottom_max: int,
)
    requires
        fits_i32(sub_shift),
        fits_i32(super_shift),
        fits_i32(subscript_ascent),
        fits_i32(superscript_descent),
        fits_i32(gap_min),
        fits_i32(bottom_max),
        no_gap_overflow(sub_shift, super_shift, subscript_ascent, superscript_descent, gap_min, bottom_max),
    ensures
        ({
            let (sub, sup) = subsup_shifts_spec(
                sub_shift,
                super_shift,
                subscript_ascent,
                superscript_descent,
                gap_min,
                bottom_max,
            );
            let gap = (super_shift - superscript_descent) - (subscript_ascent - sub_shift);
            &&& (sup - superscript_descent) - (subscript_ascent - sub) >= gap_min
            &&& gap < gap_min ==> (sup - superscript_descent) - (subscript_ascent - sub) == gap_min
            &&& gap >= gap_min ==> sub == sub_shift && sup == super_shift
            &&& sub >= sub_shift
            &&& sup - superscript_descent <= max_int(bottom_max, super_shift - superscript_descent)
        }),
{
}

/// The shifts `(subscript, superscript)` for a nucleus with both scripts.
pub fn get_subsup_shifts<S: MathShaper>(
    subscript: &MathBox,
    superscript: &MathBox,
    nucleus: &MathBox,
    options: LayoutOptions<S>,
) -> (r: (Position, Position))
    ensures
        (r.0 as int, r.1 as int) == subsup_shifts_spec(
            subscript_shift_spec(
                subscript.metrics.extents.ascent as int,
                nucleus.metrics.extents.descent as int,
                constant(options, MathConstant::SubscriptShiftDown),
                constant(options, MathConstant::SubscriptTopMax),
                constant(options, MathConstant::SubscriptBaselineDropMin),
            ),
            superscript_shift_spec(
                superscript.metrics.extents.descent as int,
                nucleus.metrics.extents.ascent as int,
                if options.style.is_cramped {
                    constant(options, MathConstant::SuperscriptShiftUpCramped)
                } else {
                    constant(options, MathConstant::SuperscriptShiftUp)
                },
                constant(options, MathConstant::SuperscriptBottomMin),
                constant(options, MathConstant::SuperscriptBaselineDropMax),
            ),
            subscript.metrics.extents.ascent as int,
            superscript.metrics.extents.descent as int,
            constant(options, MathConstant::SubSuperscriptGapMin),
            constant(options, MathConstant::SuperscriptBottomMaxWithSubscript),
        ),
{
    let shaper = options.shaper;
    let mut super_shift = get_superscript_shift_up(superscript, nucleus, options);
    let mut sub_shift = get_subscript_shift_dn(subscript, nucleus, options);

    let subsup_gap_min = shaper.math_constant(MathConstant::SubSuperscriptGapMin);
    let super_bottom_max = shaper.math_constant(MathConstant::SuperscriptBottomMaxWithSubscript);

    let super_bottom = sat_sub(super_shift, superscript.extents().descent);
    let sub_top = sat_sub(subscript.extents().ascent, sub_shift);
    let gap = sat_sub(super_bottom, sub_top);
    if gap < subsup_gap_min {
        let needed_space = sat_sub(subsup_gap_min, gap);
        let super_max_additional_shift = sat_sub(super_bottom_max, super_bottom);
        if needed_space <= super_max_additional_shift {
            super_shift = sat_add(super_shift, needed_space);
        } else {
            super_shift = sat_add(super_shift, super_max_additional_shift);
            sub_shift = sat_add(sub_shift, sat_sub(needed_space, super_max_additional_shift));
        }
    }
    (sub_shift, super_shift)
}

/// `attachment` placed at `position` beside `nucleus`, shifted by `shift`.
pub open spec fn attached<S: MathShaper>(
    attachment: MathBox,
    nucleus: MathBox,
    nucleus_is_largeop: bool,
    position: CornerPosition,
    shift: int,
    options: LayoutOptions<S>,
) -> MathBox {
    MathBox {
        origin: Vector {
            x: attachment_x_spec(
                nucleus,
                nucleus_is_largeop,
                position.is_above_spec(),
                attachment_kern_spec(options.shaper, nucleus, attachment, position, shift),
            ) as i32,
            y: (if position.is_above_spec() {
                clamp_i32(clamp_i32(attachment.origin.y + nucleus.origin.y) - shift)
            } else {
                clamp_i32(clamp_i32(attachment.origin.y + nucleus.origin.y) + shift)
            }) as i32,
        },
        ..attachment
    }
}

/// The glyph of a box on the side facing a script at `position`: the last glyph for a script on
/// the left, the first glyph otherwise.
pub open spec fn facing_glyph(b: MathBox, left: bool) -> Option<(MathGlyph, PercentValue)> {
    if left {
        b.last_glyph_spec()
    } else {
        b.first_glyph_spec()
    }
}

/// The kerning between a nucleus and an attachment at `position` shifted by `shift`, from the
/// math kerning tables of the two facing glyphs; 0 when either box has no glyph.
pub open spec fn attachment_kern_spec<S: MathShaper>(
    shaper: &S,
    nucleus: MathBox,
    attachment: MathBox,
    position: CornerPosition,
    shift: int,
) -> int {
    match (facing_glyph(nucleus, position.is_left_spec()), facing_glyph(attachment, position.is_left_spec())) {
        (Some((nucleus_glyph, scale)), Some((attachment_glyph, attachment_scale))) => {
            let base_correction_height = if position.is_above_spec() {
                clamp_i32(shift - scale_spec(attachment.metrics.extents.descent as int, attachment_scale@))
            } else {
                clamp_i32(scale_spec(attachment.metrics.extents.ascent as int, attachment_scale@) - shift)
            };
            let attachment_correction_height = if position.is_above_spec() {
                clamp_i32(scale_spec(nucleus.metrics.extents.ascent as int, scale@) - shift)
            } else {
                clamp_i32(shift - scale_spec(nucleus.metrics.extents.descent as int, scale@))
            };
            let k1 = scale_spec(
                shaper.kerning_spec(nucleus_glyph, position, base_correction_height as i32) as int,
                scale@,
            );
            let k2 = scale_spec(
                shaper.kerning_spec(
                    attachment_glyph,
                    diagonal_mirror_spec(position),
                    attachment_correction_height as i32,
                ) as int,
                attachment_scale@,
            );
            clamp_i32(k1 + k2)
        },
        _ => 0,
    }
}

/// The position mirrored both horizontally and vertically.
pub open spec fn diagonal_mirror_spec(p: CornerPosition) -> CornerPosition {
    match p {
        CornerPosition::TopLeft => CornerPosition::BottomRight,
        CornerPosition::TopRight => CornerPosition::BottomLeft,
        CornerPosition::BottomLeft => CornerPosition::TopRight,
        CornerPosition::BottomRight => CornerPosition::TopLeft,
    }
}

/// The horizontal kerning between `nucleus` and an attachment at `attachment_position`.
pub fn get_attachment_kern<S: MathShaper>(
    nucleus: &MathBox,
    attachment: &MathBox,
    attachment_position: CornerPosition,
    attachment_shift: Position,
    options: LayoutOptions<S>,
) -> (r: Position)
    ensures
        r == attachment_kern_spec(
            options.shaper,
            *nucleus,
            *attachment,
            attachment_position,
            attachment_shift as int,
        ),
{
    let shaper = options.shaper;
    let left = attachment_position.is_left();
    let nucleus_glyph = if left {
        nucleus.last_glyph()
    } else {
        nucleus.first_glyph()
    };
    let attachment_glyph = if left {
        attachment.last_glyph()
    } else {
        attachment.first_glyph()
    };
    match (nucleus_glyph, attachment_glyph) {
        (Some((nucleus_glyph, scale)), Some((attachment_glyph, attachment_scale))) => {
            let top = attachment_position.is_above();
            let bch = if top {
                sat_sub(attachment_shift, attachment_scale.mul_i32(attachment.extents().descent))
            } else {
                sat_sub(attachment_scale.mul_i32(attachment.extents().ascent), attachment_shift)
            };
            let ach = if top {
                sat_sub(scale.mul_i32(nucleus.extents().ascent), attachment_shift)
            } else {
                sat_sub(attachment_shift, scale.mul_i32(nucleus.extents().descent))
            };
            let k1 = scale.mul_i32(shaper.math_kerning(&nucleus_glyph, attachment_position, bch));
            let mirrored = attachment_position.diagonal_mirror();
            proof {
                assert(mirrored == diagonal_mirror_spec(attachment_position));
            }
            let k2 = attachment_scale.mul_i32(shaper.math_kerning(&attachment_glyph, mirrored, ach));
            sat_add(k1, k2)
        },
        _ => 0,
    }
}

/// The horizontal position of an attachment to the right of `nucleus`: after its advance width,
/// the italic correction (added for superscripts, taken away for subscripts of large operators)
/// and the kerning.
pub open spec fn attachment_x_spec(nucleus: MathBox, nucleus_is_largeop: bool, top: bool, kern: int) -> int {
    let italic_correction = if nucleus_is_largeop && !top {
        clamp_i32(-nucleus.metrics.italic_correction)
    } else if !nucleus_is_largeop && top {
        nucleus.metrics.italic_correction as int
    } else {
        0
    };
    clamp_i32(
        clamp_i32(nucleus.origin.x + nucleus.metrics.advance_width + italic_correction) + kern,
    )
}

/// Moves `attachment` to its place at `attachment_position` beside `nucleus`, shifted
/// vertically by `attachment_vert_shift` (up for top positions, down otherwise).
///
/// Only positions right of the nucleus are supported.
pub fn position_attachment<S: MathShaper>(
    attachment: &mut MathBox,
    nucleus: &MathBox,
    nucleus_is_largeop: bool,
    attachment_position: CornerPosition,
    attachment_vert_shift: i32,
    options: LayoutOptions<S>,
)
    requires
        !attachment_position.is_left_spec(),
    ensures
        final(attachment).content == old(attachment).content,
        final(attachment).metrics == old(attachment).metrics,
        final(attachment).user_data == old(attachment).user_data,
        final(attachment).origin.x == attachment_x_spec(
            *nucleus,
            nucleus_is_largeop,
            attachment_position.is_above_spec(),
            attachment_kern_spec(
                options.shaper,
                *nucleus,
                *old(attachment),
                attachment_position,
                attachment_vert_shift as int,
            ),
        ),
        final(attachment).origin.y == if attachment_position.is_above_spec() {
            clamp_i32(clamp_i32(old(attachment).origin.y + nucleus.origin.y) - attachment_vert_shift)
        } else {
            clamp_i32(clamp_i32(old(attachment).origin.y + nucleus.origin.y) + attachment_vert_shift)
        },
{
    let shift = attachment_vert_shift;
    let kern = get_attachment_kern(nucleus, attachment, attachment_position, shift, options);
    let top = attachment_position.is_above();
    let italic_correction = if nucleus_is_largeop && !top {
        sat_neg(nucleus.italic_correction())
    } else if !nucleus_is_largeop && top {
        nucleus.italic_correction()
    } else {
        0
    };
    let x = saturate(
        nucleus.origin.x as i64 + nucleus.advance_width() as i64 + italic_correction as i64,
    );
    attachment.origin.x = sat_add(x, kern);
    attachment.origin.y = sat_add(attachment.origin.y, nucleus.origin.y);
    if top {
        attachment.origin.y = sat_sub(attachment.origin.y, shift);
    } else {
        attachment.origin.y = sat_add(attachment.origin.y, shift);
    }
}

} // verus!
