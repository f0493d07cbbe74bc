//! What the layout of an expression is: a relation between an expression, the layout options
//! and the box that layout gives, case by case over the items, in terms of the font's
//! answers (`MathShaper`'s spec functions) and the placements of `layout`.
use vstd::prelude::*;

use crate::arith::{clamp_i32, div_trunc, max_int, min_int};
use crate::layout::{
    can_stretch_spec, empty_box, fraction_placed, font_units, holds_boxes, is_large_op_spec,
    large_op_height, moved, needed_surd_height, operator_properties_spec, over_under_placed,
    root_placed, script_style_spec, scripts_placed, LayoutOptions,
};
use crate::math_box::{metrics_of, Extents, MathBox};
use crate::multiscripts::constant;
use crate::shaper::{MathConstant, MathShaper};
use crate::types::{
    Atom, Field, GeneralizedFraction, LayoutStyle, MathExpression, MathItem, MathSpace, MathStyle,
    Operator, OverUnder, Root,
};

verus! {

/// The box `MathBox::default()` gives: empty, at the origin, with user data 0.
pub open spec fn default_box() -> MathBox {
    empty_box(Extents::<i32>::zero_spec(), 0)
}

/// `options` with other user data.
pub open spec fn with_user_data<S: MathShaper>(options: LayoutOptions<S>, user_data: u64) -> LayoutOptions<S> {
    LayoutOptions { user_data, ..options }
}

/// `options` with another style.
pub open spec fn with_style<S: MathShaper>(options: LayoutOptions<S>, style: LayoutStyle) -> LayoutOptions<S> {
    LayoutOptions { style, ..options }
}

/// The style of a superscript.
pub open spec fn superscript_style(style: LayoutStyle) -> LayoutStyle {
    script_style_spec(style)
}

/// The style of a subscript: the superscript style, cramped.
pub open spec fn subscript_style(style: LayoutStyle) -> LayoutStyle {
    LayoutStyle { is_cramped: true, ..script_style_spec(style) }
}

/// One script level up (at most 255).
pub open spec fn increased_script_level(style: LayoutStyle) -> LayoutStyle {
    LayoutStyle {
        script_level: if style.script_level == 255 {
            255
        } else {
            (style.script_level + 1) as u8
        },
        ..style
    }
}

/// The box of a field: the shaped text, or the default box.
pub open spec fn field_box<S: MathShaper>(field: Field, options: LayoutOptions<S>) -> MathBox {
    match field {
        Field::Unicode(s) => options.shaper.shape_spec(s@, options.style, options.user_data),
        _ => default_box(),
    }
}

/// The box of a space: empty, with its size in font units.
pub open spec fn space_box<S: MathShaper>(space: MathSpace, options: LayoutOptions<S>) -> MathBox {
    empty_box(
        Extents {
            left_side_bearing: 0,
            width: font_units(space.width, options.shaper) as i32,
            ascent: font_units(space.ascent, options.shaper) as i32,
            descent: font_units(space.descent, options.shaper) as i32,
        },
        options.user_data,
    )
}

/// The text of an operator (empty when its field holds no text).
pub open spec fn operator_text(operator: Operator) -> Seq<char> {
    match operator.field {
        Field::Unicode(s) => s@,
        _ => Seq::empty(),
    }
}

/// The box of an operator stretched to `needed_width` (horizontally, when nonzero and the
/// font can) or else to `needed_height` (vertically, when nonzero and the font can; then
/// centered on the math axis when symmetric, otherwise shifted by half the difference of the
/// excess ascent and the excess descent over the stretch size), or else its plain text.
pub open spec fn stretchy_box<S: MathShaper>(
    operator: Operator,
    needed_height: u32,
    needed_width: u32,
    options: LayoutOptions<S>,
) -> MathBox {
    let shaper = options.shaper;
    let text = operator_text(operator);
    let shaped = shaper.shape_spec(
        text,
        LayoutStyle { flat_accent: false, ..options.style },
        options.user_data,
    );
    match shaped.first_glyph_spec() {
        None => empty_box(Extents::<i32>::zero_spec(), options.user_data),
        Some((glyph, _scale)) => {
            let code = glyph.glyph_code;
            if needed_width > 0 && shaper.stretchable_spec(code, true) {
                shaper.stretch_spec(code, true, needed_width, options.style, options.user_data)
            } else if needed_height > 0 && shaper.stretchable_spec(code, false) {
                let b = shaper.stretch_spec(code, false, needed_height, options.style, options.user_data);
                let symmetric = match operator.stretch_constraints {
                    Some(c) => c.symmetric,
                    None => true,
                };
                let e = b.metrics.extents;
                let y = if symmetric {
                    let shift_up = clamp_i32(
                        clamp_i32(div_trunc(clamp_i32(e.descent - e.ascent), 2)) + constant(
                            options,
                            MathConstant::AxisHeight,
                        ),
                    );
                    clamp_i32(b.origin.y - shift_up)
                } else {
                    let size = match options.stretch_size {
                        Some(s) => s,
                        None => Extents::<i32>::zero_spec(),
                    };
                    let excess_ascent = clamp_i32(e.ascent - size.ascent);
                    let excess_descent = clamp_i32(e.descent - size.descent);
                    clamp_i32(b.origin.y + clamp_i32(div_trunc(clamp_i32(excess_ascent - excess_descent), 2)))
                };
                moved(b, b.origin.x as int, y)
            } else {
                shaper.shape_spec(text, options.style, options.user_data)
            }
        },
    }
}

/// `value` raised to `min` and lowered to `max` where they are given (the minimum first).
pub open spec fn clamped(value: int, min: Option<int>, max: Option<int>) -> int {
    match (min, max) {
        (Some(lo), _) if value < lo => lo,
        (_, Some(hi)) if value > hi => hi,
        _ => value,
    }
}

/// The height a stretchy operator must cover for the stretch size `size`: around the math
/// axis when symmetric, ascent plus descent otherwise; then held within the size limits.
pub open spec fn needed_operator_height<S: MathShaper>(
    size: Extents<i32>,
    constraints: crate::types::StretchConstraints,
    options: LayoutOptions<S>,
) -> int {
    let axis = constant(options, MathConstant::AxisHeight);
    let needed = if constraints.symmetric {
        clamp_i32(
            max_int(clamp_i32(size.ascent - axis), clamp_i32(axis + size.descent)) * 2,
        )
    } else {
        clamp_i32(size.ascent + size.descent)
    };
    let min = match constraints.min_size {
        Some(l) => Some(font_units(l, options.shaper)),
        None => None,
    };
    let max = match constraints.max_size {
        Some(l) => Some(font_units(l, options.shaper)),
        None => None,
    };
    max_int(0, clamped(needed, min, max))
}

/// The box of an operator: stretched to the stretch size when both it and the operator's
/// stretch constraints are there; enlarged to 1.42 times the font's display operator minimum
/// height when it is a large operator in display style; its text otherwise.
pub open spec fn operator_box<S: MathShaper>(operator: Operator, options: LayoutOptions<S>) -> MathBox {
    match (options.stretch_size, operator.stretch_constraints) {
        (Some(size), Some(constraints)) => stretchy_box(
            operator,
            needed_operator_height(size, constraints, options) as u32,
            size.width as u32,
            options,
        ),
        _ => if operator.is_large_op && options.style.math_style == MathStyle::Display {
            stretchy_box(
                operator,
                large_op_height(constant(options, MathConstant::DisplayOperatorMinHeight)) as u32,
                0,
                options,
            )
        } else {
            field_box(operator.field, options)
        },
    }
}

/// The surd for a radicand box: the radical sign of the font stretched vertically to
/// `needed_surd_height` when the font can stretch it, the default box otherwise.
pub open spec fn surd_box<S: MathShaper>(radicand: MathBox, options: LayoutOptions<S>) -> MathBox {
    let shaper = options.shaper;
    let shaped = shaper.shape_spec(seq!['\u{221a}'], options.style, options.user_data);
    match shaped.first_glyph_spec() {
        Some((glyph, _scale)) => if shaper.stretchable_spec(glyph.glyph_code, false) {
            let needed = needed_surd_height(radicand, options);
            let size = if needed < 0 {
                -needed
            } else {
                needed
            };
            shaper.stretch_spec(glyph.glyph_code, false, size as u32, options.style, options.user_data)
        } else {
            default_box()
        },
        None => default_box(),
    }
}

/// `r` is what `attach_scripts` makes of a nucleus and its scripts: the nucleus itself without
/// scripts, else a box holding the boxes of `scripts_placed` with their metrics.
pub open spec fn scripts_result<S: MathShaper>(
    nucleus: MathBox,
    subscript: Option<MathBox>,
    superscript: Option<MathBox>,
    nucleus_is_largeop: bool,
    options: LayoutOptions<S>,
    r: MathBox,
) -> bool {
    &&& subscript is None && superscript is None ==> r == nucleus
    &&& !(subscript is None && superscript is None) ==> holds_boxes(
        r,
        scripts_placed(nucleus, subscript, superscript, nucleus_is_largeop, options),
        options,
    ) && r.metrics == metrics_of(r.content)
}

/// `r` is what `layout_over_or_under` makes of an attachment and a nucleus.
pub open spec fn over_under_result<S: MathShaper>(
    attachment: MathBox,
    nucleus: MathBox,
    options: LayoutOptions<S>,
    as_over: bool,
    as_accent: bool,
    nucleus_is_large_op: bool,
    nucleus_is_horizontally_stretchy: bool,
    r: MathBox,
) -> bool {
    let (n, a) = over_under_placed(
        attachment,
        nucleus,
        options,
        as_over,
        as_accent,
        nucleus_is_large_op,
        nucleus_is_horizontally_stretchy,
    );
    &&& holds_boxes(r, seq![n, a], options)
    &&& r.metrics.advance_width == if as_accent {
        nucleus.metrics.advance_width as int
    } else {
        max_int(
            clamp_i32(n.origin.x + nucleus.metrics.advance_width),
            clamp_i32(a.origin.x + attachment.metrics.advance_width),
        )
    }
    &&& r.metrics.italic_correction == if as_accent {
        nucleus.metrics.italic_correction as int
    } else {
        0
    }
    &&& r.metrics.top_accent_attachment == if as_over {
        clamp_i32(a.origin.x + attachment.metrics.top_accent_attachment)
    } else {
        clamp_i32(n.origin.x + nucleus.metrics.top_accent_attachment)
    }
}

/// `r` holds exactly `boxes` at the origin, with their metrics.
pub open spec fn holds_exactly<S: MathShaper>(r: MathBox, boxes: Seq<MathBox>, options: LayoutOptions<S>) -> bool {
    holds_boxes(r, boxes, options) && r.metrics == metrics_of(r.content)
}

/// The options of the numerator of a fraction: inline style in display style, one script
/// level up otherwise.
pub open spec fn numerator_options<S: MathShaper>(options: LayoutOptions<S>) -> LayoutOptions<S> {
    if options.style.math_style == MathStyle::Display {
        with_style(options, LayoutStyle { math_style: MathStyle::Inline, ..options.style })
    } else {
        with_style(options, increased_script_level(options.style))
    }
}

/// The options of the denominator of a fraction: those of the numerator, cramped.
pub open spec fn denominator_options<S: MathShaper>(options: LayoutOptions<S>) -> LayoutOptions<S> {
    with_style(options, LayoutStyle { is_cramped: true, ..numerator_options(options).style })
}

/// The options of the degree of a root: two script levels up, inline.
pub open spec fn degree_options<S: MathShaper>(options: LayoutOptions<S>) -> LayoutOptions<S> {
    with_style(
        options,
        LayoutStyle {
            math_style: MathStyle::Inline,
            ..increased_script_level(increased_script_level(options.style))
        },
    )
}

/// The style an over/under starts from for its attachments: inline, without flat accents.
pub open spec fn over_under_base_style(style: LayoutStyle) -> LayoutStyle {
    LayoutStyle { math_style: MathStyle::Inline, flat_accent: false, ..style }
}

/// The style of the part above an over/under: the base style for an accent, superscript
/// style otherwise.
pub open spec fn over_style(over_under: OverUnder, style: LayoutStyle) -> LayoutStyle {
    if over_under.over_is_accent {
        over_under_base_style(style)
    } else {
        superscript_style(over_under_base_style(style))
    }
}

/// The style of the part below an over/under: the base style for an accent, subscript style
/// otherwise.
pub open spec fn under_style(over_under: OverUnder, style: LayoutStyle) -> LayoutStyle {
    if over_under.under_is_accent {
        over_under_base_style(style)
    } else {
        subscript_style(over_under_base_style(style))
    }
}

/// The widest of the non-stretchy parts of an over/under, and the width of the stretch size.
pub open spec fn over_under_width<S: MathShaper>(
    nucleus_width: int,
    over_width: int,
    under_width: int,
    options: LayoutOptions<S>,
) -> int {
    let w = max_int(nucleus_width, max_int(over_width, under_width));
    match options.stretch_size {
        Some(size) => max_int(w, size.width as int),
        None => w,
    }
}

/// The options for the nucleus of an over/under that stretches to `width`: the stretch size
/// keeps its ascent and descent, and the nucleus is no accent.
pub open spec fn over_under_nucleus_options<S: MathShaper>(options: LayoutOptions<S>, width: int) -> LayoutOptions<S> {
    let size = match options.stretch_size {
        Some(s) => s,
        None => Extents::<i32>::zero_spec(),
    };
    LayoutOptions {
        stretch_size: Some(Extents { width: width as i32, ..size }),
        style: LayoutStyle { as_accent: false, ..options.style },
        ..options
    }
}

/// The options for an attachment of an over/under in `style`, stretching to `width`.
pub open spec fn attachment_options<S: MathShaper>(
    options: LayoutOptions<S>,
    style: LayoutStyle,
    as_accent: bool,
    width: int,
) -> LayoutOptions<S> {
    LayoutOptions {
        stretch_size: Some(Extents { width: width as i32, ..Extents::<i32>::zero_spec() }),
        style: LayoutStyle { as_accent, ..style },
        ..options
    }
}

/// The options of the elements of a list that stretch: a stretch size with the largest
/// ascent and descent of the elements that do not stretch (0 when there are none).
pub open spec fn list_stretch_options<S: MathShaper>(
    list: Seq<MathExpression>,
    boxes: Seq<MathBox>,
    options: LayoutOptions<S>,
) -> LayoutOptions<S> {
    let n = list.len() as int;
    LayoutOptions {
        stretch_size: Some(
            Extents {
                left_side_bearing: 0,
                width: 0,
                ascent: kept_max(list, boxes, options.shaper, n, true) as i32,
                descent: kept_max(list, boxes, options.shaper, n, false) as i32,
            },
        ),
        ..options
    }
}

/// The largest ascent (or descent) of the boxes of the first `k` elements of a list that do
/// not stretch; 0 when there are none.
pub open spec fn kept_max<S: MathShaper>(
    list: Seq<MathExpression>,
    boxes: Seq<MathBox>,
    shaper: &S,
    k: int,
    ascent: bool,
) -> int
    decreases k,
{
    match kept_max_opt(list, boxes, shaper, k, ascent) {
        Some(m) => m,
        None => 0,
    }
}

/// The largest ascent (or descent) of the boxes of the first `k` elements of a list that do
/// not stretch, if there are any.
pub open spec fn kept_max_opt<S: MathShaper>(
    list: Seq<MathExpression>,
    boxes: Seq<MathBox>,
    shaper: &S,
    k: int,
    ascent: bool,
) -> Option<int>
    decreases k,
{
    if k <= 0 {
        None
    } else {
        let prev = kept_max_opt(list, boxes, shaper, k - 1, ascent);
        if can_stretch_spec(list[k - 1], shaper) {
            prev
        } else {
            let e = boxes[k - 1].metrics.extents;
            let v = if ascent {
                e.ascent as int
            } else {
                e.descent as int
            };
            match prev {
                Some(m) => Some(max_int(m, v)),
                None => Some(v),
            }
        }
    }
}

/// The boxes of a fraction as `position_fraction` places them with a rule of the given
/// thickness.
pub open spec fn fraction_boxes<S: MathShaper>(
    num: MathBox,
    den: MathBox,
    thickness: i32,
    options: LayoutOptions<S>,
) -> Seq<MathBox> {
    let (a, rule, b) = fraction_placed(num, den, thickness, options);
    seq![a, rule, b]
}

/// The thickness of the rule of a fraction: the font's fraction rule thickness when the
/// fraction gives none (or gives an expression that is no space), the width of the space it
/// gives (in font units, at least 0) otherwise. A thickness of 0 draws the fraction as a stack
/// without a visible rule.
pub open spec fn rule_thickness<S: MathShaper>(frac: GeneralizedFraction, options: LayoutOptions<S>) -> int {
    match frac.thickness {
        Some(t) => match *t.item {
            MathItem::Space(space) => max_int(0, font_units(space.width, options.shaper)),
            _ => constant(options, MathConstant::FractionRuleThickness),
        },
        None => constant(options, MathConstant::FractionRuleThickness),
    }
}

/// The boxes of an operator element of a list in display style: its leading space, its own
/// box `b` moved past it, and its trailing space.
pub open spec fn element_boxes<S: MathShaper>(item: MathExpression, options: LayoutOptions<S>, b: MathBox) -> Seq<MathBox> {
    let p = operator_properties_spec(item, options.shaper)->0;
    let lead = p.leading_space as int;
    let left = empty_box(
        Extents { left_side_bearing: 0, width: p.leading_space, ascent: 0, descent: 0 },
        options.user_data,
    );
    let right = empty_box(
        Extents { left_side_bearing: 0, width: p.trailing_space, ascent: 0, descent: 0 },
        options.user_data,
    );
    seq![
        left,
        moved(b, clamp_i32(b.origin.x + lead), b.origin.y as int),
        moved(right, clamp_i32(lead + b.metrics.advance_width), 0),
    ]
}

/// The boxes an over/under laid out as a stack is made of.
pub struct StackParts {
    /// The boxes the widths of the nucleus, the over and the under were read from (for those
    /// that are there and do not stretch).
    pub nucleus_width_box: Option<MathBox>,
    pub over_width_box: Option<MathBox>,
    pub under_width_box: Option<MathBox>,
    /// The nucleus, the over and the under stretched to the common width.
    pub nucleus: MathBox,
    pub over: Option<MathBox>,
    pub under: Option<MathBox>,
    /// The over as placed: laid out again with flat accents for an accent over a high nucleus.
    pub placed_over: Option<MathBox>,
    /// The nucleus with the over placed above it.
    pub middle: MathBox,
}

/// The width an optional part of an over/under counts with: that of its box `b` when it is
/// there and does not stretch, 0 otherwise.
pub open spec fn counted_width<S: MathShaper>(expr: Option<MathExpression>, shaper: &S, b: Option<MathBox>) -> int {
    match expr {
        Some(e) => if can_stretch_spec(e, shaper) {
            0
        } else {
            b->0.metrics.extents.width as int
        },
        None => 0,
    }
}

/// The width the parts of an over/under stretch to: the widest of the non-stretchy parts, and
/// the width of the stretch size.
pub open spec fn stack_width<S: MathShaper>(over_under: OverUnder, options: LayoutOptions<S>, parts: StackParts) -> int {
    over_under_width(
        counted_width(over_under.nucleus, options.shaper, parts.nucleus_width_box),
        counted_width(over_under.over, options.shaper, parts.over_width_box),
        counted_width(over_under.under, options.shaper, parts.under_width_box),
        options,
    )
}

/// The options of the part above an over/under before it stretches.
pub open spec fn over_options<S: MathShaper>(over_under: OverUnder, options: LayoutOptions<S>) -> LayoutOptions<S> {
    LayoutOptions { style: over_style(over_under, options.style), stretch_size: None, ..options }
}

/// The options of the part below an over/under before it stretches.
pub open spec fn under_options<S: MathShaper>(over_under: OverUnder, options: LayoutOptions<S>) -> LayoutOptions<S> {
    LayoutOptions { style: under_style(over_under, options.style), stretch_size: None, ..options }
}

/// The options of the over of an over/under stretching to `width`.
pub open spec fn stretched_over_options<S: MathShaper>(
    over_under: OverUnder,
    options: LayoutOptions<S>,
    width: int,
) -> LayoutOptions<S> {
    attachment_options(options, over_style(over_under, options.style), over_under.over_is_accent, width)
}

/// The options of the under of an over/under stretching to `width`.
pub open spec fn stretched_under_options<S: MathShaper>(
    over_under: OverUnder,
    options: LayoutOptions<S>,
    width: int,
) -> LayoutOptions<S> {
    attachment_options(options, under_style(over_under, options.style), over_under.under_is_accent, width)
}

/// Whether the over of an over/under is laid out again with flat accents: it is an accent
/// and the stretched nucleus is at least as high as the font's flattened accent base height.
pub open spec fn flattens_over<S: MathShaper>(over_under: OverUnder, options: LayoutOptions<S>, nucleus: MathBox) -> bool {
    over_under.over_is_accent && nucleus.metrics.extents.ascent >= constant(
        options,
        MathConstant::FlattenedAccentBaseHeight,
    )
}

/// `r` places the parts of an over/under stack: the (placed) over above the nucleus with
/// `layout_over_or_under`, giving `middle`, then the under below `middle`.
pub open spec fn stack_placed<S: MathShaper>(
    over_under: OverUnder,
    options: LayoutOptions<S>,
    r: MathBox,
    parts: StackParts,
) -> bool {
    let large_op = match over_under.nucleus {
        Some(n) => is_large_op_spec(n, options.shaper),
        None => false,
    };
    let stretchy = match over_under.nucleus {
        Some(n) => can_stretch_spec(n, options.shaper),
        None => false,
    };
    &&& match parts.over {
        Some(o) => {
            &&& parts.placed_over is Some
            &&& !flattens_over(over_under, options, parts.nucleus) ==> parts.placed_over == parts.over
            &&& over_under_result(
                parts.placed_over->0,
                parts.nucleus,
                options,
                true,
                over_under.over_is_accent,
                large_op,
                stretchy,
                parts.middle,
            )
        },
        None => parts.middle == parts.nucleus,
    }
    &&& match parts.under {
        Some(u) => over_under_result(
            u,
            parts.middle,
            options,
            false,
            over_under.under_is_accent,
            large_op,
            stretchy,
            r,
        ),
        None => r == parts.middle,
    }
}

/// `r` is the layout of `expr` with `options`: the layout of its item with the expression's
/// user data.
pub open spec fn lays_out<S: MathShaper>(expr: MathExpression, options: LayoutOptions<S>, r: MathBox) -> bool
    decreases expr, 0nat,
{
    item_lays_out(*expr.item, with_user_data(options, expr.user_data), r)
}

/// `r` is the layout of an optional expression: none for none.
pub open spec fn opt_lays_out<S: MathShaper>(
    expr: Option<MathExpression>,
    options: LayoutOptions<S>,
    r: Option<MathBox>,
) -> bool
    decreases expr, 0nat,
{
    match (expr, r) {
        (None, None) => true,
        (Some(e), Some(b)) => lays_out(e, options, b),
        _ => false,
    }
}

/// `r` is the layout of a math item with `options`.
pub open spec fn item_lays_out<S: MathShaper>(item: MathItem, options: LayoutOptions<S>, r: MathBox) -> bool
    decreases item, 0nat,
{
    match item {
        MathItem::Field(f) => r == field_box(f, options),
        MathItem::Space(s) => r == space_box(s, options),
        MathItem::Atom(a) => atom_lays_out(a, options, r),
        MathItem::GeneralizedFraction(f) => fraction_lays_out(f, options, r),
        MathItem::OverUnder(o) => over_under_lays_out(o, options, r),
        MathItem::Root(root) => root_lays_out(root, options, r),
        MathItem::Operator(op) => r == operator_box(op, options),
        MathItem::List(l) => list_lays_out(l, options, r),
    }
}

/// `r` is the layout of an atom: an empty box without nucleus, else the nucleus with its
/// subscript (bottom right) and superscript (top right) attached by `attach_scripts`.
pub open spec fn atom_lays_out<S: MathShaper>(atom: Atom, options: LayoutOptions<S>, r: MathBox) -> bool
    decreases atom, 1nat,
{
    match atom.nucleus {
        None => r == empty_box(Extents::<i32>::zero_spec(), options.user_data),
        Some(n) => exists|nucleus: MathBox, sub: Option<MathBox>, sup: Option<MathBox>|
            #[trigger] scripts_result(nucleus, sub, sup, is_large_op_spec(n, options.shaper), options, r)
                && lays_out(n, options, nucleus)
                && opt_lays_out(atom.bottom_right, with_style(options, subscript_style(options.style)), sub)
                && opt_lays_out(atom.top_right, with_style(options, superscript_style(options.style)), sup),
    }
}

/// `r` is the layout of a fraction: the default box unless it has both numerator and
/// denominator, else both placed by `position_fraction` with a rule of `rule_thickness`.
pub open spec fn fraction_lays_out<S: MathShaper>(
    frac: GeneralizedFraction,
    options: LayoutOptions<S>,
    r: MathBox,
) -> bool
    decreases frac, 1nat,
{
    match (frac.numerator, frac.denominator) {
        (Some(n), Some(d)) => exists|num: MathBox, den: MathBox|
            #[trigger] holds_exactly(r, fraction_boxes(num, den, rule_thickness(frac, options) as i32, options), options)
                && lays_out(n, numerator_options(options), num)
                && lays_out(d, denominator_options(options), den),
        _ => r == default_box(),
    }
}

/// `r` is the layout of a root: the default box without radicand, else the surd, the rule,
/// the radicand and the degree placed by `position_root`.
pub open spec fn root_lays_out<S: MathShaper>(root: Root, options: LayoutOptions<S>, r: MathBox) -> bool
    decreases root, 1nat,
{
    match root.radicand {
        None => r == default_box(),
        Some(x) => exists|radicand: MathBox, degree: Option<MathBox>|
            #[trigger] holds_exactly(
                r,
                root_placed(surd_box(radicand, options), radicand, degree, options),
                options,
            ) && lays_out(x, options, radicand) && opt_lays_out(root.degree, degree_options(options), degree),
    }
}

/// `b` is the layout of an optional part of an over/under that is there and does not stretch.
pub open spec fn width_box_lays_out<S: MathShaper>(
    expr: Option<MathExpression>,
    options: LayoutOptions<S>,
    b: Option<MathBox>,
) -> bool
    decreases expr, 1nat,
{
    match expr {
        Some(e) => !can_stretch_spec(e, options.shaper) ==> b is Some && lays_out(e, options, b->0),
        None => true,
    }
}

/// `r` is the layout of an over/under: an empty box without nucleus; like an atom (under as
/// subscript, over as superscript) for limits in inline style; else a stack (see
/// `stack_lays_out`).
pub open spec fn over_under_lays_out<S: MathShaper>(
    over_under: OverUnder,
    options: LayoutOptions<S>,
    r: MathBox,
) -> bool
    decreases over_under, 2nat,
{
    match over_under.nucleus {
        None => r == empty_box(Extents::<i32>::zero_spec(), options.user_data),
        Some(n) => if over_under.is_limits && options.style.math_style == MathStyle::Inline {
            exists|nucleus: MathBox, sub: Option<MathBox>, sup: Option<MathBox>|
                #[trigger] scripts_result(nucleus, sub, sup, is_large_op_spec(n, options.shaper), options, r)
                    && lays_out(n, options, nucleus)
                    && opt_lays_out(over_under.under, with_style(options, subscript_style(options.style)), sub)
                    && opt_lays_out(over_under.over, with_style(options, superscript_style(options.style)), sup)
        } else {
            exists|parts: StackParts|
                #[trigger] stack_placed(over_under, options, r, parts) && stack_parts_lay_out(over_under, options, parts)
        },
    }
}

/// The parts of an over/under stack are laid out: the nucleus, over and under first without
/// stretching (to read their widths), then stretched to `stack_width` (the nucleus keeps the
/// ascent and descent of the stretch size and is no accent; the attachments are accents as
/// the over/under says), and the over again with flat accents where `flattens_over` holds.
pub open spec fn stack_parts_lay_out<S: MathShaper>(
    over_under: OverUnder,
    options: LayoutOptions<S>,
    parts: StackParts,
) -> bool
    decreases over_under, 1nat,
{
    match over_under.nucleus {
        Some(n) => {
            let width = stack_width(over_under, options, parts);
            let stretched_over = stretched_over_options(over_under, options, width);
            &&& width_box_lays_out(over_under.nucleus, options, parts.nucleus_width_box)
            &&& width_box_lays_out(over_under.over, over_options(over_under, options), parts.over_width_box)
            &&& width_box_lays_out(over_under.under, under_options(over_under, options), parts.under_width_box)
            &&& lays_out(n, over_under_nucleus_options(options, width), parts.nucleus)
            &&& opt_lays_out(over_under.over, stretched_over, parts.over)
            &&& opt_lays_out(over_under.under, stretched_under_options(over_under, options, width), parts.under)
            &&& match (parts.over, over_under.over) {
                (Some(_), Some(o)) => flattens_over(over_under, options, parts.nucleus) ==> parts.placed_over is Some
                    && lays_out(
                    o,
                    with_style(stretched_over, LayoutStyle { flat_accent: true, ..stretched_over.style }),
                    parts.placed_over->0,
                ),
                _ => true,
            }
        },
        None => false,
    }
}

/// `r` is the layout of a list: its elements (see `list_boxes_lay_out`) set in a line.
pub open spec fn list_lays_out<S: MathShaper>(list: Vec<MathExpression>, options: LayoutOptions<S>, r: MathBox) -> bool
    decreases list, 2nat,
{
    exists|boxes: Seq<MathBox>|
        #[trigger] holds_exactly(r, crate::layout::line_placed(boxes), options)
            && list_boxes_lay_out(list, options, boxes)
}

/// `boxes` are the layouts of the elements of a list: those that do not stretch with
/// `options`, the stretchy ones with `list_stretch_options`.
pub open spec fn list_boxes_lay_out<S: MathShaper>(
    list: Vec<MathExpression>,
    options: LayoutOptions<S>,
    boxes: Seq<MathBox>,
) -> bool
    decreases list, 1nat,
{
    let stretch_options = list_stretch_options(list@, boxes, options);
    &&& boxes.len() == list@.len()
    &&& forall|i: int|
        0 <= i < list@.len() ==> element_lays_out(
            #[trigger] list@[i],
            if can_stretch_spec(list@[i], options.shaper) {
                stretch_options
            } else {
                options
            },
            boxes[i],
        )
}

/// `r` is the layout of an element of a list: in display style an (embellished) operator gets
/// its leading space before and its trailing space after it (see `element_boxes`); otherwise
/// the element's layout.
pub open spec fn element_lays_out<S: MathShaper>(item: MathExpression, options: LayoutOptions<S>, r: MathBox) -> bool
    decreases item, 1nat,
{
    if operator_properties_spec(item, options.shaper) is Some && options.style.math_style == MathStyle::Display {
        exists|b: MathBox| #[trigger] holds_exactly(r, element_boxes(item, options, b), options) && lays_out(item, options, b)
    } else {
        lays_out(item, options, r)
    }
}


/// An over/under laid out as a stack from parts that are laid out and placed as
/// `stack_parts_lay_out` and `stack_placed` say is laid out as `over_under_lays_out` says.
pub(crate) proof fn lemma_stack_lays_out<S: MathShaper>(
    over_under: OverUnder,
    options: LayoutOptions<S>,
    r: MathBox,
    parts: StackParts,
)
    requires
        over_under.nucleus is Some,
        !(over_under.is_limits && options.style.math_style == MathStyle::Inline),
        stack_placed(over_under, options, r, parts),
        stack_parts_lay_out(over_under, options, parts),
    ensures
        over_under_lays_out(over_under, options, r),
{
}


/// The largest ascent (or descent) of the non-stretchy elements depends only on their boxes.
pub(crate) proof fn lemma_kept_max_agree<S: MathShaper>(
    list: Seq<MathExpression>,
    a: Seq<MathBox>,
    b: Seq<MathBox>,
    shaper: &S,
    k: int,
    ascent: bool,
)
    requires
        forall|j: int| 0 <= j < k && !can_stretch_spec(#[trigger] list[j], shaper) ==> a[j] == b[j],
    ensures
        kept_max_opt(list, a, shaper, k, ascent) == kept_max_opt(list, b, shaper, k, ascent),
    decreases k,
{
    if k > 0 {
        lemma_kept_max_agree(list, a, b, shaper, k - 1, ascent);
    }
}


/// An over/under with `is_limits` set lays out in inline style as the atom with the over as
/// superscript (top right) and the under as subscript (bottom right).
pub proof fn lemma_limits_as_atom<S: MathShaper>(over_under: OverUnder, options: LayoutOptions<S>, r: MathBox)
    requires
        over_under.is_limits,
        options.style.math_style == MathStyle::Inline,
        over_under_lays_out(over_under, options, r),
    ensures
        atom_lays_out(
            Atom {
                nucleus: over_under.nucleus,
                top_left: None,
                top_right: over_under.over,
                bottom_left: None,
                bottom_right: over_under.under,
            },
            options,
            r,
        ),
{
}

/// In display style `is_limits` does not change the layout of an over/under.
pub proof fn lemma_limits_in_display<S: MathShaper>(over_under: OverUnder, options: LayoutOptions<S>, r: MathBox)
    requires
        options.style.math_style == MathStyle::Display,
    ensures
        over_under_lays_out(over_under, options, r) == over_under_lays_out(
            OverUnder { is_limits: !over_under.is_limits, ..over_under },
            options,
            r,
        ),
{
    let other = OverUnder { is_limits: !over_under.is_limits, ..over_under };
    if over_under.nucleus is Some {
        assert forall|parts: StackParts| #[trigger] stack_placed(over_under, options, r, parts) == stack_placed(other, options, r, parts)
            && stack_parts_lay_out(over_under, options, parts) == stack_parts_lay_out(other, options, parts) by {
            assert(stack_width(over_under, options, parts) == stack_width(other, options, parts));
        }
        if over_under_lays_out(over_under, options, r) {
            let parts = choose|parts: StackParts| #[trigger] stack_placed(over_under, options, r, parts)
                && stack_parts_lay_out(over_under, options, parts);
            assert(stack_placed(other, options, r, parts));
        }
        if over_under_lays_out(other, options, r) {
            let parts = choose|parts: StackParts| #[trigger] stack_placed(other, options, r, parts)
                && stack_parts_lay_out(other, options, parts);
            assert(stack_placed(over_under, options, r, parts));
        }
    }
}

/// Scripts are set one script level up (at most 255) in inline style, the rest of the style
/// kept; a subscript is also cramped.
pub proof fn lemma_script_styles(style: LayoutStyle)
    ensures
        superscript_style(style) == (LayoutStyle {
            math_style: MathStyle::Inline,
            script_level: min_int(style.script_level + 1, 255) as u8,
            ..style
        }),
        subscript_style(style) == (LayoutStyle { is_cramped: true, ..superscript_style(style) }),
{
}

/// The parts of a fraction and the degree of a root: in display style the numerator is set
/// inline at the same script level, otherwise one script level up (at most 255) in the same
/// math style; the denominator as the numerator but cramped; the degree of a root two script
/// levels up (at most 255), inline. Nothing else of the options changes.
pub proof fn lemma_part_options<S: MathShaper>(options: LayoutOptions<S>)
    ensures
        numerator_options(options) == (LayoutOptions {
            style: if options.style.math_style == MathStyle::Display {
                LayoutStyle { math_style: MathStyle::Inline, ..options.style }
            } else {
                LayoutStyle { script_level: min_int(options.style.script_level + 1, 255) as u8, ..options.style }
            },
            ..options
        }),
        denominator_options(options) == (LayoutOptions {
            style: LayoutStyle { is_cramped: true, ..numerator_options(options).style },
            ..options
        }),
        degree_options(options) == (LayoutOptions {
            style: LayoutStyle {
                math_style: MathStyle::Inline,
                script_level: min_int(options.style.script_level + 2, 255) as u8,
                ..options.style
            },
            ..options
        }),
{
}

/// An operator element of a list in display style holds, from left to right, an empty box as
/// wide as its leading space at the start, its own box moved right by the leading space, and
/// an empty box as wide as its trailing space where its own box's advance ends (for values far
/// from the ends of the `i32` range).
pub proof fn lemma_operator_spaces<S: MathShaper>(item: MathExpression, options: LayoutOptions<S>, b: MathBox)
    requires
        operator_properties_spec(item, options.shaper) is Some,
        crate::multiscripts::moderate(b.origin.x as int),
        crate::multiscripts::moderate(b.metrics.advance_width as int),
        crate::multiscripts::moderate(operator_properties_spec(item, options.shaper)->0.leading_space as int),
    ensures
        ({
            let p = operator_properties_spec(item, options.shaper)->0;
            let e = element_boxes(item, options, b);
            &&& e.len() == 3
            &&& e[0].origin.x == 0 && e[0].metrics.advance_width == p.leading_space
            &&& e[1].origin.x == b.origin.x + p.leading_space && e[1].origin.y == b.origin.y
            &&& e[1].content == b.content && e[1].metrics == b.metrics
            &&& e[2].origin.x == p.leading_space + b.metrics.advance_width
            &&& e[2].metrics.advance_width == p.trailing_space
        }),
{
}

/// The stretch size of a list reaches the ascent (or descent) of every element that does not
/// stretch, and is the ascent (or descent) of one of them, or 0 when there are none.
pub proof fn lemma_stretch_size_covers<S: MathShaper>(
    list: Seq<MathExpression>,
    boxes: Seq<MathBox>,
    shaper: &S,
    k: int,
    ascent: bool,
)
    requires
        0 <= k <= list.len(),
        k <= boxes.len(),
    ensures
        forall|j: int|
            0 <= j < k && !can_stretch_spec(#[trigger] list[j], shaper) ==> kept_max(list, boxes, shaper, k, ascent)
                >= if ascent {
                boxes[j].metrics.extents.ascent as int
            } else {
                boxes[j].metrics.extents.descent as int
            },
        (exists|j: int|
            0 <= j < k && !can_stretch_spec(#[trigger] list[j], shaper) && kept_max(list, boxes, shaper, k, ascent)
                == if ascent {
                boxes[j].metrics.extents.ascent as int
            } else {
                boxes[j].metrics.extents.descent as int
            }) || ((forall|j: int| 0 <= j < k ==> can_stretch_spec(#[trigger] list[j], shaper)) && kept_max(
            list,
            boxes,
            shaper,
            k,
            ascent,
        ) == 0),
    decreases k,
{
    if k > 0 {
        lemma_stretch_size_covers(list, boxes, shaper, k - 1, ascent);
        let prev = kept_max_opt(list, boxes, shaper, k - 1, ascent);
        if !can_stretch_spec(list[k - 1], shaper) {
            let j = k - 1;
            assert(!can_stretch_spec(list[j], shaper));
        }
        assert(prev is None <==> forall|j: int| 0 <= j < k - 1 ==> can_stretch_spec(#[trigger] list[j], shaper)) by {
            lemma_kept_max_none(list, boxes, shaper, k - 1, ascent);
        }
    }
}

/// No largest ascent (or descent) exactly when every element stretches.
proof fn lemma_kept_max_none<S: MathShaper>(
    list: Seq<MathExpression>,
    boxes: Seq<MathBox>,
    shaper: &S,
    k: int,
    ascent: bool,
)
    requires
        0 <= k <= list.len(),
    ensures
        kept_max_opt(list, boxes, shaper, k, ascent) is None <==> forall|j: int|
            0 <= j < k ==> can_stretch_spec(#[trigger] list[j], shaper),
    decreases k,
{
    if k > 0 {
        lemma_kept_max_none(list, boxes, shaper, k - 1, ascent);
        if !can_stretch_spec(list[k - 1], shaper) {
            assert(!can_stretch_spec(list[k - 1], shaper));
        }
    }
}

} // verus!
