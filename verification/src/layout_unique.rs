//! Layout gives one box: any two boxes that `lays_out` allows for an expression and options
//! are the same box (see `same_box`: equal but for how their vectors are represented).
use vstd::prelude::*;

use crate::arith::clamp_i32;
use crate::layout::{
    can_stretch_spec, fraction_placed, holds_boxes, inner_boxes, is_large_op_spec, line_placed,
    line_start, line_state, moved, operator_properties_spec, over_under_placed, root_placed,
    scripts_core, scripts_placed, LayoutOptions,
};
use crate::layout_model::{
    atom_lays_out, counted_width, degree_options, denominator_options, element_boxes,
    element_lays_out, flattens_over, fraction_boxes, fraction_lays_out, holds_exactly,
    item_lays_out, kept_max_opt, lays_out, lemma_limits_as_atom, lemma_limits_in_display,
    list_boxes_lay_out, list_lays_out, list_stretch_options, numerator_options, opt_lays_out,
    over_options, over_under_lays_out, over_under_nucleus_options, over_under_result,
    root_lays_out, rule_thickness, scripts_result, stack_parts_lay_out, stack_placed, stack_width,
    stretched_over_options, stretched_under_options, subscript_style, superscript_style, surd_box,
    under_options, width_box_lays_out, with_style, with_user_data, StackParts,
};
use crate::math_box::{
    box_advances, box_ascents, box_descents, box_right_edges, metrics_of, MathBox, MathBoxContent,
};
use crate::multiscripts::{attached, subscript_shift, subsup_shifts, superscript_shift};
use crate::shaper::MathShaper;
use crate::types::{
    Atom, CornerPosition, GeneralizedFraction, LayoutStyle, MathExpression, MathItem, MathStyle,
    OverUnder, Root,
};

verus! {

/// `a` and `b` are the same box: the same origin, metrics and user data, and the same content,
/// where inner boxes are compared in turn (two vectors of boxes with the same boxes in the
/// same order hold the same content).
pub open spec fn same_box(a: MathBox, b: MathBox) -> bool
    decreases a,
{
    &&& a.origin == b.origin
    &&& a.metrics == b.metrics
    &&& a.user_data == b.user_data
    &&& match (a.content, b.content) {
        (MathBoxContent::Boxes(x), MathBoxContent::Boxes(y)) => x@.len() == y@.len() && forall|i: int|
            0 <= i < x@.len() ==> same_box(#[trigger] x@[i], y@[i]),
        (ca, cb) => ca == cb,
    }
}

/// The boxes of `s` and `t` are the same, one by one.
pub open spec fn same_boxes(s: Seq<MathBox>, t: Seq<MathBox>) -> bool {
    &&& s.len() == t.len()
    &&& forall|i: int| 0 <= i < s.len() ==> same_box(#[trigger] s[i], t[i])
}

/// Optional boxes that are both absent or the same box.
pub open spec fn same_opt_box(a: Option<MathBox>, b: Option<MathBox>) -> bool {
    match (a, b) {
        (None, None) => true,
        (Some(x), Some(y)) => same_box(x, y),
        _ => false,
    }
}

/// Every box is the same as itself.
pub proof fn lemma_same_box_refl(b: MathBox)
    ensures
        same_box(b, b),
    decreases b,
{
    if let MathBoxContent::Boxes(x) = b.content {
        assert forall|i: int| 0 <= i < x@.len() implies same_box(#[trigger] x@[i], x@[i]) by {
            lemma_same_box_refl(x@[i]);
        }
    }
}

/// The same boxes begin and end with the same glyphs.
proof fn lemma_same_box_glyphs(a: MathBox, b: MathBox)
    requires
        same_box(a, b),
    ensures
        a.first_glyph_spec() == b.first_glyph_spec(),
        a.last_glyph_spec() == b.last_glyph_spec(),
    decreases a,
{
    if let (MathBoxContent::Boxes(x), MathBoxContent::Boxes(y)) = (a.content, b.content) {
        if x@.len() > 0 {
            lemma_same_box_glyphs(x@[0], y@[0]);
            lemma_same_box_glyphs(x@[x@.len() - 1], y@[y@.len() - 1]);
        }
    }
}

/// Two boxes that hold the same boxes as `holds_boxes` says, with the same metrics, are the
/// same box.
proof fn lemma_same_holds_boxes<S: MathShaper>(
    r1: MathBox,
    r2: MathBox,
    s1: Seq<MathBox>,
    s2: Seq<MathBox>,
    options: LayoutOptions<S>,
)
    requires
        holds_boxes(r1, s1, options),
        holds_boxes(r2, s2, options),
        same_boxes(s1, s2),
        r1.metrics == r2.metrics,
    ensures
        same_box(r1, r2),
{
    if let (MathBoxContent::Boxes(x), MathBoxContent::Boxes(y)) = (r1.content, r2.content) {
        assert(x@ == s1 && y@ == s2);
    }
}

/// Vectors that hold the same boxes give their contents the same metrics.
proof fn lemma_same_boxes_metrics(x: Seq<MathBox>, y: Seq<MathBox>, c1: MathBoxContent, c2: MathBoxContent)
    requires
        same_boxes(x, y),
        c1 is Boxes && inner_boxes(c1) == x,
        c2 is Boxes && inner_boxes(c2) == y,
    ensures
        metrics_of(c1) == metrics_of(c2),
{
    assert forall|i: int| 0 <= i < x.len() implies x[i].origin == y[i].origin && #[trigger] x[i].metrics
        == y[i].metrics by {
        assert(same_box(x[i], y[i]));
    }
    assert(box_advances(x) =~= box_advances(y));
    assert(box_ascents(x) =~= box_ascents(y));
    assert(box_descents(x) =~= box_descents(y));
    assert(box_right_edges(x) =~= box_right_edges(y));
    if x.len() > 0 {
        assert(x[0].metrics == y[0].metrics);
        assert(x[x.len() - 1].metrics == y[y.len() - 1].metrics);
    }
}

/// Two boxes that hold exactly the same boxes (see `holds_exactly`) are the same box.
proof fn lemma_same_holds_exactly<S: MathShaper>(
    r1: MathBox,
    r2: MathBox,
    s1: Seq<MathBox>,
    s2: Seq<MathBox>,
    options: LayoutOptions<S>,
)
    requires
        holds_exactly(r1, s1, options),
        holds_exactly(r2, s2, options),
        same_boxes(s1, s2),
    ensures
        same_box(r1, r2),
{
    lemma_same_boxes_metrics(s1, s2, r1.content, r2.content);
    lemma_same_holds_boxes(r1, r2, s1, s2, options);
}

/// The same boxes moved to the same place are the same.
proof fn lemma_same_moved(a: MathBox, b: MathBox, x: int, y: int)
    requires
        same_box(a, b),
    ensures
        same_box(moved(a, x, y), moved(b, x, y)),
{
}

/// A nucleus and its scripts placed by `attach_scripts` from the same boxes give the same box.
proof fn lemma_same_scripts_result<S: MathShaper>(
    n1: MathBox,
    sub1: Option<MathBox>,
    sup1: Option<MathBox>,
    n2: MathBox,
    sub2: Option<MathBox>,
    sup2: Option<MathBox>,
    large_op: bool,
    options: LayoutOptions<S>,
    r1: MathBox,
    r2: MathBox,
)
    requires
        same_box(n1, n2),
        same_opt_box(sub1, sub2),
        same_opt_box(sup1, sup2),
        scripts_result(n1, sub1, sup1, large_op, options, r1),
        scripts_result(n2, sub2, sup2, large_op, options, r2),
    ensures
        same_box(r1, r2),
{
    if !(sub1 is None && sup1 is None) {
        lemma_same_box_glyphs(n1, n2);
        if let (Some(a), Some(b)) = (sub1, sub2) {
            lemma_same_box_glyphs(a, b);
        }
        if let (Some(a), Some(b)) = (sup1, sup2) {
            lemma_same_box_glyphs(a, b);
        }
        let c1 = scripts_core(n1, sub1, sup1, large_op, options);
        let c2 = scripts_core(n2, sub2, sup2, large_op, options);
        lemma_same_scripts_core(n1, sub1, sup1, n2, sub2, sup2, large_op, options);
        assert forall|i: int| 0 <= i < c1.len() implies c1[i].origin == c2[i].origin && #[trigger] c1[i].metrics
            == c2[i].metrics by {
            assert(same_box(c1[i], c2[i]));
        }
        assert(box_advances(c1) =~= box_advances(c2));
        let p1 = scripts_placed(n1, sub1, sup1, large_op, options);
        let p2 = scripts_placed(n2, sub2, sup2, large_op, options);
        lemma_same_box_refl(p1[p1.len() - 1]);
        assert(same_boxes(p1, p2));
        lemma_same_boxes_metrics(p1, p2, r1.content, r2.content);
        lemma_same_holds_boxes(r1, r2, p1, p2, options);
    }
}

/// The same script placed beside the same nucleus is the same box.
proof fn lemma_same_attached<S: MathShaper>(
    a1: MathBox,
    n1: MathBox,
    a2: MathBox,
    n2: MathBox,
    large_op: bool,
    position: CornerPosition,
    shift: int,
    options: LayoutOptions<S>,
)
    requires
        same_box(a1, a2),
        same_box(n1, n2),
    ensures
        same_box(attached(a1, n1, large_op, position, shift, options), attached(a2, n2, large_op, position, shift, options)),
{
    lemma_same_box_glyphs(n1, n2);
    lemma_same_box_glyphs(a1, a2);
}

/// A nucleus and scripts placed by `scripts_core` from the same boxes are the same boxes.
#[verifier::spinoff_prover]
#[verifier::rlimit(80)]
proof fn lemma_same_scripts_core<S: MathShaper>(
    n1: MathBox,
    sub1: Option<MathBox>,
    sup1: Option<MathBox>,
    n2: MathBox,
    sub2: Option<MathBox>,
    sup2: Option<MathBox>,
    large_op: bool,
    options: LayoutOptions<S>,
)
    requires
        same_box(n1, n2),
        same_opt_box(sub1, sub2),
        same_opt_box(sup1, sup2),
    ensures
        same_boxes(
            scripts_core(n1, sub1, sup1, large_op, options),
            scripts_core(n2, sub2, sup2, large_op, options),
        ),
{
    let c1 = scripts_core(n1, sub1, sup1, large_op, options);
    let c2 = scripts_core(n2, sub2, sup2, large_op, options);
    if sub1 is Some && sup1 is Some {
        let (a1, b1, a2, b2) = (sub1->0, sup1->0, sub2->0, sup2->0);
        lemma_same_shifts(a1, b1, n1, a2, b2, n2, options);
        let (x, y) = subsup_shifts(a1, b1, n1, options);
        lemma_same_attached(a1, n1, a2, n2, large_op, CornerPosition::BottomRight, x, options);
        lemma_same_attached(b1, n1, b2, n2, large_op, CornerPosition::TopRight, y, options);
        assert(c1 == seq![n1, attached(a1, n1, large_op, CornerPosition::BottomRight, x, options), attached(b1, n1, large_op, CornerPosition::TopRight, y, options)]);
        assert(c2 == seq![n2, attached(a2, n2, large_op, CornerPosition::BottomRight, x, options), attached(b2, n2, large_op, CornerPosition::TopRight, y, options)]);
    } else if sub1 is Some {
        let (a1, a2) = (sub1->0, sub2->0);
        let x = subscript_shift(a1, n1, options);
        lemma_same_shifts(a1, a1, n1, a2, a2, n2, options);
        lemma_same_attached(a1, n1, a2, n2, large_op, CornerPosition::BottomRight, x, options);
        assert(c1 == seq![n1, attached(a1, n1, large_op, CornerPosition::BottomRight, x, options)]);
        assert(c2 == seq![n2, attached(a2, n2, large_op, CornerPosition::BottomRight, x, options)]);
    } else if sup1 is Some {
        let (b1, b2) = (sup1->0, sup2->0);
        let y = superscript_shift(b1, n1, options);
        lemma_same_shifts(b1, b1, n1, b2, b2, n2, options);
        lemma_same_attached(b1, n1, b2, n2, large_op, CornerPosition::TopRight, y, options);
        assert(c1 == seq![n1, attached(b1, n1, large_op, CornerPosition::TopRight, y, options)]);
        assert(c2 == seq![n2, attached(b2, n2, large_op, CornerPosition::TopRight, y, options)]);
    }
}

/// The shifts of scripts depend on the metrics of the boxes alone.
proof fn lemma_same_shifts<S: MathShaper>(
    a1: MathBox,
    b1: MathBox,
    n1: MathBox,
    a2: MathBox,
    b2: MathBox,
    n2: MathBox,
    options: LayoutOptions<S>,
)
    requires
        a1.metrics == a2.metrics,
        b1.metrics == b2.metrics,
        n1.metrics == n2.metrics,
    ensures
        subsup_shifts(a1, b1, n1, options) == subsup_shifts(a2, b2, n2, options),
        subscript_shift(a1, n1, options) == subscript_shift(a2, n2, options),
        superscript_shift(a1, n1, options) == superscript_shift(a2, n2, options),
{
}

/// A fraction placed from the same numerator and denominator gives the same boxes.
#[verifier::rlimit(50)]
proof fn lemma_same_fraction_boxes<S: MathShaper>(
    num1: MathBox,
    den1: MathBox,
    num2: MathBox,
    den2: MathBox,
    thickness: i32,
    options: LayoutOptions<S>,
)
    requires
        same_box(num1, num2),
        same_box(den1, den2),
    ensures
        same_boxes(fraction_boxes(num1, den1, thickness, options), fraction_boxes(num2, den2, thickness, options)),
{
    let (a1, l1, b1) = fraction_placed(num1, den1, thickness, options);
    let (a2, l2, b2) = fraction_placed(num2, den2, thickness, options);
    assert(l1 == l2);
    lemma_same_box_refl(l1);
    assert(same_box(a1, a2));
    assert(same_box(b1, b2));
    assert(fraction_boxes(num1, den1, thickness, options) == seq![a1, l1, b1]);
    assert(fraction_boxes(num2, den2, thickness, options) == seq![a2, l2, b2]);
}

/// A root placed from the same radicand and degree gives the same boxes.
#[verifier::rlimit(50)]
proof fn lemma_same_root_boxes<S: MathShaper>(
    rad1: MathBox,
    deg1: Option<MathBox>,
    rad2: MathBox,
    deg2: Option<MathBox>,
    options: LayoutOptions<S>,
)
    requires
        same_box(rad1, rad2),
        same_opt_box(deg1, deg2),
    ensures
        same_boxes(
            root_placed(surd_box(rad1, options), rad1, deg1, options),
            root_placed(surd_box(rad2, options), rad2, deg2, options),
        ),
{
    let surd = surd_box(rad1, options);
    assert(surd == surd_box(rad2, options));
    lemma_same_box_refl(surd);
    let p1 = root_placed(surd, rad1, deg1, options);
    let p2 = root_placed(surd, rad2, deg2, options);
    assert(p1.len() == p2.len());
    assert forall|i: int| 0 <= i < p1.len() implies same_box(#[trigger] p1[i], p2[i]) by {
        lemma_same_box_refl(p1[i]);
    }
}

/// An attachment placed over or under a nucleus from the same boxes gives the same box.
proof fn lemma_same_over_under_result<S: MathShaper>(
    a1: MathBox,
    n1: MathBox,
    a2: MathBox,
    n2: MathBox,
    options: LayoutOptions<S>,
    as_over: bool,
    as_accent: bool,
    large_op: bool,
    stretchy: bool,
    r1: MathBox,
    r2: MathBox,
)
    requires
        same_box(a1, a2),
        same_box(n1, n2),
        over_under_result(a1, n1, options, as_over, as_accent, large_op, stretchy, r1),
        over_under_result(a2, n2, options, as_over, as_accent, large_op, stretchy, r2),
    ensures
        same_box(r1, r2),
{
    let (x1, y1) = over_under_placed(a1, n1, options, as_over, as_accent, large_op, stretchy);
    let (x2, y2) = over_under_placed(a2, n2, options, as_over, as_accent, large_op, stretchy);
    assert(same_box(x1, x2) && same_box(y1, y2));
    assert(same_boxes(seq![x1, y1], seq![x2, y2]));
    lemma_same_boxes_metrics(seq![x1, y1], seq![x2, y2], r1.content, r2.content);
    lemma_same_holds_boxes(r1, r2, seq![x1, y1], seq![x2, y2], options);
}

/// Where the boxes of a line start depends on their metrics alone.
proof fn lemma_same_line_state(s: Seq<MathBox>, t: Seq<MathBox>, k: int)
    requires
        s.len() == t.len(),
        0 <= k <= s.len(),
        forall|i: int| 0 <= i < s.len() ==> #[trigger] s[i].metrics == t[i].metrics,
    ensures
        line_state(s, k) == line_state(t, k),
    decreases k,
{
    if k > 0 {
        lemma_same_line_state(s, t, k - 1);
        assert(s[k - 1].metrics == t[k - 1].metrics);
    }
}

/// The same boxes set in a line are the same boxes.
proof fn lemma_same_line_placed(s: Seq<MathBox>, t: Seq<MathBox>)
    requires
        same_boxes(s, t),
    ensures
        same_boxes(line_placed(s), line_placed(t)),
{
    assert forall|i: int| 0 <= i < s.len() implies #[trigger] s[i].metrics == t[i].metrics && s[i].origin
        == t[i].origin by {
        assert(same_box(s[i], t[i]));
    }
    assert forall|i: int| 0 <= i < s.len() implies same_box(#[trigger] line_placed(s)[i], line_placed(t)[i]) by {
        assert(same_box(s[i], t[i]));
        lemma_same_line_state(s, t, i);
        lemma_same_moved(
            s[i],
            t[i],
            clamp_i32(s[i].origin.x + line_start(s, i)),
            s[i].origin.y as int,
        );
    }
}

/// An operator element of a list set with its spaces from the same box gives the same boxes.
proof fn lemma_same_element_boxes<S: MathShaper>(
    item: MathExpression,
    options: LayoutOptions<S>,
    b1: MathBox,
    b2: MathBox,
)
    requires
        same_box(b1, b2),
    ensures
        same_boxes(element_boxes(item, options, b1), element_boxes(item, options, b2)),
{
    let e1 = element_boxes(item, options, b1);
    let e2 = element_boxes(item, options, b2);
    lemma_same_box_refl(e1[0]);
    lemma_same_box_refl(e1[2]);
    assert(e1[0] == e2[0] && e1[2] == e2[2]);
    assert(same_box(e1[1], e2[1]));
}

/// Layout gives one box: two boxes that are both layouts of `expr` with `options` are the same
/// box.
pub proof fn lemma_layout_unique<S: MathShaper>(expr: MathExpression, options: LayoutOptions<S>, r1: MathBox, r2: MathBox)
    requires
        lays_out(expr, options, r1),
        lays_out(expr, options, r2),
    ensures
        same_box(r1, r2),
    decreases expr, 0nat,
{
    lemma_item_unique(*expr.item, with_user_data(options, expr.user_data), r1, r2);
}

/// Optional parts have one layout each (see `lemma_layout_unique`).
proof fn lemma_opt_unique<S: MathShaper>(
    expr: Option<MathExpression>,
    options: LayoutOptions<S>,
    r1: Option<MathBox>,
    r2: Option<MathBox>,
)
    requires
        opt_lays_out(expr, options, r1),
        opt_lays_out(expr, options, r2),
    ensures
        same_opt_box(r1, r2),
    decreases expr, 0nat,
{
    if let Some(e) = expr {
        lemma_layout_unique(e, options, r1->0, r2->0);
    }
}

/// A math item has one layout (see `lemma_layout_unique`).
proof fn lemma_item_unique<S: MathShaper>(item: MathItem, options: LayoutOptions<S>, r1: MathBox, r2: MathBox)
    requires
        item_lays_out(item, options, r1),
        item_lays_out(item, options, r2),
    ensures
        same_box(r1, r2),
    decreases item, 0nat,
{
    match item {
        MathItem::Atom(a) => lemma_atom_unique(a, options, r1, r2),
        MathItem::GeneralizedFraction(f) => lemma_fraction_unique(f, options, r1, r2),
        MathItem::OverUnder(o) => lemma_over_under_unique(o, options, r1, r2),
        MathItem::Root(root) => lemma_root_unique(root, options, r1, r2),
        MathItem::List(l) => lemma_list_unique(l, options, r1, r2),
        _ => lemma_same_box_refl(r1),
    }
}

/// An atom has one layout (see `lemma_layout_unique`).
pub proof fn lemma_atom_unique<S: MathShaper>(atom: Atom, options: LayoutOptions<S>, r1: MathBox, r2: MathBox)
    requires
        atom_lays_out(atom, options, r1),
        atom_lays_out(atom, options, r2),
    ensures
        same_box(r1, r2),
    decreases atom, 1nat,
{
    match atom.nucleus {
        None => lemma_same_box_refl(r1),
        Some(n) => {
            let large_op = is_large_op_spec(n, options.shaper);
            let sub_options = with_style(options, subscript_style(options.style));
            let sup_options = with_style(options, superscript_style(options.style));
            let (n1, b1, t1) = choose|nucleus: MathBox, sub: Option<MathBox>, sup: Option<MathBox>|
                #[trigger] scripts_result(nucleus, sub, sup, large_op, options, r1)
                    && lays_out(n, options, nucleus)
                    && opt_lays_out(atom.bottom_right, sub_options, sub)
                    && opt_lays_out(atom.top_right, sup_options, sup);
            let (n2, b2, t2) = choose|nucleus: MathBox, sub: Option<MathBox>, sup: Option<MathBox>|
                #[trigger] scripts_result(nucleus, sub, sup, large_op, options, r2)
                    && lays_out(n, options, nucleus)
                    && opt_lays_out(atom.bottom_right, sub_options, sub)
                    && opt_lays_out(atom.top_right, sup_options, sup);
            lemma_layout_unique(n, options, n1, n2);
            lemma_opt_unique(atom.bottom_right, sub_options, b1, b2);
            lemma_opt_unique(atom.top_right, sup_options, t1, t2);
            lemma_same_scripts_result(n1, b1, t1, n2, b2, t2, large_op, options, r1, r2);
        },
    }
}

/// A fraction has one layout (see `lemma_layout_unique`).
proof fn lemma_fraction_unique<S: MathShaper>(
    frac: GeneralizedFraction,
    options: LayoutOptions<S>,
    r1: MathBox,
    r2: MathBox,
)
    requires
        fraction_lays_out(frac, options, r1),
        fraction_lays_out(frac, options, r2),
    ensures
        same_box(r1, r2),
    decreases frac, 1nat,
{
    match (frac.numerator, frac.denominator) {
        (Some(n), Some(d)) => {
            let t = rule_thickness(frac, options) as i32;
            let (a1, c1) = choose|num: MathBox, den: MathBox|
                #[trigger] holds_exactly(r1, fraction_boxes(num, den, t, options), options)
                    && lays_out(n, numerator_options(options), num)
                    && lays_out(d, denominator_options(options), den);
            let (a2, c2) = choose|num: MathBox, den: MathBox|
                #[trigger] holds_exactly(r2, fraction_boxes(num, den, t, options), options)
                    && lays_out(n, numerator_options(options), num)
                    && lays_out(d, denominator_options(options), den);
            lemma_layout_unique(n, numerator_options(options), a1, a2);
            lemma_layout_unique(d, denominator_options(options), c1, c2);
            lemma_same_fraction_boxes(a1, c1, a2, c2, t, options);
            lemma_same_holds_exactly(r1, r2, fraction_boxes(a1, c1, t, options), fraction_boxes(a2, c2, t, options), options);
        },
        _ => lemma_same_box_refl(r1),
    }
}

/// A root has one layout (see `lemma_layout_unique`).
proof fn lemma_root_unique<S: MathShaper>(root: Root, options: LayoutOptions<S>, r1: MathBox, r2: MathBox)
    requires
        root_lays_out(root, options, r1),
        root_lays_out(root, options, r2),
    ensures
        same_box(r1, r2),
    decreases root, 1nat,
{
    match root.radicand {
        None => lemma_same_box_refl(r1),
        Some(x) => {
            let (a1, d1) = choose|radicand: MathBox, degree: Option<MathBox>|
                #[trigger] holds_exactly(r1, root_placed(surd_box(radicand, options), radicand, degree, options), options)
                    && lays_out(x, options, radicand) && opt_lays_out(root.degree, degree_options(options), degree);
            let (a2, d2) = choose|radicand: MathBox, degree: Option<MathBox>|
                #[trigger] holds_exactly(r2, root_placed(surd_box(radicand, options), radicand, degree, options), options)
                    && lays_out(x, options, radicand) && opt_lays_out(root.degree, degree_options(options), degree);
            lemma_layout_unique(x, options, a1, a2);
            lemma_opt_unique(root.degree, degree_options(options), d1, d2);
            lemma_same_root_boxes(a1, d1, a2, d2, options);
            lemma_same_holds_exactly(
                r1,
                r2,
                root_placed(surd_box(a1, options), a1, d1, options),
                root_placed(surd_box(a2, options), a2, d2, options),
                options,
            );
        },
    }
}

/// An over/under has one layout (see `lemma_layout_unique`).
proof fn lemma_over_under_unique<S: MathShaper>(ou: OverUnder, options: LayoutOptions<S>, r1: MathBox, r2: MathBox)
    requires
        over_under_lays_out(ou, options, r1),
        over_under_lays_out(ou, options, r2),
    ensures
        same_box(r1, r2),
    decreases ou, 2nat,
{
    match ou.nucleus {
        None => lemma_same_box_refl(r1),
        Some(n) => if ou.is_limits && options.style.math_style == MathStyle::Inline {
            let large_op = is_large_op_spec(n, options.shaper);
            let sub_options = with_style(options, subscript_style(options.style));
            let sup_options = with_style(options, superscript_style(options.style));
            let (n1, b1, t1) = choose|nucleus: MathBox, sub: Option<MathBox>, sup: Option<MathBox>|
                #[trigger] scripts_result(nucleus, sub, sup, large_op, options, r1)
                    && lays_out(n, options, nucleus)
                    && opt_lays_out(ou.under, sub_options, sub)
                    && opt_lays_out(ou.over, sup_options, sup);
            let (n2, b2, t2) = choose|nucleus: MathBox, sub: Option<MathBox>, sup: Option<MathBox>|
                #[trigger] scripts_result(nucleus, sub, sup, large_op, options, r2)
                    && lays_out(n, options, nucleus)
                    && opt_lays_out(ou.under, sub_options, sub)
                    && opt_lays_out(ou.over, sup_options, sup);
            lemma_layout_unique(n, options, n1, n2);
            lemma_opt_unique(ou.under, sub_options, b1, b2);
            lemma_opt_unique(ou.over, sup_options, t1, t2);
            lemma_same_scripts_result(n1, b1, t1, n2, b2, t2, large_op, options, r1, r2);
        } else {
            let p1 = choose|parts: StackParts|
                #[trigger] stack_placed(ou, options, r1, parts) && stack_parts_lay_out(ou, options, parts);
            let p2 = choose|parts: StackParts|
                #[trigger] stack_placed(ou, options, r2, parts) && stack_parts_lay_out(ou, options, parts);
            lemma_stack_unique(ou, options, r1, r2, p1, p2);
        },
    }
}

/// The width a part of an over/under counts with is the same for any of its layouts.
proof fn lemma_width_box_unique<S: MathShaper>(
    expr: Option<MathExpression>,
    options: LayoutOptions<S>,
    b1: Option<MathBox>,
    b2: Option<MathBox>,
)
    requires
        width_box_lays_out(expr, options, b1),
        width_box_lays_out(expr, options, b2),
    ensures
        counted_width(expr, options.shaper, b1) == counted_width(
            expr,
            options.shaper,
            b2,
        ),
    decreases expr, 0nat,
{
    if let Some(e) = expr {
        if !can_stretch_spec(e, options.shaper) {
            lemma_layout_unique(e, options, b1->0, b2->0);
        }
    }
}

/// An over/under stack has one layout (see `lemma_layout_unique`).
proof fn lemma_stack_unique<S: MathShaper>(
    ou: OverUnder,
    options: LayoutOptions<S>,
    r1: MathBox,
    r2: MathBox,
    p1: StackParts,
    p2: StackParts,
)
    requires
        ou.nucleus is Some,
        stack_placed(ou, options, r1, p1),
        stack_parts_lay_out(ou, options, p1),
        stack_placed(ou, options, r2, p2),
        stack_parts_lay_out(ou, options, p2),
    ensures
        same_box(r1, r2),
    decreases ou, 1nat,
{
    let n = ou.nucleus->0;
    lemma_width_box_unique(ou.nucleus, options, p1.nucleus_width_box, p2.nucleus_width_box);
    lemma_width_box_unique(ou.over, over_options(ou, options), p1.over_width_box, p2.over_width_box);
    lemma_width_box_unique(ou.under, under_options(ou, options), p1.under_width_box, p2.under_width_box);
    let width = stack_width(ou, options, p1);
    assert(width == stack_width(ou, options, p2));
    let stretched_over = stretched_over_options(ou, options, width);
    lemma_layout_unique(n, over_under_nucleus_options(options, width), p1.nucleus, p2.nucleus);
    lemma_opt_unique(ou.over, stretched_over, p1.over, p2.over);
    lemma_opt_unique(ou.under, stretched_under_options(ou, options, width), p1.under, p2.under);
    let large_op = is_large_op_spec(n, options.shaper);
    let stretchy = can_stretch_spec(n, options.shaper);
    if let (Some(x1), Some(x2)) = (p1.over, p2.over) {
        let o = ou.over->0;
        if flattens_over(ou, options, p1.nucleus) {
            assert(flattens_over(ou, options, p2.nucleus));
            lemma_layout_unique(
                o,
                with_style(stretched_over, LayoutStyle { flat_accent: true, ..stretched_over.style }),
                p1.placed_over->0,
                p2.placed_over->0,
            );
        }
        lemma_same_over_under_result(
            p1.placed_over->0,
            p1.nucleus,
            p2.placed_over->0,
            p2.nucleus,
            options,
            true,
            ou.over_is_accent,
            large_op,
            stretchy,
            p1.middle,
            p2.middle,
        );
    }
    match (p1.under, p2.under) {
        (Some(u1), Some(u2)) => lemma_same_over_under_result(
            u1,
            p1.middle,
            u2,
            p2.middle,
            options,
            false,
            ou.under_is_accent,
            large_op,
            stretchy,
            r1,
            r2,
        ),
        _ => {},
    }
}

/// The largest ascent (or descent) of the non-stretchy elements depends only on their metrics.
proof fn lemma_kept_max_same<S: MathShaper>(
    list: Seq<MathExpression>,
    a: Seq<MathBox>,
    b: Seq<MathBox>,
    shaper: &S,
    k: int,
    ascent: bool,
)
    requires
        forall|j: int| 0 <= j < k && !can_stretch_spec(#[trigger] list[j], shaper) ==> a[j].metrics == b[j].metrics,
    ensures
        kept_max_opt(list, a, shaper, k, ascent) == kept_max_opt(list, b, shaper, k, ascent),
    decreases k,
{
    if k > 0 {
        lemma_kept_max_same(list, a, b, shaper, k - 1, ascent);
    }
}

/// A list has one layout (see `lemma_layout_unique`).
proof fn lemma_list_unique<S: MathShaper>(
    list: Vec<MathExpression>,
    options: LayoutOptions<S>,
    r1: MathBox,
    r2: MathBox,
)
    requires
        list_lays_out(list, options, r1),
        list_lays_out(list, options, r2),
    ensures
        same_box(r1, r2),
    decreases list, 2nat,
{
    let b1 = choose|boxes: Seq<MathBox>|
        #[trigger] holds_exactly(r1, line_placed(boxes), options) && list_boxes_lay_out(list, options, boxes);
    let b2 = choose|boxes: Seq<MathBox>|
        #[trigger] holds_exactly(r2, line_placed(boxes), options) && list_boxes_lay_out(list, options, boxes);
    lemma_list_boxes_unique(list, options, b1, b2);
    lemma_same_line_placed(b1, b2);
    lemma_same_holds_exactly(r1, r2, line_placed(b1), line_placed(b2), options);
}

/// The elements of a list have one layout each (see `lemma_layout_unique`).
proof fn lemma_list_boxes_unique<S: MathShaper>(
    list: Vec<MathExpression>,
    options: LayoutOptions<S>,
    b1: Seq<MathBox>,
    b2: Seq<MathBox>,
)
    requires
        list_boxes_lay_out(list, options, b1),
        list_boxes_lay_out(list, options, b2),
    ensures
        same_boxes(b1, b2),
    decreases list, 1nat,
{
    let l = list@;
    assert forall|i: int| 0 <= i < l.len() && !can_stretch_spec(#[trigger] l[i], options.shaper) implies same_box(
        b1[i],
        b2[i],
    ) by {
        lemma_element_unique(l[i], options, b1[i], b2[i]);
    }
    assert forall|j: int| 0 <= j < l.len() && !can_stretch_spec(#[trigger] l[j], options.shaper) implies b1[j].metrics
        == b2[j].metrics by {
        assert(same_box(b1[j], b2[j]));
    }
    lemma_kept_max_same(l, b1, b2, options.shaper, l.len() as int, true);
    lemma_kept_max_same(l, b1, b2, options.shaper, l.len() as int, false);
    let stretch = list_stretch_options(l, b1, options);
    assert(stretch == list_stretch_options(l, b2, options));
    assert forall|i: int| 0 <= i < l.len() implies same_box(#[trigger] b1[i], b2[i]) by {
        if can_stretch_spec(l[i], options.shaper) {
            lemma_element_unique(l[i], stretch, b1[i], b2[i]);
        } else {
            lemma_element_unique(l[i], options, b1[i], b2[i]);
        }
    }
}

/// An element of a list has one layout (see `lemma_layout_unique`).
proof fn lemma_element_unique<S: MathShaper>(
    item: MathExpression,
    options: LayoutOptions<S>,
    r1: MathBox,
    r2: MathBox,
)
    requires
        element_lays_out(item, options, r1),
        element_lays_out(item, options, r2),
    ensures
        same_box(r1, r2),
    decreases item, 1nat,
{
    if operator_properties_spec(item, options.shaper) is Some && options.style.math_style == MathStyle::Display {
        let x1 = choose|b: MathBox| #[trigger] holds_exactly(r1, element_boxes(item, options, b), options) && lays_out(item, options, b);
        let x2 = choose|b: MathBox| #[trigger] holds_exactly(r2, element_boxes(item, options, b), options) && lays_out(item, options, b);
        lemma_layout_unique(item, options, x1, x2);
        lemma_same_element_boxes(item, options, x1, x2);
        lemma_same_holds_exactly(r1, r2, element_boxes(item, options, x1), element_boxes(item, options, x2), options);
    } else {
        lemma_layout_unique(item, options, r1, r2);
    }
}

/// Limits in inline style: an over/under with `is_limits` set lays out as the atom with its
/// nucleus, the over as superscript (top right) and the under as subscript (bottom right).
pub proof fn lemma_limits_layout_as_atom<S: MathShaper>(
    over_under: OverUnder,
    options: LayoutOptions<S>,
    r1: MathBox,
    r2: MathBox,
)
    requires
        over_under.is_limits,
        options.style.math_style == MathStyle::Inline,
        over_under_lays_out(over_under, options, r1),
        atom_lays_out(
            Atom {
                nucleus: over_under.nucleus,
                top_left: None,
                top_right: over_under.over,
                bottom_left: None,
                bottom_right: over_under.under,
            },
            options,
            r2,
        ),
    ensures
        same_box(r1, r2),
{
    let atom = Atom {
        nucleus: over_under.nucleus,
        top_left: None,
        top_right: over_under.over,
        bottom_left: None,
        bottom_right: over_under.under,
    };
    lemma_limits_as_atom(over_under, options, r1);
    lemma_atom_unique(atom, options, r1, r2);
}

/// In display style `is_limits` does not change the layout of an over/under.
pub proof fn lemma_limits_layout_in_display<S: MathShaper>(
    over_under: OverUnder,
    options: LayoutOptions<S>,
    r1: MathBox,
    r2: MathBox,
)
    requires
        options.style.math_style == MathStyle::Display,
        over_under_lays_out(over_under, options, r1),
        over_under_lays_out(OverUnder { is_limits: false, ..over_under }, options, r2),
    ensures
        same_box(r1, r2),
{
    let other = OverUnder { is_limits: false, ..over_under };
    if over_under.is_limits {
        lemma_limits_in_display(over_under, options, r1);
        assert(other == OverUnder { is_limits: !over_under.is_limits, ..over_under });
    } else {
        assert(other == over_under);
    }
    lemma_over_under_unique(other, options, r1, r2);
}

/// An atom without scripts lays out as its nucleus.
pub proof fn lemma_atom_without_scripts<S: MathShaper>(
    atom: Atom,
    nucleus: MathExpression,
    options: LayoutOptions<S>,
    r1: MathBox,
    r2: MathBox,
)
    requires
        atom.nucleus == Some(nucleus),
        atom.bottom_right is None,
        atom.top_right is None,
        atom_lays_out(atom, options, r1),
        lays_out(nucleus, options, r2),
    ensures
        same_box(r1, r2),
{
    let large_op = is_large_op_spec(nucleus, options.shaper);
    let sub_options = with_style(options, subscript_style(options.style));
    let sup_options = with_style(options, superscript_style(options.style));
    let (n1, b1, t1) = choose|n: MathBox, sub: Option<MathBox>, sup: Option<MathBox>|
        #[trigger] scripts_result(n, sub, sup, large_op, options, r1)
            && lays_out(nucleus, options, n)
            && opt_lays_out(atom.bottom_right, sub_options, sub)
            && opt_lays_out(atom.top_right, sup_options, sup);
    lemma_layout_unique(nucleus, options, n1, r2);
}

/// The elements of a list lay out one by one: the box of element `i` is the layout of that
/// element, with the list's options when it does not stretch and with the stretch size of
/// the largest ascent and descent of the boxes of the elements that do not stretch when it
/// does (see `list_stretch_options`).
pub proof fn lemma_list_element_layout<S: MathShaper>(
    list: Vec<MathExpression>,
    options: LayoutOptions<S>,
    boxes: Seq<MathBox>,
    i: int,
    r: MathBox,
)
    requires
        list_boxes_lay_out(list, options, boxes),
        0 <= i < list@.len(),
        element_lays_out(
            list@[i],
            if can_stretch_spec(list@[i], options.shaper) {
                list_stretch_options(list@, boxes, options)
            } else {
                options
            },
            r,
        ),
    ensures
        boxes.len() == list@.len(),
        same_box(boxes[i], r),
{
    let o = if can_stretch_spec(list@[i], options.shaper) {
        list_stretch_options(list@, boxes, options)
    } else {
        options
    };
    lemma_element_unique(list@[i], o, boxes[i], r);
}

/// An element of a list lays out as its own layout `b`, but for an (embellished) operator in
/// display style, which holds its leading space, `b` moved past it and its trailing space
/// (see `element_boxes`).
pub proof fn lemma_element_layout<S: MathShaper>(item: MathExpression, options: LayoutOptions<S>, r: MathBox, b: MathBox)
    requires
        element_lays_out(item, options, r),
        lays_out(item, options, b),
    ensures
        if operator_properties_spec(item, options.shaper) is Some && options.style.math_style == MathStyle::Display {
            &&& holds_exactly(r, inner_boxes(r.content), options)
            &&& same_boxes(inner_boxes(r.content), element_boxes(item, options, b))
        } else {
            same_box(r, b)
        },
{
    if operator_properties_spec(item, options.shaper) is Some && options.style.math_style == MathStyle::Display {
        let x = choose|c: MathBox| #[trigger] holds_exactly(r, element_boxes(item, options, c), options) && lays_out(item, options, c);
        lemma_layout_unique(item, options, x, b);
        lemma_same_element_boxes(item, options, x, b);
    } else {
        lemma_layout_unique(item, options, r, b);
    }
}

} // verus!
