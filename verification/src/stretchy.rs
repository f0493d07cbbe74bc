//! Lists with stretchy operators.
use vstd::prelude::*;

use crate::arith::{max_i32, sat_add};
use crate::layout::{
    can_stretch, can_stretch_spec, layout_expression, operator_properties, supported,
    LayoutOptions,
};
use crate::math_box::{Extents, MathBox, MathBoxMetrics};
use crate::layout_model::{
    element_boxes, element_lays_out, holds_exactly, kept_max_opt, lemma_kept_max_agree,
    list_boxes_lay_out, list_stretch_options,
};
use crate::shaper::MathShaper;
use crate::types::{MathExpression, MathStyle};

verus! {

/// The positions of the stretchy expressions of `list`, in increasing order.
pub fn indices_of_stretchy_elements<S: MathShaper>(list: &Vec<MathExpression>, options: LayoutOptions<S>) -> (r: Vec<usize>)
    ensures
        forall|k: int| 0 <= k < r@.len() ==> r@[k] < list@.len() && can_stretch_spec(list@[r@[k] as int], options.shaper),
        forall|k: int, l: int| 0 <= k < l < r@.len() ==> r@[k] < r@[l],
        forall|i: int| 0 <= i < list@.len() && can_stretch_spec(#[trigger] list@[i], options.shaper) ==> exists|k: int| 0 <= k < r@.len() && r@[k] == i,
{
    let mut r: Vec<usize> = Vec::new();
    let mut i: usize = 0;
    while i < list.len()
        invariant
            i <= list@.len(),
            forall|k: int| 0 <= k < r@.len() ==> r@[k] < i && can_stretch_spec(list@[r@[k] as int], options.shaper),
            forall|k: int, l: int| 0 <= k < l < r@.len() ==> r@[k] < r@[l],
            forall|j: int| 0 <= j < i && can_stretch_spec(#[trigger] list@[j], options.shaper) ==> exists|k: int| 0 <= k < r@.len() && r@[k] == j,
        decreases list@.len() - i,
    {
        let ghost old_r = r@;
        if can_stretch(&list[i], options) {
            r.push(i);
            proof {
                assert(r@[r@.len() - 1] == i);
                assert forall|j: int| 0 <= j <= i && can_stretch_spec(#[trigger] list@[j], options.shaper) implies exists|k: int| 0 <= k < r@.len() && r@[k] == j by {
                    if j < i {
                        let k = choose|k: int| 0 <= k < old_r.len() && old_r[k] == j;
                        assert(r@[k] == j);
                    } else {
                        assert(r@[r@.len() - 1] == j);
                    }
                }
            }
        }
        i = i + 1;
    }
    r
}

/// Lays out an element of a list: an operator in display style gets its leading space
/// before and its trailing space after it.
pub fn layout_list_element<S: MathShaper>(item: &MathExpression, options: LayoutOptions<S>) -> (r: MathBox)
    requires
        supported(*item),
    ensures
        element_lays_out(*item, options, r),
    decreases item, 1nat,
{
    if let Some(properties) = operator_properties(item, options) {
        if options.style.math_style == MathStyle::Display {
            let leading_space = properties.leading_space;
            let trailing_space = properties.trailing_space;
            let left_space = MathBox::empty(Extents::new(0, leading_space, 0, 0), options.user_data);
            let mut elem = layout_expression(item, options);
            let ghost elem0 = elem;
            elem.origin.x = sat_add(elem.origin.x, leading_space);
            let mut right_space = MathBox::empty(Extents::new(0, trailing_space, 0, 0), options.user_data);
            right_space.origin.x = sat_add(right_space.origin.x, sat_add(leading_space, elem.advance_width()));
            let mut v: Vec<MathBox> = Vec::new();
            v.push(left_space);
            v.push(elem);
            v.push(right_space);
            let r = MathBox::with_vec(v, options.user_data);
            assert(v@ =~= element_boxes(*item, options, elem0));
            assert(holds_exactly(r, element_boxes(*item, options, elem0), options));
            return r;
        }
    }
    layout_expression(item, options)
}

/// Lays out the elements of a list: first those that do not stretch, then the stretchy ones
/// with a stretch size of the largest ascent and descent of the others.
pub fn layout_strechy_list<S: MathShaper>(list: &Vec<MathExpression>, options: LayoutOptions<S>) -> (r: Vec<MathBox>)
    requires
        forall|i: int| 0 <= i < list@.len() ==> supported(#[trigger] list@[i]),
    ensures
        r@.len() == list@.len(),
        list_boxes_lay_out(*list, options, r@),
    decreases list, 1nat,
{
    let stretchy_indices = indices_of_stretchy_elements(list, options);
    let n = list.len();
    if stretchy_indices.len() == 0 {
        let mut items: Vec<MathBox> = Vec::new();
        let mut i: usize = 0;
        while i < n
            invariant
                n == list@.len(),
                i <= n,
                items@.len() == i,
                forall|j: int| 0 <= j < list@.len() ==> supported(#[trigger] list@[j]),
                forall|j: int| 0 <= j < list@.len() ==> !can_stretch_spec(#[trigger] list@[j], options.shaper),
                forall|j: int| 0 <= j < i ==> element_lays_out(#[trigger] list@[j], options, items@[j]),
            decreases n - i,
        {
            let b = layout_list_element(&list[i], options);
            items.push(b);
            proof {
                assert forall|j: int| 0 <= j < i + 1 implies element_lays_out(#[trigger] list@[j], options, items@[j]) by {
                    if j == i {
                        assert(items@[j] == b);
                    }
                }
            }
            i = i + 1;
        }
        return items;
    }
    // the elements that do not stretch, in place
    let mut firsts: Vec<Option<MathBox>> = Vec::new();
    let ghost mut kept: Seq<MathBox> = Seq::empty();
    let mut max_ascent: i32 = 0;
    let mut max_descent: i32 = 0;
    let mut any: bool = false;
    let mut i: usize = 0;
    while i < n
        invariant
            n == list@.len(),
            i <= n,
            firsts@.len() == i,
            kept.len() == i,
            forall|j: int| 0 <= j < list@.len() ==> supported(#[trigger] list@[j]),
            forall|j: int|
                0 <= j < i ==> (#[trigger] firsts@[j] is None) == can_stretch_spec(list@[j], options.shaper),
            forall|j: int|
                0 <= j < i && !can_stretch_spec(#[trigger] list@[j], options.shaper) ==> firsts@[j] == Some(
                    kept[j],
                ) && element_lays_out(list@[j], options, kept[j]),
            any == kept_max_opt(list@, kept, options.shaper, i as int, true) is Some,
            any == kept_max_opt(list@, kept, options.shaper, i as int, false) is Some,
            any ==> max_ascent == kept_max_opt(list@, kept, options.shaper, i as int, true)->0,
            any ==> max_descent == kept_max_opt(list@, kept, options.shaper, i as int, false)->0,
            !any ==> max_ascent == 0 && max_descent == 0,
        decreases n - i,
    {
        let ghost old_kept = kept;
        if can_stretch(&list[i], options) {
            firsts.push(None);
            proof {
                kept = kept.push(crate::layout_model::default_box());
            }
        } else {
            let math_box = layout_list_element(&list[i], options);
            let ascent = math_box.extents().ascent;
            let descent = math_box.extents().descent;
            if any {
                max_ascent = max_i32(max_ascent, ascent);
                max_descent = max_i32(max_descent, descent);
            } else {
                max_ascent = ascent;
                max_descent = descent;
                any = true;
            }
            proof {
                kept = kept.push(math_box);
            }
            firsts.push(Some(math_box));
        }
        proof {
            lemma_kept_max_agree(list@, old_kept, kept, options.shaper, i as int, true);
            lemma_kept_max_agree(list@, old_kept, kept, options.shaper, i as int, false);
        }
        i = i + 1;
    }
    let stretch_options = LayoutOptions {
        stretch_size: Some(Extents { left_side_bearing: 0, width: 0, ascent: max_ascent, descent: max_descent }),
        ..options
    };
    let ghost all_firsts = firsts@;
    let mut items: Vec<MathBox> = Vec::new();
    let mut i: usize = 0;
    while i < n
        invariant
            n == list@.len(),
            i <= n,
            items@.len() == i,
            firsts@ == all_firsts.subrange(i as int, n as int),
            all_firsts.len() == n,
            kept.len() == n,
            forall|j: int| 0 <= j < list@.len() ==> supported(#[trigger] list@[j]),
            forall|j: int|
                0 <= j < n ==> (#[trigger] all_firsts[j] is None) == can_stretch_spec(list@[j], options.shaper),
            forall|j: int|
                0 <= j < n && !can_stretch_spec(#[trigger] list@[j], options.shaper) ==> all_firsts[j] == Some(
                    kept[j],
                ) && element_lays_out(list@[j], options, kept[j]),
            forall|j: int|
                0 <= j < i && !can_stretch_spec(#[trigger] list@[j], options.shaper) ==> items@[j] == kept[j],
            forall|j: int|
                0 <= j < i && can_stretch_spec(#[trigger] list@[j], options.shaper) ==> element_lays_out(
                    list@[j],
                    stretch_options,
                    items@[j],
                ),
        decreases n - i,
    {
        let first = firsts.remove(0);
        assert(first == all_firsts[i as int]);
        match first {
            Some(math_box) => items.push(math_box),
            None => {
                let b = layout_list_element(&list[i], stretch_options);
                items.push(b);
            },
        }
        proof {
            assert(firsts@ =~= all_firsts.subrange(i + 1, n as int));
        }
        i = i + 1;
    }
    proof {
        lemma_kept_max_agree(list@, kept, items@, options.shaper, n as int, true);
        lemma_kept_max_agree(list@, kept, items@, options.shaper, n as int, false);
        assert(stretch_options == list_stretch_options(list@, items@, options));
    }
    items
}

} // verus!
