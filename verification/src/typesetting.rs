//! Laying out a whole expression.
use vstd::prelude::*;

use crate::layout::{layout_expression, opt_supported, supported, LayoutOptions};
use crate::layout_model::lays_out;
use crate::math_box::MathBox;
use crate::shaper::MathShaper;
use crate::types::{Field, LayoutStyle, MathExpression, MathItem};

verus! {

/// Whether layout can handle an optional expression (see `supported`).
fn is_opt_supported(expr: &Option<MathExpression>) -> (r: bool)
    ensures
        r == opt_supported(*expr),
    decreases expr, 1nat,
{
    match expr {
        Some(e) => is_supported(e),
        None => true,
    }
}

/// Whether layout can handle an expression: no field that is laid out names a glyph directly
/// (see `supported`).
pub fn is_supported(expr: &MathExpression) -> (r: bool)
    ensures
        r == supported(*expr),
    decreases expr, 0nat,
{
    match &*expr.item {
        MathItem::Field(f) => !matches!(f, Field::Glyph(_)),
        MathItem::Space(_) => true,
        MathItem::Atom(a) => match &a.nucleus {
            Some(n) => is_supported(n) && is_opt_supported(&a.top_right) && is_opt_supported(&a.bottom_right),
            None => true,
        },
        MathItem::OverUnder(o) => match &o.nucleus {
            Some(n) => is_supported(n) && is_opt_supported(&o.over) && is_opt_supported(&o.under),
            None => true,
        },
        MathItem::GeneralizedFraction(f) => match (&f.numerator, &f.denominator) {
            (Some(n), Some(d)) => is_supported(n) && is_supported(d),
            _ => true,
        },
        MathItem::Root(r) => match &r.radicand {
            Some(x) => is_supported(x) && is_opt_supported(&r.degree),
            None => true,
        },
        MathItem::Operator(op) => !matches!(op.field, Field::Glyph(_)),
        MathItem::List(l) => is_list_supported(l),
    }
}

/// Whether layout can handle every expression of a list.
fn is_list_supported(l: &Vec<MathExpression>) -> (r: bool)
    ensures
        r == (forall|i: int| 0 <= i < l@.len() ==> supported(#[trigger] l@[i])),
    decreases l, 1nat,
{
    let mut k: usize = 0;
    while k < l.len()
        invariant
            k <= l@.len(),
            forall|i: int| 0 <= i < k ==> supported(#[trigger] l@[i]),
        decreases l@.len() - k,
    {
        if !is_supported(&l[k]) {
            return false;
        }
        k = k + 1;
    }
    true
}

/// Lays out an expression in display style (see `layout_with_style`).
pub fn layout<S: MathShaper>(expression: &MathExpression, shaper: &S) -> (r: MathBox)
    requires
        supported(*expression),
    ensures
        lays_out(
            *expression,
            LayoutOptions {
                shaper,
                style: LayoutStyle::default_spec(),
                stretch_size: None,
                user_data: expression.user_data,
            },
            r,
        ),
{
    let options = LayoutOptions {
        shaper,
        style: LayoutStyle::new(),
        stretch_size: None,
        user_data: expression.user_data,
    };
    layout_expression(expression, options)
}

/// Lays out an expression in the style that `style` makes of the display style and the
/// expression's user data.
pub fn layout_with_style<S: MathShaper, F: Fn(LayoutStyle, u64) -> LayoutStyle>(
    expression: &MathExpression,
    shaper: &S,
    style: F,
) -> (r: MathBox)
    requires
        supported(*expression),
        style.requires((LayoutStyle::default_spec(), expression.user_data)),
    ensures
        exists|s: LayoutStyle|
            #[trigger] style.ensures((LayoutStyle::default_spec(), expression.user_data), s) && lays_out(
                *expression,
                LayoutOptions { shaper, style: s, stretch_size: None, user_data: expression.user_data },
                r,
            ),
{
    let user_data = expression.get_user_data();
    let default_style = LayoutStyle::new();
    let new_style = style(default_style, user_data);
    let options = LayoutOptions { shaper, style: new_style, stretch_size: None, user_data };
    layout_expression(expression, options)
}

} // verus!
