use math_render::math_box::{Bounds, Extents, Vector};
use math_render::{Field, LayoutStyle, MathExpression, MathItem, MathStyle, PercentValue};

#[test]
fn field_emptiness() {
    assert!(Field::Empty.is_empty());
    assert!(!Field::Unicode("Not empty".into()).is_empty());
    assert_eq!(Field::Empty.into_option(), None);
    assert_eq!(Field::Unicode("x".into()).into_option(), Some(Field::Unicode("x".into())));
}

#[test]
fn user_data_can_be_replaced() {
    let mut e = MathExpression::new(MathItem::Field(Field::Empty), 3);
    assert_eq!(e.get_user_data(), 3);
    e.set_user_data(9);
    assert_eq!(e.get_user_data(), 9);
}

#[test]
fn display_and_inline_styles() {
    let inline = LayoutStyle::new().inline_style();
    assert_eq!(inline.math_style, MathStyle::Inline);
    let display = inline.display_style();
    assert_eq!(display.math_style, MathStyle::Display);
    assert_eq!(display.script_level, inline.script_level);
}

#[test]
fn percent_division() {
    assert_eq!(PercentValue::new(70).div_u32(700), 1000);
    assert_eq!(PercentValue::new(100).div_u32(u32::MAX), u32::MAX);
}

#[test]
fn union_of_two_bounds() {
    let a = Bounds {
        origin: Vector { x: 0, y: 0 },
        extents: Extents { left_side_bearing: 5, width: 100, ascent: 50, descent: 10 },
    };
    let b = Bounds {
        origin: Vector { x: 80, y: 20 },
        extents: Extents { left_side_bearing: 0, width: 60, ascent: 40, descent: 30 },
    };
    let u = a.union_extents(b);
    assert_eq!(u, Extents { left_side_bearing: 5, width: 140, ascent: 50, descent: 50 });
}
