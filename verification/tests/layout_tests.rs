use math_render::layout::LayoutOptions;
use math_render::math_box::{Drawable, Extents, MathBox, MathBoxContent, MathBoxMetrics, Vector};
use math_render::multiscripts::get_subsup_shifts;
use math_render::shaper::{
    glyph_extents_from, glyph_origin, shaping_features, select_variant, stretch_glyph_box, try_assembly, GlyphPart, GlyphVariant, MathConstant,
    MathGlyph, MathShaper, PartPlacement, Position,
};
use math_render::{layout, mathmlparser, CornerPosition, Field, LayoutStyle, MathStyle, PercentValue};

const LATIN_MODERN: [i32; 56] = [
    70, 50, 1300, 1300, 154, 250, 450, 664, 247, 344, 200, 363, 289, 108, 250, 160, 344, 56, 200,
    111, 167, 600, 444, 677, 345, 686, 120, 280, 111, 600, 200, 167, 394, 677, 345, 686, 40, 120,
    40, 40, 120, 350, 96, 120, 40, 40, 120, 40, 40, 50, 148, 40, 40, 278, -556, 60,
];

fn test_glyph(code: u32) -> MathGlyph {
    MathGlyph {
        glyph_code: code,
        cluster: 0,
        offset: Vector { x: 0, y: 0 },
        advance_width: 500,
        extents: Extents { left_side_bearing: 0, width: 500, ascent: 700, descent: 200 },
        italic_correction: 0,
        top_accent_attachment: 250,
    }
}

/// A font with the constants of Latin Modern Math, where every character is a glyph 500 units
/// wide, 700 high and 200 deep. Glyph 1000 has variants and an assembly.
struct TestShaper;

impl MathShaper for TestShaper {
    fn math_constant(&self, c: MathConstant) -> i32 {
        LATIN_MODERN[c as usize]
    }

    fn shape(&self, string: &str, _style: LayoutStyle, user_data: u64) -> MathBox {
        let glyphs = string.chars().map(|c| test_glyph(c as u32)).collect();
        MathBox::with_glyphs(glyphs, PercentValue::new(100), user_data)
    }

    fn get_math_table(&self) -> &[u8] {
        &[]
    }

    fn em_size(&self) -> Position {
        1000
    }

    fn ppem(&self) -> (Position, Position) {
        (1000, 1000)
    }

    fn is_stretchable(&self, glyph: u32, horizontal: bool) -> bool {
        math_render::shaper::has_stretch_forms(self, glyph, horizontal)
    }

    fn stretch_glyph(
        &self,
        glyph: u32,
        horizontal: bool,
        target_size: u32,
        style: LayoutStyle,
        user_data: u64,
    ) -> MathBox {
        stretch_glyph_box(self, glyph, horizontal, target_size, style, user_data)
    }

    fn glyph_from_index(&self, glyph_index: u32, _style: LayoutStyle, _user_data: u64) -> Vec<MathGlyph> {
        vec![test_glyph(glyph_index)]
    }

    fn glyph_variants(&self, glyph: u32, _horizontal: bool) -> Vec<GlyphVariant> {
        if glyph == 1000 {
            vec![
                GlyphVariant { glyph: 1001, advance: 1000 },
                GlyphVariant { glyph: 1002, advance: 1500 },
            ]
        } else {
            Vec::new()
        }
    }

    fn glyph_assembly(&self, glyph: u32, _horizontal: bool) -> Vec<GlyphPart> {
        if glyph == 1000 {
            assembly_parts()
        } else {
            Vec::new()
        }
    }

    fn math_kerning(&self, _glyph: &MathGlyph, _corner: CornerPosition, _height: Position) -> Position {
        0
    }
}

fn assembly_parts() -> Vec<GlyphPart> {
    vec![
        GlyphPart { glyph: 2001, start_connector_length: 0, end_connector_length: 50, full_advance: 300, is_extender: false },
        GlyphPart { glyph: 2002, start_connector_length: 50, end_connector_length: 50, full_advance: 200, is_extender: true },
        GlyphPart { glyph: 2003, start_connector_length: 50, end_connector_length: 0, full_advance: 300, is_extender: false },
    ]
}

fn boxes(b: &MathBox) -> &Vec<MathBox> {
    match b.content() {
        MathBoxContent::Boxes(list) => list,
        other => panic!("expected boxes, found {:?}", other),
    }
}

#[test]
fn fraction_is_centered() {
    let shaper = TestShaper;
    let list = mathmlparser::parse("<mfrac><mn>1</mn><mn>22</mn></mfrac>".as_bytes()).unwrap();
    let result = layout(&list, &shaper);
    let parts = boxes(&result);
    assert_eq!(parts.len(), 3);
    let bar = &parts[1];
    let left_edge = bar.origin.x;
    let width = bar.extents().width;
    for part in [&parts[0], &parts[2]] {
        let left_space = part.origin.x - left_edge;
        let right_space = width - part.extents().width - left_space;
        assert!((left_space - right_space).abs() <= 1);
    }
    // the numerator is above the bar, the denominator below
    assert!(parts[0].origin.y < bar.origin.y && bar.origin.y < parts[2].origin.y);
}

#[test]
fn row_elements_follow_each_other() {
    let shaper = TestShaper;
    let list = mathmlparser::parse("<mi>a</mi><mi>b</mi><mi>c</mi>".as_bytes()).unwrap();
    let result = layout(&list, &shaper);
    let parts = boxes(&result);
    assert_eq!(parts.len(), 3);
    assert_eq!(parts[0].origin.x, 0);
    assert_eq!(parts[1].origin.x, 500);
    assert_eq!(parts[2].origin.x, 1000);
    assert_eq!(result.advance_width(), 1500);
}

#[test]
fn space_has_its_width() {
    let shaper = TestShaper;
    let list = mathmlparser::parse("<mspace width=\"1.5em\"/>".as_bytes()).unwrap();
    let result = layout(&list, &shaper);
    assert_eq!(result.extents().width, 1500);
    assert_eq!(result.advance_width(), 1500);
}

#[test]
fn test_assembly() {
    let parts = assembly_parts();
    // 300 + 2 * 200 + 300 = 1000 with no overlap
    let placed = try_assembly(&parts, true, 1000).unwrap();
    let expected = [(2001, 0), (2002, 300), (2002, 500), (2003, 700)];
    assert_eq!(placed.len(), expected.len());
    for (p, (g, x)) in placed.iter().zip(expected.iter()) {
        assert_eq!(*p, PartPlacement { glyph: *g, offset: Vector { x: *x, y: 0 } });
    }
    // vertically the parts go up
    let placed = try_assembly(&parts, false, 1000).unwrap();
    assert_eq!(placed[3].offset, Vector { x: 0, y: -700 });
    // 900 needs the same parts overlapping by (1000 - 900) / 3 = 33
    let placed = try_assembly(&parts, true, 900).unwrap();
    assert_eq!(placed.len(), 4);
    assert_eq!(placed[1].offset.x, 300 - 33);
    // no extender: no assembly
    assert!(try_assembly(&parts[0..1], true, 1000).is_none());
    // too many parts
    assert!(try_assembly(&parts, true, 1_000_000).is_none());
}

#[test]
fn variant_selection() {
    let variants = [
        GlyphVariant { glyph: 1, advance: 100 },
        GlyphVariant { glyph: 2, advance: 200 },
        GlyphVariant { glyph: 3, advance: 200 },
        GlyphVariant { glyph: 4, advance: 300 },
    ];
    // the smallest at least the target, the first of equals
    assert_eq!(select_variant(&variants, 150, false), Some(1));
    // the largest at most the target, the last of equals
    assert_eq!(select_variant(&variants, 250, true), Some(2));
    assert_eq!(select_variant(&variants, 301, false), None);
    assert_eq!(select_variant(&variants, 50, true), None);
}

#[test]
fn stretching_chooses_variant_then_assembly() {
    let shaper = TestShaper;
    let style = LayoutStyle::new();
    // the glyph itself is 500 wide
    let b = stretch_glyph_box(&shaper, 1000, true, 400, style, 7);
    match b.content() {
        MathBoxContent::Drawable(Drawable::Glyphs { glyphs, .. }) => assert_eq!(glyphs[0].glyph_code, 1000),
        other => panic!("unexpected {:?}", other),
    }
    let b = stretch_glyph_box(&shaper, 1000, true, 1200, style, 7);
    match b.content() {
        MathBoxContent::Drawable(Drawable::Glyphs { glyphs, .. }) => assert_eq!(glyphs[0].glyph_code, 1002),
        other => panic!("unexpected {:?}", other),
    }
    let b = stretch_glyph_box(&shaper, 1000, true, 2000, style, 7);
    assert_eq!(boxes(&b).len(), 2 + 7);
    assert_eq!(b.user_data(), 7);
}

#[test]
fn subscript_and_superscript_keep_their_gap() {
    let shaper = TestShaper;
    let options = LayoutOptions { shaper: &shaper, style: LayoutStyle::new(), stretch_size: None, user_data: 0 };
    let glyph_box = |c: char| shaper.shape(&c.to_string(), LayoutStyle::new(), 0);
    let (sub, sup) = get_subsup_shifts(&glyph_box('1'), &glyph_box('2'), &glyph_box('x'), options);
    // the gap between the bottom of the superscript and the top of the subscript
    let gap = (sup - 200) - (700 - sub);
    assert!(gap >= LATIN_MODERN[MathConstant::SubSuperscriptGapMin as usize]);
    assert!(sub >= LATIN_MODERN[MathConstant::SubscriptShiftDown as usize]);
}

#[test]
fn corner_mirrors() {
    for c in [CornerPosition::TopLeft, CornerPosition::TopRight, CornerPosition::BottomLeft, CornerPosition::BottomRight] {
        assert_eq!(c.horizontal_mirror().horizontal_mirror(), c);
        assert_eq!(c.vertical_mirror().vertical_mirror(), c);
        assert_eq!(c.diagonal_mirror(), c.horizontal_mirror().vertical_mirror());
        assert_eq!(c.horizontal_mirror().is_left(), !c.is_left());
        assert_eq!(c.vertical_mirror().is_top(), c.is_top());
        assert_eq!(c.is_top(), !c.is_left());
    }
}

#[test]
fn styles_and_percentages() {
    let style = LayoutStyle::new();
    assert_eq!(style.math_style, MathStyle::Display);
    let sup = style.superscript_style();
    assert_eq!(sup.script_level, 1);
    assert_eq!(sup.math_style, MathStyle::Inline);
    let sub = style.subscript_style();
    assert!(sub.is_cramped);
    assert_eq!(style.with_increased_script_level().with_decreased_script_level().script_level, 0);
    assert_eq!(PercentValue::new(70).as_percentage(), 70);
    assert_eq!(PercentValue::new(50).mul_i32(300), 150);
    assert_eq!(PercentValue::new(50).div_i32(150), 300);
}

fn text(s: &str, user_data: u64) -> math_render::MathExpression {
    math_render::MathExpression::new(math_render::MathItem::Field(math_render::Field::Unicode(s.to_string())), user_data)
}

fn sum_with_limits(is_limits: bool) -> math_render::MathExpression {
    math_render::MathExpression::new(
        math_render::MathItem::OverUnder(math_render::OverUnder {
            nucleus: Some(text("S", 1)),
            over: Some(text("n", 2)),
            under: Some(text("i", 3)),
            over_is_accent: false,
            under_is_accent: false,
            is_limits,
        }),
        7,
    )
}

#[test]
fn limits_in_inline_style_are_scripts() {
    let shaper = TestShaper;
    let atom = math_render::MathExpression::new(
        math_render::MathItem::Atom(math_render::Atom {
            nucleus: Some(text("S", 1)),
            top_left: None,
            top_right: Some(text("n", 2)),
            bottom_left: None,
            bottom_right: Some(text("i", 3)),
        }),
        7,
    );
    let inline = |style: LayoutStyle, _user_data: u64| style.inline_style();
    let limits = math_render::layout_with_style(&sum_with_limits(true), &shaper, inline);
    let scripts = math_render::layout_with_style(&atom, &shaper, inline);
    assert_eq!(format!("{:?}", limits), format!("{:?}", scripts));
    // as a stack the parts are placed above and below each other
    let stack = math_render::layout_with_style(&sum_with_limits(false), &shaper, inline);
    assert_ne!(format!("{:?}", limits), format!("{:?}", stack));
}

#[test]
fn limits_in_display_style_are_a_stack() {
    let shaper = TestShaper;
    let with_limits = layout(&sum_with_limits(true), &shaper);
    let without = layout(&sum_with_limits(false), &shaper);
    assert_eq!(format!("{:?}", with_limits), format!("{:?}", without));
    let parts = boxes(&with_limits);
    assert_eq!(parts.len(), 2);
}

#[test]
fn glyph_metrics_from_font_units() {
    let e = glyph_extents_from(10, 700, 500, -900);
    assert_eq!(e, Extents { left_side_bearing: 10, width: 500, ascent: 700, descent: 200 });
    assert_eq!(glyph_origin(3, 40), Vector { x: 3, y: -40 });
    assert_eq!(glyph_origin(0, i32::MIN), Vector { x: 0, y: i32::MAX });
    let style = LayoutStyle::new();
    let f = shaping_features(style);
    assert_eq!(f.script_style, None);
    assert!(!f.flat_accents);
    let f = shaping_features(style.with_increased_script_level().with_increased_script_level());
    assert_eq!(f.script_style, Some(2));
}

#[test]
fn drawing_geometry_of_a_glyph_run() {
    let run = MathBox::with_glyphs(vec![test_glyph(65)], PercentValue::new(100), 0);
    let full = |x, y, width, height| math_render::drawing::Rect { x, y, width, height };
    assert_eq!(math_render::drawing::ink_rect(&run), Some(full(0, -700, 500, 900)));
    assert_eq!(
        math_render::drawing::logical_rects(&run),
        (Some(full(0, -700, 500, 700)), Some(full(0, 0, 500, 200)))
    );
    assert_eq!(math_render::drawing::view_box(&run), full(-10, -710, 520, 920));
    let marker = math_render::drawing::accent_attachment_marker(&run);
    assert_eq!((marker.from, marker.to), (Vector { x: 250, y: 400 }, Vector { x: 250, y: -900 }));
    assert!(math_render::drawing::rule_of(&run).is_none());
}

#[test]
fn drawing_geometry_of_a_rule() {
    let rule = MathBox::with_line(Vector { x: 0, y: -250 }, Vector { x: 300, y: -250 }, 40, 0);
    let top = -250 - rule.extents().ascent;
    let (segment, thickness) = math_render::drawing::rule_of(&rule).unwrap();
    assert_eq!(thickness, 40);
    assert_eq!((segment.from, segment.to), (Vector { x: 0, y: top }, Vector { x: 300, y: top }));
    assert!(math_render::drawing::ink_rect(&rule).is_none());
    assert_eq!(math_render::drawing::logical_rects(&rule), (None, None));
}

#[test]
fn normalize_moves_negative_parts_into_the_origin() {
    let bounds = math_render::math_box::Bounds {
        origin: Vector { x: 3, y: 0 },
        extents: Extents { left_side_bearing: 1, width: 10, ascent: -5, descent: 20 },
    };
    let n = bounds.normalize();
    assert_eq!(n.origin, Vector { x: 3, y: 5 });
    assert_eq!(n.extents, Extents { left_side_bearing: 1, width: 10, ascent: 0, descent: 15 });
    let up = math_render::math_box::Bounds {
        origin: Vector { x: 0, y: 0 },
        extents: Extents { left_side_bearing: 0, width: 10, ascent: 30, descent: -10 },
    };
    let n = up.normalize();
    assert_eq!(n.origin.y, -10);
    assert_eq!((n.extents.ascent, n.extents.descent), (20, 0));
}

#[test]
fn fraction_centering_test() {
    let shaper = TestShaper;
    let xml = "<mfrac><mn>1</mn><mn>2</mn></mfrac>";
    let list = mathmlparser::parse(xml.as_bytes()).unwrap();
    let result = layout(&list, &shaper);
    let boxes = boxes(&result);

    let fraction_bar = &boxes[1];
    let left_edge = fraction_bar.origin.x;
    let width = fraction_bar.extents().width;

    // the numerator is centered
    let num = &boxes[0];
    let left_space = num.origin.x - left_edge;
    let right_space = width - num.extents().width - left_space;
    assert!((left_space - right_space).abs() <= 2);

    // the denominator is centered
    let denom = &boxes[2];
    let left_space = denom.origin.x - left_edge;
    let right_space = width - denom.extents().width - left_space;
    assert!((left_space - right_space).abs() <= 2);
}

fn fraction_of(thickness: Option<math_render::MathExpression>) -> math_render::MathExpression {
    math_render::MathExpression::new(
        math_render::MathItem::GeneralizedFraction(math_render::GeneralizedFraction {
            numerator: Some(text("1", 1)),
            denominator: Some(text("2", 2)),
            thickness,
        }),
        0,
    )
}

fn rule_thickness_of(b: &MathBox) -> u32 {
    match boxes(b)[1].content() {
        MathBoxContent::Drawable(Drawable::Line { thickness, .. }) => *thickness,
        other => panic!("expected a rule, found {:?}", other),
    }
}

#[test]
fn fraction_rule_thickness() {
    let shaper = TestShaper;
    let default = layout(&fraction_of(None), &shaper);
    assert_eq!(rule_thickness_of(&default), shaper.math_constant(MathConstant::FractionRuleThickness) as u32);
    let space = |em: i32| {
        math_render::MathExpression::new(
            math_render::MathItem::Space(math_render::MathSpace::horizontal_space(math_render::Length::new(
                em,
                10,
                math_render::LengthUnit::Em,
            ))),
            0,
        )
    };
    // a zero thickness draws the fraction as a stack
    let stack = layout(&fraction_of(Some(space(0))), &shaper);
    assert_eq!(rule_thickness_of(&stack), 0);
    // a tenth of an em is 100 units of the test font
    let thick = layout(&fraction_of(Some(space(1))), &shaper);
    assert_eq!(rule_thickness_of(&thick), 100);
}

#[test]
fn parts_that_are_not_laid_out_may_hold_anything() {
    let shaper = TestShaper;
    let glyph = || {
        math_render::MathExpression::new(
            math_render::MathItem::Field(Field::Glyph(math_render::Glyph { glyph_code: 7, scale: PercentValue::new(100) })),
            4,
        )
    };
    let half_fraction = math_render::MathExpression::new(
        math_render::MathItem::GeneralizedFraction(math_render::GeneralizedFraction {
            numerator: Some(glyph()),
            denominator: None,
            thickness: None,
        }),
        5,
    );
    assert!(math_render::typesetting::is_supported(&half_fraction));
    let b = layout(&half_fraction, &shaper);
    assert_eq!(b.user_data(), 0);
    assert!(matches!(b.content(), MathBoxContent::Empty(_)));
    let lone_scripts = math_render::MathExpression::new(
        math_render::MathItem::Atom(math_render::Atom {
            nucleus: None,
            top_left: None,
            top_right: Some(glyph()),
            bottom_left: None,
            bottom_right: None,
        }),
        6,
    );
    assert!(math_render::typesetting::is_supported(&lone_scripts));
    let b = layout(&lone_scripts, &shaper);
    assert_eq!(b.user_data(), 6);
    assert!(matches!(b.content(), MathBoxContent::Empty(_)));
    assert!(!math_render::typesetting::is_supported(&glyph()));
}

#[test]
fn an_operator_without_text_gives_an_empty_box() {
    let shaper = TestShaper;
    let op = math_render::MathExpression::new(
        math_render::MathItem::Operator(math_render::Operator {
            stretch_constraints: None,
            is_large_op: false,
            leading_space: math_render::Length::new(0, 1, math_render::LengthUnit::Em),
            trailing_space: math_render::Length::new(0, 1, math_render::LengthUnit::Em),
            field: Field::Empty,
        }),
        3,
    );
    assert!(math_render::typesetting::is_supported(&op));
    let b = layout(&op, &shaper);
    assert!(matches!(b.content(), MathBoxContent::Empty(_)));
    assert_eq!(b.advance_width(), 0);
}

#[test]
fn is_top_tells_positions_right_of_the_base() {
    assert!(CornerPosition::TopRight.is_top());
    assert!(CornerPosition::BottomRight.is_top());
    assert!(!CornerPosition::TopLeft.is_top());
    assert!(!CornerPosition::BottomLeft.is_top());
}

#[test]
fn atom_without_scripts_lays_out_as_its_nucleus() {
    let shaper = TestShaper;
    let atom = math_render::MathExpression::new(
        math_render::MathItem::Atom(math_render::Atom {
            nucleus: Some(text("x", 4)),
            top_left: None,
            top_right: None,
            bottom_left: None,
            bottom_right: None,
        }),
        4,
    );
    let from_atom = layout(&atom, &shaper);
    let from_nucleus = layout(&text("x", 4), &shaper);
    assert_eq!(format!("{:?}", from_atom), format!("{:?}", from_nucleus));
    // the same expression always gives the same box
    assert_eq!(format!("{:?}", layout(&atom, &shaper)), format!("{:?}", from_atom));
}
