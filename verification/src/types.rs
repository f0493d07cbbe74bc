//! The abstract representation of mathematical notation.
use vstd::prelude::*;

use crate::arith::{clamp_i32, div_trunc};
use crate::math_box::Vector;

verus! {

/// An identifier of a glyph inside a font.
pub type GlyphCode = u32;

/// A math expression: a `MathItem` together with an integer the caller can use to find the
/// expression again (for example in the boxes produced by layout).
#[derive(Debug)]
pub struct MathExpression {
    pub item: Box<MathItem>,
    pub user_data: u64,
}

impl MathExpression {
    /// Creates an expression holding `expr`, tagged with `user_data`.
    pub fn new(expr: MathItem, user_data: u64) -> (r: MathExpression)
        ensures
            *r.item == expr,
            r.user_data == user_data,
    {
        MathExpression { item: Box::new(expr), user_data }
    }

    /// Replaces the user data of the expression.
    pub fn set_user_data(&mut self, user_data: u64)
        ensures
            final(self).user_data == user_data,
            final(self).item == old(self).item,
    {
        self.user_data = user_data;
    }

    /// The user data of the expression.
    pub fn get_user_data(&self) -> (r: u64)
        ensures
            r == self.user_data,
    {
        self.user_data
    }
}

/// A `MathItem` is the abstract representation of mathematical notation that manages the layout
/// of its subexpressions.
#[derive(Debug)]
pub enum MathItem {
    /// A simple element displaying a single field without special formatting.
    Field(Field),
    /// A fixed amount of whitespace in the formula. `width` specifies the horizontal space,
    /// `ascent` the space above the baseline and `descent` the space below the baseline.
    Space(MathSpace),
    /// An expression that consists of a base (called nucleus) and optionally of attachments at
    /// each corner (e.g. subscripts and superscripts).
    Atom(Atom),
    /// An expression that consists of a base and optionally of attachments that go above or below
    /// the nucleus like e.g. accents.
    OverUnder(OverUnder),
    /// A generalized version of a fraction that can ether render as a standard fraction or
    /// as a stack of objects (e.g. for layout of mathematical vectors).
    GeneralizedFraction(GeneralizedFraction),
    /// A expression inside a radical symbol with an optional degree.
    Root(Root),
    /// A symbol that can grow horizontally or vertically to match the size of its surrounding
    /// elements.
    Operator(Operator),
    /// A list of math expressions to be laid out sequentially.
    List(Vec<MathExpression>),
}

impl Default for MathItem {
    fn default() -> (r: MathItem)
        ensures
            r == MathItem::Field(Field::Empty),
    {
        MathItem::Field(Field::Empty)
    }
}

/// A Field is the basic building block of mathematical notation. If a `MathExpression` is
/// considered as a tree data structure, then a `Field` represents a leaf.
///
/// A `Unicode` field is typeset with the complex text layout features of the font; a `Glyph`
/// field names one glyph of the font; an `Empty` field draws nothing but still yields a
/// 'marker' box in the output.
#[derive(Debug, PartialEq, Eq, Clone)]
pub enum Field {
    /// Nothing. This will not show in typeset output.
    Empty,
    /// Represents some text that should be laid out using complex text layout features of
    /// OpenType.
    Unicode(String),
    /// Represents a specific glyph in the current font.
    Glyph(Glyph),
}

impl Default for Field {
    /// Returns the empty field.
    fn default() -> (r: Field)
        ensures
            r == Field::Empty,
    {
        Field::Empty
    }
}

impl Field {
    /// Returns true if the field is an empty field.
    pub fn is_empty(&self) -> (r: bool)
        ensures
            r == (*self is Empty),
    {
        match self {
            Field::Empty => true,
            _ => false,
        }
    }

    /// `None` for the empty field, the field itself otherwise.
    pub fn into_option(self) -> (r: Option<Field>)
        ensures
            self is Empty ==> r is None,
            !(self is Empty) ==> r == Some(self),
    {
        match self {
            Field::Empty => None,
            _ => Some(self),
        }
    }
}

/// A fixed amount of whitespace.
#[derive(Copy, Clone, Debug, PartialEq)]
pub struct MathSpace {
    pub width: Length,
    pub ascent: Length,
    pub descent: Length,
}

impl MathSpace {
    /// Horizontal space of the given width, with no ascent or descent.
    pub fn horizontal_space(width: Length) -> (r: Self)
        ensures
            r.width == width,
            r.ascent@ == Length::zero_spec(),
            r.descent@ == Length::zero_spec(),
    {
        MathSpace { width, ascent: Length::zero(), descent: Length::zero() }
    }
}

/// An expression that consists of a base (called nucleus) and attachments at each corner (e.g.
/// subscripts and superscripts).
#[derive(Default, Debug)]
pub struct Atom {
    /// The base of the atom.
    pub nucleus: Option<MathExpression>,
    /// top left attachment
    pub top_left: Option<MathExpression>,
    /// top right attachment
    pub top_right: Option<MathExpression>,
    /// bottom left attachment
    pub bottom_left: Option<MathExpression>,
    /// bottom right attachment
    pub bottom_right: Option<MathExpression>,
}

/// An expression that consists of a base (called nucleus) and attachments that go above or below
/// the nucleus like e.g. accents.
#[derive(Debug, Default)]
pub struct OverUnder {
    /// the base
    pub nucleus: Option<MathExpression>,
    /// the `Element` to go above the base
    pub over: Option<MathExpression>,
    /// the `Element` to go below the base
    pub under: Option<MathExpression>,
    /// the `over` element should be rendered as an accent
    pub over_is_accent: bool,
    /// the `under` element should be rendered as an accent
    pub under_is_accent: bool,
    /// If set, the `OverUnder` is laid out as an `Atom` (over as superscript, under as
    /// subscript) when the current math style is `Inline`. This displays limits on large
    /// operators.
    pub is_limits: bool,
}

/// A structure describing a generalized fraction.
///
/// This can either be rendered as a fraction (with a line separating the numerator and the
/// denominator) or as a stack with no separating line (setting the `thickness`-parameter to a
/// value of 0).
#[derive(Debug, Default)]
pub struct GeneralizedFraction {
    /// The field above the fraction bar.
    pub numerator: Option<MathExpression>,
    /// The field below the fraction bar.
    pub denominator: Option<MathExpression>,
    /// Thickness of the fraction line, given as a space whose width is the thickness. If this
    /// is zero the fraction is drawn as a stack. If thickness is None (or not a space) the
    /// default fraction thickness is used.
    pub thickness: Option<MathExpression>,
}

/// An expression consisting of a radical symbol encapsulating the radicand and an optional degree
/// expression that is displayed above the beginning of the surd.
#[derive(Debug, Default)]
pub struct Root {
    /// The expression "inside" of the radical symbol.
    pub radicand: Option<MathExpression>,
    /// The degree of the radical.
    pub degree: Option<MathExpression>,
}

/// Limits on how far a stretchy operator may grow.
#[derive(Debug, Copy, Clone, PartialEq)]
pub struct StretchConstraints {
    pub min_size: Option<Length>,
    pub max_size: Option<Length>,
    pub symmetric: bool,
}

impl StretchConstraints {
    /// No size limits; `symmetric` as given.
    pub fn unbounded(symmetric: bool) -> (r: Self)
        ensures
            r.min_size is None,
            r.max_size is None,
            r.symmetric == symmetric,
    {
        StretchConstraints { min_size: None, max_size: None, symmetric }
    }
}

/// A symbol that can stretch to the size of its surroundings.
#[derive(Debug, Clone, PartialEq)]
pub struct Operator {
    pub stretch_constraints: Option<StretchConstraints>,
    pub is_large_op: bool,
    pub leading_space: Length,
    pub trailing_space: Length,
    pub field: Field,
}

/// The unit of a `Length`.
#[derive(Debug, Copy, Clone, PartialEq, Eq, Hash, Structural)]
pub enum LengthUnit {
    /// A point traditionally equals 1/72 of an inch.
    Point,
    /// Current EM-Size.
    Em,
    /// The minimum height to display a display operator.
    DisplayOperatorMinHeight,
}

/// A length: the rational number `numerator / denominator` of `unit`s. The denominator is
/// never zero.
#[derive(Debug, Copy, Clone, PartialEq)]
pub struct Length {
    numerator: i32,
    denominator: u32,
    unit: LengthUnit,
}

impl View for Length {
    type V = (int, int, LengthUnit);

    closed spec fn view(&self) -> (int, int, LengthUnit) {
        (self.numerator as int, self.denominator as int, self.unit)
    }
}

impl Length {
    #[verifier::type_invariant]
    spec fn denominator_positive(self) -> bool {
        self.denominator > 0
    }

    /// The zero length, in points.
    pub open spec fn zero_spec() -> (int, int, LengthUnit) {
        (0, 1, LengthUnit::Point)
    }

    /// The zero length, in points.
    pub fn zero() -> (r: Length)
        ensures
            r@ == Self::zero_spec(),
    {
        Length { numerator: 0, denominator: 1, unit: LengthUnit::Point }
    }

    /// The length `numerator / denominator` of `unit`s.
    pub fn new(numerator: i32, denominator: u32, unit: LengthUnit) -> (r: Self)
        requires
            denominator > 0,
        ensures
            r@ == (numerator as int, denominator as int, unit),
    {
        Length { numerator, denominator, unit }
    }

    /// Two lengths with the same numerator, denominator and unit are the same length.
    pub proof fn lemma_view_injective(a: Length, b: Length)
        requires
            a@ == b@,
        ensures
            a == b,
    {
    }

    /// The numerator.
    pub fn numerator(&self) -> (r: i32)
        ensures
            r == self@.0,
    {
        self.numerator
    }

    /// The denominator, which is positive.
    pub fn denominator(&self) -> (r: u32)
        ensures
            r == self@.1,
            r > 0,
    {
        proof {
            use_type_invariant(self);
        }
        self.denominator
    }

    /// The unit.
    pub fn unit(&self) -> (r: LengthUnit)
        ensures
            r == self@.2,
    {
        self.unit
    }

    /// True if the length is zero.
    pub fn is_null(self) -> (r: bool)
        ensures
            r == (self@.0 == 0),
    {
        self.numerator == 0
    }

    /// The length `numerator / denominator` em.
    pub fn em(numerator: i32, denominator: u32) -> (r: Self)
        requires
            denominator > 0,
        ensures
            r@ == (numerator as int, denominator as int, LengthUnit::Em),
    {
        Length::new(numerator, denominator, LengthUnit::Em)
    }

    /// The value of the length as a whole number of font units, rounded toward zero and
    /// saturated at the `i32` range, where an em is `em_size` units, a point is
    /// `em_size / ppem` units and the display operator height is
    /// `display_operator_min_height` units. With `ppem` zero a nonzero point length in a
    /// nonzero em is infinitely large and saturates.
    pub open spec fn font_units_spec(self, em_size: int, ppem: int, display_operator_min_height: int) -> int {
        let (numerator, denominator, unit) = self@;
        if numerator == 0 {
            0
        } else {
            match unit {
                LengthUnit::Em => clamp_i32(div_trunc(em_size * numerator, denominator)),
                LengthUnit::Point => if ppem == 0 {
                    if em_size * numerator > 0 {
                        i32::MAX as int
                    } else if em_size * numerator < 0 {
                        i32::MIN as int
                    } else {
                        0
                    }
                } else {
                    clamp_i32(div_trunc(em_size * numerator, denominator * ppem))
                },
                LengthUnit::DisplayOperatorMinHeight => clamp_i32(
                    div_trunc(display_operator_min_height * numerator, denominator),
                ),
            }
        }
    }
}

impl Default for Length {
    fn default() -> (r: Length)
        ensures
            r@ == Length::zero_spec(),
    {
        Length::zero()
    }
}

impl Default for MathSpace {
    fn default() -> (r: MathSpace)
        ensures
            r.width@ == Length::zero_spec(),
            r.ascent@ == Length::zero_spec(),
            r.descent@ == Length::zero_spec(),
    {
        MathSpace { width: Length::zero(), ascent: Length::zero(), descent: Length::zero() }
    }
}

/// A type for representing fractional scale values in percent. A value of 100 means original size,
/// 50 means scaled to half the original size.
#[derive(Clone, Copy, PartialEq, Eq, Hash, Debug)]
pub struct PercentValue {
    percent: u8,
}

impl View for PercentValue {
    type V = int;

    closed spec fn view(&self) -> int {
        self.percent as int
    }
}

/// `value * percent / 100`, where the product saturates at the `i32` range and the division
/// rounds toward zero.
pub open spec fn scale_spec(value: int, percent: int) -> int {
    div_trunc(clamp_i32(value * percent), 100)
}

/// `value * 100 / percent`, rounding toward zero; the value itself at 100 percent.
pub open spec fn unscale_spec(value: int, percent: int) -> int {
    if percent == 100 {
        value
    } else {
        div_trunc(value * 100, percent)
    }
}

impl PercentValue {
    /// A percentage is at most 100.
    pub proof fn lemma_at_most_hundred(self)
        ensures
            0 <= self@ <= 255,
    {
    }

    /// Create a new `PercentValue` from an integer between 0 and 100 representing the percentage.
    pub fn new(value: u8) -> (r: PercentValue)
        requires
            value <= 100,
        ensures
            r@ == value,
    {
        PercentValue { percent: value }
    }

    /// The percentage for a value that may lie above 100: values above 100 count as 100.
    pub fn new_clamped(value: i32) -> (r: PercentValue)
        ensures
            r@ == if value < 0 {
                0
            } else if value > 100 {
                100
            } else {
                value as int
            },
    {
        let v: u8 = if value < 0 {
            0
        } else if value > 100 {
            100
        } else {
            value as u8
        };
        PercentValue { percent: v }
    }

    /// Returns the percentage as an unsigned integer.
    pub fn as_percentage(self) -> (r: u8)
        ensures
            r == self@,
    {
        self.percent
    }

    /// `value * percent / 100` (the product saturates at the `i32` range).
    pub fn mul_i32(self, value: i32) -> (r: i32)
        ensures
            r == scale_spec(value as int, self@),
    {
        let prod: i32 = crate::arith::sat_mul(value, self.percent as i32);
        let r = crate::arith::sat_div(prod, 100);
        r
    }

    /// `value * 100 / percent`; `value` itself at 100 percent.
    pub fn div_i32(self, value: i32) -> (r: i32)
        requires
            self@ != 0,
            self@ == 100 || i32::MIN <= value * 100 <= i32::MAX,
        ensures
            r == unscale_spec(value as int, self@),
    {
        if self.percent == 100 {
            value
        } else {
            let v = value * 100;
            crate::arith::sat_div(v, self.percent as i32)
        }
    }

    /// `value * 100 / percent`; `value` itself at 100 percent.
    pub fn div_u32(self, value: u32) -> (r: u32)
        requires
            self@ != 0,
            self@ == 100 || value * 100 <= u32::MAX,
        ensures
            r == unscale_spec(value as int, self@),
    {
        if self.percent == 100 {
            value
        } else {
            let v = value * 100;
            v / (self.percent as u32)
        }
    }
}

impl Default for PercentValue {
    fn default() -> (r: PercentValue)
        ensures
            r@ == 0,
    {
        PercentValue { percent: 0 }
    }
}

/// A font-dependent representation of a (possibly scaled) glyph.
#[derive(Debug, Clone, Copy, PartialEq, Eq, Hash)]
pub struct Glyph {
    /// The identifier of the glyph inside the font.
    pub glyph_code: GlyphCode,
    /// The scaling to apply to this glyph
    pub scale: PercentValue,
}

/// Vertical layout style for equations.
#[derive(Debug, Copy, Clone, PartialEq, Eq, Structural)]
pub enum MathStyle {
    /// Style for equations that are displayed in their own line.
    Display,
    /// Style for equations to be displayed inline with text.
    Inline,
}

/// Determines the general style how a math expression should be laid out.
#[derive(Debug, Copy, Clone, PartialEq, Eq)]
pub struct LayoutStyle {
    /// This affects how much vertical space the equation will use.
    pub math_style: MathStyle,
    /// When the `script_level` property is non-null the glyphs of the font are scaled down. To be
    /// used e.g. when rendering subscripts.
    pub script_level: u8,
    /// If `true` superscripts and similar protrude less at the top.
    pub is_cramped: bool,
    /// If `true`, try to display flatter versions of accents.
    pub flat_accent: bool,
    /// Determines if the expression should grow to meet the specified constraints.
    pub stretch_constraints: Option<Vector<i32>>,
    /// Specifies whether a diacritic should be typeset as an accent.
    pub as_accent: bool,
}

impl LayoutStyle {
    /// The default style: display style, script level 0, not cramped, no flat accents, no
    /// stretch constraints, not an accent.
    pub open spec fn default_spec() -> LayoutStyle {
        LayoutStyle {
            math_style: MathStyle::Display,
            script_level: 0,
            is_cramped: false,
            flat_accent: false,
            stretch_constraints: None,
            as_accent: false,
        }
    }

    /// Returns a new `LayoutStyle` with default settings
    pub fn new() -> (r: LayoutStyle)
        ensures
            r == Self::default_spec(),
    {
        LayoutStyle {
            math_style: MathStyle::Display,
            script_level: 0,
            is_cramped: false,
            flat_accent: false,
            stretch_constraints: None,
            as_accent: false,
        }
    }

    /// The same style in inline math style.
    pub fn inline_style(self) -> (r: Self)
        ensures
            r == (LayoutStyle { math_style: MathStyle::Inline, ..self }),
    {
        LayoutStyle { math_style: MathStyle::Inline, ..self }
    }

    /// The same style in display math style.
    pub fn display_style(self) -> (r: Self)
        ensures
            r == (LayoutStyle { math_style: MathStyle::Display, ..self }),
    {
        LayoutStyle { math_style: MathStyle::Display, ..self }
    }

    /// The script level raised by one (staying at 255).
    pub fn with_increased_script_level(self) -> (r: Self)
        ensures
            r == (LayoutStyle {
                script_level: if self.script_level == 255 {
                    255
                } else {
                    (self.script_level + 1) as u8
                },
                ..self
            }),
    {
        let level = if self.script_level == 255 {
            255
        } else {
            self.script_level + 1
        };
        LayoutStyle { script_level: level, ..self }
    }

    /// The script level lowered by one (staying at 0).
    pub fn with_decreased_script_level(self) -> (r: Self)
        ensures
            r == (LayoutStyle {
                script_level: if self.script_level == 0 {
                    0
                } else {
                    (self.script_level - 1) as u8
                },
                ..self
            }),
    {
        let level = if self.script_level == 0 {
            0
        } else {
            self.script_level - 1
        };
        LayoutStyle { script_level: level, ..self }
    }

    /// Returns a cramped version of the style.
    ///
    /// If the style is already cramped it is left unaltered. Cramped styles try to limit vertical
    /// extent of equations above the text. This is used for example in denominators of fractions or
    /// subscripts and similar.
    pub fn cramped_style(self) -> (r: LayoutStyle)
        ensures
            r == (LayoutStyle { is_cramped: true, ..self }),
    {
        LayoutStyle { is_cramped: true, ..self }
    }

    /// The same style without flat accents.
    pub fn no_flat_accent_style(self) -> (r: LayoutStyle)
        ensures
            r == (LayoutStyle { flat_accent: false, ..self }),
    {
        LayoutStyle { flat_accent: false, ..self }
    }

    /// The style of a superscript of a base styled with `self`: inline, one script level up.
    pub open spec fn superscript_spec(self) -> LayoutStyle {
        LayoutStyle {
            math_style: MathStyle::Inline,
            script_level: (self.script_level + 1) as u8,
            ..self
        }
    }

    /// Returns the style that the superscript of a base styled with `self` should have.
    pub fn superscript_style(self) -> (r: LayoutStyle)
        requires
            self.script_level < 255,
        ensures
            r == self.superscript_spec(),
    {
        LayoutStyle { math_style: MathStyle::Inline, script_level: self.script_level + 1, ..self }
    }

    /// Returns the style that the subscript of a base styled with `self` should have.
    pub fn subscript_style(self) -> (r: LayoutStyle)
        requires
            self.script_level < 255,
        ensures
            r == (LayoutStyle { is_cramped: true, ..self.superscript_spec() }),
    {
        self.superscript_style().cramped_style()
    }
}

impl Default for LayoutStyle {
    fn default() -> (r: LayoutStyle)
        ensures
            r == LayoutStyle::default_spec(),
    {
        LayoutStyle::new()
    }
}

/// Possible positions of multiscripts relative to the base.
#[derive(Debug, Clone, Copy, PartialEq, Eq, Structural)]
pub enum CornerPosition {
    /// Prescript top
    TopLeft,
    /// Superscript position
    TopRight,
    /// Prescript bottom
    BottomLeft,
    /// Subscript position
    BottomRight,
}

impl CornerPosition {
    /// Left of the base.
    pub open spec fn is_left_spec(self) -> bool {
        self is TopLeft || self is BottomLeft
    }

    /// Above the base.
    pub open spec fn is_above_spec(self) -> bool {
        self is TopLeft || self is TopRight
    }

    /// Right of the base (what `is_top` answers).
    pub open spec fn is_top_spec(self) -> bool {
        self is TopRight || self is BottomRight
    }

    /// Returns true if the position is left of the base
    pub fn is_left(self) -> (r: bool)
        ensures
            r == self.is_left_spec(),
    {
        match self {
            CornerPosition::TopLeft | CornerPosition::BottomLeft => true,
            _ => false,
        }
    }

    /// Returns true if the position is right of the base
    pub fn is_top(self) -> (r: bool)
        ensures
            r == self.is_top_spec(),
    {
        match self {
            CornerPosition::TopRight | CornerPosition::BottomRight => true,
            _ => false,
        }
    }

    /// Whether the position is above the base.
    pub(crate) fn is_above(self) -> (r: bool)
        ensures
            r == self.is_above_spec(),
    {
        match self {
            CornerPosition::TopLeft | CornerPosition::TopRight => true,
            _ => false,
        }
    }

    /// The corner on the same side vertically and the other side horizontally.
    pub open spec fn horizontal_mirror_spec(self) -> CornerPosition {
        match self {
            CornerPosition::TopLeft => CornerPosition::TopRight,
            CornerPosition::TopRight => CornerPosition::TopLeft,
            CornerPosition::BottomLeft => CornerPosition::BottomRight,
            CornerPosition::BottomRight => CornerPosition::BottomLeft,
        }
    }

    /// The corner on the same side horizontally and the other side vertically.
    pub open spec fn vertical_mirror_spec(self) -> CornerPosition {
        match self {
            CornerPosition::TopLeft => CornerPosition::BottomLeft,
            CornerPosition::TopRight => CornerPosition::BottomRight,
            CornerPosition::BottomLeft => CornerPosition::TopLeft,
            CornerPosition::BottomRight => CornerPosition::TopRight,
        }
    }

    /// The opposite corner.
    pub open spec fn diagonal_mirror_spec(self) -> CornerPosition {
        match self {
            CornerPosition::TopLeft => CornerPosition::BottomRight,
            CornerPosition::TopRight => CornerPosition::BottomLeft,
            CornerPosition::BottomLeft => CornerPosition::TopRight,
            CornerPosition::BottomRight => CornerPosition::TopLeft,
        }
    }

    /// Returns the position that is horizontally "on the other side".
    pub fn horizontal_mirror(self) -> (r: Self)
        ensures
            r == self.horizontal_mirror_spec(),
            r.is_left_spec() != self.is_left_spec(),
            r.is_above_spec() == self.is_above_spec(),
    {
        match self {
            CornerPosition::TopLeft => CornerPosition::TopRight,
            CornerPosition::TopRight => CornerPosition::TopLeft,
            CornerPosition::BottomLeft => CornerPosition::BottomRight,
            CornerPosition::BottomRight => CornerPosition::BottomLeft,
        }
    }

    /// Returns the position that is vertically opposite.
    pub fn vertical_mirror(self) -> (r: Self)
        ensures
            r == self.vertical_mirror_spec(),
            r.is_left_spec() == self.is_left_spec(),
            r.is_above_spec() != self.is_above_spec(),
    {
        match self {
            CornerPosition::TopLeft => CornerPosition::BottomLeft,
            CornerPosition::TopRight => CornerPosition::BottomRight,
            CornerPosition::BottomLeft => CornerPosition::TopLeft,
            CornerPosition::BottomRight => CornerPosition::TopRight,
        }
    }

    /// Returns the position that is both horizontally and vertically mirrored.
    pub fn diagonal_mirror(self) -> (r: Self)
        ensures
            r == self.diagonal_mirror_spec(),
            r.is_left_spec() != self.is_left_spec(),
            r.is_above_spec() != self.is_above_spec(),
    {
        match self {
            CornerPosition::TopLeft => CornerPosition::BottomRight,
            CornerPosition::TopRight => CornerPosition::BottomLeft,
            CornerPosition::BottomLeft => CornerPosition::TopRight,
            CornerPosition::BottomRight => CornerPosition::TopLeft,
        }
    }

    /// A corner is fixed by its two sides: whether it is left of the base and whether it is
    /// above it.
    pub proof fn lemma_sides_determine(self, other: CornerPosition)
        requires
            self.is_left_spec() == other.is_left_spec(),
            self.is_above_spec() == other.is_above_spec(),
        ensures
            self == other,
    {
    }

    /// Mirroring twice horizontally, or twice vertically, gives the corner back; mirroring
    /// diagonally is mirroring horizontally and vertically, in either order.
    pub proof fn lemma_mirrors(self)
        ensures
            self.horizontal_mirror_spec().horizontal_mirror_spec() == self,
            self.vertical_mirror_spec().vertical_mirror_spec() == self,
            self.diagonal_mirror_spec() == self.horizontal_mirror_spec().vertical_mirror_spec(),
            self.diagonal_mirror_spec() == self.vertical_mirror_spec().horizontal_mirror_spec(),
            self.diagonal_mirror_spec().diagonal_mirror_spec() == self,
    {
    }

    /// The number OpenType uses for the corner in math kerning tables.
    pub fn kern_index(self) -> (r: u32)
        ensures
            r == match self {
                CornerPosition::TopRight => 0u32,
                CornerPosition::TopLeft => 1u32,
                CornerPosition::BottomRight => 2u32,
                CornerPosition::BottomLeft => 3u32,
            },
    {
        match self {
            CornerPosition::TopRight => 0,
            CornerPosition::TopLeft => 1,
            CornerPosition::BottomRight => 2,
            CornerPosition::BottomLeft => 3,
        }
    }
}

} // verus!
