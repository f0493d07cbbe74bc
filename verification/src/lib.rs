//! Layout of mathematical formulas after the OpenType MATH model.
pub mod arith;
pub mod drawing;
pub mod layout;
pub mod layout_model;
pub mod layout_unique;
pub mod math_box;
pub mod mathmlparser;
pub mod multiscripts;
pub mod shaper;
pub mod stretchy;
pub mod text;
pub mod types;
pub mod typesetting;
pub mod unicode_math;

pub use crate::types::{
    Atom, CornerPosition, Field, GeneralizedFraction, Glyph, GlyphCode, LayoutStyle, Length,
    LengthUnit, MathExpression, MathItem, MathSpace, MathStyle, Operator, OverUnder,
    PercentValue, Root, StretchConstraints,
};
pub use crate::typesetting::{layout, layout_with_style};
