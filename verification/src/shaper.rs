//! The interface to fonts: math constants, glyphs and the `MathShaper` trait.
use vstd::prelude::*;

use crate::arith::{clamp_i32, div_trunc, div_trunc_i64};
use crate::math_box::{Drawable, Extents, MathBox, MathBoxContent, Vector};
use crate::types::{CornerPosition, LayoutStyle, PercentValue};

verus! {

/// The constants of an OpenType MATH table, in table order.
#[derive(Debug, Copy, Clone, Hash, PartialEq, Eq, Structural)]
pub enum MathConstant {
    ScriptPercentScaleDown,
    ScriptScriptPercentScaleDown,
    DelimitedSubFormulaMinHeight,
    DisplayOperatorMinHeight,
    MathLeading,
    AxisHeight,
    AccentBaseHeight,
    FlattenedAccentBaseHeight,
    SubscriptShiftDown,
    SubscriptTopMax,
    SubscriptBaselineDropMin,
    SuperscriptShiftUp,
    SuperscriptShiftUpCramped,
    SuperscriptBottomMin,
    SuperscriptBaselineDropMax,
    SubSuperscriptGapMin,
    SuperscriptBottomMaxWithSubscript,
    SpaceAfterScript,
    UpperLimitGapMin,
    UpperLimitBaselineRiseMin,
    LowerLimitGapMin,
    LowerLimitBaselineDropMin,
    StackTopShiftUp,
    StackTopDisplayStyleShiftUp,
    StackBottomShiftDown,
    StackBottomDisplayStyleShiftDown,
    StackGapMin,
    StackDisplayStyleGapMin,
    StretchStackTopShiftUp,
    StretchStackBottomShiftDown,
    StretchStackGapAboveMin,
    StretchStackGapBelowMin,
    FractionNumeratorShiftUp,
    FractionNumeratorDisplayStyleShiftUp,
    FractionDenominatorShiftDown,
    FractionDenominatorDisplayStyleShiftDown,
    FractionNumeratorGapMin,
    FractionNumDisplayStyleGapMin,
    FractionRuleThickness,
    FractionDenominatorGapMin,
    FractionDenomDisplayStyleGapMin,
    SkewedFractionHorizontalGap,
    SkewedFractionVerticalGap,
    OverbarVerticalGap,
    OverbarRuleThickness,
    OverbarExtraAscender,
    UnderbarVerticalGap,
    UnderbarRuleThickness,
    UnderbarExtraDescender,
    RadicalVerticalGap,
    RadicalDisplayStyleVerticalGap,
    RadicalRuleThickness,
    RadicalExtraAscender,
    RadicalKernBeforeDegree,
    RadicalKernAfterDegree,
    RadicalDegreeBottomRaisePercent,
}

/// A structure that describes an individual glyph in a font.
#[derive(Debug, Copy, Clone, PartialEq, Eq, Hash)]
pub struct MathGlyph {
    /// The font-specific glyph code
    pub glyph_code: u32,
    /// the utf-8 offset into the field that generated this glyph
    pub cluster: u32,
    /// The Offset at which the glyph should be rendered.
    pub offset: Vector<i32>,
    /// The glyph's advance width.
    pub advance_width: i32,
    /// The exact dimensions of the glyph's outline.
    pub extents: Extents<i32>,
    /// The italic correction to apply after this glyph.
    pub italic_correction: i32,
    /// The x-coordinate where a top accent should be attached.
    pub top_accent_attachment: i32,
}


/// A distance in font units.
pub type Position = i32;

/// A font that can shape text and answer questions about its OpenType MATH table.
///
/// The spec functions name the answers: a shaper answers the same question the same way. An
/// implementation may define them; the defaults leave them unknown to the verifier.
pub trait MathShaper {
    /// The value of a math constant in the font.
    closed spec fn constant_spec(&self, c: MathConstant) -> i32 {
        arbitrary()
    }

    /// The size of an em in font units.
    closed spec fn em_size_spec(&self) -> i32 {
        arbitrary()
    }

    /// The number of pixels per em.
    closed spec fn ppem_spec(&self) -> (i32, i32) {
        arbitrary()
    }

    /// The math kerning of `glyph` at `corner` for the given height.
    closed spec fn kerning_spec(&self, glyph: MathGlyph, corner: CornerPosition, correction_height: i32) -> i32 {
        arbitrary()
    }

    /// Whether the font has larger variants or an assembly for `glyph` in the given direction.
    closed spec fn stretchable_spec(&self, glyph: u32, horizontal: bool) -> bool {
        arbitrary()
    }

    /// The glyphs that the font's glyph `glyph` shapes to in `style`.
    closed spec fn glyph_spec(&self, glyph: u32, style: LayoutStyle) -> Seq<MathGlyph> {
        arbitrary()
    }

    /// The larger variants of `glyph` in the given direction, as the font lists them.
    closed spec fn variants_spec(&self, glyph: u32, horizontal: bool) -> Seq<GlyphVariant> {
        arbitrary()
    }

    /// The parts of the assembly of `glyph` in the given direction, as the font lists them.
    closed spec fn assembly_spec(&self, glyph: u32, horizontal: bool) -> Seq<GlyphPart> {
        arbitrary()
    }

    /// The box that `string` shapes to in `style`.
    closed spec fn shape_spec(&self, string: Seq<char>, style: LayoutStyle, user_data: u64) -> MathBox {
        arbitrary()
    }

    /// The box of `glyph` stretched to `target_size` in the given direction.
    closed spec fn stretch_spec(&self, glyph: u32, horizontal: bool, target_size: u32, style: LayoutStyle, user_data: u64) -> MathBox {
        arbitrary()
    }

    /// Returns value of a constant for the current font.
    fn math_constant(&self, c: MathConstant) -> (r: i32)
        ensures
            r == self.constant_spec(c),
    ;

    /// Shapes `string` into a box of glyphs.
    fn shape(&self, string: &str, style: LayoutStyle, user_data: u64) -> (r: MathBox)
        ensures
            r == self.shape_spec(string@, style, user_data),
    ;

    /// The OpenType MATH table of the font.
    fn get_math_table(&self) -> &[u8];

    /// The size of an em in font units.
    fn em_size(&self) -> (r: Position)
        ensures
            r == self.em_size_spec(),
    ;

    /// The number of pixels per em, horizontally and vertically.
    fn ppem(&self) -> (r: (Position, Position))
        ensures
            r == self.ppem_spec(),
    ;

    /// Whether `glyph` can be stretched in the given direction.
    fn is_stretchable(&self, glyph: u32, horizontal: bool) -> (r: bool)
        ensures
            r == self.stretchable_spec(glyph, horizontal),
    ;

    /// A version of `glyph` stretched to at least `target_size` in the given direction.
    fn stretch_glyph(
        &self,
        glyph: u32,
        horizontal: bool,
        target_size: u32,
        style: LayoutStyle,
        user_data: u64,
    ) -> (r: MathBox)
        ensures
            r == self.stretch_spec(glyph, horizontal, target_size, style, user_data),
    ;

    /// The glyphs that the font's glyph `glyph` shapes to in `style`.
    fn glyph_from_index(&self, glyph_index: u32, style: LayoutStyle, user_data: u64) -> (r: Vec<MathGlyph>)
        ensures
            r@ == self.glyph_spec(glyph_index, style),
    ;

    /// The larger variants of `glyph` in the given direction.
    fn glyph_variants(&self, glyph: u32, horizontal: bool) -> (r: Vec<GlyphVariant>)
        ensures
            r@ == self.variants_spec(glyph, horizontal),
    ;

    /// The parts of the assembly of `glyph` in the given direction.
    fn glyph_assembly(&self, glyph: u32, horizontal: bool) -> (r: Vec<GlyphPart>)
        ensures
            r@ == self.assembly_spec(glyph, horizontal),
    ;

    /// The math kerning of `glyph` at `corner` for the given height.
    fn math_kerning(&self, glyph: &MathGlyph, corner: CornerPosition, correction_height: Position) -> (r: Position)
        ensures
            r == self.kerning_spec(*glyph, corner, correction_height),
    ;
}

/// A larger version of a glyph, from the font's list of variants.
#[derive(Debug, Copy, Clone, PartialEq, Eq)]
pub struct GlyphVariant {
    pub glyph: u32,
    /// The size of the variant in the direction of growth.
    pub advance: i32,
}

/// A part of a glyph assembly, from the font.
#[derive(Debug, Copy, Clone, PartialEq, Eq)]
pub struct GlyphPart {
    pub glyph: u32,
    pub start_connector_length: i32,
    pub end_connector_length: i32,
    pub full_advance: i32,
    /// An extender may be repeated to make the assembly larger.
    pub is_extender: bool,
}

/// A part of an assembled glyph and where it goes.
#[derive(Debug, Copy, Clone, PartialEq, Eq)]
pub struct PartPlacement {
    pub glyph: u32,
    pub offset: Vector<i32>,
}

/// The point at `offset` along the direction of growth.
pub open spec fn offset_point(offset: i32, horizontal: bool) -> Vector<i32> {
    if horizontal {
        Vector { x: offset, y: 0 }
    } else {
        Vector { x: 0, y: offset }
    }
}

/// The offset of a shaped glyph from the shaper's offsets, where y grows upward: y is
/// negated, as y grows downward in boxes.
pub fn glyph_origin(x_offset: i32, y_offset: i32) -> (r: Vector<i32>)
    ensures
        r == (Vector { x: x_offset, y: clamp_i32(-y_offset) as i32 }),
{
    Vector { x: x_offset, y: crate::arith::sat_neg(y_offset) }
}

/// The ink extents of a glyph from the font's glyph extents (bearings from the origin, width
/// and height, where y grows upward and the height is negative downward): the ascent is the
/// y bearing and the descent the distance from the baseline down to the bottom.
pub fn glyph_extents_from(x_bearing: i32, y_bearing: i32, width: i32, height: i32) -> (r: Extents<i32>)
    ensures
        r == (Extents {
            left_side_bearing: x_bearing,
            width,
            ascent: y_bearing,
            descent: clamp_i32(-clamp_i32(height + y_bearing)) as i32,
        }),
{
    Extents {
        left_side_bearing: x_bearing,
        width,
        ascent: y_bearing,
        descent: crate::arith::sat_neg(crate::arith::sat_add(height, y_bearing)),
    }
}

/// The OpenType features text is shaped with in a style.
#[derive(Debug, Copy, Clone, PartialEq, Eq, Structural)]
pub struct ShapingFeatures {
    /// `ssty` with this value: the script level, from level 1 on.
    pub script_style: Option<u32>,
    /// `flac`: flattened accents.
    pub flat_accents: bool,
}

/// The features to shape with in `style`: the script style variants of its script level from
/// level 1 on, and flattened accents when the style asks for them.
pub fn shaping_features(style: LayoutStyle) -> (r: ShapingFeatures)
    ensures
        r.script_style == if style.script_level >= 1 {
            Some(style.script_level as u32)
        } else {
            None::<u32>
        },
        r.flat_accents == style.flat_accent,
{
    let script_style = if style.script_level >= 1 {
        Some(style.script_level as u32)
    } else {
        None
    };
    ShapingFeatures { script_style, flat_accents: style.flat_accent }
}

/// The point at `offset` along the direction of growth.
pub fn point_with_offset(offset: i32, horizontal: bool) -> (r: Vector<i32>)
    ensures
        r == offset_point(offset, horizontal),
{
    if horizontal {
        Vector { x: offset, y: 0 }
    } else {
        Vector { x: 0, y: offset }
    }
}

/// The variant a stretched glyph uses, as an index: for an accent the largest variant that is
/// at most the target (the last of several as large), otherwise the smallest that is at
/// least the target (the first of several as small).
pub open spec fn is_best_variant(vs: Seq<GlyphVariant>, target: int, as_accent: bool, i: int) -> bool {
    &&& 0 <= i < vs.len()
    &&& if as_accent {
        &&& vs[i].advance <= target
        &&& forall|j: int| 0 <= j < vs.len() && vs[j].advance <= target ==> vs[j].advance <= vs[i].advance
        &&& forall|j: int| i < j < vs.len() && vs[j].advance <= target ==> vs[j].advance < vs[i].advance
    } else {
        &&& vs[i].advance >= target
        &&& forall|j: int| 0 <= j < vs.len() && vs[j].advance >= target ==> vs[j].advance >= vs[i].advance
        &&& forall|j: int| 0 <= j < i && vs[j].advance >= target ==> vs[j].advance > vs[i].advance
    }
}

/// Whether a variant qualifies: at most the target for an accent, at least it otherwise.
pub open spec fn qualifies(v: GlyphVariant, target: int, as_accent: bool) -> bool {
    if as_accent {
        v.advance <= target
    } else {
        v.advance >= target
    }
}

/// Chooses the variant of a glyph for a target size (see `is_best_variant`); `None` when no
/// variant qualifies.
pub fn select_variant(variants: &[GlyphVariant], target: i64, as_accent: bool) -> (r: Option<usize>)
    ensures
        match r {
            Some(i) => is_best_variant(variants@, target as int, as_accent, i as int),
            None => forall|j: int| 0 <= j < variants@.len() ==> !qualifies(#[trigger] variants@[j], target as int, as_accent),
        },
{
    let mut best: Option<usize> = None;
    let mut k: usize = 0;
    while k < variants.len()
        invariant
            k <= variants@.len(),
            match best {
                Some(i) => {
                    &&& i < k
                    &&& qualifies(variants@[i as int], target as int, as_accent)
                    &&& forall|j: int| 0 <= j < k && qualifies(#[trigger] variants@[j], target as int, as_accent) ==> if as_accent {
                        variants@[j].advance <= variants@[i as int].advance
                    } else {
                        variants@[j].advance >= variants@[i as int].advance
                    }
                    &&& forall|j: int| (if as_accent { i < j < k } else { 0 <= j < i }) && qualifies(#[trigger] variants@[j], target as int, as_accent) ==> if as_accent {
                        variants@[j].advance < variants@[i as int].advance
                    } else {
                        variants@[j].advance > variants@[i as int].advance
                    }
                },
                None => forall|j: int| 0 <= j < k ==> !qualifies(#[trigger] variants@[j], target as int, as_accent),
            },
        decreases variants@.len() - k,
    {
        let v = variants[k];
        let ok = if as_accent {
            v.advance as i64 <= target
        } else {
            v.advance as i64 >= target
        };
        if ok {
            match best {
                None => {
                    best = Some(k);
                },
                Some(i) => {
                    let better = if as_accent {
                        v.advance >= variants[i].advance
                    } else {
                        v.advance < variants[i].advance
                    };
                    if better {
                        best = Some(k);
                    }
                },
            }
        }
        k = k + 1;
    }
    best
}

/// The sum of the advances of the extenders (or of the other parts).
pub open spec fn advance_sum(parts: Seq<GlyphPart>, extender: bool) -> int
    decreases parts.len(),
{
    if parts.len() == 0 {
        0
    } else {
        advance_sum(parts.drop_last(), extender) + if parts.last().is_extender == extender {
            parts.last().full_advance as int
        } else {
            0
        }
    }
}

/// The number of extenders (or of the other parts).
pub open spec fn part_count_of(parts: Seq<GlyphPart>, extender: bool) -> int
    decreases parts.len(),
{
    if parts.len() == 0 {
        0
    } else {
        part_count_of(parts.drop_last(), extender) + if parts.last().is_extender == extender {
            1int
        } else {
            0
        }
    }
}

/// `a / b` rounded down, for `b` not zero.
pub open spec fn floor_div(a: int, b: int) -> int {
    if b > 0 {
        a / b
    } else {
        (-a) / (-b)
    }
}

/// `a / b` rounded up, for `b` not zero.
pub open spec fn ceil_div(a: int, b: int) -> int {
    -floor_div(-a, b)
}

/// `x` limited to the range of `u32`.
pub open spec fn saturate_u32(x: int) -> int {
    if x < 0 {
        0
    } else if x > u32::MAX {
        u32::MAX as int
    } else {
        x
    }
}

/// How often each extender is repeated to reach `target`: the extenders' advance divided
/// into what the other parts leave, rounded up, and limited to the range of `u32`.
pub open spec fn assembly_repeat(parts: Seq<GlyphPart>, target: int) -> int {
    saturate_u32(ceil_div(target - advance_sum(parts, false), advance_sum(parts, true)))
}

/// The number of parts of the assembly, with the repetitions.
pub open spec fn assembly_part_count(parts: Seq<GlyphPart>, target: int) -> int {
    part_count_of(parts, false) + part_count_of(parts, true) * assembly_repeat(parts, target)
}

/// The overlap limited by the connectors from part `k` on: each part but the last limits it
/// by its end connector and each part but the first by its start connector; an extender that
/// is repeated limits it by both.
pub open spec fn connector_limit(parts: Seq<GlyphPart>, repeat: int, k: int, acc: int) -> int
    decreases parts.len() - k,
{
    if k < 0 || k >= parts.len() {
        acc
    } else {
        let p = parts[k];
        let repeated = repeat >= 2 && p.is_extender;
        let a1 = if k < parts.len() - 1 || repeated {
            if p.end_connector_length < acc { p.end_connector_length as int } else { acc }
        } else {
            acc
        };
        let a2 = if k > 0 || repeated {
            if p.start_connector_length < a1 { p.start_connector_length as int } else { a1 }
        } else {
            a1
        };
        connector_limit(parts, repeat, k + 1, a2)
    }
}

/// The overlap of neighbouring parts: the one that brings the assembly closest to the target
/// (rounded toward zero), limited by the connectors; none for a single part.
pub open spec fn assembly_overlap(parts: Seq<GlyphPart>, target: int) -> int {
    let count = assembly_part_count(parts, target);
    let repeat = assembly_repeat(parts, target);
    if count >= 2 {
        let c = advance_sum(parts, false) + repeat * advance_sum(parts, true);
        connector_limit(parts, repeat, 0, div_trunc(c - target, count - 1))
    } else {
        0
    }
}

/// The parts in order, each extender repeated `repeat` times.
pub open spec fn expanded_parts(parts: Seq<GlyphPart>, repeat: int) -> Seq<GlyphPart>
    decreases parts.len(),
{
    if parts.len() == 0 {
        Seq::empty()
    } else {
        expanded_parts(parts.drop_last(), repeat) + Seq::new(
            if parts.last().is_extender { repeat as nat } else { 1nat },
            |i: int| parts.last(),
        )
    }
}

/// Where part `i` starts: the advances of the parts before it, each less the overlap.
pub open spec fn part_offset(ex: Seq<GlyphPart>, overlap: int, i: int) -> int
    decreases i,
{
    if i <= 0 {
        0
    } else {
        part_offset(ex, overlap, i - 1) + ex[i - 1].full_advance - overlap
    }
}

/// Whether an assembly of the parts reaches the target: there are extenders, a sensible
/// number of parts (1 to 2000) and an overlap that is not negative.
pub open spec fn assembly_possible(parts: Seq<GlyphPart>, target: int) -> bool {
    &&& advance_sum(parts, true) != 0
    &&& 1 <= assembly_part_count(parts, target) <= 2000
    &&& assembly_overlap(parts, target) >= 0
}

/// The placement of part `i` of the assembly: left to right, or bottom to top (toward
/// negative y), limited to the range of `i32`.
pub open spec fn placement_of(parts: Seq<GlyphPart>, target: int, horizontal: bool, i: int) -> PartPlacement {
    let ex = expanded_parts(parts, assembly_repeat(parts, target));
    let off = part_offset(ex, assembly_overlap(parts, target), i);
    PartPlacement {
        glyph: ex[i].glyph,
        offset: offset_point((if horizontal { clamp_i32(off) } else { clamp_i32(-off) }) as i32, horizontal),
    }
}

/// `x / b` rounded up (see `ceil_div`).
fn ceil_div_i128(x: i128, b: i128) -> (r: i128)
    requires
        b != 0,
        -0x1_0000_0000_0000_0000_0000_0000 < x < 0x1_0000_0000_0000_0000_0000_0000,
        -0x1_0000_0000_0000_0000_0000_0000 < b < 0x1_0000_0000_0000_0000_0000_0000,
    ensures
        r == ceil_div(x as int, b as int),
{
    let nx: i128 = if b > 0 { x } else { -x };
    let nb: i128 = if b > 0 { b } else { -b };
    assert(ceil_div(x as int, b as int) == -((-nx) as int / nb as int));
    if nx >= 0 {
        let m = nx + nb - 1;
        let q = m / nb;
        let r = m % nb;
        proof {
            vstd::arithmetic::div_mod::lemma_fundamental_div_mod(m as int, nb as int);
            vstd::arithmetic::div_mod::lemma_mod_pos_bound(m as int, nb as int);
            assert((-nx) as int == (-(q as int)) * (nb as int) + (nb - 1 - r) as int) by (nonlinear_arith)
                requires
                    m as int == nb as int * (q as int) + r as int,
                    m == nx + nb - 1,
            ;
            vstd::arithmetic::div_mod::lemma_fundamental_div_mod_converse(
                (-nx) as int,
                nb as int,
                -(q as int),
                (nb - 1 - r) as int,
            );
        }
        q
    } else {
        -((-nx) / nb)
    }
}

/// The sums and counts of the parts, for extenders and for the others.
fn part_totals(parts: &[GlyphPart]) -> (r: (i128, i128, u64, u64))
    ensures
        r.0 == advance_sum(parts@, true),
        r.1 == advance_sum(parts@, false),
        r.2 == part_count_of(parts@, true),
        r.3 == part_count_of(parts@, false),
        r.2 + r.3 == parts@.len(),
        -(r.2 as int) * 0x8000_0000 <= r.0 <= r.2 as int * 0x8000_0000,
        -(r.3 as int) * 0x8000_0000 <= r.1 <= r.3 as int * 0x8000_0000,
{
    let n = parts.len();
    let mut sum_ext: i128 = 0;
    let mut sum_non: i128 = 0;
    let mut n_ext: u64 = 0;
    let mut n_non: u64 = 0;
    let mut k: usize = 0;
    assert(parts@.take(0) =~= Seq::<GlyphPart>::empty());
    while k < n
        invariant
            n == parts@.len(),
            k <= n,
            sum_ext == advance_sum(parts@.take(k as int), true),
            sum_non == advance_sum(parts@.take(k as int), false),
            n_ext == part_count_of(parts@.take(k as int), true),
            n_non == part_count_of(parts@.take(k as int), false),
            n_ext + n_non == k,
            -(n_ext as int) * 0x8000_0000 <= sum_ext <= n_ext as int * 0x8000_0000,
            -(n_non as int) * 0x8000_0000 <= sum_non <= n_non as int * 0x8000_0000,
        decreases n - k,
    {
        let p = parts[k];
        proof {
            assert(parts@.take(k + 1).drop_last() =~= parts@.take(k as int));
            assert(parts@.take(k + 1).last() == p);
        }
        if p.is_extender {
            sum_ext = sum_ext + p.full_advance as i128;
            n_ext = n_ext + 1;
        } else {
            sum_non = sum_non + p.full_advance as i128;
            n_non = n_non + 1;
        }
        k = k + 1;
    }
    assert(parts@.take(n as int) =~= parts@);
    (sum_ext, sum_non, n_ext, n_non)
}

/// The overlap limited by the connectors (see `connector_limit`).
fn limit_by_connectors(parts: &[GlyphPart], repeat: u64, init: i128) -> (r: i128)
    requires
        -0x1_0000_0000_0000_0000 <= init <= 0x1_0000_0000_0000_0000,
    ensures
        r == connector_limit(parts@, repeat as int, 0, init as int),
        r <= init,
        r >= -0x1_0000_0000_0000_0000,
{
    let n = parts.len();
    let mut acc: i128 = init;
    let mut k: usize = 0;
    while k < n
        invariant
            n == parts@.len(),
            k <= n,
            connector_limit(parts@, repeat as int, 0, init as int) == connector_limit(parts@, repeat as int, k as int, acc as int),
            acc <= init,
            acc >= -0x1_0000_0000_0000_0000,
        decreases n - k,
    {
        let p = parts[k];
        let repeated = repeat >= 2 && p.is_extender;
        if k + 1 < n || repeated {
            if (p.end_connector_length as i128) < acc {
                acc = p.end_connector_length as i128;
            }
        }
        if k > 0 || repeated {
            if (p.start_connector_length as i128) < acc {
                acc = p.start_connector_length as i128;
            }
        }
        k = k + 1;
    }
    acc
}

/// The expanded parts of the first `k` parts come first among all expanded parts.
proof fn lemma_expanded_prefix(parts: Seq<GlyphPart>, repeat: int, k: int)
    requires
        0 <= k <= parts.len(),
        repeat >= 0,
    ensures
        expanded_parts(parts.take(k), repeat).len() <= expanded_parts(parts, repeat).len(),
        forall|i: int|
            0 <= i < expanded_parts(parts.take(k), repeat).len() ==> expanded_parts(parts.take(k), repeat)[i]
                == #[trigger] expanded_parts(parts, repeat)[i],
    decreases parts.len(),
{
    if k == parts.len() {
        assert(parts.take(k) =~= parts);
    } else {
        let d = parts.drop_last();
        assert(d.take(k) =~= parts.take(k));
        lemma_expanded_prefix(d, repeat, k);
    }
}

/// The expanded parts number the assembly's parts.
proof fn lemma_expanded_len(parts: Seq<GlyphPart>, repeat: int)
    requires
        repeat >= 0,
    ensures
        expanded_parts(parts, repeat).len() == part_count_of(parts, false) + part_count_of(parts, true) * repeat,
    decreases parts.len(),
{
    if parts.len() > 0 {
        lemma_expanded_len(parts.drop_last(), repeat);
        assert(part_count_of(parts.drop_last(), true) * repeat + (if parts.last().is_extender { repeat } else { 0 })
            == (part_count_of(parts.drop_last(), true) + if parts.last().is_extender { 1int } else { 0 }) * repeat) by (nonlinear_arith);
    }
}

/// An assembly reaches its target: where it is possible and no part has a negative advance,
/// the last part ends at least `target` from the start of the first (the parts follow each
/// other, each overlapping the one before by the overlap, which is never negative).
pub proof fn lemma_assembly_covers(parts: Seq<GlyphPart>, target: int)
    requires
        assembly_possible(parts, target),
        0 <= target,
        forall|i: int| 0 <= i < parts.len() ==> (#[trigger] parts[i]).full_advance >= 0,
    ensures
        ({
            let n = assembly_part_count(parts, target);
            let ex = expanded_parts(parts, assembly_repeat(parts, target));
            let overlap = assembly_overlap(parts, target);
            &&& ex.len() == n
            &&& overlap >= 0
            &&& part_offset(ex, overlap, n - 1) + ex[n - 1].full_advance >= target
        }),
{
    let n = assembly_part_count(parts, target);
    let rep = assembly_repeat(parts, target);
    let ex = expanded_parts(parts, rep);
    let ov = assembly_overlap(parts, target);
    let non = advance_sum(parts, false);
    let ext = advance_sum(parts, true);
    lemma_expanded_len(parts, rep);
    lemma_no_extender_count(parts);
    lemma_sums_nonnegative(parts);
    if part_count_of(parts, true) == 0 {
        lemma_no_extender_sum(parts);
    }
    assert(part_count_of(parts, true) >= 1);
    assert(ext > 0);
    // the extenders are repeated enough to reach the target
    let a = target - non;
    let cd = ceil_div(a, ext);
    assert(cd * ext >= a) by {
        let q = (-a) / ext;
        assert(cd == -q);
        assert(cd * ext >= a) by (nonlinear_arith)
            requires
                ext > 0,
                q == (-a) / ext,
                cd == -q,
        ;
    }
    if cd > u32::MAX {
        assert(part_count_of(parts, true) * rep >= rep) by (nonlinear_arith)
            requires
                part_count_of(parts, true) >= 1,
                rep >= 0,
        ;
        assert(false);
    }
    let c = non + rep * ext;
    assert(c >= target) by {
        if cd < 0 {
            assert(cd * ext < 0) by (nonlinear_arith)
                requires
                    cd < 0,
                    ext > 0,
            ;
        }
    }
    lemma_expanded_sum(parts, rep);
    lemma_offset_linear(ex, ov, n - 1);
    assert(part_offset(ex, 0, n) == part_offset(ex, 0, n - 1) + ex[n - 1].full_advance);
    // the overlap takes away no more than the assembly exceeds the target
    if n >= 2 {
        lemma_connector_limit_at_most(parts, rep, 0, div_trunc(c - target, n - 1));
        let q = div_trunc(c - target, n - 1);
        assert((n - 1) * ov <= c - target) by (nonlinear_arith)
            requires
                n - 1 > 0,
                c - target >= 0,
                0 <= ov <= q,
                q == (c - target) / (n - 1),
        ;
    }
}

/// The sums of the advances are not negative where no advance is.
proof fn lemma_sums_nonnegative(parts: Seq<GlyphPart>)
    requires
        forall|i: int| 0 <= i < parts.len() ==> (#[trigger] parts[i]).full_advance >= 0,
    ensures
        advance_sum(parts, true) >= 0,
        advance_sum(parts, false) >= 0,
    decreases parts.len(),
{
    if parts.len() > 0 {
        let d = parts.drop_last();
        assert forall|i: int| 0 <= i < d.len() implies (#[trigger] d[i]).full_advance >= 0 by {
            assert(d[i] == parts[i]);
        }
        lemma_sums_nonnegative(d);
        assert(parts.last() == parts[parts.len() - 1]);
    }
}

/// Where a part starts is the sum of the advances before it, less one overlap for each.
proof fn lemma_offset_linear(ex: Seq<GlyphPart>, overlap: int, i: int)
    requires
        0 <= i,
    ensures
        part_offset(ex, overlap, i) == part_offset(ex, 0, i) - i * overlap,
    decreases i,
{
    if i > 0 {
        lemma_offset_linear(ex, overlap, i - 1);
        assert((i - 1) * overlap + overlap == i * overlap) by (nonlinear_arith);
        assert(part_offset(ex, overlap, i) == part_offset(ex, overlap, i - 1) + ex[i - 1].full_advance - overlap);
        assert(part_offset(ex, 0, i) == part_offset(ex, 0, i - 1) + ex[i - 1].full_advance - 0);
    } else {
        assert(i * overlap == 0) by (nonlinear_arith)
            requires
                i == 0,
        ;
    }
}

/// The sum of the advances of parts that follow each other.
proof fn lemma_offset_concat(a: Seq<GlyphPart>, b: Seq<GlyphPart>, k: int)
    requires
        0 <= k <= a.len() + b.len(),
    ensures
        part_offset(a + b, 0, k) == if k <= a.len() {
            part_offset(a, 0, k)
        } else {
            part_offset(a, 0, a.len() as int) + part_offset(b, 0, k - a.len())
        },
    decreases k,
{
    if k > 0 {
        lemma_offset_concat(a, b, k - 1);
        assert(part_offset(a + b, 0, k) == part_offset(a + b, 0, k - 1) + (a + b)[k - 1].full_advance - 0);
        if k <= a.len() {
            assert((a + b)[k - 1] == a[k - 1]);
            assert(part_offset(a, 0, k) == part_offset(a, 0, k - 1) + a[k - 1].full_advance - 0);
        } else {
            assert((a + b)[k - 1] == b[k - 1 - a.len()]);
            if k - 1 - a.len() > 0 {
                assert(part_offset(b, 0, k - a.len()) == part_offset(b, 0, k - a.len() - 1) + b[k - a.len() - 1].full_advance - 0);
            } else {
                assert(part_offset(b, 0, 1) == part_offset(b, 0, 0) + b[0].full_advance - 0);
            }
        }
    }
}

/// The sum of the advances of one part repeated.
proof fn lemma_offset_repeat(x: GlyphPart, m: nat, k: int)
    requires
        0 <= k <= m,
    ensures
        part_offset(Seq::new(m, |i: int| x), 0, k) == k * x.full_advance,
    decreases k,
{
    if k > 0 {
        let b = Seq::new(m, |i: int| x);
        lemma_offset_repeat(x, m, k - 1);
        assert((k - 1) * x.full_advance + x.full_advance == k * x.full_advance) by (nonlinear_arith);
        assert(b[k - 1] == x);
        assert(part_offset(b, 0, k) == part_offset(b, 0, k - 1) + b[k - 1].full_advance - 0);
    } else {
        assert(k * x.full_advance == 0) by (nonlinear_arith)
            requires
                k == 0,
        ;
    }
}

/// The advances of the expanded parts add up to those of the other parts and the repeated
/// extenders.
proof fn lemma_expanded_sum(parts: Seq<GlyphPart>, repeat: int)
    requires
        repeat >= 0,
    ensures
        part_offset(expanded_parts(parts, repeat), 0, expanded_parts(parts, repeat).len() as int)
            == advance_sum(parts, false) + repeat * advance_sum(parts, true),
    decreases parts.len(),
{
    if parts.len() > 0 {
        let d = parts.drop_last();
        let x = parts.last();
        let m: nat = if x.is_extender { repeat as nat } else { 1nat };
        let a = expanded_parts(d, repeat);
        let b = Seq::new(m, |i: int| x);
        lemma_expanded_sum(d, repeat);
        assert(expanded_parts(parts, repeat) == a + b);
        lemma_offset_concat(a, b, (a.len() + b.len()) as int);
        lemma_offset_repeat(x, m, m as int);
        let e = advance_sum(d, true);
        let v = x.full_advance as int;
        if x.is_extender {
            assert(repeat * e + repeat * v == repeat * (e + v)) by (nonlinear_arith);
        }
    }
}

/// The connectors only lower the overlap.
proof fn lemma_connector_limit_at_most(parts: Seq<GlyphPart>, repeat: int, k: int, acc: int)
    ensures
        connector_limit(parts, repeat, k, acc) <= acc,
    decreases parts.len() - k,
{
    if 0 <= k < parts.len() {
        let p = parts[k];
        let repeated = repeat >= 2 && p.is_extender;
        let a1 = if k < parts.len() - 1 || repeated {
            if p.end_connector_length < acc { p.end_connector_length as int } else { acc }
        } else {
            acc
        };
        let a2 = if k > 0 || repeated {
            if p.start_connector_length < a1 { p.start_connector_length as int } else { a1 }
        } else {
            a1
        };
        lemma_connector_limit_at_most(parts, repeat, k + 1, a2);
    }
}

/// The offset of a part, limited to the range of `i32` in the direction of growth.
fn clamp_offset(off: i128, horizontal: bool) -> (r: i32)
    requires
        -0x1_0000_0000_0000_0000_0000 <= off <= 0x1_0000_0000_0000_0000_0000,
    ensures
        r == (if horizontal { clamp_i32(off as int) } else { clamp_i32(-off) }),
{
    let v: i128 = if horizontal { off } else { -off };
    if v > i32::MAX as i128 {
        i32::MAX
    } else if v < i32::MIN as i128 {
        i32::MIN
    } else {
        v as i32
    }
}

/// Assembles a glyph of at least `target_size` from its parts, as the OpenType MATH table
/// describes: extenders are repeated as often as needed (see `assembly_repeat`), neighbouring
/// parts overlap by the same amount (see `assembly_overlap`), and the parts follow each other
/// left to right, or bottom to top. `None` when no assembly is possible (see
/// `assembly_possible`).
pub fn try_assembly(parts: &[GlyphPart], horizontal: bool, target_size: u32) -> (r: Option<Vec<PartPlacement>>)
    ensures
        match r {
            Some(v) => {
                &&& assembly_possible(parts@, target_size as int)
                &&& v@.len() == assembly_part_count(parts@, target_size as int)
                &&& forall|i: int|
                    0 <= i < v@.len() ==> #[trigger] v@[i] == placement_of(parts@, target_size as int, horizontal, i)
            },
            None => !assembly_possible(parts@, target_size as int),
        },
{
    let ghost target = target_size as int;
    let (sum_ext, sum_non, n_ext, n_non) = part_totals(parts);
    if sum_ext == 0 {
        return None;
    }
    let ceil = ceil_div_i128(target_size as i128 - sum_non, sum_ext);
    let repeat: u64 = if ceil < 0 {
        0
    } else if ceil > u32::MAX as i128 {
        u32::MAX as u64
    } else {
        ceil as u64
    };
    assert(repeat == assembly_repeat(parts@, target));
    assert(repeat <= u32::MAX);
    assert((n_ext as u128) * (repeat as u128) <= 0xffff_ffff_ffff_ffffu128 * 0xffff_ffffu128) by (nonlinear_arith)
        requires
            n_ext <= u64::MAX,
            repeat <= u32::MAX,
    ;
    let part_count: u128 = n_non as u128 + n_ext as u128 * repeat as u128;
    assert(part_count == assembly_part_count(parts@, target)) by (nonlinear_arith)
        requires
            part_count == n_non as u128 + n_ext as u128 * repeat as u128,
            n_non == part_count_of(parts@, false),
            n_ext == part_count_of(parts@, true),
            repeat == assembly_repeat(parts@, target),
    ;
    if part_count == 0 || part_count > 2000 {
        return None;
    }
    // now everything is small
    assert(n_ext >= 1) by {
        if n_ext == 0 {
            lemma_no_extender_sum(parts@);
        }
    }
    assert(repeat <= 2000 && n_non <= 2000) by (nonlinear_arith)
        requires
            part_count == n_non as u128 + n_ext as u128 * repeat as u128,
            part_count <= 2000,
            n_ext >= 1,
    ;
    assert(-2000 * 0x8000_0000 <= repeat as int * sum_ext <= 2000 * 0x8000_0000) by (nonlinear_arith)
        requires
            -(n_ext as int) * 0x8000_0000 <= sum_ext <= n_ext as int * 0x8000_0000,
            n_ext as int * repeat as int <= 2000,
            repeat >= 0,
    ;
    let overlap: i128 = if part_count >= 2 {
        let c: i128 = sum_non + repeat as i128 * sum_ext;
        let d: i64 = div_trunc_i64((c - target_size as i128) as i64, (part_count - 1) as i64);
        limit_by_connectors(parts, repeat, d as i128)
    } else {
        0
    };
    assert(overlap == assembly_overlap(parts@, target));
    if overlap < 0 {
        return None;
    }
    assert(assembly_possible(parts@, target));
    // place the parts
    let ghost ex = expanded_parts(parts@, repeat as int);
    proof {
        lemma_expanded_len(parts@, repeat as int);
    }
    let n = parts.len();
    let mut result: Vec<PartPlacement> = Vec::new();
    let mut off: i128 = 0;
    let mut k: usize = 0;
    assert(parts@.take(0) =~= Seq::<GlyphPart>::empty());
    while k < n
        invariant
            n == parts@.len(),
            k <= n,
            ex == expanded_parts(parts@, repeat as int),
            ex.len() == part_count,
            part_count <= 2000,
            repeat <= 2000,
            0 <= overlap <= 0x1_0000_0000_0000_0000,
            overlap == assembly_overlap(parts@, target_size as int),
            repeat == assembly_repeat(parts@, target_size as int),
            result@.len() == expanded_parts(parts@.take(k as int), repeat as int).len(),
            off == part_offset(ex, overlap as int, result@.len() as int),
            -(result@.len() as int) * 0x2_0000_0000_0000_0000 <= off <= result@.len() as int * 0x2_0000_0000_0000_0000,
            forall|i: int| 0 <= i < result@.len() ==> #[trigger] result@[i] == placement_of(parts@, target_size as int, horizontal, i),
        decreases n - k,
    {
        let p = parts[k];
        let times: u64 = if p.is_extender { repeat } else { 1 };
        proof {
            lemma_expanded_prefix(parts@, repeat as int, k + 1);
            assert(parts@.take(k + 1).drop_last() =~= parts@.take(k as int));
            assert(parts@.take(k + 1).last() == p);
        }
        let ghost base = result@.len();
        let mut j: u64 = 0;
        while j < times
            invariant
                n == parts@.len(),
                k < n,
                p == parts@[k as int],
                ex == expanded_parts(parts@, repeat as int),
                ex.len() == part_count,
                part_count <= 2000,
                0 <= overlap <= 0x1_0000_0000_0000_0000,
                overlap == assembly_overlap(parts@, target_size as int),
                repeat == assembly_repeat(parts@, target_size as int),
                times == (if p.is_extender { repeat } else { 1 }),
                j <= times,
                base == expanded_parts(parts@.take(k as int), repeat as int).len(),
                base + times == expanded_parts(parts@.take(k + 1), repeat as int).len(),
                base + times <= ex.len(),
                forall|i: int| base <= i < base + times ==> #[trigger] ex[i] == p,
                result@.len() == base + j,
                off == part_offset(ex, overlap as int, result@.len() as int),
                -(result@.len() as int) * 0x2_0000_0000_0000_0000 <= off <= result@.len() as int * 0x2_0000_0000_0000_0000,
                forall|i: int| 0 <= i < result@.len() ==> #[trigger] result@[i] == placement_of(parts@, target_size as int, horizontal, i),
            decreases times - j,
        {
            let offset = point_with_offset(clamp_offset(off, horizontal), horizontal);
            result.push(PartPlacement { glyph: p.glyph, offset });
            off = off + p.full_advance as i128 - overlap;
            j = j + 1;
        }
        k = k + 1;
    }
    assert(parts@.take(n as int) =~= parts@);
    Some(result)
}

/// Without extenders the extenders' advances sum to zero.
proof fn lemma_no_extender_sum(parts: Seq<GlyphPart>)
    requires
        part_count_of(parts, true) == 0,
    ensures
        advance_sum(parts, true) == 0,
    decreases parts.len(),
{
    if parts.len() > 0 {
        lemma_no_extender_count(parts.drop_last());
        lemma_no_extender_sum(parts.drop_last());
    }
}

/// Counts are not negative.
proof fn lemma_no_extender_count(parts: Seq<GlyphPart>)
    ensures
        part_count_of(parts, true) >= 0,
        part_count_of(parts, false) >= 0,
    decreases parts.len(),
{
    if parts.len() > 0 {
        lemma_no_extender_count(parts.drop_last());
    }
}


/// The scale of glyphs at the script level of `style`: the font's script or script-script
/// percentage (read as a byte, at most 100) below the base level, full size at it.
pub open spec fn scale_factor_spec<S: MathShaper>(shaper: &S, style: LayoutStyle) -> int {
    if style.script_level >= 2 {
        byte_percent(shaper.constant_spec(MathConstant::ScriptScriptPercentScaleDown))
    } else if style.script_level >= 1 {
        byte_percent(shaper.constant_spec(MathConstant::ScriptPercentScaleDown))
    } else {
        100
    }
}

/// A percentage constant read as a byte, at most 100.
pub open spec fn byte_percent(c: i32) -> int {
    let b = (c as u8) as int;
    if b > 100 {
        100
    } else {
        b
    }
}

/// The scale of glyphs at the script level of `style` (see `scale_factor_spec`).
pub fn scale_factor<S: MathShaper>(shaper: &S, style: LayoutStyle) -> (r: PercentValue)
    ensures
        r@ == scale_factor_spec(shaper, style),
{
    let percent: i32 = if style.script_level >= 1 {
        if style.script_level >= 2 {
            shaper.math_constant(MathConstant::ScriptScriptPercentScaleDown)
        } else {
            shaper.math_constant(MathConstant::ScriptPercentScaleDown)
        }
    } else {
        100
    };
    let byte: u8 = percent as u8;
    PercentValue::new_clamped(byte as i32)
}

/// The size a stretch target has before scaling by `percent`: `target * 100 / percent`,
/// limited to the range of `u32`; the target itself at a percentage of 0.
pub open spec fn unscaled_target(target: int, percent: int) -> int {
    if percent == 0 {
        target
    } else {
        let v = target * 100 / percent;
        if v > u32::MAX {
            u32::MAX as int
        } else {
            v
        }
    }
}

/// The size a stretch target has before scaling (see `unscaled_target`).
fn unscale_target(target: u32, percent: PercentValue) -> (r: u32)
    ensures
        r == unscaled_target(target as int, percent@),
{
    let p = percent.as_percentage() as u64;
    if p == 0 {
        return target;
    }
    let v: u64 = target as u64 * 100 / p;
    if v > u32::MAX as u64 {
        u32::MAX
    } else {
        v as u32
    }
}

/// The size of a glyph in the direction of growth: its width, or the negated height
/// (ascent plus descent) vertically.
pub open spec fn base_advance(g: MathGlyph, horizontal: bool) -> int {
    if horizontal {
        g.extents.width as int
    } else {
        -g.extents.height_spec()
    }
}

/// Whether a box holds exactly the glyphs `glyphs` at `scale`.
pub open spec fn holds_glyphs(b: MathBox, glyphs: Seq<MathGlyph>, scale: int, user_data: u64) -> bool {
    &&& b.content matches MathBoxContent::Drawable(Drawable::Glyphs { glyphs: g, scale: s }) && g@
        == glyphs && s@ == scale
    &&& b.user_data == user_data
}

/// The boxes a box holds (none unless it holds boxes).
pub open spec fn content_boxes(b: MathBox) -> Seq<MathBox> {
    match b.content {
        MathBoxContent::Boxes(v) => v@,
        _ => Seq::empty(),
    }
}

/// A box of boxes placed and filled as the placements say is their assembly.
proof fn lemma_assembly_box<S: MathShaper>(
    r: MathBox,
    shaper: &S,
    bs: Seq<MathBox>,
    pl: Seq<PartPlacement>,
    style: LayoutStyle,
    scale: int,
    user_data: u64,
)
    requires
        r.content matches MathBoxContent::Boxes(v) && v@ == bs,
        r.user_data == user_data,
        bs.len() == pl.len(),
        forall|i: int|
            0 <= i < bs.len() ==> #[trigger] bs[i].origin == pl[i].offset && holds_glyphs(
                bs[i],
                shaper.glyph_spec(pl[i].glyph, style),
                scale,
                user_data,
            ),
    ensures
        holds_assembly(r, shaper, pl, style, scale, user_data),
{
    assert(content_boxes(r) == bs);
}

/// Whether a box is the assembly of the placements: one box of the glyphs of each part at
/// its offset.
pub open spec fn holds_assembly<S: MathShaper>(
    b: MathBox,
    shaper: &S,
    placements: Seq<PartPlacement>,
    style: LayoutStyle,
    scale: int,
    user_data: u64,
) -> bool {
    &&& b.content is Boxes
    &&& content_boxes(b).len() == placements.len()
    &&& forall|i: int|
        0 <= i < placements.len() ==> #[trigger] content_boxes(b)[i].origin == placements[i].offset
            && holds_glyphs(content_boxes(b)[i], shaper.glyph_spec(placements[i].glyph, style), scale, user_data)
    &&& b.user_data == user_data
}

/// The target of a stretch in the font's unscaled units.
pub open spec fn stretch_target<S: MathShaper>(shaper: &S, target_size: u32, style: LayoutStyle) -> int {
    unscaled_target(target_size as int, scale_factor_spec(shaper, style))
}

/// Whether the glyph itself is large enough.
pub open spec fn base_fits<S: MathShaper>(shaper: &S, glyph: u32, horizontal: bool, target_size: u32, style: LayoutStyle) -> bool {
    let base = shaper.glyph_spec(glyph, style);
    base.len() > 0 && base_advance(base[0], horizontal) >= stretch_target(shaper, target_size, style)
}

/// Whether a variant of the glyph qualifies (see `qualifies`).
pub open spec fn has_variant<S: MathShaper>(shaper: &S, glyph: u32, horizontal: bool, target_size: u32, style: LayoutStyle) -> bool {
    let variants = shaper.variants_spec(glyph, horizontal);
    exists|j: int|
        0 <= j < variants.len() && qualifies(
            #[trigger] variants[j],
            stretch_target(shaper, target_size, style),
            style.as_accent,
        )
}

/// The placements of an assembly of the glyph (see `placement_of`).
pub open spec fn assembly_placements<S: MathShaper>(shaper: &S, glyph: u32, horizontal: bool, target_size: u32, style: LayoutStyle) -> Seq<PartPlacement> {
    let parts = shaper.assembly_spec(glyph, horizontal);
    let target = stretch_target(shaper, target_size, style);
    Seq::new(assembly_part_count(parts, target) as nat, |i: int| placement_of(parts, target, horizontal, i))
}

/// A glyph stretched to `target_size` (after undoing the scale of the script level): the
/// glyph itself when it is large enough, else the variant the font offers (see
/// `is_best_variant`), else an assembly of its parts (see `try_assembly`), else the glyph
/// as it is.
pub fn stretch_glyph_box<S: MathShaper>(
    shaper: &S,
    glyph: u32,
    horizontal: bool,
    target_size: u32,
    style: LayoutStyle,
    user_data: u64,
) -> (r: MathBox)
    ensures
        base_fits(shaper, glyph, horizontal, target_size, style) ==> holds_glyphs(
            r,
            seq![shaper.glyph_spec(glyph, style)[0]],
            scale_factor_spec(shaper, style),
            user_data,
        ),
        !base_fits(shaper, glyph, horizontal, target_size, style) && has_variant(shaper, glyph, horizontal, target_size, style) ==> exists|i: int|
            is_best_variant(
                shaper.variants_spec(glyph, horizontal),
                stretch_target(shaper, target_size, style),
                style.as_accent,
                i,
            ) && holds_glyphs(
                r,
                #[trigger] shaper.glyph_spec(shaper.variants_spec(glyph, horizontal)[i].glyph, style),
                scale_factor_spec(shaper, style),
                user_data,
            ),
        !base_fits(shaper, glyph, horizontal, target_size, style) && !has_variant(shaper, glyph, horizontal, target_size, style)
            && assembly_possible(shaper.assembly_spec(glyph, horizontal), stretch_target(shaper, target_size, style))
            ==> holds_assembly(
            r,
            shaper,
            assembly_placements(shaper, glyph, horizontal, target_size, style),
            style,
            scale_factor_spec(shaper, style),
            user_data,
        ),
        !base_fits(shaper, glyph, horizontal, target_size, style) && !has_variant(shaper, glyph, horizontal, target_size, style)
            && !assembly_possible(shaper.assembly_spec(glyph, horizontal), stretch_target(shaper, target_size, style))
            ==> holds_glyphs(r, shaper.glyph_spec(glyph, style), scale_factor_spec(shaper, style), user_data),
{
    let scale = scale_factor(shaper, style);
    let target = unscale_target(target_size, scale);
    let base = shaper.glyph_from_index(glyph, style, user_data);
    if base.len() > 0 {
        let g = base[0];
        let advance: i64 = if horizontal {
            g.extents.width as i64
        } else {
            -(g.extents.height() as i64)
        };
        if advance >= target as i64 {
            let mut v: Vec<MathGlyph> = Vec::new();
            v.push(g);
            assert(v@ =~= seq![g]);
            return MathBox::with_glyphs(v, scale, user_data);
        }
    }
    let variants = shaper.glyph_variants(glyph, horizontal);
    match select_variant(&variants, target as i64, style.as_accent) {
        Some(i) => {
            let glyphs = shaper.glyph_from_index(variants[i].glyph, style, user_data);
            return MathBox::with_glyphs(glyphs, scale, user_data);
        },
        None => {},
    }
    let parts = shaper.glyph_assembly(glyph, horizontal);
    match try_assembly(&parts, horizontal, target) {
        Some(placements) => {
            let ghost pl = assembly_placements(shaper, glyph, horizontal, target_size, style);
            assert(placements@ =~= pl);
            let mut boxes: Vec<MathBox> = Vec::new();
            let mut k: usize = 0;
            while k < placements.len()
                invariant
                    placements@ == pl,
                    k <= pl.len(),
                    boxes@.len() == k,
                    forall|i: int|
                        0 <= i < k ==> #[trigger] boxes@[i].origin == pl[i].offset && holds_glyphs(
                            boxes@[i],
                            shaper.glyph_spec(pl[i].glyph, style),
                            scale@,
                            user_data,
                        ),
                decreases pl.len() - k,
            {
                let p = placements[k];
                let glyphs = shaper.glyph_from_index(p.glyph, style, user_data);
                let mut b = MathBox::with_glyphs(glyphs, scale, user_data);
                b.origin = p.offset;
                boxes.push(b);
                k = k + 1;
            }
            let ghost bs = boxes@;
            let r = MathBox::with_vec(boxes, user_data);
            proof {
                lemma_assembly_box(r, shaper, bs, pl, style, scale@, user_data);
            }
            r
        },
        None => MathBox::with_glyphs(base, scale, user_data),
    }
}

/// Whether the font offers variants or an assembly of `glyph` in the given direction.
pub fn has_stretch_forms<S: MathShaper>(shaper: &S, glyph: u32, horizontal: bool) -> (r: bool)
    ensures
        r == (shaper.variants_spec(glyph, horizontal).len() > 0 || shaper.assembly_spec(glyph, horizontal).len() > 0),
{
    let variants = shaper.glyph_variants(glyph, horizontal);
    if variants.len() > 0 {
        return true;
    }
    let parts = shaper.glyph_assembly(glyph, horizontal);
    parts.len() > 0
}

} // verus!
