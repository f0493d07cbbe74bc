//! Operators: their attributes, and the defaults they take from their place in a row and from
//! the operator dictionary.
use vstd::prelude::*;

use super::operator_dict::{default_entry, entry_spec, find_entry, Entry};
use super::{info_at, is_space_at, operator_attrs_at, FromXmlAttribute, MathmlInfo, ParseContext};
use crate::text::{chars_eq, str_to_chars};
use crate::types::{
    Atom, GeneralizedFraction, Length, LengthUnit, MathExpression, MathItem, Operator,
    OverUnder, StretchConstraints, Field,
};

verus! {

/// One property of an operator.
#[derive(Debug, Copy, Clone, PartialEq, Eq, Structural)]
pub enum Flag {
    Symmetric,
    Fence,
    Stretchy,
    Separator,
    Accent,
    LargeOp,
    MovableLimits,
}

/// The properties of an operator.
#[derive(Debug, Copy, Clone, PartialEq, Eq, Structural)]
pub struct Flags {
    pub symmetric: bool,
    pub fence: bool,
    pub stretchy: bool,
    pub separator: bool,
    pub accent: bool,
    pub largeop: bool,
    pub movable_limits: bool,
}

impl Flags {
    /// No property.
    pub open spec fn empty_spec() -> Flags {
        Flags {
            symmetric: false,
            fence: false,
            stretchy: false,
            separator: false,
            accent: false,
            largeop: false,
            movable_limits: false,
        }
    }

    /// No property.
    pub fn empty() -> (r: Flags)
        ensures
            r == Self::empty_spec(),
    {
        Flags {
            symmetric: false,
            fence: false,
            stretchy: false,
            separator: false,
            accent: false,
            largeop: false,
            movable_limits: false,
        }
    }

    /// Whether `flag` is set.
    pub open spec fn has(self, flag: Flag) -> bool {
        match flag {
            Flag::Symmetric => self.symmetric,
            Flag::Fence => self.fence,
            Flag::Stretchy => self.stretchy,
            Flag::Separator => self.separator,
            Flag::Accent => self.accent,
            Flag::LargeOp => self.largeop,
            Flag::MovableLimits => self.movable_limits,
        }
    }

    /// Whether `flag` is set.
    pub fn contains(self, flag: Flag) -> (r: bool)
        ensures
            r == self.has(flag),
    {
        match flag {
            Flag::Symmetric => self.symmetric,
            Flag::Fence => self.fence,
            Flag::Stretchy => self.stretchy,
            Flag::Separator => self.separator,
            Flag::Accent => self.accent,
            Flag::LargeOp => self.largeop,
            Flag::MovableLimits => self.movable_limits,
        }
    }

    /// The flags with `flag` set to `value`.
    pub open spec fn with_spec(self, flag: Flag, value: bool) -> Flags {
        match flag {
            Flag::Symmetric => Flags { symmetric: value, ..self },
            Flag::Fence => Flags { fence: value, ..self },
            Flag::Stretchy => Flags { stretchy: value, ..self },
            Flag::Separator => Flags { separator: value, ..self },
            Flag::Accent => Flags { accent: value, ..self },
            Flag::LargeOp => Flags { largeop: value, ..self },
            Flag::MovableLimits => Flags { movable_limits: value, ..self },
        }
    }

    /// Sets `flag` to `value`.
    pub fn set(&mut self, flag: Flag, value: bool)
        ensures
            *final(self) == old(self).with_spec(flag, value),
    {
        match flag {
            Flag::Symmetric => self.symmetric = value,
            Flag::Fence => self.fence = value,
            Flag::Stretchy => self.stretchy = value,
            Flag::Separator => self.separator = value,
            Flag::Accent => self.accent = value,
            Flag::LargeOp => self.largeop = value,
            Flag::MovableLimits => self.movable_limits = value,
        }
    }

    /// Sets `flag`.
    pub fn insert(&mut self, flag: Flag)
        ensures
            *final(self) == old(self).with_spec(flag, true),
    {
        self.set(flag, true)
    }

    /// Clears `flag`.
    pub fn remove(&mut self, flag: Flag)
        ensures
            *final(self) == old(self).with_spec(flag, false),
    {
        self.set(flag, false)
    }

    /// Each property from `flags` where `overrides` has it, from `defaults` elsewhere.
    pub open spec fn merge_spec(overrides: Flags, flags: Flags, defaults: Flags) -> Flags {
        Flags {
            symmetric: if overrides.symmetric { flags.symmetric } else { defaults.symmetric },
            fence: if overrides.fence { flags.fence } else { defaults.fence },
            stretchy: if overrides.stretchy { flags.stretchy } else { defaults.stretchy },
            separator: if overrides.separator { flags.separator } else { defaults.separator },
            accent: if overrides.accent { flags.accent } else { defaults.accent },
            largeop: if overrides.largeop { flags.largeop } else { defaults.largeop },
            movable_limits: if overrides.movable_limits {
                flags.movable_limits
            } else {
                defaults.movable_limits
            },
        }
    }

    /// Each property from `flags` where `overrides` has it, from `defaults` elsewhere.
    pub fn merge(overrides: Flags, flags: Flags, defaults: Flags) -> (r: Flags)
        ensures
            r == Self::merge_spec(overrides, flags, defaults),
    {
        Flags {
            symmetric: if overrides.symmetric { flags.symmetric } else { defaults.symmetric },
            fence: if overrides.fence { flags.fence } else { defaults.fence },
            stretchy: if overrides.stretchy { flags.stretchy } else { defaults.stretchy },
            separator: if overrides.separator { flags.separator } else { defaults.separator },
            accent: if overrides.accent { flags.accent } else { defaults.accent },
            largeop: if overrides.largeop { flags.largeop } else { defaults.largeop },
            movable_limits: if overrides.movable_limits {
                flags.movable_limits
            } else {
                defaults.movable_limits
            },
        }
    }
}

impl Default for Flags {
    fn default() -> (r: Flags)
        ensures
            r == Flags::empty_spec(),
    {
        Flags::empty()
    }
}

/// A `form` attribute that is none of `prefix`, `infix`, `postfix`.
pub struct FormParsingError {
    pub unknown_str: String,
}

/// The position of an operator relative to its operands.
#[derive(PartialEq, Eq, Copy, Clone, Debug, Ord, PartialOrd, Structural)]
pub enum Form {
    Prefix,
    Infix,
    Postfix,
}

impl Default for Form {
    fn default() -> (r: Form)
        ensures
            r == Form::Infix,
    {
        Form::Infix
    }
}

/// The form named by an attribute value.
pub open spec fn form_of(s: Seq<char>) -> Option<Form> {
    if s == seq!['p', 'r', 'e', 'f', 'i', 'x'] {
        Some(Form::Prefix)
    } else if s == seq!['i', 'n', 'f', 'i', 'x'] {
        Some(Form::Infix)
    } else if s == seq!['p', 'o', 's', 't', 'f', 'i', 'x'] {
        Some(Form::Postfix)
    } else {
        None
    }
}

impl FromXmlAttribute for Form {
    type Err = FormParsingError;

    fn from_xml_attr(s: &str) -> (r: Result<Form, FormParsingError>)
        ensures
            match r {
                Ok(f) => form_of(s@) == Some(f),
                Err(e) => form_of(s@) is None && e.unknown_str@ == s@,
            },
    {
        let chars = str_to_chars(s);
        let prefix: [char; 6] = ['p', 'r', 'e', 'f', 'i', 'x'];
        let infix: [char; 5] = ['i', 'n', 'f', 'i', 'x'];
        let postfix: [char; 7] = ['p', 'o', 's', 't', 'f', 'i', 'x'];
        assert(prefix@ == seq!['p', 'r', 'e', 'f', 'i', 'x']);
        assert(infix@ == seq!['i', 'n', 'f', 'i', 'x']);
        assert(postfix@ == seq!['p', 'o', 's', 't', 'f', 'i', 'x']);
        if chars_eq(&chars, &prefix) {
            Ok(Form::Prefix)
        } else if chars_eq(&chars, &infix) {
            Ok(Form::Infix)
        } else if chars_eq(&chars, &postfix) {
            Ok(Form::Postfix)
        } else {
            Err(FormParsingError { unknown_str: s.to_owned() })
        }
    }
}

/// The attributes of an operator, as given by the user and as completed from the surroundings.
#[derive(Debug, Copy, Clone)]
pub struct Attributes {
    /// The operator's character, when its text is one character.
    pub character: Option<char>,
    pub form: Option<Form>,
    pub lspace: Option<Length>,
    pub rspace: Option<Length>,
    pub flags: Flags,
    /// The properties the user has set explicitly; `flags` holds their values.
    pub user_overrides: Flags,
}

impl Attributes {
    /// No attribute given.
    pub open spec fn default_spec() -> Attributes {
        Attributes {
            character: None,
            form: None,
            lspace: None,
            rspace: None,
            flags: Flags::empty_spec(),
            user_overrides: Flags::empty_spec(),
        }
    }

    /// Records that the user set `flag` to `is_true`.
    pub fn set_user_override(&mut self, flag: Flag, is_true: bool)
        ensures
            final(self).user_overrides == old(self).user_overrides.with_spec(flag, true),
            final(self).flags == old(self).flags.with_spec(flag, is_true),
            final(self).character == old(self).character,
            final(self).form == old(self).form,
            final(self).lspace == old(self).lspace,
            final(self).rspace == old(self).rspace,
    {
        self.user_overrides.insert(flag);
        if is_true {
            self.flags.insert(flag);
        } else {
            self.flags.remove(flag);
        }
    }
}

impl Default for Attributes {
    fn default() -> (r: Attributes)
        ensures
            r == Attributes::default_spec(),
    {
        Attributes {
            character: None,
            form: None,
            lspace: None,
            rspace: None,
            flags: Flags::empty(),
            user_overrides: Flags::empty(),
        }
    }
}

/// The attributes with `form` as the form when none is set.
pub open spec fn with_default_form(attrs: Attributes, form: Form) -> Attributes {
    Attributes {
        form: Some(
            match attrs.form {
                Some(f) => f,
                None => form,
            },
        ),
        ..attrs
    }
}

/// The dictionary entry that applies to an operator with these attributes in `form`: the
/// entry of its character, or the default one.
pub open spec fn applicable_entry(attrs: Attributes, form: Form) -> Entry {
    match attrs.character {
        Some(c) => match entry_spec(c, form) {
            Some(e) => e,
            None => default_entry(),
        },
        None => default_entry(),
    }
}

/// `after` is `before` completed from the dictionary: spacing the user did not give comes from
/// the entry (in 18ths of an em), and each property the user did not set comes from the
/// entry.
pub open spec fn completed(before: Attributes, after: Attributes) -> bool {
    &&& before.form is Some
    &&& after.character == before.character
    &&& after.form == before.form
    &&& after.user_overrides == before.user_overrides
    &&& after.flags == Flags::merge_spec(
        before.user_overrides,
        before.flags,
        applicable_entry(before, before.form->0).flags,
    )
    &&& match before.lspace {
        Some(l) => after.lspace == Some(l),
        None => after.lspace matches Some(l) && l@ == (
            applicable_entry(before, before.form->0).lspace as int,
            18int,
            LengthUnit::Em,
        ),
    }
    &&& match before.rspace {
        Some(l) => after.rspace == Some(l),
        None => after.rspace matches Some(l) && l@ == (
            applicable_entry(before, before.form->0).rspace as int,
            18int,
            LengthUnit::Em,
        ),
    }
}

/// The attributes completed from the dictionary (see `completed`, which determines them).
pub open spec fn completion(attrs: Attributes) -> Attributes {
    choose|r: Attributes| completed(attrs, r)
}

/// At most one completion exists.
proof fn lemma_completed_unique(attrs: Attributes, a: Attributes, b: Attributes)
    requires
        completed(attrs, a),
        completed(attrs, b),
    ensures
        a == b,
{
    Length::lemma_view_injective(a.lspace->0, b.lspace->0);
    Length::lemma_view_injective(a.rspace->0, b.rspace->0);
}

/// The attributes completed from the dictionary (see `completed`).
pub fn complete_attributes(attrs: Attributes) -> (r: Attributes)
    requires
        attrs.form is Some,
    ensures
        completed(attrs, r),
        r == completion(attrs),
{
    let form = match attrs.form {
        Some(f) => f,
        None => Form::Infix,
    };
    let entry = match attrs.character {
        Some(c) => match find_entry(c, form) {
            Some(e) => e,
            None => Entry::default(),
        },
        None => Entry::default(),
    };
    let lspace = match attrs.lspace {
        Some(l) => l,
        None => Length::em(entry.lspace as i32, 18),
    };
    let rspace = match attrs.rspace {
        Some(l) => l,
        None => Length::em(entry.rspace as i32, 18),
    };
    let r = Attributes {
        lspace: Some(lspace),
        rspace: Some(rspace),
        flags: Flags::merge(attrs.user_overrides, attrs.flags, entry.flags),
        ..attrs
    };
    proof {
        assert(completed(attrs, r));
        lemma_completed_unique(attrs, r, completion(attrs));
    }
    r
}

/// The operator that the core of an embellished operator with these attributes becomes.
pub open spec fn operator_of(attrs: Attributes, field: Field) -> Operator {
    Operator {
        stretch_constraints: if attrs.flags.stretchy {
            Some(StretchConstraints { min_size: None, max_size: None, symmetric: attrs.flags.symmetric })
        } else {
            None
        },
        is_large_op: attrs.flags.largeop,
        leading_space: attrs.lspace->0,
        trailing_space: attrs.rspace->0,
        field,
    }
}

/// The expression with the same item and user data.
pub open spec fn rebuilt(item: MathItem, user_data: u64) -> MathExpression {
    MathExpression { item: Box::new(item), user_data }
}

/// The expression with its core operator (the field reached through nuclei and numerators)
/// replaced by the operator for `attrs`; unchanged when that path ends in something else.
pub open spec fn with_core_operator(e: MathExpression, attrs: Attributes) -> MathExpression
    decreases e,
{
    match *e.item {
        MathItem::Field(f) => rebuilt(MathItem::Operator(operator_of(attrs, f)), e.user_data),
        MathItem::Atom(a) => match a.nucleus {
            Some(n) => rebuilt(
                MathItem::Atom(Atom { nucleus: Some(with_core_operator(n, attrs)), ..a }),
                e.user_data,
            ),
            None => e,
        },
        MathItem::OverUnder(ou) => match ou.nucleus {
            Some(n) => rebuilt(
                MathItem::OverUnder(OverUnder { nucleus: Some(with_core_operator(n, attrs)), ..ou }),
                e.user_data,
            ),
            None => e,
        },
        MathItem::GeneralizedFraction(fr) => match fr.numerator {
            Some(n) => rebuilt(
                MathItem::GeneralizedFraction(
                    GeneralizedFraction { numerator: Some(with_core_operator(n, attrs)), ..fr },
                ),
                e.user_data,
            ),
            None => e,
        },
        _ => e,
    }
}

/// The expression with every under/over on the path of nuclei and numerators marked as
/// limits.
pub open spec fn with_movable_limits(e: MathExpression) -> MathExpression
    decreases e,
{
    match *e.item {
        MathItem::Atom(a) => match a.nucleus {
            Some(n) => rebuilt(
                MathItem::Atom(Atom { nucleus: Some(with_movable_limits(n)), ..a }),
                e.user_data,
            ),
            None => e,
        },
        MathItem::OverUnder(ou) => match ou.nucleus {
            Some(n) => rebuilt(
                MathItem::OverUnder(
                    OverUnder { nucleus: Some(with_movable_limits(n)), is_limits: true, ..ou },
                ),
                e.user_data,
            ),
            None => rebuilt(MathItem::OverUnder(OverUnder { is_limits: true, ..ou }), e.user_data),
        },
        MathItem::GeneralizedFraction(fr) => match fr.numerator {
            Some(n) => rebuilt(
                MathItem::GeneralizedFraction(
                    GeneralizedFraction { numerator: Some(with_movable_limits(n)), ..fr },
                ),
                e.user_data,
            ),
            None => e,
        },
        _ => e,
    }
}

/// An embellished operator with (completed) attributes `attrs`, turned into an operator.
pub open spec fn made_operator(e: MathExpression, attrs: Attributes) -> MathExpression {
    let e1 = if attrs.flags.movable_limits {
        with_movable_limits(e)
    } else {
        e
    };
    with_core_operator(e1, attrs)
}

/// The operator for `attrs` with the given field.
fn operator_for(attrs: &Attributes, field: Field) -> (r: Operator)
    requires
        attrs.lspace is Some,
        attrs.rspace is Some,
    ensures
        r == operator_of(*attrs, field),
{
    let stretch_constraints = if attrs.flags.stretchy {
        Some(StretchConstraints::unbounded(attrs.flags.symmetric))
    } else {
        None
    };
    let leading_space = match attrs.lspace {
        Some(l) => l,
        None => Length::zero(),
    };
    let trailing_space = match attrs.rspace {
        Some(l) => l,
        None => Length::zero(),
    };
    Operator {
        stretch_constraints,
        is_large_op: attrs.flags.largeop,
        leading_space,
        trailing_space,
        field,
    }
}

/// Replaces the core operator of `e` (see `with_core_operator`).
fn replace_core_operator(e: MathExpression, attrs: &Attributes) -> (r: MathExpression)
    requires
        attrs.lspace is Some,
        attrs.rspace is Some,
    ensures
        r == with_core_operator(e, *attrs),
    decreases e,
{
    let MathExpression { item, user_data } = e;
    match *item {
        MathItem::Field(f) => MathExpression::new(MathItem::Operator(operator_for(attrs, f)), user_data),
        MathItem::Atom(a) => {
            let Atom { nucleus, top_left, top_right, bottom_left, bottom_right } = a;
            let nucleus = match nucleus {
                Some(n) => Some(replace_core_operator(n, attrs)),
                None => None,
            };
            MathExpression::new(
                MathItem::Atom(Atom { nucleus, top_left, top_right, bottom_left, bottom_right }),
                user_data,
            )
        },
        MathItem::OverUnder(ou) => {
            let OverUnder { nucleus, over, under, over_is_accent, under_is_accent, is_limits } = ou;
            let nucleus = match nucleus {
                Some(n) => Some(replace_core_operator(n, attrs)),
                None => None,
            };
            MathExpression::new(
                MathItem::OverUnder(
                    OverUnder { nucleus, over, under, over_is_accent, under_is_accent, is_limits },
                ),
                user_data,
            )
        },
        MathItem::GeneralizedFraction(fr) => {
            let GeneralizedFraction { numerator, denominator, thickness } = fr;
            let numerator = match numerator {
                Some(n) => Some(replace_core_operator(n, attrs)),
                None => None,
            };
            MathExpression::new(
                MathItem::GeneralizedFraction(GeneralizedFraction { numerator, denominator, thickness }),
                user_data,
            )
        },
        other => MathExpression::new(other, user_data),
    }
}

/// Marks the under/overs on the path of nuclei and numerators as limits (see
/// `with_movable_limits`).
fn set_movable_limits(e: MathExpression) -> (r: MathExpression)
    ensures
        r == with_movable_limits(e),
    decreases e,
{
    let MathExpression { item, user_data } = e;
    match *item {
        MathItem::Atom(a) => {
            let Atom { nucleus, top_left, top_right, bottom_left, bottom_right } = a;
            let nucleus = match nucleus {
                Some(n) => Some(set_movable_limits(n)),
                None => None,
            };
            MathExpression::new(
                MathItem::Atom(Atom { nucleus, top_left, top_right, bottom_left, bottom_right }),
                user_data,
            )
        },
        MathItem::OverUnder(ou) => {
            let OverUnder { nucleus, over, under, over_is_accent, under_is_accent, is_limits: _ } =
                ou;
            let nucleus = match nucleus {
                Some(n) => Some(set_movable_limits(n)),
                None => None,
            };
            MathExpression::new(
                MathItem::OverUnder(
                    OverUnder { nucleus, over, under, over_is_accent, under_is_accent, is_limits: true },
                ),
                user_data,
            )
        },
        MathItem::GeneralizedFraction(fr) => {
            let GeneralizedFraction { numerator, denominator, thickness } = fr;
            let numerator = match numerator {
                Some(n) => Some(set_movable_limits(n)),
                None => None,
            };
            MathExpression::new(
                MathItem::GeneralizedFraction(GeneralizedFraction { numerator, denominator, thickness }),
                user_data,
            )
        },
        other => MathExpression::new(other, user_data),
    }
}

/// Turns an embellished operator with completed attributes `attrs` into an operator: marks its
/// under/overs as limits when the operator has movable limits, and replaces its core by an
/// `Operator`.
pub fn make_operator(expr: MathExpression, attrs: &Attributes) -> (r: MathExpression)
    requires
        attrs.lspace is Some,
        attrs.rspace is Some,
    ensures
        r == made_operator(expr, *attrs),
{
    let e1 = if attrs.flags.movable_limits {
        set_movable_limits(expr)
    } else {
        expr
    };
    replace_core_operator(e1, attrs)
}

/// The attributes an operator ends with when `form` is its default form: the form set, then
/// completed from the dictionary.
pub open spec fn guessed(attrs: Attributes, form: Form) -> Attributes {
    completion(with_default_form(attrs, form))
}

/// Guessing the attributes of `e` with the default form `form`, and turning it into an
/// operator: the new entries and the new expression. Nothing changes unless `e` is recorded as
/// an operator.
pub open spec fn operator_step(infos: Seq<MathmlInfo>, e: MathExpression, form: Form) -> (Seq<MathmlInfo>, MathExpression) {
    match operator_attrs_at(infos, e) {
        None => (infos, e),
        Some(a) => {
            let a2 = guessed(a, form);
            (
                infos.update(
                    e.user_data as int,
                    MathmlInfo { operator_attrs: Some(a2), is_space: infos[e.user_data as int].is_space },
                ),
                made_operator(e, a2),
            )
        },
    }
}

/// Guesses the default attributes of an (embellished) operator from `form`, the form it takes
/// from the surrounding elements, and the operator dictionary, and turns it into an operator
/// (see `operator_step`). An expression that is not an operator is returned as it is.
pub fn guess_if_operator_with_form(expr: MathExpression, form: Form, context: &mut ParseContext) -> (r: MathExpression)
    requires
        old(context).wf(),
    ensures
        final(context).wf(),
        (final(context).infos(), r) == operator_step(old(context).infos(), expr, form),
{
    let attrs = match context.operator_attrs(&expr) {
        Some(a) => a,
        None => return expr,
    };
    let with_form = set_default_form(attrs, form);
    let completed = complete_attributes(with_form);
    let n = context.len();
    assert(expr.user_data < n);
    let index = expr.user_data as usize;
    let info = MathmlInfo { operator_attrs: Some(completed), is_space: context.info_at_index(index).is_space };
    context.set_info(index, info);
    make_operator(expr, &completed)
}

/// The attributes with `form` as the form when none is set.
pub fn set_default_form(attrs: Attributes, form: Form) -> (r: Attributes)
    ensures
        r == with_default_form(attrs, form),
{
    let f = match attrs.form {
        Some(f) => f,
        None => form,
    };
    Attributes { form: Some(f), ..attrs }
}

/// The form an operator takes from its place in a row of `n` elements that are not
/// whitespace: prefix at the start, postfix at the end, infix elsewhere and when alone.
pub open spec fn row_form(rank: int, n: int) -> Form {
    if n > 1 && rank == 0 {
        Form::Prefix
    } else if n > 1 && rank == n - 1 {
        Form::Postfix
    } else {
        Form::Infix
    }
}

/// The number of elements of `list` from `k` on that are not whitespace.
pub open spec fn non_space_count(infos: Seq<MathmlInfo>, list: Seq<MathExpression>, k: int) -> nat
    decreases list.len() - k,
{
    if k < 0 || k >= list.len() {
        0
    } else {
        (if is_space_at(infos, list[k]) { 0nat } else { 1nat }) + non_space_count(infos, list, k + 1)
    }
}

/// Processing the operators of `list` from `k` on, where `rank` elements before `k` are not
/// whitespace and `n` in all: the final entries and the new elements.
pub open spec fn row_result(infos: Seq<MathmlInfo>, list: Seq<MathExpression>, n: int, k: int, rank: int) -> (Seq<MathmlInfo>, Seq<MathExpression>)
    decreases list.len() - k,
{
    if k < 0 || k >= list.len() {
        (infos, Seq::empty())
    } else {
        let e = list[k];
        let space = is_space_at(infos, e);
        let (infos1, e1) = if space {
            (infos, e)
        } else {
            operator_step(infos, e, row_form(rank, n))
        };
        let (infos2, rest) = row_result(infos1, list, n, k + 1, if space { rank } else { rank + 1 });
        (infos2, seq![e1] + rest)
    }
}

/// Processing a row keeps the number of entries.
pub proof fn lemma_row_result_len(infos: Seq<MathmlInfo>, list: Seq<MathExpression>, n: int, k: int, rank: int)
    ensures
        row_result(infos, list, n, k, rank).0.len() == infos.len(),
    decreases list.len() - k,
{
    if 0 <= k < list.len() {
        let e = list[k];
        let space = is_space_at(infos, e);
        let (infos1, e1) = if space {
            (infos, e)
        } else {
            operator_step(infos, e, row_form(rank, n))
        };
        lemma_row_result_len(infos1, list, n, k + 1, if space { rank } else { rank + 1 });
    }
}

/// In a row of more than one element that is not whitespace, an operator without a form of its
/// own takes the prefix form when it is the first of them, the postfix form when it is the
/// last, and the infix form otherwise: the row's element `f` becomes the operator made with
/// its attributes guessed for that form (see `guessed`). The elements have entries of their
/// own (no element before `f` shares its user data).
pub proof fn lemma_operator_form_from_place(infos: Seq<MathmlInfo>, list: Seq<MathExpression>, f: int, a: Attributes)
    requires
        0 <= f < list.len(),
        non_space_count(infos, list, 0) > 1,
        !is_space_at(infos, list[f]),
        operator_attrs_at(infos, list[f]) == Some(a),
        forall|i: int| 0 <= i < f ==> (#[trigger] list[i]).user_data != list[f].user_data,
    ensures
        ({
            let n = non_space_count(infos, list, 0) as int;
            let rank = n - non_space_count(infos, list, f);
            let form = if rank == 0 {
                Form::Prefix
            } else if rank == n - 1 {
                Form::Postfix
            } else {
                Form::Infix
            };
            row_result(infos, list, n, 0, 0).1[f] == made_operator(list[f], guessed(a, form))
        }),
{
    let n = non_space_count(infos, list, 0) as int;
    lemma_row_element(infos, list, n, 0, 0, f, a, n - non_space_count(infos, list, f));
}

/// Processing a row from `k` gives one element for each element from `k` on.
proof fn lemma_row_result_out_len(infos: Seq<MathmlInfo>, list: Seq<MathExpression>, n: int, k: int, rank: int)
    requires
        0 <= k <= list.len(),
    ensures
        row_result(infos, list, n, k, rank).1.len() == list.len() - k,
    decreases list.len() - k,
{
    if k < list.len() {
        let e = list[k];
        let space = is_space_at(infos, e);
        let (infos1, e1) = if space {
            (infos, e)
        } else {
            operator_step(infos, e, row_form(rank, n))
        };
        lemma_row_result_out_len(infos1, list, n, k + 1, if space { rank } else { rank + 1 });
    }
}

/// The element `f` of a row processed from `k` with `rank` elements that are not whitespace
/// before `k` is the operator guessed for the form of its place `r`.
proof fn lemma_row_element(
    infos: Seq<MathmlInfo>,
    list: Seq<MathExpression>,
    n: int,
    k: int,
    rank: int,
    f: int,
    a: Attributes,
    r: int,
)
    requires
        0 <= k <= f < list.len(),
        !is_space_at(infos, list[f]),
        operator_attrs_at(infos, list[f]) == Some(a),
        forall|i: int| k <= i < f ==> (#[trigger] list[i]).user_data != list[f].user_data,
        r == rank + non_space_count(infos, list, k) - non_space_count(infos, list, f),
    ensures
        row_result(infos, list, n, k, rank).1[f - k] == made_operator(
            list[f],
            guessed(a, if n > 1 && r == 0 { Form::Prefix } else if n > 1 && r == n - 1 { Form::Postfix } else { Form::Infix }),
        ),
    decreases f - k,
{
    let e = list[k];
    let space = is_space_at(infos, e);
    let (infos1, e1) = if space {
        (infos, e)
    } else {
        operator_step(infos, e, row_form(rank, n))
    };
    let rank1 = if space { rank } else { rank + 1 };
    if k < f {
        assert(list[k].user_data != list[f].user_data);
        assert(same_spaces(infos, infos1));
        lemma_count_same_spaces(infos, infos1, list, k + 1);
        lemma_count_same_spaces(infos, infos1, list, f);
        assert(info_at(infos1, list[f]) == info_at(infos, list[f]));
        lemma_row_element(infos1, list, n, k + 1, rank1, f, a, r);
        lemma_row_result_out_len(infos1, list, n, k + 1, rank1);
        let rest = row_result(infos1, list, n, k + 1, rank1).1;
        assert((seq![e1] + rest)[f - k] == rest[f - k - 1]);
    }
}

/// Whether two tables of entries agree on what is whitespace.
pub open spec fn same_spaces(a: Seq<MathmlInfo>, b: Seq<MathmlInfo>) -> bool {
    &&& a.len() == b.len()
    &&& forall|i: int| 0 <= i < a.len() ==> #[trigger] a[i].is_space == b[i].is_space
}

/// Counting from the same table or from one that agrees on whitespace gives the same.
proof fn lemma_count_same_spaces(a: Seq<MathmlInfo>, b: Seq<MathmlInfo>, list: Seq<MathExpression>, k: int)
    requires
        same_spaces(a, b),
    ensures
        non_space_count(a, list, k) == non_space_count(b, list, k),
    decreases list.len() - k,
{
    if 0 <= k < list.len() {
        lemma_count_same_spaces(a, b, list, k + 1);
    }
}

/// The number of elements of a row that are not whitespace.
fn count_non_space(list: &Vec<MathExpression>, context: &ParseContext) -> (r: usize)
    requires
        context.wf(),
    ensures
        r == non_space_count(context.infos(), list@, 0),
{
    let mut count: usize = 0;
    let len = list.len();
    let mut k: usize = len;
    while k > 0
        invariant
            context.wf(),
            len == list@.len(),
            k <= list@.len(),
            count == non_space_count(context.infos(), list@, k as int),
            count <= len - k,
        decreases k,
    {
        k = k - 1;
        let space = match context.info_for_expr(&list[k]) {
            Some(info) => info.is_space,
            None => false,
        };
        if !space {
            count = count + 1;
        }
    }
    count
}

/// Gives the operators of a row the attributes that depend on their place in it: an operator
/// that is first among the elements that are not whitespace is a prefix, one that is last a
/// postfix, any other an infix (unless its form is given), and then each is completed from
/// the operator dictionary and turned into an operator (see `row_result`).
pub fn process_operators(list: &mut Vec<MathExpression>, context: &mut ParseContext)
    requires
        old(context).wf(),
    ensures
        final(context).wf(),
        (final(context).infos(), final(list)@) == row_result(
            old(context).infos(),
            old(list)@,
            non_space_count(old(context).infos(), old(list)@, 0) as int,
            0,
            0,
        ),
{
    let ghost infos0 = context.infos();
    let n = count_non_space(list, context);
    let mut input: Vec<MathExpression> = Vec::new();
    std::mem::swap(&mut input, list);
    let ghost list0 = input@;
    let mut k: usize = 0;
    let mut rank: usize = 0;
    while k < input.len()
        invariant
            context.wf(),
            list0 == old(list)@,
            k <= list0.len(),
            input@.len() == list0.len(),
            forall|j: int| k <= j < list0.len() ==> input@[j] == list0[j],
            infos0 == old(context).infos(),
            n == non_space_count(infos0, list0, 0),
            same_spaces(infos0, context.infos()),
            rank <= k,
            non_space_count(infos0, list0, 0) == rank + non_space_count(infos0, list0, k as int),
            row_result(infos0, list0, n as int, 0, 0) == (
                row_result(context.infos(), list0, n as int, k as int, rank as int).0,
                list@ + row_result(context.infos(), list0, n as int, k as int, rank as int).1,
            ),
        decreases list0.len() - k,
    {
        let mut e = MathExpression::new(MathItem::List(Vec::new()), 0);
        input.set_and_swap(k, &mut e);
        let ghost infos_k = context.infos();
        let space = match context.info_for_expr(&e) {
            Some(info) => info.is_space,
            None => false,
        };
        proof {
            lemma_count_same_spaces(infos0, infos_k, list0, k as int);
            lemma_count_same_spaces(infos0, infos_k, list0, k + 1);
        }
        let form = if n > 1 && rank == 0 {
            Form::Prefix
        } else if n > 1 && rank + 1 == n {
            Form::Postfix
        } else {
            Form::Infix
        };
        let e1 = if space {
            e
        } else {
            guess_if_operator_with_form(e, form, context)
        };
        proof {
            let (i1, x1) = if space {
                (infos_k, list0[k as int])
            } else {
                operator_step(infos_k, list0[k as int], row_form(rank as int, n as int))
            };
            assert(i1 == context.infos() && x1 == e1);
            assert(same_spaces(infos0, context.infos()));
            let rest = row_result(context.infos(), list0, n as int, k + 1, if space { rank as int } else { rank + 1 });
            assert(list@.push(e1) + rest.1 =~= list@ + (seq![e1] + rest.1));
        }
        list.push(e1);
        if !space {
            rank = rank + 1;
        }
        k = k + 1;
    }
}

} // verus!
