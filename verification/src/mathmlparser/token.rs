//! Token elements (`mi`, `mo`, `mn`, `mtext`, `mspace`): their text and attributes.
use vstd::prelude::*;

use super::error::ParsingError;
use super::operator;
use super::{ElementName, FromXmlAttribute, MathmlElement, MathmlInfo, ParseContext};
use crate::text::{chars_eq, str_to_chars};
use crate::types::{Field, Length, MathExpression, MathItem, MathSpace};
use crate::unicode_math::{convert_character_to_family, family_char, Family};

verus! {

/// The direction of text.
#[derive(Debug, Copy, Clone, PartialEq, Eq, Hash, Structural)]
pub enum TextDirection {
    Ltr,
    Rtl,
}

impl FromXmlAttribute for TextDirection {
    type Err = ();

    /// `rtl` is right to left; anything else left to right.
    fn from_xml_attr(bytes: &str) -> (r: Result<TextDirection, ()>)
        ensures
            r == Ok::<TextDirection, ()>(
                if bytes@ == seq!['r', 't', 'l'] {
                    TextDirection::Rtl
                } else {
                    TextDirection::Ltr
                },
            ),
    {
        let chars = str_to_chars(bytes);
        let rtl: [char; 3] = ['r', 't', 'l'];
        assert(rtl@ == seq!['r', 't', 'l']);
        if chars_eq(&chars, &rtl) {
            Ok(TextDirection::Rtl)
        } else {
            Ok(TextDirection::Ltr)
        }
    }
}

impl Default for TextDirection {
    fn default() -> (r: TextDirection)
        ensures
            r == TextDirection::Ltr,
    {
        TextDirection::Ltr
    }
}

/// The family named by a `mathvariant` value.
pub open spec fn family_of(s: Seq<char>) -> Option<Family> {
    if s == seq!['n', 'o', 'r', 'm', 'a', 'l'] {
        Some(Family::Normal)
    } else if s == seq!['b', 'o', 'l', 'd'] {
        Some(Family::Bold)
    } else if s == seq!['i', 't', 'a', 'l', 'i', 'c'] {
        Some(Family::Italics)
    } else if s == seq!['b', 'o', 'l', 'd', '-', 'i', 't', 'a', 'l', 'i', 'c'] {
        Some(Family::BoldItalics)
    } else if s == seq!['d', 'o', 'u', 'b', 'l', 'e', '-', 's', 't', 'r', 'u', 'c', 'k'] {
        Some(Family::DoubleStruck)
    } else if s == seq!['b', 'o', 'l', 'd', '-', 'f', 'r', 'a', 'k', 't', 'u', 'r'] {
        Some(Family::BoldFraktur)
    } else if s == seq!['s', 'c', 'r', 'i', 'p', 't'] {
        Some(Family::Script)
    } else if s == seq!['b', 'o', 'l', 'd', '-', 's', 'c', 'r', 'i', 'p', 't'] {
        Some(Family::BoldScript)
    } else if s == seq!['f', 'r', 'a', 'k', 't', 'u', 'r'] {
        Some(Family::Fraktur)
    } else if s == seq!['s', 'a', 'n', 's', '-', 's', 'e', 'r', 'i', 'f'] {
        Some(Family::SansSerif)
    } else if s == seq!['b', 'o', 'l', 'd', '-', 's', 'a', 'n', 's', '-', 's', 'e', 'r', 'i', 'f'] {
        Some(Family::SansSerifBold)
    } else if s == seq!['s', 'a', 'n', 's', '-', 's', 'e', 'r', 'i', 'f', '-', 'i', 't', 'a', 'l', 'i', 'c'] {
        Some(Family::SansSerifItalics)
    } else if s == seq!['s', 'a', 'n', 's', '-', 's', 'e', 'r', 'i', 'f', '-', 'b', 'o', 'l', 'd', '-', 'i', 't', 'a', 'l', 'i', 'c'] {
        Some(Family::SansSerifBoldItalics)
    } else if s == seq!['m', 'o', 'n', 'o', 's', 'p', 'a', 'c', 'e'] {
        Some(Family::Monospace)
    } else {
        None
    }
}

/// Whether `chars` spell `word`.
fn is_word(chars: &[char], word: &[char]) -> (r: bool)
    ensures
        r == (chars@ == word@),
{
    chars_eq(chars, word)
}

impl FromXmlAttribute for Family {
    type Err = ();

    fn from_xml_attr(bytes: &str) -> (r: Result<Family, ()>)
        ensures
            match r {
                Ok(f) => family_of(bytes@) == Some(f),
                Err(_) => family_of(bytes@) is None,
            },
    {
        let s = str_to_chars(bytes);
        let normal: [char; 6] = ['n', 'o', 'r', 'm', 'a', 'l'];
        let bold: [char; 4] = ['b', 'o', 'l', 'd'];
        let italic: [char; 6] = ['i', 't', 'a', 'l', 'i', 'c'];
        let bold_italic: [char; 11] = ['b', 'o', 'l', 'd', '-', 'i', 't', 'a', 'l', 'i', 'c'];
        let double_struck: [char; 13] = ['d', 'o', 'u', 'b', 'l', 'e', '-', 's', 't', 'r', 'u', 'c', 'k'];
        let bold_fraktur: [char; 12] = ['b', 'o', 'l', 'd', '-', 'f', 'r', 'a', 'k', 't', 'u', 'r'];
        let script: [char; 6] = ['s', 'c', 'r', 'i', 'p', 't'];
        let bold_script: [char; 11] = ['b', 'o', 'l', 'd', '-', 's', 'c', 'r', 'i', 'p', 't'];
        let fraktur: [char; 7] = ['f', 'r', 'a', 'k', 't', 'u', 'r'];
        let sans_serif: [char; 10] = ['s', 'a', 'n', 's', '-', 's', 'e', 'r', 'i', 'f'];
        let bold_sans_serif: [char; 15] = ['b', 'o', 'l', 'd', '-', 's', 'a', 'n', 's', '-', 's', 'e', 'r', 'i', 'f'];
        let sans_serif_italic: [char; 17] = ['s', 'a', 'n', 's', '-', 's', 'e', 'r', 'i', 'f', '-', 'i', 't', 'a', 'l', 'i', 'c'];
        let sans_serif_bold_italic: [char; 22] = ['s', 'a', 'n', 's', '-', 's', 'e', 'r', 'i', 'f', '-', 'b', 'o', 'l', 'd', '-', 'i', 't', 'a', 'l', 'i', 'c'];
        let monospace: [char; 9] = ['m', 'o', 'n', 'o', 's', 'p', 'a', 'c', 'e'];
        assert(normal@ == seq!['n', 'o', 'r', 'm', 'a', 'l']);
        assert(bold@ == seq!['b', 'o', 'l', 'd']);
        assert(italic@ == seq!['i', 't', 'a', 'l', 'i', 'c']);
        assert(bold_italic@ == seq!['b', 'o', 'l', 'd', '-', 'i', 't', 'a', 'l', 'i', 'c']);
        assert(double_struck@ == seq!['d', 'o', 'u', 'b', 'l', 'e', '-', 's', 't', 'r', 'u', 'c', 'k']);
        assert(bold_fraktur@ == seq!['b', 'o', 'l', 'd', '-', 'f', 'r', 'a', 'k', 't', 'u', 'r']);
        assert(script@ == seq!['s', 'c', 'r', 'i', 'p', 't']);
        assert(bold_script@ == seq!['b', 'o', 'l', 'd', '-', 's', 'c', 'r', 'i', 'p', 't']);
        assert(fraktur@ == seq!['f', 'r', 'a', 'k', 't', 'u', 'r']);
        assert(sans_serif@ == seq!['s', 'a', 'n', 's', '-', 's', 'e', 'r', 'i', 'f']);
        assert(bold_sans_serif@ == seq!['b', 'o', 'l', 'd', '-', 's', 'a', 'n', 's', '-', 's', 'e', 'r', 'i', 'f']);
        assert(sans_serif_italic@ == seq!['s', 'a', 'n', 's', '-', 's', 'e', 'r', 'i', 'f', '-', 'i', 't', 'a', 'l', 'i', 'c']);
        assert(sans_serif_bold_italic@ == seq!['s', 'a', 'n', 's', '-', 's', 'e', 'r', 'i', 'f', '-', 'b', 'o', 'l', 'd', '-', 'i', 't', 'a', 'l', 'i', 'c']);
        assert(monospace@ == seq!['m', 'o', 'n', 'o', 's', 'p', 'a', 'c', 'e']);
        if is_word(&s, &normal) {
            Ok(Family::Normal)
        } else if is_word(&s, &bold) {
            Ok(Family::Bold)
        } else if is_word(&s, &italic) {
            Ok(Family::Italics)
        } else if is_word(&s, &bold_italic) {
            Ok(Family::BoldItalics)
        } else if is_word(&s, &double_struck) {
            Ok(Family::DoubleStruck)
        } else if is_word(&s, &bold_fraktur) {
            Ok(Family::BoldFraktur)
        } else if is_word(&s, &script) {
            Ok(Family::Script)
        } else if is_word(&s, &bold_script) {
            Ok(Family::BoldScript)
        } else if is_word(&s, &fraktur) {
            Ok(Family::Fraktur)
        } else if is_word(&s, &sans_serif) {
            Ok(Family::SansSerif)
        } else if is_word(&s, &bold_sans_serif) {
            Ok(Family::SansSerifBold)
        } else if is_word(&s, &sans_serif_italic) {
            Ok(Family::SansSerifItalics)
        } else if is_word(&s, &sans_serif_bold_italic) {
            Ok(Family::SansSerifBoldItalics)
        } else if is_word(&s, &monospace) {
            Ok(Family::Monospace)
        } else {
            Err(())
        }
    }
}

/// The style of a token element.
#[derive(Debug, Copy, Clone)]
pub struct TokenStyle {
    /// The family of the characters. Without one, a token of a single character is set in
    /// italics and a longer one as it is.
    pub math_variant: Option<Family>,
    pub direction: TextDirection,
}

impl Default for TokenStyle {
    fn default() -> (r: TokenStyle)
        ensures
            r.math_variant is None,
            r.direction == TextDirection::Ltr,
    {
        TokenStyle { math_variant: None, direction: TextDirection::Ltr }
    }
}

/// The text in the family: every character converted to it; without a family, a single
/// character in italics and longer text unchanged.
pub open spec fn adapted_to_family(s: Seq<char>, family: Option<Family>) -> Seq<char> {
    match family {
        None => if s.len() == 1 {
            seq![family_char(s[0], Family::Italics)]
        } else {
            s
        },
        Some(f) => s.map_values(|c: char| family_char(c, f)),
    }
}

/// Without a family, text of more than one character (or none) is left as it is, and a single
/// character is set in italics, as with the italic family.
pub proof fn lemma_default_family(s: Seq<char>)
    ensures
        s.len() != 1 ==> adapted_to_family(s, None) == s,
        s.len() == 1 ==> adapted_to_family(s, None) == adapted_to_family(s, Some(Family::Italics)),
        adapted_to_family(s, None).len() == s.len(),
{
    if s.len() == 1 {
        assert(adapted_to_family(s, None) =~= adapted_to_family(s, Some(Family::Italics)));
    }
}

/// The text in the family (see `adapted_to_family`).
pub fn adapt_to_family(s: &[char], family: Option<Family>) -> (r: Vec<char>)
    ensures
        r@ == adapted_to_family(s@, family),
{
    match family {
        None => {
            let mut v: Vec<char> = Vec::new();
            if s.len() == 1 {
                v.push(convert_character_to_family(s[0], Family::Italics));
                assert(v@ =~= adapted_to_family(s@, family));
            } else {
                let mut i: usize = 0;
                while i < s.len()
                    invariant
                        i <= s@.len(),
                        v@ == s@.take(i as int),
                    decreases s@.len() - i,
                {
                    v.push(s[i]);
                    assert(s@.take(i + 1) =~= s@.take(i as int).push(s@[i as int]));
                    i = i + 1;
                }
                assert(s@.take(s@.len() as int) =~= s@);
            }
            v
        },
        Some(f) => {
            let mut v: Vec<char> = Vec::new();
            let mut i: usize = 0;
            while i < s.len()
                invariant
                    i <= s@.len(),
                    v@ =~= s@.take(i as int).map_values(|c: char| family_char(c, f)),
                decreases s@.len() - i,
            {
                v.push(convert_character_to_family(s[i], f));
                assert(s@.take(i + 1) =~= s@.take(i as int).push(s@[i as int]));
                i = i + 1;
            }
            assert(s@.take(s@.len() as int) =~= s@);
            v
        },
    }
}

/// A character with its replacement for display: in an operator a hyphen-minus is a minus
/// sign (U+2212), elsewhere a hyphen (U+2010); an apostrophe is a prime (U+2032).
pub open spec fn replaced_character(c: char, is_operator: bool) -> char {
    if c == '-' {
        if is_operator {
            '\u{2212}'
        } else {
            '\u{2010}'
        }
    } else if c == '\'' {
        '\u{2032}'
    } else {
        c
    }
}

/// The text with the replacements of `replaced_character`, for the element `elem`.
pub fn replace_anomalous_characters(s: &[char], elem: MathmlElement) -> (r: Vec<char>)
    ensures
        r@ == s@.map_values(|c: char| replaced_character(c, elem.identifier == ElementName::Mo)),
{
    let is_operator = elem.is(ElementName::Mo);
    let mut v: Vec<char> = Vec::new();
    let mut i: usize = 0;
    while i < s.len()
        invariant
            i <= s@.len(),
            is_operator == (elem.identifier == ElementName::Mo),
            v@ =~= s@.take(i as int).map_values(|c: char| replaced_character(c, is_operator)),
        decreases s@.len() - i,
    {
        let c = s[i];
        let r = if c == '-' {
            if is_operator {
                '\u{2212}'
            } else {
                '\u{2010}'
            }
        } else if c == '\'' {
            '\u{2032}'
        } else {
            c
        };
        v.push(r);
        assert(s@.take(i + 1) =~= s@.take(i as int).push(s@[i as int]));
        i = i + 1;
    }
    assert(s@.take(s@.len() as int) =~= s@);
    v
}

/// The character of a field of text that is a single character.
pub open spec fn single_char(field: Field) -> Option<char> {
    match field {
        Field::Unicode(s) => if s@.len() == 1 {
            Some(s@[0])
        } else {
            None
        },
        _ => None,
    }
}

/// The character of a field of text that is a single character (see `single_char`).
pub fn try_extract_char(field: &Field) -> (r: Option<char>)
    ensures
        r == single_char(*field),
{
    match field {
        Field::Unicode(s) => {
            let chars = str_to_chars(s.as_str());
            if chars.len() == 1 {
                Some(chars[0])
            } else {
                None
            }
        },
        _ => None,
    }
}

/// The attributes of a token element.
#[derive(Debug, Default, Copy, Clone)]
pub struct Attributes {
    pub operator_attributes: operator::Attributes,
    pub token_style: TokenStyle,
    /// The width of an `mspace`.
    pub horizontal_space: Option<Length>,
}

/// The entry for a token: its operator attributes when it is an `mo`.
pub open spec fn token_info(elem: MathmlElement, attrs: operator::Attributes) -> MathmlInfo {
    MathmlInfo {
        operator_attrs: if elem.identifier == ElementName::Mo {
            Some(attrs)
        } else {
            None
        },
        is_space: false,
    }
}

/// The expression of a token and the entries it adds (see `build_token`).
pub open spec fn token_built(
    fields: Seq<Field>,
    elem: MathmlElement,
    attributes: Attributes,
    infos: Seq<MathmlInfo>,
    infos2: Seq<MathmlInfo>,
    r: MathExpression,
) -> bool {
    match attributes.horizontal_space {
        Some(w) => {
            &&& *r.item matches MathItem::Space(s) && s.width == w && s.ascent@ == Length::zero_spec()
                && s.descent@ == Length::zero_spec()
            &&& r.user_data == infos.len()
            &&& infos2 == infos.push(MathmlInfo { operator_attrs: None, is_space: true })
        },
        None => if fields.len() == 1 {
            let a = if elem.identifier == ElementName::Mo {
                operator::Attributes { character: single_char(fields[0]), ..attributes.operator_attributes }
            } else {
                attributes.operator_attributes
            };
            &&& *r.item == MathItem::Field(fields[0])
            &&& r.user_data == infos.len()
            &&& infos2 == infos.push(token_info(elem, a))
        } else {
            &&& *r.item matches MathItem::List(v) && v@.len() == fields.len() && forall|i: int|
                0 <= i < fields.len() ==> *(#[trigger] v@[i]).item == MathItem::Field(fields[i])
                    && v@[i].user_data == infos.len() + i
            &&& r.user_data == infos.len() + fields.len()
            &&& infos2.len() == infos.len() + fields.len() + 1
            &&& infos2.take(infos.len() as int) == infos
            &&& forall|i: int|
                infos.len() <= i < infos.len() + fields.len() ==> #[trigger] infos2[i]
                    == MathmlInfo::plain_spec()
            &&& infos2.last() == token_info(elem, attributes.operator_attributes)
        },
    }
}

/// Builds the expression of a token element from its fields of text: the space of an
/// `mspace` with a width; a single field; or a row of the fields. Each new expression gets
/// a new entry (see `token_built`); the entry of an `mo` holds its operator attributes, with
/// its character when its text is one character.
pub fn build_token(
    fields: Vec<Field>,
    elem: MathmlElement,
    attributes: Attributes,
    context: &mut ParseContext,
) -> (r: Result<MathExpression, ParsingError>)
    requires
        old(context).wf(),
        old(context).infos().len() + fields@.len() + 1 < u64::MAX,
    ensures
        final(context).wf(),
        r matches Ok(e) && token_built(
            fields@,
            elem,
            attributes,
            old(context).infos(),
            final(context).infos(),
            e,
        ),
{
    if let Some(width) = attributes.horizontal_space {
        let index = context.put(MathmlInfo { operator_attrs: None, is_space: true });
        return Ok(MathExpression::new(MathItem::Space(MathSpace::horizontal_space(width)), index));
    }
    let ghost infos0 = context.infos();
    let is_mo = elem.is(ElementName::Mo);
    if fields.len() == 1 {
        let mut fields = fields;
        let field = fields.pop().unwrap();
        let mut op_attrs = attributes.operator_attributes;
        if is_mo {
            op_attrs.character = try_extract_char(&field);
        }
        let info = MathmlInfo {
            operator_attrs: if is_mo {
                Some(op_attrs)
            } else {
                None
            },
            is_space: false,
        };
        let index = context.put(info);
        return Ok(MathExpression::new(MathItem::Field(field), index));
    }
    let ghost fields0 = fields@;
    let count = fields.len();
    let mut list: Vec<MathExpression> = Vec::new();
    let mut k: usize = 0;
    let mut rest = fields;
    let mut taken: Vec<Field> = Vec::new();
    while k < count
        invariant
            context.wf(),
            count == fields0.len(),
            k <= fields0.len(),
            rest@.len() == fields0.len(),
            forall|j: int| k <= j < fields0.len() ==> rest@[j] == fields0[j],
            list@.len() == k,
            forall|i: int|
                0 <= i < k ==> *(#[trigger] list@[i]).item == MathItem::Field(fields0[i])
                    && list@[i].user_data == infos0.len() + i,
            context.infos().len() == infos0.len() + k,
            context.infos().take(infos0.len() as int) == infos0,
            forall|i: int|
                infos0.len() <= i < infos0.len() + k ==> #[trigger] context.infos()[i]
                    == MathmlInfo::plain_spec(),
            infos0.len() + fields0.len() + 1 < u64::MAX,
        decreases fields0.len() - k,
    {
        let mut field = Field::Empty;
        rest.set_and_swap(k, &mut field);
        let ghost before = context.infos();
        let index = context.put(MathmlInfo::plain());
        proof {
            assert(context.infos().take(infos0.len() as int) =~= before.take(infos0.len() as int));
        }
        list.push(MathExpression::new(MathItem::Field(field), index));
        k = k + 1;
    }
    let ghost before = context.infos();
    let index = context.put(MathmlInfo {
        operator_attrs: if is_mo {
            Some(attributes.operator_attributes)
        } else {
            None
        },
        is_space: false,
    });
    proof {
        assert(context.infos().take(infos0.len() as int) =~= before.take(infos0.len() as int));
    }
    Ok(MathExpression::new(MathItem::List(list), index))
}

} // verus!
