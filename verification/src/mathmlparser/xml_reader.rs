//! Reading MathML from XML text.
use vstd::prelude::*;

use super::number::length_value;
use super::operator::{self, form_of, Flag};
use super::token::{self, family_of, TextDirection, TokenStyle};
use super::error::{not_implemented_message, not_implemented_text, wrong_count_message, wrong_count_text, ErrorKind, ErrorType, ParsingError};
use super::operator::{non_space_count, operator_step, process_operators, row_form, row_result};
use super::token::build_token;
use super::{
    element_of_name, is_space_at, match_math_element, parse_fixed_schema, parse_list_schema,
    required_arguments, ArgumentRequirements, ElementType, MathmlInfo, ParseContext,
};
use crate::types::MathExpression;
use quick_xml::events::attributes::Attributes as XmlAttributes;
use quick_xml::events::Event as ReadEvent;
use vstd::utf8::encode_utf8;
use super::escape::{unescape, unescape_from, EscapeError};
use super::token::{adapt_to_family, adapted_to_family, replace_anomalous_characters, replaced_character};
use super::{bool_of, name_of, ElementName, FromXmlAttribute, MathmlElement};
use crate::text::{bytes_eq, chars_eq, str_to_chars, string_from_chars};
use crate::types::{Field, Length};
use crate::unicode_math::Family;
use super::parse_model::{
    children_parse, document_parses, element_parses, processed_row, root_element,
    sub_element_parses,
};

verus! {

/// The text direction an attribute value names: `rtl`, or left to right.
pub open spec fn direction_of(s: Seq<char>) -> TextDirection {
    if s == seq!['r', 't', 'l'] {
        TextDirection::Rtl
    } else {
        TextDirection::Ltr
    }
}

/// The token style after the attribute `name="value"`, if it is a style attribute
/// (`mathvariant`, `dir`). Once a style attribute is read, a token other than `mi` without a
/// family gets the normal family.
pub open spec fn token_attribute_step(style: TokenStyle, id: ElementName, name: Seq<char>, value: Seq<char>) -> Option<TokenStyle> {
    let s1 = if name == seq!['m', 'a', 't', 'h', 'v', 'a', 'r', 'i', 'a', 'n', 't'] {
        Some(TokenStyle { math_variant: family_of(value), ..style })
    } else if name == seq!['d', 'i', 'r'] {
        Some(TokenStyle { direction: direction_of(value), ..style })
    } else {
        None
    };
    match s1 {
        Some(s) => Some(
            if id != ElementName::Mi && s.math_variant is None {
                TokenStyle { math_variant: Some(Family::Normal), ..s }
            } else {
                s
            },
        ),
        None => None,
    }
}

/// Whether the attribute name `name` spells `word`.
fn named(name: &str, word: &[char]) -> (r: bool)
    ensures
        r == (name@ == word@),
{
    let chars = str_to_chars(name);
    chars_eq(&chars, word)
}

/// Reads a style attribute of a token into `style`; false, with `style` unchanged, for
/// other attributes (see `token_attribute_step`).
pub fn parse_token_attribute(style: &mut TokenStyle, element_identifier: ElementName, new_attribute: &(String, String)) -> (r: bool)
    ensures
        match token_attribute_step(*old(style), element_identifier, new_attribute.0@, new_attribute.1@) {
            Some(s) => r && *final(style) == s,
            None => !r && *final(style) == *old(style),
        },
{
    let mathvariant: [char; 11] = ['m', 'a', 't', 'h', 'v', 'a', 'r', 'i', 'a', 'n', 't'];
    let dir: [char; 3] = ['d', 'i', 'r'];
    assert(mathvariant@ == seq!['m', 'a', 't', 'h', 'v', 'a', 'r', 'i', 'a', 'n', 't']);
    assert(dir@ == seq!['d', 'i', 'r']);
    let (name, value) = new_attribute;
    if named(name.as_str(), &mathvariant) {
        style.math_variant = match Family::from_xml_attr(value.as_str()) {
            Ok(f) => Some(f),
            Err(_) => None,
        };
    } else if named(name.as_str(), &dir) {
        style.direction = match TextDirection::from_xml_attr(value.as_str()) {
            Ok(d) => d,
            Err(_) => TextDirection::Ltr,
        };
    } else {
        return false;
    }
    if element_identifier != ElementName::Mi && style.math_variant.is_none() {
        style.math_variant = Some(Family::Normal);
    }
    true
}

/// The operator attributes after a user override of `flag` by a boolean value (unchanged
/// when the value is not a boolean).
pub open spec fn override_step(a: operator::Attributes, flag: Flag, value: Seq<char>) -> operator::Attributes {
    match bool_of(value) {
        Some(b) => operator::Attributes {
            user_overrides: a.user_overrides.with_spec(flag, true),
            flags: a.flags.with_spec(flag, b),
            ..a
        },
        None => a,
    }
}

/// The flag that an operator attribute name sets, if any.
pub open spec fn flag_named(name: Seq<char>) -> Option<Flag> {
    if name == seq!['f', 'e', 'n', 'c', 'e'] {
        Some(Flag::Fence)
    } else if name == seq!['s', 'y', 'm', 'm', 'e', 't', 'r', 'i', 'c'] {
        Some(Flag::Symmetric)
    } else if name == seq!['s', 't', 'r', 'e', 't', 'c', 'h', 'y'] {
        Some(Flag::Stretchy)
    } else if name == seq!['l', 'a', 'r', 'g', 'e', 'o', 'p'] {
        Some(Flag::LargeOp)
    } else if name == seq!['m', 'o', 'v', 'a', 'b', 'l', 'e', 'l', 'i', 'm', 'i', 't', 's'] {
        Some(Flag::MovableLimits)
    } else if name == seq!['a', 'c', 'c', 'e', 'n', 't'] {
        Some(Flag::Accent)
    } else {
        None
    }
}

/// The operator attributes after the attribute `name="value"`, if it is an operator attribute
/// (`form`, `lspace`, `rspace`, or a property).
pub open spec fn operator_attribute_step(a: operator::Attributes, name: Seq<char>, value: Seq<char>) -> Option<operator::Attributes> {
    if name == seq!['f', 'o', 'r', 'm'] {
        Some(operator::Attributes { form: form_of(value), ..a })
    } else if name == seq!['l', 's', 'p', 'a', 'c', 'e'] {
        Some(operator::Attributes { lspace: length_value(value), ..a })
    } else if name == seq!['r', 's', 'p', 'a', 'c', 'e'] {
        Some(operator::Attributes { rspace: length_value(value), ..a })
    } else {
        match flag_named(name) {
            Some(flag) => Some(override_step(a, flag, value)),
            None => None,
        }
    }
}

/// The flag that an operator attribute name sets (see `flag_named`).
fn flag_for_name(name: &str) -> (r: Option<Flag>)
    ensures
        r == flag_named(name@),
{
    let fence: [char; 5] = ['f', 'e', 'n', 'c', 'e'];
    let symmetric: [char; 9] = ['s', 'y', 'm', 'm', 'e', 't', 'r', 'i', 'c'];
    let stretchy: [char; 8] = ['s', 't', 'r', 'e', 't', 'c', 'h', 'y'];
    let largeop: [char; 7] = ['l', 'a', 'r', 'g', 'e', 'o', 'p'];
    let movablelimits: [char; 13] = ['m', 'o', 'v', 'a', 'b', 'l', 'e', 'l', 'i', 'm', 'i', 't', 's'];
    let accent: [char; 6] = ['a', 'c', 'c', 'e', 'n', 't'];
    assert(fence@ == seq!['f', 'e', 'n', 'c', 'e']);
    assert(symmetric@ == seq!['s', 'y', 'm', 'm', 'e', 't', 'r', 'i', 'c']);
    assert(stretchy@ == seq!['s', 't', 'r', 'e', 't', 'c', 'h', 'y']);
    assert(largeop@ == seq!['l', 'a', 'r', 'g', 'e', 'o', 'p']);
    assert(movablelimits@ == seq!['m', 'o', 'v', 'a', 'b', 'l', 'e', 'l', 'i', 'm', 'i', 't', 's']);
    assert(accent@ == seq!['a', 'c', 'c', 'e', 'n', 't']);
    if named(name, &fence) {
        Some(Flag::Fence)
    } else if named(name, &symmetric) {
        Some(Flag::Symmetric)
    } else if named(name, &stretchy) {
        Some(Flag::Stretchy)
    } else if named(name, &largeop) {
        Some(Flag::LargeOp)
    } else if named(name, &movablelimits) {
        Some(Flag::MovableLimits)
    } else if named(name, &accent) {
        Some(Flag::Accent)
    } else {
        None
    }
}

/// Reads an operator attribute into `op_attrs`; false, with `op_attrs` unchanged, for other
/// attributes (see `operator_attribute_step`).
pub fn parse_operator_attribute(op_attrs: &mut operator::Attributes, new_attr: &(String, String)) -> (r: bool)
    ensures
        match operator_attribute_step(*old(op_attrs), new_attr.0@, new_attr.1@) {
            Some(a) => r && *final(op_attrs) == a,
            None => !r && *final(op_attrs) == *old(op_attrs),
        },
{
    let form: [char; 4] = ['f', 'o', 'r', 'm'];
    let lspace: [char; 6] = ['l', 's', 'p', 'a', 'c', 'e'];
    let rspace: [char; 6] = ['r', 's', 'p', 'a', 'c', 'e'];
    assert(form@ == seq!['f', 'o', 'r', 'm']);
    assert(lspace@ == seq!['l', 's', 'p', 'a', 'c', 'e']);
    assert(rspace@ == seq!['r', 's', 'p', 'a', 'c', 'e']);
    let (name, value) = new_attr;
    if named(name.as_str(), &form) {
        op_attrs.form = match operator::Form::from_xml_attr(value.as_str()) {
            Ok(f) => Some(f),
            Err(_) => None,
        };
        return true;
    }
    if named(name.as_str(), &lspace) {
        op_attrs.lspace = match Length::from_xml_attr(value.as_str()) {
            Ok(l) => Some(l),
            Err(_) => None,
        };
        return true;
    }
    if named(name.as_str(), &rspace) {
        op_attrs.rspace = match Length::from_xml_attr(value.as_str()) {
            Ok(l) => Some(l),
            Err(_) => None,
        };
        return true;
    }
    match flag_for_name(name.as_str()) {
        Some(flag) => {
            if let Ok(b) = bool::from_xml_attr(value.as_str()) {
                op_attrs.set_user_override(flag, b);
            }
            true
        },
        None => false,
    }
}

/// The width of an `mspace` after the attribute `name="value"`, if it is its `width`
/// attribute (a width that is not a length leaves it unchanged).
pub open spec fn mspace_attribute_step(space: Option<Length>, id: ElementName, name: Seq<char>, value: Seq<char>) -> Option<Option<Length>> {
    if id != ElementName::Mspace {
        None
    } else if name == seq!['w', 'i', 'd', 't', 'h'] {
        Some(
            match length_value(value) {
                Some(l) => Some(l),
                None => space,
            },
        )
    } else {
        None
    }
}

/// Reads the `width` of an `mspace` into `horiz_space`; false, with it unchanged, for other
/// attributes and elements (see `mspace_attribute_step`).
pub fn parse_mspace_attribute(horiz_space: &mut Option<Length>, identifier: ElementName, new_attr: &(String, String)) -> (r: bool)
    ensures
        match mspace_attribute_step(*old(horiz_space), identifier, new_attr.0@, new_attr.1@) {
            Some(s) => r && *final(horiz_space) == s,
            None => !r && *final(horiz_space) == *old(horiz_space),
        },
{
    if identifier != ElementName::Mspace {
        return false;
    }
    let width: [char; 5] = ['w', 'i', 'd', 't', 'h'];
    assert(width@ == seq!['w', 'i', 'd', 't', 'h']);
    let (name, value) = new_attr;
    if named(name.as_str(), &width) {
        if let Ok(w) = Length::from_xml_attr(value.as_str()) {
            *horiz_space = Some(w);
        }
        true
    } else {
        false
    }
}

/// The attributes of a token after its attributes from `k` on: each is a style attribute,
/// else (in an `mo`) an operator attribute, else (in an `mspace`) its width, else ignored.
pub open spec fn token_attributes_from(
    attrs: Seq<(String, String)>,
    id: ElementName,
    acc: token::Attributes,
    k: int,
) -> token::Attributes
    decreases attrs.len() - k,
{
    if k < 0 || k >= attrs.len() {
        acc
    } else {
        let name = attrs[k].0@;
        let value = attrs[k].1@;
        let acc1 = match token_attribute_step(acc.token_style, id, name, value) {
            Some(st) => token::Attributes { token_style: st, ..acc },
            None => {
                let op = if id == ElementName::Mo {
                    operator_attribute_step(acc.operator_attributes, name, value)
                } else {
                    None
                };
                match op {
                    Some(a) => token::Attributes { operator_attributes: a, ..acc },
                    None => match mspace_attribute_step(acc.horizontal_space, id, name, value) {
                        Some(h) => token::Attributes { horizontal_space: h, ..acc },
                        None => acc,
                    },
                }
            },
        };
        token_attributes_from(attrs, id, acc1, k + 1)
    }
}

/// No attribute of a token given.
pub open spec fn default_token_attributes() -> token::Attributes {
    token::Attributes {
        operator_attributes: operator::Attributes::default_spec(),
        token_style: TokenStyle { math_variant: None, direction: TextDirection::Ltr },
        horizontal_space: None,
    }
}

/// The attributes of a token element (see `token_attributes_from`).
pub fn token_attributes(attrs: &[(String, String)], identifier: ElementName) -> (r: token::Attributes)
    ensures
        r == token_attributes_from(attrs@, identifier, default_token_attributes(), 0),
{
    let mut token_style = TokenStyle::default();
    let mut op_attrs = operator::Attributes::default();
    let mut space: Option<Length> = None;
    let mut k: usize = 0;
    while k < attrs.len()
        invariant
            k <= attrs@.len(),
            token_attributes_from(attrs@, identifier, default_token_attributes(), 0)
                == token_attributes_from(
                attrs@,
                identifier,
                token::Attributes { operator_attributes: op_attrs, token_style, horizontal_space: space },
                k as int,
            ),
        decreases attrs@.len() - k,
    {
        let attr = &attrs[k];
        if !parse_token_attribute(&mut token_style, identifier, attr) {
            let consumed = if identifier == ElementName::Mo {
                parse_operator_attribute(&mut op_attrs, attr)
            } else {
                false
            };
            if !consumed {
                parse_mspace_attribute(&mut space, identifier, attr);
            }
        }
        k = k + 1;
    }
    token::Attributes { operator_attributes: op_attrs, token_style, horizontal_space: space }
}

/// An event of the XML text.
pub enum XmlEvent {
    /// A start tag with its attributes; an empty element is a start tag and an end tag.
    Start { name: String, attributes: Vec<(String, String)> },
    /// An end tag.
    End { name: String },
    /// Text between tags, with its character references still in it.
    Text(String),
    /// A general reference `&name;` in text: its name.
    Reference(String),
    /// A comment, declaration, processing instruction or the like.
    Other,
}

/// An event with the byte offset in the input that the reader reached after reading it.
pub struct XmlToken {
    pub event: XmlEvent,
    pub position: usize,
}

/// Whether an event belongs to text.
pub open spec fn is_text_event(ev: XmlEvent) -> bool {
    ev is Text || ev is Reference
}

impl XmlEvent {
    /// Whether the event belongs to text.
    pub fn is_text(&self) -> (r: bool)
        ensures
            r == is_text_event(*self),
    {
        match self {
            XmlEvent::Text(_) | XmlEvent::Reference(_) => true,
            _ => false,
        }
    }
}

/// The text an event stands for: text as it is, a reference as `&name;`.
pub open spec fn event_text(ev: XmlEvent) -> Seq<char> {
    match ev {
        XmlEvent::Text(s) => s@,
        XmlEvent::Reference(n) => seq!['&'] + n@ + seq![';'],
        _ => Seq::empty(),
    }
}

/// The first position from `k` on that is not a text event.
pub open spec fn run_end(tokens: Seq<XmlToken>, k: int) -> int
    decreases tokens.len() - k,
{
    if k < 0 {
        0
    } else if k >= tokens.len() || !is_text_event(tokens[k].event) {
        k
    } else {
        run_end(tokens, k + 1)
    }
}

/// The text of the events from `k` up to `j`.
pub open spec fn run_text(tokens: Seq<XmlToken>, k: int, j: int) -> Seq<char>
    decreases j - k,
{
    if k >= j || k < 0 || j > tokens.len() {
        Seq::empty()
    } else {
        run_text(tokens, k, j - 1) + event_text(tokens[j - 1].event)
    }
}

/// The text of a field of a token from the raw text: references replaced (see
/// `unescape_from`), set in the family of the style (see `adapted_to_family`), characters
/// replaced for display (see `replaced_character`).
pub open spec fn field_text(raw: Seq<char>, elem: MathmlElement, style: TokenStyle) -> Option<Seq<char>> {
    match unescape_from(raw, 0) {
        Ok(u) => Some(
            adapted_to_family(u, style.math_variant).map_values(
                |c: char| replaced_character(c, elem.identifier == ElementName::Mo),
            ),
        ),
        Err(_) => None,
    }
}

/// The fields of a token element whose content starts at `k`, and the position after its
/// end tag (or the end of the input): each run of text events is one field; other end tags
/// and other events are skipped; a start tag or text whose references cannot be replaced is
/// an error (`None`).
pub open spec fn token_contents(tokens: Seq<XmlToken>, k: int, elem: MathmlElement, style: TokenStyle) -> Option<(Seq<Seq<char>>, int)>
    decreases tokens.len() - k,
{
    if k < 0 || k >= tokens.len() {
        Some((Seq::empty(), tokens.len() as int))
    } else {
        match tokens[k].event {
            XmlEvent::Start { .. } => None,
            XmlEvent::End { name } => if name@ == name_of(elem.identifier) {
                Some((Seq::empty(), k + 1))
            } else {
                token_contents(tokens, k + 1, elem, style)
            },
            XmlEvent::Other => token_contents(tokens, k + 1, elem, style),
            _ => {
                let j = run_end(tokens, k);
                if j <= k || j > tokens.len() {
                    None
                } else {
                    match field_text(run_text(tokens, k, j), elem, style) {
                        None => None,
                        Some(t) => match token_contents(tokens, j, elem, style) {
                            Some((fs, e)) => Some((seq![t] + fs, e)),
                            None => None,
                        },
                    }
                }
            },
        }
    }
}

/// Where reading the content of a token element from `k` fails (see `token_contents`): at a
/// start tag, or at a run of text whose references cannot be replaced; `None` where it does not.
pub open spec fn token_failure(tokens: Seq<XmlToken>, k: int, elem: MathmlElement, style: TokenStyle) -> Option<int>
    decreases tokens.len() - k,
{
    if k < 0 || k >= tokens.len() {
        None
    } else {
        match tokens[k].event {
            XmlEvent::Start { .. } => Some(k),
            XmlEvent::End { name } => if name@ == name_of(elem.identifier) {
                None
            } else {
                token_failure(tokens, k + 1, elem, style)
            },
            XmlEvent::Other => token_failure(tokens, k + 1, elem, style),
            _ => {
                let j = run_end(tokens, k);
                if j <= k || j > tokens.len() {
                    None
                } else {
                    match field_text(run_text(tokens, k, j), elem, style) {
                        None => Some(k),
                        Some(_) => token_failure(tokens, j, elem, style),
                    }
                }
            },
        }
    }
}

/// The message for a start tag named `name` inside a token element: `mglyph` and
/// `malignmark` are not implemented (see `not_implemented_message`); any other element is
/// unexpected.
pub open spec fn start_tag_message(name: Seq<char>) -> Seq<char> {
    let bytes = encode_utf8(name);
    if bytes == encode_utf8("mglyph"@) || bytes == encode_utf8("malignmark"@) {
        not_implemented_message(bytes)
    } else {
        "Unexpected new element."@
    }
}

proof fn lemma_run_end(tokens: Seq<XmlToken>, k: int)
    requires
        0 <= k <= tokens.len(),
    ensures
        k <= run_end(tokens, k) <= tokens.len(),
        forall|i: int| k <= i < run_end(tokens, k) ==> is_text_event(#[trigger] tokens[i].event),
        k < tokens.len() && is_text_event(tokens[k].event) ==> run_end(tokens, k) > k,
    decreases tokens.len() - k,
{
    if k < tokens.len() && is_text_event(tokens[k].event) {
        lemma_run_end(tokens, k + 1);
    }
}

/// The text of the run of text events from `k` (see `run_text`), and where it ends.
fn read_run(tokens: &[XmlToken], k: usize) -> (r: (Vec<char>, usize))
    requires
        k <= tokens@.len(),
    ensures
        r.1 == run_end(tokens@, k as int),
        r.0@ == run_text(tokens@, k as int, r.1 as int),
{
    proof {
        lemma_run_end(tokens@, k as int);
    }
    let mut raw: Vec<char> = Vec::new();
    let mut j: usize = k;
    while j < tokens.len() && tokens[j].event.is_text()
        invariant
            k <= j <= tokens@.len(),
            run_end(tokens@, k as int) == run_end(tokens@, j as int),
            raw@ == run_text(tokens@, k as int, j as int),
        decreases tokens@.len() - j,
    {
        match &tokens[j].event {
            XmlEvent::Text(s) => {
                let chars = str_to_chars(s.as_str());
                append_chars(&mut raw, &chars);
            },
            XmlEvent::Reference(n) => {
                raw.push('&');
                let chars = str_to_chars(n.as_str());
                append_chars(&mut raw, &chars);
                raw.push(';');
            },
            _ => {},
        }
        proof {
            assert(raw@ =~= run_text(tokens@, k as int, j as int) + event_text(tokens@[j as int].event));
        }
        j = j + 1;
    }
    (raw, j)
}

/// Appends `chars` to `v`.
fn append_chars(v: &mut Vec<char>, chars: &[char])
    ensures
        final(v)@ == old(v)@ + chars@,
{
    let mut i: usize = 0;
    while i < chars.len()
        invariant
            i <= chars@.len(),
            v@ == old(v)@ + chars@.take(i as int),
        decreases chars@.len() - i,
    {
        v.push(chars[i]);
        assert(chars@.take(i + 1) =~= chars@.take(i as int).push(chars@[i as int]));
        i = i + 1;
    }
    assert(chars@.take(chars@.len() as int) =~= chars@);
}

/// The text of a field (see `field_text`).
fn make_field_text(raw: &[char], elem: MathmlElement, style: TokenStyle) -> (r: Result<Vec<char>, EscapeError>)
    ensures
        match r {
            Ok(t) => field_text(raw@, elem, style) == Some(t@),
            Err(e) => field_text(raw@, elem, style) is None && unescape_from(raw@, 0) == Err::<Seq<char>, EscapeError>(e),
        },
{
    match unescape(raw) {
        Ok(u) => {
            let adapted = adapt_to_family(&u, style.math_variant);
            Ok(replace_anomalous_characters(&adapted, elem))
        },
        Err(e) => Err(e),
    }
}

/// Whether a field is text with the characters `t`.
pub open spec fn field_has_text(f: Field, t: Seq<char>) -> bool {
    f matches Field::Unicode(s) && s@ == t
}

/// Whether `name` is the tag name of `elem`.
fn is_name_of(name: &String, elem: MathmlElement) -> (r: bool)
    ensures
        r == (name@ == name_of(elem.identifier)),
{
    let chars = str_to_chars(name.as_str());
    let id = str_to_chars(elem.identifier.identifier_str());
    chars_eq(&chars, &id)
}

/// Reads the content of a token element from `pos` (after its start tag) to its end tag
/// (see `token_contents`): its fields, and the position after the end tag. Where it fails
/// (see `token_failure`), a start tag is an error at that tag (see `start_tag_message`), and
/// text whose references cannot be replaced is an error with the message of the escape error.
pub fn parse_token_contents(
    tokens: &[XmlToken],
    pos: usize,
    elem: MathmlElement,
    token_style: TokenStyle,
) -> (r: Result<(Vec<Field>, usize), ParsingError>)
    requires
        pos <= tokens@.len(),
    ensures
        match r {
            Ok((fields, end)) => token_contents(tokens@, pos as int, elem, token_style) matches Some(
                (texts, e),
            ) && e == end && fields@.len() == texts.len() && forall|i: int|
                0 <= i < texts.len() ==> field_has_text(#[trigger] fields@[i], texts[i]),
            Err(_) => token_contents(tokens@, pos as int, elem, token_style) is None,
        },
        match r {
            Ok((fields, end)) => pos <= end <= tokens@.len() && fields@.len() <= end - pos,
            Err(e) => parse_error(e, false) && e@ == token_error(tokens@, pos as int, elem, token_style) && match token_failure(tokens@, pos as int, elem, token_style) {
                Some(j) => match tokens@[j].event {
                    XmlEvent::Start { name, .. } => e.position == Some(tokens@[j].position) && (
                    e.error_type matches ErrorType::OtherError(m) && m@ == start_tag_message(name@)),
                    _ => e.position is None && (e.error_type matches ErrorType::OtherError(m) && unescape_from(
                        run_text(tokens@, j, run_end(tokens@, j)),
                        0,
                    ) matches Err(x) && m@ == x.message_of()),
                },
                None => false,
            },
        },
{
    let mut fields: Vec<Field> = Vec::new();
    let mut k: usize = pos;
    let ghost texts0: Seq<Seq<char>> = Seq::empty();
    let ghost mut done: Seq<Seq<char>> = Seq::empty();
    loop
        invariant
            pos <= k <= tokens@.len(),
            fields@.len() == done.len(),
            done.len() <= k - pos,
            forall|i: int|
                0 <= i < done.len() ==> field_has_text(#[trigger] fields@[i], done[i]),
            token_contents(tokens@, pos as int, elem, token_style) == match token_contents(
                tokens@,
                k as int,
                elem,
                token_style,
            ) {
                Some((fs, e)) => Some((done + fs, e)),
                None => None,
            },
            token_failure(tokens@, pos as int, elem, token_style) == token_failure(tokens@, k as int, elem, token_style),
        decreases tokens@.len() - k,
    {
        if k >= tokens.len() {
            assert(done + Seq::<Seq<char>>::empty() =~= done);
            return Ok((fields, tokens.len()));
        }
        match &tokens[k].event {
            XmlEvent::Start { name, .. } => {
                let bytes = name.as_str().as_bytes();
                if bytes_eq(bytes, "mglyph".as_bytes()) || bytes_eq(bytes, "malignmark".as_bytes()) {
                    return Err(ParsingError::from_string(tokens[k].position, not_implemented_text(bytes)));
                }
                let mut message = String::new();
                let text = "Unexpected new element.";
                message.append(text);
                assert(message@ =~= text@);
                return Err(ParsingError::from_string(tokens[k].position, message));
            },
            XmlEvent::End { name } => {
                if is_name_of(name, elem) {
                    assert(done + Seq::<Seq<char>>::empty() =~= done);
                    return Ok((fields, k + 1));
                }
                k = k + 1;
            },
            XmlEvent::Other => {
                k = k + 1;
            },
            _ => {
                let (raw, j) = read_run(tokens, k);
                proof {
                    lemma_run_end(tokens@, k as int);
                }
                match make_field_text(&raw, elem, token_style) {
                    Ok(t) => {
                        let s = string_from_chars(&t);
                        fields.push(Field::Unicode(s));
                        proof {
                            let d0 = done;
                            done = done.push(t@);
                            assert forall|fs: Seq<Seq<char>>| d0 + (seq![t@] + fs) =~= done + fs by {}
                        }
                        k = j;
                    },
                    Err(e) => {
                        let mut message = String::new();
                        message.append(e.message());
                        assert(message@ =~= e.message_of());
                        return Err(ParsingError::from_message(message));
                    },
                }
            },
        }
    }
}

/// Whether an element's description is consistent: a schema with a fixed number of children
/// is one of the elements that take that many.
pub open spec fn consistent_element(elem: MathmlElement) -> bool {
    elem.elem_type matches ElementType::LayoutSchema { args: ArgumentRequirements::RequiredArguments(n) }
        ==> required_arguments(elem.identifier) == n as int && n > 0
}

/// The elements the parser knows are consistent.
proof fn lemma_known_consistent(name: Seq<u8>)
    ensures
        element_of_name(name) matches Some(e) ==> consistent_element(e),
{
}

/// Where the element whose content starts at `pos` ends (the position after its end tag),
/// when its content is well formed; `None` when it is not. A token's content is read by
/// `token_contents`, a schema's children by `list_scan`; a schema with a fixed number of
/// children must have that many.
pub open spec fn element_end(tokens: Seq<XmlToken>, pos: int, elem: MathmlElement, attrs: Seq<(String, String)>) -> Option<int>
    decreases tokens.len() - pos, 3int,
{
    if pos < 0 || pos > tokens.len() {
        None
    } else {
        match elem.elem_type {
            ElementType::TokenElement => match token_contents(
                tokens,
                pos,
                elem,
                token_attributes_from(attrs, elem.identifier, default_token_attributes(), 0).token_style,
            ) {
                Some((_, e)) => Some(e),
                None => None,
            },
            ElementType::LayoutSchema { args: ArgumentRequirements::RequiredArguments(n) } => match list_scan(
                tokens,
                pos,
                elem,
                0,
            ) {
                Some((e, c)) => if c == n {
                    Some(e)
                } else {
                    None
                },
                None => None,
            },
            _ => match list_scan(tokens, pos, elem, 0) {
                Some((e, _)) => Some(e),
                None => None,
            },
        }
    }
}

/// Where the element whose start tag is at `k` ends, when it is a known element and well
/// formed.
pub open spec fn sub_element_end(tokens: Seq<XmlToken>, k: int) -> Option<int>
    decreases tokens.len() - k, 0int,
{
    if k < 0 || k >= tokens.len() {
        None
    } else {
        match tokens[k].event {
            XmlEvent::Start { name, attributes } => match element_of_name(encode_utf8(name@)) {
                Some(sub) => element_end(tokens, k + 1, sub, attributes@),
                None => None,
            },
            _ => None,
        }
    }
}

/// The end tag that closes the start tag named `name` whose content starts at `k`, counting
/// nested start tags of the same name (`depth` of them are open): its index, if there is one.
pub open spec fn matching_end(tokens: Seq<XmlToken>, k: int, name: Seq<char>, depth: nat) -> Option<int>
    decreases tokens.len() - k,
{
    if k < 0 || k >= tokens.len() {
        None
    } else {
        match tokens[k].event {
            XmlEvent::Start { name: n, .. } => if n@ == name {
                matching_end(tokens, k + 1, name, depth + 1)
            } else {
                matching_end(tokens, k + 1, name, depth)
            },
            XmlEvent::End { name: n } => if n@ == name {
                if depth == 0 {
                    Some(k)
                } else {
                    matching_end(tokens, k + 1, name, (depth - 1) as nat)
                }
            } else {
                matching_end(tokens, k + 1, name, depth)
            },
            _ => matching_end(tokens, k + 1, name, depth),
        }
    }
}

/// Reading the element `elem` whose content starts at `pos` fails because the events end
/// before it does (its children end without its end tag, or an unknown child element is not
/// closed), rather than because of a wrong event.
pub open spec fn element_runs_out(tokens: Seq<XmlToken>, pos: int, elem: MathmlElement) -> bool
    decreases tokens.len() - pos, 3int,
{
    if pos < 0 || pos > tokens.len() {
        false
    } else {
        match elem.elem_type {
            ElementType::TokenElement => false,
            _ => list_runs_out(tokens, pos, elem),
        }
    }
}

/// Reading the element whose start tag is at `k` fails because the events end first (see
/// `element_runs_out`).
pub open spec fn sub_element_runs_out(tokens: Seq<XmlToken>, k: int) -> bool
    decreases tokens.len() - k, 0int,
{
    if k < 0 || k >= tokens.len() {
        false
    } else {
        match tokens[k].event {
            XmlEvent::Start { name, attributes } => match element_of_name(encode_utf8(name@)) {
                Some(sub) => element_runs_out(tokens, k + 1, sub),
                None => matching_end(tokens, k + 1, name@, 0) is None,
            },
            _ => false,
        }
    }
}

/// Reading the children of `elem` from `k` fails because the events end first (see
/// `element_runs_out`).
pub open spec fn list_runs_out(tokens: Seq<XmlToken>, k: int, elem: MathmlElement) -> bool
    decreases tokens.len() - k, 1int,
{
    if k < 0 || k > tokens.len() {
        false
    } else if k == tokens.len() {
        !(elem.elem_type is MathmlRoot)
    } else {
        match tokens[k].event {
            XmlEvent::Start { .. } => match sub_element_end(tokens, k) {
                Some(e) => if e <= k || e > tokens.len() {
                    false
                } else {
                    list_runs_out(tokens, e, elem)
                },
                None => sub_element_runs_out(tokens, k),
            },
            XmlEvent::End { .. } => false,
            _ => list_runs_out(tokens, k + 1, elem),
        }
    }
}

/// The error for events that run out: `UnexpectedEndOfInput`, or the reader's error for an
/// element it skips whose end tag is missing.
pub open spec fn running_out(e: ParsingError) -> bool {
    e.error_type is UnexpectedEndOfInput || e.error_type is XmlError
}

/// An error of the MathML parser: one for events that run out (see `running_out`) exactly
/// when the events ran out (`runs_out`).
pub open spec fn parse_error(e: ParsingError, runs_out: bool) -> bool {
    running_out(e) <==> runs_out
}

/// Reading the children of `elem` from `k`, with `count` read before: where the element ends
/// and how many children it has. Text and other events between children are skipped; an end
/// tag must be the element's own (the document has none); the input may end only in the
/// document.
pub open spec fn list_scan(tokens: Seq<XmlToken>, k: int, elem: MathmlElement, count: nat) -> Option<(int, nat)>
    decreases tokens.len() - k, 1int,
{
    if k < 0 || k > tokens.len() {
        None
    } else if k == tokens.len() {
        if elem.elem_type is MathmlRoot {
            Some((k, count))
        } else {
            None
        }
    } else {
        match tokens[k].event {
            XmlEvent::Start { .. } => match sub_element_end(tokens, k) {
                Some(e) => if e <= k || e > tokens.len() {
                    None
                } else {
                    list_scan(tokens, e, elem, count + 1)
                },
                None => None,
            },
            XmlEvent::End { name } => if elem.elem_type is MathmlRoot {
                None
            } else if name@ == name_of(elem.identifier) {
                Some((k + 1, count))
            } else {
                None
            },
            _ => list_scan(tokens, k + 1, elem, count),
        }
    }
}

/// The error reading the content of a token element from `k` gives where it fails (see
/// `token_failure`): a start tag at that tag (see `start_tag_message`), text whose references
/// cannot be replaced with the message of the escape error.
pub open spec fn token_error(tokens: Seq<XmlToken>, k: int, elem: MathmlElement, style: TokenStyle) -> (Option<usize>, ErrorKind) {
    match token_failure(tokens, k, elem, style) {
        Some(j) => match tokens[j].event {
            XmlEvent::Start { name, .. } => (Some(tokens[j].position), ErrorKind::OtherError(start_tag_message(name@))),
            _ => (None, ErrorKind::OtherError(match unescape_from(run_text(tokens, j, run_end(tokens, j)), 0) {
                Err(x) => x.message_of(),
                Ok(_) => Seq::empty(),
            })),
        },
        None => (None, ErrorKind::OtherError(Seq::empty())),
    }
}

/// The error reading the element `elem` whose content starts at `pos` gives, where it is not
/// well formed (see `element_end`): the first error in the order of the events.
pub open spec fn element_error(
    tokens: Seq<XmlToken>,
    pos: int,
    elem: MathmlElement,
    attrs: Seq<(String, String)>,
) -> (Option<usize>, ErrorKind)
    decreases tokens.len() - pos, 3int,
{
    if pos < 0 || pos > tokens.len() {
        (None, ErrorKind::UnexpectedEndOfInput)
    } else {
        match elem.elem_type {
            ElementType::TokenElement => token_error(
                tokens,
                pos,
                elem,
                token_attributes_from(attrs, elem.identifier, default_token_attributes(), 0).token_style,
            ),
            ElementType::LayoutSchema { args: ArgumentRequirements::RequiredArguments(_) } => fixed_error(tokens, pos, elem),
            _ => list_error(tokens, pos, elem),
        }
    }
}

/// The error reading the children of a schema with a fixed number of them from `pos` gives:
/// the error among the children, or else the wrong number of them at the element's end tag.
pub open spec fn fixed_error(tokens: Seq<XmlToken>, pos: int, elem: MathmlElement) -> (Option<usize>, ErrorKind)
    decreases tokens.len() - pos, 2int,
{
    if pos < 0 || pos > tokens.len() {
        (None, ErrorKind::UnexpectedEndOfInput)
    } else {
        match list_scan(tokens, pos, elem, 0) {
            Some((e, c)) => (
                Some(error_position(tokens, e - 1)),
                ErrorKind::OtherError(wrong_count_message(name_of(elem.identifier), required_arguments(elem.identifier) as nat, c)),
            ),
            None => list_error(tokens, pos, elem),
        }
    }
}

/// The error reading the element whose start tag is at `k` gives (see `element_error`): an
/// element the parser does not know is an `UnknownElement` at its end tag, or the reader's
/// error for its missing end tag.
pub open spec fn sub_element_error(tokens: Seq<XmlToken>, k: int) -> (Option<usize>, ErrorKind)
    decreases tokens.len() - k, 0int,
{
    if k < 0 || k >= tokens.len() {
        (None, ErrorKind::UnexpectedEndOfInput)
    } else {
        match tokens[k].event {
            XmlEvent::Start { name, attributes } => match element_of_name(encode_utf8(name@)) {
                Some(sub) => element_error(tokens, k + 1, sub, attributes@),
                None => match matching_end(tokens, k + 1, name@, 0) {
                    Some(j) => (Some(tokens[j].position), ErrorKind::UnknownElement(name@)),
                    None => (
                        Some(error_position(tokens, tokens.len() as int)),
                        ErrorKind::XmlError(xml_missing_end_message(name@)),
                    ),
                },
            },
            _ => (Some(tokens[k].position), ErrorKind::OtherError("Expected a start tag."@)),
        }
    }
}

/// The error reading the children of `elem` from `k` gives (see `list_scan`): the first error
/// of a child, an end tag that is not the element's own, or the end of the events.
pub open spec fn list_error(tokens: Seq<XmlToken>, k: int, elem: MathmlElement) -> (Option<usize>, ErrorKind)
    decreases tokens.len() - k, 1int,
{
    if k < 0 || k > tokens.len() {
        (None, ErrorKind::UnexpectedEndOfInput)
    } else if k == tokens.len() {
        (Some(error_position(tokens, k)), ErrorKind::UnexpectedEndOfInput)
    } else {
        match tokens[k].event {
            XmlEvent::Start { .. } => match sub_element_end(tokens, k) {
                Some(e) => if e <= k || e > tokens.len() {
                    (None, ErrorKind::UnexpectedEndOfInput)
                } else {
                    list_error(tokens, e, elem)
                },
                None => sub_element_error(tokens, k),
            },
            XmlEvent::End { name } => (Some(tokens[k].position), ErrorKind::WrongEndElement(name@)),
            _ => list_error(tokens, k + 1, elem),
        }
    }
}

/// The table `b` keeps the entries of `a` and adds at most `extra` entries.
pub open spec fn extends_by(a: Seq<MathmlInfo>, b: Seq<MathmlInfo>, extra: int) -> bool {
    &&& a.len() <= b.len() <= a.len() + extra
    &&& b.take(a.len() as int) == a
}

/// Processing a row whose elements were all built after the first `l` entries keeps those
/// entries, the number of entries, and the user data of the elements.
proof fn lemma_row_result_frame(infos: Seq<MathmlInfo>, list: Seq<MathExpression>, n: int, k: int, rank: int, l: int)
    requires
        0 <= k <= list.len(),
        0 <= l <= infos.len(),
        forall|i: int| k <= i < list.len() ==> #[trigger] list[i].user_data >= l,
    ensures
        row_result(infos, list, n, k, rank).0.len() == infos.len(),
        row_result(infos, list, n, k, rank).0.take(l) == infos.take(l),
        row_result(infos, list, n, k, rank).1.len() == list.len() - k,
        forall|i: int|
            0 <= i < list.len() - k ==> (#[trigger] row_result(infos, list, n, k, rank).1[i]).user_data
                == list[k + i].user_data,
    decreases list.len() - k,
{
    if k < list.len() {
        let e = list[k];
        let space = is_space_at(infos, e);
        let (infos1, e1) = if space {
            (infos, e)
        } else {
            operator_step(infos, e, row_form(rank, n))
        };
        assert(infos1.len() == infos.len());
        assert(infos1.take(l) =~= infos.take(l));
        assert(e1.user_data == e.user_data);
        lemma_row_result_frame(infos1, list, n, k + 1, if space { rank } else { rank + 1 }, l);
        let rest = row_result(infos1, list, n, k + 1, if space { rank } else { rank + 1 });
        assert forall|i: int| 0 <= i < list.len() - k implies (#[trigger] (seq![e1] + rest.1)[i]).user_data
            == list[k + i].user_data by {
            if i > 0 {
                assert((seq![e1] + rest.1)[i] == rest.1[i - 1]);
            }
        }
    }
}

/// The position to report for an error found at `k`: that of the event at `k`, or of the last
/// event when `k` is past the end, or 0 when there are none.
pub open spec fn error_position(tokens: Seq<XmlToken>, k: int) -> usize {
    if 0 <= k < tokens.len() {
        tokens[k].position
    } else if tokens.len() > 0 {
        tokens.last().position
    } else {
        0
    }
}

/// The position to report for an error found at `k` (see `error_position`).
fn position_at(tokens: &[XmlToken], k: usize) -> (r: usize)
    ensures
        r == error_position(tokens@, k as int),
{
    if k < tokens.len() {
        tokens[k].position
    } else if tokens.len() > 0 {
        tokens[tokens.len() - 1].position
    } else {
        0
    }
}

/// Reads an element whose content starts at `pos` (after its start tag, or at the start of
/// the document) and builds its expression: a token from its fields (see `build_token`), a
/// row from its children with their operators processed (see `process_operators` and
/// `parse_list_schema`), or a schema from its fixed children (see `parse_fixed_schema`).
/// Succeeds exactly when the element is well formed (see `element_end`), and returns the
/// position after it; the new expressions get new entries in the context.
pub fn parse_element(
    tokens: &[XmlToken],
    pos: usize,
    elem: MathmlElement,
    attributes: &[(String, String)],
    context: &mut ParseContext,
) -> (r: Result<(MathExpression, usize), ParsingError>)
    requires
        old(context).wf(),
        pos <= tokens@.len(),
        consistent_element(elem),
        old(context).infos().len() + 2 * (tokens@.len() - pos) + 2 < u64::MAX,
    ensures
        final(context).wf(),
        match r {
            Ok((e, end)) => {
                &&& element_end(tokens@, pos as int, elem, attributes@) == Some(end as int)
                &&& pos <= end <= tokens@.len()
                &&& extends_by(old(context).infos(), final(context).infos(), 2 * (end - pos) + 2)
                &&& old(context).infos().len() <= e.user_data < final(context).infos().len()
                &&& element_parses(tokens@, pos as int, elem, attributes@, old(context).infos(), final(context).infos(), e)
            },
            Err(e) => element_end(tokens@, pos as int, elem, attributes@) is None && parse_error(
                e,
                element_runs_out(tokens@, pos as int, elem),
            ) && e@ == element_error(tokens@, pos as int, elem, attributes@),
        },
    decreases tokens@.len() - pos, 3int,
{
    let ghost infos0 = context.infos();
    match elem.elem_type {
        ElementType::TokenElement => {
            let attrs = token_attributes(attributes, elem.identifier);
            let (fields, end) = match parse_token_contents(tokens, pos, elem, attrs.token_style) {
                Ok(x) => x,
                Err(e) => return Err(e),
            };
            let ghost field_seq = fields@;
            let e = match build_token(fields, elem, attrs, context) {
                Ok(e) => e,
                Err(e) => return Err(e),
            };
            proof {
                let infos2 = context.infos();
                assert(token::token_built(field_seq, elem, attrs, infos0, infos2, e));
                if attrs.horizontal_space is Some || field_seq.len() == 1 {
                    assert(infos2 == infos0.push(infos2.last()));
                }
                assert(infos2.take(infos0.len() as int) =~= infos0);
            }
            Ok((e, end))
        },
        ElementType::LayoutSchema { args: ArgumentRequirements::RequiredArguments(n) } => {
            let (args, end) = match parse_fixed_arguments(tokens, pos, elem, context) {
                Ok(x) => x,
                Err(e) => return Err(e),
            };
            let ghost infos1 = context.infos();
            let ghost arg_seq = args@;
            let e = parse_fixed_schema(args, elem, attributes, context);
            proof {
                let infos2 = context.infos();
                assert(super::parse_model::fixed_schema_built(arg_seq, elem.identifier, attributes@, infos1, infos2, e));
                assert(infos2.take(infos0.len() as int) =~= infos0);
            }
            Ok((e, end))
        },
        _ => {
            let (mut list, end) = match parse_element_list(tokens, pos, elem, context) {
                Ok(x) => x,
                Err(e) => return Err(e),
            };
            let ghost infos1 = context.infos();
            let ghost list1 = list@;
            process_operators(&mut list, context);
            proof {
                lemma_row_result_frame(infos1, list1, non_space_count(infos1, list1, 0) as int, 0, 0, infos0.len() as int);
                assert(context.infos().take(infos0.len() as int) =~= infos0);
            }
            let ghost infos2 = context.infos();
            let e = parse_list_schema(list, elem, context);
            proof {
                let infos3 = context.infos();
                assert(super::list_schema_built(
                    processed_row(infos1, list1).1,
                    elem,
                    processed_row(infos1, list1).0,
                    infos3,
                    e,
                ));
                assert(infos3.take(infos0.len() as int) =~= infos0);
            }
            Ok((e, end))
        },
    }
}

/// The end tag that closes a start tag named `name` whose content starts at `from` (see
/// `matching_end`), as the reader skips an element it does not know.
fn find_matching_end(tokens: &[XmlToken], from: usize, name: &String) -> (r: Option<usize>)
    requires
        from <= tokens@.len(),
    ensures
        match matching_end(tokens@, from as int, name@, 0) {
            Some(j) => r == Some(j as usize),
            None => r is None,
        },
{
    let target = str_to_chars(name.as_str());
    let mut k: usize = from;
    let mut depth: usize = 0;
    while k < tokens.len()
        invariant
            from <= k <= tokens@.len(),
            depth <= k - from,
            target@ == name@,
            matching_end(tokens@, from as int, name@, 0) == matching_end(tokens@, k as int, name@, depth as nat),
        decreases tokens@.len() - k,
    {
        match &tokens[k].event {
            XmlEvent::Start { name: n, .. } => {
                if chars_eq(str_to_chars(n.as_str()).as_slice(), target.as_slice()) {
                    depth = depth + 1;
                }
            },
            XmlEvent::End { name: n } => {
                if chars_eq(str_to_chars(n.as_str()).as_slice(), target.as_slice()) {
                    if depth == 0 {
                        return Some(k);
                    }
                    depth = depth - 1;
                }
            },
            _ => {},
        }
        k = k + 1;
    }
    None
}

/// The error for an element named `name` that the parser does not know, whose content starts
/// at `from`: `UnknownElement` at its end tag, or, when it has none, the error of the reader
/// for an end tag missing at the end of the input (see `missing_end_message`).
fn unknown_element_error(tokens: &[XmlToken], from: usize, name: &String) -> (e: ParsingError)
    requires
        from <= tokens@.len(),
    ensures
        match matching_end(tokens@, from as int, name@, 0) {
            Some(j) => e.position == Some(tokens@[j].position) && (e.error_type matches ErrorType::UnknownElement(n)
                && n@ == name@),
            None => e.position == Some(error_position(tokens@, tokens@.len() as int)) && (e.error_type matches ErrorType::XmlError(
                m,
            ) && m@ == xml_missing_end_message(name@)),
        },
{
    proof {
        lemma_matching_end_bounds(tokens@, from as int, name@, 0);
    }
    match find_matching_end(tokens, from, name) {
        Some(j) => {
            let element = name.clone();
            ParsingError::of_type(tokens[j].position, ErrorType::UnknownElement(element))
        },
        None => ParsingError::of_type(position_at(tokens, tokens.len()), ErrorType::XmlError(missing_end_message(name))),
    }
}

/// The end tag that `matching_end` finds lies within the events, from `k` on.
proof fn lemma_matching_end_bounds(tokens: Seq<XmlToken>, k: int, name: Seq<char>, depth: nat)
    ensures
        matching_end(tokens, k, name, depth) matches Some(j) ==> k <= j < tokens.len(),
    decreases tokens.len() - k,
{
    if 0 <= k < tokens.len() {
        match tokens[k].event {
            XmlEvent::Start { name: n, .. } => if n@ == name {
                lemma_matching_end_bounds(tokens, k + 1, name, depth + 1);
            } else {
                lemma_matching_end_bounds(tokens, k + 1, name, depth);
            },
            XmlEvent::End { name: n } => if n@ == name && depth > 0 {
                lemma_matching_end_bounds(tokens, k + 1, name, (depth - 1) as nat);
            } else if n@ != name {
                lemma_matching_end_bounds(tokens, k + 1, name, depth);
            },
            _ => lemma_matching_end_bounds(tokens, k + 1, name, depth),
        }
    }
}

/// Reads the element whose start tag is at `k` (see `sub_element_end`): an element the
/// parser does not know is skipped up to its end tag and is an `UnknownElement` error with its
/// name, at that end tag.
pub fn parse_sub_element(tokens: &[XmlToken], k: usize, context: &mut ParseContext) -> (r: Result<(MathExpression, usize), ParsingError>)
    requires
        old(context).wf(),
        k < tokens@.len(),
        old(context).infos().len() + 2 * (tokens@.len() - k) < u64::MAX,
    ensures
        final(context).wf(),
        match r {
            Ok((e, end)) => {
                &&& sub_element_end(tokens@, k as int) == Some(end as int)
                &&& k < end <= tokens@.len()
                &&& extends_by(old(context).infos(), final(context).infos(), 2 * (end - k))
                &&& old(context).infos().len() <= e.user_data < final(context).infos().len()
                &&& sub_element_parses(tokens@, k as int, old(context).infos(), final(context).infos(), e)
            },
            Err(e) => sub_element_end(tokens@, k as int) is None && parse_error(e, sub_element_runs_out(tokens@, k as int))
                && e@ == sub_element_error(tokens@, k as int),
        },
        match tokens@[k as int].event {
            XmlEvent::Start { name, .. } => element_of_name(encode_utf8(name@)) is None ==> (r matches Err(e)
                && match matching_end(tokens@, k + 1, name@, 0) {
                Some(j) => e.position == Some(tokens@[j].position) && (e.error_type matches ErrorType::UnknownElement(
                    n,
                ) && n@ == name@),
                None => e.position == Some(error_position(tokens@, tokens@.len() as int)) && (e.error_type matches ErrorType::XmlError(
                    m,
                ) && m@ == xml_missing_end_message(name@)),
            }),
            _ => true,
        },
    decreases tokens@.len() - k, 0int,
{
    match &tokens[k].event {
        XmlEvent::Start { name, attributes } => {
            let bytes = name.as_str().as_bytes();
            proof {
                lemma_known_consistent(bytes@);
            }
            match match_math_element(bytes) {
                Some(sub) => {
                    let r = parse_element(tokens, k + 1, sub, attributes.as_slice(), context);
                    proof {
                        assert(sub_element_end(tokens@, k as int) == element_end(tokens@, k + 1, sub, attributes@));
                        assert(sub_element_runs_out(tokens@, k as int) == element_runs_out(tokens@, k + 1, sub));
                    }
                    r
                },
                None => {
                    proof {
                        assert(sub_element_end(tokens@, k as int) is None);
                        assert(sub_element_runs_out(tokens@, k as int) == matching_end(tokens@, k + 1, name@, 0) is None);
                    }
                    Err(unknown_element_error(tokens, k + 1, name))
                },
            }
        },
        _ => {
            let mut message = String::new();
            message.append("Expected a start tag.");
            Err(ParsingError::from_string(tokens[k].position, message))
        },
    }
}

/// Reads the children of `elem` from `pos` up to its end tag (or the end of the document):
/// succeeds exactly when they are well formed (see `list_scan`), with the children's
/// expressions in order and the position after the element.
pub fn parse_element_list(
    tokens: &[XmlToken],
    pos: usize,
    elem: MathmlElement,
    context: &mut ParseContext,
) -> (r: Result<(Vec<MathExpression>, usize), ParsingError>)
    requires
        old(context).wf(),
        pos <= tokens@.len(),
        old(context).infos().len() + 2 * (tokens@.len() - pos) + 2 < u64::MAX,
    ensures
        final(context).wf(),
        match r {
            Ok((list, end)) => {
                &&& list_scan(tokens@, pos as int, elem, 0) == Some((end as int, list@.len()))
                &&& !list_runs_out(tokens@, pos as int, elem)
                &&& children_parse(tokens@, pos as int, elem, old(context).infos(), final(context).infos(), list@)
                &&& pos <= end <= tokens@.len()
                &&& extends_by(old(context).infos(), final(context).infos(), 2 * (end - pos))
                &&& forall|i: int|
                    0 <= i < list@.len() ==> old(context).infos().len() <= (#[trigger] list@[i]).user_data
                        < final(context).infos().len()
            },
            Err(e) => list_scan(tokens@, pos as int, elem, 0) is None && parse_error(
                e,
                list_runs_out(tokens@, pos as int, elem),
            ) && e@ == list_error(tokens@, pos as int, elem),
        },
    decreases tokens@.len() - pos, 1int,
{
    let ghost infos0 = context.infos();
    let mut list: Vec<MathExpression> = Vec::new();
    let mut k: usize = pos;
    assert(infos0.take(infos0.len() as int) =~= infos0);
    assert forall|after: Seq<MathmlInfo>, rest: Seq<MathExpression>|
        #[trigger] children_parse(tokens@, pos as int, elem, infos0, after, rest) implies children_parse(
            tokens@,
            pos as int,
            elem,
            infos0,
            after,
            list@ + rest,
        ) by {
        assert(list@ + rest =~= rest);
    }
    loop
        invariant
            context.wf(),
            pos <= k <= tokens@.len(),
            infos0 == old(context).infos(),
            infos0.len() + 2 * (tokens@.len() - pos) + 2 < u64::MAX,
            extends_by(infos0, context.infos(), 2 * (k - pos)),
            forall|i: int|
                0 <= i < list@.len() ==> infos0.len() <= (#[trigger] list@[i]).user_data
                    < context.infos().len(),
            list_scan(tokens@, pos as int, elem, 0) == list_scan(tokens@, k as int, elem, list@.len()),
            list_runs_out(tokens@, pos as int, elem) == list_runs_out(tokens@, k as int, elem),
            list_error(tokens@, pos as int, elem) == list_error(tokens@, k as int, elem),
            forall|after: Seq<MathmlInfo>, rest: Seq<MathExpression>|
                #[trigger] children_parse(tokens@, k as int, elem, context.infos(), after, rest) ==> children_parse(
                    tokens@,
                    pos as int,
                    elem,
                    infos0,
                    after,
                    list@ + rest,
                ),
        decreases tokens@.len() - k,
    {
        if k >= tokens.len() {
            if elem.elem_type == ElementType::MathmlRoot {
                proof {
                    let cur = context.infos();
                    assert(children_parse(tokens@, k as int, elem, cur, cur, Seq::empty()));
                    assert(list@ + Seq::<MathExpression>::empty() =~= list@);
                }
                return Ok((list, k));
            }
            return Err(ParsingError::of_type(position_at(tokens, k), ErrorType::UnexpectedEndOfInput));
        }
        match &tokens[k].event {
            XmlEvent::Start { .. } => {
                let ghost before = context.infos();
                let (e, end) = match parse_sub_element(tokens, k, context) {
                    Ok(x) => x,
                    Err(err) => return Err(err),
                };
                proof {
                    let after = context.infos();
                    assert(after.take(infos0.len() as int) =~= before.take(infos0.len() as int));
                }
                let ghost prefix = list@;
                list.push(e);
                proof {
                    let mid = context.infos();
                    assert forall|after: Seq<MathmlInfo>, rest: Seq<MathExpression>|
                        #[trigger] children_parse(tokens@, end as int, elem, mid, after, rest) implies children_parse(
                            tokens@,
                            pos as int,
                            elem,
                            infos0,
                            after,
                            list@ + rest,
                        ) by {
                        let whole = seq![e] + rest;
                        assert(whole[0] == e);
                        assert(whole.drop_first() =~= rest);
                        assert(extends_by(before, mid, 2 * (end - k)));
                        assert(children_parse(tokens@, k as int, elem, before, after, whole));
                        assert(prefix + whole =~= list@ + rest);
                    }
                }
                k = end;
            },
            XmlEvent::End { name } => {
                if elem.elem_type == ElementType::MathmlRoot {
                    return Err(ParsingError::of_type(tokens[k].position, ErrorType::WrongEndElement(name.clone())));
                }
                if is_name_of(name, elem) {
                    proof {
                        let cur = context.infos();
                        assert(children_parse(tokens@, k as int, elem, cur, cur, Seq::empty()));
                        assert(list@ + Seq::<MathExpression>::empty() =~= list@);
                    }
                    return Ok((list, k + 1));
                }
                return Err(ParsingError::of_type(tokens[k].position, ErrorType::WrongEndElement(name.clone())));
            },
            _ => {
                proof {
                    let cur = context.infos();
                    assert forall|after: Seq<MathmlInfo>, rest: Seq<MathExpression>|
                        #[trigger] children_parse(tokens@, k + 1, elem, cur, after, rest) implies children_parse(
                            tokens@,
                            pos as int,
                            elem,
                            infos0,
                            after,
                            list@ + rest,
                        ) by {
                        assert(children_parse(tokens@, k as int, elem, cur, after, rest));
                    }
                }
                k = k + 1;
            },
        }
    }
}

/// Reads the children of a schema with a fixed number of them: exactly that many, or an
/// error whose message names the element, the number it needs and the number it has (see
/// `wrong_count_message`), at the position after the element.
pub fn parse_fixed_arguments(
    tokens: &[XmlToken],
    pos: usize,
    elem: MathmlElement,
    context: &mut ParseContext,
) -> (r: Result<(Vec<MathExpression>, usize), ParsingError>)
    requires
        old(context).wf(),
        pos <= tokens@.len(),
        elem.elem_type matches ElementType::LayoutSchema { args: ArgumentRequirements::RequiredArguments(n) }
            && required_arguments(elem.identifier) == n as int && n > 0,
        old(context).infos().len() + 2 * (tokens@.len() - pos) + 2 < u64::MAX,
    ensures
        final(context).wf(),
        match r {
            Ok((list, end)) => {
                &&& list_scan(tokens@, pos as int, elem, 0) == Some((end as int, list@.len()))
                &&& list@.len() == required_arguments(elem.identifier)
                &&& children_parse(tokens@, pos as int, elem, old(context).infos(), final(context).infos(), list@)
                &&& pos <= end <= tokens@.len()
                &&& extends_by(old(context).infos(), final(context).infos(), 2 * (end - pos))
                &&& forall|i: int|
                    0 <= i < list@.len() ==> old(context).infos().len() <= (#[trigger] list@[i]).user_data
                        < final(context).infos().len()
            },
            Err(e) => {
                &&& parse_error(e, list_runs_out(tokens@, pos as int, elem))
                &&& e@ == fixed_error(tokens@, pos as int, elem)
                &&& match list_scan(tokens@, pos as int, elem, 0) {
                    Some((end, c)) => {
                        &&& c != required_arguments(elem.identifier)
                        &&& e.position == Some(error_position(tokens@, end - 1))
                        &&& e.error_type matches ErrorType::OtherError(m) && m@ == wrong_count_message(
                            name_of(elem.identifier),
                            required_arguments(elem.identifier) as nat,
                            c,
                        )
                    },
                    None => true,
                }
            },
        },
    decreases tokens@.len() - pos, 2int,
{
    let required: u8 = match elem.elem_type {
        ElementType::LayoutSchema { args: ArgumentRequirements::RequiredArguments(n) } => n,
        _ => 0,
    };
    let (args, end) = match parse_element_list(tokens, pos, elem, context) {
        Ok(x) => x,
        Err(e) => return Err(e),
    };
    if args.len() == required as usize {
        Ok((args, end))
    } else {
        let message = wrong_count_text(elem.identifier.identifier_str(), required as u64, args.len() as u64);
        let at = if end > 0 {
            end - 1
        } else {
            tokens.len()
        };
        Err(ParsingError::of_type(position_at(tokens, at), ErrorType::OtherError(message)))
    }
}

/// The events of a document are too many for this parser (never so for an input that fits
/// in memory).
pub open spec fn too_many_tokens(n: nat) -> bool {
    n >= 0x1000_0000_0000_0000
}

/// The error reading a document from the events `tokens` gives, where it is not well formed:
/// the first error in the order of the events (see `element_error`), or too many events.
pub open spec fn document_error(tokens: Seq<XmlToken>) -> (Option<usize>, ErrorKind) {
    if too_many_tokens(tokens.len()) {
        (None, ErrorKind::OtherError("Too many XML events."@))
    } else {
        element_error(tokens, 0, root_element(), Seq::empty())
    }
}

/// An error for events that run out (see `running_out`) reported at the end of the input,
/// `end`; other errors as they are.
pub open spec fn reported_at_end(v: (Option<usize>, ErrorKind), end: usize) -> (Option<usize>, ErrorKind) {
    if v.1 is UnexpectedEndOfInput || v.1 is XmlError {
        (Some(end), v.1)
    } else {
        v
    }
}

/// Builds the expression of a document from its events: its top-level elements as one row.
/// Succeeds exactly when the document is well formed (see `element_end`); fails otherwise with
/// the first error in the order of the events (see `document_error`).
pub fn parse_tokens(tokens: &[XmlToken]) -> (r: Result<MathExpression, ParsingError>)
    ensures
        r is Ok <==> !too_many_tokens(tokens@.len()) && element_end(
            tokens@,
            0,
            MathmlElement { identifier: ElementName::Root, elem_type: ElementType::MathmlRoot },
            Seq::empty(),
        ) is Some,
        r matches Ok(e) ==> document_parses(tokens@, e),
        r matches Err(e) ==> parse_error(
            e,
            !too_many_tokens(tokens@.len()) && element_runs_out(tokens@, 0, root_element()),
        ) && e@ == document_error(tokens@),
{
    if tokens.len() as u64 >= 0x1000_0000_0000_0000u64 {
        let mut message = String::new();
        let text = "Too many XML events.";
        message.append(text);
        assert(message@ =~= text@);
        return Err(ParsingError::from_message(message));
    }
    let mut context = ParseContext::new();
    let root = MathmlElement::root();
    let no_attributes: Vec<(String, String)> = Vec::new();
    assert(no_attributes@ =~= Seq::<(String, String)>::empty());
    match parse_element(tokens, 0, root, no_attributes.as_slice(), &mut context) {
        Ok((e, _)) => {
            assert(element_parses(tokens@, 0, root_element(), Seq::empty(), Seq::empty(), context.infos(), e));
            Ok(e)
        },
        Err(e) => Err(e),
    }
}

/// The XML reader of `quick_xml` over bytes in memory.
#[verifier::external_type_specification]
#[verifier::external_body]
#[verifier::reject_recursive_types(R)]
pub struct ExReader<R>(quick_xml::Reader<R>);

/// A start tag as `quick_xml` reads it.
#[verifier::external_type_specification]
#[verifier::external_body]
pub struct ExBytesStart<'a>(quick_xml::events::BytesStart<'a>);

/// The attributes of a start tag, as `quick_xml` iterates them.
#[verifier::external_type_specification]
#[verifier::external_body]
pub struct ExAttributes<'a>(XmlAttributes<'a>);

/// An attribute as `quick_xml` reads it.
#[verifier::external_type_specification]
#[verifier::external_body]
pub struct ExAttribute<'a>(quick_xml::events::attributes::Attribute<'a>);

/// A malformed attribute, as `quick_xml` reports it.
#[verifier::external_type_specification]
#[verifier::external_body]
pub struct ExAttrError(quick_xml::events::attributes::AttrError);

/// What one read of the XML reader gives, as plain values: a start tag (whose name and
/// attributes are read separately), an end tag's name, text, a general reference's name,
/// another event, the end of the input, or an error's message.
pub enum EventView {
    Start,
    End(Seq<char>),
    Text(Seq<char>),
    Reference(Seq<char>),
    Other,
    Eof,
    Error(Seq<char>),
}

/// What one step through the attributes of a start tag gives, as plain values.
pub enum AttributeView {
    Attribute(Seq<char>, Seq<char>),
    Malformed,
    End,
}

/// The message `quick_xml` gives for a start tag named `name` whose end tag is not found before
/// the end of the input (`IllFormedError::MissingEndTag`, as its reader's `read_to_end`
/// reports it).
pub uninterp spec fn xml_missing_end_message(name: Seq<char>) -> Seq<char>;

/// The text of `quick_xml::Error::IllFormed(IllFormedError::MissingEndTag(name))`: the error the
/// reader gives when it skips an element named `name` and reaches the end of the input first.
#[verifier::external_body]
fn missing_end_message(name: &String) -> (r: String)
    ensures
        r@ == xml_missing_end_message(name@),
{
    quick_xml::Error::IllFormed(quick_xml::errors::IllFormedError::MissingEndTag(name.clone())).to_string()
}

/// The event that `quick_xml`'s reader over `input`, set up as `new_reader` sets it up, gives
/// on its read number `index` (counting from 0).
pub uninterp spec fn xml_event(input: Seq<u8>, index: nat) -> EventView;

/// The byte offset `quick_xml`'s reader over `input` reports after `index` reads.
pub uninterp spec fn xml_offset(input: Seq<u8>, index: nat) -> u64;

/// The tag name of the start tag that read number `index` of `input` gives.
pub uninterp spec fn xml_tag_name(input: Seq<u8>, index: nat) -> Seq<char>;

/// Step number `j` through the attributes of the start tag that read number `index` of
/// `input` gives.
pub uninterp spec fn xml_attribute(input: Seq<u8>, index: nat, j: nat) -> AttributeView;

/// The XML reader over an input, with the input and the number of reads made so far.
pub struct EventReader<'a> {
    reader: quick_xml::Reader<&'a [u8]>,
    input: Ghost<Seq<u8>>,
    count: Ghost<nat>,
}

/// A start tag, with the input and the number of the read that gave it.
pub struct StartTag<'a> {
    tag: quick_xml::events::BytesStart<'a>,
    input: Ghost<Seq<u8>>,
    index: Ghost<nat>,
}

/// The attributes of a start tag, with the input, the number of the read that gave the tag,
/// and the number of steps made so far.
pub struct AttributeCursor<'a> {
    attributes: XmlAttributes<'a>,
    input: Ghost<Seq<u8>>,
    index: Ghost<nat>,
    read: Ghost<nat>,
}

/// An event as the XML reader gives it.
pub enum RawEvent<'a> {
    Start(StartTag<'a>),
    End(String),
    Text(String),
    Reference(String),
    Other,
    Eof,
    Error(String),
}

/// The plain values of an event.
pub open spec fn event_view(e: RawEvent) -> EventView {
    match e {
        RawEvent::Start(_) => EventView::Start,
        RawEvent::End(s) => EventView::End(s@),
        RawEvent::Text(s) => EventView::Text(s@),
        RawEvent::Reference(s) => EventView::Reference(s@),
        RawEvent::Other => EventView::Other,
        RawEvent::Eof => EventView::Eof,
        RawEvent::Error(s) => EventView::Error(s@),
    }
}

/// An attribute as the XML reader gives it.
pub enum RawAttribute {
    Attribute(String, String),
    Malformed,
    End,
}

/// The plain values of an attribute step.
pub open spec fn attribute_view(a: RawAttribute) -> AttributeView {
    match a {
        RawAttribute::Attribute(k, v) => AttributeView::Attribute(k@, v@),
        RawAttribute::Malformed => AttributeView::Malformed,
        RawAttribute::End => AttributeView::End,
    }
}

/// `quick_xml::Reader::from_reader` on the input, configured to trim white space around text
/// and to report an empty element as a start tag followed by an end tag; no read made yet.
#[verifier::external_body]
fn new_reader<'a>(input: &'a [u8]) -> (r: EventReader<'a>)
    ensures
        r.input@ == input@,
        r.count@ == 0,
{
    let mut reader = quick_xml::Reader::from_reader(input);
    reader.config_mut().trim_text(true);
    reader.config_mut().expand_empty_elements = true;
    EventReader { reader, input: Ghost(input@), count: Ghost(0) }
}

/// `quick_xml::Reader::buffer_position`: the byte offset the reader has reached, which
/// depends on the input and the number of reads made.
#[verifier::external_body]
fn buffer_position(reader: &EventReader) -> (r: u64)
    ensures
        r == xml_offset(reader.input@, reader.count@),
{
    reader.reader.buffer_position()
}

/// `quick_xml::Reader::read_event`: the next event (see `xml_event`), with end tags, text and
/// references converted to their names and text, and an error to its message.
#[verifier::external_body]
fn read_event<'a>(reader: &mut EventReader<'a>) -> (r: RawEvent<'a>)
    ensures
        final(reader).input@ == old(reader).input@,
        final(reader).count@ == old(reader).count@ + 1,
        event_view(r) == xml_event(old(reader).input@, old(reader).count@),
        r matches RawEvent::Start(t) ==> t.input@ == old(reader).input@ && t.index@ == old(reader).count@,
{
    let input = Ghost(reader.input@);
    let index = Ghost(reader.count@);
    reader.count = Ghost(reader.count@ + 1);
    match reader.reader.read_event() {
        Ok(ReadEvent::Start(e)) => RawEvent::Start(StartTag { tag: e, input, index }),
        Ok(ReadEvent::End(e)) => RawEvent::End(e.name().into_inner().to_owned()),
        Ok(ReadEvent::Text(e)) => RawEvent::Text(e.into_inner().into_owned()),
        Ok(ReadEvent::GeneralRef(e)) => RawEvent::Reference(e.into_inner().into_owned()),
        Ok(ReadEvent::Eof) => RawEvent::Eof,
        Ok(_) => RawEvent::Other,
        Err(e) => RawEvent::Error(e.to_string()),
    }
}

/// `quick_xml::events::BytesStart::name`: the tag name of a start tag (see `xml_tag_name`).
#[verifier::external_body]
fn start_name(t: &StartTag) -> (r: String)
    ensures
        r@ == xml_tag_name(t.input@, t.index@),
{
    t.tag.name().into_inner().to_owned()
}

/// `quick_xml::events::BytesStart::attributes`: the attributes of a start tag, before the
/// first step.
#[verifier::external_body]
fn start_attributes<'b>(t: &'b StartTag) -> (r: AttributeCursor<'b>)
    ensures
        r.input@ == t.input@,
        r.index@ == t.index@,
        r.read@ == 0,
{
    AttributeCursor { attributes: t.tag.attributes(), input: Ghost(t.input@), index: Ghost(t.index@), read: Ghost(0) }
}

/// `Iterator::next` of `quick_xml`'s attributes: the next attribute as its name and raw
/// value, a malformed one, or the end (see `xml_attribute`).
#[verifier::external_body]
fn next_attribute(c: &mut AttributeCursor) -> (r: RawAttribute)
    ensures
        final(c).input@ == old(c).input@,
        final(c).index@ == old(c).index@,
        final(c).read@ == old(c).read@ + 1,
        attribute_view(r) == xml_attribute(old(c).input@, old(c).index@, old(c).read@),
{
    c.read = Ghost(c.read@ + 1);
    match c.attributes.next() {
        Some(Ok(a)) => RawAttribute::Attribute(a.key.into_inner().to_owned(), a.value.into_owned()),
        Some(Err(_)) => RawAttribute::Malformed,
        None => RawAttribute::End,
    }
}

/// The well-formed attributes of start tag `index` of `input` among the first `fuel` steps
/// from step `j`; reading stops at the end.
pub open spec fn kept_attributes(input: Seq<u8>, index: nat, j: nat, fuel: nat) -> Seq<(Seq<char>, Seq<char>)>
    decreases fuel,
{
    if fuel == 0 {
        Seq::empty()
    } else {
        match xml_attribute(input, index, j) {
            AttributeView::Attribute(k, v) => seq![(k, v)] + kept_attributes(input, index, j + 1, (fuel - 1) as nat),
            AttributeView::Malformed => kept_attributes(input, index, j + 1, (fuel - 1) as nat),
            AttributeView::End => Seq::empty(),
        }
    }
}

/// The plain values of a list of attributes.
pub open spec fn attributes_view(a: Seq<(String, String)>) -> Seq<(Seq<char>, Seq<char>)> {
    a.map_values(|p: (String, String)| (p.0@, p.1@))
}

/// The well-formed attributes of a start tag, in order; malformed ones are skipped. At most
/// `limit` steps are made.
fn read_attributes(t: &StartTag, limit: usize) -> (r: Vec<(String, String)>)
    ensures
        r@.len() <= limit,
        attributes_view(r@) == kept_attributes(t.input@, t.index@, 0, limit as nat),
{
    let mut attributes = start_attributes(t);
    let mut result: Vec<(String, String)> = Vec::new();
    let mut fuel = limit;
    assert(attributes_view(result@) + kept_attributes(t.input@, t.index@, 0, limit as nat) =~= kept_attributes(
        t.input@,
        t.index@,
        0,
        limit as nat,
    ));
    while fuel > 0
        invariant_except_break
            kept_attributes(t.input@, t.index@, 0, limit as nat) == attributes_view(result@) + kept_attributes(
                t.input@,
                t.index@,
                attributes.read@,
                fuel as nat,
            ),
        invariant
            result@.len() + fuel <= limit,
            attributes.input@ == t.input@,
            attributes.index@ == t.index@,
        ensures
            kept_attributes(t.input@, t.index@, 0, limit as nat) == attributes_view(result@),
        decreases fuel,
    {
        let ghost before = result@;
        let ghost j = attributes.read@;
        fuel = fuel - 1;
        match next_attribute(&mut attributes) {
            RawAttribute::Attribute(name, value) => {
                result.push((name, value));
                proof {
                    assert(attributes_view(result@) =~= attributes_view(before) + seq![(name@, value@)]);
                }
            },
            RawAttribute::Malformed => {},
            RawAttribute::End => {
                proof {
                    assert(attributes_view(result@) + Seq::<(Seq<char>, Seq<char>)>::empty() =~= attributes_view(result@));
                }
                break;
            },
        }
        proof {
            if fuel == 0 {
                assert(attributes_view(result@) + Seq::<(Seq<char>, Seq<char>)>::empty() =~= attributes_view(result@));
            }
        }
    }
    result
}

/// How reading the events of `input` from read `k` ends within `fuel` reads: at the end of the
/// input after `count` reads, with an error at read `at`, or not at all.
pub enum StreamEnd {
    Finished(nat),
    Failed(nat, Seq<char>),
    TooMany,
}

/// How reading the events of `input` from read `k` ends within `fuel` reads.
pub open spec fn stream_end(input: Seq<u8>, k: nat, fuel: nat) -> StreamEnd
    decreases fuel,
{
    if fuel == 0 {
        StreamEnd::TooMany
    } else {
        match xml_event(input, k) {
            EventView::Eof => StreamEnd::Finished(k),
            EventView::Error(m) => StreamEnd::Failed(k, m),
            _ => stream_end(input, k + 1, (fuel - 1) as nat),
        }
    }
}

/// The number of attribute steps made for each start tag of an input of `n` bytes.
pub open spec fn attribute_limit(n: nat) -> nat {
    if n < usize::MAX {
        n + 1
    } else {
        n
    }
}

/// The number of reads allowed for an input of `n` bytes.
pub open spec fn read_limit(n: nat) -> nat {
    2 * n + 2
}

/// `t` is the token for read number `i` of `input`: at the offset after the read, holding the
/// event read (a start tag with its name and kept attributes).
pub open spec fn token_matches(t: XmlToken, input: Seq<u8>, i: nat) -> bool {
    &&& t.position == xml_offset(input, i + 1) as usize
    &&& match xml_event(input, i) {
        EventView::Start => t.event matches XmlEvent::Start { name, attributes } && name@ == xml_tag_name(input, i)
            && attributes_view(attributes@) == kept_attributes(input, i, 0, attribute_limit(input.len())),
        EventView::End(n) => t.event matches XmlEvent::End { name } && name@ == n,
        EventView::Text(x) => t.event matches XmlEvent::Text(s) && s@ == x,
        EventView::Reference(x) => t.event matches XmlEvent::Reference(s) && s@ == x,
        EventView::Other => t.event is Other,
        _ => false,
    }
}

/// `tokens` are the tokens of the first reads of `input`, one for each read.
pub open spec fn tokens_match(input: Seq<u8>, tokens: Seq<XmlToken>) -> bool {
    forall|i: int| 0 <= i < tokens.len() ==> token_matches(#[trigger] tokens[i], input, i as nat)
}

/// `tokens` are the events of `input`: one for each read before the end of the input,
/// which comes within `read_limit` reads without an error.
pub open spec fn tokens_read(input: Seq<u8>, tokens: Seq<XmlToken>) -> bool {
    &&& stream_end(input, 0, read_limit(input.len())) == StreamEnd::Finished(tokens.len())
    &&& tokens_match(input, tokens)
}

/// Reads the events of an XML document (see `tokens_read`), with the reader's failure if it
/// fails: the events read before the failure come with it. Every event but the one that
/// closes an empty element consumes input, so there are fewer than twice as many events as
/// bytes; a reader that gives more fails with an error. An error of the reader is an
/// `XmlError` at the offset the reader reached with the failed read. The offset the reader
/// reached at the end of the input comes last.
pub fn read_events(input: &[u8]) -> (r: (Vec<XmlToken>, Option<ParsingError>, usize))
    ensures
        r.0@.len() <= 2 * input@.len() + 2,
        tokens_match(input@, r.0@),
        input@.len() >= 0x1000_0000_0000_0000 ==> (r.1 matches Some(e) && e.error_type is OtherError),
        input@.len() < 0x1000_0000_0000_0000 ==> match stream_end(input@, 0, read_limit(input@.len())) {
            StreamEnd::Finished(c) => r.1 is None && r.0@.len() == c && r.2 == xml_offset(input@, c + 1) as usize,
            StreamEnd::Failed(k, m) => r.0@.len() == k && (r.1 matches Some(e) && e.position == Some(
                xml_offset(input@, k + 1) as usize,
            ) && (e.error_type matches ErrorType::XmlError(x) && x@ == m)),
            StreamEnd::TooMany => r.1 matches Some(e) && e.error_type is OtherError,
        },
{
    let mut tokens: Vec<XmlToken> = Vec::new();
    if input.len() as u64 >= 0x1000_0000_0000_0000u64 {
        let mut message = String::new();
        message.append("Input too large.");
        return (tokens, Some(ParsingError::from_message(message)), 0);
    }
    let mut reader = new_reader(input);
    let attr_limit: usize = if input.len() < usize::MAX {
        input.len() + 1
    } else {
        input.len()
    };
    let mut fuel: u64 = input.len() as u64 * 2 + 2;
    while fuel > 0
        invariant
            tokens@.len() + fuel == 2 * input@.len() + 2,
            input@.len() < 0x1000_0000_0000_0000,
            attr_limit == attribute_limit(input@.len()),
            reader.input@ == input@,
            reader.count@ == tokens@.len(),
            stream_end(input@, 0, read_limit(input@.len())) == stream_end(input@, tokens@.len(), fuel as nat),
            tokens_match(input@, tokens@),
        decreases fuel,
    {
        let ghost k = tokens@.len();
        fuel = fuel - 1;
        let event = read_event(&mut reader);
        #[verifier::truncate]
        let position = buffer_position(&reader) as usize;
        match event {
            RawEvent::Start(t) => {
                let name = start_name(&t);
                let attributes = read_attributes(&t, attr_limit);
                tokens.push(XmlToken { event: XmlEvent::Start { name, attributes }, position });
            },
            RawEvent::End(name) => tokens.push(XmlToken { event: XmlEvent::End { name }, position }),
            RawEvent::Text(text) => tokens.push(XmlToken { event: XmlEvent::Text(text), position }),
            RawEvent::Reference(name) => tokens.push(XmlToken { event: XmlEvent::Reference(name), position }),
            RawEvent::Other => tokens.push(XmlToken { event: XmlEvent::Other, position }),
            RawEvent::Eof => return (tokens, None, position),
            RawEvent::Error(message) => {
                return (tokens, Some(ParsingError::of_type(position, ErrorType::XmlError(message))), position);
            },
        }
        proof {
            assert(token_matches(tokens@[k as int], input@, k));
        }
    }
    let mut message = String::new();
    message.append("Too many XML events.");
    (tokens, Some(ParsingError::from_message(message)), 0)
}

/// Reading the document from the events `tokens` ends in no error of its own before they run
/// out: it succeeds, or it needs events after them. A failure of the reader after these events
/// is then what parsing the document gives; otherwise the parser's own error comes first.
pub open spec fn needs_more_events(tokens: Seq<XmlToken>) -> bool {
    &&& !too_many_tokens(tokens.len())
    &&& element_end(tokens, 0, root_element(), Seq::empty()) is Some || element_runs_out(tokens, 0, root_element())
}

/// Parses a MathML document: reads its events (see `read_events`) and builds the row of its
/// top-level elements from them (see `parse_tokens`). Succeeds exactly when the events are
/// read without an error and form a well-formed document. Where the reader fails, the events
/// before the failure are parsed first, and an error they already hold comes before the
/// reader's (see `needs_more_events`). A document that ends too early is an
/// `UnexpectedEndOfInput` (or, inside an element the parser skips, the reader's error for its
/// missing end tag) at the end of the input.
pub fn parse(input: &[u8]) -> (r: Result<MathExpression, ParsingError>)
    ensures
        input@.len() >= 0x1000_0000_0000_0000 ==> r is Err,
        r matches Ok(e) ==> exists|tokens: Seq<XmlToken>| #[trigger] tokens_read(input@, tokens) && document_parses(tokens, e),
        input@.len() < 0x1000_0000_0000_0000 ==> match stream_end(input@, 0, read_limit(input@.len())) {
            StreamEnd::Finished(c) => exists|tokens: Seq<XmlToken>|
                #[trigger] tokens_read(input@, tokens) && (r is Ok <==> !too_many_tokens(tokens.len()) && element_end(
                    tokens,
                    0,
                    root_element(),
                    Seq::empty(),
                ) is Some) && (r matches Err(e) ==> parse_error(
                    e,
                    !too_many_tokens(tokens.len()) && element_runs_out(tokens, 0, root_element()),
                )) && (r matches Err(e) ==> e@ == reported_at_end(document_error(tokens), xml_offset(input@, c + 1) as usize))
                    && (r matches Ok(e) ==> document_parses(tokens, e)),
            StreamEnd::Failed(k, m) => exists|tokens: Seq<XmlToken>|
                #[trigger] tokens_match(input@, tokens) && tokens.len() == k && (r matches Err(e) && if needs_more_events(
                    tokens,
                ) {
                    e.position == Some(xml_offset(input@, k + 1) as usize) && (e.error_type matches ErrorType::XmlError(x)
                        && x@ == m)
                } else {
                    parse_error(e, false) && e@ == document_error(tokens)
                }),
            StreamEnd::TooMany => r is Err,
        },
{
    let (tokens, failure, end) = read_events(input);
    match failure {
        None => {
            let r = match parse_tokens(tokens.as_slice()) {
                Ok(e) => Ok(e),
                Err(e) => match &e.error_type {
                    ErrorType::UnexpectedEndOfInput | ErrorType::XmlError(_) => Err(
                        ParsingError { position: Some(end), error_type: e.error_type },
                    ),
                    _ => Err(e),
                },
            };
            assert(tokens_read(input@, tokens@));
            r
        },
        Some(x) => {
            let r = match parse_tokens(tokens.as_slice()) {
                Ok(_) => Err(x),
                Err(e) => match &e.error_type {
                    ErrorType::UnexpectedEndOfInput | ErrorType::XmlError(_) => Err(x),
                    _ => Err(e),
                },
            };
            assert(tokens_match(input@, tokens@));
            r
        },
    }
}

} // verus!
