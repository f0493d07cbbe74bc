//! What the parser builds of a document: a relation between the XML events, a position, the
//! table of MathML information before and after, and the expression built, element by
//! element.
use vstd::prelude::*;

use super::operator::{non_space_count, row_result};
use super::token::token_built;
use super::xml_reader::{
    default_token_attributes, extends_by, field_has_text, sub_element_end, token_attributes_from,
    token_contents, XmlEvent, XmlToken,
};
use super::{
    element_of_name, fixed_schema_result, list_schema_built, name_of, ArgumentRequirements,
    ElementName, ElementType, MathmlElement, MathmlInfo,
};
use crate::types::{Field, MathExpression};
use vstd::utf8::encode_utf8;

verus! {

/// The element of the whole document.
pub open spec fn root_element() -> MathmlElement {
    MathmlElement { identifier: ElementName::Root, elem_type: ElementType::MathmlRoot }
}

/// `e` is what `parse_fixed_schema` builds of `content` with the table `before`, which it
/// extends to `after`.
pub open spec fn fixed_schema_built(
    content: Seq<MathExpression>,
    identifier: ElementName,
    attributes: Seq<(String, String)>,
    before: Seq<MathmlInfo>,
    after: Seq<MathmlInfo>,
    e: MathExpression,
) -> bool {
    let (i, item, inherited) = fixed_schema_result(content, identifier, attributes, before);
    &&& *e.item == item
    &&& e.user_data == i.len()
    &&& after == i.push(MathmlInfo { operator_attrs: inherited, is_space: false })
}

/// The row a list of children becomes once its operators are processed with the table
/// `infos` (see `row_result`): the new table and the new children.
pub open spec fn processed_row(infos: Seq<MathmlInfo>, list: Seq<MathExpression>) -> (Seq<MathmlInfo>, Seq<MathExpression>) {
    row_result(infos, list, non_space_count(infos, list, 0) as int, 0, 0)
}

/// `e` is the expression of the element `elem` whose content starts at `pos`, with the
/// attributes `attrs`, built with the table `before` into the table `after`: a token from the
/// text of its content (see `token_built`); a schema with a fixed number of children from
/// exactly that many children (see `fixed_schema_built`); any other schema from the row of its
/// children, operators processed (see `list_schema_built`).
pub open spec fn element_parses(
    tokens: Seq<XmlToken>,
    pos: int,
    elem: MathmlElement,
    attrs: Seq<(String, String)>,
    before: Seq<MathmlInfo>,
    after: Seq<MathmlInfo>,
    e: MathExpression,
) -> bool
    decreases tokens.len() - pos, 3int,
{
    if pos < 0 || pos > tokens.len() {
        false
    } else {
        match elem.elem_type {
            ElementType::TokenElement => {
                let attributes = token_attributes_from(attrs, elem.identifier, default_token_attributes(), 0);
                match token_contents(tokens, pos, elem, attributes.token_style) {
                    Some((texts, _)) => exists|fields: Seq<Field>|
                        #[trigger] token_built(fields, elem, attributes, before, after, e)
                            && fields.len() == texts.len()
                            && forall|i: int| 0 <= i < texts.len() ==> field_has_text(#[trigger] fields[i], texts[i]),
                    None => false,
                }
            },
            ElementType::LayoutSchema { args: ArgumentRequirements::RequiredArguments(n) } => exists|
                args: Seq<MathExpression>,
                mid: Seq<MathmlInfo>,
            |
                #[trigger] fixed_schema_built(args, elem.identifier, attrs, mid, after, e)
                    && args.len() == n
                    && children_parse(tokens, pos, elem, before, mid, args),
            _ => exists|list: Seq<MathExpression>, mid: Seq<MathmlInfo>|
                #[trigger] list_schema_built(processed_row(mid, list).1, elem, processed_row(mid, list).0, after, e)
                    && children_parse(tokens, pos, elem, before, mid, list),
        }
    }
}

/// `list` are the expressions of the children of `elem` read from `k` up to its end tag (or
/// the end of the document), built with the table `before` into the table `after`; text and
/// other events between children are skipped.
pub open spec fn children_parse(
    tokens: Seq<XmlToken>,
    k: int,
    elem: MathmlElement,
    before: Seq<MathmlInfo>,
    after: Seq<MathmlInfo>,
    list: Seq<MathExpression>,
) -> bool
    decreases tokens.len() - k, 1int,
{
    if k < 0 || k > tokens.len() {
        false
    } else if k == tokens.len() {
        elem.elem_type is MathmlRoot && after == before && list.len() == 0
    } else {
        match tokens[k].event {
            XmlEvent::Start { .. } => match sub_element_end(tokens, k) {
                Some(end) => k < end <= tokens.len() && list.len() > 0 && exists|mid: Seq<MathmlInfo>|
                    #[trigger] extends_by(before, mid, 2 * (end - k))
                        && sub_element_parses(tokens, k, before, mid, list[0])
                        && children_parse(tokens, end, elem, mid, after, list.drop_first()),
                None => false,
            },
            XmlEvent::End { name } => !(elem.elem_type is MathmlRoot) && name@ == name_of(elem.identifier)
                && after == before && list.len() == 0,
            _ => children_parse(tokens, k + 1, elem, before, after, list),
        }
    }
}

/// `e` is the expression of the element whose start tag is at `k`, a known element, built
/// with the table `before` into the table `after`.
pub open spec fn sub_element_parses(
    tokens: Seq<XmlToken>,
    k: int,
    before: Seq<MathmlInfo>,
    after: Seq<MathmlInfo>,
    e: MathExpression,
) -> bool
    decreases tokens.len() - k, 0int,
{
    if k < 0 || k >= tokens.len() {
        false
    } else {
        match tokens[k].event {
            XmlEvent::Start { name, attributes } => match element_of_name(encode_utf8(name@)) {
                Some(sub) => element_parses(tokens, k + 1, sub, attributes@, before, after, e),
                None => false,
            },
            _ => false,
        }
    }
}

/// `e` is the expression of a document with the events `tokens`: the row of its top-level
/// elements, built from an empty table.
pub open spec fn document_parses(tokens: Seq<XmlToken>, e: MathExpression) -> bool {
    exists|after: Seq<MathmlInfo>| #[trigger] element_parses(tokens, 0, root_element(), Seq::empty(), Seq::empty(), after, e)
}

} // verus!
