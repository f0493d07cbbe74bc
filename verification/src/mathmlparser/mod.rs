//! A parser for presentation MathML.
pub mod entities;
pub mod error;
pub mod number;
pub mod escape;
pub mod operator;
pub mod operator_dict;
pub mod parse_model;
pub mod token;
pub mod xml_reader;

pub use self::xml_reader::parse;

use vstd::prelude::*;

use self::number::{length_from_attribute, length_value};
use self::operator::{guess_if_operator_with_form, operator_step, Attributes, Form};
use crate::text::{bytes_eq, chars_eq, str_to_chars};
use crate::types::{
    Atom, Field, GeneralizedFraction, Length, MathExpression, MathItem, OverUnder, Root,
};

verus! {

/// The MathML elements this parser knows, and the root of a document.
#[derive(Debug, Clone, Copy, PartialEq, Eq, Structural)]
pub enum ElementName {
    Mi,
    Mo,
    Mn,
    Mtext,
    Mspace,
    Mrow,
    Math,
    Msub,
    Msup,
    Msubsup,
    Mover,
    Munder,
    Munderover,
    Mfrac,
    Msqrt,
    Mroot,
    /// The document itself, around the top-level elements.
    Root,
}

/// How the content of an element is read.
#[derive(Debug, Clone, Copy, PartialEq, Eq, Structural)]
pub enum ElementType {
    /// Text content.
    TokenElement,
    /// Child elements.
    LayoutSchema { args: ArgumentRequirements },
    /// The document itself.
    MathmlRoot,
}

/// The children a layout schema takes.
#[derive(Debug, Clone, Copy, PartialEq, Eq, Structural)]
pub enum ArgumentRequirements {
    /// Any number of children, read as one row.
    ArgumentList,
    /// Exactly this many children.
    RequiredArguments(u8),
}

/// A MathML element known to the parser.
#[derive(Debug, Clone, Copy, PartialEq, Eq, Structural)]
pub struct MathmlElement {
    pub identifier: ElementName,
    pub elem_type: ElementType,
}

impl MathmlElement {
    /// The element that stands for the document itself.
    pub fn root() -> (r: MathmlElement)
        ensures
            r == (MathmlElement { identifier: ElementName::Root, elem_type: ElementType::MathmlRoot }),
    {
        MathmlElement { identifier: ElementName::Root, elem_type: ElementType::MathmlRoot }
    }

    /// Whether this is the element `name`.
    pub fn is(self, name: ElementName) -> (r: bool)
        ensures
            r == (self.identifier == name),
    {
        self.identifier == name
    }
}

/// The MathML element with the tag name `name`, if the parser knows it.
pub open spec fn element_of_name(name: Seq<u8>) -> Option<MathmlElement> {
    if name == seq![109u8, 105u8] {
        Some(MathmlElement { identifier: ElementName::Mi, elem_type: ElementType::TokenElement })
    } else if name == seq![109u8, 111u8] {
        Some(MathmlElement { identifier: ElementName::Mo, elem_type: ElementType::TokenElement })
    } else if name == seq![109u8, 110u8] {
        Some(MathmlElement { identifier: ElementName::Mn, elem_type: ElementType::TokenElement })
    } else if name == seq![109u8, 116u8, 101u8, 120u8, 116u8] {
        Some(MathmlElement { identifier: ElementName::Mtext, elem_type: ElementType::TokenElement })
    } else if name == seq![109u8, 115u8, 112u8, 97u8, 99u8, 101u8] {
        Some(MathmlElement { identifier: ElementName::Mspace, elem_type: ElementType::TokenElement })
    } else if name == seq![109u8, 114u8, 111u8, 119u8] {
        Some(MathmlElement { identifier: ElementName::Mrow, elem_type: ElementType::LayoutSchema { args: ArgumentRequirements::ArgumentList } })
    } else if name == seq![109u8, 97u8, 116u8, 104u8] {
        Some(MathmlElement { identifier: ElementName::Math, elem_type: ElementType::LayoutSchema { args: ArgumentRequirements::ArgumentList } })
    } else if name == seq![109u8, 115u8, 117u8, 98u8] {
        Some(MathmlElement { identifier: ElementName::Msub, elem_type: ElementType::LayoutSchema { args: ArgumentRequirements::RequiredArguments(2) } })
    } else if name == seq![109u8, 115u8, 117u8, 112u8] {
        Some(MathmlElement { identifier: ElementName::Msup, elem_type: ElementType::LayoutSchema { args: ArgumentRequirements::RequiredArguments(2) } })
    } else if name == seq![109u8, 115u8, 117u8, 98u8, 115u8, 117u8, 112u8] {
        Some(MathmlElement { identifier: ElementName::Msubsup, elem_type: ElementType::LayoutSchema { args: ArgumentRequirements::RequiredArguments(3) } })
    } else if name == seq![109u8, 111u8, 118u8, 101u8, 114u8] {
        Some(MathmlElement { identifier: ElementName::Mover, elem_type: ElementType::LayoutSchema { args: ArgumentRequirements::RequiredArguments(2) } })
    } else if name == seq![109u8, 117u8, 110u8, 100u8, 101u8, 114u8] {
        Some(MathmlElement { identifier: ElementName::Munder, elem_type: ElementType::LayoutSchema { args: ArgumentRequirements::RequiredArguments(2) } })
    } else if name == seq![109u8, 117u8, 110u8, 100u8, 101u8, 114u8, 111u8, 118u8, 101u8, 114u8] {
        Some(MathmlElement { identifier: ElementName::Munderover, elem_type: ElementType::LayoutSchema { args: ArgumentRequirements::RequiredArguments(3) } })
    } else if name == seq![109u8, 102u8, 114u8, 97u8, 99u8] {
        Some(MathmlElement { identifier: ElementName::Mfrac, elem_type: ElementType::LayoutSchema { args: ArgumentRequirements::RequiredArguments(2) } })
    } else if name == seq![109u8, 115u8, 113u8, 114u8, 116u8] {
        Some(MathmlElement { identifier: ElementName::Msqrt, elem_type: ElementType::LayoutSchema { args: ArgumentRequirements::ArgumentList } })
    } else if name == seq![109u8, 114u8, 111u8, 111u8, 116u8] {
        Some(MathmlElement { identifier: ElementName::Mroot, elem_type: ElementType::LayoutSchema { args: ArgumentRequirements::RequiredArguments(2) } })
    } else {
        None
    }
}

/// The tag name of an element.
pub open spec fn name_of(n: ElementName) -> Seq<char> {
    match n {
        ElementName::Mi => seq!['m', 'i'],
        ElementName::Mo => seq!['m', 'o'],
        ElementName::Mn => seq!['m', 'n'],
        ElementName::Mtext => seq!['m', 't', 'e', 'x', 't'],
        ElementName::Mspace => seq!['m', 's', 'p', 'a', 'c', 'e'],
        ElementName::Mrow => seq!['m', 'r', 'o', 'w'],
        ElementName::Math => seq!['m', 'a', 't', 'h'],
        ElementName::Msub => seq!['m', 's', 'u', 'b'],
        ElementName::Msup => seq!['m', 's', 'u', 'p'],
        ElementName::Msubsup => seq!['m', 's', 'u', 'b', 's', 'u', 'p'],
        ElementName::Mover => seq!['m', 'o', 'v', 'e', 'r'],
        ElementName::Munder => seq!['m', 'u', 'n', 'd', 'e', 'r'],
        ElementName::Munderover => seq!['m', 'u', 'n', 'd', 'e', 'r', 'o', 'v', 'e', 'r'],
        ElementName::Mfrac => seq!['m', 'f', 'r', 'a', 'c'],
        ElementName::Msqrt => seq!['m', 's', 'q', 'r', 't'],
        ElementName::Mroot => seq!['m', 'r', 'o', 'o', 't'],
        ElementName::Root => Seq::empty(),
    }
}


impl ElementName {
    /// The tag name.
    pub fn identifier_str(self) -> (r: &'static str)
        ensures
            r@ == name_of(self),
    {
        match self {
            ElementName::Mi => {
                proof {
                    reveal_strlit("mi");
                }
                "mi"
            },
            ElementName::Mo => {
                proof {
                    reveal_strlit("mo");
                }
                "mo"
            },
            ElementName::Mn => {
                proof {
                    reveal_strlit("mn");
                }
                "mn"
            },
            ElementName::Mtext => {
                proof {
                    reveal_strlit("mtext");
                }
                "mtext"
            },
            ElementName::Mspace => {
                proof {
                    reveal_strlit("mspace");
                }
                "mspace"
            },
            ElementName::Mrow => {
                proof {
                    reveal_strlit("mrow");
                }
                "mrow"
            },
            ElementName::Math => {
                proof {
                    reveal_strlit("math");
                }
                "math"
            },
            ElementName::Msub => {
                proof {
                    reveal_strlit("msub");
                }
                "msub"
            },
            ElementName::Msup => {
                proof {
                    reveal_strlit("msup");
                }
                "msup"
            },
            ElementName::Msubsup => {
                proof {
                    reveal_strlit("msubsup");
                }
                "msubsup"
            },
            ElementName::Mover => {
                proof {
                    reveal_strlit("mover");
                }
                "mover"
            },
            ElementName::Munder => {
                proof {
                    reveal_strlit("munder");
                }
                "munder"
            },
            ElementName::Munderover => {
                proof {
                    reveal_strlit("munderover");
                }
                "munderover"
            },
            ElementName::Mfrac => {
                proof {
                    reveal_strlit("mfrac");
                }
                "mfrac"
            },
            ElementName::Msqrt => {
                proof {
                    reveal_strlit("msqrt");
                }
                "msqrt"
            },
            ElementName::Mroot => {
                proof {
                    reveal_strlit("mroot");
                }
                "mroot"
            },
            ElementName::Root => {
                proof {
                    reveal_strlit("");
                }
                ""
            },
        }
    }
}

/// The MathML element with the tag name `identifier`, if the parser knows it.
pub fn match_math_element(identifier: &[u8]) -> (r: Option<MathmlElement>)
    ensures
        r == element_of_name(identifier@),
{
    let mi: [u8; 2] = [109u8, 105u8];
    assert(mi@ == seq![109u8, 105u8]);
    if bytes_eq(identifier, &mi) {
        return Some(MathmlElement { identifier: ElementName::Mi, elem_type: ElementType::TokenElement });
    }
    let mo: [u8; 2] = [109u8, 111u8];
    assert(mo@ == seq![109u8, 111u8]);
    if bytes_eq(identifier, &mo) {
        return Some(MathmlElement { identifier: ElementName::Mo, elem_type: ElementType::TokenElement });
    }
    let mn: [u8; 2] = [109u8, 110u8];
    assert(mn@ == seq![109u8, 110u8]);
    if bytes_eq(identifier, &mn) {
        return Some(MathmlElement { identifier: ElementName::Mn, elem_type: ElementType::TokenElement });
    }
    let mtext: [u8; 5] = [109u8, 116u8, 101u8, 120u8, 116u8];
    assert(mtext@ == seq![109u8, 116u8, 101u8, 120u8, 116u8]);
    if bytes_eq(identifier, &mtext) {
        return Some(MathmlElement { identifier: ElementName::Mtext, elem_type: ElementType::TokenElement });
    }
    let mspace: [u8; 6] = [109u8, 115u8, 112u8, 97u8, 99u8, 101u8];
    assert(mspace@ == seq![109u8, 115u8, 112u8, 97u8, 99u8, 101u8]);
    if bytes_eq(identifier, &mspace) {
        return Some(MathmlElement { identifier: ElementName::Mspace, elem_type: ElementType::TokenElement });
    }
    let mrow: [u8; 4] = [109u8, 114u8, 111u8, 119u8];
    assert(mrow@ == seq![109u8, 114u8, 111u8, 119u8]);
    if bytes_eq(identifier, &mrow) {
        return Some(MathmlElement { identifier: ElementName::Mrow, elem_type: ElementType::LayoutSchema { args: ArgumentRequirements::ArgumentList } });
    }
    let math: [u8; 4] = [109u8, 97u8, 116u8, 104u8];
    assert(math@ == seq![109u8, 97u8, 116u8, 104u8]);
    if bytes_eq(identifier, &math) {
        return Some(MathmlElement { identifier: ElementName::Math, elem_type: ElementType::LayoutSchema { args: ArgumentRequirements::ArgumentList } });
    }
    let msub: [u8; 4] = [109u8, 115u8, 117u8, 98u8];
    assert(msub@ == seq![109u8, 115u8, 117u8, 98u8]);
    if bytes_eq(identifier, &msub) {
        return Some(MathmlElement { identifier: ElementName::Msub, elem_type: ElementType::LayoutSchema { args: ArgumentRequirements::RequiredArguments(2) } });
    }
    let msup: [u8; 4] = [109u8, 115u8, 117u8, 112u8];
    assert(msup@ == seq![109u8, 115u8, 117u8, 112u8]);
    if bytes_eq(identifier, &msup) {
        return Some(MathmlElement { identifier: ElementName::Msup, elem_type: ElementType::LayoutSchema { args: ArgumentRequirements::RequiredArguments(2) } });
    }
    let msubsup: [u8; 7] = [109u8, 115u8, 117u8, 98u8, 115u8, 117u8, 112u8];
    assert(msubsup@ == seq![109u8, 115u8, 117u8, 98u8, 115u8, 117u8, 112u8]);
    if bytes_eq(identifier, &msubsup) {
        return Some(MathmlElement { identifier: ElementName::Msubsup, elem_type: ElementType::LayoutSchema { args: ArgumentRequirements::RequiredArguments(3) } });
    }
    let mover: [u8; 5] = [109u8, 111u8, 118u8, 101u8, 114u8];
    assert(mover@ == seq![109u8, 111u8, 118u8, 101u8, 114u8]);
    if bytes_eq(identifier, &mover) {
        return Some(MathmlElement { identifier: ElementName::Mover, elem_type: ElementType::LayoutSchema { args: ArgumentRequirements::RequiredArguments(2) } });
    }
    let munder: [u8; 6] = [109u8, 117u8, 110u8, 100u8, 101u8, 114u8];
    assert(munder@ == seq![109u8, 117u8, 110u8, 100u8, 101u8, 114u8]);
    if bytes_eq(identifier, &munder) {
        return Some(MathmlElement { identifier: ElementName::Munder, elem_type: ElementType::LayoutSchema { args: ArgumentRequirements::RequiredArguments(2) } });
    }
    let munderover: [u8; 10] = [109u8, 117u8, 110u8, 100u8, 101u8, 114u8, 111u8, 118u8, 101u8, 114u8];
    assert(munderover@ == seq![109u8, 117u8, 110u8, 100u8, 101u8, 114u8, 111u8, 118u8, 101u8, 114u8]);
    if bytes_eq(identifier, &munderover) {
        return Some(MathmlElement { identifier: ElementName::Munderover, elem_type: ElementType::LayoutSchema { args: ArgumentRequirements::RequiredArguments(3) } });
    }
    let mfrac: [u8; 5] = [109u8, 102u8, 114u8, 97u8, 99u8];
    assert(mfrac@ == seq![109u8, 102u8, 114u8, 97u8, 99u8]);
    if bytes_eq(identifier, &mfrac) {
        return Some(MathmlElement { identifier: ElementName::Mfrac, elem_type: ElementType::LayoutSchema { args: ArgumentRequirements::RequiredArguments(2) } });
    }
    let msqrt: [u8; 5] = [109u8, 115u8, 113u8, 114u8, 116u8];
    assert(msqrt@ == seq![109u8, 115u8, 113u8, 114u8, 116u8]);
    if bytes_eq(identifier, &msqrt) {
        return Some(MathmlElement { identifier: ElementName::Msqrt, elem_type: ElementType::LayoutSchema { args: ArgumentRequirements::ArgumentList } });
    }
    let mroot: [u8; 5] = [109u8, 114u8, 111u8, 111u8, 116u8];
    assert(mroot@ == seq![109u8, 114u8, 111u8, 111u8, 116u8]);
    if bytes_eq(identifier, &mroot) {
        return Some(MathmlElement { identifier: ElementName::Mroot, elem_type: ElementType::LayoutSchema { args: ArgumentRequirements::RequiredArguments(2) } });
    }
    None
}

/// What the parser remembers of an expression it has built.
#[derive(Debug, Default, Clone, Copy)]
pub struct MathmlInfo {
    /// The attributes of the operator, if the expression is an (embellished) operator.
    pub operator_attrs: Option<Attributes>,
    /// Whether the expression is whitespace.
    pub is_space: bool,
}

impl MathmlInfo {
    /// Neither an operator nor whitespace.
    pub open spec fn plain_spec() -> MathmlInfo {
        MathmlInfo { operator_attrs: None, is_space: false }
    }

    /// Neither an operator nor whitespace.
    pub fn plain() -> (r: MathmlInfo)
        ensures
            r == Self::plain_spec(),
    {
        MathmlInfo { operator_attrs: None, is_space: false }
    }

    /// Whether the expression is an (embellished) operator.
    pub fn is_operator(&self) -> (r: bool)
        ensures
            r == (self.operator_attrs is Some),
    {
        self.operator_attrs.is_some()
    }
}

/// The table of `stash` that holds the entries.
#[verifier::external_type_specification]
#[verifier::external_body]
#[verifier::reject_recursive_types(V)]
#[verifier::reject_recursive_types(Ix)]
pub struct ExStash<V, Ix>(stash::Stash<V, Ix>);

/// The values a stash of entries holds, by key.
pub uninterp spec fn stash_contents(s: stash::Stash<MathmlInfo, usize>) -> Seq<MathmlInfo>;

/// Whether no value was ever taken out of the stash, so that its keys are `0` to its length.
pub uninterp spec fn stash_never_taken(s: stash::Stash<MathmlInfo, usize>) -> bool;

/// `Stash::new`: an empty stash, from which nothing was taken.
#[verifier::external_body]
fn stash_new() -> (r: stash::Stash<MathmlInfo, usize>)
    ensures
        stash_contents(r) == Seq::<MathmlInfo>::empty(),
        stash_never_taken(r),
{
    stash::Stash::new()
}

/// `Stash::len`: the number of values held.
#[verifier::external_body]
fn stash_len(s: &stash::Stash<MathmlInfo, usize>) -> (r: usize)
    ensures
        r == stash_contents(*s).len(),
{
    s.len()
}

/// `Stash::put`: stores `v` and returns its key. A key is below the largest number of values
/// the stash ever held, and keys are not shared; with nothing ever taken out, the new key is
/// the number of values held before.
#[verifier::external_body]
fn stash_put(s: &mut stash::Stash<MathmlInfo, usize>, v: MathmlInfo) -> (r: usize)
    requires
        stash_never_taken(*old(s)),
    ensures
        r == stash_contents(*old(s)).len(),
        stash_contents(*final(s)) == stash_contents(*old(s)).push(v),
        stash_never_taken(*final(s)),
{
    s.put(v)
}

/// `Index` of `Stash`: the value with key `i`.
#[verifier::external_body]
fn stash_get(s: &stash::Stash<MathmlInfo, usize>, i: usize) -> (r: MathmlInfo)
    requires
        stash_never_taken(*s),
        i < stash_contents(*s).len(),
    ensures
        r == stash_contents(*s)[i as int],
{
    s[i]
}

/// `IndexMut` of `Stash`: replaces the value with key `i`.
#[verifier::external_body]
fn stash_set(s: &mut stash::Stash<MathmlInfo, usize>, i: usize, v: MathmlInfo)
    requires
        stash_never_taken(*old(s)),
        i < stash_contents(*old(s)).len(),
    ensures
        stash_contents(*final(s)) == stash_contents(*old(s)).update(i as int, v),
        stash_never_taken(*final(s)),
{
    s[i] = v
}

/// The information about the expressions built so far: an expression's `user_data` is the
/// key of its entry.
#[derive(Debug)]
pub struct ParseContext {
    pub mathml_info: stash::Stash<MathmlInfo, usize>,
}

/// The entry of `infos` for the expression `e`, if there is one.
pub open spec fn info_at(infos: Seq<MathmlInfo>, e: MathExpression) -> Option<MathmlInfo> {
    if e.user_data < infos.len() {
        Some(infos[e.user_data as int])
    } else {
        None
    }
}

/// The operator attributes recorded for `e`, if it is an operator.
pub open spec fn operator_attrs_at(infos: Seq<MathmlInfo>, e: MathExpression) -> Option<Attributes> {
    match info_at(infos, e) {
        Some(info) => info.operator_attrs,
        None => None,
    }
}

/// Whether `e` is recorded as whitespace.
pub open spec fn is_space_at(infos: Seq<MathmlInfo>, e: MathExpression) -> bool {
    match info_at(infos, e) {
        Some(info) => info.is_space,
        None => false,
    }
}

impl ParseContext {
    /// The entries, by key.
    pub open spec fn infos(&self) -> Seq<MathmlInfo> {
        stash_contents(self.mathml_info)
    }

    /// Whether the keys of the entries are `0` to their number.
    pub open spec fn wf(&self) -> bool {
        stash_never_taken(self.mathml_info)
    }

    /// A context with no entries.
    pub fn new() -> (r: ParseContext)
        ensures
            r.infos() == Seq::<MathmlInfo>::empty(),
            r.wf(),
    {
        ParseContext { mathml_info: stash_new() }
    }

    /// The number of entries.
    pub fn len(&self) -> (r: usize)
        ensures
            r == self.infos().len(),
    {
        stash_len(&self.mathml_info)
    }

    /// The entry with key `index`.
    pub fn info_at_index(&self, index: usize) -> (r: MathmlInfo)
        requires
            self.wf(),
            index < self.infos().len(),
        ensures
            r == self.infos()[index as int],
    {
        stash_get(&self.mathml_info, index)
    }

    /// Replaces the entry with key `index`.
    pub fn set_info(&mut self, index: usize, info: MathmlInfo)
        requires
            old(self).wf(),
            index < old(self).infos().len(),
        ensures
            final(self).infos() == old(self).infos().update(index as int, info),
            final(self).wf(),
    {
        stash_set(&mut self.mathml_info, index, info)
    }

    /// The entry for `expr`, if there is one.
    pub fn info_for_expr(&self, expr: &MathExpression) -> (r: Option<MathmlInfo>)
        requires
            self.wf(),
        ensures
            r == info_at(self.infos(), *expr),
    {
        if expr.user_data < self.len() as u64 {
            Some(self.info_at_index(expr.user_data as usize))
        } else {
            None
        }
    }

    /// The operator attributes of `expr`, if it is an operator.
    pub fn operator_attrs(&self, expr: &MathExpression) -> (r: Option<Attributes>)
        requires
            self.wf(),
        ensures
            r == operator_attrs_at(self.infos(), *expr),
    {
        match self.info_for_expr(expr) {
            Some(info) => info.operator_attrs,
            None => None,
        }
    }

    /// Records `info` and returns its key.
    pub fn put(&mut self, info: MathmlInfo) -> (r: u64)
        requires
            old(self).wf(),
            old(self).infos().len() < u64::MAX,
        ensures
            r == old(self).infos().len(),
            final(self).infos() == old(self).infos().push(info),
            final(self).wf(),
    {
        let index = stash_put(&mut self.mathml_info, info);
        index as u64
    }
}

/// Reading an attribute value.
pub trait FromXmlAttribute: Sized {
    type Err;

    fn from_xml_attr(attr: &str) -> Result<Self, Self::Err>;
}

/// The value of a boolean attribute: `true` or `false`.
pub open spec fn bool_of(s: Seq<char>) -> Option<bool> {
    if s == seq!['t', 'r', 'u', 'e'] {
        Some(true)
    } else if s == seq!['f', 'a', 'l', 's', 'e'] {
        Some(false)
    } else {
        None
    }
}

impl FromXmlAttribute for bool {
    type Err = &'static str;

    fn from_xml_attr(bytes: &str) -> (r: Result<bool, &'static str>)
        ensures
            match r {
                Ok(b) => bool_of(bytes@) == Some(b),
                Err(_) => bool_of(bytes@) is None,
            },
    {
        let s = str_to_chars(bytes);
        let t: [char; 4] = ['t', 'r', 'u', 'e'];
        let f: [char; 5] = ['f', 'a', 'l', 's', 'e'];
        assert(t@ == seq!['t', 'r', 'u', 'e']);
        assert(f@ == seq!['f', 'a', 'l', 's', 'e']);
        if chars_eq(&s, &t) {
            Ok(true)
        } else if chars_eq(&s, &f) {
            Ok(false)
        } else {
            Err("unrecognized boolean value")
        }
    }
}

impl FromXmlAttribute for Length {
    type Err = &'static str;

    /// A length like `1.5em` or `-3pt` (see `length_attribute`).
    fn from_xml_attr(attr: &str) -> (r: Result<Length, &'static str>)
        ensures
            match r {
                Ok(l) => length_value(attr@) == Some(l),
                Err(_) => length_value(attr@) is None,
            },
    {
        let s = str_to_chars(attr);
        match length_from_attribute(&s) {
            Some(l) => Ok(l),
            None => Err("invalid number"),
        }
    }
}

/// A row of expressions as one expression: a single expression stands for itself, any other
/// number becomes a list with a new entry.
pub open spec fn single_or_list(
    content: Seq<MathExpression>,
    infos: Seq<MathmlInfo>,
    infos2: Seq<MathmlInfo>,
    c: MathExpression,
) -> bool {
    if content.len() == 1 {
        c == content[0] && infos2 == infos
    } else {
        &&& *c.item matches MathItem::List(v) && v@ == content
        &&& c.user_data == infos.len()
        &&& infos2 == infos.push(MathmlInfo::plain_spec())
    }
}

/// The expression of a schema of one row (see `parse_list_schema`).
pub open spec fn list_schema_built(
    content: Seq<MathExpression>,
    elem: MathmlElement,
    infos: Seq<MathmlInfo>,
    infos2: Seq<MathmlInfo>,
    r: MathExpression,
) -> bool {
    if elem.identifier == ElementName::Msqrt {
        let infos1 = if content.len() == 1 {
            infos
        } else {
            infos.push(MathmlInfo::plain_spec())
        };
        &&& *r.item matches MathItem::Root(root) && root.degree is None && (root.radicand matches Some(
            c,
        ) && single_or_list(content, infos, infos1, c))
        &&& r.user_data == infos1.len()
        &&& infos2 == infos1.push(MathmlInfo::plain_spec())
    } else {
        single_or_list(content, infos, infos2, r)
    }
}

/// Builds the expression of a schema whose children form one row: the row itself for the
/// document, `mrow` and `math`, and a square root of it for `msqrt` (see
/// `list_schema_built`).
pub fn parse_list_schema(content: Vec<MathExpression>, elem: MathmlElement, context: &mut ParseContext) -> (r: MathExpression)
    requires
        old(context).wf(),
        old(context).infos().len() + 2 < u64::MAX,
    ensures
        final(context).wf(),
        list_schema_built(content@, elem, old(context).infos(), final(context).infos(), r),
{
    let ghost content0 = content@;
    let row = if content.len() == 1 {
        let mut content = content;
        content.pop().unwrap()
    } else {
        let index = context.put(MathmlInfo::plain());
        MathExpression::new(MathItem::List(content), index)
    };
    assert(single_or_list(content0, old(context).infos(), context.infos(), row));
    if elem.is(ElementName::Msqrt) {
        let index = context.put(MathmlInfo::plain());
        MathExpression::new(MathItem::Root(Root { radicand: Some(row), degree: None }), index)
    } else {
        row
    }
}

/// The value the attributes give to the boolean attribute `name`, from `acc` on: the last
/// such attribute decides; a value that is not a boolean counts as false.
pub open spec fn accent_attribute(attrs: Seq<(String, String)>, name: Seq<char>, acc: bool, k: int) -> bool
    decreases attrs.len() - k,
{
    if k < 0 || k >= attrs.len() {
        acc
    } else {
        let acc1 = if attrs[k].0@ == name {
            match bool_of(attrs[k].1@) {
                Some(b) => b,
                None => false,
            }
        } else {
            acc
        };
        accent_attribute(attrs, name, acc1, k + 1)
    }
}

/// The value of the boolean attribute `name` (see `accent_attribute`).
fn accent_from_attributes(attrs: &[(String, String)], name: &[char], init: bool) -> (r: bool)
    ensures
        r == accent_attribute(attrs@, name@, init, 0),
{
    let mut acc = init;
    let mut k: usize = 0;
    while k < attrs.len()
        invariant
            k <= attrs@.len(),
            accent_attribute(attrs@, name@, init, 0) == accent_attribute(attrs@, name@, acc, k as int),
        decreases attrs@.len() - k,
    {
        let key = str_to_chars(attrs[k].0.as_str());
        if chars_eq(&key, name) {
            acc = match bool::from_xml_attr(attrs[k].1.as_str()) {
                Ok(b) => b,
                Err(_) => false,
            };
        }
        k = k + 1;
    }
    acc
}

/// Guessing the operator attributes of an optional expression (see `operator_step`).
pub open spec fn opt_operator_step(infos: Seq<MathmlInfo>, e: Option<MathExpression>, form: Form) -> (Seq<MathmlInfo>, Option<MathExpression>) {
    match e {
        Some(x) => {
            let (i, y) = operator_step(infos, x, form);
            (i, Some(y))
        },
        None => (infos, None),
    }
}

/// Whether an optional expression is recorded as an accent operator.
pub open spec fn is_accent_at(infos: Seq<MathmlInfo>, e: Option<MathExpression>) -> bool {
    match e {
        Some(x) => match operator_attrs_at(infos, x) {
            Some(a) => a.flags.accent,
            None => false,
        },
        None => false,
    }
}

/// The under/over built from its parts and the attributes of its element (see
/// `construct_under_over`).
pub open spec fn under_over_result(
    nucleus: Option<MathExpression>,
    under: Option<MathExpression>,
    over: Option<MathExpression>,
    attrs: Seq<(String, String)>,
    infos: Seq<MathmlInfo>,
) -> (Seq<MathmlInfo>, OverUnder) {
    let (i1, over2) = opt_operator_step(infos, over, Form::Postfix);
    let (i2, under2) = opt_operator_step(i1, under, Form::Postfix);
    (
        i2,
        OverUnder {
            nucleus,
            over: over2,
            under: under2,
            over_is_accent: accent_attribute(
                attrs,
                seq!['a', 'c', 'c', 'e', 'n', 't'],
                is_accent_at(i2, over2),
                0,
            ),
            under_is_accent: accent_attribute(
                attrs,
                seq!['a', 'c', 'c', 'e', 'n', 't', 'u', 'n', 'd', 'e', 'r'],
                is_accent_at(i2, under2),
                0,
            ),
            is_limits: false,
        },
    )
}

/// Guesses the operator attributes of an optional expression.
fn guess_opt(e: Option<MathExpression>, form: Form, context: &mut ParseContext) -> (r: Option<MathExpression>)
    requires
        old(context).wf(),
    ensures
        final(context).wf(),
        (final(context).infos(), r) == opt_operator_step(old(context).infos(), e, form),
{
    match e {
        Some(x) => Some(guess_if_operator_with_form(x, form, context)),
        None => None,
    }
}

/// Whether an optional expression is an accent operator.
fn is_accent(context: &ParseContext, e: &Option<MathExpression>) -> (r: bool)
    requires
        context.wf(),
    ensures
        r == is_accent_at(context.infos(), *e),
{
    match e {
        Some(x) => match context.operator_attrs(x) {
            Some(a) => a.flags.accent,
            None => false,
        },
        None => false,
    }
}

/// Builds an under/over: the scripts are operators in postfix form, and each is an accent
/// when it is an accent operator, unless the `accent` (for the over script) or
/// `accentunder` attribute says otherwise (see `under_over_result`).
pub fn construct_under_over(
    nucleus: Option<MathExpression>,
    under: Option<MathExpression>,
    over: Option<MathExpression>,
    attributes: &[(String, String)],
    context: &mut ParseContext,
) -> (r: MathItem)
    requires
        old(context).wf(),
    ensures
        final(context).wf(),
        (final(context).infos(), r) == ({
            let (i, ou) = under_over_result(nucleus, under, over, attributes@, old(context).infos());
            (i, MathItem::OverUnder(ou))
        }),
{
    let over = guess_opt(over, Form::Postfix, context);
    let under = guess_opt(under, Form::Postfix, context);
    let over_accent = is_accent(context, &over);
    let under_accent = is_accent(context, &under);
    let accent: [char; 6] = ['a', 'c', 'c', 'e', 'n', 't'];
    let accentunder: [char; 11] = ['a', 'c', 'c', 'e', 'n', 't', 'u', 'n', 'd', 'e', 'r'];
    assert(accent@ == seq!['a', 'c', 'c', 'e', 'n', 't']);
    assert(accentunder@ == seq!['a', 'c', 'c', 'e', 'n', 't', 'u', 'n', 'd', 'e', 'r']);
    let over_is_accent = accent_from_attributes(attributes, &accent, over_accent);
    let under_is_accent = accent_from_attributes(attributes, &accentunder, under_accent);
    MathItem::OverUnder(OverUnder { nucleus, over, under, over_is_accent, under_is_accent, is_limits: false })
}

/// The number of children a schema with fixed arguments takes (0 for other elements).
pub open spec fn required_arguments(n: ElementName) -> int {
    match n {
        ElementName::Msub | ElementName::Msup | ElementName::Mover | ElementName::Munder
        | ElementName::Mfrac | ElementName::Mroot => 2,
        ElementName::Msubsup | ElementName::Munderover => 3,
        _ => 0,
    }
}

/// The item of a schema with fixed arguments, the entries after the scripts' operator
/// attributes are guessed, and the operator attributes the result inherits from its nucleus
/// (or numerator).
pub open spec fn fixed_schema_result(
    c: Seq<MathExpression>,
    id: ElementName,
    attrs: Seq<(String, String)>,
    infos: Seq<MathmlInfo>,
) -> (Seq<MathmlInfo>, MathItem, Option<Attributes>) {
    match id {
        ElementName::Mfrac => (
            infos,
            MathItem::GeneralizedFraction(
                GeneralizedFraction { numerator: Some(c[0]), denominator: Some(c[1]), thickness: None },
            ),
            operator_attrs_at(infos, c[0]),
        ),
        ElementName::Mroot => (infos, MathItem::Root(Root { radicand: Some(c[0]), degree: Some(c[1]) }), None),
        ElementName::Msub => {
            let (i1, b) = operator_step(infos, c[1], Form::Postfix);
            (
                i1,
                MathItem::Atom(
                    Atom {
                        nucleus: Some(c[0]),
                        top_left: None,
                        top_right: None,
                        bottom_left: None,
                        bottom_right: Some(b),
                    },
                ),
                operator_attrs_at(i1, c[0]),
            )
        },
        ElementName::Msup => {
            let (i1, t) = operator_step(infos, c[1], Form::Postfix);
            (
                i1,
                MathItem::Atom(
                    Atom {
                        nucleus: Some(c[0]),
                        top_left: None,
                        top_right: Some(t),
                        bottom_left: None,
                        bottom_right: None,
                    },
                ),
                operator_attrs_at(i1, c[0]),
            )
        },
        ElementName::Msubsup => {
            let (i1, b) = operator_step(infos, c[1], Form::Postfix);
            let (i2, t) = operator_step(i1, c[2], Form::Postfix);
            (
                i2,
                MathItem::Atom(
                    Atom {
                        nucleus: Some(c[0]),
                        top_left: None,
                        top_right: Some(t),
                        bottom_left: None,
                        bottom_right: Some(b),
                    },
                ),
                operator_attrs_at(i2, c[0]),
            )
        },
        ElementName::Mover => {
            let (i, ou) = under_over_result(Some(c[0]), None, Some(c[1]), attrs, infos);
            (i, MathItem::OverUnder(ou), operator_attrs_at(i, c[0]))
        },
        ElementName::Munder => {
            let (i, ou) = under_over_result(Some(c[0]), Some(c[1]), None, attrs, infos);
            (i, MathItem::OverUnder(ou), operator_attrs_at(i, c[0]))
        },
        _ => {
            let (i, ou) = under_over_result(Some(c[0]), Some(c[1]), Some(c[2]), attrs, infos);
            (i, MathItem::OverUnder(ou), operator_attrs_at(i, c[0]))
        },
    }
}

/// The children of a schema with a fixed number of them take their roles in order: the
/// numerator then the denominator of a fraction; the radicand then the degree of a root; the
/// nucleus first, then the subscript and/or the superscript (in that order), both at the
/// right; the nucleus first, then the under and/or the over (in that order), not as limits.
/// Each script, under and over is the child it comes from (with the same user data), made
/// an operator where it is one; no other part is set.
pub proof fn lemma_fixed_schema_roles(
    c: Seq<MathExpression>,
    id: ElementName,
    attrs: Seq<(String, String)>,
    infos: Seq<MathmlInfo>,
)
    requires
        c.len() == required_arguments(id),
    ensures
        ({
            let item = fixed_schema_result(c, id, attrs, infos).1;
            match id {
                ElementName::Mfrac => item == MathItem::GeneralizedFraction(
                    GeneralizedFraction { numerator: Some(c[0]), denominator: Some(c[1]), thickness: None },
                ),
                ElementName::Mroot => item == MathItem::Root(Root { radicand: Some(c[0]), degree: Some(c[1]) }),
                ElementName::Msub => item matches MathItem::Atom(a) && a.nucleus == Some(c[0]) && a.top_left is None
                    && a.bottom_left is None && a.top_right is None && (a.bottom_right matches Some(b)
                    && b.user_data == c[1].user_data),
                ElementName::Msup => item matches MathItem::Atom(a) && a.nucleus == Some(c[0]) && a.top_left is None
                    && a.bottom_left is None && a.bottom_right is None && (a.top_right matches Some(t)
                    && t.user_data == c[1].user_data),
                ElementName::Msubsup => item matches MathItem::Atom(a) && a.nucleus == Some(c[0]) && a.top_left is None
                    && a.bottom_left is None && (a.bottom_right matches Some(b) && b.user_data == c[1].user_data)
                    && (a.top_right matches Some(t) && t.user_data == c[2].user_data),
                ElementName::Munder => item matches MathItem::OverUnder(ou) && ou.nucleus == Some(c[0]) && ou.over is None
                    && !ou.is_limits && (ou.under matches Some(u) && u.user_data == c[1].user_data),
                ElementName::Mover => item matches MathItem::OverUnder(ou) && ou.nucleus == Some(c[0]) && ou.under is None
                    && !ou.is_limits && (ou.over matches Some(o) && o.user_data == c[1].user_data),
                ElementName::Munderover => item matches MathItem::OverUnder(ou) && ou.nucleus == Some(c[0])
                    && !ou.is_limits && (ou.under matches Some(u) && u.user_data == c[1].user_data)
                    && (ou.over matches Some(o) && o.user_data == c[2].user_data),
                _ => true,
            }
        }),
{
}

/// Takes the expression at `k` out of `v`, leaving a placeholder.
fn take_at(v: &mut Vec<MathExpression>, k: usize) -> (r: MathExpression)
    requires
        k < old(v)@.len(),
    ensures
        r == old(v)@[k as int],
        final(v)@.len() == old(v)@.len(),
        forall|j: int| 0 <= j < old(v)@.len() && j != k ==> final(v)@[j] == old(v)@[j],
{
    let mut e = MathExpression::new(MathItem::List(Vec::new()), 0);
    v.set_and_swap(k, &mut e);
    e
}

/// Builds the expression of a schema with a fixed number of children (`mfrac`, `mroot`,
/// `msub`, `msup`, `msubsup`, `mover`, `munder`, `munderover`): the scripts are operators in
/// postfix form; the result gets a new entry that inherits the operator attributes of its
/// nucleus (or numerator), so that an embellished operator is an operator (see
/// `fixed_schema_result`).
pub fn parse_fixed_schema(
    content: Vec<MathExpression>,
    elem: MathmlElement,
    attributes: &[(String, String)],
    context: &mut ParseContext,
) -> (r: MathExpression)
    requires
        old(context).wf(),
        required_arguments(elem.identifier) > 0,
        content@.len() == required_arguments(elem.identifier),
        old(context).infos().len() + 1 < u64::MAX,
    ensures
        final(context).wf(),
        self::parse_model::fixed_schema_built(
            content@,
            elem.identifier,
            attributes@,
            old(context).infos(),
            final(context).infos(),
            r,
        ),
{
    let ghost c = content@;
    let mut content = content;
    let first = take_at(&mut content, 0);
    let second = take_at(&mut content, 1);
    let result = match elem.identifier {
        ElementName::Mfrac => MathItem::GeneralizedFraction(
            GeneralizedFraction { numerator: Some(first), denominator: Some(second), thickness: None },
        ),
        ElementName::Mroot => MathItem::Root(Root { radicand: Some(first), degree: Some(second) }),
        ElementName::Msub => {
            let b = guess_if_operator_with_form(second, Form::Postfix, context);
            MathItem::Atom(
                Atom { nucleus: Some(first), top_left: None, top_right: None, bottom_left: None, bottom_right: Some(b) },
            )
        },
        ElementName::Msup => {
            let t = guess_if_operator_with_form(second, Form::Postfix, context);
            MathItem::Atom(
                Atom { nucleus: Some(first), top_left: None, top_right: Some(t), bottom_left: None, bottom_right: None },
            )
        },
        ElementName::Msubsup => {
            let third = take_at(&mut content, 2);
            let b = guess_if_operator_with_form(second, Form::Postfix, context);
            let t = guess_if_operator_with_form(third, Form::Postfix, context);
            MathItem::Atom(
                Atom { nucleus: Some(first), top_left: None, top_right: Some(t), bottom_left: None, bottom_right: Some(b) },
            )
        },
        ElementName::Mover => construct_under_over(Some(first), None, Some(second), attributes, context),
        ElementName::Munder => construct_under_over(Some(first), Some(second), None, attributes, context),
        _ => {
            let third = take_at(&mut content, 2);
            construct_under_over(Some(first), Some(second), Some(third), attributes, context)
        },
    };
    let inherited = match &result {
        MathItem::Atom(atom) => match &atom.nucleus {
            Some(n) => context.operator_attrs(n),
            None => None,
        },
        MathItem::OverUnder(ou) => match &ou.nucleus {
            Some(n) => context.operator_attrs(n),
            None => None,
        },
        MathItem::GeneralizedFraction(frac) => match &frac.numerator {
            Some(n) => context.operator_attrs(n),
            None => None,
        },
        _ => None,
    };
    let index = context.put(MathmlInfo { operator_attrs: inherited, is_space: false });
    MathExpression::new(result, index)
}

/// A child of an element being built: text of a token, or the expression of a child element.
pub enum Child {
    Field(Field),
    Expression(MathExpression),
}

/// The expressions among the children, in order.
pub open spec fn child_expressions(children: Seq<Child>) -> Seq<MathExpression>
    decreases children.len(),
{
    if children.len() == 0 {
        Seq::empty()
    } else {
        let rest = child_expressions(children.drop_last());
        match children.last() {
            Child::Expression(e) => rest.push(e),
            Child::Field(_) => rest,
        }
    }
}

/// The fields among the children, in order.
pub open spec fn child_fields(children: Seq<Child>) -> Seq<Field>
    decreases children.len(),
{
    if children.len() == 0 {
        Seq::empty()
    } else {
        let rest = child_fields(children.drop_last());
        match children.last() {
            Child::Field(f) => rest.push(f),
            Child::Expression(_) => rest,
        }
    }
}

proof fn lemma_children_lengths(children: Seq<Child>)
    ensures
        child_expressions(children).len() + child_fields(children).len() == children.len(),
    decreases children.len(),
{
    if children.len() > 0 {
        lemma_children_lengths(children.drop_last());
    }
}

/// Splits the children into their expressions and their fields.
fn split_children(children: Vec<Child>) -> (r: (Vec<MathExpression>, Vec<Field>))
    ensures
        r.0@ == child_expressions(children@),
        r.1@ == child_fields(children@),
{
    let ghost c0 = children@;
    let mut children = children;
    let mut expressions: Vec<MathExpression> = Vec::new();
    let mut fields: Vec<Field> = Vec::new();
    let n = children.len();
    let mut k: usize = 0;
    assert(c0.take(0) =~= Seq::<Child>::empty());
    while k < n
        invariant
            n == c0.len(),
            k <= n,
            children@.len() == n,
            forall|j: int| k <= j < n ==> children@[j] == c0[j],
            expressions@ == child_expressions(c0.take(k as int)),
            fields@ == child_fields(c0.take(k as int)),
        decreases n - k,
    {
        let mut c = Child::Field(Field::Empty);
        children.set_and_swap(k, &mut c);
        proof {
            assert(c0.take(k + 1).drop_last() =~= c0.take(k as int));
        }
        match c {
            Child::Expression(e) => expressions.push(e),
            Child::Field(f) => fields.push(f),
        }
        k = k + 1;
    }
    assert(c0.take(n as int) =~= c0);
    (expressions, fields)
}

/// Builds the expression of an element from its attributes and children: a token from the
/// fields (see `build_token`), a schema with fixed children from the expressions (see
/// `parse_fixed_schema`), and any other element from the row of the expressions with its
/// operators processed (see `process_operators` and `parse_list_schema`).
pub fn build_element(
    elem: MathmlElement,
    attributes: &[(String, String)],
    children: Vec<Child>,
    context: &mut ParseContext,
) -> (r: MathExpression)
    requires
        old(context).wf(),
        xml_reader::consistent_element(elem),
        elem.elem_type is LayoutSchema && !(elem.elem_type->args is ArgumentList) ==> child_expressions(
            children@,
        ).len() == required_arguments(elem.identifier),
        old(context).infos().len() + children@.len() + 2 < u64::MAX,
    ensures
        final(context).wf(),
        ({
            let infos = old(context).infos();
            let infos2 = final(context).infos();
            let exprs = child_expressions(children@);
            match elem.elem_type {
                ElementType::TokenElement => token::token_built(
                    child_fields(children@),
                    elem,
                    xml_reader::token_attributes_from(
                        attributes@,
                        elem.identifier,
                        xml_reader::default_token_attributes(),
                        0,
                    ),
                    infos,
                    infos2,
                    r,
                ),
                ElementType::LayoutSchema { args: ArgumentRequirements::RequiredArguments(_) } => {
                    let (i, item, inherited) = fixed_schema_result(exprs, elem.identifier, attributes@, infos);
                    &&& *r.item == item
                    &&& r.user_data == i.len()
                    &&& infos2 == i.push(MathmlInfo { operator_attrs: inherited, is_space: false })
                },
                _ => {
                    let (i1, l1) = operator::row_result(
                        infos,
                        exprs,
                        operator::non_space_count(infos, exprs, 0) as int,
                        0,
                        0,
                    );
                    list_schema_built(l1, elem, i1, infos2, r)
                },
            }
        }),
{
    proof {
        lemma_children_lengths(children@);
    }
    let (expressions, fields) = split_children(children);
    match elem.elem_type {
        ElementType::TokenElement => {
            let attrs = xml_reader::token_attributes(attributes, elem.identifier);
            match token::build_token(fields, elem, attrs, context) {
                Ok(e) => e,
                Err(_) => {
                    proof {
                        assert(false);
                    }
                    MathExpression::new(MathItem::List(Vec::new()), 0)
                },
            }
        },
        ElementType::LayoutSchema { args: ArgumentRequirements::RequiredArguments(_) } => {
            parse_fixed_schema(expressions, elem, attributes, context)
        },
        _ => {
            let mut list = expressions;
            let ghost infos0 = context.infos();
            let ghost l0 = list@;
            operator::process_operators(&mut list, context);
            proof {
                operator::lemma_row_result_len(infos0, l0, operator::non_space_count(infos0, l0, 0) as int, 0, 0);
            }
            parse_list_schema(list, elem, context)
        },
    }
}

} // verus!
