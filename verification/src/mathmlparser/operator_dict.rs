//! The operator dictionary: default spacing and properties of operators, after the MathML
//! operator dictionary, for the operators in common use.
use vstd::prelude::*;

use super::operator::{Flags, Form};

verus! {

/// The dictionary entry of an operator: spacing before and after it, in 18ths of an em, and
/// its properties.
#[derive(Debug, Copy, Clone, PartialEq, Eq, Structural)]
pub struct Entry {
    pub lspace: u8,
    pub rspace: u8,
    pub flags: Flags,
}

impl Default for Entry {
    /// The values for an operator that is not in the dictionary: a thick space (5/18 em) on
    /// both sides and no properties.
    fn default() -> (r: Entry)
        ensures
            r == default_entry(),
    {
        Entry { lspace: 5, rspace: 5, flags: Flags::empty() }
    }
}

/// The values for an operator that is not in the dictionary.
pub open spec fn default_entry() -> Entry {
    Entry { lspace: 5, rspace: 5, flags: Flags::empty_spec() }
}

/// The entry of the table for `c` in `form`, if there is one.
pub open spec fn table_entry(c: char, form: Form) -> Option<Entry> {
    match (c, form) {
        ('(', Form::Prefix) => Some(Entry { lspace: 0, rspace: 0, flags: Flags { symmetric: true, fence: true, stretchy: true, separator: false, accent: false, largeop: false, movable_limits: false } }),
        ('[', Form::Prefix) => Some(Entry { lspace: 0, rspace: 0, flags: Flags { symmetric: true, fence: true, stretchy: true, separator: false, accent: false, largeop: false, movable_limits: false } }),
        ('{', Form::Prefix) => Some(Entry { lspace: 0, rspace: 0, flags: Flags { symmetric: true, fence: true, stretchy: true, separator: false, accent: false, largeop: false, movable_limits: false } }),
        ('\u{27e8}', Form::Prefix) => Some(Entry { lspace: 0, rspace: 0, flags: Flags { symmetric: true, fence: true, stretchy: true, separator: false, accent: false, largeop: false, movable_limits: false } }),
        ('\u{2308}', Form::Prefix) => Some(Entry { lspace: 0, rspace: 0, flags: Flags { symmetric: true, fence: true, stretchy: true, separator: false, accent: false, largeop: false, movable_limits: false } }),
        ('\u{230a}', Form::Prefix) => Some(Entry { lspace: 0, rspace: 0, flags: Flags { symmetric: true, fence: true, stretchy: true, separator: false, accent: false, largeop: false, movable_limits: false } }),
        (')', Form::Postfix) => Some(Entry { lspace: 0, rspace: 0, flags: Flags { symmetric: true, fence: true, stretchy: true, separator: false, accent: false, largeop: false, movable_limits: false } }),
        (']', Form::Postfix) => Some(Entry { lspace: 0, rspace: 0, flags: Flags { symmetric: true, fence: true, stretchy: true, separator: false, accent: false, largeop: false, movable_limits: false } }),
        ('}', Form::Postfix) => Some(Entry { lspace: 0, rspace: 0, flags: Flags { symmetric: true, fence: true, stretchy: true, separator: false, accent: false, largeop: false, movable_limits: false } }),
        ('\u{27e9}', Form::Postfix) => Some(Entry { lspace: 0, rspace: 0, flags: Flags { symmetric: true, fence: true, stretchy: true, separator: false, accent: false, largeop: false, movable_limits: false } }),
        ('\u{2309}', Form::Postfix) => Some(Entry { lspace: 0, rspace: 0, flags: Flags { symmetric: true, fence: true, stretchy: true, separator: false, accent: false, largeop: false, movable_limits: false } }),
        ('\u{230b}', Form::Postfix) => Some(Entry { lspace: 0, rspace: 0, flags: Flags { symmetric: true, fence: true, stretchy: true, separator: false, accent: false, largeop: false, movable_limits: false } }),
        ('|', Form::Prefix) => Some(Entry { lspace: 0, rspace: 0, flags: Flags { symmetric: true, fence: true, stretchy: true, separator: false, accent: false, largeop: false, movable_limits: false } }),
        ('\u{2016}', Form::Prefix) => Some(Entry { lspace: 0, rspace: 0, flags: Flags { symmetric: true, fence: true, stretchy: true, separator: false, accent: false, largeop: false, movable_limits: false } }),
        ('|', Form::Postfix) => Some(Entry { lspace: 0, rspace: 0, flags: Flags { symmetric: true, fence: true, stretchy: true, separator: false, accent: false, largeop: false, movable_limits: false } }),
        ('\u{2016}', Form::Postfix) => Some(Entry { lspace: 0, rspace: 0, flags: Flags { symmetric: true, fence: true, stretchy: true, separator: false, accent: false, largeop: false, movable_limits: false } }),
        ('+', Form::Infix) => Some(Entry { lspace: 4, rspace: 4, flags: Flags { symmetric: false, fence: false, stretchy: false, separator: false, accent: false, largeop: false, movable_limits: false } }),
        ('\u{2212}', Form::Infix) => Some(Entry { lspace: 4, rspace: 4, flags: Flags { symmetric: false, fence: false, stretchy: false, separator: false, accent: false, largeop: false, movable_limits: false } }),
        ('\u{b1}', Form::Infix) => Some(Entry { lspace: 4, rspace: 4, flags: Flags { symmetric: false, fence: false, stretchy: false, separator: false, accent: false, largeop: false, movable_limits: false } }),
        ('\u{2213}', Form::Infix) => Some(Entry { lspace: 4, rspace: 4, flags: Flags { symmetric: false, fence: false, stretchy: false, separator: false, accent: false, largeop: false, movable_limits: false } }),
        ('+', Form::Prefix) => Some(Entry { lspace: 0, rspace: 1, flags: Flags { symmetric: false, fence: false, stretchy: false, separator: false, accent: false, largeop: false, movable_limits: false } }),
        ('\u{2212}', Form::Prefix) => Some(Entry { lspace: 0, rspace: 1, flags: Flags { symmetric: false, fence: false, stretchy: false, separator: false, accent: false, largeop: false, movable_limits: false } }),
        ('\u{b1}', Form::Prefix) => Some(Entry { lspace: 0, rspace: 1, flags: Flags { symmetric: false, fence: false, stretchy: false, separator: false, accent: false, largeop: false, movable_limits: false } }),
        ('\u{2213}', Form::Prefix) => Some(Entry { lspace: 0, rspace: 1, flags: Flags { symmetric: false, fence: false, stretchy: false, separator: false, accent: false, largeop: false, movable_limits: false } }),
        ('\u{d7}', Form::Infix) => Some(Entry { lspace: 4, rspace: 4, flags: Flags { symmetric: false, fence: false, stretchy: false, separator: false, accent: false, largeop: false, movable_limits: false } }),
        ('\u{b7}', Form::Infix) => Some(Entry { lspace: 4, rspace: 4, flags: Flags { symmetric: false, fence: false, stretchy: false, separator: false, accent: false, largeop: false, movable_limits: false } }),
        ('\u{22c5}', Form::Infix) => Some(Entry { lspace: 4, rspace: 4, flags: Flags { symmetric: false, fence: false, stretchy: false, separator: false, accent: false, largeop: false, movable_limits: false } }),
        ('\u{2217}', Form::Infix) => Some(Entry { lspace: 4, rspace: 4, flags: Flags { symmetric: false, fence: false, stretchy: false, separator: false, accent: false, largeop: false, movable_limits: false } }),
        ('\u{f7}', Form::Infix) => Some(Entry { lspace: 4, rspace: 4, flags: Flags { symmetric: false, fence: false, stretchy: false, separator: false, accent: false, largeop: false, movable_limits: false } }),
        ('/', Form::Infix) => Some(Entry { lspace: 4, rspace: 4, flags: Flags { symmetric: false, fence: false, stretchy: false, separator: false, accent: false, largeop: false, movable_limits: false } }),
        ('\u{2227}', Form::Infix) => Some(Entry { lspace: 4, rspace: 4, flags: Flags { symmetric: false, fence: false, stretchy: false, separator: false, accent: false, largeop: false, movable_limits: false } }),
        ('\u{2228}', Form::Infix) => Some(Entry { lspace: 4, rspace: 4, flags: Flags { symmetric: false, fence: false, stretchy: false, separator: false, accent: false, largeop: false, movable_limits: false } }),
        ('\u{2229}', Form::Infix) => Some(Entry { lspace: 4, rspace: 4, flags: Flags { symmetric: false, fence: false, stretchy: false, separator: false, accent: false, largeop: false, movable_limits: false } }),
        ('\u{222a}', Form::Infix) => Some(Entry { lspace: 4, rspace: 4, flags: Flags { symmetric: false, fence: false, stretchy: false, separator: false, accent: false, largeop: false, movable_limits: false } }),
        ('\u{2218}', Form::Infix) => Some(Entry { lspace: 4, rspace: 4, flags: Flags { symmetric: false, fence: false, stretchy: false, separator: false, accent: false, largeop: false, movable_limits: false } }),
        ('=', Form::Infix) => Some(Entry { lspace: 5, rspace: 5, flags: Flags { symmetric: false, fence: false, stretchy: false, separator: false, accent: false, largeop: false, movable_limits: false } }),
        ('<', Form::Infix) => Some(Entry { lspace: 5, rspace: 5, flags: Flags { symmetric: false, fence: false, stretchy: false, separator: false, accent: false, largeop: false, movable_limits: false } }),
        ('>', Form::Infix) => Some(Entry { lspace: 5, rspace: 5, flags: Flags { symmetric: false, fence: false, stretchy: false, separator: false, accent: false, largeop: false, movable_limits: false } }),
        ('\u{2264}', Form::Infix) => Some(Entry { lspace: 5, rspace: 5, flags: Flags { symmetric: false, fence: false, stretchy: false, separator: false, accent: false, largeop: false, movable_limits: false } }),
        ('\u{2265}', Form::Infix) => Some(Entry { lspace: 5, rspace: 5, flags: Flags { symmetric: false, fence: false, stretchy: false, separator: false, accent: false, largeop: false, movable_limits: false } }),
        ('\u{2260}', Form::Infix) => Some(Entry { lspace: 5, rspace: 5, flags: Flags { symmetric: false, fence: false, stretchy: false, separator: false, accent: false, largeop: false, movable_limits: false } }),
        ('\u{2248}', Form::Infix) => Some(Entry { lspace: 5, rspace: 5, flags: Flags { symmetric: false, fence: false, stretchy: false, separator: false, accent: false, largeop: false, movable_limits: false } }),
        ('\u{2261}', Form::Infix) => Some(Entry { lspace: 5, rspace: 5, flags: Flags { symmetric: false, fence: false, stretchy: false, separator: false, accent: false, largeop: false, movable_limits: false } }),
        ('\u{223c}', Form::Infix) => Some(Entry { lspace: 5, rspace: 5, flags: Flags { symmetric: false, fence: false, stretchy: false, separator: false, accent: false, largeop: false, movable_limits: false } }),
        ('\u{2245}', Form::Infix) => Some(Entry { lspace: 5, rspace: 5, flags: Flags { symmetric: false, fence: false, stretchy: false, separator: false, accent: false, largeop: false, movable_limits: false } }),
        ('\u{221d}', Form::Infix) => Some(Entry { lspace: 5, rspace: 5, flags: Flags { symmetric: false, fence: false, stretchy: false, separator: false, accent: false, largeop: false, movable_limits: false } }),
        ('\u{2208}', Form::Infix) => Some(Entry { lspace: 5, rspace: 5, flags: Flags { symmetric: false, fence: false, stretchy: false, separator: false, accent: false, largeop: false, movable_limits: false } }),
        ('\u{2209}', Form::Infix) => Some(Entry { lspace: 5, rspace: 5, flags: Flags { symmetric: false, fence: false, stretchy: false, separator: false, accent: false, largeop: false, movable_limits: false } }),
        ('\u{2282}', Form::Infix) => Some(Entry { lspace: 5, rspace: 5, flags: Flags { symmetric: false, fence: false, stretchy: false, separator: false, accent: false, largeop: false, movable_limits: false } }),
        ('\u{2283}', Form::Infix) => Some(Entry { lspace: 5, rspace: 5, flags: Flags { symmetric: false, fence: false, stretchy: false, separator: false, accent: false, largeop: false, movable_limits: false } }),
        ('\u{2286}', Form::Infix) => Some(Entry { lspace: 5, rspace: 5, flags: Flags { symmetric: false, fence: false, stretchy: false, separator: false, accent: false, largeop: false, movable_limits: false } }),
        ('\u{2287}', Form::Infix) => Some(Entry { lspace: 5, rspace: 5, flags: Flags { symmetric: false, fence: false, stretchy: false, separator: false, accent: false, largeop: false, movable_limits: false } }),
        ('\u{2223}', Form::Infix) => Some(Entry { lspace: 5, rspace: 5, flags: Flags { symmetric: false, fence: false, stretchy: false, separator: false, accent: false, largeop: false, movable_limits: false } }),
        ('\u{2192}', Form::Infix) => Some(Entry { lspace: 5, rspace: 5, flags: Flags { symmetric: false, fence: false, stretchy: true, separator: false, accent: false, largeop: false, movable_limits: false } }),
        ('\u{2190}', Form::Infix) => Some(Entry { lspace: 5, rspace: 5, flags: Flags { symmetric: false, fence: false, stretchy: true, separator: false, accent: false, largeop: false, movable_limits: false } }),
        ('\u{2194}', Form::Infix) => Some(Entry { lspace: 5, rspace: 5, flags: Flags { symmetric: false, fence: false, stretchy: true, separator: false, accent: false, largeop: false, movable_limits: false } }),
        ('\u{21d2}', Form::Infix) => Some(Entry { lspace: 5, rspace: 5, flags: Flags { symmetric: false, fence: false, stretchy: true, separator: false, accent: false, largeop: false, movable_limits: false } }),
        ('\u{21d4}', Form::Infix) => Some(Entry { lspace: 5, rspace: 5, flags: Flags { symmetric: false, fence: false, stretchy: true, separator: false, accent: false, largeop: false, movable_limits: false } }),
        ('\u{21a6}', Form::Infix) => Some(Entry { lspace: 5, rspace: 5, flags: Flags { symmetric: false, fence: false, stretchy: true, separator: false, accent: false, largeop: false, movable_limits: false } }),
        (',', Form::Infix) => Some(Entry { lspace: 0, rspace: 3, flags: Flags { symmetric: false, fence: false, stretchy: false, separator: true, accent: false, largeop: false, movable_limits: false } }),
        (';', Form::Infix) => Some(Entry { lspace: 0, rspace: 3, flags: Flags { symmetric: false, fence: false, stretchy: false, separator: true, accent: false, largeop: false, movable_limits: false } }),
        (':', Form::Infix) => Some(Entry { lspace: 1, rspace: 2, flags: Flags { symmetric: false, fence: false, stretchy: false, separator: false, accent: false, largeop: false, movable_limits: false } }),
        ('!', Form::Postfix) => Some(Entry { lspace: 1, rspace: 0, flags: Flags { symmetric: false, fence: false, stretchy: false, separator: false, accent: false, largeop: false, movable_limits: false } }),
        ('\u{2032}', Form::Postfix) => Some(Entry { lspace: 0, rspace: 0, flags: Flags { symmetric: false, fence: false, stretchy: false, separator: false, accent: false, largeop: false, movable_limits: false } }),
        ('\u{2033}', Form::Postfix) => Some(Entry { lspace: 0, rspace: 0, flags: Flags { symmetric: false, fence: false, stretchy: false, separator: false, accent: false, largeop: false, movable_limits: false } }),
        ('\u{2211}', Form::Prefix) => Some(Entry { lspace: 1, rspace: 2, flags: Flags { symmetric: true, fence: false, stretchy: false, separator: false, accent: false, largeop: true, movable_limits: true } }),
        ('\u{220f}', Form::Prefix) => Some(Entry { lspace: 1, rspace: 2, flags: Flags { symmetric: true, fence: false, stretchy: false, separator: false, accent: false, largeop: true, movable_limits: true } }),
        ('\u{2210}', Form::Prefix) => Some(Entry { lspace: 1, rspace: 2, flags: Flags { symmetric: true, fence: false, stretchy: false, separator: false, accent: false, largeop: true, movable_limits: true } }),
        ('\u{22c3}', Form::Prefix) => Some(Entry { lspace: 1, rspace: 2, flags: Flags { symmetric: true, fence: false, stretchy: false, separator: false, accent: false, largeop: true, movable_limits: true } }),
        ('\u{22c2}', Form::Prefix) => Some(Entry { lspace: 1, rspace: 2, flags: Flags { symmetric: true, fence: false, stretchy: false, separator: false, accent: false, largeop: true, movable_limits: true } }),
        ('\u{222b}', Form::Prefix) => Some(Entry { lspace: 0, rspace: 1, flags: Flags { symmetric: true, fence: false, stretchy: false, separator: false, accent: false, largeop: true, movable_limits: false } }),
        ('\u{222c}', Form::Prefix) => Some(Entry { lspace: 0, rspace: 1, flags: Flags { symmetric: true, fence: false, stretchy: false, separator: false, accent: false, largeop: true, movable_limits: false } }),
        ('\u{222d}', Form::Prefix) => Some(Entry { lspace: 0, rspace: 1, flags: Flags { symmetric: true, fence: false, stretchy: false, separator: false, accent: false, largeop: true, movable_limits: false } }),
        ('\u{222e}', Form::Prefix) => Some(Entry { lspace: 0, rspace: 1, flags: Flags { symmetric: true, fence: false, stretchy: false, separator: false, accent: false, largeop: true, movable_limits: false } }),
        ('\u{2200}', Form::Prefix) => Some(Entry { lspace: 2, rspace: 1, flags: Flags { symmetric: false, fence: false, stretchy: false, separator: false, accent: false, largeop: false, movable_limits: false } }),
        ('\u{2203}', Form::Prefix) => Some(Entry { lspace: 2, rspace: 1, flags: Flags { symmetric: false, fence: false, stretchy: false, separator: false, accent: false, largeop: false, movable_limits: false } }),
        ('\u{ac}', Form::Prefix) => Some(Entry { lspace: 2, rspace: 1, flags: Flags { symmetric: false, fence: false, stretchy: false, separator: false, accent: false, largeop: false, movable_limits: false } }),
        ('\u{2202}', Form::Prefix) => Some(Entry { lspace: 2, rspace: 1, flags: Flags { symmetric: false, fence: false, stretchy: false, separator: false, accent: false, largeop: false, movable_limits: false } }),
        ('\u{2207}', Form::Prefix) => Some(Entry { lspace: 2, rspace: 1, flags: Flags { symmetric: false, fence: false, stretchy: false, separator: false, accent: false, largeop: false, movable_limits: false } }),
        ('^', Form::Postfix) => Some(Entry { lspace: 0, rspace: 0, flags: Flags { symmetric: false, fence: false, stretchy: true, separator: false, accent: true, largeop: false, movable_limits: false } }),
        ('\u{2c6}', Form::Postfix) => Some(Entry { lspace: 0, rspace: 0, flags: Flags { symmetric: false, fence: false, stretchy: true, separator: false, accent: true, largeop: false, movable_limits: false } }),
        ('~', Form::Postfix) => Some(Entry { lspace: 0, rspace: 0, flags: Flags { symmetric: false, fence: false, stretchy: true, separator: false, accent: true, largeop: false, movable_limits: false } }),
        ('\u{2dc}', Form::Postfix) => Some(Entry { lspace: 0, rspace: 0, flags: Flags { symmetric: false, fence: false, stretchy: true, separator: false, accent: true, largeop: false, movable_limits: false } }),
        ('\u{af}', Form::Postfix) => Some(Entry { lspace: 0, rspace: 0, flags: Flags { symmetric: false, fence: false, stretchy: true, separator: false, accent: true, largeop: false, movable_limits: false } }),
        ('\u{203e}', Form::Postfix) => Some(Entry { lspace: 0, rspace: 0, flags: Flags { symmetric: false, fence: false, stretchy: true, separator: false, accent: true, largeop: false, movable_limits: false } }),
        ('\u{23de}', Form::Postfix) => Some(Entry { lspace: 0, rspace: 0, flags: Flags { symmetric: false, fence: false, stretchy: true, separator: false, accent: true, largeop: false, movable_limits: false } }),
        ('\u{23df}', Form::Postfix) => Some(Entry { lspace: 0, rspace: 0, flags: Flags { symmetric: false, fence: false, stretchy: true, separator: false, accent: true, largeop: false, movable_limits: false } }),
        ('\u{2c7}', Form::Postfix) => Some(Entry { lspace: 0, rspace: 0, flags: Flags { symmetric: false, fence: false, stretchy: false, separator: false, accent: true, largeop: false, movable_limits: false } }),
        ('\u{2d9}', Form::Postfix) => Some(Entry { lspace: 0, rspace: 0, flags: Flags { symmetric: false, fence: false, stretchy: false, separator: false, accent: true, largeop: false, movable_limits: false } }),
        ('\u{a8}', Form::Postfix) => Some(Entry { lspace: 0, rspace: 0, flags: Flags { symmetric: false, fence: false, stretchy: false, separator: false, accent: true, largeop: false, movable_limits: false } }),
        ('\u{b4}', Form::Postfix) => Some(Entry { lspace: 0, rspace: 0, flags: Flags { symmetric: false, fence: false, stretchy: false, separator: false, accent: true, largeop: false, movable_limits: false } }),
        ('`', Form::Postfix) => Some(Entry { lspace: 0, rspace: 0, flags: Flags { symmetric: false, fence: false, stretchy: false, separator: false, accent: true, largeop: false, movable_limits: false } }),
        _ => None,
    }
}

/// The entry of the table for `c` in `form`, if there is one.
fn table_lookup(c: char, form: Form) -> (r: Option<Entry>)
    ensures
        r == table_entry(c, form),
{
    match (c, form) {
        ('(', Form::Prefix) => Some(Entry { lspace: 0, rspace: 0, flags: Flags { symmetric: true, fence: true, stretchy: true, separator: false, accent: false, largeop: false, movable_limits: false } }),
        ('[', Form::Prefix) => Some(Entry { lspace: 0, rspace: 0, flags: Flags { symmetric: true, fence: true, stretchy: true, separator: false, accent: false, largeop: false, movable_limits: false } }),
        ('{', Form::Prefix) => Some(Entry { lspace: 0, rspace: 0, flags: Flags { symmetric: true, fence: true, stretchy: true, separator: false, accent: false, largeop: false, movable_limits: false } }),
        ('\u{27e8}', Form::Prefix) => Some(Entry { lspace: 0, rspace: 0, flags: Flags { symmetric: true, fence: true, stretchy: true, separator: false, accent: false, largeop: false, movable_limits: false } }),
        ('\u{2308}', Form::Prefix) => Some(Entry { lspace: 0, rspace: 0, flags: Flags { symmetric: true, fence: true, stretchy: true, separator: false, accent: false, largeop: false, movable_limits: false } }),
        ('\u{230a}', Form::Prefix) => Some(Entry { lspace: 0, rspace: 0, flags: Flags { symmetric: true, fence: true, stretchy: true, separator: false, accent: false, largeop: false, movable_limits: false } }),
        (')', Form::Postfix) => Some(Entry { lspace: 0, rspace: 0, flags: Flags { symmetric: true, fence: true, stretchy: true, separator: false, accent: false, largeop: false, movable_limits: false } }),
        (']', Form::Postfix) => Some(Entry { lspace: 0, rspace: 0, flags: Flags { symmetric: true, fence: true, stretchy: true, separator: false, accent: false, largeop: false, movable_limits: false } }),
        ('}', Form::Postfix) => Some(Entry { lspace: 0, rspace: 0, flags: Flags { symmetric: true, fence: true, stretchy: true, separator: false, accent: false, largeop: false, movable_limits: false } }),
        ('\u{27e9}', Form::Postfix) => Some(Entry { lspace: 0, rspace: 0, flags: Flags { symmetric: true, fence: true, stretchy: true, separator: false, accent: false, largeop: false, movable_limits: false } }),
        ('\u{2309}', Form::Postfix) => Some(Entry { lspace: 0, rspace: 0, flags: Flags { symmetric: true, fence: true, stretchy: true, separator: false, accent: false, largeop: false, movable_limits: false } }),
        ('\u{230b}', Form::Postfix) => Some(Entry { lspace: 0, rspace: 0, flags: Flags { symmetric: true, fence: true, stretchy: true, separator: false, accent: false, largeop: false, movable_limits: false } }),
        ('|', Form::Prefix) => Some(Entry { lspace: 0, rspace: 0, flags: Flags { symmetric: true, fence: true, stretchy: true, separator: false, accent: false, largeop: false, movable_limits: false } }),
        ('\u{2016}', Form::Prefix) => Some(Entry { lspace: 0, rspace: 0, flags: Flags { symmetric: true, fence: true, stretchy: true, separator: false, accent: false, largeop: false, movable_limits: false } }),
        ('|', Form::Postfix) => Some(Entry { lspace: 0, rspace: 0, flags: Flags { symmetric: true, fence: true, stretchy: true, separator: false, accent: false, largeop: false, movable_limits: false } }),
        ('\u{2016}', Form::Postfix) => Some(Entry { lspace: 0, rspace: 0, flags: Flags { symmetric: true, fence: true, stretchy: true, separator: false, accent: false, largeop: false, movable_limits: false } }),
        ('+', Form::Infix) => Some(Entry { lspace: 4, rspace: 4, flags: Flags { symmetric: false, fence: false, stretchy: false, separator: false, accent: false, largeop: false, movable_limits: false } }),
        ('\u{2212}', Form::Infix) => Some(Entry { lspace: 4, rspace: 4, flags: Flags { symmetric: false, fence: false, stretchy: false, separator: false, accent: false, largeop: false, movable_limits: false } }),
        ('\u{b1}', Form::Infix) => Some(Entry { lspace: 4, rspace: 4, flags: Flags { symmetric: false, fence: false, stretchy: false, separator: false, accent: false, largeop: false, movable_limits: false } }),
        ('\u{2213}', Form::Infix) => Some(Entry { lspace: 4, rspace: 4, flags: Flags { symmetric: false, fence: false, stretchy: false, separator: false, accent: false, largeop: false, movable_limits: false } }),
        ('+', Form::Prefix) => Some(Entry { lspace: 0, rspace: 1, flags: Flags { symmetric: false, fence: false, stretchy: false, separator: false, accent: false, largeop: false, movable_limits: false } }),
        ('\u{2212}', Form::Prefix) => Some(Entry { lspace: 0, rspace: 1, flags: Flags { symmetric: false, fence: false, stretchy: false, separator: false, accent: false, largeop: false, movable_limits: false } }),
        ('\u{b1}', Form::Prefix) => Some(Entry { lspace: 0, rspace: 1, flags: Flags { symmetric: false, fence: false, stretchy: false, separator: false, accent: false, largeop: false, movable_limits: false } }),
        ('\u{2213}', Form::Prefix) => Some(Entry { lspace: 0, rspace: 1, flags: Flags { symmetric: false, fence: false, stretchy: false, separator: false, accent: false, largeop: false, movable_limits: false } }),
        ('\u{d7}', Form::Infix) => Some(Entry { lspace: 4, rspace: 4, flags: Flags { symmetric: false, fence: false, stretchy: false, separator: false, accent: false, largeop: false, movable_limits: false } }),
        ('\u{b7}', Form::Infix) => Some(Entry { lspace: 4, rspace: 4, flags: Flags { symmetric: false, fence: false, stretchy: false, separator: false, accent: false, largeop: false, movable_limits: false } }),
        ('\u{22c5}', Form::Infix) => Some(Entry { lspace: 4, rspace: 4, flags: Flags { symmetric: false, fence: false, stretchy: false, separator: false, accent: false, largeop: false, movable_limits: false } }),
        ('\u{2217}', Form::Infix) => Some(Entry { lspace: 4, rspace: 4, flags: Flags { symmetric: false, fence: false, stretchy: false, separator: false, accent: false, largeop: false, movable_limits: false } }),
        ('\u{f7}', Form::Infix) => Some(Entry { lspace: 4, rspace: 4, flags: Flags { symmetric: false, fence: false, stretchy: false, separator: false, accent: false, largeop: false, movable_limits: false } }),
        ('/', Form::Infix) => Some(Entry { lspace: 4, rspace: 4, flags: Flags { symmetric: false, fence: false, stretchy: false, separator: false, accent: false, largeop: false, movable_limits: false } }),
        ('\u{2227}', Form::Infix) => Some(Entry { lspace: 4, rspace: 4, flags: Flags { symmetric: false, fence: false, stretchy: false, separator: false, accent: false, largeop: false, movable_limits: false } }),
        ('\u{2228}', Form::Infix) => Some(Entry { lspace: 4, rspace: 4, flags: Flags { symmetric: false, fence: false, stretchy: false, separator: false, accent: false, largeop: false, movable_limits: false } }),
        ('\u{2229}', Form::Infix) => Some(Entry { lspace: 4, rspace: 4, flags: Flags { symmetric: false, fence: false, stretchy: false, separator: false, accent: false, largeop: false, movable_limits: false } }),
        ('\u{222a}', Form::Infix) => Some(Entry { lspace: 4, rspace: 4, flags: Flags { symmetric: false, fence: false, stretchy: false, separator: false, accent: false, largeop: false, movable_limits: false } }),
        ('\u{2218}', Form::Infix) => Some(Entry { lspace: 4, rspace: 4, flags: Flags { symmetric: false, fence: false, stretchy: false, separator: false, accent: false, largeop: false, movable_limits: false } }),
        ('=', Form::Infix) => Some(Entry { lspace: 5, rspace: 5, flags: Flags { symmetric: false, fence: false, stretchy: false, separator: false, accent: false, largeop: false, movable_limits: false } }),
        ('<', Form::Infix) => Some(Entry { lspace: 5, rspace: 5, flags: Flags { symmetric: false, fence: false, stretchy: false, separator: false, accent: false, largeop: false, movable_limits: false } }),
        ('>', Form::Infix) => Some(Entry { lspace: 5, rspace: 5, flags: Flags { symmetric: false, fence: false, stretchy: false, separator: false, accent: false, largeop: false, movable_limits: false } }),
        ('\u{2264}', Form::Infix) => Some(Entry { lspace: 5, rspace: 5, flags: Flags { symmetric: false, fence: false, stretchy: false, separator: false, accent: false, largeop: false, movable_limits: false } }),
        ('\u{2265}', Form::Infix) => Some(Entry { lspace: 5, rspace: 5, flags: Flags { symmetric: false, fence: false, stretchy: false, separator: false, accent: false, largeop: false, movable_limits: false } }),
        ('\u{2260}', Form::Infix) => Some(Entry { lspace: 5, rspace: 5, flags: Flags { symmetric: false, fence: false, stretchy: false, separator: false, accent: false, largeop: false, movable_limits: false } }),
        ('\u{2248}', Form::Infix) => Some(Entry { lspace: 5, rspace: 5, flags: Flags { symmetric: false, fence: false, stretchy: false, separator: false, accent: false, largeop: false, movable_limits: false } }),
        ('\u{2261}', Form::Infix) => Some(Entry { lspace: 5, rspace: 5, flags: Flags { symmetric: false, fence: false, stretchy: false, separator: false, accent: false, largeop: false, movable_limits: false } }),
        ('\u{223c}', Form::Infix) => Some(Entry { lspace: 5, rspace: 5, flags: Flags { symmetric: false, fence: false, stretchy: false, separator: false, accent: false, largeop: false, movable_limits: false } }),
        ('\u{2245}', Form::Infix) => Some(Entry { lspace: 5, rspace: 5, flags: Flags { symmetric: false, fence: false, stretchy: false, separator: false, accent: false, largeop: false, movable_limits: false } }),
        ('\u{221d}', Form::Infix) => Some(Entry { lspace: 5, rspace: 5, flags: Flags { symmetric: false, fence: false, stretchy: false, separator: false, accent: false, largeop: false, movable_limits: false } }),
        ('\u{2208}', Form::Infix) => Some(Entry { lspace: 5, rspace: 5, flags: Flags { symmetric: false, fence: false, stretchy: false, separator: false, accent: false, largeop: false, movable_limits: false } }),
        ('\u{2209}', Form::Infix) => Some(Entry { lspace: 5, rspace: 5, flags: Flags { symmetric: false, fence: false, stretchy: false, separator: false, accent: false, largeop: false, movable_limits: false } }),
        ('\u{2282}', Form::Infix) => Some(Entry { lspace: 5, rspace: 5, flags: Flags { symmetric: false, fence: false, stretchy: false, separator: false, accent: false, largeop: false, movable_limits: false } }),
        ('\u{2283}', Form::Infix) => Some(Entry { lspace: 5, rspace: 5, flags: Flags { symmetric: false, fence: false, stretchy: false, separator: false, accent: false, largeop: false, movable_limits: false } }),
        ('\u{2286}', Form::Infix) => Some(Entry { lspace: 5, rspace: 5, flags: Flags { symmetric: false, fence: false, stretchy: false, separator: false, accent: false, largeop: false, movable_limits: false } }),
        ('\u{2287}', Form::Infix) => Some(Entry { lspace: 5, rspace: 5, flags: Flags { symmetric: false, fence: false, stretchy: false, separator: false, accent: false, largeop: false, movable_limits: false } }),
        ('\u{2223}', Form::Infix) => Some(Entry { lspace: 5, rspace: 5, flags: Flags { symmetric: false, fence: false, stretchy: false, separator: false, accent: false, largeop: false, movable_limits: false } }),
        ('\u{2192}', Form::Infix) => Some(Entry { lspace: 5, rspace: 5, flags: Flags { symmetric: false, fence: false, stretchy: true, separator: false, accent: false, largeop: false, movable_limits: false } }),
        ('\u{2190}', Form::Infix) => Some(Entry { lspace: 5, rspace: 5, flags: Flags { symmetric: false, fence: false, stretchy: true, separator: false, accent: false, largeop: false, movable_limits: false } }),
        ('\u{2194}', Form::Infix) => Some(Entry { lspace: 5, rspace: 5, flags: Flags { symmetric: false, fence: false, stretchy: true, separator: false, accent: false, largeop: false, movable_limits: false } }),
        ('\u{21d2}', Form::Infix) => Some(Entry { lspace: 5, rspace: 5, flags: Flags { symmetric: false, fence: false, stretchy: true, separator: false, accent: false, largeop: false, movable_limits: false } }),
        ('\u{21d4}', Form::Infix) => Some(Entry { lspace: 5, rspace: 5, flags: Flags { symmetric: false, fence: false, stretchy: true, separator: false, accent: false, largeop: false, movable_limits: false } }),
        ('\u{21a6}', Form::Infix) => Some(Entry { lspace: 5, rspace: 5, flags: Flags { symmetric: false, fence: false, stretchy: true, separator: false, accent: false, largeop: false, movable_limits: false } }),
        (',', Form::Infix) => Some(Entry { lspace: 0, rspace: 3, flags: Flags { symmetric: false, fence: false, stretchy: false, separator: true, accent: false, largeop: false, movable_limits: false } }),
        (';', Form::Infix) => Some(Entry { lspace: 0, rspace: 3, flags: Flags { symmetric: false, fence: false, stretchy: false, separator: true, accent: false, largeop: false, movable_limits: false } }),
        (':', Form::Infix) => Some(Entry { lspace: 1, rspace: 2, flags: Flags { symmetric: false, fence: false, stretchy: false, separator: false, accent: false, largeop: false, movable_limits: false } }),
        ('!', Form::Postfix) => Some(Entry { lspace: 1, rspace: 0, flags: Flags { symmetric: false, fence: false, stretchy: false, separator: false, accent: false, largeop: false, movable_limits: false } }),
        ('\u{2032}', Form::Postfix) => Some(Entry { lspace: 0, rspace: 0, flags: Flags { symmetric: false, fence: false, stretchy: false, separator: false, accent: false, largeop: false, movable_limits: false } }),
        ('\u{2033}', Form::Postfix) => Some(Entry { lspace: 0, rspace: 0, flags: Flags { symmetric: false, fence: false, stretchy: false, separator: false, accent: false, largeop: false, movable_limits: false } }),
        ('\u{2211}', Form::Prefix) => Some(Entry { lspace: 1, rspace: 2, flags: Flags { symmetric: true, fence: false, stretchy: false, separator: false, accent: false, largeop: true, movable_limits: true } }),
        ('\u{220f}', Form::Prefix) => Some(Entry { lspace: 1, rspace: 2, flags: Flags { symmetric: true, fence: false, stretchy: false, separator: false, accent: false, largeop: true, movable_limits: true } }),
        ('\u{2210}', Form::Prefix) => Some(Entry { lspace: 1, rspace: 2, flags: Flags { symmetric: true, fence: false, stretchy: false, separator: false, accent: false, largeop: true, movable_limits: true } }),
        ('\u{22c3}', Form::Prefix) => Some(Entry { lspace: 1, rspace: 2, flags: Flags { symmetric: true, fence: false, stretchy: false, separator: false, accent: false, largeop: true, movable_limits: true } }),
        ('\u{22c2}', Form::Prefix) => Some(Entry { lspace: 1, rspace: 2, flags: Flags { symmetric: true, fence: false, stretchy: false, separator: false, accent: false, largeop: true, movable_limits: true } }),
        ('\u{222b}', Form::Prefix) => Some(Entry { lspace: 0, rspace: 1, flags: Flags { symmetric: true, fence: false, stretchy: false, separator: false, accent: false, largeop: true, movable_limits: false } }),
        ('\u{222c}', Form::Prefix) => Some(Entry { lspace: 0, rspace: 1, flags: Flags { symmetric: true, fence: false, stretchy: false, separator: false, accent: false, largeop: true, movable_limits: false } }),
        ('\u{222d}', Form::Prefix) => Some(Entry { lspace: 0, rspace: 1, flags: Flags { symmetric: true, fence: false, stretchy: false, separator: false, accent: false, largeop: true, movable_limits: false } }),
        ('\u{222e}', Form::Prefix) => Some(Entry { lspace: 0, rspace: 1, flags: Flags { symmetric: true, fence: false, stretchy: false, separator: false, accent: false, largeop: true, movable_limits: false } }),
        ('\u{2200}', Form::Prefix) => Some(Entry { lspace: 2, rspace: 1, flags: Flags { symmetric: false, fence: false, stretchy: false, separator: false, accent: false, largeop: false, movable_limits: false } }),
        ('\u{2203}', Form::Prefix) => Some(Entry { lspace: 2, rspace: 1, flags: Flags { symmetric: false, fence: false, stretchy: false, separator: false, accent: false, largeop: false, movable_limits: false } }),
        ('\u{ac}', Form::Prefix) => Some(Entry { lspace: 2, rspace: 1, flags: Flags { symmetric: false, fence: false, stretchy: false, separator: false, accent: false, largeop: false, movable_limits: false } }),
        ('\u{2202}', Form::Prefix) => Some(Entry { lspace: 2, rspace: 1, flags: Flags { symmetric: false, fence: false, stretchy: false, separator: false, accent: false, largeop: false, movable_limits: false } }),
        ('\u{2207}', Form::Prefix) => Some(Entry { lspace: 2, rspace: 1, flags: Flags { symmetric: false, fence: false, stretchy: false, separator: false, accent: false, largeop: false, movable_limits: false } }),
        ('^', Form::Postfix) => Some(Entry { lspace: 0, rspace: 0, flags: Flags { symmetric: false, fence: false, stretchy: true, separator: false, accent: true, largeop: false, movable_limits: false } }),
        ('\u{2c6}', Form::Postfix) => Some(Entry { lspace: 0, rspace: 0, flags: Flags { symmetric: false, fence: false, stretchy: true, separator: false, accent: true, largeop: false, movable_limits: false } }),
        ('~', Form::Postfix) => Some(Entry { lspace: 0, rspace: 0, flags: Flags { symmetric: false, fence: false, stretchy: true, separator: false, accent: true, largeop: false, movable_limits: false } }),
        ('\u{2dc}', Form::Postfix) => Some(Entry { lspace: 0, rspace: 0, flags: Flags { symmetric: false, fence: false, stretchy: true, separator: false, accent: true, largeop: false, movable_limits: false } }),
        ('\u{af}', Form::Postfix) => Some(Entry { lspace: 0, rspace: 0, flags: Flags { symmetric: false, fence: false, stretchy: true, separator: false, accent: true, largeop: false, movable_limits: false } }),
        ('\u{203e}', Form::Postfix) => Some(Entry { lspace: 0, rspace: 0, flags: Flags { symmetric: false, fence: false, stretchy: true, separator: false, accent: true, largeop: false, movable_limits: false } }),
        ('\u{23de}', Form::Postfix) => Some(Entry { lspace: 0, rspace: 0, flags: Flags { symmetric: false, fence: false, stretchy: true, separator: false, accent: true, largeop: false, movable_limits: false } }),
        ('\u{23df}', Form::Postfix) => Some(Entry { lspace: 0, rspace: 0, flags: Flags { symmetric: false, fence: false, stretchy: true, separator: false, accent: true, largeop: false, movable_limits: false } }),
        ('\u{2c7}', Form::Postfix) => Some(Entry { lspace: 0, rspace: 0, flags: Flags { symmetric: false, fence: false, stretchy: false, separator: false, accent: true, largeop: false, movable_limits: false } }),
        ('\u{2d9}', Form::Postfix) => Some(Entry { lspace: 0, rspace: 0, flags: Flags { symmetric: false, fence: false, stretchy: false, separator: false, accent: true, largeop: false, movable_limits: false } }),
        ('\u{a8}', Form::Postfix) => Some(Entry { lspace: 0, rspace: 0, flags: Flags { symmetric: false, fence: false, stretchy: false, separator: false, accent: true, largeop: false, movable_limits: false } }),
        ('\u{b4}', Form::Postfix) => Some(Entry { lspace: 0, rspace: 0, flags: Flags { symmetric: false, fence: false, stretchy: false, separator: false, accent: true, largeop: false, movable_limits: false } }),
        ('`', Form::Postfix) => Some(Entry { lspace: 0, rspace: 0, flags: Flags { symmetric: false, fence: false, stretchy: false, separator: false, accent: true, largeop: false, movable_limits: false } }),
        _ => None,
    }
}

/// The dictionary entry of `c` in `form`; when the table has none for that form, the entry
/// of the first form it has among infix, postfix and prefix.
pub open spec fn entry_spec(c: char, form: Form) -> Option<Entry> {
    match table_entry(c, form) {
        Some(e) => Some(e),
        None => match table_entry(c, Form::Infix) {
            Some(e) => Some(e),
            None => match table_entry(c, Form::Postfix) {
                Some(e) => Some(e),
                None => table_entry(c, Form::Prefix),
            },
        },
    }
}

/// The dictionary entry of `c` in `form` (see `entry_spec`).
pub fn find_entry(c: char, form: Form) -> (r: Option<Entry>)
    ensures
        r == entry_spec(c, form),
{
    match table_lookup(c, form) {
        Some(e) => Some(e),
        None => match table_lookup(c, Form::Infix) {
            Some(e) => Some(e),
            None => match table_lookup(c, Form::Postfix) {
                Some(e) => Some(e),
                None => table_lookup(c, Form::Prefix),
            },
        },
    }
}

} // verus!
