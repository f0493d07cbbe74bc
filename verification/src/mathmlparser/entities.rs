//! The named character references the parser replaces (HTML and MathML entity names).
use vstd::prelude::*;

use crate::text::chars_eq;

verus! {

/// The replacement text of a named character reference, if the name is known.
pub open spec fn entity_spec(name: Seq<char>) -> Option<Seq<char>> {
    if name == seq!['a', 'm', 'p'] {
        Some(seq!['&'])
    } else if name == seq!['l', 't'] {
        Some(seq!['<'])
    } else if name == seq!['g', 't'] {
        Some(seq!['>'])
    } else if name == seq!['q', 'u', 'o', 't'] {
        Some(seq!['"'])
    } else if name == seq!['a', 'p', 'o', 's'] {
        Some(seq!['\''])
    } else if name == seq!['n', 'b', 's', 'p'] {
        Some(seq!['\u{a0}'])
    } else if name == seq!['n', 'u', 'm'] {
        Some(seq!['#'])
    } else if name == seq!['e', 'x', 'c', 'l'] {
        Some(seq!['!'])
    } else if name == seq!['p', 'e', 'r', 'c', 'n', 't'] {
        Some(seq!['%'])
    } else if name == seq!['l', 'p', 'a', 'r'] {
        Some(seq!['('])
    } else if name == seq!['r', 'p', 'a', 'r'] {
        Some(seq![')'])
    } else if name == seq!['a', 's', 't'] {
        Some(seq!['*'])
    } else if name == seq!['p', 'l', 'u', 's'] {
        Some(seq!['+'])
    } else if name == seq!['c', 'o', 'm', 'm', 'a'] {
        Some(seq![','])
    } else if name == seq!['p', 'e', 'r', 'i', 'o', 'd'] {
        Some(seq!['.'])
    } else if name == seq!['s', 'o', 'l'] {
        Some(seq!['/'])
    } else if name == seq!['c', 'o', 'l', 'o', 'n'] {
        Some(seq![':'])
    } else if name == seq!['s', 'e', 'm', 'i'] {
        Some(seq![';'])
    } else if name == seq!['e', 'q', 'u', 'a', 'l', 's'] {
        Some(seq!['='])
    } else if name == seq!['q', 'u', 'e', 's', 't'] {
        Some(seq!['?'])
    } else if name == seq!['c', 'o', 'm', 'm', 'a', 't'] {
        Some(seq!['@'])
    } else if name == seq!['l', 's', 'q', 'b'] {
        Some(seq!['['])
    } else if name == seq!['r', 's', 'q', 'b'] {
        Some(seq![']'])
    } else if name == seq!['b', 's', 'o', 'l'] {
        Some(seq!['\\'])
    } else if name == seq!['l', 'o', 'w', 'b', 'a', 'r'] {
        Some(seq!['_'])
    } else if name == seq!['l', 'c', 'u', 'b'] {
        Some(seq!['{'])
    } else if name == seq!['r', 'c', 'u', 'b'] {
        Some(seq!['}'])
    } else if name == seq!['v', 'e', 'r', 'b', 'a', 'r'] {
        Some(seq!['|'])
    } else if name == seq!['v', 'e', 'r', 't'] {
        Some(seq!['|'])
    } else if name == seq!['A', 'u', 'm', 'l'] {
        Some(seq!['\u{c4}'])
    } else if name == seq!['a', 'u', 'm', 'l'] {
        Some(seq!['\u{e4}'])
    } else if name == seq!['O', 'u', 'm', 'l'] {
        Some(seq!['\u{d6}'])
    } else if name == seq!['o', 'u', 'm', 'l'] {
        Some(seq!['\u{f6}'])
    } else if name == seq!['U', 'u', 'm', 'l'] {
        Some(seq!['\u{dc}'])
    } else if name == seq!['u', 'u', 'm', 'l'] {
        Some(seq!['\u{fc}'])
    } else if name == seq!['s', 'z', 'l', 'i', 'g'] {
        Some(seq!['\u{df}'])
    } else if name == seq!['t', 'i', 'm', 'e', 's'] {
        Some(seq!['\u{d7}'])
    } else if name == seq!['d', 'i', 'v', 'i', 'd', 'e'] {
        Some(seq!['\u{f7}'])
    } else if name == seq!['m', 'i', 'd', 'd', 'o', 't'] {
        Some(seq!['\u{b7}'])
    } else if name == seq!['c', 'e', 'n', 't', 'e', 'r', 'd', 'o', 't'] {
        Some(seq!['\u{b7}'])
    } else if name == seq!['p', 'l', 'u', 's', 'm', 'n'] {
        Some(seq!['\u{b1}'])
    } else if name == seq!['P', 'l', 'u', 's', 'M', 'i', 'n', 'u', 's'] {
        Some(seq!['\u{b1}'])
    } else if name == seq!['p', 'm'] {
        Some(seq!['\u{b1}'])
    } else if name == seq!['m', 'i', 'n', 'u', 's'] {
        Some(seq!['\u{2212}'])
    } else if name == seq!['m', 'n', 'p', 'l', 'u', 's'] {
        Some(seq!['\u{2213}'])
    } else if name == seq!['d', 'e', 'g'] {
        Some(seq!['\u{b0}'])
    } else if name == seq!['p', 'r', 'i', 'm', 'e'] {
        Some(seq!['\u{2032}'])
    } else if name == seq!['P', 'r', 'i', 'm', 'e'] {
        Some(seq!['\u{2033}'])
    } else if name == seq!['i', 'n', 'f', 'i', 'n'] {
        Some(seq!['\u{221e}'])
    } else if name == seq!['s', 'u', 'm'] {
        Some(seq!['\u{2211}'])
    } else if name == seq!['S', 'u', 'm'] {
        Some(seq!['\u{2211}'])
    } else if name == seq!['p', 'r', 'o', 'd'] {
        Some(seq!['\u{220f}'])
    } else if name == seq!['i', 'n', 't'] {
        Some(seq!['\u{222b}'])
    } else if name == seq!['I', 'n', 't', 'e', 'g', 'r', 'a', 'l'] {
        Some(seq!['\u{222b}'])
    } else if name == seq!['i', 'i', 'n', 't'] {
        Some(seq!['\u{222c}'])
    } else if name == seq!['o', 'i', 'n', 't'] {
        Some(seq!['\u{222e}'])
    } else if name == seq!['p', 'a', 'r', 't', 'i', 'a', 'l'] {
        Some(seq!['\u{2202}'])
    } else if name == seq!['n', 'a', 'b', 'l', 'a'] {
        Some(seq!['\u{2207}'])
    } else if name == seq!['D', 'e', 'l'] {
        Some(seq!['\u{2207}'])
    } else if name == seq!['r', 'a', 'd', 'i', 'c'] {
        Some(seq!['\u{221a}'])
    } else if name == seq!['S', 'q', 'r', 't'] {
        Some(seq!['\u{221a}'])
    } else if name == seq!['p', 'r', 'o', 'p'] {
        Some(seq!['\u{221d}'])
    } else if name == seq!['n', 'e'] {
        Some(seq!['\u{2260}'])
    } else if name == seq!['l', 'e'] {
        Some(seq!['\u{2264}'])
    } else if name == seq!['g', 'e'] {
        Some(seq!['\u{2265}'])
    } else if name == seq!['l', 'e', 'q'] {
        Some(seq!['\u{2264}'])
    } else if name == seq!['g', 'e', 'q'] {
        Some(seq!['\u{2265}'])
    } else if name == seq!['e', 'q', 'u', 'i', 'v'] {
        Some(seq!['\u{2261}'])
    } else if name == seq!['a', 'p', 'p', 'r', 'o', 'x'] {
        Some(seq!['\u{2248}'])
    } else if name == seq!['s', 'i', 'm'] {
        Some(seq!['\u{223c}'])
    } else if name == seq!['l', 'a', 'r', 'r'] {
        Some(seq!['\u{2190}'])
    } else if name == seq!['r', 'a', 'r', 'r'] {
        Some(seq!['\u{2192}'])
    } else if name == seq!['u', 'a', 'r', 'r'] {
        Some(seq!['\u{2191}'])
    } else if name == seq!['d', 'a', 'r', 'r'] {
        Some(seq!['\u{2193}'])
    } else if name == seq!['h', 'a', 'r', 'r'] {
        Some(seq!['\u{2194}'])
    } else if name == seq!['l', 'A', 'r', 'r'] {
        Some(seq!['\u{21d0}'])
    } else if name == seq!['r', 'A', 'r', 'r'] {
        Some(seq!['\u{21d2}'])
    } else if name == seq!['h', 'A', 'r', 'r'] {
        Some(seq!['\u{21d4}'])
    } else if name == seq!['R', 'i', 'g', 'h', 't', 'A', 'r', 'r', 'o', 'w'] {
        Some(seq!['\u{2192}'])
    } else if name == seq!['L', 'e', 'f', 't', 'A', 'r', 'r', 'o', 'w'] {
        Some(seq!['\u{2190}'])
    } else if name == seq!['f', 'o', 'r', 'a', 'l', 'l'] {
        Some(seq!['\u{2200}'])
    } else if name == seq!['e', 'x', 'i', 's', 't'] {
        Some(seq!['\u{2203}'])
    } else if name == seq!['i', 's', 'i', 'n'] {
        Some(seq!['\u{2208}'])
    } else if name == seq!['i', 'n'] {
        Some(seq!['\u{2208}'])
    } else if name == seq!['n', 'o', 't', 'i', 'n'] {
        Some(seq!['\u{2209}'])
    } else if name == seq!['s', 'u', 'b'] {
        Some(seq!['\u{2282}'])
    } else if name == seq!['s', 'u', 'p'] {
        Some(seq!['\u{2283}'])
    } else if name == seq!['s', 'u', 'b', 'e'] {
        Some(seq!['\u{2286}'])
    } else if name == seq!['s', 'u', 'p', 'e'] {
        Some(seq!['\u{2287}'])
    } else if name == seq!['c', 'u', 'p'] {
        Some(seq!['\u{222a}'])
    } else if name == seq!['c', 'a', 'p'] {
        Some(seq!['\u{2229}'])
    } else if name == seq!['a', 'n', 'd'] {
        Some(seq!['\u{2227}'])
    } else if name == seq!['o', 'r'] {
        Some(seq!['\u{2228}'])
    } else if name == seq!['n', 'o', 't'] {
        Some(seq!['\u{ac}'])
    } else if name == seq!['e', 'm', 'p', 't', 'y'] {
        Some(seq!['\u{2205}'])
    } else if name == seq!['e', 'm', 'p', 't', 'y', 's', 'e', 't'] {
        Some(seq!['\u{2205}'])
    } else if name == seq!['A', 'p', 'p', 'l', 'y', 'F', 'u', 'n', 'c', 't', 'i', 'o', 'n'] {
        Some(seq!['\u{2061}'])
    } else if name == seq!['a', 'f'] {
        Some(seq!['\u{2061}'])
    } else if name == seq!['I', 'n', 'v', 'i', 's', 'i', 'b', 'l', 'e', 'T', 'i', 'm', 'e', 's'] {
        Some(seq!['\u{2062}'])
    } else if name == seq!['i', 't'] {
        Some(seq!['\u{2062}'])
    } else if name == seq!['I', 'n', 'v', 'i', 's', 'i', 'b', 'l', 'e', 'C', 'o', 'm', 'm', 'a'] {
        Some(seq!['\u{2063}'])
    } else if name == seq!['i', 'c'] {
        Some(seq!['\u{2063}'])
    } else if name == seq!['h', 'e', 'l', 'l', 'i', 'p'] {
        Some(seq!['\u{2026}'])
    } else if name == seq!['c', 'd', 'o', 't'] {
        Some(seq!['\u{22c5}'])
    } else if name == seq!['s', 'd', 'o', 't'] {
        Some(seq!['\u{22c5}'])
    } else if name == seq!['e', 'l', 'l'] {
        Some(seq!['\u{2113}'])
    } else if name == seq!['h', 'b', 'a', 'r'] {
        Some(seq!['\u{210f}'])
    } else if name == seq!['p', 'l', 'a', 'n', 'c', 'k', 'h'] {
        Some(seq!['\u{210e}'])
    } else if name == seq!['R', 'e'] {
        Some(seq!['\u{211c}'])
    } else if name == seq!['I', 'm'] {
        Some(seq!['\u{2111}'])
    } else if name == seq!['a', 'l', 'e', 'p', 'h'] {
        Some(seq!['\u{2135}'])
    } else if name == seq!['O', 'v', 'e', 'r', 'B', 'a', 'r'] {
        Some(seq!['\u{af}'])
    } else if name == seq!['U', 'n', 'd', 'e', 'r', 'B', 'a', 'r'] {
        Some(seq!['_'])
    } else if name == seq!['H', 'a', 't'] {
        Some(seq!['^'])
    } else if name == seq!['t', 'i', 'l', 'd', 'e'] {
        Some(seq!['\u{2dc}'])
    } else if name == seq!['D', 'i', 'a', 'c', 'r', 'i', 't', 'i', 'c', 'a', 'l', 'T', 'i', 'l', 'd', 'e'] {
        Some(seq!['\u{2dc}'])
    } else if name == seq!['r', 'i', 'g', 'h', 't', 'a', 'r', 'r', 'o', 'w'] {
        Some(seq!['\u{2192}'])
    } else if name == seq!['l', 'e', 'f', 't', 'a', 'r', 'r', 'o', 'w'] {
        Some(seq!['\u{2190}'])
    } else if name == seq!['l', 'a', 'n', 'g', 'l', 'e'] {
        Some(seq!['\u{27e8}'])
    } else if name == seq!['r', 'a', 'n', 'g', 'l', 'e'] {
        Some(seq!['\u{27e9}'])
    } else if name == seq!['l', 'c', 'e', 'i', 'l'] {
        Some(seq!['\u{2308}'])
    } else if name == seq!['r', 'c', 'e', 'i', 'l'] {
        Some(seq!['\u{2309}'])
    } else if name == seq!['l', 'f', 'l', 'o', 'o', 'r'] {
        Some(seq!['\u{230a}'])
    } else if name == seq!['r', 'f', 'l', 'o', 'o', 'r'] {
        Some(seq!['\u{230b}'])
    } else if name == seq!['a', 'l', 'p', 'h', 'a'] {
        Some(seq!['\u{3b1}'])
    } else if name == seq!['b', 'e', 't', 'a'] {
        Some(seq!['\u{3b2}'])
    } else if name == seq!['g', 'a', 'm', 'm', 'a'] {
        Some(seq!['\u{3b3}'])
    } else if name == seq!['d', 'e', 'l', 't', 'a'] {
        Some(seq!['\u{3b4}'])
    } else if name == seq!['e', 'p', 's', 'i', 'l', 'o', 'n'] {
        Some(seq!['\u{3b5}'])
    } else if name == seq!['e', 'p', 's', 'i'] {
        Some(seq!['\u{3b5}'])
    } else if name == seq!['z', 'e', 't', 'a'] {
        Some(seq!['\u{3b6}'])
    } else if name == seq!['e', 't', 'a'] {
        Some(seq!['\u{3b7}'])
    } else if name == seq!['t', 'h', 'e', 't', 'a'] {
        Some(seq!['\u{3b8}'])
    } else if name == seq!['i', 'o', 't', 'a'] {
        Some(seq!['\u{3b9}'])
    } else if name == seq!['k', 'a', 'p', 'p', 'a'] {
        Some(seq!['\u{3ba}'])
    } else if name == seq!['l', 'a', 'm', 'b', 'd', 'a'] {
        Some(seq!['\u{3bb}'])
    } else if name == seq!['m', 'u'] {
        Some(seq!['\u{3bc}'])
    } else if name == seq!['n', 'u'] {
        Some(seq!['\u{3bd}'])
    } else if name == seq!['x', 'i'] {
        Some(seq!['\u{3be}'])
    } else if name == seq!['o', 'm', 'i', 'c', 'r', 'o', 'n'] {
        Some(seq!['\u{3bf}'])
    } else if name == seq!['p', 'i'] {
        Some(seq!['\u{3c0}'])
    } else if name == seq!['r', 'h', 'o'] {
        Some(seq!['\u{3c1}'])
    } else if name == seq!['s', 'i', 'g', 'm', 'a'] {
        Some(seq!['\u{3c3}'])
    } else if name == seq!['t', 'a', 'u'] {
        Some(seq!['\u{3c4}'])
    } else if name == seq!['u', 'p', 's', 'i', 'l', 'o', 'n'] {
        Some(seq!['\u{3c5}'])
    } else if name == seq!['p', 'h', 'i'] {
        Some(seq!['\u{3c6}'])
    } else if name == seq!['c', 'h', 'i'] {
        Some(seq!['\u{3c7}'])
    } else if name == seq!['p', 's', 'i'] {
        Some(seq!['\u{3c8}'])
    } else if name == seq!['o', 'm', 'e', 'g', 'a'] {
        Some(seq!['\u{3c9}'])
    } else if name == seq!['A', 'l', 'p', 'h', 'a'] {
        Some(seq!['\u{391}'])
    } else if name == seq!['B', 'e', 't', 'a'] {
        Some(seq!['\u{392}'])
    } else if name == seq!['G', 'a', 'm', 'm', 'a'] {
        Some(seq!['\u{393}'])
    } else if name == seq!['D', 'e', 'l', 't', 'a'] {
        Some(seq!['\u{394}'])
    } else if name == seq!['E', 'p', 's', 'i', 'l', 'o', 'n'] {
        Some(seq!['\u{395}'])
    } else if name == seq!['Z', 'e', 't', 'a'] {
        Some(seq!['\u{396}'])
    } else if name == seq!['E', 't', 'a'] {
        Some(seq!['\u{397}'])
    } else if name == seq!['T', 'h', 'e', 't', 'a'] {
        Some(seq!['\u{398}'])
    } else if name == seq!['I', 'o', 't', 'a'] {
        Some(seq!['\u{399}'])
    } else if name == seq!['K', 'a', 'p', 'p', 'a'] {
        Some(seq!['\u{39a}'])
    } else if name == seq!['L', 'a', 'm', 'b', 'd', 'a'] {
        Some(seq!['\u{39b}'])
    } else if name == seq!['M', 'u'] {
        Some(seq!['\u{39c}'])
    } else if name == seq!['N', 'u'] {
        Some(seq!['\u{39d}'])
    } else if name == seq!['X', 'i'] {
        Some(seq!['\u{39e}'])
    } else if name == seq!['O', 'm', 'i', 'c', 'r', 'o', 'n'] {
        Some(seq!['\u{39f}'])
    } else if name == seq!['P', 'i'] {
        Some(seq!['\u{3a0}'])
    } else if name == seq!['R', 'h', 'o'] {
        Some(seq!['\u{3a1}'])
    } else if name == seq!['S', 'i', 'g', 'm', 'a'] {
        Some(seq!['\u{3a3}'])
    } else if name == seq!['T', 'a', 'u'] {
        Some(seq!['\u{3a4}'])
    } else if name == seq!['U', 'p', 's', 'i', 'l', 'o', 'n'] {
        Some(seq!['\u{3a5}'])
    } else if name == seq!['P', 'h', 'i'] {
        Some(seq!['\u{3a6}'])
    } else if name == seq!['C', 'h', 'i'] {
        Some(seq!['\u{3a7}'])
    } else if name == seq!['P', 's', 'i'] {
        Some(seq!['\u{3a8}'])
    } else if name == seq!['O', 'm', 'e', 'g', 'a'] {
        Some(seq!['\u{3a9}'])
    } else {
        None
    }
}

/// The replacement text of a named character reference, if the name is known.
#[verifier::rlimit(60)]
pub fn lookup_entity(name: &[char]) -> (r: Option<Vec<char>>)
    ensures
        match r {
            Some(v) => entity_spec(name@) == Some(v@),
            None => entity_spec(name@) is None,
        },
{
    if chars_eq(name, &['a', 'm', 'p']) {
        Some(vec!['&'])
    } else if chars_eq(name, &['l', 't']) {
        Some(vec!['<'])
    } else if chars_eq(name, &['g', 't']) {
        Some(vec!['>'])
    } else if chars_eq(name, &['q', 'u', 'o', 't']) {
        Some(vec!['"'])
    } else if chars_eq(name, &['a', 'p', 'o', 's']) {
        Some(vec!['\''])
    } else if chars_eq(name, &['n', 'b', 's', 'p']) {
        Some(vec!['\u{a0}'])
    } else if chars_eq(name, &['n', 'u', 'm']) {
        Some(vec!['#'])
    } else if chars_eq(name, &['e', 'x', 'c', 'l']) {
        Some(vec!['!'])
    } else if chars_eq(name, &['p', 'e', 'r', 'c', 'n', 't']) {
        Some(vec!['%'])
    } else if chars_eq(name, &['l', 'p', 'a', 'r']) {
        Some(vec!['('])
    } else if chars_eq(name, &['r', 'p', 'a', 'r']) {
        Some(vec![')'])
    } else if chars_eq(name, &['a', 's', 't']) {
        Some(vec!['*'])
    } else if chars_eq(name, &['p', 'l', 'u', 's']) {
        Some(vec!['+'])
    } else if chars_eq(name, &['c', 'o', 'm', 'm', 'a']) {
        Some(vec![','])
    } else if chars_eq(name, &['p', 'e', 'r', 'i', 'o', 'd']) {
        Some(vec!['.'])
    } else if chars_eq(name, &['s', 'o', 'l']) {
        Some(vec!['/'])
    } else if chars_eq(name, &['c', 'o', 'l', 'o', 'n']) {
        Some(vec![':'])
    } else if chars_eq(name, &['s', 'e', 'm', 'i']) {
        Some(vec![';'])
    } else if chars_eq(name, &['e', 'q', 'u', 'a', 'l', 's']) {
        Some(vec!['='])
    } else if chars_eq(name, &['q', 'u', 'e', 's', 't']) {
        Some(vec!['?'])
    } else if chars_eq(name, &['c', 'o', 'm', 'm', 'a', 't']) {
        Some(vec!['@'])
    } else if chars_eq(name, &['l', 's', 'q', 'b']) {
        Some(vec!['['])
    } else if chars_eq(name, &['r', 's', 'q', 'b']) {
        Some(vec![']'])
    } else if chars_eq(name, &['b', 's', 'o', 'l']) {
        Some(vec!['\\'])
    } else if chars_eq(name, &['l', 'o', 'w', 'b', 'a', 'r']) {
        Some(vec!['_'])
    } else if chars_eq(name, &['l', 'c', 'u', 'b']) {
        Some(vec!['{'])
    } else if chars_eq(name, &['r', 'c', 'u', 'b']) {
        Some(vec!['}'])
    } else if chars_eq(name, &['v', 'e', 'r', 'b', 'a', 'r']) {
        Some(vec!['|'])
    } else if chars_eq(name, &['v', 'e', 'r', 't']) {
        Some(vec!['|'])
    } else if chars_eq(name, &['A', 'u', 'm', 'l']) {
        Some(vec!['\u{c4}'])
    } else if chars_eq(name, &['a', 'u', 'm', 'l']) {
        Some(vec!['\u{e4}'])
    } else if chars_eq(name, &['O', 'u', 'm', 'l']) {
        Some(vec!['\u{d6}'])
    } else if chars_eq(name, &['o', 'u', 'm', 'l']) {
        Some(vec!['\u{f6}'])
    } else if chars_eq(name, &['U', 'u', 'm', 'l']) {
        Some(vec!['\u{dc}'])
    } else if chars_eq(name, &['u', 'u', 'm', 'l']) {
        Some(vec!['\u{fc}'])
    } else if chars_eq(name, &['s', 'z', 'l', 'i', 'g']) {
        Some(vec!['\u{df}'])
    } else if chars_eq(name, &['t', 'i', 'm', 'e', 's']) {
        Some(vec!['\u{d7}'])
    } else if chars_eq(name, &['d', 'i', 'v', 'i', 'd', 'e']) {
        Some(vec!['\u{f7}'])
    } else if chars_eq(name, &['m', 'i', 'd', 'd', 'o', 't']) {
        Some(vec!['\u{b7}'])
    } else if chars_eq(name, &['c', 'e', 'n', 't', 'e', 'r', 'd', 'o', 't']) {
        Some(vec!['\u{b7}'])
    } else if chars_eq(name, &['p', 'l', 'u', 's', 'm', 'n']) {
        Some(vec!['\u{b1}'])
    } else if chars_eq(name, &['P', 'l', 'u', 's', 'M', 'i', 'n', 'u', 's']) {
        Some(vec!['\u{b1}'])
    } else if chars_eq(name, &['p', 'm']) {
        Some(vec!['\u{b1}'])
    } else if chars_eq(name, &['m', 'i', 'n', 'u', 's']) {
        Some(vec!['\u{2212}'])
    } else if chars_eq(name, &['m', 'n', 'p', 'l', 'u', 's']) {
        Some(vec!['\u{2213}'])
    } else if chars_eq(name, &['d', 'e', 'g']) {
        Some(vec!['\u{b0}'])
    } else if chars_eq(name, &['p', 'r', 'i', 'm', 'e']) {
        Some(vec!['\u{2032}'])
    } else if chars_eq(name, &['P', 'r', 'i', 'm', 'e']) {
        Some(vec!['\u{2033}'])
    } else if chars_eq(name, &['i', 'n', 'f', 'i', 'n']) {
        Some(vec!['\u{221e}'])
    } else if chars_eq(name, &['s', 'u', 'm']) {
        Some(vec!['\u{2211}'])
    } else if chars_eq(name, &['S', 'u', 'm']) {
        Some(vec!['\u{2211}'])
    } else if chars_eq(name, &['p', 'r', 'o', 'd']) {
        Some(vec!['\u{220f}'])
    } else if chars_eq(name, &['i', 'n', 't']) {
        Some(vec!['\u{222b}'])
    } else if chars_eq(name, &['I', 'n', 't', 'e', 'g', 'r', 'a', 'l']) {
        Some(vec!['\u{222b}'])
    } else if chars_eq(name, &['i', 'i', 'n', 't']) {
        Some(vec!['\u{222c}'])
    } else if chars_eq(name, &['o', 'i', 'n', 't']) {
        Some(vec!['\u{222e}'])
    } else if chars_eq(name, &['p', 'a', 'r', 't', 'i', 'a', 'l']) {
        Some(vec!['\u{2202}'])
    } else if chars_eq(name, &['n', 'a', 'b', 'l', 'a']) {
        Some(vec!['\u{2207}'])
    } else if chars_eq(name, &['D', 'e', 'l']) {
        Some(vec!['\u{2207}'])
    } else if chars_eq(name, &['r', 'a', 'd', 'i', 'c']) {
        Some(vec!['\u{221a}'])
    } else if chars_eq(name, &['S', 'q', 'r', 't']) {
        Some(vec!['\u{221a}'])
    } else if chars_eq(name, &['p', 'r', 'o', 'p']) {
        Some(vec!['\u{221d}'])
    } else if chars_eq(name, &['n', 'e']) {
        Some(vec!['\u{2260}'])
    } else if chars_eq(name, &['l', 'e']) {
        Some(vec!['\u{2264}'])
    } else if chars_eq(name, &['g', 'e']) {
        Some(vec!['\u{2265}'])
    } else if chars_eq(name, &['l', 'e', 'q']) {
        Some(vec!['\u{2264}'])
    } else if chars_eq(name, &['g', 'e', 'q']) {
        Some(vec!['\u{2265}'])
    } else if chars_eq(name, &['e', 'q', 'u', 'i', 'v']) {
        Some(vec!['\u{2261}'])
    } else if chars_eq(name, &['a', 'p', 'p', 'r', 'o', 'x']) {
        Some(vec!['\u{2248}'])
    } else if chars_eq(name, &['s', 'i', 'm']) {
        Some(vec!['\u{223c}'])
    } else if chars_eq(name, &['l', 'a', 'r', 'r']) {
        Some(vec!['\u{2190}'])
    } else if chars_eq(name, &['r', 'a', 'r', 'r']) {
        Some(vec!['\u{2192}'])
    } else if chars_eq(name, &['u', 'a', 'r', 'r']) {
        Some(vec!['\u{2191}'])
    } else if chars_eq(name, &['d', 'a', 'r', 'r']) {
        Some(vec!['\u{2193}'])
    } else if chars_eq(name, &['h', 'a', 'r', 'r']) {
        Some(vec!['\u{2194}'])
    } else if chars_eq(name, &['l', 'A', 'r', 'r']) {
        Some(vec!['\u{21d0}'])
    } else if chars_eq(name, &['r', 'A', 'r', 'r']) {
        Some(vec!['\u{21d2}'])
    } else if chars_eq(name, &['h', 'A', 'r', 'r']) {
        Some(vec!['\u{21d4}'])
    } else if chars_eq(name, &['R', 'i', 'g', 'h', 't', 'A', 'r', 'r', 'o', 'w']) {
        Some(vec!['\u{2192}'])
    } else if chars_eq(name, &['L', 'e', 'f', 't', 'A', 'r', 'r', 'o', 'w']) {
        Some(vec!['\u{2190}'])
    } else if chars_eq(name, &['f', 'o', 'r', 'a', 'l', 'l']) {
        Some(vec!['\u{2200}'])
    } else if chars_eq(name, &['e', 'x', 'i', 's', 't']) {
        Some(vec!['\u{2203}'])
    } else if chars_eq(name, &['i', 's', 'i', 'n']) {
        Some(vec!['\u{2208}'])
    } else if chars_eq(name, &['i', 'n']) {
        Some(vec!['\u{2208}'])
    } else if chars_eq(name, &['n', 'o', 't', 'i', 'n']) {
        Some(vec!['\u{2209}'])
    } else if chars_eq(name, &['s', 'u', 'b']) {
        Some(vec!['\u{2282}'])
    } else if chars_eq(name, &['s', 'u', 'p']) {
        Some(vec!['\u{2283}'])
    } else if chars_eq(name, &['s', 'u', 'b', 'e']) {
        Some(vec!['\u{2286}'])
    } else if chars_eq(name, &['s', 'u', 'p', 'e']) {
        Some(vec!['\u{2287}'])
    } else if chars_eq(name, &['c', 'u', 'p']) {
        Some(vec!['\u{222a}'])
    } else if chars_eq(name, &['c', 'a', 'p']) {
        Some(vec!['\u{2229}'])
    } else if chars_eq(name, &['a', 'n', 'd']) {
        Some(vec!['\u{2227}'])
    } else if chars_eq(name, &['o', 'r']) {
        Some(vec!['\u{2228}'])
    } else if chars_eq(name, &['n', 'o', 't']) {
        Some(vec!['\u{ac}'])
    } else if chars_eq(name, &['e', 'm', 'p', 't', 'y']) {
        Some(vec!['\u{2205}'])
    } else if chars_eq(name, &['e', 'm', 'p', 't', 'y', 's', 'e', 't']) {
        Some(vec!['\u{2205}'])
    } else if chars_eq(name, &['A', 'p', 'p', 'l', 'y', 'F', 'u', 'n', 'c', 't', 'i', 'o', 'n']) {
        Some(vec!['\u{2061}'])
    } else if chars_eq(name, &['a', 'f']) {
        Some(vec!['\u{2061}'])
    } else if chars_eq(name, &['I', 'n', 'v', 'i', 's', 'i', 'b', 'l', 'e', 'T', 'i', 'm', 'e', 's']) {
        Some(vec!['\u{2062}'])
    } else if chars_eq(name, &['i', 't']) {
        Some(vec!['\u{2062}'])
    } else if chars_eq(name, &['I', 'n', 'v', 'i', 's', 'i', 'b', 'l', 'e', 'C', 'o', 'm', 'm', 'a']) {
        Some(vec!['\u{2063}'])
    } else if chars_eq(name, &['i', 'c']) {
        Some(vec!['\u{2063}'])
    } else if chars_eq(name, &['h', 'e', 'l', 'l', 'i', 'p']) {
        Some(vec!['\u{2026}'])
    } else if chars_eq(name, &['c', 'd', 'o', 't']) {
        Some(vec!['\u{22c5}'])
    } else if chars_eq(name, &['s', 'd', 'o', 't']) {
        Some(vec!['\u{22c5}'])
    } else if chars_eq(name, &['e', 'l', 'l']) {
        Some(vec!['\u{2113}'])
    } else if chars_eq(name, &['h', 'b', 'a', 'r']) {
        Some(vec!['\u{210f}'])
    } else if chars_eq(name, &['p', 'l', 'a', 'n', 'c', 'k', 'h']) {
        Some(vec!['\u{210e}'])
    } else if chars_eq(name, &['R', 'e']) {
        Some(vec!['\u{211c}'])
    } else if chars_eq(name, &['I', 'm']) {
        Some(vec!['\u{2111}'])
    } else if chars_eq(name, &['a', 'l', 'e', 'p', 'h']) {
        Some(vec!['\u{2135}'])
    } else if chars_eq(name, &['O', 'v', 'e', 'r', 'B', 'a', 'r']) {
        Some(vec!['\u{af}'])
    } else if chars_eq(name, &['U', 'n', 'd', 'e', 'r', 'B', 'a', 'r']) {
        Some(vec!['_'])
    } else if chars_eq(name, &['H', 'a', 't']) {
        Some(vec!['^'])
    } else if chars_eq(name, &['t', 'i', 'l', 'd', 'e']) {
        Some(vec!['\u{2dc}'])
    } else if chars_eq(name, &['D', 'i', 'a', 'c', 'r', 'i', 't', 'i', 'c', 'a', 'l', 'T', 'i', 'l', 'd', 'e']) {
        Some(vec!['\u{2dc}'])
    } else if chars_eq(name, &['r', 'i', 'g', 'h', 't', 'a', 'r', 'r', 'o', 'w']) {
        Some(vec!['\u{2192}'])
    } else if chars_eq(name, &['l', 'e', 'f', 't', 'a', 'r', 'r', 'o', 'w']) {
        Some(vec!['\u{2190}'])
    } else if chars_eq(name, &['l', 'a', 'n', 'g', 'l', 'e']) {
        Some(vec!['\u{27e8}'])
    } else if chars_eq(name, &['r', 'a', 'n', 'g', 'l', 'e']) {
        Some(vec!['\u{27e9}'])
    } else if chars_eq(name, &['l', 'c', 'e', 'i', 'l']) {
        Some(vec!['\u{2308}'])
    } else if chars_eq(name, &['r', 'c', 'e', 'i', 'l']) {
        Some(vec!['\u{2309}'])
    } else if chars_eq(name, &['l', 'f', 'l', 'o', 'o', 'r']) {
        Some(vec!['\u{230a}'])
    } else if chars_eq(name, &['r', 'f', 'l', 'o', 'o', 'r']) {
        Some(vec!['\u{230b}'])
    } else if chars_eq(name, &['a', 'l', 'p', 'h', 'a']) {
        Some(vec!['\u{3b1}'])
    } else if chars_eq(name, &['b', 'e', 't', 'a']) {
        Some(vec!['\u{3b2}'])
    } else if chars_eq(name, &['g', 'a', 'm', 'm', 'a']) {
        Some(vec!['\u{3b3}'])
    } else if chars_eq(name, &['d', 'e', 'l', 't', 'a']) {
        Some(vec!['\u{3b4}'])
    } else if chars_eq(name, &['e', 'p', 's', 'i', 'l', 'o', 'n']) {
        Some(vec!['\u{3b5}'])
    } else if chars_eq(name, &['e', 'p', 's', 'i']) {
        Some(vec!['\u{3b5}'])
    } else if chars_eq(name, &['z', 'e', 't', 'a']) {
        Some(vec!['\u{3b6}'])
    } else if chars_eq(name, &['e', 't', 'a']) {
        Some(vec!['\u{3b7}'])
    } else if chars_eq(name, &['t', 'h', 'e', 't', 'a']) {
        Some(vec!['\u{3b8}'])
    } else if chars_eq(name, &['i', 'o', 't', 'a']) {
        Some(vec!['\u{3b9}'])
    } else if chars_eq(name, &['k', 'a', 'p', 'p', 'a']) {
        Some(vec!['\u{3ba}'])
    } else if chars_eq(name, &['l', 'a', 'm', 'b', 'd', 'a']) {
        Some(vec!['\u{3bb}'])
    } else if chars_eq(name, &['m', 'u']) {
        Some(vec!['\u{3bc}'])
    } else if chars_eq(name, &['n', 'u']) {
        Some(vec!['\u{3bd}'])
    } else if chars_eq(name, &['x', 'i']) {
        Some(vec!['\u{3be}'])
    } else if chars_eq(name, &['o', 'm', 'i', 'c', 'r', 'o', 'n']) {
        Some(vec!['\u{3bf}'])
    } else if chars_eq(name, &['p', 'i']) {
        Some(vec!['\u{3c0}'])
    } else if chars_eq(name, &['r', 'h', 'o']) {
        Some(vec!['\u{3c1}'])
    } else if chars_eq(name, &['s', 'i', 'g', 'm', 'a']) {
        Some(vec!['\u{3c3}'])
    } else if chars_eq(name, &['t', 'a', 'u']) {
        Some(vec!['\u{3c4}'])
    } else if chars_eq(name, &['u', 'p', 's', 'i', 'l', 'o', 'n']) {
        Some(vec!['\u{3c5}'])
    } else if chars_eq(name, &['p', 'h', 'i']) {
        Some(vec!['\u{3c6}'])
    } else if chars_eq(name, &['c', 'h', 'i']) {
        Some(vec!['\u{3c7}'])
    } else if chars_eq(name, &['p', 's', 'i']) {
        Some(vec!['\u{3c8}'])
    } else if chars_eq(name, &['o', 'm', 'e', 'g', 'a']) {
        Some(vec!['\u{3c9}'])
    } else if chars_eq(name, &['A', 'l', 'p', 'h', 'a']) {
        Some(vec!['\u{391}'])
    } else if chars_eq(name, &['B', 'e', 't', 'a']) {
        Some(vec!['\u{392}'])
    } else if chars_eq(name, &['G', 'a', 'm', 'm', 'a']) {
        Some(vec!['\u{393}'])
    } else if chars_eq(name, &['D', 'e', 'l', 't', 'a']) {
        Some(vec!['\u{394}'])
    } else if chars_eq(name, &['E', 'p', 's', 'i', 'l', 'o', 'n']) {
        Some(vec!['\u{395}'])
    } else if chars_eq(name, &['Z', 'e', 't', 'a']) {
        Some(vec!['\u{396}'])
    } else if chars_eq(name, &['E', 't', 'a']) {
        Some(vec!['\u{397}'])
    } else if chars_eq(name, &['T', 'h', 'e', 't', 'a']) {
        Some(vec!['\u{398}'])
    } else if chars_eq(name, &['I', 'o', 't', 'a']) {
        Some(vec!['\u{399}'])
    } else if chars_eq(name, &['K', 'a', 'p', 'p', 'a']) {
        Some(vec!['\u{39a}'])
    } else if chars_eq(name, &['L', 'a', 'm', 'b', 'd', 'a']) {
        Some(vec!['\u{39b}'])
    } else if chars_eq(name, &['M', 'u']) {
        Some(vec!['\u{39c}'])
    } else if chars_eq(name, &['N', 'u']) {
        Some(vec!['\u{39d}'])
    } else if chars_eq(name, &['X', 'i']) {
        Some(vec!['\u{39e}'])
    } else if chars_eq(name, &['O', 'm', 'i', 'c', 'r', 'o', 'n']) {
        Some(vec!['\u{39f}'])
    } else if chars_eq(name, &['P', 'i']) {
        Some(vec!['\u{3a0}'])
    } else if chars_eq(name, &['R', 'h', 'o']) {
        Some(vec!['\u{3a1}'])
    } else if chars_eq(name, &['S', 'i', 'g', 'm', 'a']) {
        Some(vec!['\u{3a3}'])
    } else if chars_eq(name, &['T', 'a', 'u']) {
        Some(vec!['\u{3a4}'])
    } else if chars_eq(name, &['U', 'p', 's', 'i', 'l', 'o', 'n']) {
        Some(vec!['\u{3a5}'])
    } else if chars_eq(name, &['P', 'h', 'i']) {
        Some(vec!['\u{3a6}'])
    } else if chars_eq(name, &['C', 'h', 'i']) {
        Some(vec!['\u{3a7}'])
    } else if chars_eq(name, &['P', 's', 'i']) {
        Some(vec!['\u{3a8}'])
    } else if chars_eq(name, &['O', 'm', 'e', 'g', 'a']) {
        Some(vec!['\u{3a9}'])
    } else {
        None
    }
}

} // verus!
