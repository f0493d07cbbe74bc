//! The mathematical alphanumeric styles of Unicode.
use vstd::prelude::*;

verus! {

/// A style of mathematical letters and digits.
#[derive(Debug, Copy, Clone, PartialEq, Eq, Hash, Structural)]
pub enum Family {
    Normal,
    Bold,
    Italics,
    BoldItalics,
    DoubleStruck,
    BoldFraktur,
    Script,
    BoldScript,
    Fraktur,
    SansSerif,
    SansSerifBold,
    SansSerifItalics,
    SansSerifBoldItalics,
    Monospace,
}

/// The code point of an ASCII capital, small letter or digit in a style, given the code
/// points of capital A, small a and digit zero of the style (0 when the style has no
/// digits).
pub open spec fn styled_code(c: u32, capital_a: u32, small_a: u32, digit_zero: u32) -> u32 {
    if 0x41 <= c <= 0x5a {
        (capital_a + (c - 0x41)) as u32
    } else if 0x61 <= c <= 0x7a {
        (small_a + (c - 0x61)) as u32
    } else if 0x30 <= c <= 0x39 && digit_zero != 0 {
        (digit_zero + (c - 0x30)) as u32
    } else {
        c
    }
}

/// The code point of `c` in `family`: ASCII letters and digits (and Greek letters in the
/// italic styles) move to the Mathematical Alphanumeric Symbols block, or to the letterlike
/// symbols that Unicode uses for the gaps of that block; other characters stay as they are.
pub open spec fn family_code(c: u32, family: Family) -> u32 {
    match family {
        Family::Normal => c,
        Family::Bold => styled_code(c, 0x1d400, 0x1d41a, 0x1d7ce),
        Family::Italics => if c == 0x68 {
            0x210e
        } else if 0x3b1 <= c <= 0x3c9 {
            (0x1d6fc + (c - 0x3b1)) as u32
        } else if 0x391 <= c <= 0x3a9 && c != 0x3a2 {
            (0x1d6e2 + (c - 0x391)) as u32
        } else {
            styled_code(c, 0x1d434, 0x1d44e, 0)
        },
        Family::BoldItalics => if 0x3b1 <= c <= 0x3c9 {
            (0x1d736 + (c - 0x3b1)) as u32
        } else if 0x391 <= c <= 0x3a9 && c != 0x3a2 {
            (0x1d71c + (c - 0x391)) as u32
        } else {
            styled_code(c, 0x1d468, 0x1d482, 0)
        },
        Family::DoubleStruck => if c == 0x43 {
            0x2102
        } else if c == 0x48 {
            0x210d
        } else if c == 0x4e {
            0x2115
        } else if c == 0x50 {
            0x2119
        } else if c == 0x51 {
            0x211a
        } else if c == 0x52 {
            0x211d
        } else if c == 0x5a {
            0x2124
        } else {
            styled_code(c, 0x1d538, 0x1d552, 0x1d7d8)
        },
        Family::BoldFraktur => styled_code(c, 0x1d56c, 0x1d586, 0),
        Family::Script => if c == 0x42 {
            0x212c
        } else if c == 0x45 {
            0x2130
        } else if c == 0x46 {
            0x2131
        } else if c == 0x48 {
            0x210b
        } else if c == 0x49 {
            0x2110
        } else if c == 0x4c {
            0x2112
        } else if c == 0x4d {
            0x2133
        } else if c == 0x52 {
            0x211b
        } else if c == 0x65 {
            0x212f
        } else if c == 0x67 {
            0x210a
        } else if c == 0x6f {
            0x2134
        } else {
            styled_code(c, 0x1d49c, 0x1d4b6, 0)
        },
        Family::BoldScript => styled_code(c, 0x1d4d0, 0x1d4ea, 0),
        Family::Fraktur => if c == 0x43 {
            0x212d
        } else if c == 0x48 {
            0x210c
        } else if c == 0x49 {
            0x2111
        } else if c == 0x52 {
            0x211c
        } else if c == 0x5a {
            0x2128
        } else {
            styled_code(c, 0x1d504, 0x1d51e, 0)
        },
        Family::SansSerif => styled_code(c, 0x1d5a0, 0x1d5ba, 0x1d7e2),
        Family::SansSerifBold => styled_code(c, 0x1d5d4, 0x1d5ee, 0x1d7ec),
        Family::SansSerifItalics => styled_code(c, 0x1d608, 0x1d622, 0),
        Family::SansSerifBoldItalics => styled_code(c, 0x1d63c, 0x1d656, 0),
        Family::Monospace => styled_code(c, 0x1d670, 0x1d68a, 0x1d7f6),
    }
}

/// The code point of an ASCII capital, small letter or digit in a style.
fn styled(c: u32, capital_a: u32, small_a: u32, digit_zero: u32) -> (r: u32)
    requires
        capital_a <= 0x1f000,
        small_a <= 0x1f000,
        digit_zero <= 0x1f000,
    ensures
        r == styled_code(c, capital_a, small_a, digit_zero),
{
    if 0x41 <= c && c <= 0x5a {
        capital_a + (c - 0x41)
    } else if 0x61 <= c && c <= 0x7a {
        small_a + (c - 0x61)
    } else if 0x30 <= c && c <= 0x39 && digit_zero != 0 {
        digit_zero + (c - 0x30)
    } else {
        c
    }
}

/// The code point of `c` in `family` (see `family_code`).
fn family_code_of(c: u32, family: Family) -> (r: u32)
    ensures
        r == family_code(c, family),
{
    match family {
        Family::Normal => c,
        Family::Bold => styled(c, 0x1d400, 0x1d41a, 0x1d7ce),
        Family::Italics => if c == 0x68 {
            0x210e
        } else if 0x3b1 <= c && c <= 0x3c9 {
            0x1d6fc + (c - 0x3b1)
        } else if 0x391 <= c && c <= 0x3a9 && c != 0x3a2 {
            0x1d6e2 + (c - 0x391)
        } else {
            styled(c, 0x1d434, 0x1d44e, 0)
        },
        Family::BoldItalics => if 0x3b1 <= c && c <= 0x3c9 {
            0x1d736 + (c - 0x3b1)
        } else if 0x391 <= c && c <= 0x3a9 && c != 0x3a2 {
            0x1d71c + (c - 0x391)
        } else {
            styled(c, 0x1d468, 0x1d482, 0)
        },
        Family::DoubleStruck => if c == 0x43 {
            0x2102
        } else if c == 0x48 {
            0x210d
        } else if c == 0x4e {
            0x2115
        } else if c == 0x50 {
            0x2119
        } else if c == 0x51 {
            0x211a
        } else if c == 0x52 {
            0x211d
        } else if c == 0x5a {
            0x2124
        } else {
            styled(c, 0x1d538, 0x1d552, 0x1d7d8)
        },
        Family::BoldFraktur => styled(c, 0x1d56c, 0x1d586, 0),
        Family::Script => if c == 0x42 {
            0x212c
        } else if c == 0x45 {
            0x2130
        } else if c == 0x46 {
            0x2131
        } else if c == 0x48 {
            0x210b
        } else if c == 0x49 {
            0x2110
        } else if c == 0x4c {
            0x2112
        } else if c == 0x4d {
            0x2133
        } else if c == 0x52 {
            0x211b
        } else if c == 0x65 {
            0x212f
        } else if c == 0x67 {
            0x210a
        } else if c == 0x6f {
            0x2134
        } else {
            styled(c, 0x1d49c, 0x1d4b6, 0)
        },
        Family::BoldScript => styled(c, 0x1d4d0, 0x1d4ea, 0),
        Family::Fraktur => if c == 0x43 {
            0x212d
        } else if c == 0x48 {
            0x210c
        } else if c == 0x49 {
            0x2111
        } else if c == 0x52 {
            0x211c
        } else if c == 0x5a {
            0x2128
        } else {
            styled(c, 0x1d504, 0x1d51e, 0)
        },
        Family::SansSerif => styled(c, 0x1d5a0, 0x1d5ba, 0x1d7e2),
        Family::SansSerifBold => styled(c, 0x1d5d4, 0x1d5ee, 0x1d7ec),
        Family::SansSerifItalics => styled(c, 0x1d608, 0x1d622, 0),
        Family::SansSerifBoldItalics => styled(c, 0x1d63c, 0x1d656, 0),
        Family::Monospace => styled(c, 0x1d670, 0x1d68a, 0x1d7f6),
    }
}

/// The character with the given code point (std's `char::from_u32`): `None` for surrogates
/// and values above 0x10FFFF, the character with that code point otherwise.
#[verifier::external_body]
pub(crate) fn char_from_u32(v: u32) -> (r: Option<char>)
    ensures
        r is Some <==> (v <= 0x10ffff && !(0xd800 <= v <= 0xdfff)),
        r matches Some(c) ==> c as u32 == v,
{
    std::char::from_u32(v)
}

/// A character is the cast of its code.
pub proof fn lemma_code_char(c: char, v: u32)
    requires
        c as u32 == v,
    ensures
        v as char == c,
{
}

/// The character `chr` in the mathematical style `family`.
pub open spec fn family_char(chr: char, family: Family) -> char {
    family_code(chr as u32, family) as char
}

/// The character `chr` in the mathematical style `family` (see `family_code`).
pub fn convert_character_to_family(chr: char, family: Family) -> (r: char)
    ensures
        r as u32 == family_code(chr as u32, family),
        r == family_char(chr, family),
{
    let code = family_code_of(chr as u32, family);
    match char_from_u32(code) {
        Some(c) => {
            proof {
                lemma_code_char(c, code);
            }
            c
        },
        None => {
            proof {
                assert(false);
            }
            chr
        },
    }
}

} // verus!
