//! Replacing character references (`&name;`, `&#33;`, `&#x21;`) in text.
use vstd::prelude::*;

use super::entities::{entity_spec, lookup_entity};
use crate::text::{str_to_chars, string_from_chars};
use crate::unicode_math::{char_from_u32, lemma_code_char};

verus! {

/// Why a character reference could not be replaced.
#[derive(Debug, Copy, Clone, PartialEq, Eq, Structural)]
pub enum EscapeError {
    /// An `&` without a `;` before the next `&` or the end.
    BadEntity,
    /// A name that is not a known entity.
    UnrecognizedEntity,
    /// `&#;`
    EmptyEntity,
    /// `&#0;` or `&#x0;`
    MalformedEntity,
    /// A hexadecimal reference that is not a number or not a character.
    InvalidHexadecimal,
    /// A decimal reference that is not a number or not a character.
    InvalidDecimal,
}

impl EscapeError {
    /// The text of the error.
    pub open spec fn message_of(self) -> Seq<char> {
        match self {
            EscapeError::BadEntity => "bad entity"@,
            EscapeError::UnrecognizedEntity => "unrecognized entity"@,
            EscapeError::EmptyEntity => "empty entity"@,
            EscapeError::MalformedEntity => "malformed entity"@,
            EscapeError::InvalidHexadecimal => "Invalid hexadecimal character number in an entity"@,
            EscapeError::InvalidDecimal => "Invalid decimal character number in an entity"@,
        }
    }

    /// The message of the error (see `message_of`).
    pub fn message(self) -> (r: &'static str)
        ensures
            r@ == self.message_of(),
    {
        match self {
            EscapeError::BadEntity => "bad entity",
            EscapeError::UnrecognizedEntity => "unrecognized entity",
            EscapeError::EmptyEntity => "empty entity",
            EscapeError::MalformedEntity => "malformed entity",
            EscapeError::InvalidHexadecimal => "Invalid hexadecimal character number in an entity",
            EscapeError::InvalidDecimal => "Invalid decimal character number in an entity",
        }
    }
}

/// A replacement: a string of the entity table or a single character.
pub enum StrOrChr {
    Str(Vec<char>),
    Chr(char),
}

impl StrOrChr {
    /// The number of UTF-8 bytes set aside for the replacement: its length for a string, 4 for a
    /// character.
    pub fn len(&self) -> (r: usize)
        ensures
            r == match self {
                StrOrChr::Str(s) => s@.len(),
                StrOrChr::Chr(_) => 4,
            },
    {
        match self {
            StrOrChr::Str(text) => text.len(),
            StrOrChr::Chr(_) => 4,
        }
    }
}

/// The value of a digit in a radix of 10 or 16.
pub open spec fn digit_value(c: char, radix: u32) -> Option<nat> {
    if '0' <= c <= '9' {
        Some((c as u32 - '0' as u32) as nat)
    } else if radix == 16 && 'a' <= c <= 'f' {
        Some((c as u32 - 'a' as u32 + 10) as nat)
    } else if radix == 16 && 'A' <= c <= 'F' {
        Some((c as u32 - 'A' as u32 + 10) as nat)
    } else {
        None
    }
}

/// The number the digits stand for, if all of them are digits.
pub open spec fn digits_value(d: Seq<char>, radix: u32) -> Option<nat>
    decreases d.len(),
{
    if d.len() == 0 {
        Some(0)
    } else {
        match (digits_value(d.drop_last(), radix), digit_value(d.last(), radix)) {
            (Some(v), Some(x)) => Some(v * (radix as nat) + x),
            _ => None,
        }
    }
}

/// The number `u32::from_str_radix` reads: an optional `+`, then at least one digit, and a
/// value that fits in a `u32`.
pub open spec fn radix_value(s: Seq<char>, radix: u32) -> Option<u32> {
    let d = if s.len() > 0 && s[0] == '+' {
        s.drop_first()
    } else {
        s
    };
    if d.len() == 0 {
        None
    } else {
        match digits_value(d, radix) {
            Some(v) => if v <= u32::MAX {
                Some(v as u32)
            } else {
                None
            },
            None => None,
        }
    }
}

/// The value of a digit in a radix of 10 or 16.
fn digit_of(c: char, radix: u32) -> (r: Option<u32>)
    ensures
        match r {
            Some(v) => digit_value(c, radix) == Some(v as nat) && v < 16,
            None => digit_value(c, radix) is None,
        },
{
    if '0' <= c && c <= '9' {
        Some(c as u32 - '0' as u32)
    } else if radix == 16 && 'a' <= c && c <= 'f' {
        Some(c as u32 - 'a' as u32 + 10)
    } else if radix == 16 && 'A' <= c && c <= 'F' {
        Some(c as u32 - 'A' as u32 + 10)
    } else {
        None
    }
}

/// Once a prefix of digits is too large for a `u32`, so are the digits.
proof fn lemma_digits_overflow(d: Seq<char>, radix: u32, k: int)
    requires
        radix == 10 || radix == 16,
        0 < k <= d.len(),
        digits_value(d.take(k), radix) matches Some(v) && v > u32::MAX,
    ensures
        digits_value(d, radix) matches Some(v) ==> v > u32::MAX,
    decreases d.len() - k,
{
    if k < d.len() {
        assert(d.drop_last().take(k) =~= d.take(k));
        lemma_digits_overflow(d.drop_last(), radix, k);
        if let (Some(v), Some(x)) = (digits_value(d.drop_last(), radix), digit_value(d.last(), radix)) {
            assert(v * radix >= v) by (nonlinear_arith)
                requires
                    radix >= 1,
            ;
        }
    } else {
        assert(d.take(k) =~= d);
    }
}

/// Reads a number as `u32::from_str_radix` does (see `radix_value`).
pub fn parse_radix(s: &[char], radix: u32) -> (r: Option<u32>)
    requires
        radix == 10 || radix == 16,
    ensures
        r == radix_value(s@, radix),
{
    let start: usize = if s.len() > 0 && s[0] == '+' {
        1
    } else {
        0
    };
    let ghost d = if s@.len() > 0 && s@[0] == '+' {
        s@.drop_first()
    } else {
        s@
    };
    assert(d =~= s@.subrange(start as int, s@.len() as int));
    if start >= s.len() {
        return None;
    }
    let mut value: u64 = 0;
    let mut i: usize = start;
    while i < s.len()
        invariant
            start <= i <= s@.len(),
            start < s@.len(),
            d == (if s@.len() > 0 && s@[0] == '+' {
                s@.drop_first()
            } else {
                s@
            }),
            d =~= s@.subrange(start as int, s@.len() as int),
            radix == 10 || radix == 16,
            digits_value(d.take(i - start), radix) == Some(value as nat),
            value <= u32::MAX,
        decreases s@.len() - i,
    {
        proof {
            assert(d.take(i - start + 1).drop_last() =~= d.take(i - start));
            assert(d.take(i - start + 1).last() == s@[i as int]);
        }
        let digit = match digit_of(s[i], radix) {
            Some(x) => x,
            None => {
                proof {
                    assert(digits_value(d.take(i - start + 1), radix) is None);
                    lemma_digits_none(d, radix, i - start + 1);
                    assert(radix_value(s@, radix) is None);
                }
                return None;
            },
        };
        let next: u64 = value * radix as u64 + digit as u64;
        if next > u32::MAX as u64 {
            proof {
                assert(digits_value(d.take(i - start + 1), radix) == Some(next as nat));
                lemma_digits_overflow(d, radix, i - start + 1);
                assert(radix_value(s@, radix) is None);
            }
            return None;
        }
        value = next;
        i = i + 1;
    }
    assert(d.take(s@.len() - start) =~= d);
    Some(value as u32)
}

/// Once a prefix has a non-digit, so has the whole.
proof fn lemma_digits_none(d: Seq<char>, radix: u32, k: int)
    requires
        0 < k <= d.len(),
        digits_value(d.take(k), radix) is None,
    ensures
        digits_value(d, radix) is None,
    decreases d.len() - k,
{
    if k < d.len() {
        assert(d.drop_last().take(k) =~= d.take(k));
        lemma_digits_none(d.drop_last(), radix, k);
    } else {
        assert(d.take(k) =~= d);
    }
}

/// The character a numeric reference `&#...;` stands for, given what follows the `#`.
pub open spec fn numeric_entity_spec(ent: Seq<char>) -> Result<char, EscapeError> {
    if ent.len() == 0 {
        Err(EscapeError::EmptyEntity)
    } else if ent == seq!['x', '0'] || ent == seq!['0'] {
        Err(EscapeError::MalformedEntity)
    } else if ent[0] == 'x' {
        match radix_value(ent.drop_first(), 16) {
            Some(v) if v <= 0x10ffff && !(0xd800 <= v <= 0xdfff) => Ok(v as char),
            _ => Err(EscapeError::InvalidHexadecimal),
        }
    } else {
        match radix_value(ent, 10) {
            Some(v) if v <= 0x10ffff && !(0xd800 <= v <= 0xdfff) => Ok(v as char),
            _ => Err(EscapeError::InvalidDecimal),
        }
    }
}

/// The character of a numeric character reference (see `numeric_entity_spec`).
pub fn parse_numeric_entity(ent: &[char]) -> (r: Result<char, EscapeError>)
    ensures
        r == numeric_entity_spec(ent@),
{
    if ent.len() == 0 {
        return Err(EscapeError::EmptyEntity);
    }
    let is_x0 = ent.len() == 2 && ent[0] == 'x' && ent[1] == '0';
    let is_0 = ent.len() == 1 && ent[0] == '0';
    proof {
        assert(is_x0 <==> ent@ =~= seq!['x', '0']);
        assert(is_0 <==> ent@ =~= seq!['0']);
    }
    if is_x0 || is_0 {
        return Err(EscapeError::MalformedEntity);
    }
    if ent[0] == 'x' {
        let rest = slice_from(ent, 1);
        assert(rest@ =~= ent@.drop_first());
        match parse_radix(rest, 16) {
            Some(v) => match char_from_u32(v) {
                Some(c) => {
                    proof {
                        lemma_code_char(c, v);
                    }
                    Ok(c)
                },
                None => Err(EscapeError::InvalidHexadecimal),
            },
            None => Err(EscapeError::InvalidHexadecimal),
        }
    } else {
        match parse_radix(ent, 10) {
            Some(v) => match char_from_u32(v) {
                Some(c) => {
                    proof {
                        lemma_code_char(c, v);
                    }
                    Ok(c)
                },
                None => Err(EscapeError::InvalidDecimal),
            },
            None => Err(EscapeError::InvalidDecimal),
        }
    }
}

/// The characters of `s` from `start` on.
fn slice_from(s: &[char], start: usize) -> (r: &[char])
    requires
        start <= s@.len(),
    ensures
        r@ == s@.subrange(start as int, s@.len() as int),
{
    let (_, rest) = s.split_at(start);
    rest
}

/// The characters of `s` from `start` up to `end`.
fn slice_range(s: &[char], start: usize, end: usize) -> (r: &[char])
    requires
        start <= end <= s@.len(),
    ensures
        r@ == s@.subrange(start as int, end as int),
{
    let (left, _) = s.split_at(end);
    let (_, mid) = left.split_at(start);
    mid
}

/// The first position at or after `from` that holds `c`, or the length when there is none.
pub open spec fn find_char(s: Seq<char>, c: char, from: int) -> int
    decreases s.len() - from,
{
    if from >= s.len() {
        s.len() as int
    } else if s[from] == c {
        from
    } else {
        find_char(s, c, from + 1)
    }
}

/// `find_char` lies between `from` and the length.
proof fn lemma_find_char(s: Seq<char>, c: char, from: int)
    requires
        0 <= from <= s.len(),
    ensures
        from <= find_char(s, c, from) <= s.len(),
        find_char(s, c, from) < s.len() ==> s[find_char(s, c, from)] == c,
        forall|j: int| from <= j < find_char(s, c, from) ==> s[j] != c,
    decreases s.len() - from,
{
    if from < s.len() && s[from] != c {
        lemma_find_char(s, c, from + 1);
    }
}

/// The first position at or after `from` that holds `c`, or the length when there is none.
fn find_char_from(s: &[char], c: char, from: usize) -> (r: usize)
    requires
        from <= s@.len(),
    ensures
        r == find_char(s@, c, from as int),
{
    let mut i = from;
    while i < s.len()
        invariant
            from <= i <= s@.len(),
            find_char(s@, c, from as int) == find_char(s@, c, i as int),
        decreases s@.len() - i,
    {
        if s[i] == c {
            return i;
        }
        i = i + 1;
    }
    i
}

/// The text from `pos` on with every character reference replaced: a `&` must be followed
/// by a `;` before the next `&`; `&#...;` is a numeric reference (see
/// `numeric_entity_spec`), `&name;` a named one (see `entity_spec`). The first reference that
/// cannot be replaced gives the error.
pub open spec fn unescape_from(s: Seq<char>, pos: int) -> Result<Seq<char>, EscapeError>
    decreases s.len() - pos,
{
    if pos < 0 || pos > s.len() {
        Ok(Seq::empty())
    } else {
        let amp = find_char(s, '&', pos);
        if amp >= s.len() {
            Ok(s.subrange(pos, s.len() as int))
        } else {
            let next_amp = find_char(s, '&', amp + 1);
            let semi = find_char(s, ';', amp + 1);
            if semi >= next_amp || semi >= s.len() || semi < pos {
                Err(EscapeError::BadEntity)
            } else {
                let name = s.subrange(amp + 1, semi);
                let replacement = if name.len() > 0 && name[0] == '#' {
                    match numeric_entity_spec(name.drop_first()) {
                        Ok(c) => Ok(seq![c]),
                        Err(e) => Err(e),
                    }
                } else {
                    match entity_spec(name) {
                        Some(r) => Ok(r),
                        None => Err(EscapeError::UnrecognizedEntity),
                    }
                };
                match replacement {
                    Err(e) => Err(e),
                    Ok(r) => match unescape_from(s, semi + 1) {
                        Ok(rest) => Ok(s.subrange(pos, amp) + r + rest),
                        Err(e) => Err(e),
                    },
                }
            }
        }
    }
}

/// Text without `&` holds no character reference: unescaping gives it back unchanged.
pub proof fn lemma_unescape_plain(s: Seq<char>)
    requires
        forall|i: int| 0 <= i < s.len() ==> s[i] != '&',
    ensures
        unescape_from(s, 0) == Ok::<Seq<char>, EscapeError>(s),
{
    lemma_find_char(s, '&', 0);
    assert(s.subrange(0, s.len() as int) =~= s);
}

/// A character reference between texts without `&` is replaced: a named one by the text of
/// its entity (an unknown name is an `UnrecognizedEntity`), a numeric one `&#...;` by the
/// character it stands for (or its error); the texts around it stay as they are.
#[verifier::spinoff_prover]
#[verifier::rlimit(100)]
pub proof fn lemma_unescape_reference(a: Seq<char>, name: Seq<char>, b: Seq<char>)
    requires
        forall|i: int| 0 <= i < a.len() ==> a[i] != '&',
        forall|i: int| 0 <= i < b.len() ==> b[i] != '&',
        forall|i: int| 0 <= i < name.len() ==> name[i] != '&' && name[i] != ';',
    ensures
        ({
            let s = a + seq!['&'] + name + seq![';'] + b;
            if name.len() > 0 && name[0] == '#' {
                match numeric_entity_spec(name.drop_first()) {
                    Ok(c) => unescape_from(s, 0) == Ok::<Seq<char>, EscapeError>(a + seq![c] + b),
                    Err(e) => unescape_from(s, 0) == Err::<Seq<char>, EscapeError>(e),
                }
            } else {
                match entity_spec(name) {
                    Some(r) => unescape_from(s, 0) == Ok::<Seq<char>, EscapeError>(a + r + b),
                    None => unescape_from(s, 0) == Err::<Seq<char>, EscapeError>(EscapeError::UnrecognizedEntity),
                }
            }
        }),
{
    let s = a + seq!['&'] + name + seq![';'] + b;
    let amp = a.len() as int;
    let semi = amp + 1 + name.len();
    assert(s[amp] == '&');
    assert(s[semi] == ';');
    assert forall|i: int| 0 <= i < amp implies s[i] != '&' by {
        assert(s[i] == a[i]);
    }
    assert forall|i: int| amp < i < semi implies s[i] != '&' && s[i] != ';' by {
        assert(s[i] == name[i - amp - 1]);
    }
    assert forall|i: int| semi < i < s.len() implies s[i] != '&' by {
        assert(s[i] == b[i - semi - 1]);
    }
    lemma_find_char_at(s, '&', 0, amp);
    lemma_find_char_none(s, '&', amp + 1);
    lemma_find_char_at(s, ';', amp + 1, semi);
    lemma_find_char_none(s, '&', semi + 1);
    assert(s.subrange(amp + 1, semi) =~= name);
    assert(s.subrange(0, amp) =~= a);
    assert(s.subrange(semi + 1, s.len() as int) =~= b);
    assert(unescape_from(s, semi + 1) == Ok::<Seq<char>, EscapeError>(b));
}

/// `find_char` finds the first `c` at `at` when none comes before it from `from`.
proof fn lemma_find_char_at(s: Seq<char>, c: char, from: int, at: int)
    requires
        0 <= from <= at < s.len(),
        s[at] == c,
        forall|i: int| from <= i < at ==> s[i] != c,
    ensures
        find_char(s, c, from) == at,
    decreases at - from,
{
    if from < at {
        lemma_find_char_at(s, c, from + 1, at);
    }
}

/// `find_char` gives the length when no `c` comes from `from` on.
proof fn lemma_find_char_none(s: Seq<char>, c: char, from: int)
    requires
        0 <= from,
        forall|i: int| from <= i < s.len() ==> s[i] != c,
    ensures
        find_char(s, c, from) == s.len(),
    decreases s.len() - from,
{
    if from < s.len() {
        lemma_find_char_none(s, c, from + 1);
    }
}

/// `o` in front of the text of a result.
pub open spec fn prepend(o: Seq<char>, r: Result<Seq<char>, EscapeError>) -> Result<Seq<char>, EscapeError> {
    match r {
        Ok(rest) => Ok(o + rest),
        Err(e) => Err(e),
    }
}

/// Appends `s[from..to]` to `out`.
fn push_range(out: &mut Vec<char>, s: &[char], from: usize, to: usize)
    requires
        from <= to <= s@.len(),
    ensures
        final(out)@ == old(out)@ + s@.subrange(from as int, to as int),
{
    let mut k: usize = from;
    while k < to
        invariant
            from <= k <= to,
            to <= s@.len(),
            out@ == old(out)@ + s@.subrange(from as int, k as int),
        decreases to - k,
    {
        out.push(s[k]);
        assert(s@.subrange(from as int, k + 1) =~= s@.subrange(from as int, k as int).push(s@[k as int]));
        k = k + 1;
    }
}

/// The text with every character reference replaced (see `unescape_from`).
pub fn unescape(s: &[char]) -> (r: Result<Vec<char>, EscapeError>)
    ensures
        match r {
            Ok(v) => unescape_from(s@, 0) == Ok::<Seq<char>, EscapeError>(v@),
            Err(e) => unescape_from(s@, 0) == Err::<Seq<char>, EscapeError>(e),
        },
{
    let mut out: Vec<char> = Vec::new();
    let mut pos: usize = 0;
    assert(out@ + s@ =~= s@);
    loop
        invariant
            pos <= s@.len(),
            unescape_from(s@, 0) == prepend(out@, unescape_from(s@, pos as int)),
        decreases s@.len() - pos,
    {
        proof {
            lemma_find_char(s@, '&', pos as int);
        }
        let amp = find_char_from(s, '&', pos);
        if amp >= s.len() {
            let ghost out0 = out@;
            push_range(&mut out, s, pos, s.len());
            return Ok(out);
        }
        proof {
            lemma_find_char(s@, '&', amp + 1);
            lemma_find_char(s@, ';', amp + 1);
        }
        let next_amp = find_char_from(s, '&', amp + 1);
        let semi = find_char_from(s, ';', amp + 1);
        if semi >= next_amp || semi >= s.len() {
            return Err(EscapeError::BadEntity);
        }
        let name = slice_range(s, amp + 1, semi);
        let replacement: Vec<char> = if name.len() > 0 && name[0] == '#' {
            let digits = slice_from(name, 1);
            assert(digits@ =~= name@.drop_first());
            match parse_numeric_entity(digits) {
                Ok(c) => {
                    let mut v: Vec<char> = Vec::new();
                    v.push(c);
                    v
                },
                Err(e) => return Err(e),
            }
        } else {
            match lookup_entity(name) {
                Some(v) => v,
                None => return Err(EscapeError::UnrecognizedEntity),
            }
        };
        let ghost out0 = out@;
        push_range(&mut out, s, pos, amp);
        let rlen = replacement.len();
        push_range(&mut out, replacement.as_slice(), 0, rlen);
        proof {
            assert(replacement@.subrange(0, rlen as int) =~= replacement@);
            let rest = unescape_from(s@, semi + 1);
            match rest {
                Ok(x) => {
                    assert(out0 + (s@.subrange(pos as int, amp as int) + replacement@ + x) =~= out@ + x);
                },
                Err(_) => {},
            }
        }
        pos = semi + 1;
    }
}

/// The text with every character reference replaced (see `unescape_from`).
pub fn unescape_str(s: &str) -> (r: Result<String, EscapeError>)
    ensures
        match r {
            Ok(t) => unescape_from(s@, 0) == Ok::<Seq<char>, EscapeError>(t@),
            Err(e) => unescape_from(s@, 0) == Err::<Seq<char>, EscapeError>(e),
        },
{
    let chars = str_to_chars(s);
    match unescape(&chars) {
        Ok(v) => Ok(string_from_chars(&v)),
        Err(e) => Err(e),
    }
}

} // verus!
