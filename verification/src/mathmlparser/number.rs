//! Reading lengths like `1.5em` or `-3pt` from attribute values.
use vstd::prelude::*;

use crate::types::{Length, LengthUnit};

verus! {

/// Whether `c` is Unicode white space (the characters `str::trim` removes).
pub open spec fn is_white_space(c: char) -> bool {
    let v = c as u32;
    (0x9 <= v <= 0xd) || v == 0x20 || v == 0x85 || v == 0xa0 || v == 0x1680 || (0x2000 <= v
        <= 0x200a) || v == 0x2028 || v == 0x2029 || v == 0x202f || v == 0x205f || v == 0x3000
}

/// Whether `c` is Unicode white space.
pub fn white_space(c: char) -> (r: bool)
    ensures
        r == is_white_space(c),
{
    let v = c as u32;
    (0x9 <= v && v <= 0xd) || v == 0x20 || v == 0x85 || v == 0xa0 || v == 0x1680 || (0x2000 <= v
        && v <= 0x200a) || v == 0x2028 || v == 0x2029 || v == 0x202f || v == 0x205f || v == 0x3000
}

/// The text without white space at its start.
pub open spec fn trim_start(s: Seq<char>) -> Seq<char>
    decreases s.len(),
{
    if s.len() > 0 && is_white_space(s[0]) {
        trim_start(s.drop_first())
    } else {
        s
    }
}

/// The text without white space at its end.
pub open spec fn trim_end(s: Seq<char>) -> Seq<char>
    decreases s.len(),
{
    if s.len() > 0 && is_white_space(s.last()) {
        trim_end(s.drop_last())
    } else {
        s
    }
}

/// The text without white space at either end.
pub open spec fn trimmed(s: Seq<char>) -> Seq<char> {
    trim_end(trim_start(s))
}

/// The text without white space at either end.
pub fn trim(s: &[char]) -> (r: Vec<char>)
    ensures
        r@ == trimmed(s@),
{
    let mut start: usize = 0;
    assert(s@.subrange(0, s@.len() as int) =~= s@);
    while start < s.len() && white_space(s[start])
        invariant
            start <= s@.len(),
            trim_start(s@) == trim_start(s@.subrange(start as int, s@.len() as int)),
        decreases s@.len() - start,
    {
        assert(s@.subrange(start as int, s@.len() as int).drop_first() =~= s@.subrange(
            start + 1,
            s@.len() as int,
        ));
        start = start + 1;
    }
    let ghost front = s@.subrange(start as int, s@.len() as int);
    assert(trim_start(s@) == front);
    let mut end: usize = s.len();
    while end > start && white_space(s[end - 1])
        invariant
            start <= end <= s@.len(),
            front == s@.subrange(start as int, s@.len() as int),
            trim_end(front) == trim_end(s@.subrange(start as int, end as int)),
        decreases end,
    {
        assert(s@.subrange(start as int, end as int).drop_last() =~= s@.subrange(
            start as int,
            end - 1,
        ));
        end = end - 1;
    }
    let mut r: Vec<char> = Vec::new();
    let mut i: usize = start;
    while i < end
        invariant
            start <= i <= end,
            end <= s@.len(),
            r@ == s@.subrange(start as int, i as int),
        decreases end - i,
    {
        r.push(s[i]);
        assert(s@.subrange(start as int, i + 1) =~= s@.subrange(start as int, i as int).push(
            s@[i as int],
        ));
        i = i + 1;
    }
    r
}

/// An ASCII capital letter in small case; anything else as it is.
pub open spec fn ascii_lower(c: char) -> char {
    if 'A' <= c <= 'Z' {
        ((c as u32) + 32) as char
    } else {
        c
    }
}

/// The text with ASCII capitals in small case.
pub fn to_ascii_lowercase(s: &[char]) -> (r: Vec<char>)
    ensures
        r@ == s@.map_values(|c: char| ascii_lower(c)),
{
    let mut r: Vec<char> = Vec::new();
    let mut i: usize = 0;
    while i < s.len()
        invariant
            i <= s@.len(),
            r@ =~= s@.take(i as int).map_values(|c: char| ascii_lower(c)),
        decreases s@.len() - i,
    {
        let c = s[i];
        let l = if 'A' <= c && c <= 'Z' {
            let code = (c as u32) + 32;
            let lc = match crate::unicode_math::char_from_u32(code) {
                Some(x) => {
                    proof {
                        crate::unicode_math::lemma_code_char(x, code);
                    }
                    x
                },
                None => c,
            };
            lc
        } else {
            c
        };
        r.push(l);
        assert(s@.take(i + 1) =~= s@.take(i as int).push(s@[i as int]));
        i = i + 1;
    }
    assert(s@.take(s@.len() as int) =~= s@);
    r
}

/// Whether `c` may occur in the number at the start of a length.
pub open spec fn is_number_char(c: char) -> bool {
    ('0' <= c <= '9') || c == '.' || c == '+' || c == '-'
}

/// The length of the longest start of `s` made of number characters.
pub open spec fn number_prefix_len(s: Seq<char>, from: int) -> int
    decreases s.len() - from,
{
    if from < 0 || from >= s.len() || !is_number_char(s[from]) {
        if from < 0 {
            0
        } else {
            from
        }
    } else {
        number_prefix_len(s, from + 1)
    }
}

/// Whether `c` is a decimal digit.
pub open spec fn is_digit(c: char) -> bool {
    '0' <= c <= '9'
}

/// Whether all characters are decimal digits.
pub open spec fn all_digits(d: Seq<char>) -> bool {
    forall|i: int| 0 <= i < d.len() ==> is_digit(#[trigger] d[i])
}

/// The value of a sequence of decimal digits.
pub open spec fn digits_nat(d: Seq<char>) -> nat
    decreases d.len(),
{
    if d.len() == 0 {
        0
    } else {
        digits_nat(d.drop_last()) * 10 + ((d.last() as u32 - '0' as u32) as nat)
    }
}

/// The characters of a number after its sign.
pub open spec fn number_body(p: Seq<char>) -> Seq<char> {
    if p.len() > 0 && (p[0] == '-' || p[0] == '+') {
        p.drop_first()
    } else {
        p
    }
}

/// The digits of a number, without its sign and its first decimal point.
pub open spec fn number_digits(p: Seq<char>) -> Seq<char> {
    let body = number_body(p);
    let dot = number_point(body, 0);
    if dot < body.len() {
        body.take(dot) + body.skip(dot + 1)
    } else {
        body
    }
}

/// The number of characters after the first decimal point of a number (0 without one).
pub open spec fn number_fraction(p: Seq<char>) -> nat {
    let body = number_body(p);
    let dot = number_point(body, 0);
    if dot < body.len() {
        (body.len() - dot - 1) as nat
    } else {
        0
    }
}

/// A decimal number as `f32::from_str` reads it (without exponent): an optional sign, then
/// digits with at most one decimal point, at least one digit in all. The sign (true for
/// minus), the digits and the number of digits after the point.
pub open spec fn decimal_syntax(p: Seq<char>) -> Option<(bool, Seq<char>, nat)> {
    let digits = number_digits(p);
    if digits.len() > 0 && all_digits(digits) {
        Some((p.len() > 0 && p[0] == '-', digits, number_fraction(p)))
    } else {
        None
    }
}

/// The first position of a decimal point from `from` on, or the length.
pub open spec fn number_point(s: Seq<char>, from: int) -> int
    decreases s.len() - from,
{
    if from < 0 {
        0
    } else if from >= s.len() || s[from] == '.' {
        from
    } else {
        number_point(s, from + 1)
    }
}

/// The largest numerator a length holds.
pub open spec fn numerator_limit() -> nat {
    2147483647
}

/// `value / 10^scale` with digits dropped from the end until the value is at most the
/// numerator limit, and saturated at it when no digits are left to drop: the value and the
/// scale.
pub open spec fn fitted(value: nat, scale: nat) -> (nat, nat)
    decreases scale,
{
    if value <= numerator_limit() {
        (value, scale)
    } else if scale == 0 {
        (numerator_limit(), 0)
    } else {
        fitted(value / 10, (scale - 1) as nat)
    }
}

/// `10^n`.
pub open spec fn pow10(n: nat) -> nat
    decreases n,
{
    if n == 0 {
        1
    } else {
        10 * pow10((n - 1) as nat)
    }
}

/// The digits with at most `max_frac` digits after the point: `fraction` digits after the
/// point, the rest dropped.
pub open spec fn truncated_value(digits: Seq<char>, fraction: nat, max_frac: nat) -> nat {
    if fraction <= max_frac {
        digits_nat(digits)
    } else {
        digits_nat(digits.take(digits.len() - (fraction - max_frac)))
    }
}

/// The length that a number prefix stands for (see `decimal_syntax`): at most nine digits after
/// the point are kept, further digits are dropped while the numerator does not fit.
pub open spec fn number_length(p: Seq<char>, unit: LengthUnit) -> Option<(int, int, LengthUnit)> {
    match decimal_syntax(p) {
        None => None,
        Some((negative, digits, fraction)) => {
            let scale = if fraction <= 9 { fraction } else { 9 };
            let (v, s) = fitted(truncated_value(digits, fraction, 9), scale);
            Some((if negative { -v } else { v as int }, pow10(s) as int, unit))
        },
    }
}

/// The unit named after the number: `em`, `pt`, and points for anything else.
pub open spec fn unit_of(rest: Seq<char>) -> LengthUnit {
    if trimmed(rest) == seq!['e', 'm'] {
        LengthUnit::Em
    } else {
        LengthUnit::Point
    }
}

/// The length an attribute value stands for: white space around it is ignored, capitals are
/// read as small letters, the number at its start is read (see `number_length`) and the
/// unit after it (see `unit_of`).
pub open spec fn length_attribute(s: Seq<char>) -> Option<(int, int, LengthUnit)> {
    let t = trimmed(s).map_values(|c: char| ascii_lower(c));
    let n = number_prefix_len(t, 0);
    number_length(t.take(n), unit_of(t.skip(n)))
}

proof fn lemma_fitted_saturated(v: nat, cap: nat, scale: nat)
    requires
        cap >= (numerator_limit() + 1) * pow10(scale),
        pow10(scale) >= 1,
    ensures
        fitted(if v < cap { v } else { cap }, scale) == fitted(v, scale),
    decreases scale,
{
    let w = if v < cap { v } else { cap };
    assert(cap > numerator_limit()) by (nonlinear_arith)
        requires
            cap >= (numerator_limit() + 1) * pow10(scale),
            pow10(scale) >= 1,
    ;
    if w <= numerator_limit() {
        assert(w == v);
    } else if scale == 0 {
        assert(v > numerator_limit());
    } else {
        assert(v > numerator_limit());
        assert(pow10(scale) == 10 * pow10((scale - 1) as nat));
        assert(pow10((scale - 1) as nat) >= 1) by {
            lemma_pow10_le(0, (scale - 1) as nat);
        }
        assert(cap / 10 >= (numerator_limit() + 1) * pow10((scale - 1) as nat)) by (nonlinear_arith)
            requires
                cap >= (numerator_limit() + 1) * pow10(scale),
                pow10(scale) == 10 * pow10((scale - 1) as nat),
        ;
        lemma_fitted_saturated(v / 10, cap / 10, (scale - 1) as nat);
        assert(w / 10 == (if v / 10 < cap / 10 { v / 10 } else { cap / 10 })) by (nonlinear_arith)
            requires
                w == (if v < cap { v } else { cap }),
        ;
    }
}

/// `10^n` for `n` at most nine.
fn pow10_u32(n: u32) -> (r: u32)
    requires
        n <= 9,
    ensures
        r == pow10(n as nat),
{
    let mut r: u32 = 1;
    let mut i: u32 = 0;
    while i < n
        invariant
            i <= n <= 9,
            r == pow10(i as nat),
            r <= 1_000_000_000,
        decreases n - i,
    {
        proof {
            lemma_pow10_le(i as nat + 1, 9);
            reveal_with_fuel(pow10, 2);
        }
        r = r * 10;
        i = i + 1;
    }
    r
}

/// `10^m <= 10^n` for `m <= n`, all at least 1, and `10^9` is a billion.
proof fn lemma_pow10_le(m: nat, n: nat)
    requires
        m <= n,
    ensures
        pow10(m) <= pow10(n),
        pow10(9) == 1_000_000_000,
        pow10(m) >= 1,
        pow10(n) >= 1,
    decreases n,
{
    reveal_with_fuel(pow10, 10);
    if n > 0 {
        if m < n {
            lemma_pow10_le(m, (n - 1) as nat);
        } else {
            lemma_pow10_le((n - 1) as nat, (n - 1) as nat);
        }
    }
}

/// The sign, digits and fraction length of a number (see `decimal_syntax`).
fn number_parts(p: &[char]) -> (r: (bool, Vec<char>, usize))
    ensures
        r.0 == (p@.len() > 0 && p@[0] == '-'),
        r.1@ == number_digits(p@),
        r.2 == number_fraction(p@),
        r.2 <= r.1@.len(),
{
    let negative = p.len() > 0 && p[0] == '-';
    let start: usize = if p.len() > 0 && (p[0] == '-' || p[0] == '+') {
        1
    } else {
        0
    };
    let ghost body = number_body(p@);
    assert(body =~= p@.skip(start as int));
    let mut dot: usize = start;
    while dot < p.len() && p[dot] != '.'
        invariant
            start <= dot <= p@.len(),
            body =~= p@.skip(start as int),
            number_point(body, 0) == number_point(body, dot - start),
        decreases p@.len() - dot,
    {
        dot = dot + 1;
    }
    let ghost dot_b = dot - start;
    assert(number_point(body, dot_b) == dot_b);
    let mut digits: Vec<char> = Vec::new();
    let mut i: usize = start;
    while i < p.len()
        invariant
            start <= i <= p@.len(),
            start <= dot <= p@.len(),
            body =~= p@.skip(start as int),
            dot_b == dot - start,
            digits@ == (if i <= dot {
                body.take(i - start)
            } else {
                body.take(dot_b) + body.subrange(dot_b + 1, i - start)
            }),
        decreases p@.len() - i,
    {
        if i != dot {
            digits.push(p[i]);
        }
        proof {
            if i < dot {
                assert(body.take(i + 1 - start) =~= body.take(i - start).push(p@[i as int]));
            } else if i == dot {
                assert(body.subrange(dot_b + 1, i + 1 - start) =~= Seq::<char>::empty());
                assert(body.take(dot_b) + Seq::<char>::empty() =~= body.take(dot_b));
            } else {
                assert(body.subrange(dot_b + 1, i + 1 - start) =~= body.subrange(dot_b + 1, i - start).push(p@[i as int]));
            }
        }
        i = i + 1;
    }
    proof {
        if dot_b < body.len() {
            assert(body.subrange(dot_b + 1, p@.len() - start) =~= body.skip(dot_b + 1));
        } else {
            assert(body.take(p@.len() - start) =~= body);
        }
    }
    let fraction: usize = if dot < p.len() {
        p.len() - dot - 1
    } else {
        0
    };
    (negative, digits, fraction)
}

/// The saturation bound for digit values: the numerator limit plus one, times `10^9`.
pub open spec fn saturation_cap() -> nat {
    2147483648 * 1_000_000_000
}

/// The value of the first `keep` digits, saturated at `saturation_cap`.
fn saturated_value(digits: &[char], keep: usize) -> (r: u128)
    requires
        keep <= digits@.len(),
        all_digits(digits@),
    ensures
        r == (if digits_nat(digits@.take(keep as int)) < saturation_cap() {
            digits_nat(digits@.take(keep as int))
        } else {
            saturation_cap()
        }),
{
    let cap: u128 = 2147483648u128 * 1_000_000_000u128;
    let ghost kept = digits@.take(keep as int);
    let mut value: u128 = 0;
    let mut j: usize = 0;
    assert(kept.take(0) =~= Seq::<char>::empty());
    while j < keep
        invariant
            keep <= digits@.len(),
            j <= keep,
            kept == digits@.take(keep as int),
            all_digits(digits@),
            cap == saturation_cap(),
            value == (if digits_nat(kept.take(j as int)) < cap { digits_nat(kept.take(j as int)) } else { cap as nat }),
        decreases keep - j,
    {
        proof {
            assert(kept.take(j + 1).drop_last() =~= kept.take(j as int));
            assert(kept.take(j + 1).last() == digits@[j as int]);
            assert(is_digit(digits@[j as int]));
        }
        let d = (digits[j] as u32 - '0' as u32) as u128;
        let next = value * 10 + d;
        value = if next < cap {
            next
        } else {
            cap
        };
        j = j + 1;
    }
    assert(kept.take(keep as int) =~= kept);
    value
}

/// Drops digits from the end of `value / 10^scale` while it does not fit (see `fitted`).
fn fit(value: u128, scale: u32) -> (r: (u32, u32))
    requires
        scale <= 9,
    ensures
        (r.0 as nat, r.1 as nat) == fitted(value as nat, scale as nat),
        r.0 <= 2147483647,
        r.1 <= scale,
{
    let mut v: u128 = value;
    let mut s: u32 = scale;
    while v > 2147483647 && s > 0
        invariant
            s <= scale <= 9,
            fitted(v as nat, s as nat) == fitted(value as nat, scale as nat),
        decreases s,
    {
        v = v / 10;
        s = s - 1;
    }
    let numerator: u32 = if v > 2147483647 {
        2147483647
    } else {
        v as u32
    };
    (numerator, s)
}

/// The length a number prefix stands for (see `number_length`).
fn parse_number(p: &[char], unit: LengthUnit) -> (r: Option<Length>)
    ensures
        match r {
            Some(l) => number_length(p@, unit) == Some(l@),
            None => number_length(p@, unit) is None,
        },
{
    let (negative, digits, fraction) = number_parts(p);
    if digits.len() == 0 {
        return None;
    }
    let mut k: usize = 0;
    while k < digits.len()
        invariant
            k <= digits@.len(),
            digits@ == number_digits(p@),
            forall|j: int| 0 <= j < k ==> is_digit(#[trigger] digits@[j]),
        decreases digits@.len() - k,
    {
        if !('0' <= digits[k] && digits[k] <= '9') {
            assert(!is_digit(digits@[k as int]));
            assert(!all_digits(digits@));
            assert(decimal_syntax(p@) is None);
            assert(number_length(p@, unit) is None);
            return None;
        }
        k = k + 1;
    }
    assert(all_digits(digits@));
    assert(decimal_syntax(p@) == Some((negative, digits@, fraction as nat)));
    let keep: usize = if fraction <= 9 {
        digits.len()
    } else {
        digits.len() - (fraction - 9)
    };
    let scale: u32 = if fraction <= 9 {
        fraction as u32
    } else {
        9
    };
    proof {
        if fraction <= 9 {
            assert(digits@.take(keep as int) =~= digits@);
        }
    }
    let value = saturated_value(&digits, keep);
    proof {
        lemma_pow10_le(scale as nat, 9);
        assert(saturation_cap() >= (numerator_limit() + 1) * pow10(scale as nat)) by (nonlinear_arith)
            requires
                pow10(scale as nat) <= 1_000_000_000,
        ;
        lemma_fitted_saturated(truncated_value(digits@, fraction as nat, 9), saturation_cap(), scale as nat);
    }
    let (numerator, s) = fit(value, scale);
    let n: i32 = numerator as i32;
    let signed: i32 = if negative {
        -n
    } else {
        n
    };
    let denominator = pow10_u32(s);
    proof {
        lemma_pow10_le(s as nat, 9);
    }
    Some(Length::new(signed, denominator, unit))
}

/// The length with the given numerator, denominator and unit.
pub open spec fn length_of_view(v: (int, int, LengthUnit)) -> Length {
    choose|l: Length| l@ == v
}

/// The length an attribute value stands for (see `length_attribute`).
pub open spec fn length_value(s: Seq<char>) -> Option<Length> {
    match length_attribute(s) {
        Some(v) => Some(length_of_view(v)),
        None => None,
    }
}

/// The length an attribute value stands for (see `length_attribute`).
pub fn length_from_attribute(s: &[char]) -> (r: Option<Length>)
    ensures
        match r {
            Some(l) => length_attribute(s@) == Some(l@),
            None => length_attribute(s@) is None,
        },
        r == length_value(s@),
{
    let trimmed_chars = trim(s);
    let t = to_ascii_lowercase(&trimmed_chars);
    let mut n: usize = 0;
    while n < t.len() && (('0' <= t[n] && t[n] <= '9') || t[n] == '.' || t[n] == '+' || t[n] == '-')
        invariant
            n <= t@.len(),
            number_prefix_len(t@, 0) == number_prefix_len(t@, n as int),
        decreases t@.len() - n,
    {
        n = n + 1;
    }
    let mut prefix: Vec<char> = Vec::new();
    let mut rest: Vec<char> = Vec::new();
    let mut i: usize = 0;
    while i < t.len()
        invariant
            n <= t@.len(),
            i <= t@.len(),
            prefix@ == t@.take(if i < n { i as int } else { n as int }),
            rest@ == (if i < n { Seq::empty() } else { t@.subrange(n as int, i as int) }),
        decreases t@.len() - i,
    {
        if i < n {
            prefix.push(t[i]);
            assert(t@.take(i + 1) =~= t@.take(i as int).push(t@[i as int]));
        } else {
            rest.push(t[i]);
            assert(t@.subrange(n as int, i + 1) =~= t@.subrange(n as int, i as int).push(t@[i as int]));
        }
        i = i + 1;
    }
    proof {
        if n == t@.len() {
            assert(t@.subrange(n as int, n as int) =~= t@.skip(n as int));
        }
        assert(rest@ =~= t@.skip(n as int));
    }
    let rest_trimmed = trim(&rest);
    let em: [char; 2] = ['e', 'm'];
    assert(em@ == seq!['e', 'm']);
    let unit = if crate::text::chars_eq(&rest_trimmed, &em) {
        LengthUnit::Em
    } else {
        LengthUnit::Point
    };
    let r = parse_number(&prefix, unit);
    proof {
        if let Some(l) = r {
            Length::lemma_view_injective(l, length_of_view(l@));
        }
    }
    r
}

} // verus!
