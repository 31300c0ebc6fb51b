//! Decimal and fixed-width lower-case hexadecimal rendering of integers,
//! written straight into `String`s.

use vstd::prelude::*;

verus! {

/// The character that stands for digit value `d` (`d < 16`).
pub open spec fn digit_char(d: nat) -> char {
    if d == 0 { '0' } else if d == 1 { '1' } else if d == 2 { '2' } else if d == 3 { '3' }
    else if d == 4 { '4' } else if d == 5 { '5' } else if d == 6 { '6' } else if d == 7 { '7' }
    else if d == 8 { '8' } else if d == 9 { '9' } else if d == 10 { 'a' } else if d == 11 { 'b' }
    else if d == 12 { 'c' } else if d == 13 { 'd' } else if d == 14 { 'e' } else { 'f' }
}

/// The decimal representation of `n`, without sign or leading zeros.
pub open spec fn decimal(n: nat) -> Seq<char>
    decreases n,
{
    if n < 10 {
        seq![digit_char(n)]
    } else {
        decimal(n / 10).push(digit_char(n % 10))
    }
}

/// The last `width` lower-case hexadecimal digits of `n`, zero-padded.
pub open spec fn hex_fixed(n: nat, width: nat) -> Seq<char>
    decreases width,
{
    if width == 0 {
        Seq::empty()
    } else {
        hex_fixed(n / 16, (width - 1) as nat).push(digit_char(n % 16))
    }
}

/// Whether `c` is a decimal digit or a lower-case letter `a` to `f`.
pub open spec fn is_hex_digit(c: char) -> bool {
    (48 <= (c as u32) && (c as u32) <= 57) || (97 <= (c as u32) && (c as u32) <= 102)
}

/// The value of a hexadecimal digit character.
pub open spec fn digit_value(c: char) -> nat {
    if (c as u32) <= 57 {
        ((c as u32) - 48) as nat
    } else {
        ((c as u32) - 87) as nat
    }
}

/// The value of a string of hexadecimal digits, most significant first.
pub open spec fn hex_value(s: Seq<char>) -> nat
    decreases s.len(),
{
    if s.len() == 0 {
        0
    } else {
        hex_value(s.drop_last()) * 16 + digit_value(s.last())
    }
}

/// Sixteen to the power `k`.
pub open spec fn pow16(k: nat) -> nat
    decreases k,
{
    if k == 0 { 1 } else { 16 * pow16((k - 1) as nat) }
}

/// Powers of sixteen are positive.
pub proof fn lemma_pow16_pos(k: nat)
    ensures
        pow16(k) > 0,
    decreases k,
{
    if k > 0 {
        lemma_pow16_pos((k - 1) as nat);
    }
}

/// Powers of sixteen grow with the exponent.
pub proof fn lemma_pow16_mono(a: nat, b: nat)
    requires
        a <= b,
    ensures
        pow16(a) <= pow16(b),
    decreases b,
{
    if a < b {
        lemma_pow16_mono(a, (b - 1) as nat);
        lemma_pow16_pos((b - 1) as nat);
    }
}

/// Sixteen to the sixteenth is two to the sixty-fourth.
pub proof fn lemma_pow16_16()
    ensures
        pow16(16) == 0x1_0000_0000_0000_0000,
{
    reveal_with_fuel(pow16, 17);
}

/// Digit characters and digit values correspond one to one.
pub proof fn lemma_digit_char(d: nat)
    requires
        d < 16,
    ensures
        is_hex_digit(digit_char(d)),
        digit_value(digit_char(d)) == d,
{
}

/// A hexadecimal digit character is the character of its value.
pub proof fn lemma_digit_value(c: char)
    requires
        is_hex_digit(c),
    ensures
        digit_value(c) < 16,
        digit_char(digit_value(c)) == c,
{
}

/// The fixed-width rendering has the asked width, consists of digits, and
/// reads back as the number modulo sixteen to the width.
pub proof fn lemma_hex_fixed(n: nat, width: nat)
    ensures
        hex_fixed(n, width).len() == width,
        forall|i: int| 0 <= i < width ==> is_hex_digit(#[trigger] hex_fixed(n, width)[i]),
        hex_value(hex_fixed(n, width)) == n % pow16(width),
    decreases width,
{
    if width > 0 {
        let w1 = (width - 1) as nat;
        lemma_hex_fixed(n / 16, w1);
        lemma_digit_char(n % 16);
        let s = hex_fixed(n, width);
        assert(s.drop_last() =~= hex_fixed(n / 16, w1));
        assert forall|i: int| 0 <= i < width implies is_hex_digit(#[trigger] s[i]) by {
            if i < w1 {
                assert(s[i] == hex_fixed(n / 16, w1)[i]);
            }
        }
        assert(pow16(width) == 16 * pow16(w1));
        lemma_pow16_pos(w1);
        vstd::arithmetic::div_mod::lemma_mod_breakdown(n as int, 16, pow16(w1) as int);
    } else {
        assert(n % 1 == 0);
    }
}

/// A string of digits reads as a number below sixteen to its length, and
/// rendering that number at the string's length gives the string back.
pub proof fn lemma_hex_value(s: Seq<char>)
    requires
        forall|i: int| 0 <= i < s.len() ==> is_hex_digit(#[trigger] s[i]),
    ensures
        hex_value(s) < pow16(s.len()),
        hex_fixed(hex_value(s), s.len()) == s,
    decreases s.len(),
{
    if s.len() > 0 {
        let p = s.drop_last();
        assert forall|i: int| 0 <= i < p.len() implies is_hex_digit(#[trigger] p[i]) by {
            assert(p[i] == s[i]);
        }
        lemma_hex_value(p);
        lemma_digit_value(s.last());
        let v = hex_value(s);
        let d = digit_value(s.last());
        assert(v == hex_value(p) * 16 + d);
        assert(v / 16 == hex_value(p) && v % 16 == d) by {
            vstd::arithmetic::div_mod::lemma_fundamental_div_mod_converse(
                v as int,
                16,
                hex_value(p) as int,
                d as int,
            );
        }
        assert(hex_fixed(v, s.len()) == hex_fixed(v / 16, p.len()).push(digit_char(v % 16)));
        assert(hex_fixed(v, s.len()) =~= s);
    } else {
        assert(hex_fixed(hex_value(s), 0) =~= s);
    }
}

/// Appends the one-character string for digit `d` to `s`.
fn push_digit(s: &mut String, d: usize)
    requires
        d < 16,
    ensures
        final(s)@ == old(s)@.push(digit_char(d as nat)),
{
    let table = "0123456789abcdef";
    proof {
        reveal_strlit("0123456789abcdef");
    }
    assert(table.is_ascii());
    let one = table.substring_ascii(d, d + 1);
    s.append(one);
    assert(one@ =~= seq![digit_char(d as nat)]);
}

/// Appends the decimal representation of `n` to `s`.
pub fn push_decimal(s: &mut String, n: usize)
    ensures
        final(s)@ == old(s)@ + decimal(n as nat),
    decreases n,
{
    if n >= 10 {
        push_decimal(s, n / 10);
    }
    push_digit(s, n % 10);
    assert(final(s)@ =~= old(s)@ + decimal(n as nat)) by {
        if n >= 10 {
            assert(decimal(n as nat) == decimal((n / 10) as nat).push(digit_char((n % 10) as nat)));
        }
    }
}

/// Appends the last `width` lower-case hexadecimal digits of `n`, zero-padded.
pub fn push_hex_fixed(s: &mut String, n: u64, width: usize)
    ensures
        final(s)@ == old(s)@ + hex_fixed(n as nat, width as nat),
    decreases width,
{
    if width > 0 {
        push_hex_fixed(s, n / 16, width - 1);
        push_digit(s, (n % 16) as usize);
        assert(final(s)@ =~= old(s)@ + hex_fixed(n as nat, width as nat));
    } else {
        assert(final(s)@ =~= old(s)@ + hex_fixed(n as nat, width as nat));
    }
}

/// Whether `c` is an ASCII decimal digit.
pub open spec fn is_decimal_digit(c: char) -> bool {
    48 <= (c as u32) && (c as u32) <= 57
}

/// Whether `s` is a non-empty run of ASCII decimal digits.
pub open spec fn all_decimal(s: Seq<char>) -> bool {
    s.len() > 0 && forall|i: int| 0 <= i < s.len() ==> is_decimal_digit(#[trigger] s[i])
}

/// The value of a run of decimal digits, most significant first.
pub open spec fn decimal_value(s: Seq<char>) -> nat
    decreases s.len(),
{
    if s.len() == 0 {
        0
    } else {
        decimal_value(s.drop_last()) * 10 + ((s.last() as u32) - 48) as nat
    }
}

/// The integer that `s` writes: an optional `+` or `-` sign followed by one
/// or more ASCII decimal digits, and nothing else.
pub open spec fn signed_decimal(s: Seq<char>) -> Option<int> {
    if s.len() > 0 && s[0] == '-' {
        if all_decimal(s.drop_first()) { Some(-(decimal_value(s.drop_first()) as int)) } else { None }
    } else if s.len() > 0 && s[0] == '+' {
        if all_decimal(s.drop_first()) { Some(decimal_value(s.drop_first()) as int) } else { None }
    } else if all_decimal(s) {
        Some(decimal_value(s) as int)
    } else {
        None
    }
}

/// What parsing `s` as an `i64` gives: the integer it writes, when that
/// integer fits.
pub open spec fn parsed_i64(s: Seq<char>) -> Option<i64> {
    match signed_decimal(s) {
        Some(v) => if i64::MIN <= v && v <= i64::MAX { Some(v as i64) } else { None },
        None => None,
    }
}

/// Appending digits never makes a run of digits smaller.
proof fn lemma_decimal_value_prefix(s: Seq<char>, k: int)
    requires
        0 <= k <= s.len(),
        forall|i: int| 0 <= i < s.len() ==> is_decimal_digit(#[trigger] s[i]),
    ensures
        decimal_value(s.take(k)) <= decimal_value(s),
    decreases s.len(),
{
    if k < s.len() {
        let p = s.drop_last();
        assert forall|i: int| 0 <= i < p.len() implies is_decimal_digit(#[trigger] p[i]) by {
            assert(p[i] == s[i]);
        }
        lemma_decimal_value_prefix(p, k);
        assert(p.take(k) =~= s.take(k));
    } else {
        assert(s.take(k) =~= s);
    }
}

/// Text that is not all ASCII holds a character that is no decimal digit.
proof fn lemma_non_ascii_has_non_digit(s: Seq<char>)
    requires
        !vstd::utf8::is_ascii_chars(s),
    ensures
        exists|k: int|
            0 <= k < s.len() && !is_decimal_digit(#[trigger] s[k]) && s[k] != '-' && s[k] != '+',
{
    let k = choose|k: int| 0 <= k < s.len() && !('\0' <= #[trigger] s[k] <= '\u{7f}');
    lemma_non_ascii_char(s[k]);
}

/// A character beyond ASCII is neither a digit nor a sign.
proof fn lemma_non_ascii_char(c: char)
    requires
        !('\0' <= c <= '\u{7f}'),
    ensures
        !is_decimal_digit(c),
        c != '-',
        c != '+',
{
}

/// Parses `text` as an `i64` the way the standard library's `str::parse`
/// does: an optional sign, then one or more ASCII digits, the value in range.
pub fn parse_i64(text: &str) -> (r: Option<i64>)
    ensures
        r == parsed_i64(text@),
{
    let n = text.unicode_len();
    if !text.is_ascii() {
        proof {
            lemma_non_ascii_has_non_digit(text@);
            let k = choose|k: int|
                0 <= k < text@.len() && !is_decimal_digit(#[trigger] text@[k]) && text@[k] != '-'
                    && text@[k] != '+';
            if text@.len() > 0 && (text@[0] == '-' || text@[0] == '+') {
                assert(k != 0);
                assert(text@.drop_first()[k - 1] == text@[k]);
            }
        }
        return None;
    }
    if n == 0 {
        return None;
    }
    let first = text.get_ascii(0);
    let negative = first == 45u8;
    let start: usize = if first == 45u8 || first == 43u8 { 1 } else { 0 };
    assert(start == 1 <==> (text@[0] == '-' || text@[0] == '+'));
    if start == n {
        return None;
    }
    let ghost digits = text@.subrange(start as int, n as int);
    assert(start == 1 ==> digits =~= text@.drop_first());
    assert(start == 0 ==> digits =~= text@);
    let limit: u64 = 0x8000_0000_0000_0000;
    let mut magnitude: u64 = 0;
    let mut i: usize = start;
    while i < n
        invariant
            n == text@.len(),
            text.is_ascii(),
            start <= 1,
            start <= i <= n,
            digits == text@.subrange(start as int, n as int),
            start == 1 ==> digits == text@.drop_first(),
            start == 0 ==> digits == text@,
            (start == 1) == (text@[0] == '-' || text@[0] == '+'),
            negative == (text@[0] == '-'),
            limit == 0x8000_0000_0000_0000,
            forall|j: int| 0 <= j < i - start ==> is_decimal_digit(#[trigger] digits[j]),
            magnitude as nat == decimal_value(digits.take(i - start)),
            magnitude <= limit,
        decreases n - i,
    {
        let b = text.get_ascii(i);
        assert(digits[i - start] == text@[i as int]);
        if b < 48u8 || b > 57u8 {
            assert(!is_decimal_digit(digits[i - start]));
            return None;
        }
        assert(is_decimal_digit(digits[i - start]));
        let d = (b - 48u8) as u64;
        assert(digits.take(i - start + 1).drop_last() =~= digits.take(i - start));
        if magnitude > (limit - d) / 10 {
            proof {
                assert(decimal_value(digits.take(i - start + 1)) > limit);
                if all_decimal(digits) {
                    lemma_decimal_value_prefix(digits, i - start + 1);
                    assert(decimal_value(digits) > limit);
                    if start == 1 {
                        assert(signed_decimal(text@) == Some(
                            if negative { -(decimal_value(digits) as int) } else { decimal_value(digits) as int },
                        ));
                    } else {
                        assert(signed_decimal(text@) == Some(decimal_value(digits) as int));
                    }
                }
            }
            return None;
        }
        magnitude = magnitude * 10 + d;
        i = i + 1;
    }
    assert(digits.take(n - start) =~= digits);
    if negative {
        if magnitude == limit {
            Some(i64::MIN)
        } else {
            Some(-(magnitude as i64))
        }
    } else if magnitude > 0x7fff_ffff_ffff_ffff {
        None
    } else {
        Some(magnitude as i64)
    }
}

} // verus!