//! Text building blocks for the JSON wire format: decimal renderings of
//! integers and the JSON string escaping used by the reference codec (quote,
//! backslash and the named control escapes; other control characters as
//! lowercase `\u00..` sequences; everything else verbatim).

use vstd::prelude::*;
use vstd::string::StrSliceExecFns;
use vstd::string::StringExecFns;

verus! {

/// The decimal digit character for a value in `0..10`.
pub open spec fn dec_digit(n: int) -> char {
    if n == 0 {
        '0'
    } else if n == 1 {
        '1'
    } else if n == 2 {
        '2'
    } else if n == 3 {
        '3'
    } else if n == 4 {
        '4'
    } else if n == 5 {
        '5'
    } else if n == 6 {
        '6'
    } else if n == 7 {
        '7'
    } else if n == 8 {
        '8'
    } else {
        '9'
    }
}

/// The lowercase hexadecimal digit character for a value in `0..16`.
pub open spec fn hex_digit(n: int) -> char {
    if n < 10 {
        dec_digit(n)
    } else if n == 10 {
        'a'
    } else if n == 11 {
        'b'
    } else if n == 12 {
        'c'
    } else if n == 13 {
        'd'
    } else if n == 14 {
        'e'
    } else {
        'f'
    }
}

/// The decimal rendering of a natural number, most significant digit first,
/// with no leading zeros (a lone `0` for zero).
pub open spec fn dec_nat(n: nat) -> Seq<char>
    decreases n,
{
    if n < 10 {
        seq![dec_digit(n as int)]
    } else {
        dec_nat(n / 10) + seq![dec_digit((n % 10) as int)]
    }
}

/// The decimal rendering of an integer: a `-` sign before the magnitude for
/// negative values.
pub open spec fn dec_int(i: int) -> Seq<char> {
    if i < 0 {
        seq!['-'] + dec_nat((-i) as nat)
    } else {
        dec_nat(i as nat)
    }
}

/// How one character appears inside a JSON string literal.
pub open spec fn esc_char(c: char) -> Seq<char> {
    if c == '"' {
        seq!['\\', '"']
    } else if c == '\\' {
        seq!['\\', '\\']
    } else if c == '\u{8}' {
        seq!['\\', 'b']
    } else if c == '\t' {
        seq!['\\', 't']
    } else if c == '\n' {
        seq!['\\', 'n']
    } else if c == '\u{c}' {
        seq!['\\', 'f']
    } else if c == '\r' {
        seq!['\\', 'r']
    } else if (c as u32) < 0x20 {
        seq!['\\', 'u', '0', '0', hex_digit((c as u32 / 16) as int), hex_digit((c as u32 % 16) as int)]
    } else {
        seq![c]
    }
}

/// The escaped body of a JSON string literal.
pub open spec fn esc_string(s: Seq<char>) -> Seq<char>
    decreases s.len(),
{
    if s.len() == 0 {
        Seq::empty()
    } else {
        esc_string(s.drop_last()) + esc_char(s.last())
    }
}

/// A complete JSON string literal: the escaped body between double quotes.
pub open spec fn json_string(s: Seq<char>) -> Seq<char> {
    seq!['"'] + esc_string(s) + seq!['"']
}

/// Whether a character is one of the ten decimal digits.
pub open spec fn is_decimal_digit(c: char) -> bool {
    48 <= c as int <= 57
}

/// The numeric value of a decimal digit character.
pub open spec fn digit_val(c: char) -> int {
    c as int - 48
}

/// The number a run of decimal digit characters denotes.
pub open spec fn digits_to_nat(ds: Seq<char>) -> int
    decreases ds.len(),
{
    if ds.len() == 0 {
        0
    } else {
        digits_to_nat(ds.drop_last()) * 10 + digit_val(ds.last())
    }
}

/// The integer a decimal rendering denotes: a leading `-` negates the
/// magnitude the remaining digits denote.
pub open spec fn parse_int(s: Seq<char>) -> int {
    if s.len() > 0 && s[0] == '-' {
        -digits_to_nat(s.drop_first())
    } else {
        digits_to_nat(s)
    }
}

/// Each digit character denotes the value it was chosen for.
proof fn lemma_dec_digit_val(d: int)
    requires
        0 <= d < 10,
    ensures
        digit_val(dec_digit(d)) == d,
        is_decimal_digit(dec_digit(d)),
{
    assert('0' as int == 48 && '1' as int == 49 && '2' as int == 50 && '3' as int == 51
        && '4' as int == 52 && '5' as int == 53 && '6' as int == 54 && '7' as int == 55
        && '8' as int == 56 && '9' as int == 57);
}

/// A decimal rendering is nonempty and starts with a digit (never a sign).
pub proof fn lemma_dec_nat_shape(n: nat)
    ensures
        dec_nat(n).len() >= 1,
        is_decimal_digit(dec_nat(n)[0]),
    decreases n,
{
    if n < 10 {
        lemma_dec_digit_val(n as int);
    } else {
        lemma_dec_nat_shape(n / 10);
    }
}

/// Reading the digits of a decimal rendering back recovers the number.
pub proof fn lemma_dec_nat_value(n: nat)
    ensures
        digits_to_nat(dec_nat(n)) == n,
    decreases n,
{
    if n < 10 {
        lemma_dec_digit_val(n as int);
        assert(dec_nat(n).drop_last() =~= Seq::<char>::empty());
        assert(digits_to_nat(Seq::<char>::empty()) == 0);
        assert(dec_nat(n).last() == dec_digit(n as int));
    } else {
        lemma_dec_nat_value(n / 10);
        lemma_dec_digit_val((n % 10) as int);
        assert(dec_nat(n).drop_last() =~= dec_nat(n / 10));
        assert(n / 10 * 10 + n % 10 == n) by {
            vstd::arithmetic::div_mod::lemma_fundamental_div_mod(n as int, 10);
        }
    }
}

/// Reading a signed decimal rendering back recovers the integer.
pub proof fn lemma_dec_int_value(i: int)
    ensures
        parse_int(dec_int(i)) == i,
{
    if i < 0 {
        assert(dec_int(i).drop_first() =~= dec_nat((-i) as nat));
        lemma_dec_nat_value((-i) as nat);
    } else {
        lemma_dec_nat_shape(i as nat);
        assert('-' as int == 45);
        lemma_dec_nat_value(i as nat);
    }
}

/// The numeric value of a lowercase hexadecimal digit character.
pub open spec fn hex_val(c: char) -> int {
    if c as int <= 57 {
        c as int - 48
    } else {
        c as int - 87
    }
}

/// Each hexadecimal digit character denotes the value it was chosen for.
proof fn lemma_hex_digit_val(d: int)
    requires
        0 <= d < 16,
    ensures
        hex_val(hex_digit(d)) == d,
{
    if d < 10 {
        lemma_dec_digit_val(d);
    } else {
        assert('a' as int == 97 && 'b' as int == 98 && 'c' as int == 99 && 'd' as int == 100
            && 'e' as int == 101 && 'f' as int == 102);
    }
}

/// The character a named escape (the letter after the backslash) stands for.
pub open spec fn unescape_named(c: char) -> char {
    if c == 'b' {
        '\u{8}'
    } else if c == 't' {
        '\t'
    } else if c == 'n' {
        '\n'
    } else if c == 'f' {
        '\u{c}'
    } else if c == 'r' {
        '\r'
    } else {
        c
    }
}

/// The text a JSON string body denotes: the inverse reading of the escaping.
pub open spec fn unescape(w: Seq<char>) -> Seq<char>
    decreases w.len(),
{
    if w.len() == 0 {
        Seq::empty()
    } else if w[0] == '\\' {
        if w.len() >= 6 && w[1] == 'u' {
            seq![(((hex_val(w[4]) * 16 + hex_val(w[5])) as u32) as char)] + unescape(w.skip(6))
        } else if w.len() >= 2 {
            seq![unescape_named(w[1])] + unescape(w.skip(2))
        } else {
            Seq::empty()
        }
    } else {
        seq![w[0]] + unescape(w.skip(1))
    }
}

/// Reading one escaped character off the front of a string body recovers it.
proof fn lemma_unescape_esc_char(c: char, rest: Seq<char>)
    ensures
        unescape(esc_char(c) + rest) == seq![c] + unescape(rest),
{
    let w = esc_char(c) + rest;
    if c == '"' || c == '\\' || c == '\u{8}' || c == '\t' || c == '\n' || c == '\u{c}' || c
        == '\r' {
        assert(w.skip(2) =~= rest);
    } else if (c as u32) < 0x20 {
        assert(w.skip(6) =~= rest);
        lemma_hex_digit_val((c as u32 / 16) as int);
        lemma_hex_digit_val((c as u32 % 16) as int);
        assert((c as u32 / 16) * 16 + c as u32 % 16 == c as u32) by {
            vstd::arithmetic::div_mod::lemma_fundamental_div_mod(c as u32 as int, 16);
        }
        vstd::utf8::char_u32_cast(c, c as u32);
    } else {
        assert(w.skip(1) =~= rest);
    }
}

/// The two recursions over a string body agree: escaping can also be read off
/// the front, one character at a time.
proof fn lemma_esc_string_first(s: Seq<char>)
    requires
        s.len() > 0,
    ensures
        esc_string(s) == esc_char(s[0]) + esc_string(s.drop_first()),
    decreases s.len(),
{
    if s.len() == 1 {
        assert(s.drop_last() =~= Seq::<char>::empty());
        assert(s.drop_first() =~= Seq::<char>::empty());
        assert(esc_string(s) =~= esc_char(s[0]) + esc_string(s.drop_first()));
    } else {
        lemma_esc_string_first(s.drop_last());
        assert(s.drop_last()[0] == s[0]);
        assert(s.drop_last().drop_first() =~= s.drop_first().drop_last());
        assert(s.drop_first().last() == s.last());
        assert(esc_string(s) =~= esc_char(s[0]) + esc_string(s.drop_first()));
    }
}

/// Law (escaping loses nothing): reading a JSON string body back yields the
/// original text, whatever characters it held.
pub proof fn lemma_unescape_inverts_escaping(s: Seq<char>)
    ensures
        unescape(esc_string(s)) == s,
    decreases s.len(),
{
    if s.len() > 0 {
        lemma_esc_string_first(s);
        lemma_unescape_esc_char(s[0], esc_string(s.drop_first()));
        lemma_unescape_inverts_escaping(s.drop_first());
        assert(seq![s[0]] + s.drop_first() =~= s);
    }
}

/// Relies on `String::push`: appends exactly one character.
#[verifier::external_body]
pub(crate) fn push_char(s: &mut String, c: char)
    ensures
        final(s)@ == old(s)@ + seq![c],
{
    s.push(c);
}

/// The decimal digit character for a value below ten.
fn digit_char(n: u64) -> (c: char)
    requires
        n < 10,
    ensures
        c == dec_digit(n as int),
{
    if n == 0 {
        '0'
    } else if n == 1 {
        '1'
    } else if n == 2 {
        '2'
    } else if n == 3 {
        '3'
    } else if n == 4 {
        '4'
    } else if n == 5 {
        '5'
    } else if n == 6 {
        '6'
    } else if n == 7 {
        '7'
    } else if n == 8 {
        '8'
    } else {
        '9'
    }
}

/// The lowercase hexadecimal digit character for a value below sixteen.
fn hex_char(n: u32) -> (c: char)
    requires
        n < 16,
    ensures
        c == hex_digit(n as int),
{
    if n < 10 {
        digit_char(n as u64)
    } else if n == 10 {
        'a'
    } else if n == 11 {
        'b'
    } else if n == 12 {
        'c'
    } else if n == 13 {
        'd'
    } else if n == 14 {
        'e'
    } else {
        'f'
    }
}

/// Renders an unsigned integer in decimal.
pub fn fmt_u64(n: u64) -> (s: String)
    ensures
        s@ == dec_nat(n as nat),
    decreases n,
{
    if n < 10 {
        let mut s = String::new();
        push_char(&mut s, digit_char(n));
        assert(s@ =~= dec_nat(n as nat));
        s
    } else {
        let mut s = fmt_u64(n / 10);
        push_char(&mut s, digit_char(n % 10));
        assert(s@ =~= dec_nat(n as nat));
        s
    }
}

/// Appends the decimal rendering of an unsigned integer.
pub(crate) fn append_u64(out: &mut String, n: u64)
    ensures
        final(out)@ == old(out)@ + dec_nat(n as nat),
{
    let digits = fmt_u64(n);
    out.append(digits.as_str());
}

/// Appends the decimal rendering of a signed integer.
pub(crate) fn append_i64(out: &mut String, i: i64)
    ensures
        final(out)@ == old(out)@ + dec_int(i as int),
{
    if i >= 0 {
        append_u64(out, i as u64);
    } else {
        push_char(out, '-');
        let magnitude: u64 = ((-(i + 1)) as u64) + 1;
        assert(magnitude as nat == (-(i as int)) as nat);
        append_u64(out, magnitude);
        assert(out@ =~= old(out)@ + dec_int(i as int));
    }
}

/// Appends the escaped form of one character of a JSON string body.
pub(crate) fn append_escaped_char(out: &mut String, c: char)
    ensures
        final(out)@ == old(out)@ + esc_char(c),
{
    if c == '"' {
        push_char(out, '\\');
        push_char(out, '"');
    } else if c == '\\' {
        push_char(out, '\\');
        push_char(out, '\\');
    } else if c == '\u{8}' {
        push_char(out, '\\');
        push_char(out, 'b');
    } else if c == '\t' {
        push_char(out, '\\');
        push_char(out, 't');
    } else if c == '\n' {
        push_char(out, '\\');
        push_char(out, 'n');
    } else if c == '\u{c}' {
        push_char(out, '\\');
        push_char(out, 'f');
    } else if c == '\r' {
        push_char(out, '\\');
        push_char(out, 'r');
    } else if (c as u32) < 0x20 {
        push_char(out, '\\');
        push_char(out, 'u');
        push_char(out, '0');
        push_char(out, '0');
        push_char(out, hex_char((c as u32) / 16));
        push_char(out, hex_char((c as u32) % 16));
    } else {
        push_char(out, c);
    }
    assert(out@ =~= old(out)@ + esc_char(c));
}

/// Appends a complete JSON string literal for the given text.
pub(crate) fn append_json_string(out: &mut String, s: &str)
    ensures
        final(out)@ == old(out)@ + json_string(s@),
{
    let ghost orig = out@;
    push_char(out, '"');
    let n = s.unicode_len();
    let mut i: usize = 0;
    while i < n
        invariant
            i <= n,
            n == s@.len(),
            out@ == orig + seq!['"'] + esc_string(s@.subrange(0, i as int)),
        decreases n - i,
    {
        let c = s.get_char(i);
        append_escaped_char(out, c);
        proof {
            let t = s@.subrange(0, i as int + 1);
            assert(t.drop_last() =~= s@.subrange(0, i as int));
            assert(t.last() == s@[i as int]);
        }
        i = i + 1;
    }
    proof {
        assert(s@.subrange(0, n as int) =~= s@);
    }
    push_char(out, '"');
    assert(out@ =~= old(out)@ + json_string(s@));
}

} // verus!
