//! The variable-name style: letters, digits and underscores stay, every
//! other character becomes a marker and its code point in hexadecimal.

use crate::chars::{
    code, hex_digit, hex_digit_exec, hex_value, is_ascii_alnum, is_ascii_alnum_exec,
    lemma_hex_digit_value, prepend,
};
use crate::escape::{escape_each, escaped, lemma_escape_each_take};
use crate::style::EscapeStringStyle;
use vstd::prelude::*;

verus! {

/// The character that starts an encoded character. It is no letter, digit
/// or underscore, so it never stands for itself in escaped text.
pub const VAR_ESCAPE_MARKER: char = '$';

/// The characters of a name: ASCII letters and digits and the underscore.
pub open spec fn is_var_plain(c: char) -> bool {
    is_ascii_alnum(c) || c == '_'
}

pub(crate) fn is_var_plain_exec(c: char) -> (b: bool)
    ensures
        b == is_var_plain(c),
{
    is_ascii_alnum_exec(c) || c == '_'
}

/// The six upper-case hexadecimal digits of `v`, highest first, where
/// `0 <= v < 0x1000000`.
pub open spec fn hex6(v: int) -> Seq<char> {
    seq![
        hex_digit(v / 0x100000 % 16),
        hex_digit(v / 0x10000 % 16),
        hex_digit(v / 0x1000 % 16),
        hex_digit(v / 0x100 % 16),
        hex_digit(v / 0x10 % 16),
        hex_digit(v % 16),
    ]
}

/// What one character becomes in a variable name: itself if it is a
/// character of a name, else the marker and the six digits of its code
/// point.
pub open spec fn var_escape_char(c: char) -> Seq<char> {
    if is_var_plain(c) {
        seq![c]
    } else {
        seq![VAR_ESCAPE_MARKER] + hex6(code(c))
    }
}

/// The characters that escaped text of this style is made of.
pub open spec fn is_var_safe(c: char) -> bool {
    is_var_plain(c) || c == VAR_ESCAPE_MARKER
}

/// Appends what `c` becomes in a variable name.
pub(crate) fn push_var_escaped(out: &mut Vec<char>, c: char)
    ensures
        final(out)@ == old(out)@ + var_escape_char(c),
{
    if is_var_plain_exec(c) {
        out.push(c);
    } else {
        let v: u32 = c as u32;
        out.push(VAR_ESCAPE_MARKER);
        out.push(hex_digit_exec((v / 0x100000 % 16) as u8));
        out.push(hex_digit_exec((v / 0x10000 % 16) as u8));
        out.push(hex_digit_exec((v / 0x1000 % 16) as u8));
        out.push(hex_digit_exec((v / 0x100 % 16) as u8));
        out.push(hex_digit_exec((v / 0x10 % 16) as u8));
        out.push(hex_digit_exec((v % 16) as u8));
    }
}

/// Escapes `s` for a variable name, character by character.
pub(crate) fn escape_string_var(s: &[char]) -> (out: Vec<char>)
    ensures
        out@ == escape_each(s@, EscapeStringStyle::Var),
{
    let mut out: Vec<char> = Vec::new();
    let mut i: usize = 0;
    while i < s.len()
        invariant
            i <= s.len(),
            out@ == escape_each(s@.take(i as int), EscapeStringStyle::Var),
        decreases s.len() - i,
    {
        proof {
            lemma_escape_each_take(s@, i as int, EscapeStringStyle::Var);
        }
        push_var_escaped(&mut out, s[i]);
        i += 1;
    }
    assert(s@.take(s.len() as int) =~= s@);
    out
}

/// The number that six upper-case hexadecimal digits write, highest
/// first, if `digits` is six such digits.
pub open spec fn hex6_value(digits: Seq<char>) -> Option<int> {
    if digits.len() != 6 {
        None
    } else {
        match (
            hex_value(digits[0]),
            hex_value(digits[1]),
            hex_value(digits[2]),
            hex_value(digits[3]),
            hex_value(digits[4]),
            hex_value(digits[5]),
        ) {
            (Some(a), Some(b), Some(c), Some(d), Some(e), Some(f)) => Some(
                a * 0x100000 + b * 0x10000 + c * 0x1000 + d * 0x100 + e * 0x10 + f,
            ),
            _ => None,
        }
    }
}

/// A code point: a number up to 0x10FFFF outside the surrogate range.
pub open spec fn is_code_point(v: int) -> bool {
    (0 <= v && v <= 0xD7FF) || (0xE000 <= v && v <= 0x10FFFF)
}

/// Reads escaped text of the variable-name style: the marker and six
/// digits give the character with that code point, a character of a name
/// gives itself. `None` where anything else stands in the text, or the
/// digits are no code point.
pub open spec fn unescape_var(s: Seq<char>) -> Option<Seq<char>>
    decreases s.len(),
{
    if s.len() == 0 {
        Some(Seq::empty())
    } else if is_var_plain(s[0]) {
        prepend(s[0], unescape_var(s.skip(1)))
    } else if s[0] == VAR_ESCAPE_MARKER && s.len() >= 7 {
        match hex6_value(s.subrange(1, 7)) {
            Some(v) => if is_code_point(v) {
                prepend(v as char, unescape_var(s.skip(7)))
            } else {
                None
            },
            None => None,
        }
    } else {
        None
    }
}

proof fn lemma_hex6_digits(v: u32)
    by (bit_vector)
    requires
        v < 0x1000000,
    ensures
        (v / 0x100000 % 16) * 0x100000 + (v / 0x10000 % 16) * 0x10000 + (v / 0x1000 % 16) * 0x1000
            + (v / 0x100 % 16) * 0x100 + (v / 0x10 % 16) * 0x10 + v % 16 == v,
{
}

/// The six digits written for a number are read as that number.
pub proof fn lemma_hex6_value(v: int)
    requires
        0 <= v < 0x1000000,
    ensures
        hex6_value(hex6(v)) == Some(v),
{
    lemma_hex6_digits(v as u32);
    lemma_hex_digit_value(v / 0x100000 % 16);
    lemma_hex_digit_value(v / 0x10000 % 16);
    lemma_hex_digit_value(v / 0x1000 % 16);
    lemma_hex_digit_value(v / 0x100 % 16);
    lemma_hex_digit_value(v / 0x10 % 16);
    lemma_hex_digit_value(v % 16);
}

/// What a character becomes in a variable name is read back as that
/// character, whatever follows it.
pub proof fn lemma_unescape_var_char(c: char, rest: Seq<char>)
    ensures
        unescape_var(var_escape_char(c) + rest) == prepend(c, unescape_var(rest)),
{
    let text = var_escape_char(c) + rest;
    if is_var_plain(c) {
        assert(text.skip(1) =~= rest);
    } else {
        lemma_hex6_value(code(c));
        assert(text.subrange(1, 7) =~= hex6(code(c)));
        assert(text.skip(7) =~= rest);
        assert(code(c) as char == c);
    }
}

/// Reading escaped text of the variable-name style gives the text that was
/// escaped.
pub proof fn lemma_var_round_trip(s: Seq<char>)
    ensures
        unescape_var(escaped(s, EscapeStringStyle::Var)) == Some(s),
    decreases s.len(),
{
    if s.len() > 0 {
        lemma_var_round_trip(s.drop_first());
        lemma_unescape_var_char(s[0], escape_each(s.drop_first(), EscapeStringStyle::Var));
        assert(seq![s[0]] + s.drop_first() =~= s);
    }
}

/// Text made of the characters of a name and the marker alone.
pub open spec fn is_var_safe_text(s: Seq<char>) -> bool {
    forall|i: int| 0 <= i < s.len() ==> is_var_safe(#[trigger] s[i])
}

/// What a character becomes in a variable name is made of the characters
/// of a name and the marker alone, and starts with a digit only where the
/// character is that digit.
pub proof fn lemma_var_char_safe(c: char)
    ensures
        is_var_safe_text(var_escape_char(c)),
        var_escape_char(c).len() > 0,
        var_escape_char(c)[0] == if is_var_plain(c) {
            c
        } else {
            VAR_ESCAPE_MARKER
        },
{
    if !is_var_plain(c) {
        let v = code(c);
        lemma_hex_digit_value(v / 0x100000 % 16);
        lemma_hex_digit_value(v / 0x10000 % 16);
        lemma_hex_digit_value(v / 0x1000 % 16);
        lemma_hex_digit_value(v / 0x100 % 16);
        lemma_hex_digit_value(v / 0x10 % 16);
        lemma_hex_digit_value(v % 16);
    }
}

/// Escaped text of the variable-name style is made of the characters of a
/// name and the marker alone, whatever was escaped.
pub proof fn lemma_var_escaped_safe(s: Seq<char>)
    ensures
        is_var_safe_text(escaped(s, EscapeStringStyle::Var)),
    decreases s.len(),
{
    if s.len() > 0 {
        lemma_var_char_safe(s[0]);
        lemma_var_escaped_safe(s.drop_first());
    }
}

/// Escaped text of the variable-name style starts with the first character
/// of the text where that is a character of a name, else with the marker:
/// escaping puts no digit in front.
pub proof fn lemma_var_escaped_start(s: Seq<char>)
    requires
        s.len() > 0,
    ensures
        escaped(s, EscapeStringStyle::Var).len() > 0,
        escaped(s, EscapeStringStyle::Var)[0] == if is_var_plain(s[0]) {
            s[0]
        } else {
            VAR_ESCAPE_MARKER
        },
{
    lemma_var_char_safe(s[0]);
}

} // verus!
