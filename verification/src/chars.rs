//! Character classes and hexadecimal digits.

use vstd::prelude::*;

verus! {

/// The code point of `c`.
pub open spec fn code(c: char) -> int {
    c as int
}

/// An ASCII letter or digit.
pub open spec fn is_ascii_alnum(c: char) -> bool {
    ('0' <= c && c <= '9') || ('a' <= c && c <= 'z') || ('A' <= c && c <= 'Z')
}

pub(crate) fn is_ascii_alnum_exec(c: char) -> (b: bool)
    ensures
        b == is_ascii_alnum(c),
{
    ('0' <= c && c <= '9') || ('a' <= c && c <= 'z') || ('A' <= c && c <= 'Z')
}

/// A control character: one of the codes below the space, or DEL.
/// Every other scalar value counts as printable.
pub open spec fn is_control(c: char) -> bool {
    code(c) < 0x20 || code(c) == 0x7F
}

pub(crate) fn is_control_exec(c: char) -> (b: bool)
    ensures
        b == is_control(c),
{
    let v: u32 = c as u32;
    v < 0x20 || v == 0x7F
}

/// The upper-case hexadecimal digit for `n`, where `0 <= n < 16`.
pub open spec fn hex_digit(n: int) -> char {
    if n < 10 {
        ('0' as int + n) as char
    } else {
        ('A' as int + (n - 10)) as char
    }
}

pub(crate) fn hex_digit_exec(n: u8) -> (c: char)
    requires
        n < 16,
    ensures
        c == hex_digit(n as int),
{
    if n < 10 {
        (0x30u8 + n) as char
    } else {
        (0x41u8 + (n - 10)) as char
    }
}

/// The value of an upper-case hexadecimal digit, if `c` is one.
pub open spec fn hex_value(c: char) -> Option<int> {
    if '0' <= c && c <= '9' {
        Some(c as int - '0' as int)
    } else if 'A' <= c && c <= 'F' {
        Some(c as int - 'A' as int + 10)
    } else {
        None
    }
}

/// Each digit is read back as the number it was written for.
pub proof fn lemma_hex_digit_value(n: int)
    requires
        0 <= n < 16,
    ensures
        hex_value(hex_digit(n)) == Some(n),
        is_ascii_alnum(hex_digit(n)),
{
}

/// `c` in front of the text in `rest`, if there is one.
pub open spec fn prepend(c: char, rest: Option<Seq<char>>) -> Option<Seq<char>> {
    match rest {
        Some(text) => Some(seq![c] + text),
        None => None,
    }
}

} // verus!
