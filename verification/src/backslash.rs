//! Backslash sequences, as the command-language and regular-expression
//! styles write them, and how they are read back.

use crate::chars::{
    code, hex_digit, hex_digit_exec, hex_value, is_control, lemma_hex_digit_value, prepend,
};
use vstd::prelude::*;

verus! {

/// The backslash sequence for a control character: `\t`, `\n` and `\r` for
/// tab, newline and carriage return, and `\x` with the code in two
/// hexadecimal digits for the others.
pub open spec fn control_escape(c: char) -> Seq<char> {
    if c == '\t' {
        seq!['\\', 't']
    } else if c == '\n' {
        seq!['\\', 'n']
    } else if c == '\r' {
        seq!['\\', 'r']
    } else {
        seq!['\\', 'x', hex_digit(code(c) / 16), hex_digit(code(c) % 16)]
    }
}

/// Appends the backslash sequence for the control character `c`.
pub(crate) fn push_control_escape(out: &mut Vec<char>, c: char)
    requires
        is_control(c),
    ensures
        final(out)@ == old(out)@ + control_escape(c),
{
    out.push('\\');
    if c == '\t' {
        out.push('t');
    } else if c == '\n' {
        out.push('n');
    } else if c == '\r' {
        out.push('r');
    } else {
        let v: u32 = c as u32;
        out.push('x');
        out.push(hex_digit_exec((v / 16) as u8));
        out.push(hex_digit_exec((v % 16) as u8));
    }
}

/// Appends a backslash and then `c` itself.
pub(crate) fn push_backslashed(out: &mut Vec<char>, c: char)
    ensures
        final(out)@ == old(out)@ + seq!['\\', c],
{
    out.push('\\');
    out.push(c);
}

/// Reads text in which a backslash starts a sequence: `\t`, `\n`, `\r`,
/// `\x` with two hexadecimal digits, or a backslash before a character
/// that stands for itself. Any other character stands for itself.
/// `None` where a sequence is cut short or its digits are none.
pub open spec fn unescape_backslash(s: Seq<char>) -> Option<Seq<char>>
    decreases s.len(),
{
    if s.len() == 0 {
        Some(Seq::empty())
    } else if s[0] != '\\' {
        prepend(s[0], unescape_backslash(s.skip(1)))
    } else if s.len() < 2 {
        None
    } else if s[1] == 't' {
        prepend('\t', unescape_backslash(s.skip(2)))
    } else if s[1] == 'n' {
        prepend('\n', unescape_backslash(s.skip(2)))
    } else if s[1] == 'r' {
        prepend('\r', unescape_backslash(s.skip(2)))
    } else if s[1] != 'x' {
        prepend(s[1], unescape_backslash(s.skip(2)))
    } else if s.len() < 4 {
        None
    } else {
        match (hex_value(s[2]), hex_value(s[3])) {
            (Some(high), Some(low)) => prepend(
                (16 * high + low) as char,
                unescape_backslash(s.skip(4)),
            ),
            _ => None,
        }
    }
}

/// A character that is not a backslash is read as itself.
pub proof fn lemma_unescape_plain(c: char, rest: Seq<char>)
    requires
        c != '\\',
    ensures
        unescape_backslash(seq![c] + rest) == prepend(c, unescape_backslash(rest)),
{
    assert((seq![c] + rest).skip(1) =~= rest);
}

/// A backslash before a character that names no sequence is read as that
/// character.
pub proof fn lemma_unescape_backslashed(c: char, rest: Seq<char>)
    requires
        c != 't',
        c != 'n',
        c != 'r',
        c != 'x',
    ensures
        unescape_backslash(seq!['\\', c] + rest) == prepend(c, unescape_backslash(rest)),
{
    assert((seq!['\\', c] + rest).skip(2) =~= rest);
}

/// The sequence written for a control character is read as that character.
pub proof fn lemma_unescape_control(c: char, rest: Seq<char>)
    requires
        is_control(c),
    ensures
        unescape_backslash(control_escape(c) + rest) == prepend(c, unescape_backslash(rest)),
{
    let text = control_escape(c) + rest;
    if c == '\t' || c == '\n' || c == '\r' {
        assert(text.skip(2) =~= rest);
    } else {
        let v = code(c);
        lemma_hex_digit_value(v / 16);
        lemma_hex_digit_value(v % 16);
        assert(text.skip(4) =~= rest);
        assert((16 * (v / 16) + v % 16) as char == c);
    }
}

} // verus!
