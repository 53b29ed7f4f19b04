//! The URL style: percent-encoding of the UTF-8 bytes of every character
//! that is not unreserved.

use crate::chars::{
    code, hex_digit, hex_digit_exec, hex_value, is_ascii_alnum, is_ascii_alnum_exec,
    lemma_hex_digit_value,
};
use crate::escape::{escape_each, escaped, lemma_escape_each_take};
use crate::style::EscapeStringStyle;
use vstd::prelude::*;
use vstd::utf8::{
    decode_utf8, encode_scalar, encode_utf8, encode_utf8_decode_utf8, encode_utf8_valid_utf8,
    valid_utf8,
};

verus! {

/// The characters that a URL holds as they are: ASCII letters and digits,
/// `-`, `_`, `.` and `~`.
pub open spec fn is_url_unreserved(c: char) -> bool {
    is_ascii_alnum(c) || c == '-' || c == '_' || c == '.' || c == '~'
}

pub(crate) fn is_url_unreserved_exec(c: char) -> (b: bool)
    ensures
        b == is_url_unreserved(c),
{
    is_ascii_alnum_exec(c) || c == '-' || c == '_' || c == '.' || c == '~'
}

/// `%` and the byte in two upper-case hexadecimal digits.
pub open spec fn percent_byte(b: u8) -> Seq<char> {
    seq!['%', hex_digit(b as int / 16), hex_digit(b as int % 16)]
}

/// Each byte in turn as `%` and two digits.
pub open spec fn percent_bytes(bytes: Seq<u8>) -> Seq<char>
    decreases bytes.len(),
{
    if bytes.len() == 0 {
        Seq::empty()
    } else {
        percent_byte(bytes[0]) + percent_bytes(bytes.drop_first())
    }
}

/// What one character becomes in a URL: itself if unreserved, else the
/// bytes of its UTF-8 encoding, each as `%` and two digits.
pub open spec fn url_escape_char(c: char) -> Seq<char> {
    if is_url_unreserved(c) {
        seq![c]
    } else {
        percent_bytes(encode_scalar(c as u32))
    }
}

/// The characters that escaped text of this style is made of.
pub open spec fn is_url_safe(c: char) -> bool {
    is_url_unreserved(c) || c == '%'
}

fn push_percent_byte(out: &mut Vec<char>, b: u8)
    ensures
        final(out)@ == old(out)@ + percent_byte(b),
{
    out.push('%');
    out.push(hex_digit_exec(b / 16));
    out.push(hex_digit_exec(b % 16));
}

proof fn lemma_percent_bytes_unfold(bytes: Seq<u8>)
    ensures
        bytes.len() == 1 ==> percent_bytes(bytes) == percent_byte(bytes[0]),
        bytes.len() == 2 ==> percent_bytes(bytes) == percent_byte(bytes[0]) + percent_byte(
            bytes[1],
        ),
        bytes.len() == 3 ==> percent_bytes(bytes) == percent_byte(bytes[0]) + percent_byte(
            bytes[1],
        ) + percent_byte(bytes[2]),
        bytes.len() == 4 ==> percent_bytes(bytes) == percent_byte(bytes[0]) + percent_byte(
            bytes[1],
        ) + percent_byte(bytes[2]) + percent_byte(bytes[3]),
{
    reveal_with_fuel(percent_bytes, 5);
}

/// Appends what `c` becomes in a URL.
pub(crate) fn push_url_escaped(out: &mut Vec<char>, c: char)
    ensures
        final(out)@ == old(out)@ + url_escape_char(c),
{
    let v: u32 = c as u32;
    proof {
        lemma_percent_bytes_unfold(encode_scalar(v));
    }
    if is_url_unreserved_exec(c) {
        out.push(c);
    } else if v <= 0x7F {
        push_percent_byte(out, (v & 0x7F) as u8);
    } else if v <= 0x7FF {
        push_percent_byte(out, 0xC0 | ((v >> 6) & 0x1F) as u8);
        push_percent_byte(out, 0x80 | (v & 0x3F) as u8);
    } else if v <= 0xFFFF {
        push_percent_byte(out, 0xE0 | ((v >> 12) & 0x0F) as u8);
        push_percent_byte(out, 0x80 | ((v >> 6) & 0x3F) as u8);
        push_percent_byte(out, 0x80 | (v & 0x3F) as u8);
    } else {
        push_percent_byte(out, 0xF0 | ((v >> 18) & 0x7) as u8);
        push_percent_byte(out, 0x80 | ((v >> 12) & 0x3F) as u8);
        push_percent_byte(out, 0x80 | ((v >> 6) & 0x3F) as u8);
        push_percent_byte(out, 0x80 | (v & 0x3F) as u8);
    }
}

/// Escapes `s` for a URL, character by character.
pub(crate) fn escape_string_url(s: &[char]) -> (out: Vec<char>)
    ensures
        out@ == escape_each(s@, EscapeStringStyle::Url),
{
    let mut out: Vec<char> = Vec::new();
    let mut i: usize = 0;
    while i < s.len()
        invariant
            i <= s.len(),
            out@ == escape_each(s@.take(i as int), EscapeStringStyle::Url),
        decreases s.len() - i,
    {
        proof {
            lemma_escape_each_take(s@, i as int, EscapeStringStyle::Url);
        }
        push_url_escaped(&mut out, s[i]);
        i += 1;
    }
    assert(s@.take(s.len() as int) =~= s@);
    out
}

/// `bytes` in front of the bytes in `rest`, if there are any.
pub open spec fn prepend_bytes(bytes: Seq<u8>, rest: Option<Seq<u8>>) -> Option<Seq<u8>> {
    match rest {
        Some(tail) => Some(bytes + tail),
        None => None,
    }
}

/// Reads percent-encoded text as bytes: `%` and two upper-case hexadecimal
/// digits give one byte, any other ASCII character gives its own code.
/// `None` where the digits after a `%` are missing or the text is not
/// ASCII.
pub open spec fn percent_decode(s: Seq<char>) -> Option<Seq<u8>>
    decreases s.len(),
{
    if s.len() == 0 {
        Some(Seq::empty())
    } else if s[0] == '%' {
        if s.len() < 3 {
            None
        } else {
            match (hex_value(s[1]), hex_value(s[2])) {
                (Some(high), Some(low)) => prepend_bytes(
                    seq![(16 * high + low) as u8],
                    percent_decode(s.skip(3)),
                ),
                _ => None,
            }
        }
    } else if code(s[0]) < 0x80 {
        prepend_bytes(seq![code(s[0]) as u8], percent_decode(s.skip(1)))
    } else {
        None
    }
}

/// Reads escaped text of the URL style: the bytes that it stands for, as
/// UTF-8. `None` where they are no UTF-8.
pub open spec fn unescape_url(s: Seq<char>) -> Option<Seq<char>> {
    match percent_decode(s) {
        Some(bytes) => if valid_utf8(bytes) {
            Some(decode_utf8(bytes))
        } else {
            None
        },
        None => None,
    }
}

/// A byte written as `%` and two digits is read as that byte.
pub proof fn lemma_percent_decode_byte(b: u8, rest: Seq<char>)
    ensures
        percent_decode(percent_byte(b) + rest) == prepend_bytes(seq![b], percent_decode(rest)),
{
    lemma_hex_digit_value(b as int / 16);
    lemma_hex_digit_value(b as int % 16);
    assert((percent_byte(b) + rest).skip(3) =~= rest);
}

/// Bytes written as `%` and two digits each are read as those bytes.
pub proof fn lemma_percent_decode_bytes(bytes: Seq<u8>, rest: Seq<char>)
    ensures
        percent_decode(percent_bytes(bytes) + rest) == prepend_bytes(bytes, percent_decode(rest)),
    decreases bytes.len(),
{
    if bytes.len() == 0 {
        assert(percent_bytes(bytes) + rest =~= rest);
        if let Some(tail) = percent_decode(rest) {
            assert(bytes + tail =~= tail);
        }
    } else {
        let tail_text = percent_bytes(bytes.drop_first()) + rest;
        lemma_percent_decode_bytes(bytes.drop_first(), rest);
        lemma_percent_decode_byte(bytes[0], tail_text);
        assert(percent_bytes(bytes) + rest =~= percent_byte(bytes[0]) + tail_text);
        if let Some(tail) = percent_decode(rest) {
            assert(seq![bytes[0]] + (bytes.drop_first() + tail) =~= bytes + tail);
        }
    }
}

/// An ASCII character is one byte of UTF-8: its code.
pub proof fn lemma_encode_ascii(c: char)
    requires
        code(c) < 0x80,
    ensures
        encode_scalar(c as u32) == seq![code(c) as u8],
{
    let v = c as u32;
    assert(v <= 0x7F ==> (v & 0x7F) as u8 == v as u8) by (bit_vector);
}

/// What a character becomes in a URL is read as the bytes of its UTF-8
/// encoding, whatever follows it.
pub proof fn lemma_percent_decode_char(c: char, rest: Seq<char>)
    ensures
        percent_decode(url_escape_char(c) + rest) == prepend_bytes(
            encode_scalar(c as u32),
            percent_decode(rest),
        ),
{
    if is_url_unreserved(c) {
        lemma_encode_ascii(c);
        assert((seq![c] + rest).skip(1) =~= rest);
    } else {
        lemma_percent_decode_bytes(encode_scalar(c as u32), rest);
    }
}

/// Escaped text of the URL style is read as the UTF-8 encoding of the
/// text that was escaped.
pub proof fn lemma_percent_decode_escaped(s: Seq<char>)
    ensures
        percent_decode(escaped(s, EscapeStringStyle::Url)) == Some(encode_utf8(s)),
    decreases s.len(),
{
    if s.len() > 0 {
        lemma_percent_decode_escaped(s.drop_first());
        lemma_percent_decode_char(s[0], escape_each(s.drop_first(), EscapeStringStyle::Url));
    }
}

/// Reading escaped text of the URL style gives the text that was escaped.
pub proof fn lemma_url_round_trip(s: Seq<char>)
    ensures
        unescape_url(escaped(s, EscapeStringStyle::Url)) == Some(s),
{
    lemma_percent_decode_escaped(s);
    encode_utf8_valid_utf8(s);
    encode_utf8_decode_utf8(s);
}

/// Text made of unreserved characters and `%` alone.
pub open spec fn is_url_safe_text(s: Seq<char>) -> bool {
    forall|i: int| 0 <= i < s.len() ==> is_url_safe(#[trigger] s[i])
}

/// Bytes written as `%` and two digits each take three characters a byte,
/// all of them unreserved or `%`.
pub proof fn lemma_percent_bytes_shape(bytes: Seq<u8>)
    ensures
        is_url_safe_text(percent_bytes(bytes)),
        percent_bytes(bytes).len() == 3 * bytes.len(),
    decreases bytes.len(),
{
    if bytes.len() > 0 {
        lemma_percent_bytes_shape(bytes.drop_first());
        lemma_hex_digit_value(bytes[0] as int / 16);
        lemma_hex_digit_value(bytes[0] as int % 16);
    }
}

/// What a character becomes in a URL is made of unreserved characters and
/// `%` alone.
pub proof fn lemma_url_char_safe(c: char)
    ensures
        is_url_safe_text(url_escape_char(c)),
{
    if !is_url_unreserved(c) {
        lemma_percent_bytes_shape(encode_scalar(c as u32));
    }
}

/// Escaped text of the URL style is made of unreserved characters and `%`
/// alone, whatever was escaped.
pub proof fn lemma_url_escaped_safe(s: Seq<char>)
    ensures
        is_url_safe_text(escaped(s, EscapeStringStyle::Url)),
    decreases s.len(),
{
    if s.len() > 0 {
        lemma_url_char_safe(s[0]);
        lemma_url_escaped_safe(s.drop_first());
    }
}

} // verus!
