//! What holds of escaped text in every style: plain text stays, the empty
//! text has a fixed form, the flags keep to their own characters, and
//! escaped text can be read back.

use crate::backslash::unescape_backslash;
use crate::chars::{code, is_control, lemma_hex_digit_value};
use crate::escape::{escape_char, escape_each, escaped};
use crate::regex::{is_regex_meta, lemma_regex_round_trip};
use crate::script::{
    is_quotable, lemma_script_each_round_trip, lemma_script_round_trip, quoted,
    script_escape_char, takes_backslash, unescape_script, uses_quotes,
};
use crate::style::{EscapeFlags, EscapeStringStyle};
use crate::url::{is_url_unreserved, lemma_percent_bytes_shape, lemma_url_round_trip, unescape_url};
use crate::var::{is_var_plain, lemma_var_char_safe, lemma_var_round_trip, unescape_var};
use vstd::utf8::encode_scalar;
use vstd::prelude::*;

verus! {

/// The characters that a style leaves as they are.
pub open spec fn is_plain(c: char, style: EscapeStringStyle) -> bool {
    match style {
        EscapeStringStyle::Script(flags) => !is_control(c) && !takes_backslash(c, flags),
        EscapeStringStyle::Url => is_url_unreserved(c),
        EscapeStringStyle::Var => is_var_plain(c),
        EscapeStringStyle::Regex => !is_control(c) && !is_regex_meta(c),
    }
}

/// Text made of plain characters alone.
pub open spec fn is_plain_text(s: Seq<char>, style: EscapeStringStyle) -> bool {
    forall|i: int| 0 <= i < s.len() ==> is_plain(#[trigger] s[i], style)
}

/// The plain characters are those that escaping leaves as they are.
pub proof fn lemma_plain_char(c: char, style: EscapeStringStyle)
    ensures
        is_plain(c, style) <==> escape_char(c, style) == seq![c],
{
    if !is_plain(c, style) {
        let text = escape_char(c, style);
        lemma_escape_char_shape(c, style);
        if style is Url {
            lemma_percent_bytes_shape(encode_scalar(c as u32));
        }
        assert(text.len() != 1 || text[0] != c);
        assert(seq![c].len() == 1 && seq![c][0] == c);
    }
}

/// Plain text escaped character by character is the text itself.
pub proof fn lemma_plain_text_each(s: Seq<char>, style: EscapeStringStyle)
    requires
        is_plain_text(s, style),
    ensures
        escape_each(s, style) == s,
    decreases s.len(),
{
    if s.len() > 0 {
        lemma_plain_char(s[0], style);
        lemma_plain_text_each(s.drop_first(), style);
        assert(seq![s[0]] + s.drop_first() =~= s);
    }
}

/// Plain text is not changed by escaping. In the command-language style it
/// comes back between single quotes where they are in use, and is never
/// given a backslash.
pub proof fn lemma_plain_text_unchanged(s: Seq<char>, style: EscapeStringStyle)
    requires
        is_plain_text(s, style),
    ensures
        escaped(s, style) == match style {
            EscapeStringStyle::Script(flags) => if uses_quotes(s, flags) {
                quoted(s)
            } else {
                s
            },
            _ => s,
        },
{
    lemma_plain_text_each(s, style);
}

/// The empty text escapes to two single quotes in the command-language
/// style, unless quoting is off, and to the empty text everywhere else.
pub proof fn lemma_empty_text(style: EscapeStringStyle)
    ensures
        escaped(Seq::empty(), style) == match style {
            EscapeStringStyle::Script(flags) => if flags.no_quoted {
                Seq::empty()
            } else {
                seq!['\'', '\'']
            },
            _ => Seq::empty(),
        },
{
    assert(is_quotable(Seq::empty()));
    assert(quoted(Seq::empty()) =~= seq!['\'', '\'']);
}

/// The choice between quotes and backslashes looks at the text and at
/// `no_quoted` alone, and quoted text is the same whatever the other flags
/// are.
pub proof fn lemma_quoting_ignores_other_flags(s: Seq<char>, flags: EscapeFlags, other: EscapeFlags)
    requires
        flags.no_quoted == other.no_quoted,
    ensures
        uses_quotes(s, flags) == uses_quotes(s, other),
        uses_quotes(s, flags) ==> escaped(s, EscapeStringStyle::Script(flags)) == escaped(
            s,
            EscapeStringStyle::Script(other),
        ),
{
}

/// `no_tilde` changes what a tilde becomes and nothing else.
pub proof fn lemma_no_tilde_keeps_other_chars(c: char, flags: EscapeFlags, no_tilde: bool)
    requires
        c != '~',
    ensures
        script_escape_char(c, EscapeFlags { no_tilde, ..flags }) == script_escape_char(c, flags),
{
}

/// `symbolic` changes what a control character becomes and nothing else.
pub proof fn lemma_symbolic_keeps_other_chars(c: char, flags: EscapeFlags, symbolic: bool)
    requires
        !is_control(c),
    ensures
        script_escape_char(c, EscapeFlags { symbolic, ..flags }) == script_escape_char(c, flags),
{
}

/// Flags that agree on what each character of the text becomes give the
/// same text escaped character by character.
pub proof fn lemma_escape_each_agrees(s: Seq<char>, flags: EscapeFlags, other: EscapeFlags)
    requires
        forall|i: int|
            0 <= i < s.len() ==> script_escape_char(#[trigger] s[i], flags) == script_escape_char(
                s[i],
                other,
            ),
    ensures
        escape_each(s, EscapeStringStyle::Script(flags)) == escape_each(
            s,
            EscapeStringStyle::Script(other),
        ),
    decreases s.len(),
{
    if s.len() > 0 {
        assert(script_escape_char(s[0], flags) == script_escape_char(s[0], other));
        assert forall|i: int| 0 <= i < s.drop_first().len() implies script_escape_char(
            #[trigger] s.drop_first()[i],
            flags,
        ) == script_escape_char(s.drop_first()[i], other) by {
            assert(s.drop_first()[i] == s[i + 1]);
        }
        lemma_escape_each_agrees(s.drop_first(), flags, other);
    }
}

/// Text without a tilde escapes to the same text whatever `no_tilde` is.
pub proof fn lemma_no_tilde_without_tilde(s: Seq<char>, flags: EscapeFlags, no_tilde: bool)
    requires
        forall|i: int| 0 <= i < s.len() ==> #[trigger] s[i] != '~',
    ensures
        escaped(s, EscapeStringStyle::Script(EscapeFlags { no_tilde, ..flags })) == escaped(
            s,
            EscapeStringStyle::Script(flags),
        ),
{
    let other = EscapeFlags { no_tilde, ..flags };
    assert forall|i: int| 0 <= i < s.len() implies script_escape_char(#[trigger] s[i], other)
        == script_escape_char(s[i], flags) by {
        lemma_no_tilde_keeps_other_chars(s[i], flags, no_tilde);
    }
    lemma_escape_each_agrees(s, other, flags);
}

/// Text without a control character escapes to the same text whatever
/// `symbolic` is.
pub proof fn lemma_symbolic_without_control(s: Seq<char>, flags: EscapeFlags, symbolic: bool)
    requires
        forall|i: int| 0 <= i < s.len() ==> !is_control(#[trigger] s[i]),
    ensures
        escaped(s, EscapeStringStyle::Script(EscapeFlags { symbolic, ..flags })) == escaped(
            s,
            EscapeStringStyle::Script(flags),
        ),
{
    let other = EscapeFlags { symbolic, ..flags };
    assert forall|i: int| 0 <= i < s.len() implies script_escape_char(#[trigger] s[i], other)
        == script_escape_char(s[i], flags) by {
        lemma_symbolic_keeps_other_chars(s[i], flags, symbolic);
    }
    lemma_escape_each_agrees(s, other, flags);
}

/// The styles whose escaped text can be read back. The command-language
/// style cannot where control characters are shown as symbols, which also
/// stand for themselves, nor where printable characters are left alone
/// while quoting is on, since a quote in the text then looks like a quote
/// round it.
pub open spec fn is_reversible(style: EscapeStringStyle) -> bool {
    match style {
        EscapeStringStyle::Script(flags) => !flags.symbolic && (flags.no_quoted
            || !flags.no_printables),
        _ => true,
    }
}

/// Reads escaped text of the given style. `None` where the text is not
/// well formed.
pub open spec fn unescaped(text: Seq<char>, style: EscapeStringStyle) -> Option<Seq<char>> {
    match style {
        EscapeStringStyle::Script(flags) => if flags.no_quoted {
            unescape_backslash(text)
        } else {
            unescape_script(text)
        },
        EscapeStringStyle::Url => unescape_url(text),
        EscapeStringStyle::Var => unescape_var(text),
        EscapeStringStyle::Regex => unescape_backslash(text),
    }
}

/// Reading escaped text gives the text that was escaped, in every style
/// whose escaped text can be read back.
pub proof fn lemma_round_trip(s: Seq<char>, style: EscapeStringStyle)
    requires
        is_reversible(style),
    ensures
        unescaped(escaped(s, style), style) == Some(s),
{
    match style {
        EscapeStringStyle::Script(flags) => {
            if flags.no_quoted {
                lemma_script_each_round_trip(s, flags);
            } else {
                lemma_script_round_trip(s, flags);
            }
        },
        EscapeStringStyle::Url => lemma_url_round_trip(s),
        EscapeStringStyle::Var => lemma_var_round_trip(s),
        EscapeStringStyle::Regex => lemma_regex_round_trip(s),
    }
}

/// Two texts with the same escaped form are the same text, in every style
/// whose escaped text can be read back.
pub proof fn lemma_escaped_injective(a: Seq<char>, b: Seq<char>, style: EscapeStringStyle)
    requires
        is_reversible(style),
        escaped(a, style) == escaped(b, style),
    ensures
        a == b,
{
    lemma_round_trip(a, style);
    lemma_round_trip(b, style);
}

/// Text that holds no control character.
pub open spec fn has_no_control(s: Seq<char>) -> bool {
    forall|i: int| 0 <= i < s.len() ==> !is_control(#[trigger] s[i])
}

/// What a character becomes holds no control character, and is between one
/// and twelve characters long.
pub proof fn lemma_escape_char_shape(c: char, style: EscapeStringStyle)
    ensures
        has_no_control(escape_char(c, style)),
        1 <= escape_char(c, style).len() <= 12,
{
    let v = code(c);
    lemma_hex_digit_value(v / 16 % 16);
    lemma_hex_digit_value(v % 16);
    match style {
        EscapeStringStyle::Url => {
            lemma_percent_bytes_shape(encode_scalar(c as u32));
        },
        EscapeStringStyle::Var => {
            lemma_var_char_safe(c);
        },
        _ => {},
    }
}

/// Escaped text holds no control character, in any style.
pub proof fn lemma_escaped_has_no_control(s: Seq<char>, style: EscapeStringStyle)
    ensures
        has_no_control(escaped(s, style)),
{
    lemma_escape_each_shape(s, style);
}

/// Escaped text is at least as long as the text, and at most twelve times
/// as long and two more.
pub proof fn lemma_escaped_len(s: Seq<char>, style: EscapeStringStyle)
    ensures
        s.len() <= escaped(s, style).len() <= 12 * s.len() + 2,
{
    lemma_escape_each_shape(s, style);
}

proof fn lemma_escape_each_shape(s: Seq<char>, style: EscapeStringStyle)
    ensures
        has_no_control(escape_each(s, style)),
        s.len() <= escape_each(s, style).len() <= 12 * s.len(),
    decreases s.len(),
{
    if s.len() > 0 {
        lemma_escape_char_shape(s[0], style);
        lemma_escape_each_shape(s.drop_first(), style);
    }
}

} // verus!
