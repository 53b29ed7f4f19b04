//! The escaper: what escaped text is, and the function that produces it.

use crate::laws::{has_no_control, lemma_escaped_has_no_control};
use crate::regex::{escape_string_regex, regex_escape_char};
use crate::script::{escape_string_script, quoted, script_escape_char, uses_quotes};
use crate::style::EscapeStringStyle;
use crate::url::{escape_string_url, is_url_safe_text, lemma_url_escaped_safe, url_escape_char};
use crate::var::{escape_string_var, is_var_safe_text, lemma_var_escaped_safe, var_escape_char};
use vstd::prelude::*;

verus! {

/// What one character becomes when escaped by itself in the given style.
pub open spec fn escape_char(c: char, style: EscapeStringStyle) -> Seq<char> {
    match style {
        EscapeStringStyle::Script(flags) => script_escape_char(c, flags),
        EscapeStringStyle::Url => url_escape_char(c),
        EscapeStringStyle::Var => var_escape_char(c),
        EscapeStringStyle::Regex => regex_escape_char(c),
    }
}

/// The text with each character escaped by itself, in order.
pub open spec fn escape_each(s: Seq<char>, style: EscapeStringStyle) -> Seq<char>
    decreases s.len(),
{
    if s.len() == 0 {
        Seq::empty()
    } else {
        escape_char(s[0], style) + escape_each(s.drop_first(), style)
    }
}

/// The escaped form of `s` in the given style.
///
/// In the command-language style, text that single quotes can hold is
/// wrapped in them, unless the flags forbid it; the empty text is such
/// text. Everything else is escaped character by character.
pub open spec fn escaped(s: Seq<char>, style: EscapeStringStyle) -> Seq<char> {
    match style {
        EscapeStringStyle::Script(flags) => if uses_quotes(s, flags) {
            quoted(s)
        } else {
            escape_each(s, style)
        },
        _ => escape_each(s, style),
    }
}

/// Escaping distributes over concatenation.
pub proof fn lemma_escape_each_concat(a: Seq<char>, b: Seq<char>, style: EscapeStringStyle)
    ensures
        escape_each(a + b, style) == escape_each(a, style) + escape_each(b, style),
    decreases a.len(),
{
    if a.len() == 0 {
        assert(a + b =~= b);
    } else {
        assert((a + b).drop_first() =~= a.drop_first() + b);
        lemma_escape_each_concat(a.drop_first(), b, style);
    }
}

/// Escaping one more character appends what that character becomes.
pub proof fn lemma_escape_each_push(s: Seq<char>, c: char, style: EscapeStringStyle)
    ensures
        escape_each(s.push(c), style) == escape_each(s, style) + escape_char(c, style),
{
    lemma_escape_each_concat(s, seq![c], style);
    assert(s.push(c) =~= s + seq![c]);
    assert(escape_each(seq![c], style) =~= escape_char(c, style)) by {
        reveal_with_fuel(escape_each, 2);
    }
}

/// Escaping one more character of a text appends what that character
/// becomes.
pub proof fn lemma_escape_each_take(s: Seq<char>, i: int, style: EscapeStringStyle)
    requires
        0 <= i < s.len(),
    ensures
        escape_each(s.take(i + 1), style) == escape_each(s.take(i), style) + escape_char(
            s[i],
            style,
        ),
{
    assert(s.take(i + 1) =~= s.take(i).push(s[i]));
    lemma_escape_each_push(s.take(i), s[i], style);
}

/// Escapes `s` for the given style. Every text has an escaped form in
/// every style; the result is a new vector. It holds no control character,
/// and in the URL and variable-name styles only the characters that the
/// style allows.
pub fn escape_string(s: &[char], style: EscapeStringStyle) -> (out: Vec<char>)
    ensures
        out@ == escaped(s@, style),
        has_no_control(out@),
        style is Url ==> is_url_safe_text(out@),
        style is Var ==> is_var_safe_text(out@),
{
    proof {
        lemma_escaped_has_no_control(s@, style);
        lemma_url_escaped_safe(s@);
        lemma_var_escaped_safe(s@);
    }
    match style {
        EscapeStringStyle::Script(flags) => escape_string_script(s, flags),
        EscapeStringStyle::Url => escape_string_url(s),
        EscapeStringStyle::Var => escape_string_var(s),
        EscapeStringStyle::Regex => escape_string_regex(s),
    }
}

} // verus!
