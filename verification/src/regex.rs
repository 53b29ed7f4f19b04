//! The regular-expression style: a backslash before every character that
//! means something in a pattern, and backslash sequences for control
//! characters.

use crate::backslash::{
    control_escape, lemma_unescape_backslashed, lemma_unescape_control, lemma_unescape_plain,
    push_backslashed, push_control_escape, unescape_backslash,
};
use crate::chars::{is_control, is_control_exec, prepend};
use crate::escape::{escape_each, escaped, lemma_escape_each_take};
use crate::style::EscapeStringStyle;
use vstd::prelude::*;

verus! {

/// The characters that mean something in a pattern. The hyphen and the
/// closing bracket matter only inside a bracket expression; they are
/// escaped everywhere.
pub open spec fn is_regex_meta(c: char) -> bool {
    c == '.' || c == '^' || c == '$' || c == '*' || c == '+' || c == '?' || c == '(' || c == ')'
        || c == '[' || c == ']' || c == '{' || c == '}' || c == '|' || c == '\\' || c == '-'
}

pub(crate) fn is_regex_meta_exec(c: char) -> (b: bool)
    ensures
        b == is_regex_meta(c),
{
    c == '.' || c == '^' || c == '$' || c == '*' || c == '+' || c == '?' || c == '(' || c == ')'
        || c == '[' || c == ']' || c == '{' || c == '}' || c == '|' || c == '\\' || c == '-'
}

/// What one character becomes in a pattern.
pub open spec fn regex_escape_char(c: char) -> Seq<char> {
    if is_control(c) {
        control_escape(c)
    } else if is_regex_meta(c) {
        seq!['\\', c]
    } else {
        seq![c]
    }
}

/// Appends what `c` becomes in a pattern.
pub(crate) fn push_regex_escaped(out: &mut Vec<char>, c: char)
    ensures
        final(out)@ == old(out)@ + regex_escape_char(c),
{
    if is_control_exec(c) {
        push_control_escape(out, c);
    } else if is_regex_meta_exec(c) {
        push_backslashed(out, c);
    } else {
        out.push(c);
    }
}

/// Escapes `s` for a pattern, character by character.
pub(crate) fn escape_string_regex(s: &[char]) -> (out: Vec<char>)
    ensures
        out@ == escape_each(s@, EscapeStringStyle::Regex),
{
    let mut out: Vec<char> = Vec::new();
    let mut i: usize = 0;
    while i < s.len()
        invariant
            i <= s.len(),
            out@ == escape_each(s@.take(i as int), EscapeStringStyle::Regex),
        decreases s.len() - i,
    {
        proof {
            lemma_escape_each_take(s@, i as int, EscapeStringStyle::Regex);
        }
        push_regex_escaped(&mut out, s[i]);
        i += 1;
    }
    assert(s@.take(s.len() as int) =~= s@);
    out
}

/// What a character becomes in a pattern is read back as that character,
/// whatever follows it.
pub proof fn lemma_unescape_regex_char(c: char, rest: Seq<char>)
    ensures
        unescape_backslash(regex_escape_char(c) + rest) == prepend(c, unescape_backslash(rest)),
{
    if is_control(c) {
        lemma_unescape_control(c, rest);
    } else if is_regex_meta(c) {
        lemma_unescape_backslashed(c, rest);
    } else {
        lemma_unescape_plain(c, rest);
    }
}

/// Reading escaped text of the regular-expression style gives the text
/// that was escaped.
pub proof fn lemma_regex_round_trip(s: Seq<char>)
    ensures
        unescape_backslash(escaped(s, EscapeStringStyle::Regex)) == Some(s),
    decreases s.len(),
{
    if s.len() > 0 {
        lemma_regex_round_trip(s.drop_first());
        lemma_unescape_regex_char(s[0], escape_each(s.drop_first(), EscapeStringStyle::Regex));
        assert(seq![s[0]] + s.drop_first() =~= s);
    }
}

} // verus!
