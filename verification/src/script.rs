//! The command-language style: a backslash before every character that
//! means something to the language, backslash sequences or visible symbols
//! for control characters, and single quotes round text that allows them.

use crate::backslash::{
    control_escape, lemma_unescape_backslashed, lemma_unescape_control, lemma_unescape_plain,
    push_backslashed, push_control_escape, unescape_backslash,
};
use crate::chars::{code, is_control, is_control_exec, prepend};
use crate::escape::{escape_each, escaped, lemma_escape_each_take};
use crate::style::{EscapeFlags, EscapeStringStyle};
use vstd::prelude::*;

verus! {

/// The printable characters that mean something to the command language.
/// The tilde counts wherever it stands.
pub open spec fn is_script_special(c: char) -> bool {
    c == '\'' || c == '"' || c == '$' || c == ';' || c == '|' || c == '&' || c == '<' || c == '>'
        || c == ' ' || c == '(' || c == ')' || c == '[' || c == ']' || c == '{' || c == '}'
        || c == '#' || c == '?' || c == '*' || c == '%' || c == '~'
}

pub(crate) fn is_script_special_exec(c: char) -> (b: bool)
    ensures
        b == is_script_special(c),
{
    c == '\'' || c == '"' || c == '$' || c == ';' || c == '|' || c == '&' || c == '<' || c == '>'
        || c == ' ' || c == '(' || c == ')' || c == '[' || c == ']' || c == '{' || c == '}'
        || c == '#' || c == '?' || c == '*' || c == '%' || c == '~'
}

/// Whether the printable character `c` gets a backslash in front: always
/// the backslash itself, and a special character unless the flags leave
/// printable characters, or the tilde, alone.
pub open spec fn takes_backslash(c: char, flags: EscapeFlags) -> bool {
    c == '\\' || (!flags.no_printables && is_script_special(c) && !(c == '~' && flags.no_tilde))
}

pub(crate) fn takes_backslash_exec(c: char, flags: EscapeFlags) -> (b: bool)
    ensures
        b == takes_backslash(c, flags),
{
    c == '\\' || (!flags.no_printables && is_script_special_exec(c) && !(c == '~'
        && flags.no_tilde))
}

/// The visible symbol for a control character: the control picture at
/// U+2400 plus its code, and U+2421 for DEL.
pub open spec fn control_picture(c: char) -> char {
    if code(c) == 0x7F {
        '\u{2421}'
    } else {
        (0x2400 + code(c)) as char
    }
}

pub(crate) fn control_picture_exec(c: char) -> (picture: char)
    requires
        is_control(c),
    ensures
        picture == control_picture(c),
{
    let v: u32 = c as u32;
    match v {
        0x00 => '\u{2400}',
        0x01 => '\u{2401}',
        0x02 => '\u{2402}',
        0x03 => '\u{2403}',
        0x04 => '\u{2404}',
        0x05 => '\u{2405}',
        0x06 => '\u{2406}',
        0x07 => '\u{2407}',
        0x08 => '\u{2408}',
        0x09 => '\u{2409}',
        0x0A => '\u{240A}',
        0x0B => '\u{240B}',
        0x0C => '\u{240C}',
        0x0D => '\u{240D}',
        0x0E => '\u{240E}',
        0x0F => '\u{240F}',
        0x10 => '\u{2410}',
        0x11 => '\u{2411}',
        0x12 => '\u{2412}',
        0x13 => '\u{2413}',
        0x14 => '\u{2414}',
        0x15 => '\u{2415}',
        0x16 => '\u{2416}',
        0x17 => '\u{2417}',
        0x18 => '\u{2418}',
        0x19 => '\u{2419}',
        0x1A => '\u{241A}',
        0x1B => '\u{241B}',
        0x1C => '\u{241C}',
        0x1D => '\u{241D}',
        0x1E => '\u{241E}',
        0x1F => '\u{241F}',
        _ => '\u{2421}',
    }
}

/// What one character becomes when each is escaped by itself.
pub open spec fn script_escape_char(c: char, flags: EscapeFlags) -> Seq<char> {
    if is_control(c) {
        if flags.symbolic {
            seq![control_picture(c)]
        } else {
            control_escape(c)
        }
    } else if takes_backslash(c, flags) {
        seq!['\\', c]
    } else {
        seq![c]
    }
}

/// Appends what `c` becomes when each character is escaped by itself.
pub(crate) fn push_script_escaped(out: &mut Vec<char>, c: char, flags: EscapeFlags)
    ensures
        final(out)@ == old(out)@ + script_escape_char(c, flags),
{
    if is_control_exec(c) {
        if flags.symbolic {
            out.push(control_picture_exec(c));
        } else {
            push_control_escape(out, c);
        }
    } else if takes_backslash_exec(c, flags) {
        push_backslashed(out, c);
    } else {
        out.push(c);
    }
}

/// The characters that single quotes cannot hold as they are: the single
/// quote, the backslash and the control characters.
pub open spec fn breaks_quotes(c: char) -> bool {
    c == '\'' || c == '\\' || is_control(c)
}

/// Text that single quotes can hold as it is. The empty text is such.
pub open spec fn is_quotable(s: Seq<char>) -> bool {
    forall|i: int| 0 <= i < s.len() ==> !breaks_quotes(#[trigger] s[i])
}

/// The text between two single quotes.
pub open spec fn quoted(s: Seq<char>) -> Seq<char> {
    seq!['\''] + s + seq!['\'']
}

/// Whether the text is wrapped in single quotes rather than escaped
/// character by character.
pub open spec fn uses_quotes(s: Seq<char>, flags: EscapeFlags) -> bool {
    !flags.no_quoted && is_quotable(s)
}

pub(crate) fn is_quotable_exec(s: &[char]) -> (b: bool)
    ensures
        b == is_quotable(s@),
{
    let mut i: usize = 0;
    while i < s.len()
        invariant
            i <= s.len(),
            forall|j: int| 0 <= j < i ==> !breaks_quotes(#[trigger] s@[j]),
        decreases s.len() - i,
    {
        let c: char = s[i];
        if c == '\'' || c == '\\' || is_control_exec(c) {
            return false;
        }
        i += 1;
    }
    true
}

/// The text between two single quotes, as a new vector.
pub(crate) fn quote(s: &[char]) -> (out: Vec<char>)
    ensures
        out@ == quoted(s@),
{
    let mut out: Vec<char> = Vec::new();
    out.push('\'');
    let mut i: usize = 0;
    while i < s.len()
        invariant
            i <= s.len(),
            out@ == seq!['\''] + s@.take(i as int),
        decreases s.len() - i,
    {
        out.push(s[i]);
        i += 1;
    }
    out.push('\'');
    out
}

/// Escapes `s` for the command language: between single quotes where the
/// text allows them and the flags do not forbid them, else character by
/// character.
pub(crate) fn escape_string_script(s: &[char], flags: EscapeFlags) -> (out: Vec<char>)
    ensures
        out@ == escaped(s@, EscapeStringStyle::Script(flags)),
{
    if !flags.no_quoted && is_quotable_exec(s) {
        return quote(s);
    }
    let ghost style = EscapeStringStyle::Script(flags);
    let mut out: Vec<char> = Vec::new();
    let mut i: usize = 0;
    while i < s.len()
        invariant
            i <= s.len(),
            style == EscapeStringStyle::Script(flags),
            out@ == escape_each(s@.take(i as int), style),
        decreases s.len() - i,
    {
        proof {
            lemma_escape_each_take(s@, i as int, style);
        }
        push_script_escaped(&mut out, s[i], flags);
        i += 1;
    }
    assert(s@.take(s.len() as int) =~= s@);
    out
}

/// Reads a word as this style writes it: text between single quotes is
/// taken as it is, anything else by its backslash sequences. `None` where
/// the quotes do not close round text that they can hold, or a sequence is
/// cut short.
pub open spec fn unescape_script(s: Seq<char>) -> Option<Seq<char>> {
    if s.len() > 0 && s[0] == '\'' {
        if s.len() >= 2 && s.last() == '\'' && is_quotable(s.subrange(1, s.len() - 1)) {
            Some(s.subrange(1, s.len() - 1))
        } else {
            None
        }
    } else {
        unescape_backslash(s)
    }
}

/// Without symbols, what a character becomes is read back as that
/// character, whatever follows it.
pub proof fn lemma_unescape_script_char(c: char, flags: EscapeFlags, rest: Seq<char>)
    requires
        !flags.symbolic,
    ensures
        unescape_backslash(script_escape_char(c, flags) + rest) == prepend(
            c,
            unescape_backslash(rest),
        ),
{
    if is_control(c) {
        lemma_unescape_control(c, rest);
    } else if takes_backslash(c, flags) {
        lemma_unescape_backslashed(c, rest);
    } else {
        lemma_unescape_plain(c, rest);
    }
}

/// Without symbols, reading text that was escaped character by character
/// gives the text back, whatever the other flags are.
pub proof fn lemma_script_each_round_trip(s: Seq<char>, flags: EscapeFlags)
    requires
        !flags.symbolic,
    ensures
        unescape_backslash(escape_each(s, EscapeStringStyle::Script(flags))) == Some(s),
    decreases s.len(),
{
    if s.len() > 0 {
        lemma_script_each_round_trip(s.drop_first(), flags);
        lemma_unescape_script_char(
            s[0],
            flags,
            escape_each(s.drop_first(), EscapeStringStyle::Script(flags)),
        );
        assert(seq![s[0]] + s.drop_first() =~= s);
    }
}

/// Where printable characters are escaped, what a character becomes does
/// not start with a single quote.
pub proof fn lemma_script_char_starts_unquoted(c: char, flags: EscapeFlags)
    requires
        !flags.no_printables,
    ensures
        script_escape_char(c, flags).len() > 0,
        script_escape_char(c, flags)[0] != '\'',
{
}

/// Where printable characters are escaped, text escaped character by
/// character does not start with a single quote.
pub proof fn lemma_script_each_starts_unquoted(s: Seq<char>, flags: EscapeFlags)
    requires
        !flags.no_printables,
    ensures
        ({
            let text = escape_each(s, EscapeStringStyle::Script(flags));
            text.len() > 0 ==> text[0] != '\''
        }),
{
    if s.len() > 0 {
        lemma_script_char_starts_unquoted(s[0], flags);
    }
}

/// Reading escaped text gives the text that was escaped, where control
/// characters are written as backslash sequences and printable characters
/// are escaped.
pub proof fn lemma_script_round_trip(s: Seq<char>, flags: EscapeFlags)
    requires
        !flags.symbolic,
        !flags.no_printables,
    ensures
        unescape_script(escaped(s, EscapeStringStyle::Script(flags))) == Some(s),
{
    if uses_quotes(s, flags) {
        let text = quoted(s);
        assert(text.subrange(1, text.len() - 1) =~= s);
    } else {
        lemma_script_each_starts_unquoted(s, flags);
        lemma_script_each_round_trip(s, flags);
    }
}

} // verus!
