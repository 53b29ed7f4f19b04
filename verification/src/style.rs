//! The target syntaxes and the options of the command-language style.

use vstd::prelude::*;

verus! {

/// The syntax that escaped text is meant for. One style applies per call.
#[derive(Debug, Clone, Copy, PartialEq, Eq, Structural)]
pub enum EscapeStringStyle {
    /// A word of the command language, with options.
    Script(EscapeFlags),
    /// A segment of a URL.
    Url,
    /// A variable name.
    Var,
    /// A literal inside a regular expression.
    Regex,
}

/// Options of [`EscapeStringStyle::Script`]. All are off by default.
#[derive(Debug, Clone, Copy, PartialEq, Eq, Structural)]
pub struct EscapeFlags {
    /// Leave the characters that mean something to the command language as
    /// they are. Only control characters and backslashes are escaped.
    pub no_printables: bool,
    /// Never wrap the text in single quotes, and escape the empty text to
    /// the empty text.
    pub no_quoted: bool,
    /// Do not escape tildes.
    pub no_tilde: bool,
    /// Show each control character as one visible symbol instead of a
    /// backslash sequence.
    pub symbolic: bool,
}

impl Default for EscapeFlags {
    fn default() -> (flags: Self)
        ensures
            !flags.no_printables,
            !flags.no_quoted,
            !flags.no_tilde,
            !flags.symbolic,
    {
        EscapeFlags { no_printables: false, no_quoted: false, no_tilde: false, symbolic: false }
    }
}

} // verus!
