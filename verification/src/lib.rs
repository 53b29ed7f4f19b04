//! Escaping of text for embedding in another syntax: a command language,
//! a URL, a variable name or a regular expression.
//!
//! Text is a sequence of Unicode scalar values, held as `[char]`. The entry
//! point is [`escape_string`]; what it returns is defined by
//! [`escape::escaped`].

pub mod backslash;
pub mod chars;
pub mod escape;
pub mod func_name;
pub mod laws;
pub mod marker;
pub mod regex;
pub mod scoped_push;
pub mod script;
pub mod style;
pub mod url;
pub mod var;

pub use escape::escape_string;
pub use func_name::valid_func_name;
pub use marker::{assert_send, assert_sync};
pub use scoped_push::ScopedPush;
pub use style::{EscapeFlags, EscapeStringStyle};
