use fish_common::{escape_string, EscapeFlags, EscapeStringStyle};

fn escape(input: &str, style: EscapeStringStyle) -> String {
    let text: Vec<char> = input.chars().collect();
    escape_string(&text, style).into_iter().collect()
}

fn styles() -> Vec<EscapeStringStyle> {
    vec![
        EscapeStringStyle::Script(EscapeFlags::default()),
        EscapeStringStyle::Script(EscapeFlags { no_quoted: true, ..EscapeFlags::default() }),
        EscapeStringStyle::Url,
        EscapeStringStyle::Var,
        EscapeStringStyle::Regex,
    ]
}

#[test]
fn plain_text_is_not_changed() {
    let plain = "PlainText0123";
    assert_eq!(escape(plain, EscapeStringStyle::Url), plain);
    assert_eq!(escape(plain, EscapeStringStyle::Var), plain);
    assert_eq!(escape(plain, EscapeStringStyle::Regex), plain);
    let no_quoted = EscapeFlags { no_quoted: true, ..EscapeFlags::default() };
    assert_eq!(escape(plain, EscapeStringStyle::Script(no_quoted)), plain);
    assert_eq!(escape(plain, EscapeStringStyle::Script(EscapeFlags::default())), "'PlainText0123'");
}

#[test]
fn same_input_gives_same_output() {
    for style in styles() {
        assert_eq!(escape("a b\n~'\\\u{e9}", style), escape("a b\n~'\\\u{e9}", style));
    }
}

#[test]
fn escaped_text_is_never_shorter() {
    for style in styles() {
        for text in ["", "a", "a b", "\n\t", "\u{1f600}\u{1f600}", "'~\\"] {
            let before = text.chars().count();
            let after = escape(text, style).chars().count();
            assert!(before <= after);
            assert!(after <= 12 * before + 2);
        }
    }
}

#[test]
fn longest_escape_is_twelve_characters() {
    assert_eq!(escape("\u{10ffff}", EscapeStringStyle::Url).chars().count(), 12);
}

#[test]
fn nul_has_an_escaped_form_in_every_style() {
    let no_quoted = EscapeFlags { no_quoted: true, ..EscapeFlags::default() };
    assert_eq!(escape("\0", EscapeStringStyle::Script(no_quoted)), "\\x00");
    assert_eq!(escape("\0", EscapeStringStyle::Script(EscapeFlags::default())), "\\x00");
    assert_eq!(escape("\0", EscapeStringStyle::Url), "%00");
    assert_eq!(escape("\0", EscapeStringStyle::Var), "$000000");
    assert_eq!(escape("\0", EscapeStringStyle::Regex), "\\x00");
}

#[test]
fn styles_compare_by_value() {
    assert_eq!(EscapeStringStyle::Url, EscapeStringStyle::Url);
    assert_ne!(EscapeStringStyle::Url, EscapeStringStyle::Var);
    assert_eq!(
        EscapeStringStyle::Script(EscapeFlags::default()),
        EscapeStringStyle::Script(EscapeFlags {
            no_printables: false,
            no_quoted: false,
            no_tilde: false,
            symbolic: false,
        })
    );
    assert_ne!(
        EscapeStringStyle::Script(EscapeFlags::default()),
        EscapeStringStyle::Script(EscapeFlags { symbolic: true, ..EscapeFlags::default() })
    );
}
