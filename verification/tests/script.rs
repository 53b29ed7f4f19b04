use fish_common::{escape_string, EscapeFlags, EscapeStringStyle};

fn script(input: &str, flags: EscapeFlags) -> String {
    let text: Vec<char> = input.chars().collect();
    escape_string(&text, EscapeStringStyle::Script(flags)).into_iter().collect()
}

fn defaults() -> EscapeFlags {
    EscapeFlags::default()
}

fn no_quoted() -> EscapeFlags {
    EscapeFlags { no_quoted: true, ..EscapeFlags::default() }
}

fn all_flags() -> Vec<EscapeFlags> {
    let mut flags = Vec::new();
    for bits in 0..16 {
        flags.push(EscapeFlags {
            no_printables: bits & 1 != 0,
            no_quoted: bits & 2 != 0,
            no_tilde: bits & 4 != 0,
            symbolic: bits & 8 != 0,
        });
    }
    flags
}

#[test]
fn script_flags_are_off_by_default() {
    let flags = EscapeFlags::default();
    assert!(!flags.no_printables);
    assert!(!flags.no_quoted);
    assert!(!flags.no_tilde);
    assert!(!flags.symbolic);
}

#[test]
fn script_empty_text_is_two_quotes() {
    assert_eq!(script("", defaults()), "''");
    for flags in all_flags() {
        let expected = if flags.no_quoted { "" } else { "''" };
        assert_eq!(script("", flags), expected);
    }
}

#[test]
fn script_empty_text_without_quoting_is_empty() {
    assert_eq!(script("", no_quoted()), "");
}

#[test]
fn script_wraps_text_that_quotes_can_hold() {
    assert_eq!(script("hello", defaults()), "'hello'");
    assert_eq!(script("hello world", defaults()), "'hello world'");
    assert_eq!(script("a;b|c&d", defaults()), "'a;b|c&d'");
    assert_eq!(script("$HOME", defaults()), "'$HOME'");
    assert_eq!(script("~", defaults()), "'~'");
    assert_eq!(script("\"", defaults()), "'\"'");
    assert_eq!(script("\u{e9}t\u{e9}", defaults()), "'\u{e9}t\u{e9}'");
}

#[test]
fn script_falls_back_to_backslashes() {
    assert_eq!(script("it's", defaults()), "it\\'s");
    assert_eq!(script("a\\b", defaults()), "a\\\\b");
    assert_eq!(script("a b\n", defaults()), "a\\ b\\n");
    assert_eq!(script("'", defaults()), "\\'");
    assert_eq!(script("\\", defaults()), "\\\\");
    assert_eq!(script("\t", defaults()), "\\t");
}

#[test]
fn script_backslashes_every_special_character() {
    for special in "'\"$;|&<> ()[]{}#?*%~\\".chars() {
        let input: String = [special].iter().collect();
        let expected: String = ['\\', special].iter().collect();
        assert_eq!(script(&input, no_quoted()), expected);
    }
}

#[test]
fn script_keeps_plain_characters() {
    let plain = "abcXYZ019!+,-./:=@^_`\u{e9}\u{20ac}\u{1f600}";
    assert_eq!(script(plain, no_quoted()), plain);
    assert_eq!(script(plain, defaults()), format!("'{}'", plain));
}

#[test]
fn script_writes_control_characters_as_sequences() {
    assert_eq!(script("\t", no_quoted()), "\\t");
    assert_eq!(script("\n", no_quoted()), "\\n");
    assert_eq!(script("\r", no_quoted()), "\\r");
    assert_eq!(script("\0", no_quoted()), "\\x00");
    assert_eq!(script("\u{7}", no_quoted()), "\\x07");
    assert_eq!(script("\u{8}", no_quoted()), "\\x08");
    assert_eq!(script("\u{1b}", no_quoted()), "\\x1B");
    assert_eq!(script("\u{7f}", no_quoted()), "\\x7F");
}

#[test]
fn script_no_printables_leaves_special_characters() {
    let flags = EscapeFlags { no_printables: true, no_quoted: true, ..EscapeFlags::default() };
    assert_eq!(script("a b;c|d", flags), "a b;c|d");
    assert_eq!(script("it's ~", flags), "it's ~");
    assert_eq!(script("a\\b", flags), "a\\\\b");
    assert_eq!(script("a\nb", flags), "a\\nb");
    assert_eq!(script("\u{7}", flags), "\\x07");
}

#[test]
fn script_no_printables_with_quoting() {
    let flags = EscapeFlags { no_printables: true, ..EscapeFlags::default() };
    assert_eq!(script("a;b", flags), "'a;b'");
    assert_eq!(script("it's", flags), "it's");
    assert_eq!(script("a\\b", flags), "a\\\\b");
}

#[test]
fn script_no_tilde_leaves_the_tilde() {
    let flags = EscapeFlags { no_quoted: true, no_tilde: true, ..EscapeFlags::default() };
    assert_eq!(script("~", no_quoted()), "\\~");
    assert_eq!(script("~", flags), "~");
    assert_eq!(script("~/a b", no_quoted()), "\\~/a\\ b");
    assert_eq!(script("~/a b", flags), "~/a\\ b");
    assert_eq!(script("a~b", no_quoted()), "a\\~b");
}

#[test]
fn script_no_tilde_changes_nothing_without_a_tilde() {
    for text in ["", "plain", "a b;c", "it's", "a\\b\n", "\u{7}x y"] {
        for flags in all_flags() {
            let toggled = EscapeFlags { no_tilde: !flags.no_tilde, ..flags };
            assert_eq!(script(text, flags), script(text, toggled));
        }
    }
}

#[test]
fn script_symbolic_shows_control_characters() {
    let flags = EscapeFlags { symbolic: true, ..EscapeFlags::default() };
    assert_eq!(script("\0", flags), "\u{2400}");
    assert_eq!(script("\u{7}", flags), "\u{2407}");
    assert_eq!(script("\t", flags), "\u{2409}");
    assert_eq!(script("\n", flags), "\u{240a}");
    assert_eq!(script("\r", flags), "\u{240d}");
    assert_eq!(script("\u{1b}", flags), "\u{241b}");
    assert_eq!(script("\u{1f}", flags), "\u{241f}");
    assert_eq!(script("\u{7f}", flags), "\u{2421}");
    assert_eq!(script("a\nb c", flags), "a\u{240a}b\\ c");
    assert_eq!(script("a\\b", flags), "a\\\\b");
}

#[test]
fn script_symbolic_gives_each_control_character_its_own_symbol() {
    let flags = EscapeFlags { symbolic: true, ..EscapeFlags::default() };
    let mut seen: Vec<String> = Vec::new();
    for code in (0u32..0x20).chain([0x7F]) {
        let c = char::from_u32(code).unwrap();
        let shown = script(&c.to_string(), flags);
        assert_eq!(shown.chars().count(), 1);
        assert!(!shown.chars().any(|s| s.is_control()));
        assert!(!seen.contains(&shown));
        seen.push(shown);
    }
    assert_eq!(seen.len(), 33);
}

#[test]
fn script_symbolic_does_not_change_the_choice_of_quotes() {
    for text in ["", "plain", "a b;c", "~", "it's", "a\\b", "a\nb", "\u{7}"] {
        for flags in all_flags() {
            let toggled = EscapeFlags { symbolic: !flags.symbolic, ..flags };
            let quoted = script(text, flags) == format!("'{}'", text);
            let quoted_toggled = script(text, toggled) == format!("'{}'", text);
            assert_eq!(quoted, quoted_toggled);
            if !text.chars().any(|c| c.is_ascii_control()) {
                assert_eq!(script(text, flags), script(text, toggled));
            }
        }
    }
}

#[test]
fn script_symbols_cannot_be_read_back() {
    let flags = EscapeFlags { symbolic: true, ..EscapeFlags::default() };
    assert_eq!(script("\0\\", flags), script("\u{2400}\\", flags));
}

#[test]
fn script_unescaped_quotes_cannot_be_read_back() {
    let flags = EscapeFlags { no_printables: true, ..EscapeFlags::default() };
    assert_eq!(script("", flags), script("''", flags));
}

#[test]
fn script_distinct_texts_stay_distinct() {
    for flags in [defaults(), no_quoted()] {
        assert_ne!(script("", flags), script("''", flags));
        assert_ne!(script("a b", flags), script("'a b'", flags));
        assert_ne!(script("\n", flags), script("\\n", flags));
        assert_ne!(script("\u{7}", flags), script("\\x07", flags));
    }
}

#[test]
fn script_output_holds_no_control_character() {
    for code in (0u32..0x20).chain([0x7F]) {
        let text = format!("a{}b", char::from_u32(code).unwrap());
        for flags in all_flags() {
            assert!(!script(&text, flags).chars().any(|c| c.is_ascii_control()));
        }
    }
}
