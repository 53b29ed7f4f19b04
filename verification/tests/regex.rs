use fish_common::{escape_string, EscapeStringStyle};

fn regex(input: &str) -> String {
    let text: Vec<char> = input.chars().collect();
    escape_string(&text, EscapeStringStyle::Regex).into_iter().collect()
}

#[test]
fn test_escape_string() {
    // plain text should not be needlessly escaped
    assert_eq!(regex("hello world!"), "hello world!");

    // all the following are intended to be ultimately matched literally - even if they don't
    // look like that's the intent - so we escape them.
    assert_eq!(regex(".ext"), "\\.ext");
    assert_eq!(regex("{word}"), "\\{word\\}");
    assert_eq!(regex("hola-mundo"), "hola\\-mundo");
    assert_eq!(regex("$17.42 is your total?"), "\\$17\\.42 is your total\\?");
    assert_eq!(regex("not really escaped\\?"), "not really escaped\\\\\\?");
}

#[test]
fn regex_escapes_every_metacharacter() {
    for meta in ".^$*+?()[]{}|\\-".chars() {
        let input: String = [meta].iter().collect();
        let expected: String = ['\\', meta].iter().collect();
        assert_eq!(regex(&input), expected);
    }
}

#[test]
fn regex_keeps_other_printable_characters() {
    let plain = "abcXYZ019 !\"#%&',/:;<=>@_`~\u{e9}\u{20ac}\u{1f600}";
    assert_eq!(regex(plain), plain);
}

#[test]
fn regex_writes_control_characters_as_sequences() {
    assert_eq!(regex("\t"), "\\t");
    assert_eq!(regex("\n"), "\\n");
    assert_eq!(regex("\r"), "\\r");
    assert_eq!(regex("\0"), "\\x00");
    assert_eq!(regex("\u{7}"), "\\x07");
    assert_eq!(regex("\u{1b}"), "\\x1B");
    assert_eq!(regex("\u{1f}"), "\\x1F");
    assert_eq!(regex("\u{7f}"), "\\x7F");
    assert_eq!(regex("a\nb"), "a\\nb");
}

#[test]
fn regex_empty_text_stays_empty() {
    assert_eq!(regex(""), "");
}

#[test]
fn regex_backslash_comes_first_then_the_next_character() {
    assert_eq!(regex("\\n"), "\\\\n");
    assert_eq!(regex("\\."), "\\\\\\.");
    assert_eq!(regex("\\\\"), "\\\\\\\\");
}
