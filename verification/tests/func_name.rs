use fish_common::valid_func_name;

fn valid(name: &str) -> bool {
    let text: Vec<char> = name.chars().collect();
    valid_func_name(&text)
}

#[test]
fn func_name_accepts_ordinary_names() {
    assert!(valid("ls"));
    assert!(valid("my-function"));
    assert!(valid("_private"));
    assert!(valid("a b"));
    assert!(valid("\u{e9}t\u{e9}"));
}

#[test]
fn func_name_rejects_the_empty_name() {
    assert!(!valid(""));
}

#[test]
fn func_name_rejects_a_leading_hyphen() {
    assert!(!valid("-"));
    assert!(!valid("-x"));
    assert!(valid("x-"));
}

#[test]
fn func_name_rejects_a_slash_anywhere() {
    assert!(!valid("/"));
    assert!(!valid("a/b"));
    assert!(!valid("ab/"));
}

#[test]
fn func_name_rejects_nul_anywhere() {
    assert!(!valid("\0"));
    assert!(!valid("a\0b"));
    assert!(!valid("ab\0"));
}
