use schema_compare::text::EqualIgnoreWhitespace;

#[test]
fn test_eq_ignore_whitespace() {
    let left = "this is a test";
    let right = "  this\tis \t a      test  \t";

    let actual = left.eq_ignore_whitespace(right);

    assert_eq!(true, actual);
}

#[test]
fn different_words_are_unequal() {
    let left = "select 1";
    assert!(!left.eq_ignore_whitespace("select  2"));
}

#[test]
fn whitespace_splits_words() {
    let left = "a b";
    assert!(!left.eq_ignore_whitespace("ab"));
    let joined = "ab";
    assert!(!joined.eq_ignore_whitespace("a b"));
}

#[test]
fn blank_texts_are_equal() {
    let left = "";
    assert!(left.eq_ignore_whitespace(" \t\n "));
    assert!(!left.eq_ignore_whitespace(" x "));
}

#[test]
fn unicode_whitespace_is_whitespace() {
    let left = "a\u{3000}b\u{85}";
    assert!(left.eq_ignore_whitespace("a b"));
}
