use twobobs::text::{
    after_prefix, chars_of, find_blank_line, join, push_decimal, split_lines, take_chars,
    text_between, without_slashes,
};

#[test]
fn lines_end_with_line_feeds() {
    let cases = [
        "", "\n", "a", "a\n", "a\nb", "a\r\nb\r", "\r\n", "a\n\nb", "\n\n", "a\rb\n", "\r\r\nx", "é\r\n→",
    ];
    for s in cases {
        let std: Vec<&str> = s.lines().collect();
        assert_eq!(split_lines(s), std);
    }
}

#[test]
fn joining() {
    assert_eq!(join(&vec![]), "");
    assert_eq!(join(&vec!["a".to_string()]), "a");
    assert_eq!(join(&vec!["".to_string(), "b".to_string(), "".to_string()]), "\nb\n");
}

#[test]
fn decimals() {
    for n in [0u64, 9, 10, 99, 100, 1234567890, u64::MAX] {
        let mut s = "n=".to_string();
        push_decimal(&mut s, n);
        assert_eq!(s, format!("n={n}"));
    }
}

#[test]
fn slashes() {
    assert_eq!(without_slashes("a/b//"), "a/b");
    assert_eq!(without_slashes("///"), "");
    assert_eq!(without_slashes("a"), "a");
}

#[test]
fn pieces() {
    assert_eq!(after_prefix("data: x", "data: ").as_deref(), Some("x"));
    assert_eq!(after_prefix("data: ", "data: ").as_deref(), Some(""));
    assert_eq!(after_prefix("data:x", "data: "), None);
    assert_eq!(after_prefix("da", "data: "), None);
    assert_eq!(take_chars("é→x", 2), "é→");
    assert_eq!(take_chars("é", 200), "é");
    assert_eq!(text_between(&chars_of("abcd"), 1, 3), "bc");
    assert_eq!(find_blank_line(&chars_of("é\n\n\n")), Some(1));
    assert_eq!(find_blank_line(&chars_of("a\nb\n")), None);
    assert_eq!(find_blank_line(&chars_of("")), None);
}
