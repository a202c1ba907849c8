use moneywright_desktop::text::{has_substring, has_substring_ci, lines, push_decimal, push_signed_decimal, trimmed};

#[test]
fn trim_removes_unicode_space() {
    assert_eq!(trimmed("\u{3000} a b\t\r\n"), "a b");
    assert_eq!(trimmed("   "), "");
    assert_eq!(trimmed(""), "");
}

#[test]
fn lines_split_like_str_lines() {
    for s in ["", "a", "a\n", "a\nb", "a\r\nb\r\n", "\n\n", "a\rb", "x\r"] {
        let expected: Vec<&str> = s.lines().collect();
        assert_eq!(lines(s), expected, "input {:?}", s);
    }
}

#[test]
fn substring_search() {
    assert!(has_substring("abc", "bc"));
    assert!(!has_substring("abc", "BC"));
    assert!(has_substring_ci("abc", "BC"));
    assert!(has_substring("abc", ""));
    assert!(!has_substring("", "a"));
}

#[test]
fn decimals() {
    let mut s = String::from("n=");
    push_decimal(&mut s, 4294967295);
    assert_eq!(s, "n=4294967295");
    let mut t = String::new();
    push_signed_decimal(&mut t, -7);
    assert_eq!(t, "-7");
    let mut z = String::new();
    push_decimal(&mut z, 0);
    assert_eq!(z, "0");
}
