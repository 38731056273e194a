use kart_stocks::text::{find, join, push_decimal, push_signed, replace_all, str_eq, trim};

#[test]
fn decimal_formatting() {
    let mut s = String::new();
    push_decimal(&mut s, 0);
    assert_eq!(s, "0");
    let mut s = String::from("x");
    push_decimal(&mut s, 1234567890);
    assert_eq!(s, "x1234567890");
    let mut s = String::new();
    push_decimal(&mut s, u64::MAX);
    assert_eq!(s, u64::MAX.to_string());
    let mut s = String::new();
    push_signed(&mut s, -42);
    assert_eq!(s, "-42");
    let mut s = String::new();
    push_signed(&mut s, i64::MIN);
    assert_eq!(s, i64::MIN.to_string());
}

#[test]
fn trim_matches_std() {
    for t in ["", "  ", " a ", "\t\nx y\r\n", "\u{3000}wide\u{2003}", "\u{85}x\u{a0}", "a"] {
        assert_eq!(trim(t), t.trim());
    }
}

#[test]
fn replace_matches_std() {
    let cases = [
        ("a b c", " ", "-"),
        ("aaaa", "aa", "b"),
        ("x</think>y</think>", "</think>", ""),
        ("", ".", ""),
        ("no match", "zz", "q"),
        ("1.2,3", ".", ""),
    ];
    for (s, p, t) in cases {
        assert_eq!(replace_all(s, p, t), s.replace(p, t));
    }
}

#[test]
fn find_and_compare() {
    assert_eq!(find("abcabc", "bc", 0), Some(1));
    assert_eq!(find("abcabc", "bc", 2), Some(4));
    assert_eq!(find("abc", "d", 0), None);
    assert_eq!(find("abc", "", 3), Some(3));
    assert!(str_eq("héllo", "héllo"));
    assert!(!str_eq("hello", "hellO"));
    assert!(!str_eq("a", "ab"));
}

#[test]
fn join_matches_std() {
    let v: Vec<String> = vec!["a".into(), "b".into(), "c".into()];
    assert_eq!(join(&v, ", "), "a, b, c");
    assert_eq!(join(&Vec::new(), ", "), "");
    assert_eq!(join(&vec!["solo".to_string()], "--"), "solo");
}
