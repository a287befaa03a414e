use antibot::text::{lines_of, push_padded, same_text, trim_end_str, trim_str, words_of};

#[test]
fn trimming_uses_unicode_whitespace() {
    assert_eq!(trim_str("\u{3000} a b \u{85}\t"), "a b");
    assert_eq!(trim_str("   "), "");
    assert_eq!(trim_end_str("  x \r\n"), "  x");
}

#[test]
fn lines_as_str_lines() {
    for s in ["", "a", "a\n", "a\r\nb", "a\n\nb\r", "\n", "\r\n", "x\r\r\ny\n"] {
        let expected: Vec<String> = s.lines().map(|l| l.to_string()).collect();
        assert_eq!(lines_of(s), expected, "text: {:?}", s);
    }
}

#[test]
fn words_as_split_whitespace() {
    for s in ["", "  ", "a", " a  b\tc\u{2028}d ", "x\u{a0}y"] {
        let expected: Vec<String> = s.split_whitespace().map(|w| w.to_string()).collect();
        assert_eq!(words_of(s), expected, "text: {:?}", s);
    }
}

#[test]
fn padding_as_format() {
    for (t, w) in [("ab", 5usize), ("abcdef", 3), ("ç", 2), ("", 0)] {
        let mut s = String::from(">");
        push_padded(&mut s, t, w);
        assert_eq!(s, format!(">{:<w$}", t, w = w));
    }
}

#[test]
fn text_equality() {
    assert!(same_text("abc", "abc"));
    assert!(!same_text("abc", "abd"));
    assert!(!same_text("abc", "ab"));
}
