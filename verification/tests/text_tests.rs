use artale_timer::text::{is_blank, joined, text_eq, text_less, texts_contain};

#[test]
fn blank_texts() {
    assert!(is_blank(""));
    assert!(is_blank(" \t\n\r\u{0B}\u{0C}\u{85}\u{A0}\u{1680}\u{2000}\u{200A}\u{2028}\u{2029}\u{202F}\u{205F}\u{3000}"));
    assert!(!is_blank(" a "));
    assert!(!is_blank("\u{200B}"));
    for c in ['\u{1F}', '\u{200B}', '\u{FEFF}', 'x'] {
        assert_eq!(is_blank(&c.to_string()), c.to_string().trim().is_empty());
    }
}

#[test]
fn text_order_is_str_order() {
    let words = ["", "a", "ab", "b", "B", "é", "z", "ä", "aa"];
    for x in words {
        for y in words {
            assert_eq!(text_less(x, y), x < y, "{} {}", x, y);
            assert_eq!(text_eq(x, y), x == y);
        }
    }
}

#[test]
fn joining_and_searching() {
    assert_eq!(joined("buff_", "x"), "buff_x");
    let v = vec!["a".to_string(), "b".to_string()];
    assert!(texts_contain(&v, "b"));
    assert!(!texts_contain(&v, "c"));
}
