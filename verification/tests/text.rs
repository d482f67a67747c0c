use log_monitor::text::{copy_texts, decimal_text, trim_text};

#[test]
fn decimal_text_writes_base_ten() {
    assert_eq!(decimal_text(0), "0");
    assert_eq!(decimal_text(7), "7");
    assert_eq!(decimal_text(10), "10");
    assert_eq!(decimal_text(109), "109");
    assert_eq!(decimal_text(1_704_067_200), "1704067200");
    assert_eq!(decimal_text(u64::MAX), "18446744073709551615");
    for n in [1u64, 9, 99, 100, 1_000_000, 123_456_789_012_345] {
        assert_eq!(decimal_text(n), n.to_string());
    }
}

#[test]
fn trim_text_agrees_with_trim() {
    for s in ["", " ", "a", " a", "a ", "  a b  ", "\ta\n", "\u{a0}x\u{2003}", "x\u{200b}", "é "] {
        assert_eq!(trim_text(s), s.trim(), "{:?}", s);
    }
}

#[test]
fn copy_texts_copies_in_order() {
    let items = vec!["b".to_string(), "a".to_string(), String::new(), "a".to_string()];
    assert_eq!(copy_texts(&items), items);
    assert!(copy_texts(&Vec::new()).is_empty());
}

#[test]
fn white_space_is_the_unicode_property() {
    for code in 0..=0x10FFFFu32 {
        let c = match char::from_u32(code) {
            Some(c) => c,
            None => continue,
        };
        let listed = matches!(
            code,
            0x0009..=0x000D
                | 0x0020
                | 0x0085
                | 0x00A0
                | 0x1680
                | 0x2000..=0x200A
                | 0x2028
                | 0x2029
                | 0x202F
                | 0x205F
                | 0x3000
        );
        let mut one = String::new();
        one.push(c);
        assert_eq!(trim_text(&one).is_empty(), listed, "U+{:04X}", code);
    }
}
