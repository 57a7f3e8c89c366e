use dataset_gen::text::{one_line, preview, split, trim, trim_end, write_decimal};

#[test]
fn trims_what_std_trims() {
    let mut code: u32 = 0;
    while code <= 0x10ffff {
        if let Some(c) = char::from_u32(code) {
            let s = c.to_string();
            assert_eq!(trim(&s), s.trim(), "U+{:04X}", code);
        }
        code += 1;
    }
}

#[test]
fn trims_both_ends() {
    assert_eq!(trim(" \t a b \n\n"), "a b");
    assert_eq!(trim("\u{3000}слово\u{a0}"), "слово");
    assert_eq!(trim(" \n "), "");
    assert_eq!(trim(""), "");
}

#[test]
fn trims_the_end_only() {
    assert_eq!(trim_end("  a \n"), "  a");
    assert_eq!(trim_end("{}\n"), "{}");
    assert_eq!(trim_end("\n"), "");
}

#[test]
fn writes_decimals() {
    assert_eq!(write_decimal(0), "0");
    assert_eq!(write_decimal(7), "7");
    assert_eq!(write_decimal(10), "10");
    assert_eq!(write_decimal(4294967295), "4294967295");
    assert_eq!(write_decimal(u64::MAX), u64::MAX.to_string());
}

#[test]
fn previews_by_characters() {
    assert_eq!(preview("обѣдъ", 3), "обѣ");
    assert_eq!(preview("ab", 3), "ab");
    assert_eq!(preview("abc", 3), "abc");
    assert_eq!(preview("abc", 0), "");
}

#[test]
fn makes_line_feeds_spaces() {
    assert_eq!(one_line("a\nb\n\nc\r"), "a b  c\r");
}

#[test]
fn splits_as_std_does() {
    for s in ["", "|", "a", "a|b", "|a||b|", "ѣ|і"] {
        let expected: Vec<&str> = s.split('|').collect();
        assert_eq!(split(s, '|'), expected);
    }
}

#[test]
fn split_and_join_undo_each_other() {
    let parts = vec!["a".to_string(), "".to_string(), "bc".to_string()];
    assert_eq!(split(&parts.join("|"), '|'), parts);
    assert_eq!(split("x||y", '|').join("|"), "x||y");
}
