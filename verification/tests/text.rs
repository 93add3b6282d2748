use xmip_core_runtime::text::{
    comes_before, decimal_text, is_blank, is_white_space, join, same, signed_decimal_text,
};

#[test]
fn white_space_is_what_unicode_says_it_is() {
    for code in 0..=0x10ffff_u32 {
        if let Some(c) = char::from_u32(code) {
            assert_eq!(is_white_space(c), c.is_whitespace(), "{code:x}");
        }
    }
    assert!(is_blank(""));
    assert!(is_blank(" \t\u{3000}"));
    assert!(!is_blank(" a "));
}

#[test]
fn numbers_are_written_in_decimal() {
    for n in [0, 7, 10, 999, 1000, u64::MAX] {
        assert_eq!(decimal_text(n), n.to_string());
    }
    for n in [0, -1, 42, i64::MIN, i64::MAX] {
        assert_eq!(signed_decimal_text(n), n.to_string());
    }
}

#[test]
fn texts_are_ordered_as_strings_are() {
    let texts = ["", "a", "aa", "b", "B", "\u{e5}", "\u{10000}", "\u{ffff}"];
    for one in texts {
        for other in texts {
            assert_eq!(comes_before(one, other), one < other, "{one} {other}");
            assert_eq!(same(one, other), one == other);
        }
    }
}

#[test]
fn parts_are_joined_with_the_separator_between() {
    let parts = |texts: &[&str]| texts.iter().map(|text| text.to_string()).collect::<Vec<_>>();

    assert_eq!(join(&parts(&[]), ", "), "");
    assert_eq!(join(&parts(&["a"]), ", "), "a");
    assert_eq!(join(&parts(&["a", "", "b"]), ", "), "a, , b");
}
