use geo_relay::text;

#[test]
fn white_space_is_that_of_unicode() {
    for code in 0..=0x10ffff_u32 {
        if let Some(c) = char::from_u32(code) {
            assert_eq!(text::is_white_space(c), c.is_whitespace(), "{code:x}");
        }
    }
}

#[test]
fn trimming_takes_white_space_off_both_ends() {
    for s in ["", " ", "a", "  a b\t\n", "\u{3000}x\u{a0}", "\u{200b}y ", "\u{85}\u{2028}"] {
        assert_eq!(text::trim(s), s.trim());
        assert_eq!(text::trim(text::trim(s)), s.trim());
    }
}

#[test]
fn ascii_case_leaves_other_characters_alone() {
    for s in ["", "aZ09-", "ÄöÜß İı", "[@`{"] {
        assert_eq!(text::to_lowercase(s), s.to_ascii_lowercase());
        assert_eq!(text::to_uppercase(s), s.to_ascii_uppercase());
    }
    assert!(text::eq_ignoring_case("Relay-A:21117", "rELAY-a:21117"));
    assert!(!text::eq_ignoring_case("Ä", "ä"));
    assert!(!text::eq_ignoring_case("a", "aa"));
}

#[test]
fn numerals_are_those_of_the_standard_library() {
    for n in [0, 7, 10, 99, 100, 524288, u64::MAX] {
        assert_eq!(text::to_decimal(n), n.to_string());
    }
    assert_eq!(text::to_lower_hex(&[]), "");
    assert_eq!(text::to_lower_hex(&[0x00, 0x0f, 0xa9, 0xff]), "000fa9ff");
}

#[test]
fn joining_puts_separators_between() {
    let one = vec!["a".to_owned()];
    let three = vec!["a".to_owned(), String::new(), "c".to_owned()];
    assert_eq!(text::join(&[], ","), "");
    assert_eq!(text::join(&one, ","), "a");
    assert_eq!(text::join(&three, ", "), three.join(", "));
    assert_eq!(text::join_slices(&["x", "y"], "; "), "x; y");
}

#[test]
fn prefixes_suffixes_and_last_parts() {
    assert_eq!(text::strip_prefix("abc", "ab"), Some("c"));
    assert_eq!(text::strip_prefix("abc", "b"), None);
    assert_eq!(text::strip_prefix("a", "abc"), None);
    assert_eq!(text::strip_suffix("abc", "bc"), Some("a"));
    assert_eq!(text::strip_suffix("abc", "b"), None);
    assert_eq!(text::strip_suffix("c", "abc"), None);
    assert_eq!(text::after_last("GeoLite2-City", '-'), "City");
    assert_eq!(text::after_last("GeoLite2", '-'), "GeoLite2");
    assert_eq!(text::after_last("City-", '-'), "");
    assert_eq!(text::after_last("a-b-c", '-'), "c");
    assert!(text::list_has_ignoring_case(&["Ab".to_owned()], "aB"));
    assert!(!text::list_has_ignoring_case(&["Ab".to_owned()], "b"));
}
