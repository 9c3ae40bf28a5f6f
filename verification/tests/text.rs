use codex_napi::text::{char_is_space, chars_of, is_one_of, sort_unique, text_before};

#[test]
fn characters_come_in_order() {
    assert_eq!(chars_of("a\u{e9}\u{1f600}z"), vec!['a', '\u{e9}', '\u{1f600}', 'z']);
    assert_eq!(chars_of(""), Vec::<char>::new());
}

#[test]
fn white_space_is_the_unicode_property() {
    for c in [' ', '\t', '\n', '\r', '\u{0b}', '\u{0c}', '\u{85}', '\u{a0}', '\u{1680}', '\u{2000}', '\u{200a}', '\u{2028}', '\u{2029}', '\u{202f}', '\u{205f}', '\u{3000}'] {
        assert!(char_is_space(c));
    }
    for c in ['a', '0', '\u{0}', '\u{8}', '\u{e}', '\u{200b}', '\u{180e}', '\u{feff}'] {
        assert!(!char_is_space(c));
    }
    // Every character is judged as the standard library judges it.
    let mut code = 0u32;
    while code <= 0x3100 {
        if let Some(c) = char::from_u32(code) {
            assert_eq!(char_is_space(c), c.is_whitespace());
        }
        code += 1;
    }
}

#[test]
fn order_of_strings_is_by_first_difference() {
    let before = |a: &str, b: &str| text_before(&chars_of(a), &chars_of(b));
    assert!(before("", "a"));
    assert!(!before("", ""));
    assert!(!before("a", ""));
    assert!(before("a", "ab"));
    assert!(before("ab", "b"));
    assert!(before("Z", "a"));
    assert!(!before("same", "same"));
    assert!(before("z", "\u{e9}"));
    // The order is that of the standard library.
    let words = ["", "a", "A", "ab", "b", "\u{e9}", "z", "zz", "\u{1f600}"];
    for a in words {
        for b in words {
            assert_eq!(before(a, b), a < b);
        }
    }
}

#[test]
fn sorted_strings_are_ascending_and_unique() {
    let items = vec!["b".to_string(), "a".to_string(), "b".to_string(), "".to_string(), "a".to_string(), "ab".to_string()];
    assert_eq!(sort_unique(items), vec!["".to_string(), "a".to_string(), "ab".to_string(), "b".to_string()]);
    assert_eq!(sort_unique(Vec::new()), Vec::<String>::new());
}

#[test]
fn membership_goes_through_the_stops() {
    let stops = vec!['/', ':', '?', '#'];
    for c in ['/', ':', '?', '#'] {
        assert!(is_one_of(c, &stops));
    }
    assert!(!is_one_of('.', &stops));
    assert!(!is_one_of('/', &Vec::new()));
}
