use aerie::text::{
    chars_of, concat3, find_char, last_path_segment_of, same_text, split_once_char,
    starts_with_text, strip_prefix_text, trim_text,
};

#[test]
fn trims_whitespace_at_both_ends() {
    assert_eq!(trim_text("  \t hello world \n"), "hello world");
    assert_eq!(trim_text("   "), "");
    assert_eq!(trim_text("x"), "x");
}

#[test]
fn splits_once_at_first_delimiter() {
    assert_eq!(split_once_char("a=b=c", '='), Some(("a", "b=c")));
    assert_eq!(split_once_char("abc", '='), None);
    assert_eq!(split_once_char("=x", '='), Some(("", "x")));
}

#[test]
fn finds_first_character() {
    assert_eq!(find_char("hello", 'l'), 2);
    assert_eq!(find_char("hello", 'z'), 5);
}

#[test]
fn prefixes() {
    assert!(starts_with_text("file:///tmp/a.png", "file://"));
    assert!(!starts_with_text("fil", "file://"));
    assert_eq!(strip_prefix_text("file:///tmp/a.png", "file://"), Some("/tmp/a.png"));
    assert_eq!(strip_prefix_text("/tmp/a.png", "file://"), None);
}

#[test]
fn last_path_segment_takes_text_after_last_separator() {
    assert_eq!(last_path_segment_of("aerie::workflow::nodes::Start"), "Start");
    assert_eq!(last_path_segment_of("Start"), "Start");
    assert_eq!(last_path_segment_of("a::"), "");
    assert_eq!(last_path_segment_of("a:b::c"), "c");
}

#[test]
fn joins_and_compares_text() {
    assert_eq!(aerie::text::concat("ab", "cd"), "abcd");
    assert_eq!(concat3("a", "/", "b"), "a/b");
    assert!(same_text("abc", "abc"));
    assert!(!same_text("abc", "abd"));
    assert_eq!(chars_of("héllo"), vec!['h', 'é', 'l', 'l', 'o']);
}

#[test]
fn trims_unicode_white_space_only() {
    assert_eq!(trim_text("\u{3000}\u{a0}x\u{85}\u{2029}"), "x");
    assert_eq!(trim_text("\u{1c}x"), "\u{1c}x");
    assert_eq!(trim_text("\u{200b}x"), "\u{200b}x");
}

#[test]
fn white_space_is_what_std_says() {
    for code in 0u32..0x3100 {
        if let Some(c) = char::from_u32(code) {
            assert_eq!(aerie::text::char_is_whitespace(c), c.is_whitespace(), "{code:x}");
        }
    }
    assert!(!aerie::text::char_is_whitespace('\u{feff}'));
}

#[test]
fn merging_pairs_keeps_the_last_value_in_name_order() {
    let pairs = vec![
        ("b".to_string(), "1".to_string()),
        ("a".to_string(), "2".to_string()),
        ("b".to_string(), "3".to_string()),
        ("ab".to_string(), "4".to_string()),
    ];
    assert_eq!(
        aerie::text::merge_last_wins(&pairs),
        vec![
            ("a".to_string(), "2".to_string()),
            ("ab".to_string(), "4".to_string()),
            ("b".to_string(), "3".to_string()),
        ]
    );
}
