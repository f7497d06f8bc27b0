use markdown_includes::config::{
    count_entry, find, flag_entry, table_entry, text_entry, text_eq, ConfigError, ConfigValue,
};
use markdown_includes::text::{
    chars_of, ends_with, find_char_from, find_line_end, is_whitespace_char, join_strings,
    push_all, push_range, push_str, run_end_from, same_text, skip_whitespace_from, splice,
    split_at_char, starts_with, string_from, string_of, sub_vec, trimmed, trimmed_end, TextRange,
};

fn chars(text: &str) -> Vec<char> {
    text.chars().collect()
}

#[test]
fn white_space_is_what_unicode_says() {
    for c in ['\t', '\n', '\u{b}', '\u{c}', '\r', ' ', '\u{85}', '\u{a0}', '\u{1680}', '\u{2000}', '\u{200a}', '\u{2028}', '\u{2029}', '\u{202f}', '\u{205f}', '\u{3000}'] {
        assert!(is_whitespace_char(c));
    }
    for c in ['a', '#', '`', '\u{8}', '\u{e}', '\u{200b}', '\u{1f}', '\u{feff}'] {
        assert!(!is_whitespace_char(c));
    }
    for code in 0u32..0x3100 {
        if let Some(c) = char::from_u32(code) {
            assert_eq!(is_whitespace_char(c), c.is_whitespace());
        }
    }
}

#[test]
fn strings_and_their_characters() {
    assert_eq!(chars_of("h\u{e9}llo"), chars("h\u{e9}llo"));
    assert_eq!(chars_of(""), Vec::<char>::new());
    assert_eq!(string_from(&chars("h\u{e9}llo")), "h\u{e9}llo");
    assert_eq!(string_of(&chars("abcdef"), 2, 4), "cd");
    assert_eq!(string_of(&chars("abcdef"), 3, 3), "");
    assert_eq!(sub_vec(&chars("abcdef"), 0, 6), chars("abcdef"));
    let mut out = chars("x");
    push_range(&mut out, &chars("abcdef"), 1, 3);
    push_all(&mut out, &chars("yz"));
    push_str(&mut out, "\u{e9}!");
    assert_eq!(out, chars("xbcyz\u{e9}!"));
}

#[test]
fn beginnings_and_ends() {
    assert!(starts_with(&chars("```toml"), &chars("```")));
    assert!(starts_with(&chars("abc"), &chars("")));
    assert!(starts_with(&chars("abc"), &chars("abc")));
    assert!(!starts_with(&chars("ab"), &chars("abc")));
    assert!(!starts_with(&chars("abd"), &chars("abc")));
    assert!(ends_with(&chars("my toc"), &chars("toc")));
    assert!(ends_with(&chars("toc"), &chars("")));
    assert!(!ends_with(&chars("oc"), &chars("toc")));
    assert!(!ends_with(&chars("tocs"), &chars("toc")));
    assert!(same_text(&chars("abc"), &chars("abc")));
    assert!(!same_text(&chars("abc"), &chars("abd")));
    assert!(!same_text(&chars("abc"), &chars("ab")));
    assert!(text_eq("a\u{e9}", "a\u{e9}"));
    assert!(!text_eq("a", "b"));
}

#[test]
fn white_space_at_the_ends() {
    assert_eq!(skip_whitespace_from(&chars("  \t x "), 0), 4);
    assert_eq!(skip_whitespace_from(&chars("  \t x "), 5), 6);
    assert_eq!(skip_whitespace_from(&chars("   "), 1), 3);
    assert_eq!(trimmed_end(&chars(" x \r\n"), 5), 2);
    assert_eq!(trimmed_end(&chars(" x \r\n"), 1), 0);
    assert_eq!(trimmed_end(&chars("x"), 1), 1);
    assert_eq!(trimmed(&chars("\u{a0} a b \n")), chars("a b"));
    assert_eq!(trimmed(&chars("  ")), Vec::<char>::new());
    assert_eq!(trimmed(&chars("")), Vec::<char>::new());
}

#[test]
fn characters_in_a_text() {
    assert_eq!(find_char_from(&chars("a,b,c"), ',', 0), 1);
    assert_eq!(find_char_from(&chars("a,b,c"), ',', 2), 3);
    assert_eq!(find_char_from(&chars("a,b,c"), ',', 4), 5);
    assert_eq!(find_line_end(&chars("ab\ncd"), 0), 2);
    assert_eq!(find_line_end(&chars("ab\ncd"), 3), 5);
    assert_eq!(run_end_from(&chars("###x#"), '#', 0), 3);
    assert_eq!(run_end_from(&chars("###x#"), '#', 3), 3);
    assert_eq!(run_end_from(&chars("###"), '#', 1), 3);
    assert_eq!(
        split_at_char(&chars("a,,bc,"), ','),
        vec![
            TextRange { start: 0, end: 1 },
            TextRange { start: 2, end: 2 },
            TextRange { start: 3, end: 5 },
            TextRange { start: 6, end: 6 },
        ]
    );
    assert_eq!(split_at_char(&chars(""), ','), vec![TextRange { start: 0, end: 0 }]);
}

#[test]
fn joined_and_spliced_texts() {
    let parts = vec!["a".to_string(), "".to_string(), "bc".to_string()];
    assert_eq!(join_strings(&parts, ", "), "a, , bc");
    assert_eq!(join_strings(&Vec::new(), ", "), "");
    assert_eq!(join_strings(&vec!["x".to_string()], ", "), "x");
    let mut text = "h\u{e9}llo world".to_string();
    splice(&mut text, TextRange { start: 1, end: 5 }, "i");
    assert_eq!(text, "hi world");
    splice(&mut text, TextRange { start: 8, end: 8 }, "!");
    assert_eq!(text, "hi world!");
    splice(&mut text, TextRange { start: 0, end: 0 }, "");
    assert_eq!(text, "hi world!");
}

#[test]
fn values_of_a_table() {
    let entries = vec![
        ("name".to_string(), ConfigValue::Text("x".to_string())),
        ("count".to_string(), ConfigValue::Integer(7)),
        ("less".to_string(), ConfigValue::Integer(-7)),
        ("flag".to_string(), ConfigValue::Flag(true)),
        ("table".to_string(), ConfigValue::Table),
        ("other".to_string(), ConfigValue::Other),
        ("name".to_string(), ConfigValue::Integer(1)),
    ];
    assert!(matches!(find(&entries, "flag"), Some(ConfigValue::Flag(true))));
    assert!(matches!(find(&entries, "name"), Some(ConfigValue::Text(_))));
    assert!(find(&entries, "absent").is_none());
    assert_eq!(text_entry(&entries, "name").unwrap(), Some("x".to_string()));
    assert_eq!(text_entry(&entries, "absent").unwrap(), None);
    assert!(matches!(text_entry(&entries, "count"), Err(ConfigError::Invalid(key)) if key == "count"));
    assert_eq!(count_entry(&entries, "count").unwrap(), Some(7));
    assert_eq!(count_entry(&entries, "absent").unwrap(), None);
    assert!(matches!(count_entry(&entries, "less"), Err(ConfigError::Invalid(key)) if key == "less"));
    assert!(matches!(count_entry(&entries, "name"), Err(ConfigError::Invalid(_))));
    assert_eq!(flag_entry(&entries, "flag").unwrap(), Some(true));
    assert_eq!(flag_entry(&entries, "absent").unwrap(), None);
    assert!(matches!(flag_entry(&entries, "other"), Err(ConfigError::Invalid(_))));
    assert!(table_entry(&entries, "table").unwrap());
    assert!(!table_entry(&entries, "absent").unwrap());
    assert!(matches!(table_entry(&entries, "flag"), Err(ConfigError::Invalid(_))));
}
