use coraldesk::json::{
    member, nested_str_field, number_member, str_field, text_member, u64_field, write_list,
    write_object,
};
use coraldesk::text::{
    ascii_lowercase, at_most, chars_of, contains_text, decimal_text, ends_with, is_blank, join,
    lines, replace_char, same_text, shorten, starts_with, string_of, strip_prefix, trim,
    trim_end_of, white_space,
};

const SAMPLES: [&str; 14] = [
    "",
    " ",
    "a",
    "A",
    "ab",
    "abc",
    "b",
    "\u{e9}",
    "z\u{e9}",
    "\u{ffff}",
    "\u{10000}",
    "\r\n",
    "a\nb\r\n\nc\r",
    "\u{3000} x \u{2028}",
];

#[test]
fn white_space_is_that_of_unicode() {
    for code in 0..=0x10ffff {
        if let Some(c) = char::from_u32(code) {
            assert_eq!(white_space(c), c.is_whitespace(), "{code:x}");
        }
    }
}

#[test]
fn texts_are_compared_as_std_compares_them() {
    for left in SAMPLES {
        for right in SAMPLES {
            assert_eq!(at_most(left, right), left <= right);
            assert_eq!(same_text(left, right), left == right);
            assert_eq!(starts_with(left, right), left.starts_with(right));
            assert_eq!(ends_with(left, right), left.ends_with(right));
            assert_eq!(contains_text(left, right), left.contains(right));
            assert_eq!(
                strip_prefix(left, right).as_deref(),
                left.strip_prefix(right)
            );
        }
    }
}

#[test]
fn texts_are_taken_apart_as_std_does() {
    for text in SAMPLES {
        assert_eq!(trim(text), text.trim());
        assert_eq!(is_blank(text), text.trim().is_empty());
        assert_eq!(lines(text), text.lines().collect::<Vec<_>>());
        assert_eq!(ascii_lowercase(text), text.to_ascii_lowercase());
        assert_eq!(replace_char(text, 'a', '\\'), text.replace('a', "\\"));
        assert_eq!(trim_end_of(text, 'b'), text.trim_end_matches('b'));
        let chars = chars_of(text);
        assert_eq!(chars, text.chars().collect::<Vec<_>>());
        assert_eq!(string_of(&chars, 0, chars.len()), text);
    }
    assert_eq!(trim_end_of("a..", '.'), "a");
    assert_eq!(ascii_lowercase("\u{c9}Z"), "\u{c9}z");
}

#[test]
fn numbers_are_written_in_decimal() {
    for n in [0, 9, 10, 99, 100, 65535, u64::MAX] {
        assert_eq!(decimal_text(n), n.to_string());
    }
}

#[test]
fn texts_are_joined_and_shortened() {
    let parts: Vec<String> = vec!["a".into(), "".into(), "b".into()];
    assert_eq!(join(&parts, ", "), "a, , b");
    assert_eq!(join(&Vec::new(), ", "), "");
    assert_eq!(shorten("abc", 3), "abc");
    assert_eq!(shorten("abcd", 3), "abc...");
    assert_eq!(shorten("a\u{e9}b", 3), "a\u{e9}...");
}

#[test]
fn json_is_written_as_serde_json_writes_it() {
    for text in SAMPLES {
        let written = write_object(&vec![text_member("k", text)]);
        let parsed: serde_json::Value = serde_json::from_str(&written).unwrap();
        assert_eq!(parsed["k"], text);
        assert_eq!(parsed.to_string(), written);
    }
    let controls: String = (0u8..=127).map(char::from).collect();
    let written = write_object(&vec![text_member("k", &controls)]);
    let parsed: serde_json::Value = serde_json::from_str(&written).unwrap();
    assert_eq!(parsed["k"], controls);
    assert_eq!(parsed.to_string(), written);
    assert!(written.contains("\\u0001") && written.contains("\\u001f"));
}

#[test]
fn json_lists_and_objects() {
    assert_eq!(write_object(&Vec::new()), "{}");
    assert_eq!(write_list(&Vec::new()), "[]");
    let list = write_list(&vec!["1".to_string(), "true".to_string()]);
    assert_eq!(list, "[1,true]");
    let object = write_object(&vec![member("a", list), number_member("b", 7)]);
    assert_eq!(object, "{\"a\":[1,true],\"b\":7}");
}

#[test]
fn fields_are_read_out_of_json() {
    let value: serde_json::Value = serde_json::from_str(
        r#"{"s": "a\n\u00e9", "n": 7, "big": 18446744073709551615, "neg": -1, "f": 7.0, "o": {"s": "in"}}"#,
    )
    .unwrap();
    assert_eq!(str_field(&value, "s").as_deref(), Some("a\n\u{e9}"));
    assert_eq!(str_field(&value, "n"), None);
    assert_eq!(str_field(&value, "o"), None);
    assert_eq!(str_field(&value, "none"), None);
    assert_eq!(u64_field(&value, "n"), Some(7));
    assert_eq!(u64_field(&value, "big"), Some(u64::MAX));
    assert_eq!(u64_field(&value, "neg"), None);
    assert_eq!(u64_field(&value, "f"), None);
    assert_eq!(u64_field(&value, "s"), None);
    let bytes = value.to_string().into_bytes();
    assert_eq!(nested_str_field(&bytes, "o", "s").as_deref(), Some("in"));
    assert_eq!(nested_str_field(&bytes, "s", "s"), None);
    assert_eq!(nested_str_field(&bytes, "x", "s"), None);
    assert_eq!(nested_str_field(b"{", "o", "s"), None);
}
