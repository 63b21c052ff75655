use geolibre_desktop::json::to_json_literal;
use geolibre_desktop::numbers::{parse_i32, parse_i64, to_decimal, to_hex, to_port_hex};
use geolibre_desktop::split::{
    joined, split_at_any, split_words, text_after_last, text_before_last,
};
use geolibre_desktop::text::{
    chained, count_char, has_char, has_prefix, has_suffix, has_text, is_before, is_white_space,
    replaced, same_ignoring_case, to_lower, to_upper, trimmed, trimmed_start, without_prefix,
    without_suffix,
};

#[test]
fn white_space_is_what_unicode_says() {
    let mut code: u32 = 0;
    while code <= 0x10ffff {
        if let Some(c) = char::from_u32(code) {
            assert_eq!(is_white_space(c), c.is_whitespace(), "{code:x}");
        }
        code += 1;
    }
}

#[test]
fn trimming_takes_white_space_from_both_ends() {
    assert_eq!(trimmed(" \u{3000}a b\t\n"), "a b");
    assert_eq!(trimmed("a"), "a");
    assert_eq!(trimmed(" \n "), "");
    assert_eq!(trimmed(&trimmed("  x  ")), trimmed("  x  "));
    assert_eq!(trimmed_start(" \u{a0}a "), "a ");
}

#[test]
fn texts_are_searched_by_characters() {
    assert!(has_prefix("straße", "str"));
    assert!(!has_prefix("st", "str"));
    assert!(has_suffix("straße", "ße"));
    assert!(has_text("straße", "aß"));
    assert!(has_text("abc", ""));
    assert!(!has_text("ab", "abc"));
    assert!(has_char("a:b", ':'));
    assert!(!has_char("ab", ':'));
    assert_eq!(count_char("a/b/c", '/'), 2);
    assert_eq!(without_prefix("socket:[1]", "socket:["), Some("1]".to_string()));
    assert_eq!(without_prefix("pipe:[1]", "socket:["), None);
    assert_eq!(without_suffix("a/plugin.json", "plugin.json"), Some("a/".to_string()));
    assert_eq!(without_suffix("a/plugin", "plugin.json"), None);
    assert_eq!(chained("a", "b"), "ab");
}

#[test]
fn only_ascii_letters_change_their_case() {
    assert_eq!(to_lower("AbÄZ"), "abÄz");
    assert_eq!(to_upper("aBäz@[`{"), "ABäZ@[`{");
    assert!(same_ignoring_case("OGC_FID", "ogc_fid"));
    assert!(!same_ignoring_case("Ä", "ä"));
}

#[test]
fn texts_are_ordered_like_strings() {
    for left in ["", "a", "ab", "b", "ä", "\u{10000}", "\u{ffff}"] {
        for right in ["", "a", "ab", "b", "ä", "\u{10000}", "\u{ffff}"] {
            assert_eq!(is_before(left, right), left < right);
            if left != right {
                assert_ne!(is_before(left, right), is_before(right, left));
            }
        }
    }
}

#[test]
fn replacing_a_character_leaves_the_rest() {
    assert_eq!(replaced("a\\b\\", '\\', "/"), "a/b/");
    assert_eq!(replaced("'", '\'', "''"), "''");
    assert_eq!(replaced("", 'x', "y"), "");
}

#[test]
fn splitting_and_joining_are_inverse() {
    for text in ["", "/", "a", "a/b", "/a//b/", "a\\b/c"] {
        let parts = split_at_any(text, &vec!['/']);
        assert_eq!(parts, text.split('/').map(|part| part.to_string()).collect::<Vec<_>>());
        assert_eq!(joined(&parts, "/"), text);
        for part in &parts {
            assert!(!part.contains('/'));
        }
    }
    assert_eq!(split_at_any("a\\b/c", &vec!['/', '\\']), vec!["a", "b", "c"]);
    assert_eq!(joined(&vec![], ","), "");
}

#[test]
fn words_are_between_white_space() {
    assert_eq!(split_words("  a \t b\u{2003}c\n"), vec!["a", "b", "c"]);
    assert_eq!(split_words(" \r\n"), Vec::<String>::new());
}

#[test]
fn the_last_separator_divides() {
    assert_eq!(text_after_last("a.b.c", '.'), Some("c".to_string()));
    assert_eq!(text_before_last("a.b.c", '.'), Some("a.b".to_string()));
    assert_eq!(text_after_last("abc", '.'), None);
    assert_eq!(text_before_last("abc", '.'), None);
    assert_eq!(text_after_last("abc.", '.'), Some(String::new()));
}

#[test]
fn integers_read_like_the_standard_library_reads_them() {
    for text in [
        "0",
        "-0",
        "+7",
        "007",
        "9223372036854775807",
        "9223372036854775808",
        "-9223372036854775808",
        "-9223372036854775809",
        "2147483647",
        "2147483648",
        "-2147483648",
        "-2147483649",
        "99999999999999999999999",
        "",
        "-",
        "+",
        "+-1",
        " 1",
        "1 ",
        "1a",
        "a",
        "1.0",
        "\u{661}",
    ] {
        assert_eq!(parse_i64(text), text.parse::<i64>().ok(), "{text}");
        assert_eq!(parse_i32(text), text.parse::<i32>().ok(), "{text}");
    }
}

#[test]
fn numbers_are_written_like_the_standard_library_writes_them() {
    for number in [0, 1, 9, 10, 99, 100, 8765, u64::MAX] {
        assert_eq!(to_decimal(number), number.to_string());
        assert_eq!(to_decimal(number).parse::<u64>().ok(), Some(number));
    }
    assert_eq!(to_hex(&[0, 1, 0x9a, 0xff]), "00019aff");
    assert_eq!(to_hex(&[]), "");
    assert_ne!(to_hex(&[0x10]), to_hex(&[0x01]));
    assert_eq!(to_port_hex(8765), "223D");
    assert_eq!(to_port_hex(80), "0050");
    assert_eq!(to_port_hex(65535), "FFFF");
}

#[test]
fn json_literals_escape_quotes_and_control_characters() {
    assert_eq!(to_json_literal("plain/ä\u{7f}"), "\"plain/ä\u{7f}\"");
    assert_eq!(to_json_literal("a\"b\\c"), "\"a\\\"b\\\\c\"");
    assert_eq!(to_json_literal("\u{8}\t\n\u{c}\r"), "\"\\b\\t\\n\\f\\r\"");
    let mut code: u8 = 0;
    while code < 0x20 {
        let c = code as char;
        let literal = to_json_literal(&c.to_string());
        if !"\u{8}\t\n\u{c}\r".contains(c) {
            assert_eq!(literal, format!("\"\\u{:04x}\"", code));
        }
        let value: serde_json::Value = serde_json::from_str(&literal).unwrap();
        assert_eq!(value.as_str(), Some(c.to_string().as_str()));
        code += 1;
    }
}
