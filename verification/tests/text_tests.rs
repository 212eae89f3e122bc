use voice2prompt::doctor::which_path;
use voice2prompt::protocol::parse_command;
use voice2prompt::text::{concat_str, is_whitespace_char, join, starts_with, str_eq, trim_str};

#[test]
fn trim_removes_ascii_whitespace() {
    assert_eq!(trim_str("  hello world \n\t"), "hello world");
}

#[test]
fn trim_of_only_whitespace_is_empty() {
    assert_eq!(trim_str(" \r\n\t "), "");
    assert_eq!(trim_str(""), "");
}

#[test]
fn trim_removes_unicode_whitespace() {
    assert_eq!(trim_str("\u{3000}bonjour\u{85}\u{a0}"), "bonjour");
    assert_eq!(trim_str("\u{2009}x\u{202f}"), "x");
}

#[test]
fn trim_keeps_inner_whitespace_and_other_characters() {
    assert_eq!(trim_str(" a  b "), "a  b");
    assert_eq!(trim_str("\u{200b}x\u{200b}"), "\u{200b}x\u{200b}");
}

#[test]
fn trim_agrees_with_std_trim() {
    let samples = [
        "", " ", "a", " a", "a ", "\t\na b\r\n", "\u{1680}z\u{2028}", "\u{feff}k", "é ", " 黑风雷 ",
        "\u{b}\u{c}v\u{d}", "\u{2000}\u{200a}", "x\u{205f}y",
    ];
    for s in samples.iter() {
        assert_eq!(trim_str(s), s.trim());
    }
}

#[test]
fn whitespace_char_agrees_with_std() {
    for u in 0u32..0x3100 {
        if let Some(c) = char::from_u32(u) {
            assert_eq!(is_whitespace_char(c), c.is_whitespace(), "{:x}", u);
        }
    }
}

#[test]
fn str_eq_compares_characters() {
    assert!(str_eq("START", "START"));
    assert!(!str_eq("START", "STOP"));
    assert!(!str_eq("STAR", "START"));
    assert!(str_eq("", ""));
}

#[test]
fn starts_with_checks_prefix() {
    assert!(starts_with("event3", "event"));
    assert!(starts_with("event", "event"));
    assert!(!starts_with("even", "event"));
    assert!(!starts_with("mouse0", "event"));
    assert!(starts_with("x", ""));
}

#[test]
fn concat_appends() {
    assert_eq!(concat_str("ab", "cd"), "abcd");
}

#[test]
fn join_puts_separator_between_neighbours() {
    let parts = vec!["a".to_string(), "b".to_string(), "c".to_string()];
    assert_eq!(join(&parts, ", "), "a, b, c");
    assert_eq!(join(&vec!["only".to_string()], ", "), "only");
    assert_eq!(join(&Vec::new(), ", "), "");
}

#[test]
fn lossy_decoding_replaces_invalid_bytes() {
    assert_eq!(which_path(b"ok"), Some("ok".to_string()));
    assert_eq!(which_path(&[0x66, 0xff, 0x6f]), Some("f\u{fffd}o".to_string()));
    assert_eq!(which_path("é".as_bytes()), Some("é".to_string()));
    assert_eq!(parse_command("\u{fffd}"), None);
}
