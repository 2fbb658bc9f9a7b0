use netwatch::text::{chars_of, contains_str, is_whitespace, starts_with_str, trim};

#[test]
fn whitespace_agrees_with_std_on_every_char() {
    for u in 0u32..=0x10FFFF {
        if let Some(c) = char::from_u32(u) {
            assert_eq!(is_whitespace(c), c.is_whitespace(), "code point {:#x}", u);
        }
    }
}

#[test]
fn chars_of_keeps_every_character() {
    let s = "a\u{A0}b\u{1F600}c";
    assert_eq!(chars_of(s), s.chars().collect::<Vec<char>>());
    assert!(chars_of("").is_empty());
}

#[test]
fn contains_finds_substrings() {
    assert!(contains_str("history.com", "tor"));
    assert!(contains_str("tor", "tor"));
    assert!(!contains_str("to", "tor"));
    assert!(!contains_str("TOR", "tor"));
    assert!(contains_str("anything", ""));
    assert!(contains_str("", ""));
    assert!(contains_str("mail.ru", ".ru"));
    assert!(!contains_str("ru", ".ru"));
}

#[test]
fn starts_with_checks_prefixes() {
    assert!(starts_with_str("185.2.3.4", "185."));
    assert!(!starts_with_str("1185.2.3.4", "185."));
    assert!(!starts_with_str("185", "185."));
    assert!(starts_with_str("x", ""));
}

#[test]
fn trim_agrees_with_std() {
    for s in [
        "",
        " ",
        "bash\n",
        "  two words \t\r\n",
        "\u{3000}wide\u{2029}",
        "\u{85}x\u{A0}",
        "inner  space",
    ] {
        assert_eq!(trim(s), s.trim(), "input {:?}", s);
    }
}
