use edge_glow::text::{
    chars_of, cut_at, ends_with, find, is_ascii_digit, is_control, is_whitespace, join_from, same,
    split_whitespace, starts_with, to_lowercase, trim, trim_end_matches, trim_start_matches,
};

#[test]
fn character_classes_agree_with_the_standard_library() {
    for code in 0..=0x10FFFFu32 {
        if let Some(c) = char::from_u32(code) {
            assert_eq!(is_whitespace(c), c.is_whitespace(), "white space {code:x}");
            assert_eq!(is_control(c), c.is_control(), "control {code:x}");
            assert_eq!(is_ascii_digit(c), c.is_ascii_digit(), "digit {code:x}");
        }
    }
}

#[test]
fn comparing() {
    assert!(same("", ""));
    assert!(same("größe", "größe"));
    assert!(!same("a", "b"));
    assert!(!same("a", "ab"));
    assert!(starts_with("größe", "grö"));
    assert!(starts_with("a", ""));
    assert!(!starts_with("gr", "grö"));
    assert!(!starts_with("xa", "a"));
    assert!(ends_with("llama3 - installed", "- installed"));
    assert!(ends_with("a", ""));
    assert!(!ends_with("installed", "- installed"));
}

#[test]
fn trimming_agrees_with_the_standard_library() {
    for s in [
        "", " ", "a", " a", "a ", " a b ", "\t\n a\u{3000}", "\u{2009}x\u{85}", "a\u{200B} ",
        "\u{A0}\u{A0}", "no space", "  /model   gemma  ",
    ] {
        assert_eq!(trim(s), s.trim());
        let words: Vec<&str> = s.split_whitespace().collect();
        assert_eq!(split_whitespace(s), words);
    }
}

#[test]
fn removing_prefixes_and_suffixes() {
    assert_eq!(trim_start_matches("ollama:ollama:x", "ollama:"), "x");
    assert_eq!(trim_start_matches("xollama:", "ollama:"), "xollama:");
    assert_eq!(trim_start_matches("ollama:", "ollama:"), "");
    assert_eq!(trim_start_matches("abc", ""), "abc");
    assert_eq!(trim_end_matches("m - installed- installed", "- installed"), "m ");
    assert_eq!(trim_end_matches("m", "- installed"), "m");
    assert_eq!(trim_end_matches("abc", ""), "abc");
}

#[test]
fn searching() {
    let text = chars_of("äabab");
    assert_eq!(find(&text, &chars_of("ab")), Some(1));
    assert_eq!(find(&text, &chars_of("bab")), Some(2));
    assert_eq!(find(&text, &chars_of("")), Some(0));
    assert_eq!(find(&text, &chars_of("abc")), None);
    assert_eq!(find(&text, &chars_of("äababä")), None);
    assert_eq!(cut_at("llama3 - installed", ' '), "llama3");
    assert_eq!(cut_at("llama3", ' '), "llama3");
    assert_eq!(cut_at(" x", ' '), "");
}

#[test]
fn joining() {
    let words = vec!["/model".to_string(), "a".to_string(), "b".to_string()];
    assert_eq!(join_from(&words, 0, " "), "/model a b");
    assert_eq!(join_from(&words, 1, " "), "a b");
    assert_eq!(join_from(&words, 2, " "), "b");
    assert_eq!(join_from(&words, 3, " "), "");
}

#[test]
fn small_letters() {
    assert_eq!(to_lowercase("GooGLE @[Z`{2"), "google @[z`{2");
    assert_eq!(to_lowercase(""), "");
    assert_eq!(to_lowercase("ÄΣ"), "äς");
}
