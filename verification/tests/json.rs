use edge_glow::json::{json_field, json_string};

#[test]
fn strings_are_escaped() {
    assert_eq!(json_string(""), "\"\"");
    assert_eq!(json_string("plain ✓"), "\"plain ✓\"");
    assert_eq!(
        json_string("\"\\\n\r\t\u{08}\u{0C}"),
        "\"\\\"\\\\\\n\\r\\t\\b\\f\""
    );
    assert_eq!(json_string("\u{0}\u{1b}\u{1f}"), "\"\\u0000\\u001b\\u001f\"");
    assert_eq!(json_string("\u{7f}\u{9f}\u{a0}"), "\"\\u007f\\u009f\u{a0}\"");
}

#[test]
fn fields_are_read() {
    let line = "{\"type\": \"answer\", \"text\": \"hi\"}\n";
    assert_eq!(json_field(line, "type"), Some("answer".to_string()));
    assert_eq!(json_field(line, "text"), Some("hi".to_string()));
    assert_eq!(json_field(line, "message"), None);
}

#[test]
fn escapes_are_decoded() {
    let line = "{\"text\":\"\\\"\\\\\\/\\b\\f\\n\\r\\t\\u0041\\u00e4\\x\"}";
    assert_eq!(
        json_field(line, "text"),
        Some("\"\\/\u{08}\u{0C}\n\r\tAäx".to_string())
    );
}

#[test]
fn code_units_may_have_capital_digits_or_a_plus_sign() {
    assert_eq!(json_field("\"k\":\"\\u00E4\"", "k"), Some("ä".to_string()));
    assert_eq!(json_field("\"k\":\"\\u+041\"", "k"), Some("A".to_string()));
    assert_eq!(json_field("\"k\":\"\\uFFFF\"", "k"), Some("\u{FFFF}".to_string()));
}

#[test]
fn code_units_agree_with_the_standard_library() {
    let digits = ['0', '9', 'a', 'f', 'A', 'F', 'g', 'G', '+', '-', ' ', 'D', '8', '٣'];
    for a in digits {
        for b in digits {
            for c in digits {
                for d in digits {
                    let code = format!("{a}{b}{c}{d}");
                    let expected = u16::from_str_radix(&code, 16).ok().map(|n| {
                        char::from_u32(n as u32).map(String::from).unwrap_or_default()
                    });
                    let line = format!("\"k\":\"\\u{code}\"");
                    assert_eq!(json_field(&line, "k"), expected, "{code}");
                }
            }
        }
    }
}

#[test]
fn surrogates_are_dropped() {
    assert_eq!(
        json_field("\"k\":\"a\\ud83d\\ude00b\"", "k"),
        Some("ab".to_string())
    );
    assert_eq!(
        json_field("\"k\":\"\\uD7FF\\uE000\"", "k"),
        Some("\u{D7FF}\u{E000}".to_string())
    );
}

#[test]
fn broken_fields_are_not_read() {
    assert_eq!(json_field("", "k"), None);
    assert_eq!(json_field("\"k\"", "k"), None);
    assert_eq!(json_field("\"k\":", "k"), None);
    assert_eq!(json_field("\"k\": 3", "k"), None);
    assert_eq!(json_field("\"k\":\"open", "k"), None);
    assert_eq!(json_field("\"k\":\"open\\", "k"), None);
    assert_eq!(json_field("\"k\":\"\\u12\"", "k"), None);
    assert_eq!(json_field("\"k\":\"\\u12x4\"", "k"), None);
    assert_eq!(json_field("\"k\":\"\\u", "k"), None);
    assert_eq!(json_field("k: \"v\"", "k"), None);
}

#[test]
fn the_first_place_of_the_key_counts() {
    assert_eq!(
        json_field("{\"a\":\"k\",\"k\":\"v\"}", "k"),
        Some("v".to_string())
    );
    assert_eq!(
        json_field("\"k\" junk :  \u{a0}\"v\", \"k\":\"w\"", "k"),
        Some("v".to_string())
    );
}

#[test]
fn every_string_is_read_back() {
    let mut all = String::new();
    for code in 0..0x500u32 {
        all.push(char::from_u32(code).unwrap());
    }
    all.push_str("\u{2028}😀\u{10FFFF}\"\\");
    for value in ["", "\"", "\\", "\\u0041", "a\"}", all.as_str()] {
        for key in ["type", "", "a\"b", "ключ"] {
            let line = format!("{{\"{key}\":{}, more\"}}", json_string(value));
            assert_eq!(json_field(&line, key), Some(value.to_string()));
            let spaced = format!("{{\"x\":1,\"{key}\" \t: \n{}", json_string(value));
            if key != "" {
                assert_eq!(json_field(&spaced, key), Some(value.to_string()));
            }
        }
    }
}

#[test]
fn literals_of_different_texts_differ() {
    assert_ne!(json_string("a\nb"), json_string("a\\nb"));
    assert_ne!(json_string("\u{1}"), json_string("\\u0001"));
    assert_ne!(json_string("a"), json_string("a\""));
}
