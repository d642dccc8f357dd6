use btd::text::{char_is_white_space, clean_json_string, concat_chunks, is_blank};

#[test]
fn clean_joins_trimmed_lines() {
    let reply = "  {\n    \"steps\": [\n        {\n            \"content\": \"Write intro\"\n        }\n    ]\n}\n\n";
    assert_eq!(
        clean_json_string(reply),
        "{\"steps\": [{\"content\": \"Write intro\"}]}"
    );
}

#[test]
fn clean_drops_blank_lines_and_carriage_returns() {
    assert_eq!(clean_json_string("a\r\n\r\n  \t \n b c \r\n"), "ab c");
}

#[test]
fn clean_keeps_inner_spaces() {
    assert_eq!(clean_json_string("   one  two   "), "one  two");
}

#[test]
fn clean_of_blank_is_empty() {
    assert_eq!(clean_json_string(""), "");
    assert_eq!(clean_json_string(" \n\t\r\n  \u{3000}\u{a0}"), "");
}

#[test]
fn clean_trims_unicode_whitespace() {
    assert_eq!(clean_json_string("\u{2003}x\u{85}\n\u{3000}y\u{205f}"), "xy");
    assert_eq!(clean_json_string("é\n ü "), "éü");
}

#[test]
fn clean_is_idempotent() {
    let inputs = ["  a \n b\n\n c ", "", "x", " {\n\"k\": 1\n} \r\n", "\u{a0}z\u{2028}"];
    for s in inputs.iter() {
        let once = clean_json_string(s);
        assert_eq!(clean_json_string(&once), once);
        assert!(!once.contains('\n'));
        assert_eq!(once.trim(), once);
    }
}

#[test]
fn clean_agrees_with_std_chain() {
    let inputs = ["  a \n b\n\n c ", "\r\n\r\n", "x\ny", " {\n\"k\": [1,\n 2]\n} \r\n", "\u{1680}p\u{200a}q\u{2029}"];
    for s in inputs.iter() {
        let expected = s
            .trim()
            .lines()
            .map(|line| line.trim())
            .filter(|line| !line.is_empty())
            .collect::<Vec<_>>()
            .join("");
        assert_eq!(clean_json_string(s), expected);
    }
}

#[test]
fn blank_detection() {
    assert!(is_blank(""));
    assert!(is_blank(" \t\n\u{3000}"));
    assert!(!is_blank("  a "));
}

#[test]
fn white_space_matches_std() {
    for u in 0u32..0x3100 {
        if let Some(c) = char::from_u32(u) {
            assert_eq!(char_is_white_space(c), c.is_whitespace(), "code point {:x}", u);
        }
    }
    assert!(!char_is_white_space('\u{10ffff}'));
}

#[test]
fn concat_chunks_joins_in_order() {
    let chunks = vec!["{\"st".to_string(), String::new(), "eps\": []}".to_string()];
    assert_eq!(concat_chunks(&chunks), "{\"steps\": []}");
    assert_eq!(concat_chunks(&Vec::new()), "");
}
