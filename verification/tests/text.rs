use crosshair::text::{find_char, is_whitespace, parse_usize, skip_white_space, token_end, trim_bounds};

fn chars(s: &str) -> Vec<char> {
    s.chars().collect()
}

#[test]
fn white_space_matches_unicode() {
    for c in ['\t', '\n', '\u{b}', '\u{c}', '\r', ' ', '\u{85}', '\u{a0}', '\u{1680}', '\u{2000}', '\u{200a}', '\u{2028}', '\u{2029}', '\u{202f}', '\u{205f}', '\u{3000}'] {
        assert!(is_whitespace(c));
        assert!(c.is_whitespace());
    }
    for c in ['a', '0', '\u{200b}', '\u{feff}', '\u{180e}', '\0', '\u{fffd}'] {
        assert_eq!(is_whitespace(c), c.is_whitespace());
    }
}

#[test]
fn white_space_agrees_with_std_everywhere() {
    for u in 0u32..0x3100 {
        if let Some(c) = char::from_u32(u) {
            assert_eq!(is_whitespace(c), c.is_whitespace(), "U+{:04X}", u);
        }
    }
}

#[test]
fn numbers_parse_like_std() {
    for text in ["0", "42", "+7", "007", "", "+", "-1", " 1", "1 ", "12a", "++1", "18446744073709551615", "18446744073709551616"] {
        let cs = chars(text);
        assert_eq!(parse_usize(&cs, 0, cs.len()), text.parse::<usize>().ok(), "{:?}", text);
    }
}

#[test]
fn numbers_parse_within_bounds() {
    let cs = chars("ab123cd");
    assert_eq!(parse_usize(&cs, 2, 5), Some(123));
    assert_eq!(parse_usize(&cs, 2, 2), None);
}

#[test]
fn trimming_matches_std() {
    for text in ["  a b  ", "", "   ", "x", "\u{3000}mid\u{a0}", "\t\r\n5\r"] {
        let cs = chars(text);
        let (a, b) = trim_bounds(&cs, 0, cs.len());
        let got: String = cs[a..b].iter().collect();
        assert_eq!(got, text.trim());
    }
}

#[test]
fn words_and_gaps() {
    let cs = chars("  GET   /path  HTTP/1.1");
    let a = skip_white_space(&cs, 0, cs.len());
    assert_eq!(a, 2);
    let k = token_end(&cs, a, cs.len());
    assert_eq!(k, 5);
    let b = skip_white_space(&cs, k, cs.len());
    assert_eq!(b, 8);
    assert_eq!(token_end(&cs, b, cs.len()), 13);
}

#[test]
fn characters_are_found_or_not() {
    let cs = chars("a:b:c");
    assert_eq!(find_char(&cs, 0, cs.len(), ':'), 1);
    assert_eq!(find_char(&cs, 2, cs.len(), ':'), 3);
    assert_eq!(find_char(&cs, 4, cs.len(), ':'), 5);
    assert_eq!(find_char(&cs, 0, 1, ':'), 1);
}
