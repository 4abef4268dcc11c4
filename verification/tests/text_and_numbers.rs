use vm_curator_gtk::numbers::{decimal_text, hex4_text, parse_number, parse_u16, parse_u32};
use vm_curator_gtk::text::{
    beside, chars_of, contains, find_char, has_prefix, holds_text, indent_of, is_blank, joined_texts,
    lines_of, lowered_matches, pieces_of, same_text, space, string_of, trimmed, wrap,
};

fn lines(s: &str) -> Vec<String> {
    lines_of(&chars_of(s)).iter().map(|l| l.iter().collect()).collect()
}

fn pieces(s: &str, sep: char) -> Vec<String> {
    pieces_of(&chars_of(s), sep).iter().map(|l| l.iter().collect()).collect()
}

#[test]
fn white_space_is_that_of_char() {
    let mut code: u32 = 0;
    while code <= 0x10ffff {
        if let Some(c) = char::from_u32(code) {
            assert_eq!(space(c), c.is_whitespace(), "{code:x}");
        }
        code += 1;
    }
}

#[test]
fn lines_are_those_of_str() {
    for s in ["", "\n", "a", "a\n", "a\nb", "a\r\nb\r\n", "a\r\r\nb\r", "\r\n\r\n", "\n\na", "x\ry\n"] {
        let expected: Vec<String> = s.lines().map(|l| l.to_string()).collect();
        assert_eq!(lines(s), expected, "{s:?}");
    }
}

#[test]
fn pieces_are_those_of_split() {
    for s in ["", ",", "a", "a,b", ",a,,b,", "gtk,gl=on,full-screen=on", "ä,→"] {
        let expected: Vec<String> = s.split(',').map(|l| l.to_string()).collect();
        assert_eq!(pieces(s, ','), expected, "{s:?}");
    }
}

#[test]
fn trimming_is_that_of_str() {
    for s in ["", " ", "a", " a ", "\t\u{a0}a b\u{2003}\n", "\u{3000}", "→ x"] {
        assert_eq!(trimmed(s), s.trim(), "{s:?}");
        assert_eq!(is_blank(s), s.trim().is_empty(), "{s:?}");
    }
    assert_eq!(indent_of(&chars_of("  \tx ")), 3);
    assert_eq!(indent_of(&chars_of("   ")), 3);
}

#[test]
fn searching_is_that_of_str() {
    for s in ["", "a", "abab", "xabab", "spice.sock", "ähä"] {
        for part in ["", "a", "ab", "bab", "babx", "ä", "spice.sock"] {
            assert_eq!(contains(s, part), s.contains(part), "{s:?} {part:?}");
            assert_eq!(has_prefix(s, part), s.starts_with(part), "{s:?} {part:?}");
            assert_eq!(lowered_matches(s, part), s.contains(part), "{s:?} {part:?}");
        }
    }
    assert_eq!(find_char(&chars_of("a,b"), ',', 0), 1);
    assert_eq!(find_char(&chars_of("a,b"), ',', 2), 3);
}

#[test]
fn texts_are_put_together() {
    assert_eq!(beside("a", "b"), "ab");
    assert_eq!(wrap("<", "b", ">"), "<b>");
    assert_eq!(string_of(&chars_of("ä→xy"), 1, 3), "→x");
    let parts = vec!["a".to_string(), "".to_string(), "c".to_string()];
    assert_eq!(joined_texts(&parts, "\n• "), parts.join("\n• "));
    assert_eq!(joined_texts(&Vec::new(), ", "), "");
    assert!(same_text("äb", "äb"));
    assert!(!same_text("äb", "a"));
    assert!(!same_text("ab", "ac"));
    assert!(holds_text(&parts, ""));
    assert!(!holds_text(&parts, "b"));
}

#[test]
fn numbers_are_written_as_std_writes_them() {
    for n in [0u64, 1, 9, 10, 42, 99, 100, 65535, 4294967295, u64::MAX] {
        assert_eq!(decimal_text(n), n.to_string());
    }
    for n in [0u16, 1, 15, 16, 0x1d6b, 0x046d, 0xffff] {
        assert_eq!(hex4_text(n), format!("{n:04x}"));
    }
}

#[test]
fn numbers_are_read_as_std_reads_them() {
    for s in [
        "", "+", "-", "0", "00", "+0", "-0", "1", "+1", "++1", " 1", "1 ", "12x", "65535", "65536",
        "4294967295", "4294967296", "00000000000000000000000007", "99999999999999999999", "１", "1.0",
    ] {
        assert_eq!(parse_u32(s), s.parse::<u32>().ok(), "{s:?}");
        assert_eq!(parse_u16(s), s.parse::<u16>().ok(), "{s:?}");
    }
    assert_eq!(parse_number("255", 255), Some(255));
    assert_eq!(parse_number("256", 255), None);
}

#[test]
fn written_numbers_read_back() {
    for n in [0u32, 7, 2048, 65536, u32::MAX] {
        assert_eq!(parse_u32(&decimal_text(n as u64)), Some(n));
    }
    assert_ne!(hex4_text(0x12), hex4_text(0x1200));
}
