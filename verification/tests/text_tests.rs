use voxel_core::text::{
    all_printable, display_or_placeholder, focus_marker, is_blank, is_printable_char,
    is_whitespace, parse_u16, trim, write_decimal,
};

#[test]
fn printable_characters() {
    assert!(is_printable_char('a'));
    assert!(is_printable_char(' '));
    assert!(is_printable_char('é'));
    assert!(!is_printable_char('\n'));
    assert!(!is_printable_char('\u{7f}'));
    assert!(!is_printable_char('\u{e000}'));
    assert!(!is_printable_char('\u{f8ff}'));
    assert!(is_printable_char('\u{f900}'));
    assert!(!is_printable_char('\u{10fffd}'));
    assert!(all_printable("hello world"));
    assert!(!all_printable("bad\tinput"));
    assert!(all_printable(""));
}

#[test]
fn whitespace_matches_std() {
    for c in ['\t', '\n', '\r', ' ', '\u{85}', '\u{a0}', '\u{2003}', '\u{3000}', 'a', '\u{200b}', '\u{feff}'] {
        assert_eq!(is_whitespace(c), c.is_whitespace());
    }
}

#[test]
fn trimming() {
    assert_eq!(trim("  hi there \t"), "hi there");
    assert_eq!(trim("   "), "");
    assert_eq!(trim(""), "");
    assert_eq!(trim("\u{3000}x\u{a0}"), "x");
    assert!(is_blank(" \n\t "));
    assert!(!is_blank(" a "));
}

#[test]
fn placeholder_for_blank_values() {
    assert_eq!(display_or_placeholder("", "Player"), "Player");
    assert_eq!(display_or_placeholder("   ", "Player"), "Player");
    assert_eq!(display_or_placeholder(" Steve ", "Player"), " Steve ");
    assert_eq!(focus_marker(true), "typing");
    assert_eq!(focus_marker(false), "idle");
}

#[test]
fn port_parsing_matches_std() {
    for s in ["5432", "+80", "", "+", "-1", "-0", "65535", "65536", " 80", "0080", "12a", "99999999999"] {
        assert_eq!(parse_u16(s), s.parse::<u16>().ok(), "input {:?}", s);
    }
}

#[test]
fn decimal_writing() {
    let mut s = String::from("n=");
    write_decimal(&mut s, 0);
    assert_eq!(s, "n=0");
    let mut t = String::new();
    write_decimal(&mut t, u64::MAX);
    assert_eq!(t, u64::MAX.to_string());
    for p in [0u16, 7, 10, 5432, 65535] {
        let mut u = String::new();
        write_decimal(&mut u, p as u64);
        assert_eq!(parse_u16(&u), Some(p));
    }
}
