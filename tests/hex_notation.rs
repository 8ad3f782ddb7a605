use can_protocol_adapter::hex::{is_space_char, parse_hex_bytes, parse_hex_u32};

#[test]
fn identifiers_with_and_without_prefix() {
    assert_eq!(parse_hex_u32("0x7DF"), Some(0x7DF));
    assert_eq!(parse_hex_u32("7e8"), Some(0x7E8));
    assert_eq!(parse_hex_u32("0x0x12"), Some(0x12));
    assert_eq!(parse_hex_u32("+1F"), Some(0x1F));
    assert_eq!(parse_hex_u32("0000000000000001"), Some(1));
    assert_eq!(parse_hex_u32("0xFFFFFFFF"), Some(u32::MAX));
}

#[test]
fn malformed_identifiers_are_refused() {
    assert_eq!(parse_hex_u32(""), None);
    assert_eq!(parse_hex_u32("0x"), None);
    assert_eq!(parse_hex_u32("+"), None);
    assert_eq!(parse_hex_u32("-1"), None);
    assert_eq!(parse_hex_u32("0x100000000"), None);
    assert_eq!(parse_hex_u32("0xG1"), None);
    assert_eq!(parse_hex_u32("+0x12"), None);
    assert_eq!(parse_hex_u32(" 12"), None);
}

#[test]
fn byte_lists() {
    assert_eq!(parse_hex_bytes("0x02 0x01 0x0C"), Some(vec![0x02, 0x01, 0x0C]));
    assert_eq!(parse_hex_bytes("  0x02\t0x01\n"), Some(vec![0x02, 0x01]));
    assert_eq!(parse_hex_bytes("41 0c"), Some(vec![0x41, 0x0C]));
    assert_eq!(parse_hex_bytes("0x02\u{3000}0x03"), Some(vec![0x02, 0x03]));
    assert_eq!(parse_hex_bytes(""), Some(vec![]));
    assert_eq!(parse_hex_bytes("   "), Some(vec![]));
}

#[test]
fn malformed_byte_lists_are_refused() {
    assert_eq!(parse_hex_bytes("0x100"), None);
    assert_eq!(parse_hex_bytes("0x02 zz"), None);
    assert_eq!(parse_hex_bytes("0x02,0x03"), None);
}

#[test]
fn whitespace_follows_unicode() {
    assert!(is_space_char(' '));
    assert!(is_space_char('\n'));
    assert!(is_space_char('\u{A0}'));
    assert!(!is_space_char('x'));
    assert!(!is_space_char('\u{200B}'));
}
