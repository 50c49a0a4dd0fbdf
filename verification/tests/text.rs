use notecognito_core::text::{i64_to_string, parse_u8, same_text, u64_to_string, u8_to_string};

#[test]
fn every_byte_renders_as_std_renders_it() {
    for n in 0u8..=255 {
        assert_eq!(u8_to_string(n), n.to_string());
    }
}

#[test]
fn every_rendered_byte_parses_back() {
    for n in 0u8..=255 {
        assert_eq!(parse_u8(&u8_to_string(n)), Some(n));
    }
}

#[test]
fn texts_are_compared_by_their_characters() {
    assert!(same_text("", ""));
    assert!(same_text("Control", "Control"));
    assert!(same_text("é⌘", "é⌘"));
    assert!(!same_text("Control", "Command"));
    assert!(!same_text("a", "ab"));
    assert!(!same_text("ab", "a"));
    assert!(!same_text("é", "e"));
}

#[test]
fn parse_accepts_a_plus_sign_and_leading_zeros() {
    assert_eq!(parse_u8("+7"), Some(7));
    assert_eq!(parse_u8("007"), Some(7));
    assert_eq!(parse_u8("+000255"), Some(255));
    assert_eq!(parse_u8("0"), Some(0));
}

#[test]
fn parse_rejects_what_is_no_byte() {
    for text in ["", "+", "-", "-0", "256", "1000", "99999999999999999999", "1 ", " 1", "1a", "a", "++1", "1+", "٣", "é", "0x10"] {
        assert_eq!(parse_u8(text), None, "text {:?}", text);
    }
}

#[test]
fn parse_agrees_with_std() {
    for text in ["12", "+12", "012", "255", "256", "", "+", "-3", "3-", "1e1", "١٢", "2 5"] {
        assert_eq!(parse_u8(text), text.parse::<u8>().ok(), "text {:?}", text);
    }
}

#[test]
fn numbers_render_as_std_renders_them() {
    for n in [0u64, 1, 9, 10, 99, 100, 1_761_684_000_123, u64::MAX] {
        assert_eq!(u64_to_string(n), n.to_string());
    }
    for n in [0i64, 1, -1, 10, -10, 1_761_684_000_123, -1_761_684_000_123, i64::MAX, i64::MIN] {
        assert_eq!(i64_to_string(n), n.to_string());
    }
}
