use fgtw_fleet::text::{
    contains_text, decimal_text, decode_pubkey_hex, hex_text, parse_u64, same_bytes, strip_prefix_text, trim_leading,
    trim_text, trim_trailing,
};

#[test]
fn numbers_are_written_in_decimal() {
    assert_eq!(decimal_text(0), "0");
    assert_eq!(decimal_text(10), "10");
    assert_eq!(decimal_text(u64::MAX), "18446744073709551615");
}

#[test]
fn numbers_are_read_like_the_standard_library_reads_them() {
    for text in ["", "0", "007", "+5", "-5", "+", "1a", " 1", "18446744073709551615", "18446744073709551616", "٣"] {
        assert_eq!(parse_u64(text), text.parse::<u64>().ok(), "{text}");
    }
}

#[test]
fn keys_survive_hexadecimal() {
    let key: [u8; 32] = core::array::from_fn(|i| (i * 37) as u8);
    let text = hex_text(&key);
    assert_eq!(text.len(), 64);
    assert!(text.starts_with("00254a6f"));
    assert_eq!(decode_pubkey_hex(&text), Some(key));
    assert_eq!(decode_pubkey_hex(&text.to_uppercase()), Some(key));
}

#[test]
fn malformed_hexadecimal_is_no_key() {
    assert_eq!(decode_pubkey_hex(""), None);
    assert_eq!(decode_pubkey_hex(&"0".repeat(63)), None);
    assert_eq!(decode_pubkey_hex(&"0".repeat(65)), None);
    assert_eq!(decode_pubkey_hex(&"g".repeat(64)), None);
    assert_eq!(decode_pubkey_hex(&"+f".repeat(32)), None);
    assert_eq!(decode_pubkey_hex(&"é".repeat(32)), None);
}

#[test]
fn texts_are_searched_and_trimmed() {
    assert!(contains_text("abcabd", "abd"));
    assert!(contains_text("abc", ""));
    assert!(!contains_text("abc", "abcd"));
    assert_eq!(strip_prefix_text("fleet.name.ab", "fleet.name."), Some("ab".to_string()));
    assert_eq!(strip_prefix_text("fleet.nam", "fleet.name."), None);
    assert_eq!(trim_leading("aaab", "aa"), "ab");
    assert_eq!(trim_trailing("a//", '/'), "a");
    assert_eq!(trim_trailing("//", '/'), "");
}

#[test]
fn white_space_goes_from_both_ends() {
    for text in ["", " ", " a ", "\t\u{3000}a b\u{a0}\r\n", "\u{200b}x", "\u{1680}\u{2028}y\u{205f}"] {
        assert_eq!(trim_text(text), text.trim(), "{text:?}");
    }
    for code in 0..=0x3100u32 {
        if let Some(c) = char::from_u32(code) {
            assert_eq!(trim_text(&c.to_string()).is_empty(), c.is_whitespace(), "{code:x}");
        }
    }
}

#[test]
fn bytes_are_compared_whole() {
    assert!(same_bytes(b"abc", b"abc"));
    assert!(!same_bytes(b"abc", b"abd"));
    assert!(!same_bytes(b"abc", b"ab"));
}
