use emu_debugger::hex::{hex_byte, hex_bytes, hex_unpadded, hex_word, parse_hex_u16, parse_hex_u8};

#[test]
fn parses_bytes_in_hex() {
    assert_eq!(parse_hex_u8("AB"), Some(0xAB));
    assert_eq!(parse_hex_u8("ab"), Some(0xAB));
    assert_eq!(parse_hex_u8("0"), Some(0));
    assert_eq!(parse_hex_u8("+f"), Some(15));
    assert_eq!(parse_hex_u8("00FF"), Some(0xFF));
    assert_eq!(parse_hex_u8(""), None);
    assert_eq!(parse_hex_u8("+"), None);
    assert_eq!(parse_hex_u8("-1"), None);
    assert_eq!(parse_hex_u8("100"), None);
    assert_eq!(parse_hex_u8("1g"), None);
    assert_eq!(parse_hex_u8(" 1"), None);
}

#[test]
fn parses_words_in_hex() {
    assert_eq!(parse_hex_u16("FFFF"), Some(0xFFFF));
    assert_eq!(parse_hex_u16("1234"), Some(0x1234));
    assert_eq!(parse_hex_u16("10000"), None);
    assert_eq!(parse_hex_u16("++1"), None);
    assert_eq!(parse_hex_u16("é"), None);
}

#[test]
fn renders_fixed_and_unpadded_hex() {
    assert_eq!(hex_byte(0x0A), "0A");
    assert_eq!(hex_byte(0xFF), "FF");
    assert_eq!(hex_word(0x1234), "1234");
    assert_eq!(hex_word(0x00BE), "00BE");
    assert_eq!(hex_bytes(&vec![0x3E, 0x01, 0xC3]), "3E01C3");
    assert_eq!(hex_bytes(&vec![]), "");
    assert_eq!(hex_unpadded(0x1F), "1F");
    assert_eq!(hex_unpadded(5), "5");
    assert_eq!(hex_unpadded(0), "0");
    assert_eq!(hex_unpadded(0x1000), "1000");
}
