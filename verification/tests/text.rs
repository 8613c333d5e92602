use cepack::text::decode_text;

#[test]
fn decode_text_accepts_utf8() {
    assert_eq!(decode_text(b"b.txt"), Some("b.txt".to_string()));
    assert_eq!(decode_text(b""), Some(String::new()));
    assert_eq!(decode_text("gr\u{fc}n \u{4e2d} \u{1f600}".as_bytes()), Some("gr\u{fc}n \u{4e2d} \u{1f600}".to_string()));
}

#[test]
fn decode_text_rejects_what_is_no_utf8() {
    assert_eq!(decode_text(&[0xFF]), None);
    assert_eq!(decode_text(&[0x61, 0x80]), None);
    assert_eq!(decode_text(&[0xC3]), None);
    assert_eq!(decode_text(&[0xC0, 0x80]), None);
    assert_eq!(decode_text(&[0xED, 0xA0, 0x80]), None);
}
