use dezes::codec::encode_text;
use dezes::hex::edit_dialog::{
    bytes_to_escaped_string, bytes_to_escaped_string_utf16le, bytes_to_escaped_string_utf8,
    push_escaped_str, unescape_to_bytes,
};

#[test]
fn test_unescape_system_note_newlines() {
    let input = r"\n\n[SYSTEM NOTE";
    let bytes = unescape_to_bytes(input, "UTF-8").unwrap();
    assert_eq!(
        bytes,
        vec![0x0A, 0x0A, 0x5B, 0x53, 0x59, 0x53, 0x54, 0x45, 0x4D, 0x20, 0x4E, 0x4F, 0x54, 0x45]
    );
}

#[test]
fn test_unescape_c_escapes() {
    let input = r"A\nB\rC\tD\0E\\F";
    let bytes = unescape_to_bytes(input, "UTF-8").unwrap();
    assert_eq!(bytes, b"A\nB\rC\tD\0E\\F");
}

#[test]
fn test_unescape_hex_sequences() {
    let input = r"\x41\x42\x00\xFF\x90";
    let bytes = unescape_to_bytes(input, "UTF-8").unwrap();
    assert_eq!(bytes, vec![0x41, 0x42, 0x00, 0xFF, 0x90]);

    let literal = r"\x\xG\w";
    let bytes_lit = unescape_to_bytes(literal, "UTF-8").unwrap();
    assert_eq!(bytes_lit, b"\\x\\xG\\w");
}

#[test]
fn test_unescape_utf16le() {
    let input = r"\n\n[A";
    let bytes = unescape_to_bytes(input, "UTF-16LE").unwrap();
    assert_eq!(bytes, vec![0x0A, 0x00, 0x0A, 0x00, 0x5B, 0x00, 0x41, 0x00]);

    let input_hex = r"\x41";
    let bytes_hex = unescape_to_bytes(input_hex, "UTF-16LE").unwrap();
    assert_eq!(bytes_hex, vec![0x41, 0x00]);
}

#[test]
fn test_bytes_to_escaped_string_and_roundtrip() {
    let raw = vec![0x0A, 0x0A, 0x5B, 0x53, 0x59, 0x53, 0x54, 0x45, 0x4D, 0x20, 0x4E, 0x4F, 0x54, 0x45];
    let escaped = bytes_to_escaped_string(&raw, "UTF-8").unwrap();
    assert_eq!(escaped, r"\n\n[SYSTEM NOTE");

    let back = unescape_to_bytes(&escaped, "UTF-8").unwrap();
    assert_eq!(back, raw);
}

#[test]
fn test_bytes_to_escaped_string_control_chars() {
    let raw = vec![0x00, 0x09, 0x0A, 0x0D, 0x1B, 0x5C];
    let escaped = bytes_to_escaped_string(&raw, "UTF-8").unwrap();
    assert_eq!(escaped, r"\0\t\n\r\x1B\\");

    let back = unescape_to_bytes(&escaped, "UTF-8").unwrap();
    assert_eq!(back, raw);
}

#[test]
fn an_unknown_label_is_refused() {
    assert!(unescape_to_bytes("abc", "no-such-encoding").is_none());
    assert!(bytes_to_escaped_string(b"abc", "no-such-encoding").is_none());
    assert!(encode_text("abc", "no-such-encoding").is_none());
}

#[test]
fn invalid_utf8_is_shown_byte_by_byte() {
    let raw = vec![b'a', 0xC3, 0xA9, 0xFF, 0xE2, 0x82, b'z', 0xF0, 0x9F, 0x98, 0x80, 0xE2];
    let escaped = bytes_to_escaped_string_utf8(&raw);
    assert_eq!(escaped, "a\u{e9}\\xFF\\xE2\\x82z\u{1F600}\\xE2");
    assert_eq!(unescape_to_bytes(&escaped, "UTF-8").unwrap(), raw);
}

#[test]
fn utf16_surrogates_and_odd_tails_are_escaped() {
    let mut raw: Vec<u8> = "h\u{1F600}".encode_utf16().flat_map(|u| u.to_le_bytes()).collect();
    raw.extend_from_slice(&[0x00, 0xD8, 0x41]);
    let escaped = bytes_to_escaped_string_utf16le(&raw);
    assert_eq!(escaped, "h\u{1F600}\\x00\\xD8\\x41");
    assert_eq!(bytes_to_escaped_string(&raw, "utf-16le").unwrap(), escaped);
}

#[test]
fn other_encodings_decode_then_escape() {
    let euckr = encoding_rs::EUC_KR.encode("한\t글").0.into_owned();
    assert_eq!(bytes_to_escaped_string(&euckr, "EUC-KR").unwrap(), "한\\t글");
    assert_eq!(unescape_to_bytes("한\\t글", "EUC-KR").unwrap(), euckr);
}

#[test]
fn escaping_a_string_marks_controls_and_del() {
    let mut out = String::from(">");
    push_escaped_str(&mut out, "a\u{1}\u{7f}\\");
    assert_eq!(out, ">a\\x01\\x7F\\\\");
}

#[test]
fn utf16_big_endian_is_written_high_byte_first() {
    assert_eq!(encode_text("A\u{1F600}", "UTF-16BE").unwrap(), vec![0x00, 0x41, 0xD8, 0x3D, 0xDE, 0x00]);
    assert_eq!(unescape_to_bytes("\\x41", "UTF-16BE").unwrap(), vec![0x00, 0x41]);
}
