use id3_reader::{
    convert_latin1, convert_utf16, convert_utf8, decode_text, find_terminator, next_null,
    until_null, Bytes, DecodeError, EncodingTypes,
};

#[test]
fn terminator_of_utf16_is_first_aligned_zero_pair() {
    let bytes = [0x41, 0x00, 0x42, 0x00, 0x00, 0x00];
    assert_eq!(find_terminator(&bytes, true), 4);
}

#[test]
fn terminator_of_latin1_is_first_zero_byte() {
    assert_eq!(find_terminator(b"AB\0C", false), 2);
    assert_eq!(next_null(b"AB\0C"), 2);
    assert_eq!(until_null(b"AB\0C"), b"AB");
}

#[test]
fn terminator_missing_gives_length() {
    assert_eq!(find_terminator(b"ABC", false), 3);
    assert_eq!(find_terminator(&[0x41, 0x00, 0x42], true), 3);
    assert_eq!(find_terminator(&[], true), 0);
}

#[test]
fn terminator_ignores_unaligned_zero_pair() {
    let bytes = [0x41, 0x00, 0x00, 0x42, 0x00, 0x00];
    assert_eq!(find_terminator(&bytes, true), 4);
}

#[test]
fn encoding_selectors() {
    assert_eq!(EncodingTypes::from_byte(0), Some(EncodingTypes::Latin1));
    assert_eq!(EncodingTypes::from_byte(1), Some(EncodingTypes::Utf16));
    assert_eq!(EncodingTypes::from_byte(2), Some(EncodingTypes::Utf16Be));
    assert_eq!(EncodingTypes::from_byte(3), Some(EncodingTypes::Utf8));
    assert_eq!(EncodingTypes::from_byte(4), None);
}

#[test]
fn latin1_decodes_windows_1252() {
    assert_eq!(convert_latin1(&[0x63, 0x61, 0x66, 0xe9]), "caf\u{e9}");
    assert_eq!(convert_latin1(&[0x80]), "\u{20ac}");
}

#[test]
fn utf16_follows_byte_order_mark() {
    assert_eq!(convert_utf16(&[0xff, 0xfe, 0x41, 0x00, 0xe9, 0x00]), "A\u{e9}");
    assert_eq!(convert_utf16(&[0xfe, 0xff, 0x00, 0x41]), "A");
    assert_eq!(convert_utf16(&[0x00, 0x41]), "A");
}

#[test]
fn utf8_replaces_malformed_sequences() {
    assert_eq!(convert_utf8("h\u{e9}".as_bytes()), "h\u{e9}");
    assert_eq!(convert_utf8(&[0x41, 0xff, 0x42]), "A\u{fffd}B");
}

#[test]
fn decode_text_dispatches_on_selector() {
    assert_eq!(decode_text(&[0xe9], 0), Some("\u{e9}".to_string()));
    assert_eq!(decode_text(&[0xff, 0xfe, 0x42, 0x00], 1), Some("B".to_string()));
    assert_eq!(decode_text(&[0x00, 0x42], 2), Some("B".to_string()));
    assert_eq!(decode_text(&[0xc3, 0xa9], 3), Some("\u{e9}".to_string()));
    assert_eq!(decode_text(&[0x41], 4), None);
    assert_eq!(EncodingTypes::Utf16Be.decode(&[0x00, 0x43]), "C");
}

#[test]
fn encoded_string_moves_past_terminator() {
    let mut bytes = Bytes::from_slice(&[0x41, 0x42, 0x00, 0x43]);
    assert_eq!(bytes.get_encoded_string(&EncodingTypes::Latin1), "AB");
    assert_eq!(bytes.get_index(), 3);
    assert_eq!(bytes.get_encoded_string(&EncodingTypes::Latin1), "C");
    assert_eq!(bytes.get_index(), 4);
}

#[test]
fn wide_encoded_string_moves_past_two_byte_terminator() {
    let mut bytes = Bytes::from_slice(&[0x00, 0x41, 0x00, 0x00, 0x00, 0x42]);
    assert_eq!(bytes.get_encoded_string(&EncodingTypes::Utf16Be), "A");
    assert_eq!(bytes.get_index(), 4);
}

#[test]
fn sized_string_moves_past_whole_field() {
    let mut bytes = Bytes::from_slice(b"AB\0\0\0XY");
    assert_eq!(bytes.get_sized_string(&EncodingTypes::Latin1, 5), Ok("AB".to_string()));
    assert_eq!(bytes.get_index(), 5);
    assert_eq!(bytes.get_latin1_string(3), Err(DecodeError::UnexpectedEof));
    assert_eq!(bytes.get_latin1_string(2), Ok("XY".to_string()));
}

#[test]
fn null_search_within_limit() {
    let mut bytes = Bytes::from_slice(&[0x09, 0x41, 0x42, 0x00, 0x00, 0x00]);
    assert_eq!(bytes.advance(1), Ok(()));
    assert_eq!(bytes.find_null_u8_until(10), 2);
    assert_eq!(bytes.find_null_u8_until(1), 1);
    assert_eq!(bytes.find_null_u16_until(10), 2);
    assert_eq!(bytes.find_null_u16_until(2), 2);
}

#[test]
fn get_string_reads_selector_then_text() {
    let mut bytes = Bytes::from_slice(&[0x03, 0x53, 0x6f, 0x6e, 0x67]);
    assert_eq!(bytes.get_string(), Ok("Song".to_string()));
    let mut unknown = Bytes::from_slice(&[0x07, 0x41]);
    assert_eq!(unknown.get_string(), Err(DecodeError::UnknownEncoding));
    let mut empty = Bytes::from_slice(&[]);
    assert_eq!(empty.get_string(), Err(DecodeError::UnexpectedEof));
}
