use id3_reader::{
    parse_frame_body, read_ext_header, read_frame_flags, read_header, read_header_flags,
    read_id3v2, Bytes, DecodeError, Flags, FrameFlags, FrameType,
};

fn synchsafe(n: u32) -> [u8; 4] {
    [((n >> 21) & 0x7f) as u8, ((n >> 14) & 0x7f) as u8, ((n >> 7) & 0x7f) as u8, (n & 0x7f) as u8]
}

fn header(flags: u8, size: u32) -> Vec<u8> {
    let mut out = vec![0x49, 0x44, 0x33, 3, 0, flags];
    out.extend_from_slice(&synchsafe(size));
    out
}

fn frame(id: &[u8; 4], flags: [u8; 2], body: &[u8]) -> Vec<u8> {
    let mut out = id.to_vec();
    out.extend_from_slice(&synchsafe(body.len() as u32));
    out.extend_from_slice(&flags);
    out.extend_from_slice(body);
    out
}

fn tag(frames: &[Vec<u8>], padding: usize) -> Vec<u8> {
    let body: Vec<u8> = frames.concat();
    let mut out = header(0, (body.len() + padding) as u32);
    out.extend_from_slice(&body);
    out.extend(std::iter::repeat(0u8).take(padding));
    out
}

#[test]
fn one_title_frame_round_trips() {
    let data = tag(&[frame(b"TIT2", [0, 0], b"\x03Song")], 0);
    let decoded = read_id3v2(&data).unwrap();
    assert_eq!(decoded.header.version, (3, 0));
    assert_eq!(decoded.header.size, 15);
    assert_eq!(decoded.frames.len(), 1);
    assert_eq!(decoded.frames[0].frame_type, FrameType::TIT2("Song".to_string()));
    assert_eq!(decoded.frames[0].size, 5);
    assert_eq!(decoded.frames[0].frame_type.get_value(), "Song");
}

#[test]
fn unknown_frame_is_skipped() {
    let data = tag(&[frame(b"TIT2", [0, 0], b"\x03Song"), frame(b"ZZZZ", [0, 0], b"abc")], 0);
    let decoded = read_id3v2(&data).unwrap();
    assert_eq!(decoded.frames.len(), 1);
    assert_eq!(decoded.frames[0].frame_type, FrameType::TIT2("Song".to_string()));
}

#[test]
fn undecodable_body_is_skipped() {
    let data = tag(&[frame(b"TALB", [0, 0], b"\x09xx"), frame(b"TPE1", [0, 0], b"\x00Band")], 0);
    let decoded = read_id3v2(&data).unwrap();
    assert_eq!(decoded.frames.len(), 1);
    assert_eq!(decoded.frames[0].frame_type, FrameType::TPE1("Band".to_string()));
}

#[test]
fn padding_ends_the_frames() {
    let data = tag(&[frame(b"TYER", [0, 0], b"\x001999")], 20);
    let decoded = read_id3v2(&data).unwrap();
    assert_eq!(decoded.frames.len(), 1);
    assert_eq!(decoded.frames[0].frame_type, FrameType::TYER("1999".to_string()));
}

#[test]
fn frames_keep_stream_order() {
    let data = tag(
        &[
            frame(b"TPE1", [0, 0], b"\x00Artist"),
            frame(b"TCON", [0, 0], b"\x00(13)"),
            frame(b"TXXX", [0, 0], b"\x00note"),
        ],
        0,
    );
    let decoded = read_id3v2(&data).unwrap();
    assert_eq!(decoded.frames.len(), 3);
    assert_eq!(decoded.frames[0].frame_type, FrameType::TPE1("Artist".to_string()));
    assert_eq!(decoded.frames[1].frame_type, FrameType::TCON("(13)".to_string()));
    assert_eq!(decoded.frames[2].frame_type, FrameType::TXXX("note".to_string()));
}

#[test]
fn invalid_frame_flags_are_fatal() {
    let data = tag(&[frame(b"TIT2", [0x01, 0x00], b"\x03Song")], 0);
    assert_eq!(read_id3v2(&data).unwrap_err(), DecodeError::InvalidFlags);
}

#[test]
fn frame_flags_are_kept() {
    let data = tag(&[frame(b"TIT2", [0x20, 0x40], b"\x03Song")], 0);
    let decoded = read_id3v2(&data).unwrap();
    let flags = decoded.frames[0].flags;
    assert!(flags.read_only);
    assert!(flags.encryption);
    assert!(!flags.compression);
    assert!(!flags.tag_alter_preservation);
}

#[test]
fn truncated_frame_body_is_fatal() {
    let mut data = tag(&[frame(b"TIT2", [0, 0], b"\x03Song")], 0);
    data.truncate(data.len() - 2);
    assert_eq!(read_id3v2(&data).unwrap_err(), DecodeError::UnexpectedEof);
}

#[test]
fn frame_larger_than_tag_ends_the_frames() {
    let mut data = header(0, 14);
    data.extend_from_slice(&frame(b"TIT2", [0, 0], b"\x03Song"));
    let decoded = read_id3v2(&data).unwrap();
    assert_eq!(decoded.frames.len(), 0);
}

#[test]
fn missing_magic_is_not_a_tag() {
    let mut data = tag(&[frame(b"TIT2", [0, 0], b"\x03Song")], 0);
    data[0] = b'X';
    assert_eq!(read_id3v2(&data).unwrap_err(), DecodeError::NotAnId3Tag);
    assert_eq!(read_id3v2(b"ID3").unwrap_err(), DecodeError::UnexpectedEof);
}

#[test]
fn undefined_header_flag_is_invalid() {
    let data = header(0x01, 0);
    assert_eq!(read_id3v2(&data).unwrap_err(), DecodeError::InvalidFlags);
}

#[test]
fn header_flags_parse_strictly() {
    assert_eq!(
        read_header_flags(0xc0),
        Some(Flags { unsynchronized: true, extended: true, experimental: false, has_footer: false })
    );
    assert_eq!(read_header_flags(0x08), None);
    assert_eq!(read_frame_flags(0x0001), None);
    assert_eq!(
        read_frame_flags(0x8020),
        Some(FrameFlags {
            tag_alter_preservation: true,
            file_alter_preservation: false,
            read_only: false,
            compression: false,
            encryption: false,
            grouping: true,
        })
    );
}

#[test]
fn crc_flag_without_crc_fails() {
    let mut data = header(0x40, 100);
    data.extend_from_slice(&[0, 0, 0, 10, 0x80, 0x00, 0, 0]);
    assert_eq!(read_id3v2(&data).unwrap_err(), DecodeError::MissingCrcData);
}

#[test]
fn extended_header_with_crc() {
    let mut data = header(0x40, 30);
    data.extend_from_slice(&[0, 0, 0, 10, 0x80, 0x00, 0, 0, 0, 4, 0xde, 0xad, 0xbe, 0xef]);
    let mut bytes = Bytes::from_slice(&data);
    let h = read_header(&mut bytes).unwrap();
    assert_eq!(h.size, 20);
    let ext = h.extended_header.unwrap();
    assert_eq!(ext.extended_header_size, 10);
    assert!(ext.extended_flags.crc_data);
    assert_eq!(ext.padding_size, 4);
    assert_eq!(ext.total_frame_crc, Some(0xdead_beef));
    assert_eq!(bytes.get_index(), 24);
}

#[test]
fn extended_header_without_crc() {
    let mut bytes = Bytes::from_slice(&[0, 0, 0, 6, 0x00, 0x00, 0, 0, 1, 0]);
    let ext = read_ext_header(&mut bytes).unwrap();
    assert_eq!(ext.extended_header_size, 6);
    assert!(!ext.extended_flags.crc_data);
    assert_eq!(ext.padding_size, 256);
    assert_eq!(ext.total_frame_crc, None);
    let mut bad = Bytes::from_slice(&[0, 0, 0, 6, 0x00, 0x01, 0, 0, 1, 0]);
    assert_eq!(read_ext_header(&mut bad).unwrap_err(), DecodeError::InvalidFlags);
}

#[test]
fn comment_frame_body() {
    let body = b"\x00engshort\0the long text";
    let decoded = FrameType::from_name(b"COMM", body).unwrap();
    assert_eq!(
        decoded,
        FrameType::COMM(*b"eng", "short".to_string(), "the long text".to_string())
    );
    assert_eq!(decoded.get_value(), "the long text");
    assert_eq!(decoded.get_description(), "Comments");
}

#[test]
fn utf16_comment_frame_body() {
    let body = [0x01, b'f', b'r', b'a', 0xff, 0xfe, b'd', 0, 0, 0, 0xff, 0xfe, b'x', 0];
    let decoded = FrameType::from_name(b"COMM", &body).unwrap();
    assert_eq!(decoded, FrameType::COMM(*b"fra", "d".to_string(), "x".to_string()));
}

#[test]
fn frame_dispatch_errors() {
    assert_eq!(FrameType::from_name(b"ABCD", b"\x00x"), Err(DecodeError::UnknownFrameType));
    assert_eq!(FrameType::from_name(b"TIT2", b""), Err(DecodeError::UnknownFrameBody));
    assert_eq!(FrameType::from_name(b"TIT2", b"\x05x"), Err(DecodeError::UnknownFrameBody));
    assert_eq!(FrameType::from_name(b"COMM", b"\x00en"), Err(DecodeError::UnknownFrameBody));
    assert_eq!(parse_frame_body(b"\x00Title\0junk"), Ok("Title".to_string()));
}

#[test]
fn frame_type_from_slice_and_descriptions() {
    assert_eq!(
        FrameType::from_slice(b"TALB", "x".to_string()),
        Some(FrameType::TALB("x".to_string()))
    );
    assert_eq!(FrameType::from_slice(b"COMM", "x".to_string()), None);
    assert_eq!(FrameType::TYER(String::new()).get_description(), "Year");
    assert_eq!(
        FrameType::TIT2(String::new()).get_description(),
        "Title/songname/content description"
    );
    assert!(DecodeError::UnknownFrameType.is_recoverable());
    assert!(!DecodeError::UnexpectedEof.is_recoverable());
}

#[test]
fn frame_type_from_identifier_text() {
    assert_eq!(
        FrameType::get_type(&"TCON".to_string(), "Rock".to_string()),
        Some(FrameType::TCON("Rock".to_string()))
    );
    assert_eq!(FrameType::get_type(&"TIT".to_string(), "x".to_string()), None);
    assert_eq!(FrameType::get_type(&"COMM".to_string(), "x".to_string()), None);
}
