use id3_reader::{
    get_v1_version, get_v2_version, get_version, read_bytes, read_ext, read_id3v1, Bytes,
    DecodeError, ID3Version,
};

fn field(text: &[u8], width: usize) -> Vec<u8> {
    let mut out = text.to_vec();
    out.resize(width, 0);
    out
}

fn trailer(comment: [u8; 30], genre: u8) -> Vec<u8> {
    let mut out = b"TAG".to_vec();
    out.extend(field(b"Title", 30));
    out.extend(field(b"Artist", 30));
    out.extend(field(b"Album", 30));
    out.extend(field(b"1984", 4));
    out.extend_from_slice(&comment);
    out.push(genre);
    out
}

fn comment_bytes(text: &[u8], last_two: [u8; 2]) -> [u8; 30] {
    let mut out = [b'c'; 30];
    out[..text.len()].copy_from_slice(text);
    out[28] = last_two[0];
    out[29] = last_two[1];
    out
}

fn extended() -> Vec<u8> {
    let mut out = b"EXT".to_vec();
    out.extend(field(b" II", 30));
    out.extend(field(b" & Co", 30));
    out.extend(field(b" (Deluxe)", 30));
    out.extend(field(b" more", 15));
    out.extend(field(b"Synthwave", 20));
    out
}

#[test]
fn track_number_in_comment() {
    let data = trailer(comment_bytes(&[b'x'; 28], [0, 5]), 17);
    let tag = read_id3v1(&data).unwrap();
    assert_eq!(tag.album_track, 5);
    assert_eq!(tag.comment, "x".repeat(28));
    assert_eq!(tag.song_genre, 17);
}

#[test]
fn no_track_number_when_byte_28_is_set() {
    let data = trailer(comment_bytes(b"Hello\0", [7, 5]), 0);
    let tag = read_id3v1(&data).unwrap();
    assert_eq!(tag.album_track, 0);
    assert_eq!(tag.comment, "Hello");
    let full = trailer(comment_bytes(&[b'y'; 28], [7, 5]), 0);
    let tag = read_id3v1(&full).unwrap();
    assert_eq!(tag.album_track, 0);
    assert_eq!(tag.comment, format!("{}\u{7}\u{5}", "y".repeat(28)));
}

#[test]
fn fixed_fields_are_decoded() {
    let data = trailer(comment_bytes(b"nice\0", [0, 0]), 3);
    let tag = read_id3v1(&data).unwrap();
    assert_eq!(tag.song_name, "Title");
    assert_eq!(tag.artist, "Artist");
    assert_eq!(tag.album_name, "Album");
    assert_eq!(tag.year, "1984");
    assert_eq!(tag.comment, "nice");
    assert_eq!(tag.album_track, 0);
    assert_eq!(tag.song_sub_genre, None);
}

#[test]
fn extended_trailer_is_merged() {
    let mut data = vec![0xaa; 40];
    data.extend(extended());
    data.extend(trailer(comment_bytes(b"nice\0", [0, 2]), 3));
    let tag = read_id3v1(&data).unwrap();
    assert_eq!(tag.song_name, "Title II");
    assert_eq!(tag.artist, "Artist & Co");
    assert_eq!(tag.album_name, "Album (Deluxe)");
    assert_eq!(tag.comment, "nice more");
    assert_eq!(tag.song_sub_genre, Some("Synthwave".to_string()));
    assert_eq!(tag.album_track, 2);
}

#[test]
fn block_without_ext_magic_is_ignored() {
    let mut data = vec![0u8; 128];
    data.extend(trailer(comment_bytes(b"\0", [0, 0]), 1));
    let tag = read_id3v1(&data).unwrap();
    assert_eq!(tag.song_name, "Title");
    assert_eq!(tag.song_sub_genre, None);
    let mut ext_bytes = Bytes::from_slice(&[0u8; 128]);
    assert!(read_ext(&mut ext_bytes).is_none());
    let mut short = Bytes::from_slice(b"EXT");
    assert!(read_ext(&mut short).is_none());
}

#[test]
fn trailer_errors() {
    let mut data = trailer(comment_bytes(b"\0", [0, 0]), 1);
    data[0] = b'X';
    assert_eq!(read_id3v1(&data).unwrap_err(), DecodeError::NotAnId3Tag);
    assert_eq!(read_id3v1(&[0u8; 127]).unwrap_err(), DecodeError::UnexpectedEof);
    let mut short = Bytes::from_slice(b"TAG");
    assert_eq!(read_bytes(&mut short).unwrap_err(), DecodeError::UnexpectedEof);
}

#[test]
fn probe_reports_both_forms() {
    let mut data = b"ID3\x03\x00".to_vec();
    data.extend(vec![0u8; 10]);
    data.extend(trailer(comment_bytes(b"\0", [0, 0]), 1));
    assert_eq!(ID3Version::probe(&data), ID3Version { v1: true, v2: true });
    assert_eq!(ID3Version::probe(b"ID3"), ID3Version { v1: false, v2: true });
    assert_eq!(ID3Version::probe(b"xyz"), ID3Version { v1: false, v2: false });
    let v = get_version(&data).unwrap();
    assert!(v.is_v2());
    assert_eq!((v.major, v.minor, v.revision), (2, 3, 0));
}

#[test]
fn version_falls_back_to_v1() {
    let mut data = vec![0u8; 20];
    data.extend(trailer(comment_bytes(b"\0", [0, 0]), 1));
    assert!(get_v2_version(&data).is_none());
    let v = get_v1_version(&data).unwrap();
    assert_eq!(v.tag, "TAG");
    let v = get_version(&data).unwrap();
    assert!(!v.is_v2());
    assert_eq!((v.major, v.minor, v.revision), (1, 0, 0));
    assert!(get_version(&[0u8; 50]).is_none());
}
