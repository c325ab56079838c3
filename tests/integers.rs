use id3_reader::{bit_at, convert_signed, convert_unsigned, Bytes, DecodeError};

#[test]
fn synchsafe_decodes_seven_bits_per_byte() {
    assert_eq!(convert_signed(&[0x00, 0x00, 0x02, 0x01]), 257);
    assert_eq!(convert_signed(&[0x7f, 0x7f, 0x7f, 0x7f]), 0x0fff_ffff);
    assert_eq!(convert_signed(&[0x01, 0x00, 0x00, 0x00]), 1 << 21);
}

#[test]
fn synchsafe_ignores_top_bits() {
    assert_eq!(convert_signed(&[0x80, 0x80, 0x80, 0x81]), 1);
    assert_eq!(convert_signed(&[0xff]), 0x7f);
}

#[test]
fn plain_and_synchsafe_decoders_differ() {
    let bytes = [0x00, 0x00, 0x01, 0x00];
    assert_eq!(convert_unsigned(&bytes), 256);
    assert_eq!(convert_signed(&bytes), 128);
    assert_ne!(convert_unsigned(&bytes), convert_signed(&bytes));
}

#[test]
fn plain_decoder_is_big_endian() {
    assert_eq!(convert_unsigned(&[0x12, 0x34, 0x56, 0x78]), 0x1234_5678);
    assert_eq!(convert_unsigned(&[]), 0);
    assert_eq!(convert_unsigned(&[0xff; 16]), u128::MAX);
}

#[test]
fn bit_at_reads_single_bits() {
    assert!(bit_at(0x80, 7));
    assert!(!bit_at(0x80, 6));
    assert!(bit_at(0x01, 0));
    assert!(!bit_at(0xfe, 0));
}

#[test]
fn cursor_reads_integers() {
    let mut bytes = Bytes::from_slice(&[0x01, 0x02, 0x00, 0x00, 0x02, 0x01, 0x00, 0x00, 0x01, 0x00]);
    assert_eq!(bytes.read_u16(), Ok(0x0102));
    assert_eq!(bytes.read_synchsafe_u32(), Ok(257));
    assert_eq!(bytes.read_u32(), Ok(256));
    assert_eq!(bytes.get_readable_bytes(), 0);
    assert_eq!(bytes.read_byte(), Err(DecodeError::UnexpectedEof));
}

#[test]
fn cursor_refuses_short_reads_without_moving() {
    let mut bytes = Bytes::from_slice(&[1, 2, 3]);
    assert_eq!(bytes.read_u32(), Err(DecodeError::UnexpectedEof));
    assert_eq!(bytes.get_index(), 0);
    assert_eq!(bytes.advance(4), Err(DecodeError::UnexpectedEof));
    assert_eq!(bytes.advance(2), Ok(()));
    assert_eq!(bytes.read_slice(1), Ok(vec![3]));
    assert!(!bytes.has_readable_bytes());
}

#[test]
fn cursor_cap_and_offset() {
    let mut bytes = Bytes::from_vec(vec![10, 11, 12, 13, 14, 15]);
    bytes.set_index(5);
    bytes.set_cap(4);
    assert_eq!(bytes.get_buf(), &vec![10, 11, 12, 13]);
    assert_eq!(bytes.get_index(), 4);
    bytes.set_index(3);
    bytes.set_offset(1);
    assert_eq!(bytes.get_buf(), &vec![11, 12, 13]);
    assert_eq!(bytes.get_index(), 2);
    bytes.set_offset(3);
    assert_eq!(bytes.get_index(), 0);
    assert_eq!(bytes.get_readable_bytes(), 0);
}
