//! Decoding of ID3 metadata tags: the fixed 128-byte trailer of ID3v1 (with
//! its optional extended trailer) and the header-plus-frames layout of ID3v2.
//!
//! Every decoder works on bytes already in memory and is verified against a
//! specification of the format: `spec_tag` for ID3v2, `spec_id3v1` for ID3v1.
pub mod cursor;
pub mod encoding;
pub mod error;
pub mod frame;
pub mod header;
pub mod synchsafe;
pub mod v1;
pub mod v2;
pub mod version;

pub use cursor::Bytes;
pub use encoding::{
    convert_latin1, convert_utf16, convert_utf8, decode_text, find_terminator, next_null,
    until_null, EncodingTypes,
};
pub use error::DecodeError;
pub use frame::{parse_frame_body, read_frame_flags, Frame, FrameFlags, FrameType};
pub use header::{
    read_ext_header, read_header, read_header_flags, ExtendedHeader, ExtendedHeaderFlags, Flags,
    Header,
};
pub use synchsafe::{bit_at, convert_signed, convert_unsigned};
pub use v1::{read_bytes, read_ext, read_id3v1, read_tag, read_tag_ext, ID3v1, ID3v1Ext};
pub use v2::{read_id3v2, ID3v2};
pub use version::{get_v1_version, get_v2_version, get_version, ID3Version, Version};
