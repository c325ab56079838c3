use crate::cursor::Bytes;
use crate::error::DecodeError;
use crate::synchsafe::{be_value, synchsafe_value};
use vstd::prelude::*;

verus! {

broadcast use Bytes::lemma_moved_twice;

/// Flags of the ID3v2 header byte. Only the top four bits are defined.
#[derive(Debug, Clone, Copy, PartialEq, Eq, Structural)]
pub struct Flags {
    /// Bit 7: the tag is unsynchronised (not undone by this library).
    pub unsynchronized: bool,
    /// Bit 6: an extended header follows the header.
    pub extended: bool,
    /// Bit 5: the tag is experimental.
    pub experimental: bool,
    /// Bit 4: a footer ends the tag.
    pub has_footer: bool,
}

/// Flags of the ID3v2 extended header. Only the CRC bit (the top bit of the
/// first flag byte) is defined.
#[derive(Debug, Clone, Copy, PartialEq, Eq, Structural)]
pub struct ExtendedHeaderFlags {
    /// A CRC of the frames follows the extended header's fixed part.
    pub crc_data: bool,
}

/// The optional extended header of an ID3v2 tag.
#[derive(Debug, Clone, Copy, PartialEq, Eq)]
pub struct ExtendedHeader {
    pub extended_header_size: u32,
    pub extended_flags: ExtendedHeaderFlags,
    pub padding_size: u32,
    /// Present exactly when `extended_flags.crc_data` is set.
    pub total_frame_crc: Option<u32>,
}

/// The ten-byte ID3v2 header, with its extended header if it announces one.
#[derive(Debug, Clone, Copy, PartialEq, Eq)]
pub struct Header {
    /// Major version and revision.
    pub version: (u8, u8),
    pub flags: Flags,
    /// Bytes of the tag that follow the header: the synchsafe size field,
    /// less the ten bytes of an extended header when there is one.
    pub size: u32,
    pub extended_header: Option<ExtendedHeader>,
}

/// The header flags that `byte` holds; `None` when one of the undefined low
/// four bits is set.
pub open spec fn spec_header_flags(byte: u8) -> Option<Flags> {
    if byte & 0x0f != 0 {
        None
    } else {
        Some(
            Flags {
                unsynchronized: byte & 0x80 != 0,
                extended: byte & 0x40 != 0,
                experimental: byte & 0x20 != 0,
                has_footer: byte & 0x10 != 0,
            },
        )
    }
}

/// The extended header flags that `bits` holds; `None` when a bit other than
/// the CRC bit is set.
pub open spec fn spec_extended_flags(bits: u16) -> Option<ExtendedHeaderFlags> {
    if bits & 0x7fff != 0 {
        None
    } else {
        Some(ExtendedHeaderFlags { crc_data: bits & 0x8000 != 0 })
    }
}

/// Whether `s` starts with the three bytes `a`, `b`, `c`.
pub open spec fn starts_with3(s: Seq<u8>, a: u8, b: u8, c: u8) -> bool {
    s.len() >= 3 && s[0] == a && s[1] == b && s[2] == c
}

/// The extended header at the start of `s` and the number of bytes it takes:
/// a four-byte size, two flag bytes, a four-byte padding size and, when the
/// CRC flag is set, a four-byte CRC.
pub open spec fn spec_ext_header(s: Seq<u8>) -> Result<(ExtendedHeader, nat), DecodeError> {
    if s.len() < 6 {
        Err(DecodeError::UnexpectedEof)
    } else {
        match spec_extended_flags(be_value(s.subrange(4, 6)) as u16) {
            None => Err(DecodeError::InvalidFlags),
            Some(flags) => if flags.crc_data {
                if s.len() < 14 {
                    Err(DecodeError::MissingCrcData)
                } else {
                    Ok(
                        (
                            ExtendedHeader {
                                extended_header_size: be_value(s.subrange(0, 4)) as u32,
                                extended_flags: flags,
                                padding_size: be_value(s.subrange(6, 10)) as u32,
                                total_frame_crc: Some(be_value(s.subrange(10, 14)) as u32),
                            },
                            14,
                        ),
                    )
                }
            } else if s.len() < 10 {
                Err(DecodeError::UnexpectedEof)
            } else {
                Ok(
                    (
                        ExtendedHeader {
                            extended_header_size: be_value(s.subrange(0, 4)) as u32,
                            extended_flags: flags,
                            padding_size: be_value(s.subrange(6, 10)) as u32,
                            total_frame_crc: None,
                        },
                        10,
                    ),
                )
            },
        }
    }
}

/// The ID3v2 header at the start of `s` and the number of bytes it takes,
/// extended header included.
pub open spec fn spec_header(s: Seq<u8>) -> Result<(Header, nat), DecodeError> {
    if s.len() < 10 {
        Err(DecodeError::UnexpectedEof)
    } else if !starts_with3(s, 0x49, 0x44, 0x33) {
        Err(DecodeError::NotAnId3Tag)
    } else {
        match spec_header_flags(s[5]) {
            None => Err(DecodeError::InvalidFlags),
            Some(flags) => {
                let size = synchsafe_value(s.subrange(6, 10));
                if flags.extended {
                    match spec_ext_header(s.skip(10)) {
                        Err(e) => Err(e),
                        Ok((ext, n)) => Ok(
                            (
                                Header {
                                    version: (s[3], s[4]),
                                    flags,
                                    size: if size >= 10 {
                                        (size - 10) as u32
                                    } else {
                                        0
                                    },
                                    extended_header: Some(ext),
                                },
                                10 + n,
                            ),
                        ),
                    }
                } else {
                    Ok(
                        (
                            Header {
                                version: (s[3], s[4]),
                                flags,
                                size: size as u32,
                                extended_header: None,
                            },
                            10,
                        ),
                    )
                }
            },
        }
    }
}

/// A CRC announced but not present is an error, never a made-up value: when
/// the header flags announce an extended header whose flags set the CRC bit,
/// and fewer than the fourteen bytes of an extended header with CRC follow
/// the header, the header fails with `MissingCrcData`.
pub proof fn lemma_missing_crc(s: Seq<u8>)
    requires
        16 <= s.len() < 24,
        starts_with3(s, 0x49, 0x44, 0x33),
        spec_header_flags(s[5]) matches Some(flags) && flags.extended,
        spec_extended_flags(be_value(s.subrange(14, 16)) as u16) matches Some(ext) && ext.crc_data,
    ensures
        spec_header(s) == Err::<(Header, nat), DecodeError>(DecodeError::MissingCrcData),
{
    assert(s.skip(10).subrange(4, 6) =~= s.subrange(14, 16));
}

/// Parses the header flag byte strictly: an undefined bit set gives `None`.
pub fn read_header_flags(byte: u8) -> (r: Option<Flags>)
    ensures
        r == spec_header_flags(byte),
{
    if byte & 0x0f != 0 {
        None
    } else {
        Some(
            Flags {
                unsynchronized: byte & 0x80 != 0,
                extended: byte & 0x40 != 0,
                experimental: byte & 0x20 != 0,
                has_footer: byte & 0x10 != 0,
            },
        )
    }
}

/// Parses the extended header flags strictly: an undefined bit set gives `None`.
pub fn read_extended_flags(bits: u16) -> (r: Option<ExtendedHeaderFlags>)
    ensures
        r == spec_extended_flags(bits),
{
    if bits & 0x7fff != 0 {
        None
    } else {
        Some(ExtendedHeaderFlags { crc_data: bits & 0x8000 != 0 })
    }
}

/// Reads the extended header at the cursor. With the CRC flag set, fewer
/// than eight bytes after the flags fail with `MissingCrcData`.
pub fn read_ext_header(bytes: &mut Bytes) -> (r: Result<ExtendedHeader, DecodeError>)
    ensures
        match spec_ext_header(old(bytes).rest()) {
            Ok((ext, n)) => r == Ok::<ExtendedHeader, DecodeError>(ext) && final(bytes).moved(
                *old(bytes),
                n,
            ),
            Err(e) => r == Err::<ExtendedHeader, DecodeError>(e),
        },
{
    let ghost s = bytes.rest();
    let extended_header_size = bytes.read_u32()?;
    let raw_flags = bytes.read_u16()?;
    assert(s.skip(4).take(2) =~= s.subrange(4, 6));
    assert(s.take(4) =~= s.subrange(0, 4));
    let extended_flags = match read_extended_flags(raw_flags) {
        Some(f) => f,
        None => return Err(DecodeError::InvalidFlags),
    };
    if extended_flags.crc_data {
        if bytes.get_readable_bytes() < 8 {
            return Err(DecodeError::MissingCrcData);
        }
        let padding_size = bytes.read_u32()?;
        let crc = bytes.read_u32()?;
        assert(s.skip(6).take(4) =~= s.subrange(6, 10));
        assert(s.skip(10).take(4) =~= s.subrange(10, 14));
        Ok(
            ExtendedHeader {
                extended_header_size,
                extended_flags,
                padding_size,
                total_frame_crc: Some(crc),
            },
        )
    } else {
        let padding_size = bytes.read_u32()?;
        assert(s.skip(6).take(4) =~= s.subrange(6, 10));
        Ok(ExtendedHeader { extended_header_size, extended_flags, padding_size, total_frame_crc: None })
    }
}

/// Reads the ID3v2 header at the cursor, and the extended header when the
/// header flags announce one. When there is an extended header, its ten
/// bytes are taken off the size (down to zero at most).
pub fn read_header(bytes: &mut Bytes) -> (r: Result<Header, DecodeError>)
    ensures
        match spec_header(old(bytes).rest()) {
            Ok((h, n)) => r == Ok::<Header, DecodeError>(h) && final(bytes).moved(*old(bytes), n),
            Err(e) => r == Err::<Header, DecodeError>(e),
        },
{
    let ghost s = bytes.rest();
    if bytes.get_readable_bytes() < 10 {
        return Err(DecodeError::UnexpectedEof);
    }
    let magic = bytes.read_slice(3)?;
    if !(magic[0] == 0x49 && magic[1] == 0x44 && magic[2] == 0x33) {
        return Err(DecodeError::NotAnId3Tag);
    }
    let major = bytes.read_byte()?;
    let minor = bytes.read_byte()?;
    let flag_byte = bytes.read_byte()?;
    let flags = match read_header_flags(flag_byte) {
        Some(f) => f,
        None => return Err(DecodeError::InvalidFlags),
    };
    let size = bytes.read_synchsafe_u32()?;
    assert(s.skip(6).take(4) =~= s.subrange(6, 10));
    assert(bytes.rest() =~= s.skip(10));
    if flags.extended {
        let ext = read_ext_header(bytes)?;
        let size = if size >= 10 {
            size - 10
        } else {
            0
        };
        Ok(Header { version: (major, minor), flags, size, extended_header: Some(ext) })
    } else {
        Ok(Header { version: (major, minor), flags, size, extended_header: None })
    }
}

} // verus!
