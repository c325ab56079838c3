use crate::cursor::Bytes;
use crate::encoding::{lemma_no_terminator, utf8_text};
use crate::error::DecodeError;
use crate::frame::{
    id_is, is_comment_id, read_frame_flags, spec_frame_body, spec_frame_flags, text_value, Frame,
    FrameFlags, FrameType, FrameValue, FrameView,
};
use crate::header::{read_header, spec_header, spec_header_flags, starts_with3, Flags, Header};
use crate::synchsafe::{be_value, lemma_synchsafe_value_28_bits, synchsafe_value};
use vstd::prelude::*;

verus! {

broadcast use Bytes::lemma_moved_twice;

/// A decoded ID3v2 tag: its header and its frames in stream order.
#[derive(Debug)]
pub struct ID3v2 {
    pub header: Header,
    pub frames: Vec<Frame>,
}

/// What one pass of the frame loop finds at the start of `s`.
pub enum FrameStep {
    /// Padding or the end of the tag: the loop stops.
    End,
    /// A frame of `size` body bytes, and its value when the body decodes.
    Frame(Option<FrameView>, nat),
}

/// One pass of the frame loop over `s` with `remaining` bytes left in the tag:
/// a ten-byte frame header (identifier, synchsafe size, flags), then the body.
/// An all-zero identifier is padding and a frame larger than what is left of
/// the tag ends the loop; bad flags and a short buffer are fatal; a frame whose
/// body does not decode is passed over.
pub open spec fn spec_frame_step(s: Seq<u8>, remaining: nat) -> Result<FrameStep, DecodeError> {
    if s.len() < 10 {
        Err(DecodeError::UnexpectedEof)
    } else if id_is(s.take(4), 0, 0, 0, 0) {
        Ok(FrameStep::End)
    } else {
        let size = synchsafe_value(s.subrange(4, 8));
        match spec_frame_flags(be_value(s.subrange(8, 10)) as u16) {
            None => Err(DecodeError::InvalidFlags),
            Some(flags) => if size + 10 > remaining {
                Ok(FrameStep::End)
            } else if s.len() < size + 10 {
                Err(DecodeError::UnexpectedEof)
            } else {
                match spec_frame_body(s.take(4), s.subrange(10, 10 + size as int)) {
                    Ok(value) => Ok(
                        FrameStep::Frame(
                            Some(FrameView { value, size: size as u32, flags }),
                            size,
                        ),
                    ),
                    Err(_) => Ok(FrameStep::Frame(None, size)),
                }
            },
        }
    }
}

/// `prefix` in front of the frames of `r`, or the error of `r`.
pub open spec fn prepend(prefix: Seq<FrameView>, r: Result<Seq<FrameView>, DecodeError>) -> Result<
    Seq<FrameView>,
    DecodeError,
> {
    match r {
        Ok(frames) => Ok(prefix + frames),
        Err(e) => Err(e),
    }
}

/// The frames of the tag body that starts at `pos` of `data`, `remaining`
/// bytes long. The loop runs while more than ten bytes (one frame header) are
/// left; every frame read, kept or passed over, takes its size and ten bytes
/// off what is left.
pub open spec fn spec_frames(data: Seq<u8>, pos: nat, remaining: nat) -> Result<
    Seq<FrameView>,
    DecodeError,
>
    decreases remaining,
{
    if remaining <= 10 {
        Ok(Seq::empty())
    } else {
        match spec_frame_step(data.skip(pos as int), remaining) {
            Err(e) => Err(e),
            Ok(FrameStep::End) => Ok(Seq::empty()),
            Ok(FrameStep::Frame(frame, size)) => if size + 10 <= remaining {
                let rest = spec_frames(data, pos + size + 10, (remaining - size - 10) as nat);
                match frame {
                    Some(f) => prepend(seq![f], rest),
                    None => rest,
                }
            } else {
                Ok(Seq::empty())
            },
        }
    }
}

/// The header and frames of the ID3v2 tag at the start of `data`.
pub open spec fn spec_tag(data: Seq<u8>) -> Result<(Header, Seq<FrameView>), DecodeError> {
    match spec_header(data) {
        Err(e) => Err(e),
        Ok((header, n)) => match spec_frames(data, n, header.size as nat) {
            Ok(frames) => Ok((header, frames)),
            Err(e) => Err(e),
        },
    }
}

enum FrameRead {
    End,
    Frame(Option<Frame>, u32),
}

spec fn frame_read_view(f: Option<Frame>) -> Option<FrameView> {
    match f {
        Some(frame) => Some(frame@),
        None => None,
    }
}

fn read_frame(bytes: &mut Bytes, remaining: u32) -> (r: Result<FrameRead, DecodeError>)
    ensures
        match spec_frame_step(old(bytes).rest(), remaining as nat) {
            Err(e) => r matches Err(e2) && e2 == e,
            Ok(FrameStep::End) => r matches Ok(FrameRead::End),
            Ok(FrameStep::Frame(frame, size)) => r matches Ok(FrameRead::Frame(f, n)) && n == size
                && frame_read_view(f) == frame && final(bytes).moved(*old(bytes), size + 10),
        },
{
    let ghost s = bytes.rest();
    if bytes.get_readable_bytes() < 10 {
        return Err(DecodeError::UnexpectedEof);
    }
    let id = bytes.read_slice(4)?;
    if id[0] == 0 && id[1] == 0 && id[2] == 0 && id[3] == 0 {
        return Ok(FrameRead::End);
    }
    let size = bytes.read_synchsafe_u32()?;
    let raw_flags = bytes.read_u16()?;
    assert(s.skip(4).take(4) =~= s.subrange(4, 8));
    assert(s.skip(8).take(2) =~= s.subrange(8, 10));
    proof {
        lemma_synchsafe_value_28_bits(s.subrange(4, 8));
    }
    let flags = match read_frame_flags(raw_flags) {
        Some(f) => f,
        None => return Err(DecodeError::InvalidFlags),
    };
    if size as u64 + 10 > remaining as u64 {
        return Ok(FrameRead::End);
    }
    let body = bytes.read_slice(size as usize)?;
    assert(s.skip(10).take(size as int) =~= s.subrange(10, 10 + size as int));
    match FrameType::from_name(id.as_slice(), body.as_slice()) {
        Ok(frame_type) => Ok(FrameRead::Frame(Some(Frame { frame_type, size, flags }), size)),
        Err(e) => if e.is_recoverable() {
            Ok(FrameRead::Frame(None, size))
        } else {
            Err(e)
        },
    }
}

/// Decodes the ID3v2 tag at the start of `data`: the header, then frames
/// until the declared size is used up, padding is reached, or a fatal error
/// stops the decode. Frames with an unknown identifier or an undecodable body
/// are left out.
pub fn read_id3v2(data: &[u8]) -> (r: Result<ID3v2, DecodeError>)
    ensures
        match spec_tag(data@) {
            Ok((header, frames)) => r matches Ok(tag) && tag.header == header
                && tag.frames@.map_values(|f: Frame| f@) == frames,
            Err(e) => r matches Err(e2) && e2 == e,
        },
{
    let mut bytes = Bytes::from_slice(data);
    let header = read_header(&mut bytes)?;
    let ghost start = bytes.pos();
    assert(bytes.rest() == data@.skip(bytes.pos() as int));
    let mut remaining: u32 = header.size;
    let mut frames: Vec<Frame> = Vec::new();
    assert(frames@.map_values(|f: Frame| f@) =~= Seq::<FrameView>::empty());
    while remaining > 10
        invariant_except_break
            bytes.data() == data@,
            bytes.rest() == data@.skip(bytes.pos() as int),
            spec_frames(data@, start, header.size as nat) == prepend(
                frames@.map_values(|f: Frame| f@),
                spec_frames(data@, bytes.pos(), remaining as nat),
            ),
        invariant
            spec_header(data@) matches Ok((h, n)) && h == header && n == start,
        ensures
            spec_frames(data@, start, header.size as nat) == Ok::<Seq<FrameView>, DecodeError>(
                frames@.map_values(|f: Frame| f@),
            ),
        decreases remaining,
    {
        let ghost before = bytes;
        let ghost prefix = frames@.map_values(|f: Frame| f@);
        match read_frame(&mut bytes, remaining) {
            Err(e) => {
                assert(spec_frames(data@, before.pos(), remaining as nat) == Err::<
                    Seq<FrameView>,
                    DecodeError,
                >(e));
                return Err(e);
            },
            Ok(FrameRead::End) => {
                assert(spec_frames(data@, before.pos(), remaining as nat) == Ok::<
                    Seq<FrameView>,
                    DecodeError,
                >(Seq::empty()));
                assert(prefix + Seq::<FrameView>::empty() =~= prefix);
                break ;
            },
            Ok(FrameRead::Frame(frame, size)) => {
                remaining = remaining - size - 10;
                match frame {
                    Some(f) => {
                        frames.push(f);
                        let ghost rest = spec_frames(data@, bytes.pos(), remaining as nat);
                        assert(frames@.map_values(|f: Frame| f@) =~= prefix.push(f@));
                        proof {
                            if let Ok(fs) = rest {
                                assert(prefix + (seq![f@] + fs) =~= prefix.push(f@) + fs);
                            }
                        }
                    },
                    None => {},
                }
            },
        }
    }
    proof {
        if remaining <= 10 {
        }
    }
    Ok(ID3v2 { header, frames })
}

/// Bytes of one frame whose flags are all clear: identifier, size field, two
/// zero flag bytes, body.
pub open spec fn frame_bytes(id: Seq<u8>, size_field: Seq<u8>, body: Seq<u8>) -> Seq<u8> {
    id + size_field + seq![0u8, 0u8] + body
}

/// Bytes of an ID3v2 tag whose header flags are all clear: "ID3", the two
/// version bytes, a zero flag byte, the size field, then the tag body.
pub open spec fn tag_bytes(major: u8, minor: u8, size_field: Seq<u8>, body: Seq<u8>) -> Seq<u8> {
    seq![0x49u8, 0x44u8, 0x33u8, major, minor, 0u8] + size_field + body
}

/// Frame flags with every flag clear.
pub open spec fn clear_frame_flags() -> FrameFlags {
    FrameFlags {
        tag_alter_preservation: false,
        file_alter_preservation: false,
        read_only: false,
        compression: false,
        encryption: false,
        grouping: false,
    }
}

/// Header flags with every flag clear.
pub open spec fn clear_header_flags() -> Flags {
    Flags { unsynchronized: false, extended: false, experimental: false, has_footer: false }
}

proof fn lemma_clear_flags()
    ensures
        be_value(seq![0u8, 0u8]) == 0,
        spec_frame_flags(0) == Some(clear_frame_flags()),
        spec_header_flags(0) == Some(clear_header_flags()),
{
    assert(seq![0u8, 0u8].drop_last() =~= seq![0u8]);
    assert(seq![0u8].drop_last() =~= Seq::<u8>::empty());
    assert(be_value(Seq::<u8>::empty()) == 0);
    assert(be_value(seq![0u8]) == 0);
    assert(be_value(seq![0u8, 0u8]) == 0);
    assert(0u16 & 0x1f1f == 0 && 0u16 & 0x8000 == 0 && 0u16 & 0x4000 == 0 && 0u16 & 0x2000 == 0
        && 0u16 & 0x0080 == 0 && 0u16 & 0x0040 == 0 && 0u16 & 0x0020 == 0) by (bit_vector);
    assert(0u8 & 0x0f == 0 && 0u8 & 0x80 == 0 && 0u8 & 0x40 == 0 && 0u8 & 0x20 == 0 && 0u8 & 0x10
        == 0) by (bit_vector);
}

/// One pass of the frame loop over a frame with clear flags whose size field
/// holds the body length, when the frame fits in what is left of the tag.
proof fn lemma_frame_step(
    id: Seq<u8>,
    size_field: Seq<u8>,
    body: Seq<u8>,
    tail: Seq<u8>,
    remaining: nat,
)
    requires
        id.len() == 4,
        !id_is(id, 0, 0, 0, 0),
        size_field.len() == 4,
        synchsafe_value(size_field) == body.len(),
        body.len() + 10 <= remaining,
    ensures
        spec_frame_step(frame_bytes(id, size_field, body) + tail, remaining) == Ok::<
            FrameStep,
            DecodeError,
        >(
            FrameStep::Frame(
                match spec_frame_body(id, body) {
                    Ok(value) => Some(
                        FrameView { value, size: body.len() as u32, flags: clear_frame_flags() },
                    ),
                    Err(_) => None,
                },
                body.len(),
            ),
        ),
{
    let s = frame_bytes(id, size_field, body) + tail;
    assert(s.take(4) =~= id);
    assert(s.subrange(4, 8) =~= size_field);
    assert(s.subrange(8, 10) =~= seq![0u8, 0u8]);
    assert(s.subrange(10, 10 + body.len() as int) =~= body);
    lemma_clear_flags();
}

/// The value of a UTF-8 text frame whose text has no zero byte.
proof fn lemma_utf8_text_body(id: Seq<u8>, text: Seq<u8>)
    requires
        text_value(id, Seq::empty()) is Some,
        forall|i: int| 0 <= i < text.len() ==> text[i] != 0,
    ensures
        spec_frame_body(id, seq![3u8] + text) == Ok::<FrameValue, DecodeError>(
            text_value(id, utf8_text(text))->0,
        ),
{
    assert((seq![3u8] + text).skip(1) =~= text);
    lemma_no_terminator(text);
    assert(text.take(text.len() as int) =~= text);
}

/// Decoding gives back what was encoded: a tag with clear flags that holds
/// one text frame (any text-frame identifier, UTF-8 text without a zero byte),
/// with both size fields holding the right lengths in the synchsafe scheme,
/// decodes to exactly one frame, of that identifier and that text.
pub proof fn lemma_text_frame_round_trip(
    major: u8,
    minor: u8,
    tag_size: Seq<u8>,
    frame_size: Seq<u8>,
    id: Seq<u8>,
    text: Seq<u8>,
)
    requires
        tag_size.len() == 4,
        frame_size.len() == 4,
        synchsafe_value(frame_size) == text.len() + 1,
        synchsafe_value(tag_size) == text.len() + 11,
        text_value(id, Seq::empty()) is Some,
        forall|i: int| 0 <= i < text.len() ==> text[i] != 0,
    ensures
        spec_tag(tag_bytes(major, minor, tag_size, frame_bytes(id, frame_size, seq![3u8] + text)))
            == Ok::<(Header, Seq<FrameView>), DecodeError>(
            (
                Header {
                    version: (major, minor),
                    flags: clear_header_flags(),
                    size: (text.len() + 11) as u32,
                    extended_header: None,
                },
                seq![
                    FrameView {
                        value: text_value(id, utf8_text(text))->0,
                        size: (text.len() + 1) as u32,
                        flags: clear_frame_flags(),
                    },
                ],
            ),
        ),
{
    let body = seq![3u8] + text;
    let frame = frame_bytes(id, frame_size, body);
    let data = tag_bytes(major, minor, tag_size, frame);
    let remaining = text.len() + 11;
    lemma_synchsafe_value_28_bits(tag_size);
    lemma_clear_flags();
    assert(data.subrange(6, 10) =~= tag_size);
    assert(starts_with3(data, 0x49, 0x44, 0x33));
    let header = Header {
        version: (major, minor),
        flags: clear_header_flags(),
        size: remaining as u32,
        extended_header: None,
    };
    assert(spec_header(data) == Ok::<(Header, nat), DecodeError>((header, 10)));
    assert(data.skip(10) =~= frame + Seq::<u8>::empty());
    lemma_frame_step(id, frame_size, body, Seq::empty(), remaining);
    lemma_utf8_text_body(id, text);
    let view = FrameView {
        value: text_value(id, utf8_text(text))->0,
        size: (text.len() + 1) as u32,
        flags: clear_frame_flags(),
    };
    assert(spec_frame_step(data.skip(10), remaining) == Ok::<FrameStep, DecodeError>(
        FrameStep::Frame(Some(view), body.len()),
    ));
    assert(spec_frames(data, 10 + body.len() + 10, 0) == Ok::<Seq<FrameView>, DecodeError>(
        Seq::empty(),
    ));
    assert(seq![view] + Seq::<FrameView>::empty() =~= seq![view]);
    assert(spec_frames(data, 10, remaining) == Ok::<Seq<FrameView>, DecodeError>(seq![view]));
}

/// A frame whose identifier has no decoder is passed over, not fatal: a tag
/// with clear flags that holds one UTF-8 text frame (as in the round trip)
/// and then a frame with any other identifier that is neither padding nor
/// `COMM`, with every size field right, decodes to exactly the text frame.
pub proof fn lemma_unknown_frame_skipped(
    major: u8,
    minor: u8,
    tag_size: Seq<u8>,
    frame_size: Seq<u8>,
    id: Seq<u8>,
    text: Seq<u8>,
    other_size: Seq<u8>,
    other_id: Seq<u8>,
    other_body: Seq<u8>,
)
    requires
        tag_size.len() == 4,
        frame_size.len() == 4,
        other_size.len() == 4,
        other_id.len() == 4,
        synchsafe_value(frame_size) == text.len() + 1,
        synchsafe_value(other_size) == other_body.len(),
        synchsafe_value(tag_size) == text.len() + 11 + other_body.len() + 10,
        text_value(id, Seq::empty()) is Some,
        forall|i: int| 0 <= i < text.len() ==> text[i] != 0,
        !id_is(other_id, 0, 0, 0, 0),
        text_value(other_id, Seq::empty()) is None,
        !is_comment_id(other_id),
    ensures
        spec_tag(
            tag_bytes(
                major,
                minor,
                tag_size,
                frame_bytes(id, frame_size, seq![3u8] + text) + frame_bytes(
                    other_id,
                    other_size,
                    other_body,
                ),
            ),
        ) matches Ok((header, frames)) && frames == seq![
            FrameView {
                value: text_value(id, utf8_text(text))->0,
                size: (text.len() + 1) as u32,
                flags: clear_frame_flags(),
            },
        ],
{
    let body = seq![3u8] + text;
    let first = frame_bytes(id, frame_size, body);
    let second = frame_bytes(other_id, other_size, other_body);
    let data = tag_bytes(major, minor, tag_size, first + second);
    let remaining = text.len() + 11 + other_body.len() + 10;
    lemma_synchsafe_value_28_bits(tag_size);
    lemma_clear_flags();
    assert(data.subrange(6, 10) =~= tag_size);
    assert(starts_with3(data, 0x49, 0x44, 0x33));
    let header = Header {
        version: (major, minor),
        flags: clear_header_flags(),
        size: remaining as u32,
        extended_header: None,
    };
    assert(spec_header(data) == Ok::<(Header, nat), DecodeError>((header, 10)));
    assert(data.skip(10) =~= first + second);
    lemma_frame_step(id, frame_size, body, second, remaining);
    lemma_utf8_text_body(id, text);
    let view = FrameView {
        value: text_value(id, utf8_text(text))->0,
        size: (text.len() + 1) as u32,
        flags: clear_frame_flags(),
    };
    assert(spec_frame_step(data.skip(10), remaining) == Ok::<FrameStep, DecodeError>(
        FrameStep::Frame(Some(view), body.len()),
    ));
    let next = 10 + body.len() + 10;
    let left = (remaining - body.len() - 10) as nat;
    assert(left == other_body.len() + 10);
    assert(data.skip(next as int) =~= second + Seq::<u8>::empty());
    lemma_frame_step(other_id, other_size, other_body, Seq::empty(), left);
    assert(spec_frame_body(other_id, other_body) is Err);
    assert(spec_frame_step(data.skip(next as int), left) == Ok::<FrameStep, DecodeError>(
        FrameStep::Frame(None, other_body.len()),
    ));
    assert(spec_frames(data, next + other_body.len() + 10, 0) == Ok::<Seq<FrameView>, DecodeError>(
        Seq::empty(),
    ));
    assert(spec_frames(data, next, left) == Ok::<Seq<FrameView>, DecodeError>(Seq::empty()));
    assert(seq![view] + Seq::<FrameView>::empty() =~= seq![view]);
    assert(spec_frames(data, 10, remaining) == Ok::<Seq<FrameView>, DecodeError>(seq![view]));
}

} // verus!
