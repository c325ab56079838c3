use crate::cursor::Bytes;
use crate::encoding::{
    encoding_of, lemma_terminator_pos, terminated_len, terminated_text, EncodingTypes, MAX_TEXT_LEN,
};
use crate::error::DecodeError;
use vstd::prelude::*;

verus! {

broadcast use Bytes::lemma_moved_twice;

/// Flags of an ID3v2.3 frame, read as one big-endian 16-bit value made of a
/// status byte and a format byte. Only the top three bits of each are defined.
#[derive(Debug, Clone, Copy, PartialEq, Eq, Structural)]
pub struct FrameFlags {
    /// Status bit 7 (`0x8000`).
    pub tag_alter_preservation: bool,
    /// Status bit 6 (`0x4000`).
    pub file_alter_preservation: bool,
    /// Status bit 5 (`0x2000`).
    pub read_only: bool,
    /// Format bit 7 (`0x0080`).
    pub compression: bool,
    /// Format bit 6 (`0x0040`).
    pub encryption: bool,
    /// Format bit 5 (`0x0020`).
    pub grouping: bool,
}

/// The frame flags that `bits` holds; `None` when an undefined bit is set.
pub open spec fn spec_frame_flags(bits: u16) -> Option<FrameFlags> {
    if bits & 0x1f1f != 0 {
        None
    } else {
        Some(
            FrameFlags {
                tag_alter_preservation: bits & 0x8000 != 0,
                file_alter_preservation: bits & 0x4000 != 0,
                read_only: bits & 0x2000 != 0,
                compression: bits & 0x0080 != 0,
                encryption: bits & 0x0040 != 0,
                grouping: bits & 0x0020 != 0,
            },
        )
    }
}

/// Parses frame flags strictly: an undefined bit set gives `None`.
pub fn read_frame_flags(bits: u16) -> (r: Option<FrameFlags>)
    ensures
        r == spec_frame_flags(bits),
{
    if bits & 0x1f1f != 0 {
        None
    } else {
        Some(
            FrameFlags {
                tag_alter_preservation: bits & 0x8000 != 0,
                file_alter_preservation: bits & 0x4000 != 0,
                read_only: bits & 0x2000 != 0,
                compression: bits & 0x0080 != 0,
                encryption: bits & 0x0040 != 0,
                grouping: bits & 0x0020 != 0,
            },
        )
    }
}

/// The decoded body of a frame, one variant per supported identifier.
#[derive(Debug, PartialEq, Eq)]
pub enum FrameType {
    /// Title.
    TIT2(String),
    /// Lead performer.
    TPE1(String),
    /// Album.
    TALB(String),
    /// Year.
    TYER(String),
    /// Content type (genre).
    TCON(String),
    /// User-defined text.
    TXXX(String),
    /// Comment: language code, short description, text.
    COMM([u8; 3], String, String),
}

/// What a frame body holds, as text.
pub enum FrameValue {
    TIT2(Seq<char>),
    TPE1(Seq<char>),
    TALB(Seq<char>),
    TYER(Seq<char>),
    TCON(Seq<char>),
    TXXX(Seq<char>),
    COMM(Seq<u8>, Seq<char>, Seq<char>),
}

impl View for FrameType {
    type V = FrameValue;

    open spec fn view(&self) -> FrameValue {
        match self {
            FrameType::TIT2(s) => FrameValue::TIT2(s@),
            FrameType::TPE1(s) => FrameValue::TPE1(s@),
            FrameType::TALB(s) => FrameValue::TALB(s@),
            FrameType::TYER(s) => FrameValue::TYER(s@),
            FrameType::TCON(s) => FrameValue::TCON(s@),
            FrameType::TXXX(s) => FrameValue::TXXX(s@),
            FrameType::COMM(lang, short, long) => FrameValue::COMM(lang@, short@, long@),
        }
    }
}

/// Whether `id` is the four bytes `a`, `b`, `c`, `d`.
pub open spec fn id_is(id: Seq<u8>, a: u8, b: u8, c: u8, d: u8) -> bool {
    id.len() == 4 && id[0] == a && id[1] == b && id[2] == c && id[3] == d
}

/// The text-frame value for identifier `id` holding `text`; `None` when `id`
/// is not one of the text frames.
pub open spec fn text_value(id: Seq<u8>, text: Seq<char>) -> Option<FrameValue> {
    if id_is(id, 0x54, 0x49, 0x54, 0x32) {
        Some(FrameValue::TIT2(text))
    } else if id_is(id, 0x54, 0x50, 0x45, 0x31) {
        Some(FrameValue::TPE1(text))
    } else if id_is(id, 0x54, 0x41, 0x4c, 0x42) {
        Some(FrameValue::TALB(text))
    } else if id_is(id, 0x54, 0x59, 0x45, 0x52) {
        Some(FrameValue::TYER(text))
    } else if id_is(id, 0x54, 0x43, 0x4f, 0x4e) {
        Some(FrameValue::TCON(text))
    } else if id_is(id, 0x54, 0x58, 0x58, 0x58) {
        Some(FrameValue::TXXX(text))
    } else {
        None
    }
}

/// Whether `id` is the comment frame identifier `COMM`.
pub open spec fn is_comment_id(id: Seq<u8>) -> bool {
    id_is(id, 0x43, 0x4f, 0x4d, 0x4d)
}

/// Text of a text-frame body: an encoding selector, then one null-terminated
/// string in that encoding filling the rest.
pub open spec fn spec_text_body(body: Seq<u8>) -> Result<Seq<char>, DecodeError> {
    if body.len() == 0 {
        Err(DecodeError::UnknownFrameBody)
    } else {
        match encoding_of(body[0]) {
            None => Err(DecodeError::UnknownFrameBody),
            Some(enc) => Ok(terminated_text(enc, body.skip(1))),
        }
    }
}

/// Value of a comment-frame body: an encoding selector, a three-byte language
/// code, a null-terminated short description, then the text up to the end.
pub open spec fn spec_comment_body(body: Seq<u8>) -> Result<FrameValue, DecodeError> {
    if body.len() < 4 {
        Err(DecodeError::UnknownFrameBody)
    } else {
        match encoding_of(body[0]) {
            None => Err(DecodeError::UnknownFrameBody),
            Some(enc) => {
                let rest = body.skip(4);
                let used = terminated_len(rest, enc.is_wide());
                Ok(
                    FrameValue::COMM(
                        body.subrange(1, 4),
                        terminated_text(enc, rest),
                        enc.text_of(rest.skip(used as int)),
                    ),
                )
            },
        }
    }
}

/// Value of the body of a frame with identifier `id`.
pub open spec fn spec_frame_body(id: Seq<u8>, body: Seq<u8>) -> Result<FrameValue, DecodeError> {
    if text_value(id, Seq::empty()) is Some {
        match spec_text_body(body) {
            Ok(text) => Ok(text_value(id, text)->0),
            Err(e) => Err(e),
        }
    } else if is_comment_id(id) {
        spec_comment_body(body)
    } else {
        Err(DecodeError::UnknownFrameType)
    }
}

fn id_matches(name: &[u8], a: u8, b: u8, c: u8, d: u8) -> (r: bool)
    ensures
        r == id_is(name@, a, b, c, d),
{
    name.len() == 4 && name[0] == a && name[1] == b && name[2] == c && name[3] == d
}

/// Decodes a text-frame body: an encoding selector, then one null-terminated
/// string in that encoding. An empty body or an unknown selector fails with
/// `UnknownFrameBody`.
pub fn parse_frame_body(body: &[u8]) -> (r: Result<String, DecodeError>)
    requires
        body@.len() <= MAX_TEXT_LEN,
    ensures
        match spec_text_body(body@) {
            Ok(text) => r matches Ok(s) && s@ == text,
            Err(e) => r == Err::<String, DecodeError>(e),
        },
{
    let mut cursor = Bytes::from_slice(body);
    match cursor.get_string() {
        Ok(s) => Ok(s),
        Err(_) => Err(DecodeError::UnknownFrameBody),
    }
}

fn parse_comment_body(body: &[u8]) -> (r: Result<FrameType, DecodeError>)
    requires
        body@.len() <= MAX_TEXT_LEN,
    ensures
        match spec_comment_body(body@) {
            Ok(v) => r matches Ok(f) && f@ == v,
            Err(e) => r == Err::<FrameType, DecodeError>(e),
        },
{
    if body.len() < 4 {
        return Err(DecodeError::UnknownFrameBody);
    }
    let mut cursor = Bytes::from_slice(body);
    let selector = cursor.read_byte()?;
    let encoding = match EncodingTypes::from_byte(selector) {
        Some(enc) => enc,
        None => return Err(DecodeError::UnknownFrameBody),
    };
    let lang = cursor.read_slice(3)?;
    let language: [u8; 3] = [lang[0], lang[1], lang[2]];
    assert(language@ =~= body@.subrange(1, 4));
    assert(cursor.rest() =~= body@.skip(4));
    proof {
        lemma_terminator_pos(body@.skip(4), encoding.is_wide());
    }
    let short = cursor.get_encoded_string(&encoding);
    let tail = cursor.read_to_end();
    let long = encoding.decode(tail.as_slice());
    Ok(FrameType::COMM(language, short, long))
}

impl FrameType {
    /// The text-frame variant for identifier `name` holding `value`; `None`
    /// when `name` is not a text-frame identifier.
    pub fn from_slice(name: &[u8], value: String) -> (r: Option<FrameType>)
        ensures
            match text_value(name@, value@) {
                Some(v) => r matches Some(f) && f@ == v,
                None => r is None,
            },
    {
        if id_matches(name, 0x54, 0x49, 0x54, 0x32) {
            Some(FrameType::TIT2(value))
        } else if id_matches(name, 0x54, 0x50, 0x45, 0x31) {
            Some(FrameType::TPE1(value))
        } else if id_matches(name, 0x54, 0x41, 0x4c, 0x42) {
            Some(FrameType::TALB(value))
        } else if id_matches(name, 0x54, 0x59, 0x45, 0x52) {
            Some(FrameType::TYER(value))
        } else if id_matches(name, 0x54, 0x43, 0x4f, 0x4e) {
            Some(FrameType::TCON(value))
        } else if id_matches(name, 0x54, 0x58, 0x58, 0x58) {
            Some(FrameType::TXXX(value))
        } else {
            None
        }
    }

    /// The text-frame variant for the identifier spelled by `name` holding
    /// `value`; `None` when `name` is not a text-frame identifier.
    pub fn get_type(name: &String, value: String) -> (r: Option<FrameType>)
        ensures
            match text_value(vstd::utf8::encode_utf8(name@), value@) {
                Some(v) => r matches Some(f) && f@ == v,
                None => r is None,
            },
    {
        FrameType::from_slice(name.as_str().as_bytes(), value)
    }

    /// Decodes the body of a frame with identifier `name`. An identifier
    /// without a decoder fails with `UnknownFrameType`; a body that cannot be
    /// decoded fails with `UnknownFrameBody`.
    pub fn from_name(name: &[u8], body: &[u8]) -> (r: Result<FrameType, DecodeError>)
        requires
            body@.len() <= MAX_TEXT_LEN,
        ensures
            match spec_frame_body(name@, body@) {
                Ok(v) => r matches Ok(f) && f@ == v,
                Err(e) => r == Err::<FrameType, DecodeError>(e),
            },
    {
        if id_matches(name, 0x43, 0x4f, 0x4d, 0x4d) {
            return parse_comment_body(body);
        }
        let probe = FrameType::from_slice(name, String::new());
        if probe.is_none() {
            return Err(DecodeError::UnknownFrameType);
        }
        let text = parse_frame_body(body)?;
        match FrameType::from_slice(name, text) {
            Some(f) => Ok(f),
            None => Err(DecodeError::UnknownFrameType),
        }
    }

    /// Text that names the kind of frame.
    pub open spec fn spec_description(self) -> Seq<char> {
        match self {
            FrameType::TIT2(_) => "Title/songname/content description"@,
            FrameType::TPE1(_) => "Lead performer(s)/Soloist(s)"@,
            FrameType::TALB(_) => "Album/Movie/Show title"@,
            FrameType::TYER(_) => "Year"@,
            FrameType::TCON(_) => "Content type"@,
            FrameType::TXXX(_) => "User defined text information frame"@,
            FrameType::COMM(_, _, _) => "Comments"@,
        }
    }

    /// Text that names the kind of frame.
    pub fn get_description(&self) -> (r: String)
        ensures
            r@ == self.spec_description(),
    {
        match self {
            FrameType::TIT2(_) => String::from_str("Title/songname/content description"),
            FrameType::TPE1(_) => String::from_str("Lead performer(s)/Soloist(s)"),
            FrameType::TALB(_) => String::from_str("Album/Movie/Show title"),
            FrameType::TYER(_) => String::from_str("Year"),
            FrameType::TCON(_) => String::from_str("Content type"),
            FrameType::TXXX(_) => String::from_str("User defined text information frame"),
            FrameType::COMM(_, _, _) => String::from_str("Comments"),
        }
    }

    /// The main text of the frame: a text frame's text, or a comment's text.
    pub open spec fn spec_value(self) -> Seq<char> {
        match self {
            FrameType::TIT2(s) => s@,
            FrameType::TPE1(s) => s@,
            FrameType::TALB(s) => s@,
            FrameType::TYER(s) => s@,
            FrameType::TCON(s) => s@,
            FrameType::TXXX(s) => s@,
            FrameType::COMM(_, _, long) => long@,
        }
    }

    /// The main text of the frame: a text frame's text, or a comment's text.
    pub fn get_value(&self) -> (r: String)
        ensures
            r@ == self.spec_value(),
    {
        match self {
            FrameType::TIT2(s) => s.clone(),
            FrameType::TPE1(s) => s.clone(),
            FrameType::TALB(s) => s.clone(),
            FrameType::TYER(s) => s.clone(),
            FrameType::TCON(s) => s.clone(),
            FrameType::TXXX(s) => s.clone(),
            FrameType::COMM(_, _, long) => long.clone(),
        }
    }
}

/// One decoded ID3v2 frame.
#[derive(Debug, PartialEq, Eq)]
pub struct Frame {
    pub frame_type: FrameType,
    /// Size of the body as stored, frame header excluded.
    pub size: u32,
    pub flags: FrameFlags,
}

/// What a decoded frame holds.
pub struct FrameView {
    pub value: FrameValue,
    pub size: u32,
    pub flags: FrameFlags,
}

impl View for Frame {
    type V = FrameView;

    open spec fn view(&self) -> FrameView {
        FrameView { value: self.frame_type@, size: self.size, flags: self.flags }
    }
}

} // verus!
