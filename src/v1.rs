use crate::cursor::Bytes;
use crate::encoding::{convert_latin1, lemma_terminator_pos, next_null, terminated_text, EncodingTypes};
use crate::error::DecodeError;
use crate::header::starts_with3;
use vstd::prelude::*;

verus! {

broadcast use Bytes::lemma_moved_twice;

/// A decoded ID3v1 tag, merged with the extended trailer when one was found.
#[derive(Debug, Default)]
pub struct ID3v1 {
    pub song_name: String,
    pub artist: String,
    pub album_name: String,
    pub year: String,
    pub comment: String,
    /// Album track number; 0 when the comment field holds none.
    pub album_track: u8,
    /// Index into the ID3v1 genre list.
    pub song_genre: u8,
    /// Free-text genre of the extended trailer, when there is one.
    pub song_sub_genre: Option<String>,
}

/// The fields of the extended ("EXT") trailer that precedes an ID3v1 tag.
#[derive(Debug, Default)]
pub struct ID3v1Ext {
    pub song_name: String,
    pub artist: String,
    pub album_name: String,
    pub comment: String,
    pub sub_genre: String,
}

/// What an ID3v1 tag holds, as text.
pub struct ID3v1View {
    pub song_name: Seq<char>,
    pub artist: Seq<char>,
    pub album_name: Seq<char>,
    pub year: Seq<char>,
    pub comment: Seq<char>,
    pub album_track: u8,
    pub song_genre: u8,
    pub song_sub_genre: Option<Seq<char>>,
}

/// What an extended ID3v1 trailer holds, as text.
pub struct ID3v1ExtView {
    pub song_name: Seq<char>,
    pub artist: Seq<char>,
    pub album_name: Seq<char>,
    pub comment: Seq<char>,
    pub sub_genre: Seq<char>,
}

impl View for ID3v1 {
    type V = ID3v1View;

    open spec fn view(&self) -> ID3v1View {
        ID3v1View {
            song_name: self.song_name@,
            artist: self.artist@,
            album_name: self.album_name@,
            year: self.year@,
            comment: self.comment@,
            album_track: self.album_track,
            song_genre: self.song_genre,
            song_sub_genre: match self.song_sub_genre {
                Some(s) => Some(s@),
                None => None,
            },
        }
    }
}

impl View for ID3v1Ext {
    type V = ID3v1ExtView;

    open spec fn view(&self) -> ID3v1ExtView {
        ID3v1ExtView {
            song_name: self.song_name@,
            artist: self.artist@,
            album_name: self.album_name@,
            comment: self.comment@,
            sub_genre: self.sub_genre@,
        }
    }
}

/// Text of a fixed-width Latin-1 field: the bytes before its first zero byte.
pub open spec fn fixed_text(field: Seq<u8>) -> Seq<char> {
    terminated_text(EncodingTypes::Latin1, field)
}

/// Whether the 30-byte comment field `c` ends with a track number: byte 28 is
/// zero and byte 29 is not.
pub open spec fn has_track(c: Seq<u8>) -> bool {
    c[28] == 0 && c[29] != 0
}

/// The track number held by the comment field `c`, 0 when it holds none.
pub open spec fn track_of(c: Seq<u8>) -> u8 {
    if has_track(c) {
        c[29]
    } else {
        0
    }
}

/// The comment text of the comment field `c`: its first 28 bytes when the
/// last two hold a track number, all 30 otherwise, up to the first zero byte.
pub open spec fn comment_of(c: Seq<u8>) -> Seq<char> {
    if has_track(c) {
        fixed_text(c.take(28))
    } else {
        fixed_text(c)
    }
}

/// The fields of an ID3v1 tag whose 125 bytes after "TAG" start `s`: title,
/// artist and album of 30 bytes, year of 4, comment of 30, genre of 1.
pub open spec fn spec_tag_fields(s: Seq<u8>) -> ID3v1View {
    ID3v1View {
        song_name: fixed_text(s.subrange(0, 30)),
        artist: fixed_text(s.subrange(30, 60)),
        album_name: fixed_text(s.subrange(60, 90)),
        year: fixed_text(s.subrange(90, 94)),
        comment: comment_of(s.subrange(94, 124)),
        album_track: track_of(s.subrange(94, 124)),
        song_genre: s[124],
        song_sub_genre: None,
    }
}

/// The fields of an extended trailer whose 125 bytes after "EXT" start `s`:
/// title, artist and album of 30 bytes, comment of 15, sub-genre of 20.
pub open spec fn spec_ext_fields(s: Seq<u8>) -> ID3v1ExtView {
    ID3v1ExtView {
        song_name: fixed_text(s.subrange(0, 30)),
        artist: fixed_text(s.subrange(30, 60)),
        album_name: fixed_text(s.subrange(60, 90)),
        comment: fixed_text(s.subrange(90, 105)),
        sub_genre: fixed_text(s.subrange(105, 125)),
    }
}

/// The ID3v1 tag in the 128-byte block at the start of `s`.
pub open spec fn spec_v1_block(s: Seq<u8>) -> Result<ID3v1View, DecodeError> {
    if s.len() < 128 {
        Err(DecodeError::UnexpectedEof)
    } else if !starts_with3(s, 0x54, 0x41, 0x47) {
        Err(DecodeError::NotAnId3Tag)
    } else {
        Ok(spec_tag_fields(s.skip(3)))
    }
}

/// The extended trailer in the 128-byte block at the start of `s`, if the
/// block is there and starts with "EXT".
pub open spec fn spec_ext_block(s: Seq<u8>) -> Option<ID3v1ExtView> {
    if s.len() >= 128 && starts_with3(s, 0x45, 0x58, 0x54) {
        Some(spec_ext_fields(s.skip(3)))
    } else {
        None
    }
}

impl ID3v1View {
    /// This tag with the extended trailer `ext` appended: each text field is
    /// extended by the trailer's field, and the trailer's genre text becomes
    /// the sub-genre.
    pub open spec fn merged(self, ext: ID3v1ExtView) -> ID3v1View {
        ID3v1View {
            song_name: self.song_name + ext.song_name,
            artist: self.artist + ext.artist,
            album_name: self.album_name + ext.album_name,
            comment: self.comment + ext.comment,
            song_sub_genre: Some(ext.sub_genre),
            ..self
        }
    }
}

/// The ID3v1 tag of a source whose bytes are `data`: the last 128 bytes,
/// merged with the extended trailer in the 128 bytes before them if present.
pub open spec fn spec_id3v1(data: Seq<u8>) -> Result<ID3v1View, DecodeError> {
    if data.len() < 128 {
        Err(DecodeError::UnexpectedEof)
    } else {
        match spec_v1_block(data.skip(data.len() - 128)) {
            Err(e) => Err(e),
            Ok(tag) => if data.len() >= 256 {
                match spec_ext_block(data.subrange(data.len() - 256, data.len() - 128)) {
                    Some(ext) => Ok(tag.merged(ext)),
                    None => Ok(tag),
                }
            } else {
                Ok(tag)
            },
        }
    }
}

impl ID3v1 {
    /// Appends the extended trailer's fields to this tag's and takes its
    /// genre text as the sub-genre.
    pub fn merge(self, ext: ID3v1Ext) -> (r: Self)
        ensures
            r@ == self@.merged(ext@),
    {
        let mut tag = self;
        tag.song_name.append(ext.song_name.as_str());
        tag.artist.append(ext.artist.as_str());
        tag.album_name.append(ext.album_name.as_str());
        tag.comment.append(ext.comment.as_str());
        tag.song_sub_genre = Some(ext.sub_genre);
        tag
    }
}

/// Reads the 125 bytes of an ID3v1 tag that follow "TAG".
pub fn read_tag(bytes: &mut Bytes) -> (r: Result<ID3v1, DecodeError>)
    ensures
        old(bytes).rest().len() >= 125 ==> (r matches Ok(tag) && tag@ == spec_tag_fields(
            old(bytes).rest(),
        ) && final(bytes).moved(*old(bytes), 125)),
        old(bytes).rest().len() < 125 ==> r == Err::<ID3v1, DecodeError>(
            DecodeError::UnexpectedEof,
        ),
{
    let ghost s = bytes.rest();
    if bytes.get_readable_bytes() < 125 {
        return Err(DecodeError::UnexpectedEof);
    }
    let song_name = bytes.get_latin1_string(30)?;
    let artist = bytes.get_latin1_string(30)?;
    let album_name = bytes.get_latin1_string(30)?;
    let year = bytes.get_latin1_string(4)?;
    let comment_field = bytes.read_slice(30)?;
    let song_genre = bytes.read_byte()?;
    assert(s.take(30) =~= s.subrange(0, 30));
    assert(s.skip(30).take(30) =~= s.subrange(30, 60));
    assert(s.skip(60).take(30) =~= s.subrange(60, 90));
    assert(s.skip(90).take(4) =~= s.subrange(90, 94));
    assert(s.skip(94).take(30) =~= s.subrange(94, 124));
    let c = comment_field.as_slice();
    let (album_track, text_len) = if c[28] == 0 && c[29] != 0 {
        (c[29], 28usize)
    } else {
        (0u8, 30usize)
    };
    let field = vstd::slice::slice_subrange(c, 0, text_len);
    assert(text_len == 30 ==> field@ =~= c@);
    proof {
        lemma_terminator_pos(field@, false);
    }
    let end = next_null(field);
    let comment = convert_latin1(vstd::slice::slice_subrange(field, 0, end));
    Ok(
        ID3v1 {
            song_name,
            artist,
            album_name,
            year,
            comment,
            album_track,
            song_genre,
            song_sub_genre: None,
        },
    )
}

/// Reads the 125 bytes of an extended trailer that follow "EXT".
pub fn read_tag_ext(bytes: &mut Bytes) -> (r: Result<ID3v1Ext, DecodeError>)
    ensures
        old(bytes).rest().len() >= 125 ==> (r matches Ok(ext) && ext@ == spec_ext_fields(
            old(bytes).rest(),
        ) && final(bytes).moved(*old(bytes), 125)),
        old(bytes).rest().len() < 125 ==> r == Err::<ID3v1Ext, DecodeError>(
            DecodeError::UnexpectedEof,
        ),
{
    let ghost s = bytes.rest();
    if bytes.get_readable_bytes() < 125 {
        return Err(DecodeError::UnexpectedEof);
    }
    let song_name = bytes.get_latin1_string(30)?;
    let artist = bytes.get_latin1_string(30)?;
    let album_name = bytes.get_latin1_string(30)?;
    let comment = bytes.get_latin1_string(15)?;
    let sub_genre = bytes.get_latin1_string(20)?;
    assert(s.take(30) =~= s.subrange(0, 30));
    assert(s.skip(30).take(30) =~= s.subrange(30, 60));
    assert(s.skip(60).take(30) =~= s.subrange(60, 90));
    assert(s.skip(90).take(15) =~= s.subrange(90, 105));
    assert(s.skip(105).take(20) =~= s.subrange(105, 125));
    Ok(ID3v1Ext { song_name, artist, album_name, comment, sub_genre })
}

fn starts_with_magic(bytes: &Bytes, a: u8, b: u8, c: u8) -> (r: bool)
    ensures
        r == starts_with3(bytes.rest(), a, b, c),
{
    let buf = bytes.get_buf();
    let i = bytes.get_index();
    buf.len() - i >= 3 && buf[i] == a && buf[i + 1] == b && buf[i + 2] == c
}

/// Reads an ID3v1 tag from the 128-byte block at the cursor: "TAG", then the
/// fixed fields.
pub fn read_bytes(bytes: &mut Bytes) -> (r: Result<ID3v1, DecodeError>)
    ensures
        match spec_v1_block(old(bytes).rest()) {
            Ok(tag) => r matches Ok(t) && t@ == tag,
            Err(e) => r == Err::<ID3v1, DecodeError>(e),
        },
{
    if bytes.get_readable_bytes() < 128 {
        return Err(DecodeError::UnexpectedEof);
    }
    if !starts_with_magic(bytes, 0x54, 0x41, 0x47) {
        return Err(DecodeError::NotAnId3Tag);
    }
    bytes.advance(3)?;
    read_tag(bytes)
}

/// Reads the extended trailer from the 128-byte block at the cursor; `None`
/// when the block is short or does not start with "EXT".
pub fn read_ext(bytes: &mut Bytes) -> (r: Option<ID3v1Ext>)
    ensures
        match spec_ext_block(old(bytes).rest()) {
            Some(ext) => r matches Some(e) && e@ == ext,
            None => r is None,
        },
{
    if bytes.get_readable_bytes() < 128 || !starts_with_magic(bytes, 0x45, 0x58, 0x54) {
        return None;
    }
    match bytes.advance(3) {
        Ok(()) => {},
        Err(_) => return None,
    }
    match read_tag_ext(bytes) {
        Ok(ext) => Some(ext),
        Err(_) => None,
    }
}

/// Decodes the ID3v1 tag at the end of `data`, merged with the extended
/// trailer before it when there is one.
pub fn read_id3v1(data: &[u8]) -> (r: Result<ID3v1, DecodeError>)
    ensures
        match spec_id3v1(data@) {
            Ok(tag) => r matches Ok(t) && t@ == tag,
            Err(e) => r == Err::<ID3v1, DecodeError>(e),
        },
{
    let len = data.len();
    if len < 128 {
        return Err(DecodeError::UnexpectedEof);
    }
    let mut base = Bytes::from_slice(vstd::slice::slice_subrange(data, len - 128, len));
    assert(base.rest() =~= data@.skip(len - 128));
    let tag = read_bytes(&mut base)?;
    if len < 256 {
        return Ok(tag);
    }
    let mut extended = Bytes::from_slice(vstd::slice::slice_subrange(data, len - 256, len - 128));
    match read_ext(&mut extended) {
        Some(ext) => Ok(tag.merge(ext)),
        None => Ok(tag),
    }
}

} // verus!
