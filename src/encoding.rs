use encoding_rs::{UTF_16BE, UTF_8, WINDOWS_1252};
use vstd::prelude::*;

verus! {

/// Longest byte run handed to a text decoder. encoding_rs panics when the
/// size of its output buffer overflows `usize` (inputs beyond a third of
/// `usize::MAX`); this bound keeps every input well below that on 32-bit and
/// 64-bit targets alike.
pub const MAX_TEXT_LEN: usize = 0x4000_0000;

/// Text that encoding_rs decodes from `bytes` as windows-1252, with BOM sniffing.
pub uninterp spec fn windows_1252_text(bytes: Seq<u8>) -> Seq<char>;

/// Text that encoding_rs decodes from `bytes` as UTF-16, with BOM sniffing
/// and big-endian when no byte-order mark is present.
pub uninterp spec fn utf16_text(bytes: Seq<u8>) -> Seq<char>;

/// Text that encoding_rs decodes from `bytes` as UTF-16BE, without BOM handling.
pub uninterp spec fn utf16be_text(bytes: Seq<u8>) -> Seq<char>;

/// Text that encoding_rs decodes from `bytes` as UTF-8, with BOM sniffing.
pub uninterp spec fn utf8_text(bytes: Seq<u8>) -> Seq<char>;

/// Relies on `encoding_rs::Encoding::decode` on `WINDOWS_1252`: the text
/// depends on the bytes alone, malformed input is replaced, never refused.
#[verifier::external_body]
fn decode_windows_1252(bytes: &[u8]) -> (r: String)
    requires
        bytes@.len() <= MAX_TEXT_LEN,
    ensures
        r@ == windows_1252_text(bytes@),
{
    WINDOWS_1252.decode(bytes).0.into_owned()
}

/// Relies on `encoding_rs::Encoding::decode` on `UTF_16BE`: a leading
/// byte-order mark selects the byte order, the text depends on the bytes alone.
#[verifier::external_body]
fn decode_utf16(bytes: &[u8]) -> (r: String)
    requires
        bytes@.len() <= MAX_TEXT_LEN,
    ensures
        r@ == utf16_text(bytes@),
{
    UTF_16BE.decode(bytes).0.into_owned()
}

/// Relies on `encoding_rs::Encoding::decode_without_bom_handling` on
/// `UTF_16BE`: the text depends on the bytes alone.
#[verifier::external_body]
fn decode_utf16be(bytes: &[u8]) -> (r: String)
    requires
        bytes@.len() <= MAX_TEXT_LEN,
    ensures
        r@ == utf16be_text(bytes@),
{
    UTF_16BE.decode_without_bom_handling(bytes).0.into_owned()
}

/// Relies on `encoding_rs::Encoding::decode` on `UTF_8`: the text depends on
/// the bytes alone, malformed sequences are replaced, never refused.
#[verifier::external_body]
fn decode_utf8(bytes: &[u8]) -> (r: String)
    requires
        bytes@.len() <= MAX_TEXT_LEN,
    ensures
        r@ == utf8_text(bytes@),
{
    UTF_8.decode(bytes).0.into_owned()
}

/// The text encodings of ID3v2, selected by one byte in front of the text.
#[derive(Debug, Clone, Copy, PartialEq, Eq, Structural)]
pub enum EncodingTypes {
    /// Selector 0: ISO-8859-1, read as windows-1252.
    Latin1,
    /// Selector 1: UTF-16 introduced by a byte-order mark.
    Utf16,
    /// Selector 2: UTF-16 big-endian, no byte-order mark.
    Utf16Be,
    /// Selector 3: UTF-8.
    Utf8,
}

/// The encoding that a selector byte names, if any.
pub open spec fn encoding_of(byte: u8) -> Option<EncodingTypes> {
    if byte == 0 {
        Some(EncodingTypes::Latin1)
    } else if byte == 1 {
        Some(EncodingTypes::Utf16)
    } else if byte == 2 {
        Some(EncodingTypes::Utf16Be)
    } else if byte == 3 {
        Some(EncodingTypes::Utf8)
    } else {
        None
    }
}

impl EncodingTypes {
    /// Whether text in this encoding is made of two-byte code units.
    pub open spec fn is_wide(self) -> bool {
        self is Utf16 || self is Utf16Be
    }

    /// Text decoded from `bytes` in this encoding.
    pub open spec fn text_of(self, bytes: Seq<u8>) -> Seq<char> {
        match self {
            EncodingTypes::Latin1 => windows_1252_text(bytes),
            EncodingTypes::Utf16 => utf16_text(bytes),
            EncodingTypes::Utf16Be => utf16be_text(bytes),
            EncodingTypes::Utf8 => utf8_text(bytes),
        }
    }

    /// The encoding named by a selector byte; `None` for any byte above 3.
    pub fn from_byte(byte: u8) -> (r: Option<EncodingTypes>)
        ensures
            r == encoding_of(byte),
    {
        match byte {
            0 => Some(EncodingTypes::Latin1),
            1 => Some(EncodingTypes::Utf16),
            2 => Some(EncodingTypes::Utf16Be),
            3 => Some(EncodingTypes::Utf8),
            _ => None,
        }
    }

    /// Whether text in this encoding is made of two-byte code units.
    pub fn wide(&self) -> (r: bool)
        ensures
            r == self.is_wide(),
    {
        match self {
            EncodingTypes::Utf16 | EncodingTypes::Utf16Be => true,
            _ => false,
        }
    }

    /// Decodes `string`, replacing malformed sequences.
    pub fn decode(&self, string: &[u8]) -> (r: String)
        requires
            string@.len() <= MAX_TEXT_LEN,
        ensures
            r@ == self.text_of(string@),
    {
        match self {
            EncodingTypes::Latin1 => decode_windows_1252(string),
            EncodingTypes::Utf16 => decode_utf16(string),
            EncodingTypes::Utf16Be => decode_utf16be(string),
            EncodingTypes::Utf8 => decode_utf8(string),
        }
    }
}

/// Decodes `slice` in the encoding named by the selector `encoding`; `None`
/// when the selector names none.
pub fn decode_text(slice: &[u8], encoding: u8) -> (r: Option<String>)
    requires
        slice@.len() <= MAX_TEXT_LEN,
    ensures
        match encoding_of(encoding) {
            Some(enc) => r is Some && r->0@ == enc.text_of(slice@),
            None => r is None,
        },
{
    match EncodingTypes::from_byte(encoding) {
        Some(enc) => Some(enc.decode(slice)),
        None => None,
    }
}

/// Latin-1 text of `slice`.
pub fn convert_latin1(slice: &[u8]) -> (r: String)
    requires
        slice@.len() <= MAX_TEXT_LEN,
    ensures
        r@ == windows_1252_text(slice@),
{
    decode_windows_1252(slice)
}

/// UTF-8 text of `slice`, malformed sequences replaced.
pub fn convert_utf8(slice: &[u8]) -> (r: String)
    requires
        slice@.len() <= MAX_TEXT_LEN,
    ensures
        r@ == utf8_text(slice@),
{
    decode_utf8(slice)
}

/// UTF-16 text of `slice` in the byte order of its byte-order mark,
/// malformed sequences replaced.
pub fn convert_utf16(slice: &[u8]) -> (r: String)
    requires
        slice@.len() <= MAX_TEXT_LEN,
    ensures
        r@ == utf16_text(slice@),
{
    decode_utf16(slice)
}

/// Bytes in one code unit: two for UTF-16, one otherwise.
pub open spec fn unit_width(wide: bool) -> nat {
    if wide {
        2
    } else {
        1
    }
}

/// Whether the code unit at `i` is zero.
pub open spec fn unit_is_null(s: Seq<u8>, i: int, wide: bool) -> bool {
    if wide {
        s[i] == 0 && s[i + 1] == 0
    } else {
        s[i] == 0
    }
}

/// Position of the first zero code unit at or after the unit boundary `i`,
/// or `s.len()` when no whole zero unit follows.
pub open spec fn terminator_from(s: Seq<u8>, wide: bool, i: nat) -> nat
    decreases s.len() - i,
{
    if i + unit_width(wide) > s.len() {
        s.len()
    } else if unit_is_null(s, i as int, wide) {
        i
    } else {
        terminator_from(s, wide, i + unit_width(wide))
    }
}

/// Position of the terminator of the text at the start of `s`: the first zero
/// byte, or for UTF-16 the first zero code unit on a two-byte boundary; the
/// length of `s` when there is none.
pub open spec fn terminator_pos(s: Seq<u8>, wide: bool) -> nat {
    terminator_from(s, wide, 0)
}

/// Text of the null-terminated string at the start of `s`.
pub open spec fn terminated_text(encoding: EncodingTypes, s: Seq<u8>) -> Seq<char> {
    encoding.text_of(s.take(terminator_pos(s, encoding.is_wide()) as int))
}

/// Bytes taken up by the null-terminated string at the start of `s`: the text
/// and its terminator, or all of `s` when it holds no terminator.
pub open spec fn terminated_len(s: Seq<u8>, wide: bool) -> nat {
    if terminator_pos(s, wide) < s.len() {
        terminator_pos(s, wide) + unit_width(wide)
    } else {
        s.len()
    }
}

/// The terminator position lies inside `s`, a zero unit starts there unless
/// it is the end, and no zero unit starts on an earlier boundary.
pub proof fn lemma_terminator_from(s: Seq<u8>, wide: bool, i: nat)
    requires
        i <= s.len(),
        i % unit_width(wide) == 0,
    ensures
        i <= terminator_from(s, wide, i) <= s.len(),
        terminator_from(s, wide, i) < s.len() ==> terminator_from(s, wide, i) + unit_width(wide)
            <= s.len() && unit_is_null(s, terminator_from(s, wide, i) as int, wide),
        forall|j: int|
            i <= j < terminator_from(s, wide, i) && j + unit_width(wide) <= s.len() && j % (
            unit_width(wide) as int) == 0 ==> !unit_is_null(s, j, wide),
    decreases s.len() - i,
{
    if i + unit_width(wide) > s.len() {
    } else if unit_is_null(s, i as int, wide) {
    } else {
        lemma_terminator_from(s, wide, i + unit_width(wide));
        let r = terminator_from(s, wide, i);
        assert forall|j: int|
            i <= j < r && j + unit_width(wide) <= s.len() && j % (unit_width(wide) as int)
                == 0 implies !unit_is_null(s, j, wide) by {
            if j != i {
                assert(j >= i + unit_width(wide));
            }
        }
    }
}

/// The terminator position is at most the length of `s`.
pub proof fn lemma_terminator_pos(s: Seq<u8>, wide: bool)
    ensures
        terminator_pos(s, wide) <= s.len(),
        terminator_pos(s, wide) < s.len() ==> terminator_pos(s, wide) + unit_width(wide) <= s.len(),
{
    lemma_terminator_from(s, wide, 0);
}

/// Bytes without a zero byte hold no terminator: their text runs to the end.
pub proof fn lemma_no_terminator(s: Seq<u8>)
    requires
        forall|i: int| 0 <= i < s.len() ==> s[i] != 0,
    ensures
        terminator_pos(s, false) == s.len(),
{
    lemma_terminator_from(s, false, 0);
    let p = terminator_pos(s, false);
    if p < s.len() {
        assert(s[p as int] == 0);
    }
}

/// Finds the terminator of the text at the start of `slice`: a zero byte, or
/// for wide text a zero code unit on a two-byte boundary. Returns the length
/// of `slice` when there is none.
pub fn find_terminator(slice: &[u8], wide: bool) -> (r: usize)
    ensures
        r == terminator_pos(slice@, wide),
{
    let width: usize = if wide {
        2
    } else {
        1
    };
    let mut i: usize = 0;
    while i < slice.len() && slice.len() - i >= width
        invariant
            i <= slice@.len(),
            width == unit_width(wide),
            terminator_pos(slice@, wide) == terminator_from(slice@, wide, i as nat),
        decreases slice@.len() - i,
    {
        let null = if wide {
            slice[i] == 0 && slice[i + 1] == 0
        } else {
            slice[i] == 0
        };
        if null {
            return i;
        }
        i += width;
    }
    slice.len()
}

/// Position of the first zero byte of `slice`, or its length when it has none.
pub fn next_null(slice: &[u8]) -> (r: usize)
    ensures
        r == terminator_pos(slice@, false),
{
    find_terminator(slice, false)
}

/// The bytes of `slice` before its first zero byte.
pub fn until_null(slice: &[u8]) -> (r: &[u8])
    ensures
        r@ == slice@.take(terminator_pos(slice@, false) as int),
{
    let end = next_null(slice);
    proof {
        lemma_terminator_pos(slice@, false);
    }
    vstd::slice::slice_subrange(slice, 0, end)
}

} // verus!
