use crate::header::starts_with3;
use vstd::prelude::*;

verus! {

/// Which tag forms a source carries. Both may be present.
#[derive(Debug, Clone, Copy, PartialEq, Eq, Structural)]
pub struct ID3Version {
    /// The last 128 bytes start with "TAG".
    pub v1: bool,
    /// The source starts with "ID3".
    pub v2: bool,
}

/// The tag form found in a source, with its version numbers.
#[derive(Debug)]
pub struct Version {
    /// "ID3" for ID3v2, "TAG" for ID3v1.
    pub tag: String,
    pub major: u8,
    pub minor: u8,
    pub revision: u8,
}

/// Whether `data` starts with "ID3".
pub open spec fn has_v2_tag(data: Seq<u8>) -> bool {
    starts_with3(data, 0x49, 0x44, 0x33)
}

/// Whether the last 128 bytes of `data` start with "TAG".
pub open spec fn has_v1_tag(data: Seq<u8>) -> bool {
    data.len() >= 128 && starts_with3(data.skip(data.len() - 128), 0x54, 0x41, 0x47)
}

fn starts_with_at(data: &[u8], at: usize, a: u8, b: u8, c: u8) -> (r: bool)
    requires
        at <= data@.len(),
    ensures
        r == starts_with3(data@.skip(at as int), a, b, c),
{
    data.len() - at >= 3 && data[at] == a && data[at + 1] == b && data[at + 2] == c
}

impl ID3Version {
    /// Reports which tag forms `data` carries.
    pub fn probe(data: &[u8]) -> (r: ID3Version)
        ensures
            r.v1 == has_v1_tag(data@),
            r.v2 == has_v2_tag(data@),
    {
        assert(data@.skip(0) =~= data@);
        let v2 = starts_with_at(data, 0, 0x49, 0x44, 0x33);
        let v1 = data.len() >= 128 && starts_with_at(data, data.len() - 128, 0x54, 0x41, 0x47);
        ID3Version { v1, v2 }
    }
}

impl Version {
    /// Whether this is an ID3v2 tag.
    pub fn is_v2(&self) -> (r: bool)
        ensures
            r == (self.tag@ == "ID3"@),
    {
        self.tag == String::from_str("ID3")
    }
}

/// The ID3v2 version of `data` when it starts with "ID3" and the two version
/// bytes: tag "ID3", major 2, then the two bytes that follow the identifier.
pub fn get_v2_version(data: &[u8]) -> (r: Option<Version>)
    ensures
        r is Some <==> has_v2_tag(data@) && data@.len() >= 5,
        r matches Some(v) ==> v.tag@ == "ID3"@ && v.major == 2 && v.minor == data@[3]
            && v.revision == data@[4],
{
    if data.len() < 5 || !(data[0] == 0x49 && data[1] == 0x44 && data[2] == 0x33) {
        return None;
    }
    Some(Version { tag: String::from_str("ID3"), major: 2, minor: data[3], revision: data[4] })
}

/// The ID3v1 version of `data` when its last 128 bytes start with "TAG":
/// tag "TAG", version 1.0.0.
pub fn get_v1_version(data: &[u8]) -> (r: Option<Version>)
    ensures
        r is Some <==> has_v1_tag(data@),
        r matches Some(v) ==> v.tag@ == "TAG"@ && v.major == 1 && v.minor == 0 && v.revision == 0,
{
    if data.len() < 128 || !starts_with_at(data, data.len() - 128, 0x54, 0x41, 0x47) {
        return None;
    }
    Some(Version { tag: String::from_str("TAG"), major: 1, minor: 0, revision: 0 })
}

/// The tag form to decode `data` with: ID3v2 when present, else ID3v1.
pub fn get_version(data: &[u8]) -> (r: Option<Version>)
    ensures
        has_v2_tag(data@) && data@.len() >= 5 ==> (r matches Some(v) && v.tag@ == "ID3"@
            && v.minor == data@[3] && v.revision == data@[4]),
        !(has_v2_tag(data@) && data@.len() >= 5) ==> (r is Some <==> has_v1_tag(data@)),
        !(has_v2_tag(data@) && data@.len() >= 5) ==> (r matches Some(v) ==> v.tag@ == "TAG"@),
{
    match get_v2_version(data) {
        Some(v) => Some(v),
        None => get_v1_version(data),
    }
}

} // verus!
