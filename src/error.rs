use vstd::prelude::*;

verus! {

/// Why a decode did not produce a value.
///
/// `NotAnId3Tag`, `UnexpectedEof`, `InvalidFlags` and `MissingCrcData` abort a
/// whole decode. `UnknownFrameType` and `UnknownFrameBody` concern one ID3v2
/// frame only: the frame loop skips that frame and goes on.
/// `UnknownEncoding` reports a text-encoding selector outside `0..=3`.
#[derive(Debug, Clone, Copy, PartialEq, Eq, Structural)]
pub enum DecodeError {
    NotAnId3Tag,
    UnexpectedEof,
    InvalidFlags,
    MissingCrcData,
    UnknownFrameType,
    UnknownFrameBody,
    UnknownEncoding,
}

impl DecodeError {
    /// True for the conditions that concern a single frame and are skipped.
    pub open spec fn spec_is_recoverable(self) -> bool {
        self is UnknownFrameType || self is UnknownFrameBody
    }

    /// Whether the frame loop skips a frame that failed with this error
    /// instead of aborting the decode.
    pub fn is_recoverable(&self) -> (r: bool)
        ensures
            r == self.spec_is_recoverable(),
    {
        match self {
            DecodeError::UnknownFrameType | DecodeError::UnknownFrameBody => true,
            _ => false,
        }
    }
}

} // verus!
