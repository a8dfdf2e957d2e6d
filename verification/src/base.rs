use vstd::prelude::*;

use crate::error::SvsError;

verus! {

/// Byte order of the multi-byte integers in a TIFF stream, classified from
/// the two-byte marker at the start of the file.  The walker itself only
/// accepts `Small` (little-endian) streams.
#[derive(Clone, Copy, Debug, PartialEq, Eq, Structural)]
pub enum Endianness {
    Big,
    Small,
}

impl Endianness {
    /// Classification of a byte string as an endian marker: exactly the two
    /// bytes `II` (73, 73) mean little-endian and exactly `MM` (77, 77) mean
    /// big-endian; anything else, including any other length, is rejected.
    pub open spec fn spec_from_bytes(bytes: Seq<u8>) -> Result<Endianness, SvsError> {
        if bytes.len() == 2 && bytes[0] == 73u8 && bytes[1] == 73u8 {
            Ok(Endianness::Small)
        } else if bytes.len() == 2 && bytes[0] == 77u8 && bytes[1] == 77u8 {
            Ok(Endianness::Big)
        } else {
            Err(SvsError::UnrecognizedEndianMarker)
        }
    }

    /// Classifies the endian marker bytes, consuming exactly two bytes:
    /// trailing bytes are an error, so a misaligned header cannot pass.
    pub fn from_bytes(bytes: &[u8]) -> (r: Result<Self, SvsError>)
        ensures
            r == Self::spec_from_bytes(bytes@),
    {
        if bytes.len() == 2 && bytes[0] == 73 && bytes[1] == 73 {
            Ok(Endianness::Small)
        } else if bytes.len() == 2 && bytes[0] == 77 && bytes[1] == 77 {
            Ok(Endianness::Big)
        } else {
            Err(SvsError::UnrecognizedEndianMarker)
        }
    }
}

} // verus!
