//! Typed carriers for the tag values of the TIFF tag catalogue that SVS
//! files draw on.  The walker itself consumes only a subset of these tags;
//! the remaining ones are documented here for callers that extend scope.

use vstd::prelude::*;

verus! {

/// Tag 254.
pub struct NewSubfileType(pub u32);

/// Tag 256.
pub struct ImageWidth(pub u32);

/// Tag 257.
pub struct ImageHeight(pub u32);

/// Tag 258.
pub struct BitsPerSample(pub Vec<u16>);

/// Tag 259.
pub struct Compression(pub u16);

/// Tag 262.
pub struct PhotometricInterpretation(pub u16);

/// Tag 270.
pub struct ImageDescription(pub String);

/// Tag 277.
pub struct SamplesPerPixel(pub u16);

/// Tag 284.
pub struct PlanarConfiguration(pub u16);

/// Tag 322.
pub struct TileWidth(pub u32);

/// Tag 323.
pub struct TileHeight(pub u16);

/// Tag 324.
pub struct TileOffsets(pub Vec<u32>);

/// Tag 325.
pub struct TileByteCounts(pub Vec<u32>);

/// Tag 32997.
pub struct ImageDepth(pub u16);

/// Tag 34675.
pub struct ICCProfile(pub Vec<u8>);

} // verus!
