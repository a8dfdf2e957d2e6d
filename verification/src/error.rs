use vstd::prelude::*;

verus! {

/// Failures of the SVS structure walker.
///
/// Every failure aborts the current operation; no partial result is kept.
/// Each variant carries enough context (tag id, offending type code) to
/// diagnose the failure without re-parsing.
#[derive(Clone, Copy, Debug, PartialEq, Eq, Structural)]
pub enum SvsError {
    /// The first two bytes of the stream are not a recognised endian marker.
    UnrecognizedEndianMarker,
    /// The endian marker is recognised, but the byte order is not supported:
    /// the walker reads little-endian streams only.
    UnsupportedEndianness,
    /// The 16-bit magic value following the endian marker is not 42.
    NotATiffFile,
    /// A directory entry carries a field-type code outside the closed set
    /// of twelve known codes; the offending code is carried along.
    UnknownFieldType(u16),
    /// A required tag is absent from a directory; the tag id is carried along.
    TagNotFound(u16),
    /// A layer index at or beyond the number of pyramid layers.
    InvalidLayer,
    /// A tile index at or beyond the layer's tile table.
    InvalidTileId,
    /// A read past the end of the stored bytes, or a tag payload whose
    /// length is not a whole number of 32-bit units.
    ShortRead,
    /// The directory chain has more links than the walker's hop bound; a
    /// cyclic chain in a malformed file is reported this way instead of
    /// looping forever.
    DirectoryLimitExceeded,
    /// A tiled directory declares a tile width or height of zero, so no
    /// tile grid can be derived from it.
    ZeroTileDimension,
    /// The directory chain ended without a thumbnail directory: the chain
    /// holds fewer than two directories.
    MissingThumbnail,
    /// The pixel codec failed, or returned component data inconsistent
    /// with its own reported geometry.
    CodecError,
}

} // verus!
