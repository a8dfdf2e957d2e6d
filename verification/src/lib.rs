//! Reader for SVS whole-slide images: a TIFF-derived container holding a
//! pyramid of progressively downsampled, tile-partitioned image layers plus
//! a thumbnail, each tile independently compressed.
//!
//! The core is the binary structure walker: it parses the TIFF tag/offset
//! graph of an in-memory byte buffer, reconstructs the directory chain,
//! resolves tag values (inline versus offset-indirected), and derives
//! per-layer tile geometry purely from those tags.  Every parse is specified
//! as a pure function of the byte sequence, so parsing the same bytes twice
//! yields structurally identical headers.

use vstd::prelude::*;
use vstd::slice::{slice_subrange, slice_to_vec};

pub mod base;
pub mod error;
pub mod jpeg2000;
pub mod tiff;
pub mod tiff_tags;
pub mod utils;

use crate::error::SvsError;
use crate::jpeg2000::{decode, spec_decode};
use crate::tiff::{
    spec_find_entry, spec_tag_value, spec_value_len, DirectoryModel, TIFFModel, TIFFReader,
};
use crate::utils::{read_le_u32, spec_le_u32};

verus! {

/// Tile geometry and tile tables of one pyramid layer.  `tile_offsets` and
/// `tile_bytes` are parallel tables indexed by tile id: the byte position
/// and byte length of each compressed tile.  For the thumbnail the geometry
/// fields are zero: the thumbnail is a single undivided image whose strip
/// tables alone are kept.
#[derive(Debug)]
pub struct LayerInfo {
    pub tile_offsets: Vec<u32>,
    pub tile_bytes: Vec<u32>,
    pub num_tiles_x: u32,
    pub num_tiles_y: u32,
    pub tile_height: u32,
    pub tile_width: u32,
    pub image_height: u32,
    pub image_width: u32,
}

/// Mathematical model of one layer.
pub struct LayerModel {
    pub tile_offsets: Seq<u32>,
    pub tile_bytes: Seq<u32>,
    pub num_tiles_x: u32,
    pub num_tiles_y: u32,
    pub tile_height: u32,
    pub tile_width: u32,
    pub image_height: u32,
    pub image_width: u32,
}

impl View for LayerInfo {
    type V = LayerModel;

    open spec fn view(&self) -> LayerModel {
        LayerModel {
            tile_offsets: self.tile_offsets@,
            tile_bytes: self.tile_bytes@,
            num_tiles_x: self.num_tiles_x,
            num_tiles_y: self.num_tiles_y,
            tile_height: self.tile_height,
            tile_width: self.tile_width,
            image_height: self.image_height,
            image_width: self.image_width,
        }
    }
}

/// The layer sequence seen through each layer's model.
pub open spec fn layers_view(v: Seq<LayerInfo>) -> Seq<LayerModel> {
    v.map_values(|l: LayerInfo| l@)
}

/// Secondary parsing of the TIFF headers: the pyramid layers in directory
/// order with the thumbnail (directory 1) excluded, and the thumbnail
/// itself.  `layers[0]` is the full-resolution image.
#[derive(Debug)]
pub struct SVSHeaders {
    pub layers: Vec<LayerInfo>,
    pub thumbnail: LayerInfo,
}

/// Mathematical model of the derived SVS headers.
pub struct SVSModel {
    pub layers: Seq<LayerModel>,
    pub thumbnail: LayerModel,
}

impl View for SVSHeaders {
    type V = SVSModel;

    open spec fn view(&self) -> SVSModel {
        SVSModel { layers: layers_view(self.layers@), thumbnail: self.thumbnail@ }
    }
}

/// A tag payload parsed as consecutive little-endian 32-bit integers; a
/// payload that is not a whole number of 32-bit units is a short read.
pub open spec fn spec_u32s_from(bytes: Seq<u8>) -> Result<Seq<u32>, SvsError> {
    if bytes.len() % 4 != 0 {
        Err(SvsError::ShortRead)
    } else {
        Ok(
            Seq::new(
                (bytes.len() / 4) as nat,
                |k: int| spec_le_u32(bytes[4 * k], bytes[4 * k + 1], bytes[4 * k + 2], bytes[4 * k
                    + 3]),
            ),
        )
    }
}

/// The given tag's payload as an array of little-endian 32-bit integers.
pub open spec fn spec_array_u32(data: Seq<u8>, dir: DirectoryModel, tag_id: u16) -> Result<
    Seq<u32>,
    SvsError,
> {
    match spec_tag_value(data, dir, tag_id) {
        Err(e) => Err(e),
        Ok(v) => spec_u32s_from(v),
    }
}

/// The given tag's payload read as a single little-endian 32-bit integer
/// from its first four bytes (a resolved payload always has at least four).
pub open spec fn spec_scalar_u32(data: Seq<u8>, dir: DirectoryModel, tag_id: u16) -> Result<
    u32,
    SvsError,
> {
    match spec_tag_value(data, dir, tag_id) {
        Err(e) => Err(e),
        Ok(v) => Ok(spec_le_u32(v[0], v[1], v[2], v[3])),
    }
}

/// Ceiling division: the number of tile columns or rows needed to cover an
/// image dimension, a partially filled edge tile counting as one full tile.
pub open spec fn spec_div_ceil(a: u32, b: u32) -> u32
    recommends
        b > 0,
{
    if a as int % (b as int) == 0 {
        (a as int / (b as int)) as u32
    } else {
        (a as int / (b as int) + 1) as u32
    }
}

/// The thumbnail's layer record: strip offset and byte-count tables from
/// tags 273 and 279, geometry fields zeroed.
pub open spec fn spec_thumbnail_layer(data: Seq<u8>, dir: DirectoryModel) -> Result<
    LayerModel,
    SvsError,
> {
    match spec_array_u32(data, dir, 273) {
        Err(e) => Err(e),
        Ok(offs) => match spec_array_u32(data, dir, 279) {
            Err(e) => Err(e),
            Ok(byts) => Ok(
                LayerModel {
                    tile_offsets: offs,
                    tile_bytes: byts,
                    num_tiles_x: 0,
                    num_tiles_y: 0,
                    tile_height: 0,
                    tile_width: 0,
                    image_height: 0,
                    image_width: 0,
                },
            ),
        },
    }
}

/// A tiled pyramid layer's record: tile tables from tags 324 and 325,
/// geometry from tags 322, 323, 256 and 257, and the tile grid derived by
/// ceiling division.  A missing required tag fails with `TagNotFound`; a
/// zero tile dimension cannot yield a grid and fails.
pub open spec fn spec_tiled_layer(data: Seq<u8>, dir: DirectoryModel) -> Result<
    LayerModel,
    SvsError,
> {
    match spec_array_u32(data, dir, 324) {
        Err(e) => Err(e),
        Ok(offs) => match spec_array_u32(data, dir, 325) {
            Err(e) => Err(e),
            Ok(byts) => match spec_scalar_u32(data, dir, 322) {
                Err(e) => Err(e),
                Ok(tw) => match spec_scalar_u32(data, dir, 323) {
                    Err(e) => Err(e),
                    Ok(th) => match spec_scalar_u32(data, dir, 256) {
                        Err(e) => Err(e),
                        Ok(iw) => match spec_scalar_u32(data, dir, 257) {
                            Err(e) => Err(e),
                            Ok(ih) => {
                                if tw == 0 || th == 0 {
                                    Err(SvsError::ZeroTileDimension)
                                } else {
                                    Ok(
                                        LayerModel {
                                            tile_offsets: offs,
                                            tile_bytes: byts,
                                            num_tiles_x: spec_div_ceil(iw, tw),
                                            num_tiles_y: spec_div_ceil(ih, th),
                                            tile_height: th,
                                            tile_width: tw,
                                            image_height: ih,
                                            image_width: iw,
                                        },
                                    )
                                }
                            },
                        },
                    },
                },
            },
        },
    }
}

/// Walk of the directory sequence from index `i`: directory 1 is the
/// thumbnail by positional convention, every other directory is a tiled
/// pyramid layer, and the first directory that fails decides the failure.
pub open spec fn spec_svs_walk(data: Seq<u8>, dirs: Seq<DirectoryModel>, i: int) -> Result<
    (Seq<LayerModel>, Option<LayerModel>),
    SvsError,
>
    decreases dirs.len() - i,
{
    if i >= dirs.len() {
        Ok((Seq::empty(), None))
    } else if i == 1 {
        match spec_thumbnail_layer(data, dirs[1]) {
            Err(e) => Err(e),
            Ok(t) => match spec_svs_walk(data, dirs, 2) {
                Err(e) => Err(e),
                Ok(p) => Ok((p.0, Some(t))),
            },
        }
    } else {
        match spec_tiled_layer(data, dirs[i]) {
            Err(e) => Err(e),
            Ok(l) => match spec_svs_walk(data, dirs, i + 1) {
                Err(e) => Err(e),
                Ok(p) => Ok((seq![l] + p.0, p.1)),
            },
        }
    }
}

/// Derivation of the SVS headers from the parsed directory chain: walk
/// every directory in chain order; a chain that ends without having seen a
/// thumbnail directory (fewer than two directories) has no thumbnail.
pub open spec fn spec_svs_headers(data: Seq<u8>, dirs: Seq<DirectoryModel>) -> Result<
    SVSModel,
    SvsError,
> {
    match spec_svs_walk(data, dirs, 0) {
        Err(e) => Err(e),
        Ok((ls, None)) => Err(SvsError::MissingThumbnail),
        Ok((ls, Some(t))) => Ok(SVSModel { layers: ls, thumbnail: t }),
    }
}

/// The whole open-time parse: the TIFF headers of the byte stream, then the
/// SVS headers derived from them.
pub open spec fn spec_open_svs(data: Seq<u8>) -> Result<(TIFFModel, SVSModel), SvsError> {
    match tiff::spec_read_tiff(data) {
        Err(e) => Err(e),
        Ok(tm) => match spec_svs_headers(data, tm.directories) {
            Err(e) => Err(e),
            Ok(sm) => Ok((tm, sm)),
        },
    }
}

/// Byte range of one tile: the tile tables of the layer give its position
/// and length, and the bytes are read from storage.  An out-of-range layer
/// or tile index fails without touching storage.
pub open spec fn spec_read_tile(data: Seq<u8>, m: SVSModel, layer: int, tile_id: int) -> Result<
    Seq<u8>,
    SvsError,
> {
    if layer >= m.layers.len() {
        Err(SvsError::InvalidLayer)
    } else if tile_id >= m.layers[layer].tile_bytes.len() || tile_id
        >= m.layers[layer].tile_offsets.len() {
        Err(SvsError::InvalidTileId)
    } else {
        let off = m.layers[layer].tile_offsets[tile_id];
        let len = m.layers[layer].tile_bytes[tile_id];
        if off + len <= data.len() {
            Ok(data.subrange(off as int, off + len))
        } else {
            Err(SvsError::ShortRead)
        }
    }
}

/// Parses a tag payload as consecutive little-endian 32-bit integers.
fn parse_u32_array(bytes: &Vec<u8>) -> (r: Result<Vec<u32>, SvsError>)
    ensures
        match r {
            Ok(v) => spec_u32s_from(bytes@) == Ok::<Seq<u32>, SvsError>(v@),
            Err(e) => spec_u32s_from(bytes@) == Err::<Seq<u32>, SvsError>(e),
        },
{
    let n = bytes.len();
    if n % 4 != 0 {
        return Err(SvsError::ShortRead);
    }
    let count = n / 4;
    let mut out: Vec<u32> = Vec::new();
    let mut k: usize = 0;
    while k < count
        invariant
            k <= count,
            count == bytes@.len() / 4,
            bytes@.len() % 4 == 0,
            4 * count == bytes@.len(),
            bytes@.len() <= usize::MAX,
            out@.len() == k,
            forall|j: int|
                0 <= j < k ==> #[trigger] out@[j] == spec_le_u32(
                    bytes@[4 * j],
                    bytes@[4 * j + 1],
                    bytes@[4 * j + 2],
                    bytes@[4 * j + 3],
                ),
        decreases count - k,
    {
        let x = read_le_u32(slice_subrange(bytes.as_slice(), 4 * k, 4 * k + 4));
        out.push(x);
        k = k + 1;
    }
    proof {
        match spec_u32s_from(bytes@) {
            Ok(v) => {
                assert(out@ =~= v);
            },
            Err(_) => {
                assert(false);
            },
        }
    }
    Ok(out)
}

/// Reads the given tag of the given directory as a single 32-bit scalar.
fn get_scalar_u32(t: &TIFFReader, layer: usize, tag_id: u16) -> (r: Result<u32, SvsError>)
    requires
        layer < t.headers@.directories.len(),
    ensures
        match r {
            Ok(x) => spec_scalar_u32(t.data@, t.headers@.directories[layer as int], tag_id) == Ok::<
                u32,
                SvsError,
            >(x),
            Err(e) => spec_scalar_u32(t.data@, t.headers@.directories[layer as int], tag_id)
                == Err::<u32, SvsError>(e),
        },
{
    let v = match t.get_tag_value(layer, tag_id) {
        Err(e) => {
            return Err(e);
        },
        Ok(v) => v,
    };
    proof {
        let dir = t.headers@.directories[layer as int];
        match spec_find_entry(dir.entries, tag_id) {
            Ok(en) => {
                if spec_value_len(en) <= 4 {
                    assert(v@.len() == 4);
                } else {
                    assert(v@.len() == spec_value_len(en));
                }
            },
            Err(_) => {
                assert(false);
            },
        }
    }
    Ok(read_le_u32(v.as_slice()))
}

/// Ceiling division of two 32-bit values.
fn div_ceil_u32(a: u32, b: u32) -> (r: u32)
    requires
        b > 0,
    ensures
        r == spec_div_ceil(a, b),
{
    let q = a / b;
    let rem = a % b;
    if rem == 0 {
        q
    } else {
        proof {
            assert(q * b + rem == a) by (nonlinear_arith)
                requires
                    q == a as int / (b as int),
                    rem == a as int % (b as int),
                    b > 0,
            ;
            assert(q + 1 <= u32::MAX) by (nonlinear_arith)
                requires
                    q * b + rem == a,
                    1 <= rem,
                    rem < b,
                    2 <= b,
                    0 <= q,
                    a <= u32::MAX,
            ;
        }
        q + 1
    }
}

/// Owner of the stored bytes, the TIFF headers parsed from them, and the
/// SVS headers derived from those; all tile reads go through this single
/// owner.
#[derive(Debug)]
pub struct SVSReader {
    pub tiffreader: TIFFReader,
    pub headers: SVSHeaders,
}

impl SVSReader {
    /// Parses the TIFF headers and derives the SVS headers of `data`, then
    /// takes ownership of the bytes.  Both header structures are built once
    /// here and never change afterwards.
    pub fn open(data: Vec<u8>) -> (r: Result<Self, SvsError>)
        ensures
            match r {
                Ok(s) => spec_open_svs(data@) == Ok::<(TIFFModel, SVSModel), SvsError>(
                    (s.tiffreader.headers@, s.headers@),
                ) && s.tiffreader.data@ == data@,
                Err(e) => spec_open_svs(data@) == Err::<(TIFFModel, SVSModel), SvsError>(e),
            },
    {
        let tiffreader = match TIFFReader::open(data) {
            Err(e) => {
                return Err(e);
            },
            Ok(t) => t,
        };
        let headers = match Self::read_headers(&tiffreader) {
            Err(e) => {
                return Err(e);
            },
            Ok(h) => h,
        };
        Ok(SVSReader { tiffreader, headers })
    }

    /// Derives the per-layer records from the parsed directory chain, in
    /// chain order: directory 1 is the thumbnail, every other directory a
    /// tiled pyramid layer.
    pub fn read_headers(tiffreader: &TIFFReader) -> (r: Result<SVSHeaders, SvsError>)
        ensures
            match r {
                Ok(h) => spec_svs_headers(tiffreader.data@, tiffreader.headers@.directories)
                    == Ok::<SVSModel, SvsError>(h@),
                Err(e) => spec_svs_headers(tiffreader.data@, tiffreader.headers@.directories)
                    == Err::<SVSModel, SvsError>(e),
            },
    {
        let ghost data = tiffreader.data@;
        let ghost dirs = tiffreader.headers@.directories;
        let ndirs = tiffreader.headers.directories.len();
        let mut layers: Vec<LayerInfo> = Vec::new();
        let mut thumbnail: Option<LayerInfo> = None;
        let mut i: usize = 0;
        while i < ndirs
            invariant
                i <= ndirs,
                data == tiffreader.data@,
                dirs == tiffreader.headers@.directories,
                ndirs == dirs.len(),
                i <= 1 ==> thumbnail is None,
                spec_svs_walk(data, dirs, 0) == (match spec_svs_walk(data, dirs, i as int) {
                    Err(e) => Err::<(Seq<LayerModel>, Option<LayerModel>), SvsError>(e),
                    Ok(p) => Ok::<(Seq<LayerModel>, Option<LayerModel>), SvsError>(
                        (
                            layers_view(layers@) + p.0,
                            if i > 1 {
                                match thumbnail {
                                    Some(t) => Some(t@),
                                    None => None,
                                }
                            } else {
                                p.1
                            },
                        ),
                    ),
                }),
            decreases ndirs - i,
        {
            if i == 1 {
                let v273 = match tiffreader.get_tag_value(i, 273) {
                    Err(e) => {
                        return Err(e);
                    },
                    Ok(v) => v,
                };
                let tile_offsets = match parse_u32_array(&v273) {
                    Err(e) => {
                        return Err(e);
                    },
                    Ok(a) => a,
                };
                let v279 = match tiffreader.get_tag_value(i, 279) {
                    Err(e) => {
                        return Err(e);
                    },
                    Ok(v) => v,
                };
                let tile_bytes = match parse_u32_array(&v279) {
                    Err(e) => {
                        return Err(e);
                    },
                    Ok(a) => a,
                };
                let t = LayerInfo {
                    tile_offsets,
                    tile_bytes,
                    num_tiles_x: 0,
                    num_tiles_y: 0,
                    tile_height: 0,
                    tile_width: 0,
                    image_height: 0,
                    image_width: 0,
                };
                proof {
                    assert(spec_thumbnail_layer(data, dirs[1]) == Ok::<LayerModel, SvsError>(t@));
                }
                thumbnail = Some(t);
            } else {
                let v324 = match tiffreader.get_tag_value(i, 324) {
                    Err(e) => {
                        return Err(e);
                    },
                    Ok(v) => v,
                };
                let tile_offsets = match parse_u32_array(&v324) {
                    Err(e) => {
                        return Err(e);
                    },
                    Ok(a) => a,
                };
                let v325 = match tiffreader.get_tag_value(i, 325) {
                    Err(e) => {
                        return Err(e);
                    },
                    Ok(v) => v,
                };
                let tile_bytes = match parse_u32_array(&v325) {
                    Err(e) => {
                        return Err(e);
                    },
                    Ok(a) => a,
                };
                let tile_width = match get_scalar_u32(tiffreader, i, 322) {
                    Err(e) => {
                        return Err(e);
                    },
                    Ok(x) => x,
                };
                let tile_height = match get_scalar_u32(tiffreader, i, 323) {
                    Err(e) => {
                        return Err(e);
                    },
                    Ok(x) => x,
                };
                let image_width = match get_scalar_u32(tiffreader, i, 256) {
                    Err(e) => {
                        return Err(e);
                    },
                    Ok(x) => x,
                };
                let image_height = match get_scalar_u32(tiffreader, i, 257) {
                    Err(e) => {
                        return Err(e);
                    },
                    Ok(x) => x,
                };
                if tile_width == 0 || tile_height == 0 {
                    return Err(SvsError::ZeroTileDimension);
                }
                let num_tiles_x = div_ceil_u32(image_width, tile_width);
                let num_tiles_y = div_ceil_u32(image_height, tile_height);
                let l = LayerInfo {
                    tile_offsets,
                    tile_bytes,
                    num_tiles_x,
                    num_tiles_y,
                    tile_height,
                    tile_width,
                    image_height,
                    image_width,
                };
                proof {
                    assert(spec_tiled_layer(data, dirs[i as int]) == Ok::<LayerModel, SvsError>(
                        l@,
                    ));
                    assert(layers_view(layers@.push(l)) =~= layers_view(layers@) + seq![l@]);
                    assert forall|p0: Seq<LayerModel>|
                        (layers_view(layers@) + (seq![l@] + p0)) =~= (layers_view(layers@.push(l))
                            + p0) by {};
                }
                layers.push(l);
            }
            i = i + 1;
        }
        match thumbnail {
            None => Err(SvsError::MissingThumbnail),
            Some(t) => {
                proof {
                    assert(layers_view(layers@) + Seq::<LayerModel>::empty() =~= layers_view(
                        layers@,
                    ));
                }
                Ok(SVSHeaders { layers, thumbnail: t })
            },
        }
    }

    /// Reads the raw, still-compressed bytes of one tile: the tile tables
    /// of the layer give its byte range, and exactly that range is read.
    pub fn read_tile_compressed(&self, layer: usize, tile_id: usize) -> (r: Result<
        Vec<u8>,
        SvsError,
    >)
        ensures
            match r {
                Ok(v) => spec_read_tile(
                    self.tiffreader.data@,
                    self.headers@,
                    layer as int,
                    tile_id as int,
                ) == Ok::<Seq<u8>, SvsError>(v@),
                Err(e) => spec_read_tile(
                    self.tiffreader.data@,
                    self.headers@,
                    layer as int,
                    tile_id as int,
                ) == Err::<Seq<u8>, SvsError>(e),
            },
    {
        if layer >= self.headers.layers.len() {
            return Err(SvsError::InvalidLayer);
        }
        let l = &self.headers.layers[layer];
        if tile_id >= self.headers.layers[layer].tile_bytes.len() || tile_id
            >= self.headers.layers[layer].tile_offsets.len() {
            return Err(SvsError::InvalidTileId);
        }
        let off = self.headers.layers[layer].tile_offsets[tile_id];
        let len = self.headers.layers[layer].tile_bytes[tile_id];
        if off as u64 + len as u64 > self.tiffreader.data.len() as u64 {
            return Err(SvsError::ShortRead);
        }
        let o = off as usize;
        let n = len as usize;
        Ok(slice_to_vec(slice_subrange(self.tiffreader.data.as_slice(), o, o + n)))
    }

    /// Reads one tile and decodes it into a component-interleaved pixel
    /// buffer through the pixel codec.
    pub fn read_tile_uncompressed(&self, layer: usize, tile_id: usize) -> (r: Result<
        Vec<u8>,
        SvsError,
    >)
        ensures
            match spec_read_tile(self.tiffreader.data@, self.headers@, layer as int, tile_id as int) {
                Err(e) => r == Err::<Vec<u8>, SvsError>(e),
                Ok(bytes) => match r {
                    Ok(v) => spec_decode(bytes) == Ok::<Seq<u8>, SvsError>(v@),
                    Err(e) => spec_decode(bytes) == Err::<Seq<u8>, SvsError>(e),
                },
            },
    {
        let compressed = match self.read_tile_compressed(layer, tile_id) {
            Err(e) => {
                return Err(e);
            },
            Ok(v) => v,
        };
        decode(compressed.as_slice())
    }
}

/// Shape of the walk from a directory index past the thumbnail: every
/// remaining directory yields one tiled layer, in directory order.
proof fn lemma_walk_tail(
    data: Seq<u8>,
    dirs: Seq<DirectoryModel>,
    i: int,
    p: (Seq<LayerModel>, Option<LayerModel>),
)
    requires
        2 <= i <= dirs.len(),
        spec_svs_walk(data, dirs, i) == Ok::<(Seq<LayerModel>, Option<LayerModel>), SvsError>(p),
    ensures
        p.0.len() == dirs.len() - i,
        forall|k: int|
            0 <= k < p.0.len() ==> spec_tiled_layer(data, dirs[i + k]) == Ok::<
                LayerModel,
                SvsError,
            >(#[trigger] p.0[k]),
        p.1 is None,
    decreases dirs.len() - i,
{
    if i == dirs.len() {
    } else {
        match spec_tiled_layer(data, dirs[i]) {
            Err(_) => {
                assert(false);
            },
            Ok(l) => {
                match spec_svs_walk(data, dirs, i + 1) {
                    Err(_) => {
                        assert(false);
                    },
                    Ok(p2) => {
                        lemma_walk_tail(data, dirs, i + 1, p2);
                        assert forall|k: int| 0 <= k < p.0.len() implies spec_tiled_layer(
                            data,
                            dirs[i + k],
                        ) == Ok::<LayerModel, SvsError>(#[trigger] p.0[k]) by {
                            if k == 0 {
                                assert(p.0[0] == l);
                            } else {
                                assert(p.0[k] == p2.0[k - 1]);
                            }
                        }
                    },
                }
            },
        }
    }
}

/// The derived layers preserve directory traversal order with the thumbnail
/// (directory 1) excluded: a successful derivation has one layer per
/// non-thumbnail directory, the full-resolution layer from directory 0
/// first, and the layer after it in position `k` coming from directory
/// `k + 1`; the thumbnail comes from directory 1.
pub proof fn lemma_layers_follow_directories(
    data: Seq<u8>,
    dirs: Seq<DirectoryModel>,
    m: SVSModel,
)
    requires
        spec_svs_headers(data, dirs) == Ok::<SVSModel, SvsError>(m),
    ensures
        dirs.len() >= 2,
        m.layers.len() == dirs.len() - 1,
        spec_tiled_layer(data, dirs[0]) == Ok::<LayerModel, SvsError>(m.layers[0]),
        forall|k: int|
            1 <= k < m.layers.len() ==> spec_tiled_layer(data, dirs[k + 1]) == Ok::<
                LayerModel,
                SvsError,
            >(#[trigger] m.layers[k]),
        spec_thumbnail_layer(data, dirs[1]) == Ok::<LayerModel, SvsError>(m.thumbnail),
{
    match spec_svs_walk(data, dirs, 0) {
        Err(_) => {
            assert(false);
        },
        Ok(p) => {
            if dirs.len() < 2 {
                assert(p.1 is None);
                assert(false);
            }
            match spec_tiled_layer(data, dirs[0]) {
                Err(_) => {
                    assert(false);
                },
                Ok(l0) => {
                    match spec_svs_walk(data, dirs, 1) {
                        Err(_) => {
                            assert(false);
                        },
                        Ok(p1) => {
                            match spec_thumbnail_layer(data, dirs[1]) {
                                Err(_) => {
                                    assert(false);
                                },
                                Ok(_t) => {
                                    match spec_svs_walk(data, dirs, 2) {
                                        Err(_) => {
                                            assert(false);
                                        },
                                        Ok(p2) => {
                                            lemma_walk_tail(data, dirs, 2, p2);
                                            assert(m.layers == seq![l0] + p2.0);
                                            assert forall|k: int|
                                                1 <= k < m.layers.len() implies spec_tiled_layer(
                                                data,
                                                dirs[k + 1],
                                            ) == Ok::<LayerModel, SvsError>(
                                                #[trigger] m.layers[k],
                                            ) by {
                                                assert(m.layers[k] == p2.0[k - 1]);
                                            }
                                        },
                                    }
                                },
                            }
                        },
                    }
                },
            }
        },
    }
}

/// The derived tile grid uses ceiling division: with a positive tile
/// dimension, `spec_div_ceil(a, b)` tiles of extent `b` cover all `a` units
/// of the image dimension, a partially filled edge tile counting as one
/// full tile, and no tile beyond the last is counted.
pub proof fn lemma_tile_grid_covers(a: u32, b: u32)
    requires
        b > 0,
    ensures
        a <= spec_div_ceil(a, b) * b,
        spec_div_ceil(a, b) * b < a + b,
{
    let q = a as int / (b as int);
    let rem = a as int % (b as int);
    vstd::arithmetic::div_mod::lemma_fundamental_div_mod(a as int, b as int);
    assert(0 <= rem < b) by (nonlinear_arith)
        requires
            b > 0,
            rem == a as int % (b as int),
    ;
    assert(0 <= q && q * b == b * q && q <= q * b) by (nonlinear_arith)
        requires
            b >= 1,
            a >= 0,
            q == a as int / (b as int),
    ;
    if rem == 0 {
        assert(spec_div_ceil(a, b) == q);
    } else {
        assert(q + 1 <= a);
        assert(spec_div_ceil(a, b) == q + 1);
        assert((q + 1) * b == q * b + b) by (nonlinear_arith);
    }
}

/// Parsing is a pure function of the input bytes: two parses of the same
/// well-formed byte stream yield structurally identical TIFF and SVS
/// headers.
pub proof fn lemma_parse_deterministic(
    data: Seq<u8>,
    t1: TIFFModel,
    s1: SVSModel,
    t2: TIFFModel,
    s2: SVSModel,
)
    requires
        spec_open_svs(data) == Ok::<(TIFFModel, SVSModel), SvsError>((t1, s1)),
        spec_open_svs(data) == Ok::<(TIFFModel, SVSModel), SvsError>((t2, s2)),
    ensures
        t1 == t2,
        s1 == s2,
{
}

} // verus!
