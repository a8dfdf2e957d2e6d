use svs_reader::error::SvsError;
use svs_reader::tiff::{FieldType, IDFDirectory, IDFEntry, TIFFReader};
use svs_reader::SVSReader;

fn push_entry(v: &mut Vec<u8>, tag: u16, ftype: u16, count: u32, value: u32) {
    v.extend_from_slice(&tag.to_le_bytes());
    v.extend_from_slice(&ftype.to_le_bytes());
    v.extend_from_slice(&count.to_le_bytes());
    v.extend_from_slice(&value.to_le_bytes());
}

/// A well-formed SVS stream: a tiled full-resolution directory, a thumbnail
/// directory and a second, smaller tiled directory, with the tile tables of
/// the first directory stored at offsets and those of the third inline.
fn good_svs() -> Vec<u8> {
    let mut v: Vec<u8> = Vec::new();
    // header: little-endian marker, magic 42, first directory at 8
    v.extend_from_slice(&[73, 73, 42, 0]);
    v.extend_from_slice(&8u32.to_le_bytes());
    // directory 0 at 8: six entries, next directory at 86
    v.extend_from_slice(&6u16.to_le_bytes());
    push_entry(&mut v, 256, 4, 1, 100); // ImageWidth, inline
    push_entry(&mut v, 257, 4, 1, 200); // ImageHeight, inline
    push_entry(&mut v, 322, 4, 1, 32); // TileWidth, inline
    push_entry(&mut v, 323, 4, 1, 64); // TileHeight, inline
    push_entry(&mut v, 324, 4, 2, 194); // TileOffsets, at offset 194
    push_entry(&mut v, 325, 4, 2, 202); // TileByteCounts, at offset 202
    v.extend_from_slice(&86u32.to_le_bytes());
    // directory 1 (thumbnail) at 86: two entries, next directory at 116
    v.extend_from_slice(&2u16.to_le_bytes());
    push_entry(&mut v, 273, 4, 2, 210); // StripOffsets, at offset 210
    push_entry(&mut v, 279, 4, 2, 218); // StripByteCounts, at offset 218
    v.extend_from_slice(&116u32.to_le_bytes());
    // directory 2 at 116: six entries, end of chain
    v.extend_from_slice(&6u16.to_le_bytes());
    push_entry(&mut v, 256, 4, 1, 96);
    push_entry(&mut v, 257, 4, 1, 64);
    push_entry(&mut v, 322, 4, 1, 32);
    push_entry(&mut v, 323, 4, 1, 32);
    push_entry(&mut v, 324, 4, 1, 226); // single-element table, inline
    push_entry(&mut v, 325, 4, 1, 5); // single-element table, inline
    v.extend_from_slice(&0u32.to_le_bytes());
    assert_eq!(v.len(), 194);
    // value arrays
    v.extend_from_slice(&226u32.to_le_bytes()); // 194: tile offsets of dir 0
    v.extend_from_slice(&231u32.to_le_bytes());
    v.extend_from_slice(&5u32.to_le_bytes()); // 202: tile byte counts of dir 0
    v.extend_from_slice(&3u32.to_le_bytes());
    v.extend_from_slice(&234u32.to_le_bytes()); // 210: strip offsets
    v.extend_from_slice(&0u32.to_le_bytes());
    v.extend_from_slice(&4u32.to_le_bytes()); // 218: strip byte counts
    v.extend_from_slice(&0u32.to_le_bytes());
    // tile payloads
    v.extend_from_slice(&[1, 2, 3, 4, 5]); // 226: tile 0 of dir 0
    v.extend_from_slice(&[9, 8, 7]); // 231: tile 1 of dir 0
    v.extend_from_slice(&[11, 22, 33, 44]); // 234: thumbnail strip
    assert_eq!(v.len(), 238);
    v
}

#[test]
fn parses_directory_chain_in_link_order() {
    let svs = SVSReader::open(good_svs()).unwrap();
    let dirs = &svs.tiffreader.headers.directories;
    assert_eq!(dirs.len(), 3);
    assert_eq!(dirs[0].offset, 8);
    assert_eq!(dirs[1].offset, 86);
    assert_eq!(dirs[2].offset, 116);
    assert_eq!(dirs[0].entries.len(), 6);
    assert_eq!(dirs[1].entries.len(), 2);
    assert_eq!(dirs[2].entries.len(), 6);
}

#[test]
fn chain_order_follows_linkage_not_file_position() {
    // Three empty directories laid out at 8, 14 and 20, linked 20 -> 8 -> 14.
    let mut v: Vec<u8> = Vec::new();
    v.extend_from_slice(&[73, 73, 42, 0]);
    v.extend_from_slice(&20u32.to_le_bytes());
    v.extend_from_slice(&0u16.to_le_bytes()); // directory at 8
    v.extend_from_slice(&14u32.to_le_bytes());
    v.extend_from_slice(&0u16.to_le_bytes()); // directory at 14
    v.extend_from_slice(&0u32.to_le_bytes());
    v.extend_from_slice(&0u16.to_le_bytes()); // directory at 20
    v.extend_from_slice(&8u32.to_le_bytes());
    let t = TIFFReader::open(v).unwrap();
    let offsets: Vec<u32> = t.headers.directories.iter().map(|d| d.offset).collect();
    assert_eq!(offsets, vec![20, 8, 14]);
}

#[test]
fn derives_tile_grid_with_ceiling_division() {
    let svs = SVSReader::open(good_svs()).unwrap();
    assert_eq!(svs.headers.layers.len(), 2);
    let l0 = &svs.headers.layers[0];
    assert_eq!(l0.image_width, 100);
    assert_eq!(l0.image_height, 200);
    assert_eq!(l0.tile_width, 32);
    assert_eq!(l0.tile_height, 64);
    assert_eq!(l0.num_tiles_x, 4); // ceil(100 / 32), not 3
    assert_eq!(l0.num_tiles_y, 4); // ceil(200 / 64), not 3
    assert_eq!(l0.tile_offsets, vec![226, 231]);
    assert_eq!(l0.tile_bytes, vec![5, 3]);
    let l1 = &svs.headers.layers[1];
    assert_eq!(l1.num_tiles_x, 3); // 96 / 32 exactly
    assert_eq!(l1.num_tiles_y, 2);
    assert_eq!(l1.tile_offsets, vec![226]);
    assert_eq!(l1.tile_bytes, vec![5]);
}

#[test]
fn thumbnail_keeps_tables_and_zero_geometry() {
    let svs = SVSReader::open(good_svs()).unwrap();
    let t = &svs.headers.thumbnail;
    assert_eq!(t.tile_offsets, vec![234, 0]);
    assert_eq!(t.tile_bytes, vec![4, 0]);
    assert_eq!(t.num_tiles_x, 0);
    assert_eq!(t.num_tiles_y, 0);
    assert_eq!(t.tile_width, 0);
    assert_eq!(t.tile_height, 0);
    assert_eq!(t.image_width, 0);
    assert_eq!(t.image_height, 0);
}

#[test]
fn reads_tile_byte_ranges() {
    let svs = SVSReader::open(good_svs()).unwrap();
    assert_eq!(svs.read_tile_compressed(0, 0).unwrap(), vec![1, 2, 3, 4, 5]);
    assert_eq!(svs.read_tile_compressed(0, 1).unwrap(), vec![9, 8, 7]);
    assert_eq!(svs.read_tile_compressed(1, 0).unwrap(), vec![1, 2, 3, 4, 5]);
}

#[test]
fn out_of_range_access_fails_without_panic() {
    let svs = SVSReader::open(good_svs()).unwrap();
    assert!(matches!(
        svs.read_tile_compressed(99, 0),
        Err(SvsError::InvalidLayer)
    ));
    assert!(matches!(
        svs.read_tile_compressed(0, 99999),
        Err(SvsError::InvalidTileId)
    ));
}

#[test]
fn parsing_twice_yields_identical_headers() {
    let a = SVSReader::open(good_svs()).unwrap();
    let b = SVSReader::open(good_svs()).unwrap();
    let da = &a.tiffreader.headers.directories;
    let db = &b.tiffreader.headers.directories;
    assert_eq!(da.len(), db.len());
    for (x, y) in da.iter().zip(db.iter()) {
        assert_eq!(x.offset, y.offset);
        assert_eq!(x.entries, y.entries);
    }
    assert_eq!(a.headers.layers.len(), b.headers.layers.len());
    for (x, y) in a.headers.layers.iter().zip(b.headers.layers.iter()) {
        assert_eq!(x.tile_offsets, y.tile_offsets);
        assert_eq!(x.tile_bytes, y.tile_bytes);
        assert_eq!(x.num_tiles_x, y.num_tiles_x);
        assert_eq!(x.num_tiles_y, y.num_tiles_y);
        assert_eq!(x.tile_width, y.tile_width);
        assert_eq!(x.tile_height, y.tile_height);
        assert_eq!(x.image_width, y.image_width);
        assert_eq!(x.image_height, y.image_height);
    }
    assert_eq!(a.headers.thumbnail.tile_offsets, b.headers.thumbnail.tile_offsets);
    assert_eq!(a.headers.thumbnail.tile_bytes, b.headers.thumbnail.tile_bytes);
}

#[test]
fn missing_required_tag_fails_with_its_id() {
    // A single tiled directory without tag 324.
    let mut v: Vec<u8> = Vec::new();
    v.extend_from_slice(&[73, 73, 42, 0]);
    v.extend_from_slice(&8u32.to_le_bytes());
    v.extend_from_slice(&5u16.to_le_bytes());
    push_entry(&mut v, 256, 4, 1, 100);
    push_entry(&mut v, 257, 4, 1, 200);
    push_entry(&mut v, 322, 4, 1, 32);
    push_entry(&mut v, 323, 4, 1, 64);
    push_entry(&mut v, 325, 4, 1, 5);
    v.extend_from_slice(&0u32.to_le_bytes());
    assert!(matches!(
        SVSReader::open(v),
        Err(SvsError::TagNotFound(324))
    ));
}

#[test]
fn header_errors_are_classified() {
    assert!(matches!(
        SVSReader::open(vec![73, 73, 42]),
        Err(SvsError::ShortRead)
    ));
    assert!(matches!(
        SVSReader::open(vec![0, 73, 42, 0, 0, 0, 0, 0]),
        Err(SvsError::UnrecognizedEndianMarker)
    ));
    assert!(matches!(
        SVSReader::open(vec![77, 77, 42, 0, 0, 0, 0, 0]),
        Err(SvsError::UnsupportedEndianness)
    ));
    assert!(matches!(
        SVSReader::open(vec![73, 73, 43, 0, 0, 0, 0, 0]),
        Err(SvsError::NotATiffFile)
    ));
    // magic is a 16-bit value: 42 with a nonzero high byte is not a TIFF
    assert!(matches!(
        SVSReader::open(vec![73, 73, 42, 1, 0, 0, 0, 0]),
        Err(SvsError::NotATiffFile)
    ));
}

#[test]
fn unknown_field_type_in_an_entry_fails() {
    let mut v: Vec<u8> = Vec::new();
    v.extend_from_slice(&[73, 73, 42, 0]);
    v.extend_from_slice(&8u32.to_le_bytes());
    v.extend_from_slice(&1u16.to_le_bytes());
    push_entry(&mut v, 256, 13, 1, 100); // field-type code 13 is unknown
    v.extend_from_slice(&0u32.to_le_bytes());
    assert!(matches!(
        TIFFReader::open(v),
        Err(SvsError::UnknownFieldType(13))
    ));
}

#[test]
fn truncated_directory_is_a_short_read() {
    let mut v: Vec<u8> = Vec::new();
    v.extend_from_slice(&[73, 73, 42, 0]);
    v.extend_from_slice(&8u32.to_le_bytes());
    v.extend_from_slice(&3u16.to_le_bytes()); // claims three entries, holds none
    assert!(matches!(TIFFReader::open(v), Err(SvsError::ShortRead)));
}

#[test]
fn single_directory_chain_has_no_thumbnail() {
    let mut v: Vec<u8> = Vec::new();
    v.extend_from_slice(&[73, 73, 42, 0]);
    v.extend_from_slice(&8u32.to_le_bytes());
    v.extend_from_slice(&6u16.to_le_bytes());
    push_entry(&mut v, 256, 4, 1, 100);
    push_entry(&mut v, 257, 4, 1, 200);
    push_entry(&mut v, 322, 4, 1, 32);
    push_entry(&mut v, 323, 4, 1, 64);
    push_entry(&mut v, 324, 4, 1, 0);
    push_entry(&mut v, 325, 4, 1, 0);
    v.extend_from_slice(&0u32.to_le_bytes());
    assert!(matches!(
        SVSReader::open(v),
        Err(SvsError::MissingThumbnail)
    ));
}

#[test]
fn zero_tile_dimension_fails() {
    let mut v: Vec<u8> = Vec::new();
    v.extend_from_slice(&[73, 73, 42, 0]);
    v.extend_from_slice(&8u32.to_le_bytes());
    v.extend_from_slice(&6u16.to_le_bytes());
    push_entry(&mut v, 256, 4, 1, 100);
    push_entry(&mut v, 257, 4, 1, 200);
    push_entry(&mut v, 322, 4, 1, 0); // zero tile width
    push_entry(&mut v, 323, 4, 1, 64);
    push_entry(&mut v, 324, 4, 1, 0);
    push_entry(&mut v, 325, 4, 1, 0);
    v.extend_from_slice(&0u32.to_le_bytes());
    assert!(matches!(
        SVSReader::open(v),
        Err(SvsError::ZeroTileDimension)
    ));
}

#[test]
fn ragged_table_payload_is_a_short_read() {
    // Tag 324 carries a 6-byte payload: not a whole number of 32-bit units.
    let mut v: Vec<u8> = Vec::new();
    v.extend_from_slice(&[73, 73, 42, 0]);
    v.extend_from_slice(&8u32.to_le_bytes());
    v.extend_from_slice(&1u16.to_le_bytes());
    push_entry(&mut v, 324, 1, 6, 18); // six Byte units at offset 18
    v.extend_from_slice(&0u32.to_le_bytes());
    v.extend_from_slice(&[1, 2, 3, 4, 5, 6]); // payload at 18
    assert!(matches!(SVSReader::open(v), Err(SvsError::ShortRead)));
}

#[test]
fn cyclic_chain_hits_the_hop_bound() {
    // An empty directory whose next-offset points back at itself.
    let mut v: Vec<u8> = Vec::new();
    v.extend_from_slice(&[73, 73, 42, 0]);
    v.extend_from_slice(&8u32.to_le_bytes());
    v.extend_from_slice(&0u16.to_le_bytes());
    v.extend_from_slice(&8u32.to_le_bytes());
    assert!(matches!(
        TIFFReader::open(v),
        Err(SvsError::DirectoryLimitExceeded)
    ));
}

#[test]
fn inline_and_offset_payloads_split_at_four_bytes() {
    // A TIFF with no directories at all still resolves entry payloads.
    let t = TIFFReader::open(vec![73, 73, 42, 0, 0, 0, 0, 0]).unwrap();
    // width 1 * count 4 == 4: served inline from the entry's own value bytes
    let inline = IDFEntry {
        tag: 1000,
        field_type: FieldType::Byte,
        count: 4,
        offset: u32::from_le_bytes([1, 2, 3, 4]),
    };
    assert_eq!(t.read_entry(&inline).unwrap(), vec![1, 2, 3, 4]);
    // width 1 * count 5 == 5: read from storage at the entry's offset
    let stored = IDFEntry {
        tag: 1000,
        field_type: FieldType::Byte,
        count: 5,
        offset: 2,
    };
    assert_eq!(t.read_entry(&stored).unwrap(), vec![42, 0, 0, 0, 0]);
    // a payload shorter than 4 bytes still yields all 4 inline bytes
    let short = IDFEntry {
        tag: 1000,
        field_type: FieldType::Short,
        count: 1,
        offset: u32::from_le_bytes([7, 8, 9, 10]),
    };
    assert_eq!(t.read_entry(&short).unwrap(), vec![7, 8, 9, 10]);
    // an offset payload past the end of storage is a short read
    let past = IDFEntry {
        tag: 1000,
        field_type: FieldType::Byte,
        count: 5,
        offset: 6,
    };
    assert!(matches!(t.read_entry(&past), Err(SvsError::ShortRead)));
}

#[test]
fn entry_decodes_its_twelve_bytes() {
    let mut b: Vec<u8> = Vec::new();
    b.extend_from_slice(&258u16.to_le_bytes());
    b.extend_from_slice(&3u16.to_le_bytes());
    b.extend_from_slice(&2u32.to_le_bytes());
    b.extend_from_slice(&7u32.to_le_bytes());
    let e = IDFEntry::from_buf(&b).unwrap();
    assert_eq!(
        e,
        IDFEntry { tag: 258, field_type: FieldType::Short, count: 2, offset: 7 }
    );
    b[2] = 13; // unknown field-type code
    b[3] = 0;
    assert!(matches!(
        IDFEntry::from_buf(&b),
        Err(SvsError::UnknownFieldType(13))
    ));
}

#[test]
fn tag_search_returns_the_first_match_in_disk_order() {
    let dir = IDFDirectory {
        offset: 0,
        entries: vec![
            IDFEntry { tag: 256, field_type: FieldType::Long, count: 1, offset: 10 },
            IDFEntry { tag: 322, field_type: FieldType::Long, count: 1, offset: 20 },
            IDFEntry { tag: 322, field_type: FieldType::Long, count: 1, offset: 30 },
        ],
    };
    assert_eq!(dir.get_entry_by_tag_id(322).unwrap().offset, 20);
    assert!(matches!(
        dir.get_entry_by_tag_id(999),
        Err(SvsError::TagNotFound(999))
    ));
}
