//! The TIFF structure walker: field types, directory entries, the directory
//! chain, and tag value resolution.
//!
//! The whole byte stream is held in memory, so parsing is a pure function of
//! the bytes; each executable function is specified against a spec-level
//! parser over the byte sequence.

use vstd::prelude::*;
use vstd::slice::{slice_subrange, slice_to_vec};

use crate::base::Endianness;
use crate::error::SvsError;
use crate::utils::{
    read_le_u16, read_le_u32, spec_le_u16, spec_le_u32, spec_u32_le_bytes, u32_to_le_bytes,
};

verus! {

/// Upper bound on the number of directories the chain walker follows.  The
/// on-disk chain is terminated by a zero next-offset, but a malformed file
/// can link its directories in a cycle; the bound turns such a file into a
/// `DirectoryLimitExceeded` failure instead of unbounded iteration.
pub const MAX_DIRECTORY_HOPS: u32 = 4096;

/// The closed set of TIFF field types.  Each type has a fixed byte width per
/// unit, given by `num_bytes`.
#[derive(Clone, Copy, Debug, PartialEq, Eq, Structural)]
pub enum FieldType {
    Byte,
    Ascii,
    Short,
    Long,
    Rational,
    SByte,
    Undefined,
    SShort,
    Slong,
    SRational,
    Float,
    Double,
}

impl FieldType {
    /// Meaning of a 16-bit field-type code: codes 1 through 12 name the
    /// twelve field types in order; every other code is rejected, carrying
    /// the offending code.
    pub open spec fn spec_from_u16(x: u16) -> Result<FieldType, SvsError> {
        if x == 1 {
            Ok(FieldType::Byte)
        } else if x == 2 {
            Ok(FieldType::Ascii)
        } else if x == 3 {
            Ok(FieldType::Short)
        } else if x == 4 {
            Ok(FieldType::Long)
        } else if x == 5 {
            Ok(FieldType::Rational)
        } else if x == 6 {
            Ok(FieldType::SByte)
        } else if x == 7 {
            Ok(FieldType::Undefined)
        } else if x == 8 {
            Ok(FieldType::SShort)
        } else if x == 9 {
            Ok(FieldType::Slong)
        } else if x == 10 {
            Ok(FieldType::SRational)
        } else if x == 11 {
            Ok(FieldType::Float)
        } else if x == 12 {
            Ok(FieldType::Double)
        } else {
            Err(SvsError::UnknownFieldType(x))
        }
    }

    /// Maps a 16-bit field-type code to its field type.
    pub fn from_u16(x: u16) -> (r: Result<Self, SvsError>)
        ensures
            r == Self::spec_from_u16(x),
    {
        match x {
            1 => Ok(FieldType::Byte),
            2 => Ok(FieldType::Ascii),
            3 => Ok(FieldType::Short),
            4 => Ok(FieldType::Long),
            5 => Ok(FieldType::Rational),
            6 => Ok(FieldType::SByte),
            7 => Ok(FieldType::Undefined),
            8 => Ok(FieldType::SShort),
            9 => Ok(FieldType::Slong),
            10 => Ok(FieldType::SRational),
            11 => Ok(FieldType::Float),
            12 => Ok(FieldType::Double),
            _ => Err(SvsError::UnknownFieldType(x)),
        }
    }

    /// The fixed byte width of one unit of this field type.
    pub open spec fn spec_num_bytes(self) -> u8 {
        match self {
            FieldType::Byte => 1,
            FieldType::Ascii => 1,
            FieldType::Short => 2,
            FieldType::Long => 4,
            FieldType::Rational => 8,
            FieldType::SByte => 1,
            FieldType::Undefined => 1,
            FieldType::SShort => 2,
            FieldType::Slong => 4,
            FieldType::SRational => 8,
            FieldType::Float => 4,
            FieldType::Double => 8,
        }
    }

    /// Byte width of one unit of this field type, used both by the
    /// inline/offset decision and by raw payload sizing.
    pub fn num_bytes(&self) -> (r: u8)
        ensures
            r == self.spec_num_bytes(),
    {
        match self {
            FieldType::Byte => 1,
            FieldType::Ascii => 1,
            FieldType::Short => 2,
            FieldType::Long => 4,
            FieldType::Rational => 8,
            FieldType::SByte => 1,
            FieldType::Undefined => 1,
            FieldType::SShort => 2,
            FieldType::Slong => 4,
            FieldType::SRational => 8,
            FieldType::Float => 4,
            FieldType::Double => 8,
        }
    }
}

/// One fixed-size tag record of a directory.  `offset` is either the literal
/// value bytes (when `field_type` width times `count` is at most 4) or a byte
/// offset into storage where the value resides; the dual meaning is resolved
/// by `TIFFReader::read_entry`, never assumed.
#[derive(Clone, Copy, Debug, PartialEq, Eq, Structural)]
pub struct IDFEntry {
    pub tag: u16,
    pub field_type: FieldType,
    pub count: u32,
    pub offset: u32,
}

/// Decoding of a 12-byte directory entry record: a 2-byte tag, a 2-byte
/// field-type code, a 4-byte count and a 4-byte value-or-offset, all
/// little-endian; an unknown field-type code fails the whole entry.
pub open spec fn spec_entry_from(s: Seq<u8>) -> Result<IDFEntry, SvsError>
    recommends
        s.len() == 12,
{
    match FieldType::spec_from_u16(spec_le_u16(s[2], s[3])) {
        Err(e) => Err(e),
        Ok(ft) => Ok(
            IDFEntry {
                tag: spec_le_u16(s[0], s[1]),
                field_type: ft,
                count: spec_le_u32(s[4], s[5], s[6], s[7]),
                offset: spec_le_u32(s[8], s[9], s[10], s[11]),
            },
        ),
    }
}

impl IDFEntry {
    /// Decodes one entry from its 12-byte on-disk record.
    pub fn from_buf(buf: &[u8]) -> (r: Result<Self, SvsError>)
        requires
            buf@.len() == 12,
        ensures
            r == spec_entry_from(buf@),
    {
        let ft = match FieldType::from_u16(read_le_u16(slice_subrange(buf, 2, 4))) {
            Err(e) => {
                return Err(e);
            },
            Ok(ft) => ft,
        };
        Ok(
            IDFEntry {
                tag: read_le_u16(slice_subrange(buf, 0, 2)),
                field_type: ft,
                count: read_le_u32(slice_subrange(buf, 4, 8)),
                offset: read_le_u32(slice_subrange(buf, 8, 12)),
            },
        )
    }
}

/// One node of the directory chain: its position in storage and its entries
/// in on-disk order.
#[derive(Debug)]
pub struct IDFDirectory {
    pub offset: u32,
    pub entries: Vec<IDFEntry>,
}

/// Mathematical model of a directory: position and entry sequence.
pub struct DirectoryModel {
    pub offset: u32,
    pub entries: Seq<IDFEntry>,
}

impl View for IDFDirectory {
    type V = DirectoryModel;

    open spec fn view(&self) -> DirectoryModel {
        DirectoryModel { offset: self.offset, entries: self.entries@ }
    }
}

/// The directory sequence seen through each directory's model.
pub open spec fn dirs_view(v: Seq<IDFDirectory>) -> Seq<DirectoryModel> {
    v.map_values(|d: IDFDirectory| d@)
}

/// The first entry carrying the given tag id, searched in on-disk order;
/// absence is the `TagNotFound` failure for that id.
pub open spec fn spec_find_entry(entries: Seq<IDFEntry>, id: u16) -> Result<IDFEntry, SvsError>
    decreases entries.len(),
{
    if entries.len() == 0 {
        Err(SvsError::TagNotFound(id))
    } else if entries[0].tag == id {
        Ok(entries[0])
    } else {
        spec_find_entry(entries.skip(1), id)
    }
}

impl IDFDirectory {
    /// Finds the first entry with the given tag id, in on-disk order.
    pub fn get_entry_by_tag_id(&self, id: u16) -> (r: Result<&IDFEntry, SvsError>)
        ensures
            match r {
                Ok(e) => spec_find_entry(self@.entries, id) == Ok::<IDFEntry, SvsError>(*e),
                Err(e) => spec_find_entry(self@.entries, id) == Err::<IDFEntry, SvsError>(e),
            },
    {
        let n = self.entries.len();
        let mut i: usize = 0;
        proof {
            assert(self.entries@.skip(0) =~= self.entries@);
        }
        while i < n
            invariant
                i <= n,
                n == self.entries@.len(),
                spec_find_entry(self.entries@, id) == spec_find_entry(
                    self.entries@.skip(i as int),
                    id,
                ),
            decreases n - i,
        {
            if self.entries[i].tag == id {
                proof {
                    assert(self.entries@.skip(i as int)[0] == self.entries@[i as int]);
                }
                return Ok(&self.entries[i]);
            }
            proof {
                assert(self.entries@.skip(i as int).skip(1) =~= self.entries@.skip(i as int + 1));
            }
            i = i + 1;
        }
        Err(SvsError::TagNotFound(id))
    }
}

/// The fully parsed TIFF header structure: the stream's byte order and the
/// directories in chain-traversal order.  Positional convention: directory 0
/// is the full-resolution layer, directory 1 the thumbnail, directories 2
/// and later the successively downsampled pyramid layers.
#[derive(Debug)]
pub struct TIFFHeaders {
    pub endianness: Endianness,
    pub directories: Vec<IDFDirectory>,
}

/// Mathematical model of the parsed TIFF headers.
pub struct TIFFModel {
    pub endianness: Endianness,
    pub directories: Seq<DirectoryModel>,
}

impl View for TIFFHeaders {
    type V = TIFFModel;

    open spec fn view(&self) -> TIFFModel {
        TIFFModel { endianness: self.endianness, directories: dirs_view(self.directories@) }
    }
}

/// Entry count of the directory at `off`: the little-endian u16 at its head.
pub open spec fn spec_dir_count(data: Seq<u8>, off: int) -> int
    recommends
        0 <= off,
        off + 2 <= data.len(),
{
    spec_le_u16(data[off], data[off + 1]) as int
}

/// Position just past the entry records of the directory at `off`, where the
/// trailing next-directory offset is stored.
pub open spec fn spec_dir_entries_end(data: Seq<u8>, off: int) -> int {
    off + 2 + 12 * spec_dir_count(data, off)
}

/// The trailing next-directory offset of the directory at `off`.
pub open spec fn spec_dir_next(data: Seq<u8>, off: int) -> u32 {
    let e = spec_dir_entries_end(data, off);
    spec_le_u32(data[e], data[e + 1], data[e + 2], data[e + 3])
}

/// The 12-byte record of entry `k` of the directory at `off`.
pub open spec fn spec_entry_bytes(data: Seq<u8>, off: int, k: int) -> Seq<u8> {
    data.subrange(off + 2 + 12 * k, off + 2 + 12 * k + 12)
}

/// Decoding of entries `k` up to `n` of the directory at `off`, in order;
/// the first entry that fails decides the failure of the whole directory.
pub open spec fn spec_entries_from(data: Seq<u8>, off: int, k: int, n: int) -> Result<
    Seq<IDFEntry>,
    SvsError,
>
    decreases n - k,
{
    if k >= n {
        Ok(Seq::empty())
    } else {
        match spec_entry_from(spec_entry_bytes(data, off, k)) {
            Err(e) => Err(e),
            Ok(en) => match spec_entries_from(data, off, k + 1, n) {
                Err(e) => Err(e),
                Ok(rest) => Ok(seq![en] + rest),
            },
        }
    }
}

/// Parse of the single directory at `off`: its entry count, its entries and
/// the bounds of all three parts.  A directory that runs past the end of the
/// stored bytes is a `ShortRead`; no partial directory is kept.
pub open spec fn spec_parse_directory(data: Seq<u8>, off: u32) -> Result<DirectoryModel, SvsError> {
    if off + 2 > data.len() {
        Err(SvsError::ShortRead)
    } else if spec_dir_entries_end(data, off as int) + 4 > data.len() {
        Err(SvsError::ShortRead)
    } else {
        match spec_entries_from(data, off as int, 0, spec_dir_count(data, off as int)) {
            Err(e) => Err(e),
            Ok(entries) => Ok(DirectoryModel { offset: off, entries }),
        }
    }
}

/// Parse of the directory chain starting at `off`, following each trailing
/// next-offset until the terminating zero offset, for at most `fuel` links.
pub open spec fn spec_chain(data: Seq<u8>, off: u32, fuel: nat) -> Result<
    Seq<DirectoryModel>,
    SvsError,
>
    decreases fuel,
{
    if off == 0 {
        Ok(Seq::empty())
    } else if fuel == 0 {
        Err(SvsError::DirectoryLimitExceeded)
    } else {
        match spec_parse_directory(data, off) {
            Err(e) => Err(e),
            Ok(dir) => match spec_chain(data, spec_dir_next(data, off as int), (fuel - 1) as nat) {
                Err(e) => Err(e),
                Ok(rest) => Ok(seq![dir] + rest),
            },
        }
    }
}

/// A parsed chain mirrors the on-disk linkage: an empty chain comes only
/// from the terminating zero offset; otherwise the first parsed directory
/// sits exactly at the offset that was followed, and the rest of the
/// sequence is the chain reached through that directory's trailing
/// next-directory offset.
pub proof fn lemma_chain_follows_linkage(
    data: Seq<u8>,
    off: u32,
    fuel: nat,
    dirs: Seq<DirectoryModel>,
)
    requires
        spec_chain(data, off, fuel) == Ok::<Seq<DirectoryModel>, SvsError>(dirs),
    ensures
        off == 0 ==> dirs.len() == 0,
        off != 0 ==> dirs.len() > 0 && dirs[0].offset == off && spec_chain(
            data,
            spec_dir_next(data, off as int),
            (fuel - 1) as nat,
        ) == Ok::<Seq<DirectoryModel>, SvsError>(dirs.skip(1)),
{
    if off != 0 {
        match spec_parse_directory(data, off) {
            Err(_) => {
                assert(false);
            },
            Ok(dir) => {
                match spec_chain(data, spec_dir_next(data, off as int), (fuel - 1) as nat) {
                    Err(_) => {
                        assert(false);
                    },
                    Ok(rest) => {
                        assert(dirs == seq![dir] + rest);
                        assert(dirs.skip(1) =~= rest);
                    },
                }
            },
        }
    }
}

/// Parse of the whole TIFF header structure from the byte stream: the endian
/// marker (only little-endian is accepted), the 16-bit magic value 42, the
/// offset of the first directory, and the directory chain from there.
pub open spec fn spec_read_tiff(data: Seq<u8>) -> Result<TIFFModel, SvsError> {
    if data.len() < 8 {
        Err(SvsError::ShortRead)
    } else {
        match Endianness::spec_from_bytes(data.subrange(0, 2)) {
            Err(e) => Err(e),
            Ok(Endianness::Big) => Err(SvsError::UnsupportedEndianness),
            Ok(Endianness::Small) => {
                if spec_le_u16(data[2], data[3]) != 42 {
                    Err(SvsError::NotATiffFile)
                } else {
                    match spec_chain(
                        data,
                        spec_le_u32(data[4], data[5], data[6], data[7]),
                        MAX_DIRECTORY_HOPS as nat,
                    ) {
                        Err(e) => Err(e),
                        Ok(dirs) => Ok(
                            TIFFModel { endianness: Endianness::Small, directories: dirs },
                        ),
                    }
                }
            },
        }
    }
}

/// Unit width of the entry's field type times its count: the length in bytes
/// of the entry's value payload.
pub open spec fn spec_value_len(e: IDFEntry) -> int {
    e.field_type.spec_num_bytes() * e.count
}

/// Resolution of an entry's value under the inline/offset storage rule: a
/// payload of at most 4 bytes lives in the entry's own 4 value bytes (all
/// four are returned, little-endian); a longer payload lives at the entry's
/// offset in storage and is exactly as long as the payload demands.
pub open spec fn spec_entry_value(data: Seq<u8>, e: IDFEntry) -> Result<Seq<u8>, SvsError> {
    if spec_value_len(e) <= 4 {
        Ok(spec_u32_le_bytes(e.offset))
    } else if e.offset + spec_value_len(e) <= data.len() {
        Ok(data.subrange(e.offset as int, e.offset + spec_value_len(e)))
    } else {
        Err(SvsError::ShortRead)
    }
}

/// Value of the first entry with the given tag in the directory, resolved
/// under the inline/offset rule.
pub open spec fn spec_tag_value(data: Seq<u8>, dir: DirectoryModel, tag_id: u16) -> Result<
    Seq<u8>,
    SvsError,
> {
    match spec_find_entry(dir.entries, tag_id) {
        Err(e) => Err(e),
        Ok(en) => spec_entry_value(data, en),
    }
}

/// Owner of the stored bytes and the TIFF headers parsed from them once at
/// open time; all raw byte access goes through this single owner.
#[derive(Debug)]
pub struct TIFFReader {
    pub data: Vec<u8>,
    pub headers: TIFFHeaders,
}

impl TIFFReader {
    /// Parses the TIFF headers of `data` and takes ownership of the bytes.
    pub fn open(data: Vec<u8>) -> (r: Result<Self, SvsError>)
        ensures
            match r {
                Ok(t) => spec_read_tiff(data@) == Ok::<TIFFModel, SvsError>(t.headers@) && t.data@
                    == data@,
                Err(e) => spec_read_tiff(data@) == Err::<TIFFModel, SvsError>(e),
            },
    {
        let headers = match Self::read_headers(data.as_slice()) {
            Err(e) => {
                return Err(e);
            },
            Ok(h) => h,
        };
        Ok(TIFFReader { data, headers })
    }

    /// Walks the header and the directory chain of the byte stream.
    pub fn read_headers(data: &[u8]) -> (r: Result<TIFFHeaders, SvsError>)
        ensures
            match r {
                Ok(h) => spec_read_tiff(data@) == Ok::<TIFFModel, SvsError>(h@),
                Err(e) => spec_read_tiff(data@) == Err::<TIFFModel, SvsError>(e),
            },
    {
        if data.len() < 8 {
            return Err(SvsError::ShortRead);
        }
        let endianness = match Endianness::from_bytes(slice_subrange(data, 0, 2)) {
            Err(e) => {
                return Err(e);
            },
            Ok(Endianness::Big) => {
                return Err(SvsError::UnsupportedEndianness);
            },
            Ok(Endianness::Small) => Endianness::Small,
        };
        if read_le_u16(slice_subrange(data, 2, 4)) != 42 {
            return Err(SvsError::NotATiffFile);
        }
        let first_off = read_le_u32(slice_subrange(data, 4, 8));

        let mut dirs: Vec<IDFDirectory> = Vec::new();
        let mut next_off: u32 = first_off;
        let mut hops: u32 = 0;
        while next_off != 0
            invariant
                hops <= MAX_DIRECTORY_HOPS,
                endianness == Endianness::Small,
                spec_read_tiff(data@) == (match spec_chain(
                    data@,
                    first_off,
                    MAX_DIRECTORY_HOPS as nat,
                ) {
                    Ok(ds) => Ok::<TIFFModel, SvsError>(
                        TIFFModel { endianness: Endianness::Small, directories: ds },
                    ),
                    Err(e) => Err::<TIFFModel, SvsError>(e),
                }),
                spec_chain(data@, first_off, MAX_DIRECTORY_HOPS as nat) == (match spec_chain(
                    data@,
                    next_off,
                    (MAX_DIRECTORY_HOPS - hops) as nat,
                ) {
                    Ok(rest) => Ok::<Seq<DirectoryModel>, SvsError>(dirs_view(dirs@) + rest),
                    Err(e) => Err::<Seq<DirectoryModel>, SvsError>(e),
                }),
            decreases MAX_DIRECTORY_HOPS - hops,
        {
            if hops == MAX_DIRECTORY_HOPS {
                return Err(SvsError::DirectoryLimitExceeded);
            }
            match Self::read_directory(data, next_off) {
                Err(e) => {
                    return Err(e);
                },
                Ok((dir, next)) => {
                    proof {
                        let f = (MAX_DIRECTORY_HOPS - hops) as nat;
                        assert(spec_chain(data@, next_off, f) == (match spec_chain(
                            data@,
                            next,
                            (f - 1) as nat,
                        ) {
                            Ok(rest) => Ok::<Seq<DirectoryModel>, SvsError>(seq![dir@] + rest),
                            Err(e) => Err::<Seq<DirectoryModel>, SvsError>(e),
                        }));
                        assert(dirs_view(dirs@.push(dir)) =~= dirs_view(dirs@) + seq![dir@]);
                        assert forall|rest: Seq<DirectoryModel>|
                            (dirs_view(dirs@) + (seq![dir@] + rest)) =~= (dirs_view(dirs@.push(dir))
                                + rest) by {};
                    }
                    dirs.push(dir);
                    next_off = next;
                    hops = hops + 1;
                },
            }
        }
        proof {
            assert(dirs_view(dirs@) + Seq::<DirectoryModel>::empty() =~= dirs_view(dirs@));
        }
        Ok(TIFFHeaders { endianness, directories: dirs })
    }

    /// Reads one directory at `off`: its entry count, its entries and its
    /// trailing next-directory offset.
    fn read_directory(data: &[u8], off: u32) -> (r: Result<(IDFDirectory, u32), SvsError>)
        requires
            off != 0,
        ensures
            match r {
                Ok((dir, next)) => spec_parse_directory(data@, off) == Ok::<
                    DirectoryModel,
                    SvsError,
                >(dir@) && next == spec_dir_next(data@, off as int),
                Err(e) => spec_parse_directory(data@, off) == Err::<DirectoryModel, SvsError>(e),
            },
    {
        if off as u64 + 2 > data.len() as u64 {
            return Err(SvsError::ShortRead);
        }
        let o = off as usize;
        let n = read_le_u16(slice_subrange(data, o, o + 2)) as usize;
        assert(n == spec_dir_count(data@, off as int));
        if o as u64 + 2 + 12 * (n as u64) + 4 > data.len() as u64 {
            return Err(SvsError::ShortRead);
        }
        let mut entries: Vec<IDFEntry> = Vec::new();
        let mut k: usize = 0;
        while k < n
            invariant
                k <= n,
                n <= 65535,
                o == off,
                o + 2 + 12 * n + 4 <= data.len(),
                n == spec_dir_count(data@, off as int),
                entries@.len() == k,
                spec_entries_from(data@, off as int, 0, n as int) == (match spec_entries_from(
                    data@,
                    off as int,
                    k as int,
                    n as int,
                ) {
                    Ok(rest) => Ok::<Seq<IDFEntry>, SvsError>(entries@ + rest),
                    Err(e) => Err::<Seq<IDFEntry>, SvsError>(e),
                }),
            decreases n - k,
        {
            let ebytes = slice_subrange(data, o + 2 + 12 * k, o + 2 + 12 * k + 12);
            assert(ebytes@ == spec_entry_bytes(data@, off as int, k as int));
            match IDFEntry::from_buf(ebytes) {
                Err(e) => {
                    return Err(e);
                },
                Ok(en) => {
                    proof {
                        assert forall|rest: Seq<IDFEntry>|
                            (entries@ + (seq![en] + rest)) =~= (entries@.push(en) + rest) by {};
                    }
                    entries.push(en);
                },
            }
            k = k + 1;
        }
        proof {
            assert(entries@ + Seq::<IDFEntry>::empty() =~= entries@);
        }
        let ee = o + 2 + 12 * n;
        let next = read_le_u32(slice_subrange(data, ee, ee + 4));
        assert(next == spec_dir_next(data@, off as int));
        Ok((IDFDirectory { offset: off, entries }, next))
    }

    /// Resolves an entry's value under the inline/offset storage rule: a
    /// payload of at most 4 bytes is served from the entry's own value
    /// bytes with no storage access; a longer payload is read from storage
    /// at the entry's offset.
    pub fn read_entry(&self, entry: &IDFEntry) -> (r: Result<Vec<u8>, SvsError>)
        ensures
            match r {
                Ok(v) => spec_entry_value(self.data@, *entry) == Ok::<Seq<u8>, SvsError>(v@),
                Err(e) => spec_entry_value(self.data@, *entry) == Err::<Seq<u8>, SvsError>(e),
            },
    {
        let len = entry.field_type.num_bytes() as u64 * entry.count as u64;
        proof {
            assert(entry.field_type.spec_num_bytes() <= 8);
            assert(len <= 8 * 0xffff_ffffu64) by (nonlinear_arith)
                requires
                    len == entry.field_type.spec_num_bytes() * entry.count,
                    entry.field_type.spec_num_bytes() <= 8,
                    entry.count <= 0xffff_ffffu32,
            ;
        }
        if len <= 4 {
            return Ok(u32_to_le_bytes(entry.offset));
        }
        if entry.offset as u64 + len > self.data.len() as u64 {
            return Err(SvsError::ShortRead);
        }
        let o = entry.offset as usize;
        let l = len as usize;
        Ok(slice_to_vec(slice_subrange(self.data.as_slice(), o, o + l)))
    }

    /// Resolves the value of the given tag in the directory at index
    /// `layer`, combining the search by tag id with the inline/offset rule.
    pub fn get_tag_value(&self, layer: usize, tag_id: u16) -> (r: Result<Vec<u8>, SvsError>)
        requires
            layer < self.headers@.directories.len(),
        ensures
            match r {
                Ok(v) => spec_tag_value(self.data@, self.headers@.directories[layer as int], tag_id)
                    == Ok::<Seq<u8>, SvsError>(v@),
                Err(e) => spec_tag_value(
                    self.data@,
                    self.headers@.directories[layer as int],
                    tag_id,
                ) == Err::<Seq<u8>, SvsError>(e),
            },
    {
        let dir = &self.headers.directories[layer];
        let entry = match dir.get_entry_by_tag_id(tag_id) {
            Err(e) => {
                return Err(e);
            },
            Ok(e) => *e,
        };
        self.read_entry(&entry)
    }
}

} // verus!
