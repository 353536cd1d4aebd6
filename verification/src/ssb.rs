//! The SSB64-specific view of a ROM image: version detection, the resource
//! table, and the per-file pointer-list summary.

use crate::bytes::{be16, be32, read_be16, read_be32};
use crate::extract::{chain_fuel, spec_externs, TableFile};
use crate::rom_info::{
    extract_asm_immediate, spec_asm_immediate, spec_country_code_bytes, spec_media_format,
    N64Header, N64ParseError,
};
use std::collections::BTreeMap;
use vstd::prelude::*;
use vstd::slice::slice_subrange;
use vstd::string::StrSliceExecFns;
use vstd::utf8::{decode_utf8, valid_utf8};

verus! {

broadcast use vstd::laws_cmp::group_laws_cmp;

/// Errors from reading a ROM as a version of SSB64 and resolving its
/// resource table.
#[derive(Debug)]
pub enum Ssb64Error {
    /// Basic N64 ROM information could not be read.
    N64ParseError(N64ParseError),
    /// The game code names no version of SSB64 whose table layout is known.
    UnknownVersion(String),
    /// The requested file id is at or past the table's entry count.
    IllegalFile(u32, u32),
    /// A computed byte range does not lie within the image.
    OutOfBounds,
    /// An external file list spans an odd number of bytes.
    MalformedList { len: usize },
    /// A pointer list did not terminate within the node capacity of its
    /// buffer, so it revisits a node.
    MalformedChain { offset: usize },
}

impl core::convert::From<N64ParseError> for Ssb64Error {
    fn from(e: N64ParseError) -> Self {
        Ssb64Error::N64ParseError(e)
    }
}

impl vstd::std_specs::convert::FromSpecImpl<N64ParseError> for Ssb64Error {
    open spec fn obeys_from_spec() -> bool {
        true
    }

    open spec fn from_spec(e: N64ParseError) -> Self {
        Ssb64Error::N64ParseError(e)
    }
}

/// The released versions of SSB64, named by region.
#[derive(Debug, Copy, Clone, Eq, PartialEq, Structural)]
pub enum Ssb64Version {
    NtscU,
    NtscJ,
    Pal,
    PalA,
}

/// Whether the header parses: the image holds the 0x40-byte header, its name
/// and game code fields are UTF-8, and the game code names a known media
/// format and country.
pub open spec fn spec_header_ok(rom: Seq<u8>) -> bool {
    &&& rom.len() >= 0x40
    &&& valid_utf8(rom.subrange(0x20, 0x34))
    &&& valid_utf8(rom.subrange(0x3b, 0x3f))
    &&& spec_media_format(decode_utf8(rom.subrange(0x3b, 0x3f))) is Ok
    &&& spec_country_code_bytes(rom.subrange(0x3b, 0x3f)) is Ok
}

/// The game code characters of the image.
pub open spec fn spec_rom_code(rom: Seq<u8>) -> Seq<char> {
    decode_utf8(rom.subrange(0x3b, 0x3f))
}

/// The SSB64 version a game code names, if any.
pub open spec fn spec_version_of_code(code: Seq<char>) -> Option<Ssb64Version> {
    if code == seq!['N', 'A', 'L', 'E'] {
        Some(Ssb64Version::NtscU)
    } else if code == seq!['N', 'A', 'L', 'J'] {
        Some(Ssb64Version::NtscJ)
    } else if code == seq!['N', 'A', 'L', 'P'] {
        Some(Ssb64Version::Pal)
    } else if code == seq!['N', 'A', 'L', 'U'] {
        Some(Ssb64Version::PalA)
    } else {
        None
    }
}

impl Ssb64Version {
    fn from_rom(rom: &[u8]) -> (r: Result<Self, Ssb64Error>)
        ensures
            match r {
                Ok(v) => spec_header_ok(rom@) && spec_version_of_code(spec_rom_code(rom@)) == Some(
                    v,
                ),
                Err(Ssb64Error::N64ParseError(_)) => !spec_header_ok(rom@),
                Err(Ssb64Error::UnknownVersion(u)) => spec_header_ok(rom@) && u@ == spec_rom_code(
                    rom@,
                ) && spec_version_of_code(spec_rom_code(rom@)) is None,
                Err(_) => false,
            },
    {
        let header = match N64Header::from_rom(rom) {
            Ok(h) => h,
            Err(e) => {
                return Err(Ssb64Error::N64ParseError(e));
            },
        };
        Ssb64Version::check_version(&header)
    }

    fn check_version(header: &N64Header) -> (r: Result<Self, Ssb64Error>)
        ensures
            match r {
                Ok(v) => spec_version_of_code(header.game_code@) == Some(v),
                Err(e) => (e matches Ssb64Error::UnknownVersion(u) && u@ == header.game_code@
                    && spec_version_of_code(header.game_code@) is None),
            },
    {
        let code = header.get_game_code();
        proof {
            reveal_strlit("NALE");
            reveal_strlit("NALJ");
            reveal_strlit("NALP");
            reveal_strlit("NALU");
        }
        if code.unicode_len() == 4 {
            let c0 = code.get_char(0);
            let c1 = code.get_char(1);
            let c2 = code.get_char(2);
            let c3 = code.get_char(3);
            if c0 == 'N' && c1 == 'A' && c2 == 'L' {
                if c3 == 'E' {
                    proof {
                        assert(code@ =~= seq!['N', 'A', 'L', 'E']);
                    }
                    return Ok(Ssb64Version::NtscU);
                }
                if c3 == 'J' {
                    proof {
                        assert(code@ =~= seq!['N', 'A', 'L', 'J']);
                    }
                    return Ok(Ssb64Version::NtscJ);
                }
                if c3 == 'P' {
                    proof {
                        assert(code@ =~= seq!['N', 'A', 'L', 'P']);
                    }
                    return Ok(Ssb64Version::Pal);
                }
                if c3 == 'U' {
                    proof {
                        assert(code@ =~= seq!['N', 'A', 'L', 'U']);
                    }
                    return Ok(Ssb64Version::PalA);
                }
            }
        }
        proof {
            lemma_code_names_no_version(code@);
        }
        Err(Ssb64Error::UnknownVersion(code.to_owned()))
    }

    /// Offsets of (a) the pointer to the start of the resource file table,
    /// and (b) the two ASM instructions whose immediates give the number of
    /// entries. Known only for the NTSC-U version.
    fn get_table_offsets(&self) -> (r: (u32, (u32, u32)))
        requires
            *self == Ssb64Version::NtscU,
        ensures
            r == (0x41F08u32, (0x527E8u32, 0x527F8u32)),
    {
        match self {
            Ssb64Version::NtscU => (0x41F08, (0x527E8, 0x527F8)),
            _ => vstd::pervasive::unreached(),
        }
    }
}

/// A code that fails the four-character match of the version check names no
/// version.
proof fn lemma_code_names_no_version(code: Seq<char>)
    requires
        !(code.len() == 4 && code[0] == 'N' && code[1] == 'A' && code[2] == 'L' && (code[3] == 'E'
            || code[3] == 'J' || code[3] == 'P' || code[3] == 'U')),
    ensures
        spec_version_of_code(code) is None,
{
    assert(code != seq!['N', 'A', 'L', 'E']);
    assert(code != seq!['N', 'A', 'L', 'J']);
    assert(code != seq!['N', 'A', 'L', 'P']);
    assert(code != seq!['N', 'A', 'L', 'U']);
}

/// This struct holds extracted information from a ROM byte slice.
#[derive(Debug)]
pub struct Ssb64 {
    pub version: Ssb64Version,
    pub resource_table: ResourceTbl,
}

/// The byte offset of the resource-table pointer word in the NTSC-U ROM.
pub open spec fn spec_tbl_start(rom: Seq<u8>) -> int {
    be32(rom, 0x41F08)
}

/// The entry count encoded in the two ASM immediates of the NTSC-U ROM,
/// reinterpreted as an unsigned 32-bit value.
pub open spec fn spec_tbl_count(rom: Seq<u8>) -> int {
    (spec_asm_immediate(be32(rom, 0x527E8) as u32, be32(rom, 0x527F8) as u32) as u32) as int
}

/// Byte offset of the table's trailing terminator record.
pub open spec fn spec_tbl_entries_end(rom: Seq<u8>) -> int {
    spec_tbl_start(rom) + 12 * spec_tbl_count(rom)
}

/// Whether the resource table can be located: the image holds the pointer
/// and size words, the entry-count immediates fit a signed 32-bit value, and
/// the table, terminator record included, lies within the image and below
/// the 32-bit address limit.
pub open spec fn spec_table_ok(rom: Seq<u8>) -> bool {
    &&& rom.len() >= 0x527FC
    &&& -0x80000000 <= spec_asm_immediate(be32(rom, 0x527E8) as u32, be32(rom, 0x527F8) as u32)
    &&& spec_tbl_entries_end(rom) + 12 <= rom.len()
    &&& spec_tbl_entries_end(rom) + 12 <= 0xFFFFFFFF
}

/// Struct to hold a pointer to the resource file table data.
#[derive(Debug)]
pub struct ResourceTbl {
    pub entries_count: u32,
    pub start: u32,
    pub eof: [u8; 12],
    pub ptr_to_next_tbl: u32,
    pub end: u32,
}

impl ResourceTbl {
    fn from_rom(rom: &[u8], version: Ssb64Version) -> (r: Result<ResourceTbl, Ssb64Error>)
        requires
            version == Ssb64Version::NtscU,
        ensures
            match r {
                Ok(t) => {
                    &&& spec_table_ok(rom@)
                    &&& t.start == spec_tbl_start(rom@)
                    &&& t.entries_count == spec_tbl_count(rom@)
                    &&& t.eof@ == rom@.subrange(
                        spec_tbl_entries_end(rom@),
                        spec_tbl_entries_end(rom@) + 12,
                    )
                    &&& t.ptr_to_next_tbl == be32(rom@, spec_tbl_entries_end(rom@))
                    &&& t.end == spec_tbl_entries_end(rom@) + 12
                },
                Err(Ssb64Error::OutOfBounds) => !spec_table_ok(rom@),
                Err(_) => false,
            },
    {
        if rom.len() < 0x527FC {
            return Err(Ssb64Error::OutOfBounds);
        }
        let (ptr_to_table_start, (size_upper_instruct, size_lower_instruct)) =
            version.get_table_offsets();
        let start = read_be32(rom, ptr_to_table_start as usize);
        let upper = read_be32(rom, size_upper_instruct as usize);
        let lower = read_be32(rom, size_lower_instruct as usize);
        // the most negative upper immediate with a negative lower immediate
        // is the one combination whose sum falls below the 32-bit range
        if upper % 0x10000 == 0x8000 && lower / 0x1000000 != 0x20 && lower % 0x10000 >= 0x8000 {
            return Err(Ssb64Error::OutOfBounds);
        }
        let entries_count = #[verifier::truncate] (extract_asm_immediate(upper, lower) as u32);
        let entries_end64: u64 = start as u64 + 12u64 * (entries_count as u64);
        if entries_end64 + 12 > rom.len() as u64 {
            return Err(Ssb64Error::OutOfBounds);
        }
        if entries_end64 + 12 > 0xFFFFFFFF {
            return Err(Ssb64Error::OutOfBounds);
        }
        let entries_end = entries_end64 as usize;
        // there is one final entry at the end of the table that points to the
        // start of the next table (for images and sprites)
        let eof: [u8; 12] = [
            rom[entries_end],
            rom[entries_end + 1],
            rom[entries_end + 2],
            rom[entries_end + 3],
            rom[entries_end + 4],
            rom[entries_end + 5],
            rom[entries_end + 6],
            rom[entries_end + 7],
            rom[entries_end + 8],
            rom[entries_end + 9],
            rom[entries_end + 10],
            rom[entries_end + 11],
        ];
        proof {
            assert(eof@ =~= rom@.subrange(
                spec_tbl_entries_end(rom@),
                spec_tbl_entries_end(rom@) + 12,
            ));
        }
        let ptr_to_next_tbl = read_be32(rom, entries_end);
        let end = (entries_end + 12) as u32;
        Ok(ResourceTbl { entries_count, start, eof, ptr_to_next_tbl, end })
    }

    /// Return a tuple containing a `ResTblEntry` and a pointer to that
    /// entry's data in the `rom_data` byte slice, the pointer being the
    /// table's end plus the entry's decoded offset.
    fn get_entry(&self, rom_data: &[u8], id: u32) -> (r: Result<(ResTblEntry, usize), Ssb64Error>)
        ensures
            match r {
                Ok((entry, ptr)) => {
                    &&& id < self.entries_count
                    &&& self.start + id * 12 + 12 <= rom_data@.len()
                    &&& entry == spec_entry_of_bytes(
                        rom_data@.subrange(self.start + id * 12, self.start + id * 12 + 12),
                    )
                    &&& ptr == self.end + entry.offset
                },
                Err(Ssb64Error::IllegalFile(a, b)) => a == id && b == self.entries_count && id
                    >= self.entries_count,
                Err(Ssb64Error::OutOfBounds) => id < self.entries_count && (self.start + id * 12
                    + 12 > rom_data@.len() || self.end + spec_entry_of_bytes(
                    rom_data@.subrange(self.start + id * 12, self.start + id * 12 + 12),
                ).offset > usize::MAX),
                Err(_) => false,
            },
    {
        if id >= self.entries_count {
            return Err(Ssb64Error::IllegalFile(id, self.entries_count));
        }
        let base64: u64 = self.start as u64 + 12u64 * (id as u64);
        if base64 + 12 > rom_data.len() as u64 {
            return Err(Ssb64Error::OutOfBounds);
        }
        let base = base64 as usize;
        let arr: [u8; 12] = [
            rom_data[base],
            rom_data[base + 1],
            rom_data[base + 2],
            rom_data[base + 3],
            rom_data[base + 4],
            rom_data[base + 5],
            rom_data[base + 6],
            rom_data[base + 7],
            rom_data[base + 8],
            rom_data[base + 9],
            rom_data[base + 10],
            rom_data[base + 11],
        ];
        proof {
            assert(arr@ =~= rom_data@.subrange(
                self.start + id * 12,
                self.start + id * 12 + 12,
            ));
        }
        let entry = ResTblEntry::from(&arr);
        let end64: u64 = self.end as u64 + entry.offset as u64;
        if usize::MAX as u64 <= 0xFFFFFFFF && end64 > usize::MAX as u64 {
            return Err(Ssb64Error::OutOfBounds);
        }
        Ok((entry, entry.calc_ptr(self.end as usize)))
    }
}

/// The resource file table information about one entry's data, with every
/// word-scaled field already scaled to bytes.
#[derive(Debug, Copy, Clone, PartialEq, Eq, Structural)]
pub struct ResTblEntry {
    pub compressed: bool,
    pub offset: u32,
    pub internal_ptr_list: Option<u32>,
    pub external_ptr_list: Option<u32>,
    pub compressed_size: u32,
    pub decompressed_size: u32,
}

/// The record decoded from 12 table bytes: a 31-bit payload offset under a
/// compression flag bit, then the internal chain head, the stored payload
/// size, the external chain head and the decompressed size, each a 16-bit
/// word-scaled field, the chain heads with `0xFFFF` for "absent".
pub open spec fn spec_entry_of_bytes(arr: Seq<u8>) -> ResTblEntry
    recommends
        arr.len() == 12,
{
    let word = be32(arr, 0);
    ResTblEntry {
        compressed: word >= 0x80000000,
        offset: (word % 0x80000000) as u32,
        internal_ptr_list: if be16(arr, 4) == 0xFFFF {
            None
        } else {
            Some((be16(arr, 4) * 4) as u32)
        },
        external_ptr_list: if be16(arr, 8) == 0xFFFF {
            None
        } else {
            Some((be16(arr, 8) * 4) as u32)
        },
        compressed_size: (be16(arr, 6) * 4) as u32,
        decompressed_size: (be16(arr, 10) * 4) as u32,
    }
}

impl ResTblEntry {
    /// Calculate the ROM pointer for a resource table entry from the base
    /// offset the entry's `offset` field is relative to.
    #[inline]
    fn calc_ptr(&self, base: usize) -> (r: usize)
        requires
            base + self.offset <= usize::MAX,
        ensures
            r == base + self.offset,
    {
        base + (self.offset as usize)
    }

    /// Check if the associated data for this entry is vpk0 compressed.
    #[inline]
    pub fn is_compressed(&self) -> (r: bool)
        ensures
            r == self.compressed,
    {
        self.compressed
    }

    /// Get a tuple containing the compressed size and decompressed size of
    /// the associated data for this table entry.
    pub fn get_size(&self) -> (r: (u32, u32))
        ensures
            r == (self.compressed_size, self.decompressed_size),
    {
        (self.compressed_size, self.decompressed_size)
    }
}

impl<'a> core::convert::From<&'a [u8; 12]> for ResTblEntry {
    /// Decode the 12 bytes of a table record; see [`spec_entry_of_bytes`].
    fn from(arr: &[u8; 12]) -> Self {
        let word = read_be32(arr.as_slice(), 0);
        let compressed = word >= 0x80000000;
        let offset = word % 0x80000000;
        let internal = read_be16(arr.as_slice(), 4);
        let internal_ptr_list = if internal == 0xFFFF {
            None
        } else {
            Some((internal as u32) * 4)
        };
        let external = read_be16(arr.as_slice(), 8);
        let external_ptr_list = if external == 0xFFFF {
            None
        } else {
            Some((external as u32) * 4)
        };
        let compressed_size = (read_be16(arr.as_slice(), 6) as u32) * 4;
        let decompressed_size = (read_be16(arr.as_slice(), 10) as u32) * 4;
        ResTblEntry {
            compressed,
            offset,
            internal_ptr_list,
            external_ptr_list,
            compressed_size,
            decompressed_size,
        }
    }
}

impl<'a> vstd::std_specs::convert::FromSpecImpl<&'a [u8; 12]> for ResTblEntry {
    open spec fn obeys_from_spec() -> bool {
        true
    }

    open spec fn from_spec(arr: &'a [u8; 12]) -> Self {
        spec_entry_of_bytes(arr@)
    }
}

/// The record stored for `id` in a table whose records start at `start`.
pub open spec fn spec_entry_at(rom: Seq<u8>, start: int, id: int) -> ResTblEntry {
    spec_entry_of_bytes(rom.subrange(start + id * 12, start + id * 12 + 12))
}

/// What looking up record `id` in table `tbl` of image `rom` gives: the
/// decoded record and the absolute pointer `tbl.end + offset` to its data, an
/// `IllegalFile` error for an id at or past the entry count, and an
/// `OutOfBounds` error when the record bytes leave the image or the pointer
/// leaves the address space.
pub open spec fn spec_entry_result(
    tbl: ResourceTbl,
    rom: Seq<u8>,
    id: u32,
    r: Result<(ResTblEntry, usize), Ssb64Error>,
) -> bool {
    match r {
        Ok((entry, ptr)) => {
            &&& id < tbl.entries_count
            &&& tbl.start + id * 12 + 12 <= rom.len()
            &&& entry == spec_entry_at(rom, tbl.start as int, id as int)
            &&& ptr == tbl.end + entry.offset
        },
        Err(Ssb64Error::IllegalFile(a, b)) => a == id && b == tbl.entries_count && id
            >= tbl.entries_count,
        Err(Ssb64Error::OutOfBounds) => id < tbl.entries_count && (tbl.start + id * 12 + 12
            > rom.len() || tbl.end + spec_entry_at(rom, tbl.start as int, id as int).offset
            > usize::MAX),
        Err(_) => false,
    }
}

impl Ssb64 {
    /// Read the version and locate the resource table. Only the NTSC-U
    /// version's table layout is known; any other version, known or not,
    /// fails with `UnknownVersion` carrying the game code.
    pub fn from_rom(rom: &[u8]) -> (r: Result<Ssb64, Ssb64Error>)
        ensures
            match r {
                Ok(s) => {
                    &&& spec_header_ok(rom@)
                    &&& spec_version_of_code(spec_rom_code(rom@)) == Some(Ssb64Version::NtscU)
                    &&& spec_table_ok(rom@)
                    &&& s.version == Ssb64Version::NtscU
                    &&& s.resource_table.start == spec_tbl_start(rom@)
                    &&& s.resource_table.entries_count == spec_tbl_count(rom@)
                    &&& s.resource_table.end == spec_tbl_entries_end(rom@) + 12
                    &&& s.resource_table.ptr_to_next_tbl == be32(rom@, spec_tbl_entries_end(rom@))
                    &&& s.resource_table.eof@ == rom@.subrange(
                        spec_tbl_entries_end(rom@),
                        spec_tbl_entries_end(rom@) + 12,
                    )
                },
                Err(Ssb64Error::N64ParseError(_)) => !spec_header_ok(rom@),
                Err(Ssb64Error::UnknownVersion(u)) => spec_header_ok(rom@) && u@ == spec_rom_code(
                    rom@,
                ) && spec_version_of_code(spec_rom_code(rom@)) != Some(Ssb64Version::NtscU),
                Err(Ssb64Error::OutOfBounds) => spec_header_ok(rom@) && spec_version_of_code(
                    spec_rom_code(rom@),
                ) == Some(Ssb64Version::NtscU) && !spec_table_ok(rom@),
                Err(_) => false,
            },
    {
        let version = match Ssb64Version::from_rom(rom) {
            Ok(v) => v,
            Err(e) => {
                return Err(e);
            },
        };
        match version {
            Ssb64Version::NtscU => (),
            Ssb64Version::NtscJ => {
                proof {
                    reveal_strlit("NALJ");
                    assert("NALJ"@ =~= seq!['N', 'A', 'L', 'J']);
                }
                return Err(Ssb64Error::UnknownVersion("NALJ".to_owned()));
            },
            Ssb64Version::Pal => {
                proof {
                    reveal_strlit("NALP");
                    assert("NALP"@ =~= seq!['N', 'A', 'L', 'P']);
                }
                return Err(Ssb64Error::UnknownVersion("NALP".to_owned()));
            },
            Ssb64Version::PalA => {
                proof {
                    reveal_strlit("NALU");
                    assert("NALU"@ =~= seq!['N', 'A', 'L', 'U']);
                }
                return Err(Ssb64Error::UnknownVersion("NALU".to_owned()));
            },
        }
        let resource_table = match ResourceTbl::from_rom(rom, version) {
            Ok(t) => t,
            Err(e) => {
                return Err(e);
            },
        };
        Ok(Ssb64 { version, resource_table })
    }

    /// Look up record `entry` in the resource table; see
    /// [`spec_entry_result`].
    pub fn get_res_tbl_entry(&self, rom: &[u8], entry: u32) -> (r: Result<
        (ResTblEntry, usize),
        Ssb64Error,
    >)
        ensures
            spec_entry_result(self.resource_table, rom@, entry, r),
    {
        self.resource_table.get_entry(rom, entry)
    }

    /// The external file list of record `entry`: `None` when the record has
    /// no external chain; otherwise the big-endian 16-bit ids stored between
    /// the record's payload end and the next record's payload start, the
    /// latter read from the table's terminator record when `entry` is the
    /// last real record. A span that is not a whole number of ids fails with
    /// `MalformedList`.
    pub fn get_res_tbl_includes(&self, rom: &[u8], entry: u32) -> (r: Result<
        Option<Vec<u16>>,
        Ssb64Error,
    >)
        ensures
            spec_includes_result(self.resource_table, rom@, entry, r),
    {
        let tbl = &self.resource_table;
        if entry >= tbl.entries_count {
            return Err(Ssb64Error::IllegalFile(entry, tbl.entries_count));
        }
        let base64: u64 = tbl.start as u64 + 12u64 * (entry as u64);
        if base64 + 12 > rom.len() as u64 {
            return Err(Ssb64Error::OutOfBounds);
        }
        let base = base64 as usize;
        let arr: [u8; 12] = [
            rom[base],
            rom[base + 1],
            rom[base + 2],
            rom[base + 3],
            rom[base + 4],
            rom[base + 5],
            rom[base + 6],
            rom[base + 7],
            rom[base + 8],
            rom[base + 9],
            rom[base + 10],
            rom[base + 11],
        ];
        proof {
            assert(arr@ =~= rom@.subrange(
                tbl.start + entry * 12,
                tbl.start + entry * 12 + 12,
            ));
        }
        let e = ResTblEntry::from(&arr);
        if e.external_ptr_list.is_none() {
            return Ok(None);
        }
        let next_off: u32 = if entry + 1 >= tbl.entries_count {
            tbl.ptr_to_next_tbl
        } else {
            let nbase64: u64 = tbl.start as u64 + 12u64 * (entry as u64 + 1);
            if nbase64 + 12 > rom.len() as u64 {
                return Err(Ssb64Error::OutOfBounds);
            }
            let nbase = nbase64 as usize;
            let narr: [u8; 12] = [
                rom[nbase],
                rom[nbase + 1],
                rom[nbase + 2],
                rom[nbase + 3],
                rom[nbase + 4],
                rom[nbase + 5],
                rom[nbase + 6],
                rom[nbase + 7],
                rom[nbase + 8],
                rom[nbase + 9],
                rom[nbase + 10],
                rom[nbase + 11],
            ];
            proof {
                assert(narr@ =~= rom@.subrange(
                    tbl.start + (entry + 1) * 12,
                    tbl.start + (entry + 1) * 12 + 12,
                ));
            }
            ResTblEntry::from(&narr).offset
        };
        let payload_end: u64 = e.offset as u64 + e.compressed_size as u64;
        if (next_off as u64) < payload_end {
            return Err(Ssb64Error::OutOfBounds);
        }
        let lstart64: u64 = tbl.end as u64 + payload_end;
        let lend64: u64 = tbl.end as u64 + next_off as u64;
        if lend64 > rom.len() as u64 {
            return Err(Ssb64Error::OutOfBounds);
        }
        let lstart = lstart64 as usize;
        let lend = lend64 as usize;
        let raw = slice_subrange(rom, lstart, lend);
        if raw.len() % 2 != 0 {
            return Err(Ssb64Error::MalformedList { len: raw.len() });
        }
        match TableFile::parse_externs(raw) {
            Ok(v) => Ok(Some(v)),
            Err(_) => vstd::pervasive::unreached(),
        }
    }
}

/// Where the external file list of record `id` lies: after the record's
/// payload, up to the next record's payload start (the terminator record's
/// offset word for the last real record).
pub open spec fn spec_includes_span(tbl: ResourceTbl, rom: Seq<u8>, id: u32) -> (int, int) {
    let e = spec_entry_at(rom, tbl.start as int, id as int);
    let next_off: int = if id + 1 >= tbl.entries_count {
        tbl.ptr_to_next_tbl as int
    } else {
        spec_entry_at(rom, tbl.start as int, id as int + 1).offset as int
    };
    (tbl.end + e.offset + e.compressed_size, tbl.end + next_off)
}

/// What the external file list lookup gives; see
/// [`Ssb64::get_res_tbl_includes`].
pub open spec fn spec_includes_result(
    tbl: ResourceTbl,
    rom: Seq<u8>,
    id: u32,
    r: Result<Option<Vec<u16>>, Ssb64Error>,
) -> bool {
    let e = spec_entry_at(rom, tbl.start as int, id as int);
    let record_in_image = tbl.start + id * 12 + 12 <= rom.len();
    let next_in_image = id + 1 >= tbl.entries_count || tbl.start + (id + 1) * 12 + 12 <= rom.len();
    let span = spec_includes_span(tbl, rom, id);
    match r {
        Ok(None) => id < tbl.entries_count && record_in_image && e.external_ptr_list is None,
        Ok(Some(v)) => {
            &&& id < tbl.entries_count
            &&& record_in_image
            &&& next_in_image
            &&& e.external_ptr_list is Some
            &&& span.0 <= span.1 <= rom.len()
            &&& (span.1 - span.0) % 2 == 0
            &&& v@ == spec_externs(rom.subrange(span.0, span.1))
        },
        Err(Ssb64Error::IllegalFile(a, b)) => a == id && b == tbl.entries_count && id
            >= tbl.entries_count,
        Err(Ssb64Error::OutOfBounds) => id < tbl.entries_count && (!record_in_image || (
        e.external_ptr_list is Some && (!next_in_image || span.1 < span.0 || span.1 > rom.len()))),
        Err(Ssb64Error::MalformedList { len }) => {
            &&& id < tbl.entries_count
            &&& record_in_image
            &&& next_in_image
            &&& e.external_ptr_list is Some
            &&& span.0 <= span.1 <= rom.len()
            &&& (span.1 - span.0) % 2 != 0
            &&& len == span.1 - span.0
        },
        Err(_) => false,
    }
}

/// One walk of a pointer list embedded in `buf`, reading the 16-bit `next`
/// field at `cur`: the byte offsets of the nodes after `cur`, in traversal
/// order, each `next * 4`, ending at the sentinel `next == 0xFFFF`. A node
/// outside the buffer fails with `OutOfBounds`; a list longer than the
/// buffer's node capacity revisits a node and fails with `MalformedChain`.
pub open spec fn spec_ptr_list(buf: Seq<u8>, cur: int, fuel: nat) -> Result<Seq<u32>, Ssb64Error>
    decreases fuel,
{
    if !(0 <= cur && cur + 2 <= buf.len()) {
        Err(Ssb64Error::OutOfBounds)
    } else {
        let next = be16(buf, cur);
        if next == 0xFFFF {
            Ok(Seq::empty())
        } else if fuel == 0 {
            Err(Ssb64Error::MalformedChain { offset: cur as usize })
        } else {
            match spec_ptr_list(buf, next * 4, (fuel - 1) as nat) {
                Ok(t) => Ok(seq![(next * 4) as u32] + t),
                Err(e) => Err(e),
            }
        }
    }
}

/// Create a `Vec` containing the byte offsets of the pointer-list nodes in
/// the `file` buffer, starting with `start` itself, without touching the
/// buffer.
fn collect_ptr_list(start: usize, file: &[u8]) -> (r: Result<Vec<u32>, Ssb64Error>)
    requires
        start <= u32::MAX,
    ensures
        match r {
            Ok(v) => (spec_ptr_list(file@, start as int, chain_fuel(file@.len())) matches Ok(t)
                && v@ == seq![start as u32] + t),
            Err(e) => spec_ptr_list(file@, start as int, chain_fuel(file@.len())) == Err::<
                Seq<u32>,
                Ssb64Error,
            >(e),
        },
{
    let cap: usize = file.len() / 4 + 1;
    let mut cur = start;
    let mut steps: usize = 0;
    let mut output: Vec<u32> = vec![start as u32];
    loop
        invariant_except_break
            cap == chain_fuel(file@.len()),
            steps <= cap,
            cur <= u32::MAX,
            output@.len() >= 1,
            output@[0] == start as u32,
            ({
                let whole = spec_ptr_list(file@, start as int, cap as nat);
                let rest = spec_ptr_list(file@, cur as int, (cap - steps) as nat);
                &&& match rest {
                    Ok(t) => whole == Ok::<Seq<u32>, Ssb64Error>(output@.skip(1) + t),
                    Err(e) => whole == Err::<Seq<u32>, Ssb64Error>(e),
                }
            }),
        ensures
            spec_ptr_list(file@, start as int, cap as nat) matches Ok(t) && output@ == seq![
                start as u32,
            ] + t,
        decreases cap - steps,
    {
        if file.len() < 2 || cur > file.len() - 2 {
            return Err(Ssb64Error::OutOfBounds);
        }
        let next = read_be16(file, cur);
        if next == 0xFFFF {
            proof {
                let t = spec_ptr_list(file@, cur as int, (cap - steps) as nat).unwrap();
                assert(output@.skip(1) + t =~= output@.skip(1));
                assert(output@ =~= seq![start as u32] + output@.skip(1));
            }
            break ;
        }
        if steps == cap {
            return Err(Ssb64Error::MalformedChain { offset: cur });
        }
        let ghost out0 = output@;
        cur = (next as usize) * 4;
        output.push(cur as u32);
        proof {
            let rest = spec_ptr_list(file@, cur as int, (cap - steps - 1) as nat);
            if rest is Ok {
                let t = rest.unwrap();
                assert(output@.skip(1) =~= out0.skip(1) + seq![cur as u32]);
                assert(out0.skip(1) + (seq![cur as u32] + t) =~= (out0.skip(1) + seq![
                    cur as u32,
                ]) + t);
            }
        }
        steps = steps + 1;
    }
    Ok(output)
}

/// How many node offsets the two lists share: pairs are formed index by
/// index until the shorter list runs out.
pub open spec fn spec_zip_map(ptrs: Seq<u32>, files: Seq<u16>, n: int) -> Map<u32, u16>
    decreases n,
{
    if n <= 0 {
        Map::empty()
    } else {
        spec_zip_map(ptrs, files, n - 1).insert(ptrs[n - 1], files[n - 1])
    }
}

/// An output struct that holds all of the important, extra information about
/// a resource file. If `compress` is `true`, the file will be compressed.
/// The two collections of pointers, `internal_ptrs` and `external_ptrs`, are
/// the node offsets of the internal chain, and the node offsets of the
/// external chain keyed to the external file each node refers to.
pub struct ResFileInfo {
    pub compress: bool,
    pub internal_ptrs: Option<Vec<u32>>,
    pub external_ptrs: Option<BTreeMap<u32, u16>>,
}

impl ResFileInfo {
    /// Summarize one record's pointer lists over its (decompressed) payload
    /// `file`. A record with an external chain must come with its external
    /// file list.
    #[allow(non_snake_case)]
    pub fn from_ResTblEntry(entry: ResTblEntry, file: &[u8], externals: Option<&[u16]>) -> (r:
        Result<ResFileInfo, Ssb64Error>)
        requires
            entry.external_ptr_list is Some ==> externals is Some,
        ensures
            ({
                let fuel = chain_fuel(file@.len());
                match r {
                    Ok(info) => {
                        &&& info.compress == entry.compressed
                        &&& match entry.internal_ptr_list {
                            Some(o) => (spec_ptr_list(file@, o as int, fuel) matches Ok(t) && (
                            info.internal_ptrs matches Some(v) && v@ == seq![o] + t)),
                            None => info.internal_ptrs is None,
                        }
                        &&& match entry.external_ptr_list {
                            Some(o) => (spec_ptr_list(file@, o as int, fuel) matches Ok(t) && (
                            info.external_ptrs matches Some(m) && m@ == spec_zip_map(
                                seq![o] + t,
                                externals.unwrap()@,
                                vstd::math::min(t.len() as int + 1, externals.unwrap()@.len() as int),
                            ))),
                            None => info.external_ptrs is None,
                        }
                    },
                    Err(e) => (entry.internal_ptr_list matches Some(o) && spec_ptr_list(
                        file@,
                        o as int,
                        fuel,
                    ) == Err::<Seq<u32>, Ssb64Error>(e)) || ((match entry.internal_ptr_list {
                        Some(o) => spec_ptr_list(file@, o as int, fuel) is Ok,
                        None => true,
                    }) && (entry.external_ptr_list matches Some(o2) && spec_ptr_list(
                        file@,
                        o2 as int,
                        fuel,
                    ) == Err::<Seq<u32>, Ssb64Error>(e))),
                }
            }),
    {
        let compress = entry.compressed;
        let internal_ptrs: Option<Vec<u32>> = match entry.internal_ptr_list {
            Some(o) => match collect_ptr_list(o as usize, file) {
                Ok(v) => Some(v),
                Err(e) => {
                    return Err(e);
                },
            },
            None => None,
        };
        let external_ptrs: Option<BTreeMap<u32, u16>> = match entry.external_ptr_list {
            Some(o) => {
                let ptrs = match collect_ptr_list(o as usize, file) {
                    Ok(v) => v,
                    Err(e) => {
                        return Err(e);
                    },
                };
                let f_idx = match externals {
                    Some(f) => f,
                    None => vstd::pervasive::unreached(),
                };
                let n = if ptrs.len() <= f_idx.len() {
                    ptrs.len()
                } else {
                    f_idx.len()
                };
                let mut map: BTreeMap<u32, u16> = BTreeMap::new();
                let mut i: usize = 0;
                while i < n
                    invariant
                        n == vstd::math::min(ptrs@.len() as int, f_idx@.len() as int),
                        i <= n,
                        map@ == spec_zip_map(ptrs@, f_idx@, i as int),
                    decreases n - i,
                {
                    map.insert(ptrs[i], f_idx[i]);
                    i = i + 1;
                }
                Some(map)
            },
            None => None,
        };
        Ok(ResFileInfo { compress, internal_ptrs, external_ptrs })
    }
}


} // verus!
