//! Exporting one resource file's data and information from a ROM buffer.

use crate::bytes::be32;
use crate::extract::{chain_fuel, spec_externs, spec_verdict_bytes};
use crate::ssb::{
    spec_entry_at, spec_header_ok, spec_includes_result, spec_ptr_list, spec_rom_code,
    spec_table_ok, spec_tbl_count, spec_tbl_entries_end, spec_tbl_start, spec_version_of_code,
    spec_zip_map, ResFileInfo, ResTblEntry, Ssb64, Ssb64Error, Ssb64Version,
};
use crate::ResError;
use vstd::prelude::*;
use vstd::slice::{slice_subrange, slice_to_vec};

verus! {

/// Errors arising from exporting resource file data from an SSB64 ROM.
#[derive(Debug)]
pub enum ExportError {
    /// Problem parsing the ROM as a version of SSB64.
    Ssb64Error(Ssb64Error),
    /// Problem decoding vpk0 data.
    VpkDecode(vpk0::errors::VpkError),
}

impl core::convert::From<Ssb64Error> for ExportError {
    fn from(e: Ssb64Error) -> Self {
        ExportError::Ssb64Error(e)
    }
}

impl vstd::std_specs::convert::FromSpecImpl<Ssb64Error> for ExportError {
    open spec fn obeys_from_spec() -> bool {
        true
    }

    open spec fn from_spec(e: Ssb64Error) -> Self {
        ExportError::Ssb64Error(e)
    }
}

impl core::convert::From<vpk0::errors::VpkError> for ExportError {
    fn from(e: vpk0::errors::VpkError) -> Self {
        ExportError::VpkDecode(e)
    }
}

impl vstd::std_specs::convert::FromSpecImpl<vpk0::errors::VpkError> for ExportError {
    open spec fn obeys_from_spec() -> bool {
        true
    }

    open spec fn from_spec(e: vpk0::errors::VpkError) -> Self {
        ExportError::VpkDecode(e)
    }
}

/// The failure cases of the export pipeline, stripped of payloads that only
/// the failing call can produce.
pub ghost enum SpecExportErr {
    /// The ROM header could not be parsed.
    Parse,
    /// The game code names no version whose table layout is known.
    Unknown(Seq<char>),
    /// The file id is at or past the table's entry count.
    Illegal(u32, u32),
    /// A computed byte range leaves the image or the address space.
    Bounds,
    /// An external file list spans an odd number of bytes.
    BadList(usize),
    /// A pointer list revisits a node.
    BadChain(usize),
    /// The decompressor rejected the payload.
    Decode,
}

/// The failure case an `Ssb64Error` falls under.
pub open spec fn spec_ssb_err(e: Ssb64Error) -> SpecExportErr {
    match e {
        Ssb64Error::N64ParseError(_) => SpecExportErr::Parse,
        Ssb64Error::UnknownVersion(u) => SpecExportErr::Unknown(u@),
        Ssb64Error::IllegalFile(a, b) => SpecExportErr::Illegal(a, b),
        Ssb64Error::OutOfBounds => SpecExportErr::Bounds,
        Ssb64Error::MalformedList { len } => SpecExportErr::BadList(len),
        Ssb64Error::MalformedChain { offset } => SpecExportErr::BadChain(offset),
    }
}

/// The failure case an `ExportError` falls under.
pub open spec fn spec_export_err(e: ExportError) -> SpecExportErr {
    match e {
        ExportError::Ssb64Error(s) => spec_ssb_err(s),
        ExportError::VpkDecode(_) => SpecExportErr::Decode,
    }
}

/// Byte offset just past the table's terminator record; payload offsets are
/// relative to it.
pub open spec fn spec_tbl_end(rom: Seq<u8>) -> int {
    spec_tbl_entries_end(rom) + 12
}

/// The ROM parses as the one supported version and its table is usable.
pub open spec fn spec_rom_ok(rom: Seq<u8>) -> bool {
    &&& spec_header_ok(rom)
    &&& spec_version_of_code(spec_rom_code(rom)) == Some(Ssb64Version::NtscU)
    &&& spec_table_ok(rom)
}

/// The record stored for `id` in the ROM's resource table.
pub open spec fn spec_rom_entry(rom: Seq<u8>, id: int) -> ResTblEntry {
    spec_entry_at(rom, spec_tbl_start(rom), id)
}

/// Record `id` can be read and its payload sliced: the record's 12 bytes lie
/// within the image, the payload pointer fits the address space, and the
/// stored payload lies within the image.
pub open spec fn spec_entry_accessible(rom: Seq<u8>, id: u32) -> bool {
    &&& id < spec_tbl_count(rom)
    &&& spec_tbl_start(rom) + id * 12 + 12 <= rom.len()
    &&& spec_tbl_end(rom) + spec_rom_entry(rom, id as int).offset <= usize::MAX
    &&& spec_tbl_end(rom) + spec_rom_entry(rom, id as int).offset + spec_rom_entry(
        rom,
        id as int,
    ).compressed_size <= rom.len()
}

/// The stored (possibly compressed) payload bytes of record `id`.
pub open spec fn spec_raw_payload(rom: Seq<u8>, id: int) -> Seq<u8> {
    let e = spec_rom_entry(rom, id);
    rom.subrange(spec_tbl_end(rom) + e.offset, spec_tbl_end(rom) + e.offset + e.compressed_size)
}

/// Whether fetching record `index` with decompression requested consults the
/// caller-run decompressor: the ROM resolves, the record is accessible, and
/// its stored payload is compressed.
pub open spec fn spec_needs_decode(rom: Seq<u8>, index: u32) -> bool {
    &&& spec_rom_ok(rom)
    &&& index < spec_tbl_count(rom)
    &&& spec_entry_accessible(rom, index)
    &&& spec_rom_entry(rom, index as int).compressed
}

/// Meaning of fetching record `index`'s data, over the caller-run
/// decompressor's verdict bytes `decoded` for the record's stored payload:
/// parse the ROM, locate the table, read the record, slice its payload, and
/// take the decompressed bytes when asked and compressed.
pub open spec fn spec_get_triple(
    rom: Seq<u8>,
    index: u32,
    decompress: bool,
    decoded: Option<Seq<u8>>,
) -> Result<(Seq<u8>, ResTblEntry), SpecExportErr> {
    if !spec_header_ok(rom) {
        Err(SpecExportErr::Parse)
    } else if spec_version_of_code(spec_rom_code(rom)) != Some(Ssb64Version::NtscU) {
        Err(SpecExportErr::Unknown(spec_rom_code(rom)))
    } else if !spec_table_ok(rom) {
        Err(SpecExportErr::Bounds)
    } else if index >= spec_tbl_count(rom) {
        Err(SpecExportErr::Illegal(index, spec_tbl_count(rom) as u32))
    } else if !spec_entry_accessible(rom, index) {
        Err(SpecExportErr::Bounds)
    } else {
        let e = spec_rom_entry(rom, index as int);
        let raw = spec_raw_payload(rom, index as int);
        if e.compressed && decompress {
            match decoded {
                Some(d) => Ok((d, e)),
                None => Err(SpecExportErr::Decode),
            }
        } else {
            Ok((raw, e))
        }
    }
}

/// Get an `Ssb64` struct with the file table, and file `index`'s data and
/// its `ResTblEntry`, from a buffer of the ROM data. The library does not
/// run the vpk0 decoder (see [`crate::vpk`]): when decompression is asked
/// for and the record is compressed, the caller runs the decoder on the
/// record's stored payload and hands in its verdict as `decoded`, whose
/// error value is carried through unchanged.
fn get_triple(
    rom: &[u8],
    index: u32,
    decompress: bool,
    decoded: Option<Result<Vec<u8>, vpk0::errors::VpkError>>,
) -> (r: Result<(Ssb64, Vec<u8>, ResTblEntry), ExportError>)
    requires
        decompress && spec_needs_decode(rom@, index) ==> decoded is Some,
    ensures
        match r {
            Ok((ssb, data, entry)) => {
                &&& spec_get_triple(rom@, index, decompress, spec_verdict_bytes(decoded)) == Ok::<
                    (Seq<u8>, ResTblEntry),
                    SpecExportErr,
                >((data@, entry))
                &&& ssb.version == Ssb64Version::NtscU
                &&& ssb.resource_table.start == spec_tbl_start(rom@)
                &&& ssb.resource_table.entries_count == spec_tbl_count(rom@)
                &&& ssb.resource_table.end == spec_tbl_end(rom@)
                &&& ssb.resource_table.ptr_to_next_tbl == be32(rom@, spec_tbl_entries_end(rom@))
            },
            Err(e) => spec_get_triple(rom@, index, decompress, spec_verdict_bytes(decoded))
                == Err::<(Seq<u8>, ResTblEntry), SpecExportErr>(spec_export_err(e)),
        },
        r matches Err(ExportError::VpkDecode(e)) ==> decoded == Some(
            Err::<Vec<u8>, vpk0::errors::VpkError>(e),
        ),
{
    let ssb = match Ssb64::from_rom(rom) {
        Ok(s) => s,
        Err(e) => {
            return Err(ExportError::Ssb64Error(e));
        },
    };
    let (entry, ptr) = match ssb.get_res_tbl_entry(rom, index) {
        Ok(p) => p,
        Err(e) => {
            return Err(ExportError::Ssb64Error(e));
        },
    };
    let compressed = entry.is_compressed();
    let (compressed_size, _) = entry.get_size();
    if ptr as u64 + compressed_size as u64 > rom.len() as u64 {
        return Err(ExportError::Ssb64Error(Ssb64Error::OutOfBounds));
    }
    let raw_data = slice_subrange(rom, ptr, ptr + compressed_size as usize);
    let data = if compressed && decompress {
        match decoded {
            Some(Ok(d)) => d,
            Some(Err(e)) => {
                return Err(ExportError::VpkDecode(e));
            },
            None => vstd::pervasive::unreached(),
        }
    } else {
        slice_to_vec(raw_data)
    };
    Ok((ssb, data, entry))
}

/// Meaning of reading record `id`'s external file list, assuming the table
/// was located; see [`Ssb64::get_res_tbl_includes`].
pub open spec fn spec_includes(rom: Seq<u8>, id: u32) -> Result<Option<Seq<u16>>, SpecExportErr> {
    let count = spec_tbl_count(rom);
    let start = spec_tbl_start(rom);
    let end = spec_tbl_end(rom);
    if id >= count {
        Err(SpecExportErr::Illegal(id, count as u32))
    } else if !(start + id * 12 + 12 <= rom.len()) {
        Err(SpecExportErr::Bounds)
    } else {
        let e = spec_rom_entry(rom, id as int);
        if e.external_ptr_list is None {
            Ok(None)
        } else if !(id + 1 >= count || start + (id + 1) * 12 + 12 <= rom.len()) {
            Err(SpecExportErr::Bounds)
        } else {
            let next_off: int = if id + 1 >= count {
                be32(rom, spec_tbl_entries_end(rom))
            } else {
                spec_rom_entry(rom, id as int + 1).offset as int
            };
            let s0 = end + e.offset + e.compressed_size;
            let s1 = end + next_off;
            if s1 < s0 || s1 > rom.len() {
                Err(SpecExportErr::Bounds)
            } else if (s1 - s0) % 2 != 0 {
                Err(SpecExportErr::BadList((s1 - s0) as usize))
            } else {
                Ok(Some(spec_externs(rom.subrange(s0, s1))))
            }
        }
    }
}

/// Mathematical form of a file's pointer-list summary.
pub ghost struct SpecInfo {
    pub compress: bool,
    pub internal: Option<Seq<u32>>,
    pub external: Option<Map<u32, u16>>,
}

impl View for ResFileInfo {
    type V = SpecInfo;

    open spec fn view(&self) -> SpecInfo {
        SpecInfo {
            compress: self.compress,
            internal: match self.internal_ptrs {
                Some(v) => Some(v@),
                None => None,
            },
            external: match self.external_ptrs {
                Some(m) => Some(m@),
                None => None,
            },
        }
    }
}

/// Meaning of exporting record `index`'s decompressed data together with its
/// pointer-list summary: fetch and decompress the data, read the external
/// file list, walk the internal chain, and walk the external chain pairing
/// its nodes with the listed file ids.
pub open spec fn spec_file_and_info(rom: Seq<u8>, index: u32, decoded: Option<Seq<u8>>) -> Result<
    (Seq<u8>, SpecInfo),
    SpecExportErr,
> {
    match spec_get_triple(rom, index, true, decoded) {
        Err(e) => Err(e),
        Ok((data, entry)) => match spec_includes(rom, index) {
            Err(e) => Err(e),
            Ok(externs) => {
                let fuel = chain_fuel(data.len());
                match entry.internal_ptr_list {
                    Some(o) => match spec_ptr_list(data, o as int, fuel) {
                        Err(e) => Err(spec_ssb_err(e)),
                        Ok(t) => spec_external_part(
                            data,
                            entry,
                            externs,
                            SpecInfo {
                                compress: entry.compressed,
                                internal: Some(seq![o] + t),
                                external: None,
                            },
                        ),
                    },
                    None => spec_external_part(
                        data,
                        entry,
                        externs,
                        SpecInfo { compress: entry.compressed, internal: None, external: None },
                    ),
                }
            },
        },
    }
}

/// The external half of [`spec_file_and_info`]: walk the external chain and
/// key each node offset to the external file id at the same position, with
/// pairs formed until the shorter list runs out.
pub open spec fn spec_external_part(
    data: Seq<u8>,
    entry: ResTblEntry,
    externs: Option<Seq<u16>>,
    info: SpecInfo,
) -> Result<(Seq<u8>, SpecInfo), SpecExportErr> {
    match entry.external_ptr_list {
        Some(o) => match spec_ptr_list(data, o as int, chain_fuel(data.len())) {
            Err(e) => Err(spec_ssb_err(e)),
            Ok(t) => {
                let ptrs = seq![o] + t;
                let files = externs.unwrap();
                Ok(
                    (
                        data,
                        SpecInfo {
                            external: Some(
                                spec_zip_map(
                                    ptrs,
                                    files,
                                    vstd::math::min(ptrs.len() as int, files.len() as int),
                                ),
                            ),
                            ..info
                        },
                    ),
                )
            },
        },
        None => Ok((data, info)),
    }
}

/// Export id `entry`'s data and information from a `&[u8]` SSB64 ROM buffer,
/// over the caller-run decompressor's verdict `decoded` for the record's
/// stored payload (consulted only when that payload is compressed).
fn get_file_and_info(
    rom: &[u8],
    entry: u32,
    decoded: Option<Result<Vec<u8>, vpk0::errors::VpkError>>,
) -> (r: Result<(Vec<u8>, ResFileInfo), ExportError>)
    requires
        spec_needs_decode(rom@, entry) ==> decoded is Some,
    ensures
        match r {
            Ok((data, info)) => spec_file_and_info(rom@, entry, spec_verdict_bytes(decoded))
                == Ok::<(Seq<u8>, SpecInfo), SpecExportErr>((data@, info@)),
            Err(e) => spec_file_and_info(rom@, entry, spec_verdict_bytes(decoded)) == Err::<
                (Seq<u8>, SpecInfo),
                SpecExportErr,
            >(spec_export_err(e)),
        },
        r matches Err(ExportError::VpkDecode(e)) ==> decoded == Some(
            Err::<Vec<u8>, vpk0::errors::VpkError>(e),
        ),
{
    let (ssb, file_data, tbl_entry) = match get_triple(rom, entry, true, decoded) {
        Ok(t) => t,
        Err(e) => {
            return Err(e);
        },
    };
    let req_files = match ssb.get_res_tbl_includes(rom, entry) {
        Ok(f) => f,
        Err(e) => {
            return Err(ExportError::Ssb64Error(e));
        },
    };
    let externals: Option<&[u16]> = match &req_files {
        Some(v) => Some(v.as_slice()),
        None => None,
    };
    let file_info = match ResFileInfo::from_ResTblEntry(tbl_entry, file_data.as_slice(), externals) {
        Ok(i) => i,
        Err(e) => {
            return Err(ExportError::Ssb64Error(e));
        },
    };
    Ok((file_data, file_info))
}

/// Export file number `index` from a `&[u8]` ROM buffer. If `decompress` is
/// `true`, the exported file is the caller-run decompressor's output for the
/// raw vpk0 data, handed in as the verdict `decoded` (see [`crate::vpk`]);
/// otherwise, the raw data is returned (which could be either the actual
/// binary file, or a vpk0 compressed file).
pub fn file(
    rom: &[u8],
    index: u32,
    decompress: bool,
    decoded: Option<Result<Vec<u8>, vpk0::errors::VpkError>>,
) -> (r: Result<Vec<u8>, ResError>)
    requires
        decompress && spec_needs_decode(rom@, index) ==> decoded is Some,
    ensures
        match r {
            Ok(d) => (spec_get_triple(rom@, index, decompress, spec_verdict_bytes(decoded))
                matches Ok(p) && p.0 == d@),
            Err(ResError::Export(e)) => spec_get_triple(
                rom@,
                index,
                decompress,
                spec_verdict_bytes(decoded),
            ) == Err::<(Seq<u8>, ResTblEntry), SpecExportErr>(spec_export_err(e)),
        },
{
    match get_triple(rom, index, decompress, decoded) {
        Ok((_, d, _)) => Ok(d),
        Err(e) => Err(ResError::Export(e)),
    }
}

/// Export information for file number `index` from a `&[u8]` ROM buffer. In
/// order to get file information, the file will have to be decompressed:
/// when its stored payload is compressed, the caller runs the decompressor
/// on it and hands in the verdict `decoded`.
pub fn info(
    rom: &[u8],
    index: u32,
    decoded: Option<Result<Vec<u8>, vpk0::errors::VpkError>>,
) -> (r: Result<ResFileInfo, ResError>)
    requires
        spec_needs_decode(rom@, index) ==> decoded is Some,
    ensures
        match r {
            Ok(i) => (spec_file_and_info(rom@, index, spec_verdict_bytes(decoded)) matches Ok(p)
                && p.1 == i@),
            Err(ResError::Export(e)) => spec_file_and_info(
                rom@,
                index,
                spec_verdict_bytes(decoded),
            ) == Err::<(Seq<u8>, SpecInfo), SpecExportErr>(spec_export_err(e)),
        },
{
    match get_file_and_info(rom, index, decoded) {
        Ok((_, i)) => Ok(i),
        Err(e) => Err(ResError::Export(e)),
    }
}

/// Export id `index`'s data and information from a `&[u8]` SSB64 ROM buffer.
/// In order to get file information, the file will have to be decompressed:
/// when its stored payload is compressed, the caller runs the decompressor
/// on it and hands in the verdict `decoded`.
pub fn file_and_info(
    rom: &[u8],
    index: u32,
    decoded: Option<Result<Vec<u8>, vpk0::errors::VpkError>>,
) -> (r: Result<(Vec<u8>, ResFileInfo), ResError>)
    requires
        spec_needs_decode(rom@, index) ==> decoded is Some,
    ensures
        match r {
            Ok((d, i)) => spec_file_and_info(rom@, index, spec_verdict_bytes(decoded)) == Ok::<
                (Seq<u8>, SpecInfo),
                SpecExportErr,
            >((d@, i@)),
            Err(ResError::Export(e)) => spec_file_and_info(
                rom@,
                index,
                spec_verdict_bytes(decoded),
            ) == Err::<(Seq<u8>, SpecInfo), SpecExportErr>(spec_export_err(e)),
        },
{
    match get_file_and_info(rom, index, decoded) {
        Ok(p) => Ok(p),
        Err(e) => Err(ResError::Export(e)),
    }
}

} // verus!
