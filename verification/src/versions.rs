//! Known ROM versions and the byte range of each version's resource table.

use crate::bytes::{be32, read_be32};
use vstd::prelude::*;

verus! {

/// Layout of one known ROM version: the checksum pair that identifies it and
/// the absolute byte range of its resource table within the image.
#[derive(Debug, Copy, Clone, PartialEq, Eq, Structural)]
pub struct SSBInfo {
    pub crc1: u32,
    pub crc2: u32,
    pub table_start: usize,
    pub table_end: usize,
}

impl SSBInfo {
    /// A usable layout spans at least the trailing terminator record.
    pub open spec fn wf(self) -> bool {
        self.table_start + 12 <= self.table_end
    }

    /// Number of real records: each record is 12 bytes long and one dummy
    /// terminator record sits at the end of the table.
    pub open spec fn spec_total_entries(self) -> int {
        (self.table_end - self.table_start) / 12 - 1
    }

    /// Number of real records in this version's resource table.
    pub fn total_entries(&self) -> (n: usize)
        requires
            self.wf(),
        ensures
            n == self.spec_total_entries(),
    {
        (self.table_end - self.table_start) / 12 - 1
    }
}

/// The table layout of the NTSC-U (game code `NALE`) ROM, the one version
/// whose layout is known.
pub open spec fn spec_ntsc_u_info() -> SSBInfo {
    SSBInfo { crc1: 0x916B8B5B, crc2: 0x780B85A4, table_start: 0x1AC870, table_end: 0x1B2C6C }
}

/// The version whose checksum pair is stored at bytes `0x10..0x18` of the
/// image, or `None` when no known version matches or the image is too short
/// to hold the pair.
pub open spec fn spec_find_version(rom: Seq<u8>) -> Option<SSBInfo> {
    if rom.len() < 0x18 {
        None
    } else if be32(rom, 0x10) == 0x916B8B5B && be32(rom, 0x14) == 0x780B85A4 {
        Some(spec_ntsc_u_info())
    } else {
        None
    }
}

/// Identify the ROM version by the checksum pair in its header and return
/// that version's resource-table layout.
pub fn find_version(rom: &[u8]) -> (r: Option<SSBInfo>)
    ensures
        r == spec_find_version(rom@),
        r matches Some(info) ==> info.wf(),
{
    if rom.len() < 0x18 {
        return None;
    }
    let crc1 = read_be32(rom, 0x10);
    let crc2 = read_be32(rom, 0x14);
    if crc1 == 0x916B8B5B && crc2 == 0x780B85A4 {
        Some(SSBInfo { crc1: 0x916B8B5B, crc2: 0x780B85A4, table_start: 0x1AC870, table_end: 0x1B2C6C })
    } else {
        None
    }
}

} // verus!
