//! Resource-table lookup and relocation-chain resolution.
//!
//! Each 12-byte table record is decoded into a [`TableFile`]: the payload's
//! byte range relative to the table end, a compression flag, and the heads of
//! up to two relocation chains embedded in the payload. The spec functions
//! [`spec_resolve`] and [`spec_next_offset`] give the mathematical meaning of
//! a lookup, including every failure case, and the executable resolver is
//! proved to return exactly that.

use crate::bytes::{be16, be32, lemma_store_be32_read, read_be16, read_be32, store_be32, write_be32};
use crate::versions::SSBInfo;
use vstd::prelude::*;
use vstd::slice::{slice_subrange, slice_to_vec};

verus! {

/// The failure modes of table lookup and list parsing.
#[derive(Debug, Clone, Copy, PartialEq, Eq, Structural)]
pub enum ExtractError {
    /// The requested id is at or past the table's entry count; ids `0` to
    /// `total - 1` are valid.
    OutOfRange { id: usize, total: usize },
    /// A computed byte range does not lie within the buffer.
    OutOfBounds,
    /// An external file list spans an odd number of bytes, so it is not a
    /// whole number of 16-bit entries.
    MalformedList { len: usize },
    /// A relocation chain did not terminate within the node capacity of its
    /// buffer, so it revisits a node.
    MalformedChain { offset: usize },
}

/// The start of the runtime relocation list in a file. If the relocations
/// are for pointers into external files, there is the processed list of
/// external file ids.
#[derive(Debug, Clone)]
pub enum RelocInfo {
    Internal(usize),
    External(usize, Vec<u16>),
}

impl RelocInfo {
    /// Byte offset, within the payload, of the chain's first node.
    pub open spec fn spec_start(self) -> int {
        match self {
            RelocInfo::Internal(o) => o as int,
            RelocInfo::External(o, _) => o as int,
        }
    }

    /// The external file ids paired with the chain's nodes, empty for an
    /// internal chain.
    pub open spec fn spec_ids(self) -> Seq<u16> {
        match self {
            RelocInfo::Internal(_) => Seq::empty(),
            RelocInfo::External(_, ids) => ids@,
        }
    }

    pub fn get_starting_offset(&self) -> (o: usize)
        ensures
            o == self.spec_start(),
    {
        match self {
            RelocInfo::Internal(o) => *o,
            RelocInfo::External(o, _) => *o,
        }
    }

    pub fn get_external_files(&self) -> (r: Option<&[u16]>)
        ensures
            match r {
                Some(ids) => self is External && ids@ == self.spec_ids(),
                None => self is Internal,
            },
    {
        match self {
            RelocInfo::Internal(_) => None,
            RelocInfo::External(_, ex) => Some(ex.as_slice()),
        }
    }
}

/// Mathematical form of a resolved table record.
pub ghost struct SpecFile {
    pub id: int,
    pub offset: int,
    pub compressed: bool,
    pub raw: Seq<u8>,
    pub inreloc: Option<int>,
    pub exreloc: Option<(int, Seq<u16>)>,
}

/// One resolved record of the resource table: its decoded fields, a copy of
/// its raw (still possibly compressed) payload bytes, and the relocation
/// chains attached to it.
pub struct TableFile {
    pub id: usize,
    /// byte offset of the payload, relative to the end of the table
    pub offset: usize,
    pub compressed: bool,
    pub raw: Vec<u8>,
    pub inreloc: Option<RelocInfo>,
    pub exreloc: Option<RelocInfo>,
}

impl View for TableFile {
    type V = SpecFile;

    open spec fn view(&self) -> SpecFile {
        SpecFile {
            id: self.id as int,
            offset: self.offset as int,
            compressed: self.compressed,
            raw: self.raw@,
            inreloc: match self.inreloc {
                Some(r) => Some(r.spec_start()),
                None => None,
            },
            exreloc: match self.exreloc {
                Some(r) => Some((r.spec_start(), r.spec_ids())),
                None => None,
            },
        }
    }
}

/// The 16-bit values of an even-length big-endian list, in input order.
pub open spec fn spec_externs(raw: Seq<u8>) -> Seq<u16>
    recommends
        raw.len() % 2 == 0,
{
    Seq::new((raw.len() / 2) as nat, |i: int| be16(raw, 2 * i) as u16)
}

/// Meaning of a table lookup: the record for `id`, its fields decoded from
/// the 12 bytes at `table_start + id * 12`, its payload `[table_end + offset,
/// table_end + offset + size)`, and, when the record has an external chain,
/// the external file list that lies between this record's payload end and the
/// next record's payload start. Errors are exactly those of the resolver.
pub open spec fn spec_resolve(rom: Seq<u8>, info: SSBInfo, id: int) -> Result<
    SpecFile,
    ExtractError,
>
    decreases info.spec_total_entries() - id, 1int,
{
    let total = info.spec_total_entries();
    if id >= total {
        Err(ExtractError::OutOfRange { id: id as usize, total: total as usize })
    } else {
        let base = info.table_start + id * 12;
        if !(base + 12 <= rom.len()) {
            Err(ExtractError::OutOfBounds)
        } else {
            let word = be32(rom, base);
            let offset = word % 0x80000000;
            let compressed = word >= 0x80000000;
            let size = be16(rom, base + 6) * 4;
            let fstart = info.table_end + offset;
            if !(fstart + size <= rom.len()) {
                Err(ExtractError::OutOfBounds)
            } else {
                let raw = rom.subrange(fstart, fstart + size);
                let in_head = be16(rom, base + 4);
                let inreloc: Option<int> = if in_head == 0xFFFF {
                    None
                } else {
                    Some(in_head * 4)
                };
                let ex_head = be16(rom, base + 8);
                if ex_head == 0xFFFF {
                    Ok(SpecFile { id, offset, compressed, raw, inreloc, exreloc: None })
                } else {
                    match spec_next_offset(rom, info, id) {
                        Err(e) => Err(e),
                        Ok(next_start) => {
                            let exoffstart = offset + size;
                            if next_start < exoffstart {
                                Err(ExtractError::OutOfBounds)
                            } else {
                                let span = next_start - exoffstart;
                                let exstart = info.table_end + exoffstart;
                                if !(exstart + span <= rom.len()) {
                                    Err(ExtractError::OutOfBounds)
                                } else if span % 2 != 0 {
                                    Err(ExtractError::MalformedList { len: span as usize })
                                } else {
                                    Ok(
                                        SpecFile {
                                            id,
                                            offset,
                                            compressed,
                                            raw,
                                            inreloc,
                                            exreloc: Some(
                                                (
                                                    ex_head * 4,
                                                    spec_externs(
                                                        rom.subrange(exstart, exstart + span),
                                                    ),
                                                ),
                                            ),
                                        },
                                    )
                                }
                            }
                        }
                    }
                }
            }
        }
    }
}

/// The payload offset of the record after `id`: the next record's decoded
/// offset, or, when `id` is the last real record, the offset word of the
/// table's trailing terminator record.
pub open spec fn spec_next_offset(rom: Seq<u8>, info: SSBInfo, id: int) -> Result<
    int,
    ExtractError,
>
    decreases info.spec_total_entries() - id, 0int,
{
    let total = info.spec_total_entries();
    let next = id + 1;
    if next >= total {
        let start = info.table_start + next * 12;
        if start + 4 <= rom.len() {
            Ok(be32(rom, start))
        } else {
            Err(ExtractError::OutOfBounds)
        }
    } else {
        match spec_resolve(rom, info, next) {
            Ok(f) => Ok(f.offset),
            Err(e) => Err(e),
        }
    }
}

/// A record within the table stays within the address space: the 12 bytes of
/// record `id` end at or before `table_end`.
proof fn lemma_record_in_table(info: SSBInfo, id: int)
    requires
        info.wf(),
        0 <= id < info.spec_total_entries() + 1,
    ensures
        info.table_start + id * 12 + 12 <= info.table_end,
{
    let d = info.table_end - info.table_start;
    assert(d == 12 * (d / 12) + d % 12) by {
        vstd::arithmetic::div_mod::lemma_fundamental_div_mod(d, 12);
    }
    assert(id * 12 <= (d / 12 - 1) * 12) by (nonlinear_arith)
        requires
            id <= d / 12 - 1,
    ;
}

impl TableFile {
    /// Resolve the table record for `id`: decode its fields, copy its payload
    /// slice out of the image, and, when the record has an external chain,
    /// parse the external file list that follows the payload.
    ///
    /// Returns exactly what [`spec_resolve`] gives: in particular, an id at
    /// or past the entry count fails with `OutOfRange` before anything is
    /// read, and a payload or list range outside the image fails with
    /// `OutOfBounds` rather than reading past the buffer.
    pub fn get(id: usize, rom: &[u8], info: &SSBInfo) -> (r: Result<TableFile, ExtractError>)
        requires
            info.wf(),
        ensures
            match r {
                Ok(f) => spec_resolve(rom@, *info, id as int) == Ok::<SpecFile, ExtractError>(f@),
                Err(e) => spec_resolve(rom@, *info, id as int) == Err::<SpecFile, ExtractError>(e),
            },
            id >= info.spec_total_entries() ==> r == Err::<TableFile, ExtractError>(
                (ExtractError::OutOfRange { id, total: info.spec_total_entries() as usize }),
            ),
            r matches Ok(f) ==> ((f.inreloc matches Some(c) ==> c is Internal) && (
            f.exreloc matches Some(c) ==> c is External)),
        decreases info.spec_total_entries() - id, 1int,
    {
        let total = info.total_entries();
        if id >= total {
            return Err(ExtractError::OutOfRange { id, total });
        }
        proof {
            lemma_record_in_table(*info, id as int);
        }
        let base = info.table_start + id * 12;
        if base + 12 > rom.len() {
            return Err(ExtractError::OutOfBounds);
        }
        let word = read_be32(rom, base);
        let compressed = word >= 0x80000000;
        let offset = (word % 0x80000000) as usize;
        let size = (read_be16(rom, base + 6) as usize) * 4;
        if info.table_end > rom.len() || offset > rom.len() - info.table_end {
            return Err(ExtractError::OutOfBounds);
        }
        let fstart = info.table_end + offset;
        if size > rom.len() - fstart {
            return Err(ExtractError::OutOfBounds);
        }
        let raw = slice_to_vec(slice_subrange(rom, fstart, fstart + size));
        let in_head = read_be16(rom, base + 4);
        let inreloc: Option<RelocInfo> = if in_head == 0xFFFF {
            None
        } else {
            Some(RelocInfo::Internal((in_head as usize) * 4))
        };
        let ex_head = read_be16(rom, base + 8);
        if ex_head == 0xFFFF {
            Ok(TableFile { id, offset, compressed, raw, inreloc, exreloc: None })
        } else {
            let next_start = match Self::get_next_entry_offset(id, rom, info) {
                Ok(n) => n,
                Err(e) => {
                    return Err(e);
                },
            };
            let exoffstart = offset + size;
            if next_start < exoffstart {
                return Err(ExtractError::OutOfBounds);
            }
            let span = next_start - exoffstart;
            if exoffstart > rom.len() - info.table_end {
                return Err(ExtractError::OutOfBounds);
            }
            let exstart = info.table_end + exoffstart;
            if span > rom.len() - exstart {
                return Err(ExtractError::OutOfBounds);
            }
            let externs = match Self::parse_externs(slice_subrange(rom, exstart, exstart + span)) {
                Ok(v) => v,
                Err(e) => {
                    return Err(e);
                },
            };
            Ok(
                TableFile {
                    id,
                    offset,
                    compressed,
                    raw,
                    inreloc,
                    exreloc: Some(RelocInfo::External((ex_head as usize) * 4, externs)),
                },
            )
        }
    }

    /// Parse a byte slice as a list of big-endian 16-bit values: on an
    /// even-length slice of `2n` bytes, exactly the `n` values in input
    /// order; an odd-length slice fails with `MalformedList`.
    pub fn parse_externs(raw: &[u8]) -> (r: Result<Vec<u16>, ExtractError>)
        ensures
            raw@.len() % 2 == 0 ==> (r matches Ok(v) && v@ == spec_externs(raw@)),
            raw@.len() % 2 != 0 ==> r == Err::<Vec<u16>, ExtractError>(
                (ExtractError::MalformedList { len: raw@.len() as usize }),
            ),
    {
        if raw.len() % 2 != 0 {
            return Err(ExtractError::MalformedList { len: raw.len() });
        }
        let n = raw.len();
        let mut v: Vec<u16> = Vec::new();
        let mut i: usize = 0;
        while i < n
            invariant
                n == raw@.len(),
                n % 2 == 0,
                i % 2 == 0,
                i <= n,
                v@.len() == i / 2,
                forall|k: int| 0 <= k < v@.len() ==> v@[k] == be16(raw@, 2 * k) as u16,
            decreases n - i,
        {
            let x = read_be16(raw, i);
            v.push(x);
            i = i + 2;
        }
        proof {
            assert(v@ =~= spec_externs(raw@));
        }
        Ok(v)
    }

    /// The payload offset of the record after `id`, read from the next
    /// record, or from the table's terminator record when `id` is the last
    /// real record. Returns exactly what [`spec_next_offset`] gives.
    pub fn get_next_entry_offset(id: usize, rom: &[u8], info: &SSBInfo) -> (r: Result<
        usize,
        ExtractError,
    >)
        requires
            info.wf(),
            id < info.spec_total_entries(),
        ensures
            match r {
                Ok(n) => spec_next_offset(rom@, *info, id as int) == Ok::<int, ExtractError>(
                    n as int,
                ),
                Err(e) => spec_next_offset(rom@, *info, id as int) == Err::<int, ExtractError>(e),
            },
        decreases info.spec_total_entries() - id, 0int,
    {
        let next = id + 1;
        let total = info.total_entries();
        if next >= total {
            proof {
                lemma_record_in_table(*info, next as int);
            }
            let start = info.table_start + next * 12;
            if start + 4 > rom.len() {
                return Err(ExtractError::OutOfBounds);
            }
            let w = read_be32(rom, start);
            Ok(w as usize)
        } else {
            match Self::get(next, rom, info) {
                Ok(e) => Ok(e.offset),
                Err(e) => Err(e),
            }
        }
    }
}

/// Audit log of one chain walk: one `(file id, node offset, pointer)` entry
/// per rewritten node, in chain-traversal order.
pub type Relocations = Vec<(u16, usize, u32)>;

/// Node capacity of a buffer: every chain node is 4 bytes long, so a walk
/// that takes more steps than this has revisited a rewritten node.
pub open spec fn chain_fuel(len: nat) -> nat {
    len / 4 + 1
}

/// One walk of a relocation chain over `buf`, starting at byte offset `pos`.
/// Each visited node holds a big-endian pair `(next, ptr)`, both word-scaled
/// by 4; the walk overwrites the node's 4 bytes with `ptr * 4` as a 32-bit
/// big-endian value, logs `(file id, node offset, ptr * 4)`, and moves to
/// `next * 4`, stopping at the sentinel offset `0xFFFF * 4`. File ids are
/// consumed from `ids` in order, `0` once `ids` is exhausted. Returns the
/// buffer as the walk leaves it, together with the audit log, or the error
/// that stopped the walk.
pub open spec fn spec_walk(buf: Seq<u8>, pos: int, ids: Seq<u16>, fuel: nat) -> (Seq<u8>, Result<
    Seq<(u16, usize, u32)>,
    ExtractError,
>)
    decreases fuel,
{
    if pos == 0xFFFF * 4 {
        (buf, Ok(Seq::empty()))
    } else if !(0 <= pos && pos + 4 <= buf.len()) {
        (buf, Err(ExtractError::OutOfBounds))
    } else if fuel == 0 {
        (buf, Err(ExtractError::MalformedChain { offset: pos as usize }))
    } else {
        let next = be16(buf, pos);
        let ptr = be16(buf, pos + 2) * 4;
        let buf2 = store_be32(buf, pos, ptr);
        let fid = if ids.len() > 0 {
            ids[0]
        } else {
            0u16
        };
        let rest = if ids.len() > 0 {
            ids.skip(1)
        } else {
            ids
        };
        let walked = spec_walk(buf2, next * 4, rest, (fuel - 1) as nat);
        match walked.1 {
            Ok(log) => (walked.0, Ok(seq![(fid, pos as usize, ptr as u32)] + log)),
            Err(e) => (walked.0, Err(e)),
        }
    }
}

/// Law: whenever resolution succeeds, the record's payload slice lies
/// entirely within the image buffer, and the record's raw bytes are exactly
/// the slice `[table_end + offset, table_end + offset + size)` of the image.
pub proof fn lemma_resolved_payload_in_image(rom: Seq<u8>, info: SSBInfo, id: int)
    requires
        spec_resolve(rom, info, id) is Ok,
    ensures
        ({
            let f = spec_resolve(rom, info, id).unwrap();
            &&& id < info.spec_total_entries()
            &&& info.table_end + f.offset + f.raw.len() <= rom.len()
            &&& f.raw == rom.subrange(
                info.table_end + f.offset,
                info.table_end + f.offset + f.raw.len(),
            )
        }),
{
}

/// No two logged nodes overlap: every pair of logged node offsets is at
/// least 4 bytes apart.
pub open spec fn disjoint_nodes(log: Seq<(u16, usize, u32)>) -> bool {
    forall|i: int, j: int|
        0 <= i < j < log.len() ==> log[i].1 + 4 <= log[j].1 || log[j].1 + 4 <= log[i].1
}

/// Byte offset `k` lies inside one of the logged nodes.
pub open spec fn inside_logged_node(log: Seq<(u16, usize, u32)>, k: int) -> bool {
    exists|i: int| 0 <= i < log.len() && (#[trigger] log[i]).1 <= k < log[i].1 + 4
}

/// Law: one successful walk of a chain whose nodes do not overlap rewrites
/// exactly the logged nodes and nothing else. Each logged pointer equals the
/// node's original 16-bit pointer field scaled by 4; after the walk the
/// node's four bytes decode to exactly that pointer, so a second walk over
/// the same buffer would read already-converted fields rather than the
/// original ones; and every byte outside the logged nodes is unchanged.
#[verifier::rlimit(100)]
#[verifier::spinoff_prover]
pub proof fn lemma_walk_one_shot(buf: Seq<u8>, pos: int, ids: Seq<u16>, fuel: nat)
    requires
        buf.len() <= usize::MAX,
        spec_walk(buf, pos, ids, fuel).1 is Ok,
        disjoint_nodes(spec_walk(buf, pos, ids, fuel).1.unwrap()),
    ensures
        ({
            let out = spec_walk(buf, pos, ids, fuel).0;
            let log = spec_walk(buf, pos, ids, fuel).1.unwrap();
            &&& out.len() == buf.len()
            &&& forall|i: int| 0 <= i < log.len() ==> (#[trigger] log[i]).1 + 4 <= buf.len()
            &&& forall|i: int|
                0 <= i < log.len() ==> (#[trigger] log[i]).2 == be16(buf, log[i].1 + 2) * 4
            &&& forall|i: int|
                0 <= i < log.len() ==> be32(out, (#[trigger] log[i]).1 as int) == log[i].2
            &&& forall|k: int|
                0 <= k < buf.len() && !inside_logged_node(log, k) ==> out[k] == buf[k]
        }),
{
    lemma_walk_nodes_read_original(buf, pos, ids, fuel);
    lemma_walk_writes_only_nodes(buf, pos, ids, fuel);
}

/// Law: a walk must be run at most once per chain per buffer. After one
/// successful walk of a non-overlapping chain with at least one node, the
/// head node holds its converted pointer, so a second walk from the same
/// head reads that instead of the original field: if the second walk
/// returns, its first logged pointer is the low 16 bits of the first walk's
/// pointer, scaled by 4 again, which differs from the first walk's pointer
/// whenever that pointer was nonzero. A second walk therefore never
/// reproduces a nonzero first entry; the caller must track which buffers are
/// already relocated.
pub proof fn lemma_walk_not_repeatable(
    buf: Seq<u8>,
    pos: int,
    ids: Seq<u16>,
    ids2: Seq<u16>,
    fuel: nat,
)
    requires
        buf.len() <= usize::MAX,
        spec_walk(buf, pos, ids, fuel).1 is Ok,
        disjoint_nodes(spec_walk(buf, pos, ids, fuel).1.unwrap()),
        spec_walk(buf, pos, ids, fuel).1.unwrap().len() > 0,
    ensures
        ({
            let out = spec_walk(buf, pos, ids, fuel).0;
            let log = spec_walk(buf, pos, ids, fuel).1.unwrap();
            spec_walk(out, pos, ids2, fuel).1 matches Ok(log2) ==> {
                &&& log2.len() > 0
                &&& log2[0].1 == log[0].1
                &&& log2[0].2 == ((log[0].2 as int) % 0x10000) * 4
                &&& (log[0].2 != 0 ==> log2[0] != log[0])
            }
        }),
{
    let out = spec_walk(buf, pos, ids, fuel).0;
    let log = spec_walk(buf, pos, ids, fuel).1.unwrap();
    let p0 = be16(buf, pos + 2);
    lemma_walk_one_shot(buf, pos, ids, fuel);
    // the first walk logged a node at `pos`, so `pos` is not the sentinel,
    // its node lies in the buffer, and the fuel was positive
    assert(log[0].1 == pos && log[0].2 == (p0 * 4) as u32);
    assert(be32(out, pos) == log[0].2);
    // the low 16 bits of the stored 32-bit pointer are its second half
    let a = out[pos] as int;
    let b = out[pos + 1] as int;
    let c = out[pos + 2] as int;
    let d = out[pos + 3] as int;
    assert((a * 0x1000000 + b * 0x10000 + c * 0x100 + d) % 0x10000 == c * 0x100 + d)
        by (nonlinear_arith)
        requires
            0 <= a < 256,
            0 <= b < 256,
            0 <= c < 256,
            0 <= d < 256,
    ;
    assert(be16(out, pos + 2) == be32(out, pos) % 0x10000);
    if spec_walk(out, pos, ids2, fuel).1 is Ok {
        let log2 = spec_walk(out, pos, ids2, fuel).1.unwrap();
        assert(log2[0].1 == pos && log2[0].2 == (be16(out, pos + 2) * 4) as u32);
        if log[0].2 != 0 {
            // (P % 0x10000) * 4 == P forces P == 0
            let p: int = p0 * 4;
            let k = p / 0x10000;
            let m = p % 0x10000;
            vstd::arithmetic::div_mod::lemma_fundamental_div_mod(p, 0x10000);
            assert(p == 0x10000 * k + m);
            assert(0 <= m < 0x10000 && 0 <= k <= 3);
            if m * 4 == p {
                assert(3 * m == k * 0x10000);
                assert(k == 0);
                assert(p == 0);
            }
            assert(log2[0].2 != log[0].2);
        }
    }
}

/// Each logged pointer of a successful, non-overlapping walk equals the
/// node's pointer field as it stood in the original buffer, scaled by 4.
#[verifier::rlimit(100)]
#[verifier::spinoff_prover]
proof fn lemma_walk_nodes_read_original(buf: Seq<u8>, pos: int, ids: Seq<u16>, fuel: nat)
    requires
        buf.len() <= usize::MAX,
        spec_walk(buf, pos, ids, fuel).1 is Ok,
        disjoint_nodes(spec_walk(buf, pos, ids, fuel).1.unwrap()),
    ensures
        ({
            let log = spec_walk(buf, pos, ids, fuel).1.unwrap();
            &&& forall|i: int| 0 <= i < log.len() ==> (#[trigger] log[i]).1 + 4 <= buf.len()
            &&& forall|i: int|
                0 <= i < log.len() ==> (#[trigger] log[i]).2 == be16(buf, log[i].1 + 2) * 4
        }),
    decreases fuel,
{
    let log = spec_walk(buf, pos, ids, fuel).1.unwrap();
    if pos == 0xFFFF * 4 {
    } else {
        let next = be16(buf, pos);
        let ptr = be16(buf, pos + 2) * 4;
        let buf2 = store_be32(buf, pos, ptr);
        let rest = if ids.len() > 0 {
            ids.skip(1)
        } else {
            ids
        };
        let tail = spec_walk(buf2, next * 4, rest, (fuel - 1) as nat).1.unwrap();
        assert(forall|i: int| 0 <= i < tail.len() ==> log[i + 1] == #[trigger] tail[i]);
        lemma_tail_disjoint(log, tail);
        lemma_store_be32_read(buf, pos, ptr);
        lemma_walk_nodes_read_original(buf2, next * 4, rest, (fuel - 1) as nat);
        assert(log[0].1 == pos && log[0].2 == ptr as u32);
        assert forall|i: int| 0 <= i < log.len() implies (#[trigger] log[i]).2 == be16(
            buf,
            log[i].1 + 2,
        ) * 4 by {
            if i > 0 {
                assert(log[i] == tail[i - 1]);
                assert(log[0].1 + 4 <= log[i].1 || log[i].1 + 4 <= log[0].1);
                assert(buf2[log[i].1 + 2] == buf[log[i].1 + 2]);
                assert(buf2[log[i].1 + 3] == buf[log[i].1 + 3]);
            }
        }
    }
}

/// A successful, non-overlapping walk changes only the bytes of the logged
/// nodes, and leaves each logged node holding its logged pointer as a 32-bit
/// big-endian value.
#[verifier::rlimit(100)]
#[verifier::spinoff_prover]
proof fn lemma_walk_writes_only_nodes(buf: Seq<u8>, pos: int, ids: Seq<u16>, fuel: nat)
    requires
        buf.len() <= usize::MAX,
        spec_walk(buf, pos, ids, fuel).1 is Ok,
        disjoint_nodes(spec_walk(buf, pos, ids, fuel).1.unwrap()),
    ensures
        ({
            let out = spec_walk(buf, pos, ids, fuel).0;
            let log = spec_walk(buf, pos, ids, fuel).1.unwrap();
            &&& out.len() == buf.len()
            &&& forall|i: int|
                0 <= i < log.len() ==> be32(out, (#[trigger] log[i]).1 as int) == log[i].2
            &&& forall|k: int|
                0 <= k < buf.len() && !inside_logged_node(log, k) ==> out[k] == buf[k]
        }),
    decreases fuel,
{
    let out = spec_walk(buf, pos, ids, fuel).0;
    let log = spec_walk(buf, pos, ids, fuel).1.unwrap();
    if pos == 0xFFFF * 4 {
    } else {
        let next = be16(buf, pos);
        let ptr = be16(buf, pos + 2) * 4;
        let buf2 = store_be32(buf, pos, ptr);
        let rest = if ids.len() > 0 {
            ids.skip(1)
        } else {
            ids
        };
        let tail = spec_walk(buf2, next * 4, rest, (fuel - 1) as nat).1.unwrap();
        assert(forall|i: int| 0 <= i < tail.len() ==> log[i + 1] == #[trigger] tail[i]);
        lemma_tail_disjoint(log, tail);
        lemma_store_be32_read(buf, pos, ptr);
        lemma_walk_writes_only_nodes(buf2, next * 4, rest, (fuel - 1) as nat);
        assert(log[0].1 == pos && log[0].2 == ptr as u32);
        // the tail's nodes are disjoint from this node, so the walk of the
        // tail leaves the bytes of `[pos, pos + 4)` as this node wrote them
        assert forall|k: int| pos <= k < pos + 4 implies out[k] == buf2[k] by {
            if inside_logged_node(tail, k) {
                let i = choose|i: int|
                    0 <= i < tail.len() && (#[trigger] tail[i]).1 <= k < tail[i].1 + 4;
                assert(log[i + 1] == tail[i]);
                assert(log[0].1 + 4 <= log[i + 1].1 || log[i + 1].1 + 4 <= log[0].1);
            }
        }
        assert(be32(out, pos) == be32(buf2, pos));
        assert forall|k: int|
            0 <= k < buf.len() && !inside_logged_node(log, k) implies out[k] == buf[k] by {
            assert(!(pos <= k < pos + 4)) by {
                assert(log[0].1 <= k < log[0].1 + 4 ==> inside_logged_node(log, k));
            }
            if inside_logged_node(tail, k) {
                let i = choose|i: int|
                    0 <= i < tail.len() && (#[trigger] tail[i]).1 <= k < tail[i].1 + 4;
                assert(log[i + 1] == tail[i]);
            }
            assert(!inside_logged_node(tail, k));
            assert(out[k] == buf2[k]);
            assert(buf2[k] == buf[k]);
        }
    }
}

/// Disjointness of a log's nodes carries to the log without its first entry.
proof fn lemma_tail_disjoint(log: Seq<(u16, usize, u32)>, tail: Seq<(u16, usize, u32)>)
    requires
        log.len() == tail.len() + 1,
        forall|i: int| 0 <= i < tail.len() ==> log[i + 1] == #[trigger] tail[i],
        disjoint_nodes(log),
    ensures
        disjoint_nodes(tail),
{
    assert forall|i: int, j: int| 0 <= i < j < tail.len() implies (#[trigger] tail[i]).1 + 4 <= (
    #[trigger] tail[j]).1 || tail[j].1 + 4 <= tail[i].1 by {
        assert(log[i + 1] == tail[i]);
        assert(log[j + 1] == tail[j]);
    }
}

/// Walk a relocation chain in place. At each node the 16-bit pair
/// `(next, ptr)` is read before any byte of the node is written, the node is
/// overwritten with `ptr * 4` as a 4-byte big-endian value, and
/// `(file id, node offset, ptr * 4)` is appended to the audit log. The chain
/// ends at the sentinel `next == 0xFFFF`; a node outside the buffer fails
/// with `OutOfBounds`, and a walk longer than the buffer's node capacity
/// fails with `MalformedChain`. The buffer is left exactly as [`spec_walk`]
/// says, also on failure.
#[verifier::rlimit(50)]
pub fn write_relocations(file: &mut Vec<u8>, reloc: &RelocInfo) -> (r: Result<
    Relocations,
    ExtractError,
>)
    ensures
        ({
            let walked = spec_walk(
                old(file)@,
                reloc.spec_start(),
                reloc.spec_ids(),
                chain_fuel(old(file)@.len()),
            );
            &&& final(file)@ == walked.0
            &&& match r {
                Ok(log) => walked.1 == Ok::<Seq<(u16, usize, u32)>, ExtractError>(log@),
                Err(e) => walked.1 == Err::<Seq<(u16, usize, u32)>, ExtractError>(e),
            }
        }),
{
    let end: usize = 0xFFFF * 4;
    let ghost orig = file@;
    let ghost ids = reloc.spec_ids();
    let cap: usize = file.len() / 4 + 1;
    let mut relocations: Relocations = Vec::new();
    let ex: Option<&[u16]> = reloc.get_external_files();
    let mut exi: usize = 0;
    let mut steps: usize = 0;
    let mut next: usize = reloc.get_starting_offset();
    proof {
        assert(ids.skip(0int) =~= ids);
    }
    while next != end
        invariant
            end == 0xFFFF * 4,
            orig == old(file)@,
            ids == reloc.spec_ids(),
            file@.len() == orig.len(),
            cap == chain_fuel(orig.len()),
            steps <= cap,
            match ex {
                Some(l) => l@ == ids && exi <= l@.len(),
                None => ids.len() == 0 && exi == 0,
            },
            ({
                let walked0 = spec_walk(orig, reloc.spec_start(), ids, chain_fuel(orig.len()));
                let walked = spec_walk(
                    file@,
                    next as int,
                    ids.skip(exi as int),
                    (cap - steps) as nat,
                );
                &&& walked0.0 == walked.0
                &&& match walked.1 {
                    Ok(log) => walked0.1 == Ok::<Seq<(u16, usize, u32)>, ExtractError>(
                        relocations@ + log,
                    ),
                    Err(e) => walked0.1 == Err::<Seq<(u16, usize, u32)>, ExtractError>(e),
                }
            }),
        decreases cap - steps,
    {
        if file.len() < 4 || next > file.len() - 4 {
            return Err(ExtractError::OutOfBounds);
        }
        if steps == cap {
            return Err(ExtractError::MalformedChain { offset: next });
        }
        let ghost pre = file@;
        let ghost exi0 = exi as int;
        let raw_next = read_be16(file.as_slice(), next);
        let ptr_field = read_be16(file.as_slice(), next + 2);
        let ptr: u32 = (ptr_field as u32) * 4;
        write_be32(file, next, ptr);
        let fid: u16 = match ex {
            Some(l) => {
                if exi < l.len() {
                    let f = l[exi];
                    exi = exi + 1;
                    f
                } else {
                    0
                }
            },
            None => 0,
        };
        let ghost log0 = relocations@;
        relocations.push((fid, next, ptr));
        proof {
            let rem = ids.skip(exi0);
            if rem.len() > 0 {
                assert(ids.skip(exi0).skip(1) =~= ids.skip(exi0 + 1));
            }
            let fuel0 = (cap - steps) as nat;
            let walked = spec_walk(pre, next as int, rem, fuel0);
            let tail = spec_walk(
                file@,
                raw_next as int * 4,
                ids.skip(exi as int),
                (fuel0 - 1) as nat,
            );
            assert(walked.0 == tail.0);
            let entry = (fid, next, ptr);
            assert(relocations@ =~= log0 + seq![entry]);
            if tail.1 is Ok {
                let log = tail.1.unwrap();
                assert(walked.1 == Ok::<Seq<(u16, usize, u32)>, ExtractError>(seq![entry] + log));
                assert(log0 + (seq![entry] + log) =~= (log0 + seq![entry]) + log);
            }
        }
        steps = steps + 1;
        next = (raw_next as usize) * 4;
    }
    proof {
        assert(relocations@ + Seq::<(u16, usize, u32)>::empty() =~= relocations@);
    }
    Ok(relocations)
}

/// The audit logs of one relocation pass: the internal chain's entries and
/// the external chain's entries, each present only when the record has that
/// chain.
#[derive(Debug)]
pub struct FileReloc {
    pub internal: Option<Relocations>,
    pub external: Option<Relocations>,
}

/// The start offset and external file ids of an optional chain, as
/// [`spec_relocate`] consumes them.
pub open spec fn spec_chain(r: Option<RelocInfo>) -> Option<(int, Seq<u16>)> {
    match r {
        Some(c) => Some((c.spec_start(), c.spec_ids())),
        None => None,
    }
}

/// One relocation pass over a payload buffer: the internal chain is walked
/// first when present, then the external chain, both over the same buffer.
/// Returns the buffer as the pass leaves it, and the two audit logs or the
/// error that stopped the pass.
pub open spec fn spec_relocate(buf: Seq<u8>, inr: Option<(int, Seq<u16>)>, exr: Option<(int, Seq<u16>)>)
    -> (Seq<u8>, Result<(Option<Seq<(u16, usize, u32)>>, Option<Seq<(u16, usize, u32)>>), ExtractError>) {
    let walked_in = match inr {
        Some((start, ids)) => spec_walk(buf, start, ids, chain_fuel(buf.len())),
        None => (buf, Ok(Seq::empty())),
    };
    match walked_in.1 {
        Err(e) => (walked_in.0, Err(e)),
        Ok(in_log) => {
            let walked_ex = match exr {
                Some((start, ids)) => spec_walk(walked_in.0, start, ids, chain_fuel(walked_in.0.len())),
                None => (walked_in.0, Ok(Seq::empty())),
            };
            match walked_ex.1 {
                Err(e) => (walked_ex.0, Err(e)),
                Ok(ex_log) => (
                    walked_ex.0,
                    Ok(
                        (
                            if inr is Some {
                                Some(in_log)
                            } else {
                                None
                            },
                            if exr is Some {
                                Some(ex_log)
                            } else {
                                None
                            },
                        ),
                    ),
                ),
            }
        },
    }
}

/// Run the record's relocation chains over the payload buffer, internal chain
/// first, and collect the audit logs. The buffer must be the record's
/// (decompressed) payload; running this twice over the same buffer
/// double-converts the pointer fields, so the caller tracks whether a buffer
/// has already been relocated.
pub fn relocate(file: Vec<u8>, entry: &TableFile) -> (r: Result<(Vec<u8>, FileReloc), ExtractError>)
    ensures
        ({
            let passed = spec_relocate(file@, spec_chain(entry.inreloc), spec_chain(entry.exreloc));
            match r {
                Ok((out, logs)) => {
                    &&& out@ == passed.0
                    &&& passed.1 matches Ok(p) && p == (
                        match logs.internal {
                            Some(l) => Some(l@),
                            None => None,
                        },
                        match logs.external {
                            Some(l) => Some(l@),
                            None => None,
                        },
                    )
                },
                Err(e) => passed.1 == Err::<
                    (Option<Seq<(u16, usize, u32)>>, Option<Seq<(u16, usize, u32)>>),
                    ExtractError,
                >(e),
            }
        }),
{
    let mut buffer = file;
    let mut relocs = FileReloc { internal: None, external: None };
    if let Some(reloc) = &entry.inreloc {
        match write_relocations(&mut buffer, reloc) {
            Ok(l) => {
                relocs.internal = Some(l);
            },
            Err(e) => {
                return Err(e);
            },
        }
    }
    if let Some(exreloc) = &entry.exreloc {
        match write_relocations(&mut buffer, exreloc) {
            Ok(l) => {
                relocs.external = Some(l);
            },
            Err(e) => {
                return Err(e);
            },
        }
    }
    Ok((buffer, relocs))
}

/// The three ways to export a record's payload: the raw (possibly
/// compressed) bytes, the decompressed bytes, or the decompressed bytes with
/// the relocation chains rewritten.
#[derive(Debug, Clone, Copy, PartialEq, Eq, Structural)]
pub enum Mode {
    RawBytes,
    Decompressed,
    Relocated,
}

/// Errors of the full export pipeline: a resolver or relocation failure, or
/// a compressed payload that the caller-run decompressor rejected.
#[derive(Debug)]
pub enum DataError {
    Extract(ExtractError),
    Decode(vpk0::errors::VpkError),
}

/// The bytes of a decompression verdict supplied by the caller: the
/// decompressed payload when the decoder accepted its input, `None` when it
/// rejected the input or no verdict exists.
pub open spec fn spec_verdict_bytes(
    verdict: Option<Result<Vec<u8>, vpk0::errors::VpkError>>,
) -> Option<Seq<u8>> {
    match verdict {
        Some(Ok(d)) => Some(d@),
        _ => None,
    }
}

/// Whether exporting record `id` in the given mode consults the caller-run
/// decompressor: every mode but the raw one decompresses a compressed
/// record's payload.
pub open spec fn spec_mode_needs_decode(rom: Seq<u8>, info: SSBInfo, id: int, mode: Mode) -> bool {
    &&& mode != Mode::RawBytes
    &&& (spec_resolve(rom, info, id) matches Ok(f) && f.compressed)
}

/// Meaning of a full export, over the caller-run decompressor's verdict
/// bytes `decoded` for the record's stored payload: resolve the record, take
/// the decompressed bytes when the mode asks for them and the record is
/// compressed, and, in relocated mode, run the relocation pass over the
/// (decompressed) payload. `Err(None)` is a rejected compressed payload;
/// `Err(Some(e))` is a resolver or relocation error.
pub open spec fn spec_export(
    rom: Seq<u8>,
    info: SSBInfo,
    id: int,
    mode: Mode,
    decoded: Option<Seq<u8>>,
) -> Result<
    (Seq<u8>, Option<(Option<Seq<(u16, usize, u32)>>, Option<Seq<(u16, usize, u32)>>)>),
    Option<ExtractError>,
> {
    match spec_resolve(rom, info, id) {
        Err(e) => Err(Some(e)),
        Ok(f) => match mode {
            Mode::RawBytes => Ok((f.raw, None)),
            Mode::Decompressed => {
                if f.compressed {
                    match decoded {
                        Some(d) => Ok((d, None)),
                        None => Err(None),
                    }
                } else {
                    Ok((f.raw, None))
                }
            },
            Mode::Relocated => {
                let data = if f.compressed {
                    decoded
                } else {
                    Some(f.raw)
                };
                match data {
                    None => Err(None),
                    Some(d) => {
                        let inr = match f.inreloc {
                            Some(o) => Some((o, Seq::<u16>::empty())),
                            None => None,
                        };
                        let passed = spec_relocate(d, inr, f.exreloc);
                        match passed.1 {
                            Err(e) => Err(Some(e)),
                            Ok(logs) => Ok((passed.0, Some(logs))),
                        }
                    },
                }
            },
        },
    }
}

/// Export the payload of record `id` in the given mode. The library does not
/// run the vpk0 decoder (see [`crate::vpk`]): when the record is compressed
/// and the mode decompresses, the caller runs the decoder on the record's
/// stored payload and hands in its verdict as `decoded`, whose error value
/// is carried through unchanged. In relocated mode the returned logs are the
/// internal and external audit logs of the relocation pass; in the other
/// modes no relocation is performed and no logs are returned. Returns
/// exactly what [`spec_export`] gives for the verdict's bytes.
pub fn export_entry(
    rom: &[u8],
    id: usize,
    info: &SSBInfo,
    mode: Mode,
    decoded: Option<Result<Vec<u8>, vpk0::errors::VpkError>>,
) -> (r: Result<(Vec<u8>, Option<FileReloc>), DataError>)
    requires
        info.wf(),
        spec_mode_needs_decode(rom@, *info, id as int, mode) ==> decoded is Some,
    ensures
        match r {
            Ok((data, logs)) => spec_export(
                rom@,
                *info,
                id as int,
                mode,
                spec_verdict_bytes(decoded),
            ) matches Ok(s)
                && s.0 == data@ && s.1 == match logs {
                Some(fr) => Some(
                    (
                        match fr.internal {
                            Some(l) => Some(l@),
                            None => None,
                        },
                        match fr.external {
                            Some(l) => Some(l@),
                            None => None,
                        },
                    ),
                ),
                None => None::<(Option<Seq<(u16, usize, u32)>>, Option<Seq<(u16, usize, u32)>>)>,
            },
            Err(DataError::Extract(e)) => spec_export(
                rom@,
                *info,
                id as int,
                mode,
                spec_verdict_bytes(decoded),
            ) == Err::<
                (Seq<u8>, Option<(Option<Seq<(u16, usize, u32)>>, Option<Seq<(u16, usize, u32)>>)>),
                Option<ExtractError>,
            >(Some(e)),
            Err(DataError::Decode(e)) => decoded == Some(
                Err::<Vec<u8>, vpk0::errors::VpkError>(e),
            ) && spec_export(rom@, *info, id as int, mode, spec_verdict_bytes(decoded)) == Err::<
                (Seq<u8>, Option<(Option<Seq<(u16, usize, u32)>>, Option<Seq<(u16, usize, u32)>>)>),
                Option<ExtractError>,
            >(None),
        },
{
    let entry = match TableFile::get(id, rom, info) {
        Ok(f) => f,
        Err(e) => {
            return Err(DataError::Extract(e));
        },
    };
    match mode {
        Mode::RawBytes => Ok((entry.raw, None)),
        Mode::Decompressed => {
            if entry.compressed {
                match decoded {
                    Some(Ok(d)) => Ok((d, None)),
                    Some(Err(e)) => Err(DataError::Decode(e)),
                    None => vstd::pervasive::unreached(),
                }
            } else {
                Ok((entry.raw, None))
            }
        },
        Mode::Relocated => {
            let data: Vec<u8> = if entry.compressed {
                match decoded {
                    Some(Ok(d)) => d,
                    Some(Err(e)) => {
                        return Err(DataError::Decode(e));
                    },
                    None => vstd::pervasive::unreached(),
                }
            } else {
                slice_to_vec(entry.raw.as_slice())
            };
            match relocate(data, &entry) {
                Ok((out, logs)) => Ok((out, Some(logs))),
                Err(e) => Err(DataError::Extract(e)),
            }
        },
    }
}

} // verus!
