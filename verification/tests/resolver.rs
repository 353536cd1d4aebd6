use ssb_resource::extract::{DataError, ExtractError, Mode, RelocInfo, TableFile};
use ssb_resource::versions::SSBInfo;

fn put_be16(buf: &mut Vec<u8>, at: usize, v: u16) {
    buf[at] = (v >> 8) as u8;
    buf[at + 1] = (v & 0xFF) as u8;
}

fn put_be32(buf: &mut Vec<u8>, at: usize, v: u32) {
    buf[at] = (v >> 24) as u8;
    buf[at + 1] = (v >> 16) as u8;
    buf[at + 2] = (v >> 8) as u8;
    buf[at + 3] = (v & 0xFF) as u8;
}

/// An image with a one-record table: offset 0x10, uncompressed, no chains,
/// stored size of four words (16 bytes).
fn single_record_image() -> (Vec<u8>, SSBInfo) {
    let info = SSBInfo { crc1: 0, crc2: 0, table_start: 0, table_end: 24 };
    let mut rom = vec![0u8; 24 + 0x10 + 16];
    put_be32(&mut rom, 0, 0x00000010);
    put_be16(&mut rom, 4, 0xFFFF);
    put_be16(&mut rom, 6, 4);
    put_be16(&mut rom, 8, 0xFFFF);
    put_be16(&mut rom, 10, 0);
    // terminator record: next data begins right after this payload
    put_be32(&mut rom, 12, 0x10 + 16);
    for i in 0..16usize {
        rom[24 + 0x10 + i] = (0xA0 + i) as u8;
    }
    (rom, info)
}

#[test]
fn resolve_uncompressed_record() {
    let (rom, info) = single_record_image();
    assert_eq!(info.total_entries(), 1);
    let f = TableFile::get(0, &rom, &info).unwrap();
    assert_eq!(f.id, 0);
    assert_eq!(f.offset, 0x10);
    assert!(!f.compressed);
    assert_eq!(f.raw.len(), 16);
    assert_eq!(&f.raw[..], &rom[24 + 0x10..24 + 0x10 + 16]);
    assert!(f.inreloc.is_none());
    assert!(f.exreloc.is_none());
}

#[test]
fn raw_export_returns_payload_unchanged() {
    let (rom, info) = single_record_image();
    let (data, logs) = ssb_resource::extract::export_entry(&rom, 0, &info, Mode::RawBytes, None).unwrap();
    assert_eq!(&data[..], &rom[24 + 0x10..24 + 0x10 + 16]);
    assert!(logs.is_none());
}

#[test]
fn id_at_entry_count_is_out_of_range() {
    let (rom, info) = single_record_image();
    match TableFile::get(1, &rom, &info) {
        Err(ExtractError::OutOfRange { id, total }) => {
            assert_eq!(id, 1);
            assert_eq!(total, 1);
        },
        other => panic!("expected OutOfRange, got {:?}", other.map(|f| f.id)),
    }
}

#[test]
fn last_valid_id_succeeds() {
    let (rom, info) = single_record_image();
    assert!(TableFile::get(0, &rom, &info).is_ok());
}

#[test]
fn payload_past_image_end_is_out_of_bounds() {
    let (mut rom, info) = single_record_image();
    rom.truncate(24 + 0x10 + 15);
    assert!(matches!(TableFile::get(0, &rom, &info), Err(ExtractError::OutOfBounds)));
}

/// An image with two records where record 0 has an external chain and an
/// external file list between its payload and record 1's payload.
fn two_record_image() -> (Vec<u8>, SSBInfo) {
    let info = SSBInfo { crc1: 0, crc2: 0, table_start: 0, table_end: 36 };
    let mut rom = vec![0u8; 36 + 0x40];
    // record 0: payload at offset 0, size 8 bytes, external chain head at 0
    put_be32(&mut rom, 0, 0);
    put_be16(&mut rom, 4, 0xFFFF);
    put_be16(&mut rom, 6, 2);
    put_be16(&mut rom, 8, 0);
    put_be16(&mut rom, 10, 2);
    // record 1: payload at offset 12 (8 payload bytes + 4 list bytes)
    put_be32(&mut rom, 12, 12);
    put_be16(&mut rom, 16, 0xFFFF);
    put_be16(&mut rom, 18, 1);
    put_be16(&mut rom, 20, 0xFFFF);
    put_be16(&mut rom, 22, 1);
    // terminator
    put_be32(&mut rom, 24, 16);
    // record 0 payload: a 2-node chain at 0x00: (next=1 -> 0x04, ptr=0x10)
    // then (next=0xFFFF, ptr=0x20)
    put_be16(&mut rom, 36, 1);
    put_be16(&mut rom, 38, 0x10);
    put_be16(&mut rom, 40, 0xFFFF);
    put_be16(&mut rom, 42, 0x20);
    // external file list: ids 5 and 7
    put_be16(&mut rom, 44, 5);
    put_be16(&mut rom, 46, 7);
    (rom, info)
}

#[test]
fn external_list_is_parsed_with_the_record() {
    let (rom, info) = two_record_image();
    assert_eq!(info.total_entries(), 2);
    let f = TableFile::get(0, &rom, &info).unwrap();
    match f.exreloc {
        Some(RelocInfo::External(start, ids)) => {
            assert_eq!(start, 0);
            assert_eq!(ids, vec![5, 7]);
        },
        other => panic!("expected external chain, got {:?}", other),
    }
}

#[test]
fn odd_external_span_is_malformed() {
    let (mut rom, info) = two_record_image();
    // move record 1's payload offset by one: the list span becomes 5 bytes
    put_be32(&mut rom, 12, 13);
    assert!(matches!(
        TableFile::get(0, &rom, &info),
        Err(ExtractError::MalformedList { len: 5 })
    ));
}

#[test]
fn next_offset_before_payload_end_is_out_of_bounds() {
    let (mut rom, info) = two_record_image();
    // record 1's payload may not begin before record 0's payload ends
    put_be32(&mut rom, 12, 4);
    assert!(matches!(TableFile::get(0, &rom, &info), Err(ExtractError::OutOfBounds)));
}

#[test]
fn relocated_export_rewrites_the_payload() {
    let (rom, info) = two_record_image();
    let (data, logs) = ssb_resource::extract::export_entry(&rom, 0, &info, Mode::Relocated, None)
        .unwrap();
    let logs = logs.unwrap();
    assert!(logs.internal.is_none());
    assert_eq!(logs.external.unwrap(), vec![(5u16, 0usize, 0x40u32), (7u16, 4usize, 0x80u32)]);
    assert_eq!(data, vec![0x00, 0x00, 0x00, 0x40, 0x00, 0x00, 0x00, 0x80]);
}

#[test]
fn decompressed_export_unpacks_a_compressed_payload() {
    let original = vec![7u8; 32];
    let mut packed = vpk0::encode_bytes(&original).unwrap();
    while packed.len() % 4 != 0 {
        packed.push(0);
    }
    let info = SSBInfo { crc1: 0, crc2: 0, table_start: 0, table_end: 24 };
    let mut rom = vec![0u8; 24 + packed.len()];
    put_be32(&mut rom, 0, 0x80000000);
    put_be16(&mut rom, 4, 0xFFFF);
    put_be16(&mut rom, 6, (packed.len() / 4) as u16);
    put_be16(&mut rom, 8, 0xFFFF);
    put_be32(&mut rom, 12, packed.len() as u32);
    for (i, b) in packed.iter().enumerate() {
        rom[24 + i] = *b;
    }
    let f = TableFile::get(0, &rom, &info).unwrap();
    assert!(f.compressed);
    let verdict = vpk0::decode_bytes(&packed);
    let (data, logs) =
        ssb_resource::extract::export_entry(&rom, 0, &info, Mode::Decompressed, Some(verdict))
            .unwrap();
    assert_eq!(data, original);
    assert!(logs.is_none());
    // raw mode leaves the compressed bytes alone
    let (raw, _) = ssb_resource::extract::export_entry(&rom, 0, &info, Mode::RawBytes, None).unwrap();
    assert_eq!(raw, packed);
}

#[test]
fn rejected_verdict_is_a_decode_error() {
    // a compressed record whose stored payload the decoder rejects
    let info = SSBInfo { crc1: 0, crc2: 0, table_start: 0, table_end: 24 };
    let mut rom = vec![0u8; 24 + 4];
    put_be32(&mut rom, 0, 0x80000000);
    put_be16(&mut rom, 4, 0xFFFF);
    put_be16(&mut rom, 6, 1);
    put_be16(&mut rom, 8, 0xFFFF);
    put_be32(&mut rom, 12, 4);
    put_be32(&mut rom, 24, 0xDEADBEEF);
    let verdict = vpk0::decode_bytes(&rom[24..28]);
    assert!(verdict.is_err());
    match ssb_resource::extract::export_entry(&rom, 0, &info, Mode::Decompressed, Some(verdict)) {
        Err(DataError::Decode(_)) => (),
        _ => panic!("expected a decode error"),
    }
}

#[test]
fn version_lookup_needs_known_checksums() {
    let mut rom = vec![0u8; 0x40];
    assert!(ssb_resource::versions::find_version(&rom).is_none());
    put_be32(&mut rom, 0x10, 0x916B8B5B);
    put_be32(&mut rom, 0x14, 0x780B85A4);
    let info = ssb_resource::versions::find_version(&rom).unwrap();
    assert_eq!(info.table_start, 0x1AC870);
    assert_eq!(info.table_end, 0x1B2C6C);
    assert_eq!(info.total_entries(), (0x1B2C6C - 0x1AC870) / 12 - 1);
    let short = vec![0u8; 4];
    assert!(ssb_resource::versions::find_version(&short).is_none());
}
