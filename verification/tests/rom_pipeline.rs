use ssb_resource::export::{file_and_info, ExportError};
use ssb_resource::ssb::{Ssb64, Ssb64Error};
use ssb_resource::ResError;

fn w16(buf: &mut Vec<u8>, at: usize, v: u16) {
    buf[at] = (v >> 8) as u8;
    buf[at + 1] = (v & 0xFF) as u8;
}

fn w32(buf: &mut Vec<u8>, at: usize, v: u32) {
    buf[at] = (v >> 24) as u8;
    buf[at + 1] = (v >> 16) as u8;
    buf[at + 2] = (v >> 8) as u8;
    buf[at + 3] = (v & 0xFF) as u8;
}

const TBL: usize = 0x60000;

/// A NTSC-U ROM with a two-record resource table.
///
/// Record 0's payload is `payload0` (its stored size must be a multiple of
/// four); record 0 carries an internal chain head at payload offset 0 when
/// `with_chain` is set, and an external chain head at payload offset 8 with
/// the external file list `[3, 4]`. Record 1's payload is 4 zero bytes.
fn fake_rom(payload0: &[u8], compressed: bool, with_chain: bool) -> Vec<u8> {
    assert_eq!(payload0.len() % 4, 0);
    let mut rom = vec![0u8; 0x70000];
    // header: name, game code
    for i in 0x20..0x34 {
        rom[i] = b' ';
    }
    rom[0x3b] = b'N';
    rom[0x3c] = b'A';
    rom[0x3d] = b'L';
    rom[0x3e] = b'E';
    // table pointer and entry count (2, via lui 0 / ori 2)
    w32(&mut rom, 0x41F08, TBL as u32);
    w32(&mut rom, 0x527E8, 0x3C010000);
    w32(&mut rom, 0x527F8, 0x20210002);
    // record 0: payload at offset 0
    w32(&mut rom, TBL, 0);
    w16(&mut rom, TBL + 4, if with_chain { 0 } else { 0xFFFF });
    w16(&mut rom, TBL + 6, (payload0.len() / 4) as u16);
    w16(&mut rom, TBL + 8, if with_chain { 2 } else { 0xFFFF });
    w16(&mut rom, TBL + 10, (payload0.len() / 4) as u16);
    if compressed {
        rom[TBL] = 0x80;
    }
    // record 1: payload right after record 0's payload and its 4 list bytes
    let off1 = payload0.len() as u32 + if with_chain { 4 } else { 0 };
    w32(&mut rom, TBL + 12, off1);
    w16(&mut rom, TBL + 16, 0xFFFF);
    w16(&mut rom, TBL + 18, 1);
    w16(&mut rom, TBL + 20, 0xFFFF);
    w16(&mut rom, TBL + 22, 1);
    // terminator
    w32(&mut rom, TBL + 24, off1 + 4);
    // payloads sit after the terminator record
    let end = TBL + 36;
    for (i, b) in payload0.iter().enumerate() {
        rom[end + i] = *b;
    }
    if with_chain {
        // external file list for record 0: ids 3 and 4
        w16(&mut rom, end + payload0.len(), 3);
        w16(&mut rom, end + payload0.len() + 2, 4);
    }
    rom
}

#[test]
fn ssb64_reads_the_table_of_a_ntsc_u_rom() {
    let rom = fake_rom(&[1, 2, 3, 4], false, false);
    let ssb = Ssb64::from_rom(&rom).unwrap();
    let (entry, ptr) = ssb.get_res_tbl_entry(&rom, 0).unwrap();
    assert!(!entry.is_compressed());
    assert_eq!(entry.get_size(), (4, 4));
    assert_eq!(ptr, TBL + 36);
    assert_eq!(&rom[ptr..ptr + 4], &[1, 2, 3, 4]);
}

#[test]
fn unknown_game_code_fails_with_the_code() {
    let mut rom = fake_rom(&[1, 2, 3, 4], false, false);
    rom[0x3e] = b'J';
    match Ssb64::from_rom(&rom) {
        Err(Ssb64Error::UnknownVersion(code)) => assert_eq!(code, "NALJ"),
        _ => panic!("expected UnknownVersion"),
    }
}

#[test]
fn illegal_file_reports_the_range() {
    let rom = fake_rom(&[1, 2, 3, 4], false, false);
    let ssb = Ssb64::from_rom(&rom).unwrap();
    match ssb.get_res_tbl_entry(&rom, 2) {
        Err(Ssb64Error::IllegalFile(id, total)) => {
            assert_eq!(id, 2);
            assert_eq!(total, 2);
        },
        _ => panic!("expected IllegalFile"),
    }
}

#[test]
fn file_returns_raw_bytes_without_decompression() {
    let rom = fake_rom(&[9, 8, 7, 6], false, false);
    let data = ssb_resource::export::file(&rom, 0, false, None).unwrap();
    assert_eq!(data, vec![9, 8, 7, 6]);
}

#[test]
fn file_decompresses_a_compressed_payload() {
    let original: Vec<u8> = b"ABBACABBACDABBACABBACD".iter().flat_map(|b| [*b, *b]).collect();
    let mut packed = vpk0::encode_bytes(&original).unwrap();
    while packed.len() % 4 != 0 {
        packed.push(0);
    }
    let rom = fake_rom(&packed, true, false);
    // without decompression the raw vpk0 stream comes back
    let raw = ssb_resource::export::file(&rom, 0, false, None).unwrap();
    assert_eq!(raw, packed);
    // with decompression the caller-run decoder's output comes back
    let verdict = vpk0::decode_bytes(&packed);
    let data = ssb_resource::export::file(&rom, 0, true, Some(verdict)).unwrap();
    assert_eq!(data, original);
}

#[test]
fn garbage_compressed_payload_is_a_decode_error() {
    let rom = fake_rom(&[0xDE, 0xAD, 0xBE, 0xEF], true, false);
    let verdict = vpk0::decode_bytes(&[0xDE, 0xAD, 0xBE, 0xEF]);
    match ssb_resource::export::file(&rom, 0, true, Some(verdict)) {
        Err(ResError::Export(ExportError::VpkDecode(_))) => (),
        _ => panic!("expected VpkDecode"),
    }
}

#[test]
fn info_pairs_external_nodes_with_listed_files() {
    // payload: an internal chain at 0 and an external chain at 8, one node
    // each, padded to 12 bytes
    let mut payload = vec![0u8; 12];
    w16(&mut payload, 0, 0xFFFF);
    w16(&mut payload, 2, 0x10);
    w16(&mut payload, 8, 0xFFFF);
    w16(&mut payload, 10, 0x20);
    let rom = fake_rom(&payload, false, true);
    let (data, res_info) = file_and_info(&rom, 0, None).unwrap();
    assert_eq!(data, payload);
    assert!(!res_info.compress);
    assert_eq!(res_info.internal_ptrs.unwrap(), vec![0]);
    let ext = res_info.external_ptrs.unwrap();
    assert_eq!(ext.len(), 1);
    assert_eq!(ext.get(&8), Some(&3));
    let again = ssb_resource::export::info(&rom, 0, None).unwrap();
    assert_eq!(again.internal_ptrs.unwrap(), vec![0]);
}

#[test]
fn too_small_rom_fails_header_parsing() {
    let rom = vec![0u8; 0x10];
    assert!(matches!(
        Ssb64::from_rom(&rom),
        Err(Ssb64Error::N64ParseError(_))
    ));
}

#[test]
fn rom_without_table_words_is_out_of_bounds() {
    let mut rom = vec![0u8; 0x1000];
    for i in 0x20..0x34 {
        rom[i] = b' ';
    }
    rom[0x3b] = b'N';
    rom[0x3c] = b'A';
    rom[0x3d] = b'L';
    rom[0x3e] = b'E';
    assert!(matches!(Ssb64::from_rom(&rom), Err(Ssb64Error::OutOfBounds)));
}
