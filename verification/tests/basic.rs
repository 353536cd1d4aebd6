use ssb_resource::extract::{ExtractError, Mode, TableFile};
use ssb_resource::render::{generate_filename, generate_reloc_filename};
use ssb_resource::rom_info::{extract_asm_immediate, N64Header, N64ParseError};

#[test]
fn it_works() {
    assert_eq!(2 + 2, 4);
}

#[test]
fn parse_externs_rejects_odd_length() {
    let raw = [1u8, 2, 3];
    assert!(matches!(
        TableFile::parse_externs(&raw),
        Err(ExtractError::MalformedList { len: 3 })
    ));
}

#[test]
fn parse_externs_keeps_input_order() {
    let raw = [0x00u8, 0x05, 0x00, 0x07, 0x12, 0x34];
    assert_eq!(TableFile::parse_externs(&raw).unwrap(), vec![5, 7, 0x1234]);
}

#[test]
fn parse_externs_of_empty_slice_is_empty() {
    let raw: [u8; 0] = [];
    assert_eq!(TableFile::parse_externs(&raw).unwrap(), Vec::<u16>::new());
}

#[test]
fn asm_immediate_combines_signed_halves() {
    // lui 0x0001; addiu -4 (0xFFFC sign-extended)
    assert_eq!(extract_asm_immediate(0x3C010001, 0x2421FFFC), 0xFFFC);
    // lui 0x0001; ori 0xFFFC (unsigned because of the 0x20 opcode byte)
    assert_eq!(extract_asm_immediate(0x3C010001, 0x2021FFFC), 0x1FFFC);
    assert_eq!(extract_asm_immediate(0x00000000, 0x00000002), 2);
}

#[test]
fn header_needs_the_full_header_block() {
    let rom = vec![0u8; 0x20];
    assert!(matches!(
        N64Header::from_rom(&rom),
        Err(N64ParseError::ImageTooSmall(0x20))
    ));
}

fn ascii_header_rom(code: &[u8; 4]) -> Vec<u8> {
    let mut rom = vec![0u8; 0x40];
    for i in 0x20..0x34 {
        rom[i] = b' ';
    }
    rom[0x3b] = code[0];
    rom[0x3c] = code[1];
    rom[0x3d] = code[2];
    rom[0x3e] = code[3];
    rom
}

#[test]
fn header_reads_game_code_and_crcs() {
    let mut rom = ascii_header_rom(b"NALE");
    rom[0x10] = 0x12;
    rom[0x11] = 0x34;
    rom[0x3f] = 9;
    let h = N64Header::from_rom(&rom).unwrap();
    assert_eq!(h.get_game_code(), "NALE");
    assert_eq!(h.crc1, 0x12340000);
    assert_eq!(h.crc2, 0);
    assert_eq!(h.version, 9);
}

#[test]
fn header_rejects_invalid_name_bytes() {
    let mut rom = ascii_header_rom(b"NALE");
    rom[0x21] = 0xFF;
    assert!(matches!(N64Header::from_rom(&rom), Err(N64ParseError::Name(_))));
}

#[test]
fn header_rejects_unknown_media_format() {
    let rom = ascii_header_rom(b"XALE");
    assert!(matches!(
        N64Header::from_rom(&rom),
        Err(N64ParseError::UnknownMediaFormat('X'))
    ));
}

#[test]
fn header_rejects_unknown_country() {
    let rom = ascii_header_rom(b"NALQ");
    assert!(matches!(
        N64Header::from_rom(&rom),
        Err(N64ParseError::UnknownCountry('Q'))
    ));
}

#[test]
fn filenames_follow_the_mode() {
    assert_eq!(generate_filename(3, Mode::RawBytes, true), "raw-0003.vpk");
    assert_eq!(generate_filename(3, Mode::RawBytes, false), "raw-0003.bin");
    assert_eq!(generate_filename(3, Mode::Decompressed, true), "file-0003.bin");
    assert_eq!(generate_filename(12345, Mode::Relocated, false), "file-12345.bin");
    assert_eq!(generate_filename(0, Mode::Relocated, false), "file-0000.bin");
}

#[test]
fn reloc_filename_replaces_the_extension() {
    assert_eq!(generate_reloc_filename("file-0001.bin"), "file-0001-relocs.txt");
    assert_eq!(generate_reloc_filename("noext"), "noext-relocs.txt");
    assert_eq!(generate_reloc_filename(".hidden"), ".hidden-relocs.txt");
    assert_eq!(generate_reloc_filename("a.b.c"), "a.b-relocs.txt");
}

#[test]
fn report_renders_both_sections() {
    let relocs = ssb_resource::extract::FileReloc {
        internal: Some(vec![(0u16, 0x00usize, 0x40u32), (0u16, 0x10usize, 0x80u32)]),
        external: Some(vec![(5u16, 0x08usize, 0x1234u32)]),
    };
    let expected = "# Relocations\n\
                    ## Internal Relocations\n\
                    * 000000 -> 00000040\n\
                    * 000010 -> 00000080\n\
                    \n\
                    ## External Relocations\n\
                    * 000008 -> 00001234 from 5\n";
    assert_eq!(relocs.report(), expected);
}

#[test]
fn report_without_chains_is_just_the_heading() {
    let relocs = ssb_resource::extract::FileReloc { internal: None, external: None };
    assert_eq!(relocs.report(), "# Relocations\n\n");
}
