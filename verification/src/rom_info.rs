//! Identifying information read from an N64 ROM header.

use vstd::prelude::*;
use vstd::string::{StrSliceExecFns, StringSliceAdditionalSpecFns};
use crate::bytes::{be32, read_be32};
use vstd::slice::slice_subrange;
use vstd::utf8::{decode_utf8, is_char_boundary, valid_utf8};

verus! {

/// Error type of `core::str::from_utf8`, opaque to verification.
#[verifier::external_type_specification]
#[verifier::external_body]
pub struct ExUtf8Error(core::str::Utf8Error);

/// Relies on `core::str::from_utf8`: succeeds exactly on valid UTF-8 and
/// returns the decoded characters of the input bytes.
pub assume_specification<'a>[ core::str::from_utf8 ](v: &'a [u8]) -> (r: Result<
    &'a str,
    core::str::Utf8Error,
>)
    ensures
        r is Ok <==> valid_utf8(v@),
        r matches Ok(s) ==> s@ == decode_utf8(v@),
;

/// The errors that can arise from parsing an N64 ROM image for its header.
#[derive(Debug)]
pub enum N64ParseError {
    ImageTooSmall(usize),
    Name(core::str::Utf8Error),
    GameCode(core::str::Utf8Error),
    UnknownMediaFormat(char),
    UnknownCountry(char),
}

/// The types of N64 media as recognized by Nintendo for their "game code"
/// naming schema, read from the code's first character.
#[derive(Debug, Clone, Copy, PartialEq, Eq, Structural)]
pub enum N64MediaFormat {
    Cart,
    Disk,
    ExpandableCart,
}

/// The media format named by the game code's first character, or the
/// offending character when it names none ('?' for an empty code).
pub open spec fn spec_media_format(code: Seq<char>) -> Result<N64MediaFormat, char> {
    if code.len() == 0 {
        Err('?')
    } else if code[0] == 'N' {
        Ok(N64MediaFormat::Cart)
    } else if code[0] == 'D' {
        Ok(N64MediaFormat::Disk)
    } else if code[0] == 'E' {
        Ok(N64MediaFormat::ExpandableCart)
    } else {
        Err(code[0])
    }
}

impl N64MediaFormat {
    fn from_game_code(code: &str) -> (r: Result<N64MediaFormat, N64ParseError>)
        ensures
            match r {
                Ok(f) => spec_media_format(code@) == Ok::<N64MediaFormat, char>(f),
                Err(e) => (e matches N64ParseError::UnknownMediaFormat(c) && spec_media_format(
                    code@,
                ) == Err::<N64MediaFormat, char>(c)),
            },
    {
        if code.unicode_len() == 0 {
            return Err(N64ParseError::UnknownMediaFormat('?'));
        }
        let first = code.get_char(0);
        match first {
            'N' => Ok(N64MediaFormat::Cart),
            'D' => Ok(N64MediaFormat::Disk),
            'E' => Ok(N64MediaFormat::ExpandableCart),
            unk => Err(N64ParseError::UnknownMediaFormat(unk)),
        }
    }
}

/// The regions for a game as recognized by Nintendo for their "game code"
/// naming schema, read from the code's fourth byte.
#[derive(Debug, Clone, Copy, PartialEq, Eq, Structural)]
pub enum N64CountryCode {
    GenericNTSC,
    Brazilian,
    Chinese,
    German,
    NorthAmerica,
    French,
    Gateway64NTSC,
    Dutch,
    Italian,
    Japanese,
    Korean,
    Gateway64PAL,
    Canadian,
    European,
    Spanish,
    Australian,
    Scandinavian,
    Others,
}

/// The country named by the byte `b` of a game code.
pub open spec fn spec_country_of_byte(b: u8) -> Result<N64CountryCode, char> {
    if b == 0x41 {
        Ok(N64CountryCode::GenericNTSC)
    } else if b == 0x42 {
        Ok(N64CountryCode::Brazilian)
    } else if b == 0x43 {
        Ok(N64CountryCode::Chinese)
    } else if b == 0x44 {
        Ok(N64CountryCode::German)
    } else if b == 0x45 {
        Ok(N64CountryCode::NorthAmerica)
    } else if b == 0x46 {
        Ok(N64CountryCode::French)
    } else if b == 0x47 {
        Ok(N64CountryCode::Gateway64NTSC)
    } else if b == 0x48 {
        Ok(N64CountryCode::Dutch)
    } else if b == 0x49 {
        Ok(N64CountryCode::Italian)
    } else if b == 0x4A {
        Ok(N64CountryCode::Japanese)
    } else if b == 0x4B {
        Ok(N64CountryCode::Korean)
    } else if b == 0x4C {
        Ok(N64CountryCode::Gateway64PAL)
    } else if b == 0x4E {
        Ok(N64CountryCode::Canadian)
    } else if b == 0x50 {
        Ok(N64CountryCode::European)
    } else if b == 0x53 {
        Ok(N64CountryCode::Spanish)
    } else if b == 0x55 {
        Ok(N64CountryCode::Australian)
    } else if b == 0x57 {
        Ok(N64CountryCode::Scandinavian)
    } else if b == 0x58 || b == 0x59 || b == 0x5A {
        Ok(N64CountryCode::Others)
    } else {
        Err(b as char)
    }
}

/// The country named by a game code with the given UTF-8 bytes: its fourth
/// byte decides, provided the byte range `3..4` of the code is a whole
/// character; otherwise the country is unknown ('?').
pub open spec fn spec_country_code_bytes(bytes: Seq<u8>) -> Result<N64CountryCode, char> {
    if bytes.len() >= 4 && is_char_boundary(bytes, 3) && is_char_boundary(bytes, 4) {
        spec_country_of_byte(bytes[3])
    } else {
        Err('?')
    }
}

/// The country named by the game code; see [`spec_country_code_bytes`].
pub open spec fn spec_country_code(code: &str) -> Result<N64CountryCode, char> {
    spec_country_code_bytes(code.spec_bytes())
}

impl N64CountryCode {
    fn from_game_code(code: &str) -> (r: Result<N64CountryCode, N64ParseError>)
        ensures
            match r {
                Ok(c) => spec_country_code(code) == Ok::<N64CountryCode, char>(c),
                Err(e) => (e matches N64ParseError::UnknownCountry(c) && spec_country_code(code)
                    == Err::<N64CountryCode, char>(c)),
            },
    {
        let bytes = code.as_bytes();
        if bytes.len() < 4 || !code.is_char_boundary(3) || !code.is_char_boundary(4) {
            return Err(N64ParseError::UnknownCountry('?'));
        }
        let b = bytes[3];
        match b {
            0x41 => Ok(N64CountryCode::GenericNTSC),
            0x42 => Ok(N64CountryCode::Brazilian),
            0x43 => Ok(N64CountryCode::Chinese),
            0x44 => Ok(N64CountryCode::German),
            0x45 => Ok(N64CountryCode::NorthAmerica),
            0x46 => Ok(N64CountryCode::French),
            0x47 => Ok(N64CountryCode::Gateway64NTSC),
            0x48 => Ok(N64CountryCode::Dutch),
            0x49 => Ok(N64CountryCode::Italian),
            0x4A => Ok(N64CountryCode::Japanese),
            0x4B => Ok(N64CountryCode::Korean),
            0x4C => Ok(N64CountryCode::Gateway64PAL),
            0x4E => Ok(N64CountryCode::Canadian),
            0x50 => Ok(N64CountryCode::European),
            0x53 => Ok(N64CountryCode::Spanish),
            0x55 => Ok(N64CountryCode::Australian),
            0x57 => Ok(N64CountryCode::Scandinavian),
            0x58 | 0x59 | 0x5A => Ok(N64CountryCode::Others),
            unk => Err(N64ParseError::UnknownCountry(unk as char)),
        }
    }
}

/// Identifying information about an N64 ROM, read from its 0x40-byte header.
#[derive(Debug)]
pub struct N64Header {
    pub crc1: u32,
    pub crc2: u32,
    pub name: String,
    pub game_code: String,
    pub format: N64MediaFormat,
    pub country_code: N64CountryCode,
    pub version: u8,
}

impl N64Header {
    /// Parse a byte slice of a big-endian ROM image into an `N64Header`. The
    /// slice must start at the beginning of the ROM; an image shorter than
    /// the 0x40-byte header fails with `ImageTooSmall`, a name or game code
    /// that is not UTF-8 fails with `Name` or `GameCode`, and a game code
    /// that names no known media format or country fails with the offending
    /// character.
    pub fn from_rom(rom: &[u8]) -> (r: Result<N64Header, N64ParseError>)
        ensures
            ({
                let name_bytes = rom@.subrange(0x20, 0x34);
                let code_bytes = rom@.subrange(0x3b, 0x3f);
                match r {
                    Ok(h) => {
                        &&& rom@.len() >= 0x40
                        &&& valid_utf8(name_bytes)
                        &&& valid_utf8(code_bytes)
                        &&& h.crc1 == be32(rom@, 0x10)
                        &&& h.crc2 == be32(rom@, 0x14)
                        &&& h.name@ == decode_utf8(name_bytes)
                        &&& h.game_code@ == decode_utf8(code_bytes)
                        &&& h.version == rom@[0x3f]
                        &&& spec_media_format(decode_utf8(code_bytes)) == Ok::<
                            N64MediaFormat,
                            char,
                        >(h.format)
                        &&& spec_country_code_bytes(code_bytes) == Ok::<N64CountryCode, char>(
                            h.country_code,
                        )
                    },
                    Err(N64ParseError::ImageTooSmall(n)) => rom@.len() < 0x40 && n == rom@.len(),
                    Err(N64ParseError::Name(_)) => rom@.len() >= 0x40 && !valid_utf8(name_bytes),
                    Err(N64ParseError::GameCode(_)) => rom@.len() >= 0x40 && valid_utf8(name_bytes)
                        && !valid_utf8(code_bytes),
                    Err(N64ParseError::UnknownMediaFormat(c)) => rom@.len() >= 0x40 && valid_utf8(
                        name_bytes,
                    ) && valid_utf8(code_bytes) && spec_media_format(decode_utf8(code_bytes))
                        == Err::<N64MediaFormat, char>(c),
                    Err(N64ParseError::UnknownCountry(c)) => rom@.len() >= 0x40 && valid_utf8(
                        name_bytes,
                    ) && valid_utf8(code_bytes) && spec_media_format(decode_utf8(code_bytes)) is Ok
                        && spec_country_code_bytes(code_bytes) == Err::<N64CountryCode, char>(c),
                }
            }),
    {
        if rom.len() < 0x40 {
            return Err(N64ParseError::ImageTooSmall(rom.len()));
        }
        let crc1 = read_be32(rom, 0x10);
        let crc2 = read_be32(rom, 0x14);
        let name = match core::str::from_utf8(slice_subrange(rom, 0x20, 0x34)) {
            Ok(s) => s,
            Err(e) => {
                return Err(N64ParseError::Name(e));
            },
        };
        let game_code = match core::str::from_utf8(slice_subrange(rom, 0x3b, 0x3f)) {
            Ok(s) => s,
            Err(e) => {
                return Err(N64ParseError::GameCode(e));
            },
        };
        proof {
            vstd::utf8::decode_utf8_encode_utf8(rom@.subrange(0x3b, 0x3f));
        }
        let version = rom[0x3f];
        let format = match N64MediaFormat::from_game_code(game_code) {
            Ok(f) => f,
            Err(e) => {
                return Err(e);
            },
        };
        let country_code = match N64CountryCode::from_game_code(game_code) {
            Ok(c) => c,
            Err(e) => {
                return Err(e);
            },
        };
        Ok(
            N64Header {
                crc1,
                crc2,
                name: name.to_owned(),
                game_code: game_code.to_owned(),
                format,
                country_code,
                version,
            },
        )
    }

    /// The four-character game code from the header.
    pub fn get_game_code(&self) -> (r: &str)
        ensures
            r@ == self.game_code@,
    {
        self.game_code.as_str()
    }
}

/// Low 16 bits of `x`, read as a signed 16-bit immediate.
pub open spec fn spec_sext16(x: int) -> int {
    let v = x % 0x10000;
    if v >= 0x8000 {
        v - 0x10000
    } else {
        v
    }
}

/// The 32-bit value assembled from the immediate fields of two MIPS
/// instructions: the upper immediate, sign-extended and shifted, plus the
/// lower immediate, which is unsigned exactly when the lower instruction is
/// an `ori` (opcode 0x20 in the top byte).
pub open spec fn spec_asm_immediate(upper: u32, lower: u32) -> int {
    let u = spec_sext16(upper as int) * 0x10000;
    let l = if lower / 0x1000000 == 0x20 {
        (lower as int) % 0x10000
    } else {
        spec_sext16(lower as int)
    };
    u + l
}

/// Extract a 32-bit value from the immediate fields of two MIPS
/// instructions. The combination must fit a signed 32-bit value; only a
/// negative lower immediate under the most negative upper immediate does
/// not.
pub fn extract_asm_immediate(upper: u32, lower: u32) -> (r: i32)
    requires
        -0x80000000 <= spec_asm_immediate(upper, lower),
    ensures
        r == spec_asm_immediate(upper, lower),
{
    let upper_imm: i64 = (upper % 0x10000) as i64;
    let u: i64 = (if upper_imm >= 0x8000 {
        upper_imm - 0x10000
    } else {
        upper_imm
    }) * 0x10000;
    // check for ori (0x20..), as that's the only relevant unsigned opcode
    let l: i64 = if lower / 0x1000000 == 0x20 {
        (lower % 0x10000) as i64
    } else {
        let low: i64 = (lower % 0x10000) as i64;
        if low >= 0x8000 {
            low - 0x10000
        } else {
            low
        }
    };
    (u + l) as i32
}

} // verus!
